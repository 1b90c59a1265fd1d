//! The composer: sending, editing, and closing a chat.

use vstd::prelude::*;

use crate::app::frame::insertion_point;
use crate::app::messages::{retexted, revised};
use crate::app::{
    index_of_id, lemma_index_of_id, stopped_composing, text_of, App, Compose, Conversation, Effect,
    Screen,
};
use crate::backend::{commands_view, Command, CommandView};
use crate::model::{Content, Message};
use crate::settings::Settings;
use crate::text::trimmed;

verus! {

/// The message with an id in a chat's loaded history given a new text.
#[verifier::opaque]
pub open spec fn message_retexted(
    before: App,
    chat: Seq<char>,
    id: Seq<char>,
    text: Seq<char>,
    after: App,
) -> bool {
    if before.conversations@.contains_key(chat) {
        let c = before.conversations@[chat];
        let c2 = after.conversations@[chat];
        &&& after.conversations@ == before.conversations@.insert(chat, c2)
        &&& c2 == Conversation { messages: c2.messages, ..c }
        &&& revised(c.messages@, id, c2.messages@, |m: Message, m2: Message| retexted(m, text, m2))
        &&& after == (App { conversations: after.conversations, ..before })
    } else {
        after == before
    }
}

/// What sending does once we stop being shown as typing: a change to the
/// message being edited, or a new message.
#[verifier::opaque]
pub open spec fn sent_after_stop(
    editing: Option<String>,
    s1: App,
    chat: Seq<char>,
    t: Seq<char>,
    quoting: Option<Seq<char>>,
    after: App,
) -> bool {
    match editing {
        Some(id) => exists|s2: App|
            #![trigger message_retexted(App { compose: Compose { editing: None, ..s1.compose }, ..s1 }, chat, id@, t, s2)]
            {
                &&& message_retexted(
                    App { compose: Compose { editing: None, ..s1.compose }, ..s1 },
                    chat,
                    id@,
                    t,
                    s2,
                )
                &&& commands_view(after.outbox@) == commands_view(s2.outbox@).push(
                    CommandView::EditText { chat, id: id@, text: t },
                )
                &&& after == (App { outbox: after.outbox, ..s2 })
            },
        None => {
            &&& commands_view(after.outbox@) == commands_view(s1.outbox@).push(
                CommandView::SendText { chat, text: t, quoting },
            )
            &&& after == (App {
                outbox: after.outbox,
                view: Screen { scroll_to_bottom: true, at_bottom: true, ..s1.view },
                ..s1
            })
        },
    }
}

/// Sending what the composer holds: nothing when it is blank; otherwise,
/// after we stop being shown as typing, a change to the message being
/// edited, or a new message.
#[verifier::opaque]
pub open spec fn text_sent(
    before: App,
    chat: Seq<char>,
    text: Seq<char>,
    quoting: Option<Seq<char>>,
    after: App,
) -> bool {
    let t = trimmed(text);
    if t.len() == 0 {
        after == before
    } else {
        exists|s1: App|
            #![trigger stopped_composing(before, chat, s1)]
            stopped_composing(before, chat, s1) && sent_after_stop(
                before.compose.editing,
                s1,
                chat,
                t,
                quoting,
                after,
            )
    }
}

/// Closing the open chat: we stop being shown as typing there, and what
/// the composer held is kept as its draft unless it was an edit or blank.
#[verifier::opaque]
pub open spec fn chat_closed(before: App, after: App) -> bool {
    match before.open_chat {
        Some(chat) => exists|s1: App|
            #![trigger stopped_composing(before, chat@, s1)]
            stopped_composing(before, chat@, s1) && {
                &&& after.drafts@ == if before.compose.editing is None && trimmed(
                    before.composer@,
                ).len() > 0 {
                    before.drafts@.insert(chat@, before.composer)
                } else {
                    before.drafts@
                }
                &&& after.composer@.len() == 0
                &&& after == (App {
                    open_chat: None,
                    drafts: after.drafts,
                    composer: after.composer,
                    compose: Compose { reply_to: None, editing: None, ..s1.compose },
                    ..s1
                })
            },
        None => after == (App { compose: Compose { reply_to: None, ..before.compose }, ..before }),
    }
}

/// The text of a message of the open chat, when it is a text message.
pub open spec fn editable_text(before: App, id: Seq<char>) -> Option<Seq<char>> {
    match before.open_chat {
        Some(chat) => if before.conversations@.contains_key(chat@) {
            let messages = before.conversations@[chat@].messages@;
            match index_of_id(messages, id) {
                Some(i) => match messages[i].content {
                    Content::Text { text, .. } => Some(text@),
                    _ => None,
                },
                None => None,
            }
        } else {
            None
        },
        None => None,
    }
}

/// Putting one of our messages back in the composer to change it.
#[verifier::opaque]
pub open spec fn edit_started(before: App, id: String, after: App) -> bool {
    match editable_text(before, id@) {
        Some(text) => {
            &&& after.composer@ == text
            &&& after == (App {
                composer: after.composer,
                compose: Compose { editing: Some(id), reply_to: None, ..before.compose },
                view: Screen { focus_composer: true, ..before.view },
                ..before
            })
        },
        None => after == before,
    }
}

/// The emoji picked lately after picking one: it goes first, once, and
/// at most 36 are kept.
pub open spec fn recent_after(recent: Seq<String>, emoji: String) -> Seq<String> {
    let others = recent.filter(other_than(emoji));
    let all = seq![emoji] + others;
    if all.len() <= 36 {
        all
    } else {
        all.take(36)
    }
}

/// Whether an entry is another emoji than this one.
pub open spec fn other_than(emoji: String) -> spec_fn(String) -> bool {
    |e: String| e@ != emoji@
}

/// No emoji is listed twice.
pub open spec fn distinct_emoji(s: Seq<String>) -> bool {
    forall|i: int, j: int| 0 <= i < j < s.len() ==> (#[trigger] s[i])@ != (#[trigger] s[j])@
}

proof fn lemma_filter_distinct(s: Seq<String>, pred: spec_fn(String) -> bool)
    ensures
        forall|x: String| s.filter(pred).contains(x) ==> s.contains(x),
        distinct_emoji(s) ==> distinct_emoji(s.filter(pred)),
    decreases s.len(),
{
    reveal(Seq::filter);
    if s.len() > 0 {
        let init = s.drop_last();
        let last = s.last();
        let sub = init.filter(pred);
        lemma_filter_distinct(init, pred);
        let out = s.filter(pred);
        assert(out == if pred(last) { sub.push(last) } else { sub });
        assert forall|x: String| out.contains(x) implies s.contains(x) by {
            let k = choose|k: int| 0 <= k < out.len() && out[k] == x;
            if pred(last) && k == out.len() - 1 {
                assert(s[s.len() - 1] == x);
            } else {
                assert(sub[k] == x);
                assert(sub.contains(x));
                assert(init.contains(x));
                let j = choose|j: int| 0 <= j < init.len() && init[j] == x;
                assert(s[j] == x);
            }
        }
        if distinct_emoji(s) {
            assert(distinct_emoji(init)) by {
                assert forall|i: int, j: int| 0 <= i < j < init.len() implies (#[trigger] init[i])@
                    != (#[trigger] init[j])@ by {
                    assert(init[i] == s[i] && init[j] == s[j]);
                }
            }
            assert forall|i: int, j: int| 0 <= i < j < out.len() implies (#[trigger] out[i])@ != (
            #[trigger] out[j])@ by {
                if pred(last) && j == out.len() - 1 {
                    assert(out[j] == last);
                    assert(sub[i] == out[i]);
                    assert(sub.contains(out[i]));
                    assert(init.contains(out[i]));
                    let k = choose|k: int| 0 <= k < init.len() && init[k] == out[i];
                    assert(s[k] == out[i] && s[s.len() - 1] == last);
                } else {
                    assert(sub[i] == out[i] && sub[j] == out[j]);
                }
            }
        }
    }
}

/// Picking an emoji puts it first in the list of those picked lately, and
/// there once; the others keep their order behind it, no entry comes
/// twice where none did, at most 36 are kept, and while there is room
/// nothing else is dropped.
pub proof fn picking_an_emoji_puts_it_first(recent: Seq<String>, emoji: String)
    ensures
        recent_after(recent, emoji).len() >= 1,
        recent_after(recent, emoji)[0] == emoji,
        recent_after(recent, emoji).len() <= 36,
        recent_after(recent, emoji).skip(1) == recent.filter(other_than(emoji)).take(
            recent_after(recent, emoji).len() - 1,
        ),
        forall|i: int|
            1 <= i < recent_after(recent, emoji).len() ==> (#[trigger] recent_after(
                recent,
                emoji,
            )[i])@ != emoji@ && recent.contains(recent_after(recent, emoji)[i]),
        distinct_emoji(recent) ==> distinct_emoji(recent_after(recent, emoji)),
        recent.len() < 36 ==> forall|i: int|
            0 <= i < recent.len() && (#[trigger] recent[i])@ != emoji@ ==> recent_after(
                recent,
                emoji,
            ).contains(recent[i]),
{
    let pred = other_than(emoji);
    let others = recent.filter(pred);
    let all = seq![emoji] + others;
    let r = recent_after(recent, emoji);
    recent.filter_lemma(pred);
    lemma_filter_distinct(recent, pred);
    assert(r =~= all.take(r.len() as int));
    assert(r.skip(1) =~= others.take(r.len() - 1));
    assert forall|i: int| 1 <= i < r.len() implies (#[trigger] r[i])@ != emoji@ && recent.contains(
        r[i],
    ) by {
        assert(r[i] == others[i - 1]);
        assert(pred(others[i - 1]));
        assert(others.contains(others[i - 1]));
    }
    if distinct_emoji(recent) {
        assert forall|i: int, j: int| 0 <= i < j < r.len() implies (#[trigger] r[i])@ != (
        #[trigger] r[j])@ by {
            assert(r[j] == others[j - 1]);
            if i > 0 {
                assert(r[i] == others[i - 1]);
            } else {
                assert(pred(others[j - 1]));
            }
        }
    }
    if recent.len() < 36 {
        assert(r =~= all);
        assert forall|i: int| 0 <= i < recent.len() && (#[trigger] recent[i])@ != emoji@ implies r.contains(
            recent[i],
        ) by {
            assert(pred(recent[i]));
            assert(others.contains(recent[i]));
            let k = choose|k: int| 0 <= k < others.len() && others[k] == recent[i];
            assert(r[k + 1] == recent[i]);
        }
    }
}

impl App {
    /// Gives a message of a loaded chat a new text.
    fn retext_message(&mut self, chat: &str, id: &str, text: &str)
        ensures
            message_retexted(*old(self), chat@, id@, text@, *final(self)),
    {
        proof {
            reveal(message_retexted);
        }
        if !self.conversations.contains_key(chat) {
            return;
        }
        match self.conversations.remove(chat) {
            Some(mut c) => {
                let ghost c0 = c;
                c.retext(id, text);
                let ghost c2 = c;
                self.conversations.insert(String::from_str(chat), c);
                assert(self.conversations@ =~= old(self).conversations@.insert(chat@, c2));
            },
            None => {},
        }
    }

    /// Sends what the composer holds to a chat, or changes the message
    /// being edited.
    pub fn send_text(&mut self, chat: String, text: String, quoting: Option<String>)
        ensures
            text_sent(*old(self), chat@, text@, text_of(quoting), *final(self)),
    {
        proof {
            reveal(stopped_composing);
            reveal(message_retexted);
            reveal(sent_after_stop);
            reveal(text_sent);
        }
        let trimmed_text = crate::text::from_chars(
            crate::text::trim_chars(crate::text::chars_of(text.as_str()).as_slice()).as_slice(),
        );
        if trimmed_text.as_str().unicode_len() == 0 {
            return;
        }
        self.stop_composing(chat.as_str());
        let ghost s1 = *self;
        match self.compose.editing.take() {
            Some(id) => {
                self.retext_message(chat.as_str(), id.as_str(), trimmed_text.as_str());
                let ghost s2 = *self;
                self.send(Command::EditText { chat, id, text: trimmed_text });
                assert(message_retexted(
                    App { compose: Compose { editing: None, ..s1.compose }, ..s1 },
                    chat@,
                    old(self).compose.editing->0@,
                    trimmed(text@),
                    s2,
                ));
                assert(sent_after_stop(old(self).compose.editing, s1, chat@, trimmed(text@), text_of(quoting), *self));
            },
            None => {
                self.send(Command::SendText { chat, text: trimmed_text, quoting });
                self.view.scroll_to_bottom = true;
                self.view.at_bottom = true;
                assert(sent_after_stop(old(self).compose.editing, s1, chat@, trimmed(text@), text_of(quoting), *self));
            },
        }
    }

    /// Closes the open chat, keeping what was typed as its draft.
    pub fn close_chat(&mut self)
        ensures
            chat_closed(*old(self), *final(self)),
    {
        proof {
            reveal(stopped_composing);
            reveal(chat_closed);
        }
        match self.open_chat.take() {
            Some(chat) => {
                self.open_chat = Some(chat);
                let chat = match &self.open_chat {
                    Some(c) => c.clone(),
                    None => String::new(),
                };
                self.stop_composing(chat.as_str());
                let ghost s1 = *self;
                self.open_chat = None;
                let mut draft = String::new();
                std::mem::swap(&mut draft, &mut self.composer);
                let editing = self.compose.editing.take();
                let blank = crate::text::trim_chars(
                    crate::text::chars_of(draft.as_str()).as_slice(),
                ).len() == 0;
                if editing.is_none() && !blank {
                    self.drafts.insert(chat, draft);
                }
                self.compose.reply_to = None;
            },
            None => {
                self.compose.reply_to = None;
            },
        }
    }

    /// Puts one of our messages of the open chat back in the composer.
    pub fn start_edit(&mut self, id: String)
        ensures
            edit_started(*old(self), id, *final(self)),
    {
        proof {
            reveal(edit_started);
        }
        let text = match &self.open_chat {
            Some(chat) => match self.conversations.get(chat.as_str()) {
                Some(conversation) => match conversation.message(id.as_str()) {
                    Some(message) => match &message.content {
                        Content::Text { text, .. } => Some(text.clone()),
                        _ => None,
                    },
                    None => None,
                },
                None => None,
            },
            None => None,
        };
        match text {
            Some(text) => {
                self.compose.editing = Some(id);
                self.compose.reply_to = None;
                self.composer = text;
                self.view.focus_composer = true;
            },
            None => {},
        }
    }

    /// Stops changing a message; what the composer held goes.
    pub fn cancel_edit(&mut self)
        ensures
            old(self).compose.editing is Some ==> final(self).composer@.len() == 0 && *final(self)
                == (App {
                composer: final(self).composer,
                compose: Compose { editing: None, ..old(self).compose },
                ..*old(self)
            }),
            old(self).compose.editing is None ==> *final(self) == *old(self),
    {
        if self.compose.editing.is_some() {
            self.compose.editing = None;
            self.composer = String::new();
        }
    }

    /// An emoji picked in the picker: it goes into the composer where the
    /// cursor is (at the end without one), the cursor moves past it, and it
    /// goes first among those picked lately.
    pub fn insert_emoji(&mut self, emoji: String, cursor: Option<usize>)
        ensures
            final(self).settings.recent_emoji@ == recent_after(
                old(self).settings.recent_emoji@,
                emoji,
            ),
            final(self).composer@ == if old(self).composer@.len() + emoji@.len() <= usize::MAX {
                old(self).composer@.take(insertion_point(old(self).composer@, cursor)) + emoji@
                    + old(self).composer@.skip(insertion_point(old(self).composer@, cursor))
            } else {
                old(self).composer@
            },
            final(self).effects@ == if old(self).composer@.len() + emoji@.len() <= usize::MAX
                && cursor is Some {
                old(self).effects@.push(
                    Effect::ComposerCursor(
                        (insertion_point(old(self).composer@, cursor) + emoji@.len()) as usize,
                    ),
                )
            } else {
                old(self).effects@
            },
            *final(self) == (App {
                composer: final(self).composer,
                settings: Settings {
                    recent_emoji: final(self).settings.recent_emoji,
                    ..old(self).settings
                },
                saving: crate::app::Saving { dirty: true, ..old(self).saving },
                effects: final(self).effects,
                view: Screen { focus_composer: true, ..old(self).view },
                ..*old(self)
            }),
    {
        self.put_emoji_in_composer(emoji.as_str(), cursor);
        self.remember_emoji(emoji);
    }

    /// An emoji put into the composer at the cursor, the cursor then moved
    /// past it; nothing happens where the two lengths would not fit a
    /// `usize`.
    fn put_emoji_in_composer(&mut self, emoji: &str, cursor: Option<usize>)
        ensures
            final(self).composer@ == if old(self).composer@.len() + emoji@.len() <= usize::MAX {
                old(self).composer@.take(insertion_point(old(self).composer@, cursor)) + emoji@
                    + old(self).composer@.skip(insertion_point(old(self).composer@, cursor))
            } else {
                old(self).composer@
            },
            final(self).effects@ == if old(self).composer@.len() + emoji@.len() <= usize::MAX
                && cursor is Some {
                old(self).effects@.push(
                    Effect::ComposerCursor(
                        (insertion_point(old(self).composer@, cursor) + emoji@.len()) as usize,
                    ),
                )
            } else {
                old(self).effects@
            },
            *final(self) == (App {
                composer: final(self).composer,
                effects: final(self).effects,
                ..*old(self)
            }),
    {
        let fits = self.composer.as_str().unicode_len().checked_add(emoji.unicode_len());
        if fits.is_some() {
            let after = self.insert_in_composer(cursor, emoji);
            if cursor.is_some() {
                self.effects.push(Effect::ComposerCursor(after));
            }
        }
    }

    /// An emoji first among those picked lately, the settings to be saved,
    /// and the composer to take the focus.
    fn remember_emoji(&mut self, emoji: String)
        ensures
            final(self).settings.recent_emoji@ == recent_after(
                old(self).settings.recent_emoji@,
                emoji,
            ),
            *final(self) == (App {
                settings: Settings {
                    recent_emoji: final(self).settings.recent_emoji,
                    ..old(self).settings
                },
                saving: crate::app::Saving { dirty: true, ..old(self).saving },
                view: Screen { focus_composer: true, ..old(self).view },
                ..*old(self)
            }),
    {
        let mut recent: Vec<String> = Vec::new();
        std::mem::swap(&mut recent, &mut self.settings.recent_emoji);
        let ghost all = recent@;
        let mut kept: Vec<String> = Vec::new();
        kept.push(emoji.clone());
        let ghost first = kept@[0];
        let mut rest = recent;
        let mut k: usize = 0;
        assert(all.take(0).filter(|e: String| e@ != emoji@) =~= Seq::<String>::empty());
        assert(all.skip(0) =~= all);
        assert(all.len() == rest.len());
        while rest.len() > 0
            invariant
                k <= all.len() <= usize::MAX,
                rest@ == all.skip(k as int),
                first@ == emoji@,
                kept@ == seq![first] + all.take(k as int).filter(|e: String| e@ != emoji@),
            decreases rest@.len(),
        {
            let e = rest.remove(0);
            assert(e == all[k as int]);
            assert(rest@ =~= all.skip(k + 1));
            assert(all.take(k + 1).drop_last() =~= all.take(k as int));
            assert(all.take(k + 1).last() == e);
            let ghost before = kept@;
            if e != emoji {
                kept.push(e);
            }
            proof {
                reveal(Seq::filter);
                assert(kept@ =~= seq![first] + all.take(k + 1).filter(|e: String| e@ != emoji@));
            }
            k = k + 1;
        }
        assert(all.take(k as int) =~= all);
        kept.truncate(36);
        self.settings.recent_emoji = kept;
        self.saving.dirty = true;
        self.view.focus_composer = true;
        assert(self.settings.recent_emoji@ =~= recent_after(all, emoji)) by {
            reveal(Seq::filter);
        }
    }
}

} // verus!
