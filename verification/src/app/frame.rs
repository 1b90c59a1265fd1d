//! What reaches the app each frame from outside the backend: the tray, a
//! second launch, a clicked notification, the window's focus and close
//! button, text for the composer at its cursor, where the conversation view
//! ended up, and what was submitted in the composer and the picker. Whoever
//! runs the frame loop reads these and hands them over one at a time.

use vstd::prelude::*;

use crate::app::{
    index_of_id, read_if_unread, text_of, visible, App, Compose, Conversation, Screen, Window,
};
use crate::model::{Action, Chat, Page};
use crate::single_instance::ControlCommand;
use crate::text::{chars_of, extend_chars, from_chars, slice_skip, slice_take, trim_chars, trimmed};
use crate::tray::TrayCommand;

verus! {

/// The action a tray command asks for: Show/Hide flips the window.
pub open spec fn tray_action(command: TrayCommand, window_hidden: bool) -> Action {
    match command {
        TrayCommand::Show => Action::ShowWindow,
        TrayCommand::ShowHide => if window_hidden {
            Action::ShowWindow
        } else {
            Action::HideWindow
        },
        TrayCommand::Quit => Action::Quit,
    }
}

/// Where text goes into the composer: at the cursor, or at the end when
/// there is none or it lies past the end.
pub open spec fn insertion_point(composer: Seq<char>, cursor: Option<usize>) -> int {
    match cursor {
        Some(at) => if at <= composer.len() {
            at as int
        } else {
            composer.len() as int
        },
        None => composer.len() as int,
    }
}

/// The window's focus after a frame; coming back to the window reads what
/// arrived meanwhile in the open chat.
#[verifier::opaque]
pub open spec fn focus_noted(before: App, focused: bool, after: App) -> bool {
    let returning = focused && !before.window.focused && before.view.page == Page::Chats;
    if returning && before.open_chat is Some {
        exists|mid: App|
            #![trigger read_if_unread(before, before.open_chat->0@, mid)]
            read_if_unread(before, before.open_chat->0@, mid) && after == (App {
                window: Window { focused, ..mid.window },
                ..mid
            })
    } else {
        after == (App { window: Window { focused, ..before.window }, ..before })
    }
}

impl App {
    /// A command from the tray item becomes the action it asks for.
    pub fn handle_tray_command(&mut self, command: TrayCommand)
        ensures
            final(self).actions@ == old(self).actions@.push(
                tray_action(command, old(self).window.hidden),
            ),
            *final(self) == (App { actions: final(self).actions, ..*old(self) }),
    {
        let action = match command {
            TrayCommand::Show => Action::ShowWindow,
            TrayCommand::ShowHide => if self.window.hidden {
                Action::ShowWindow
            } else {
                Action::HideWindow
            },
            TrayCommand::Quit => Action::Quit,
        };
        self.actions.push(action);
    }

    /// A second launch asked this one to show itself.
    pub fn handle_control_command(&mut self, command: ControlCommand)
        ensures
            final(self).actions@ == old(self).actions@.push(Action::ShowWindow),
            *final(self) == (App { actions: final(self).actions, ..*old(self) }),
    {
        match command {
            ControlCommand::Show => self.actions.push(Action::ShowWindow),
        }
    }

    /// A clicked notification opens its chat, in a window if need be.
    pub fn notification_opened(&mut self, chat: String)
        ensures
            final(self).actions@ == old(self).actions@.push(Action::OpenChat(chat)).push(
                Action::ShowWindow,
            ),
            *final(self) == (App { actions: final(self).actions, ..*old(self) }),
    {
        self.actions.push(Action::OpenChat(chat));
        self.actions.push(Action::ShowWindow);
    }

    /// Whether the window has the focus this frame. Coming back to it, with
    /// the chat list showing a chat that has unread messages, reads them.
    pub fn window_focus(&mut self, focused: bool)
        ensures
            focus_noted(*old(self), focused, *final(self)),
    {
        proof {
            reveal(focus_noted);
        }
        let returning = focused && !self.window.focused && self.view.page == Page::Chats;
        if returning {
            match self.open_chat.clone() {
                Some(open) => {
                    self.read_on_open(open.as_str());
                },
                None => {},
            }
        }
        self.window.focused = focused;
    }

    /// The window's close button: when the app keeps running in the tray,
    /// the window is to go and the process to stay.
    pub fn close_requested(&mut self)
        ensures
            !old(self).window.quit_requested && old(self).window.has_tray
                && old(self).settings.keep_running_in_background ==> *final(self) == (App {
                window: Window { hide_intent: true, ..old(self).window },
                ..*old(self)
            }),
            !(!old(self).window.quit_requested && old(self).window.has_tray
                && old(self).settings.keep_running_in_background) ==> *final(self) == *old(self),
    {
        if !self.window.quit_requested && self.hides_to_tray() {
            self.window.hide_intent = true;
        }
    }

    /// Puts text into the composer at its cursor (a count of characters),
    /// or at the end; gives back where the cursor goes after the text.
    pub fn insert_in_composer(&mut self, cursor: Option<usize>, text: &str) -> (after: usize)
        requires
            old(self).composer@.len() + text@.len() <= usize::MAX,
        ensures
            final(self).composer@ == old(self).composer@.take(
                insertion_point(old(self).composer@, cursor),
            ) + text@ + old(self).composer@.skip(insertion_point(old(self).composer@, cursor)),
            after == insertion_point(old(self).composer@, cursor) + text@.len(),
            *final(self) == (App { composer: final(self).composer, ..*old(self) }),
    {
        let chars = chars_of(self.composer.as_str());
        let at: usize = match cursor {
            Some(at) => if at <= chars.len() {
                at
            } else {
                chars.len()
            },
            None => chars.len(),
        };
        let added = chars_of(text);
        let mut joined: Vec<char> = Vec::new();
        extend_chars(&mut joined, slice_take(chars.as_slice(), at));
        extend_chars(&mut joined, added.as_slice());
        extend_chars(&mut joined, slice_skip(chars.as_slice(), at));
        self.composer = from_chars(joined.as_slice());
        at + added.len()
    }
}

/// A conversation with nothing loaded and nothing asked for.
pub open spec fn fresh(c: Conversation) -> bool {
    &&& c.messages@.len() == 0
    &&& !c.complete && !c.loading_older && !c.requested && !c.fetching_phone
    &&& !c.phone_exhausted && c.phone_answered is None && c.phone_misses == 0
    &&& !c.phone_delivered
}

/// Whether a history view that reached its top asks for more: from the
/// archive while it has more and is not already loading, then from the
/// phone while it is not being asked and has not run out.
pub open spec fn wants_older(c: Conversation) -> bool {
    (!c.complete && !c.loading_older) || (c.complete && !c.fetching_phone && !c.phone_exhausted)
}

/// The chat has a conversation: its own, or an empty one.
#[verifier::opaque]
pub open spec fn conversation_ensured(before: App, chat: Seq<char>, after: App) -> bool {
    let c = after.conversations@[chat];
    &&& after.conversations@ == before.conversations@.insert(chat, c)
    &&& before.conversations@.contains_key(chat) ==> c == before.conversations@[chat]
    &&& !before.conversations@.contains_key(chat) ==> fresh(c)
    &&& after == (App { conversations: after.conversations, ..before })
}

/// Whether the view ended at the newest message is noted, and a pending
/// jump there is done.
#[verifier::opaque]
pub open spec fn view_end_noted(before: App, at_bottom: bool, after: App) -> bool {
    after == (App {
        view: Screen { at_bottom, scroll_to_bottom: false, ..before.view },
        ..before
    })
}

/// A message the view was to bring forward is forgotten once shown, or
/// once it is clear it is not loaded and not on its way.
#[verifier::opaque]
pub open spec fn anchor_settled(before: App, chat: Seq<char>, anchored: bool, after: App) -> bool {
    let c = before.conversations@[chat];
    let anchor = if anchored {
        None
    } else if before.view.scroll_anchor matches Some(a) && !c.loading_older && !c.fetching_phone
        && index_of_id(c.messages@, a@) is None {
        None
    } else {
        before.view.scroll_anchor
    };
    after == (App { view: Screen { scroll_anchor: anchor, ..before.view }, ..before })
}

/// Reaching the top of a history asks for older messages, when there are
/// any to ask for.
#[verifier::opaque]
pub open spec fn top_reached(before: App, chat: Seq<char>, at_top: bool, after: App) -> bool {
    if at_top && wants_older(before.conversations@[chat]) {
        &&& after.actions@.len() == before.actions@.len() + 1
        &&& after.actions@.drop_last() == before.actions@
        &&& after.actions@.last() matches Action::LoadOlder(id) && id@ == chat
        &&& after == (App { actions: after.actions, ..before })
    } else {
        after == before
    }
}

/// After the conversation view of `chat` was drawn: the chat has a
/// conversation, the view's place at the end is noted, the message it was
/// to bring forward is settled, and reaching the top asks for more.
pub open spec fn history_viewed(
    before: App,
    chat: Seq<char>,
    at_bottom: bool,
    anchored: bool,
    at_top: bool,
    after: App,
) -> bool {
    exists|s1: App, s2: App, s3: App|
        #![trigger conversation_ensured(before, chat, s1), view_end_noted(s1, at_bottom, s2), anchor_settled(s2, chat, anchored, s3)]
        conversation_ensured(before, chat, s1) && view_end_noted(s1, at_bottom, s2)
            && anchor_settled(s2, chat, anchored, s3) && top_reached(s3, chat, at_top, after)
}

impl App {
    fn ensure_conversation(&mut self, chat: &str)
        ensures
            conversation_ensured(*old(self), chat@, *final(self)),
            final(self).conversations@.contains_key(chat@),
    {
        proof {
            reveal(conversation_ensured);
        }
        if !self.conversations.contains_key(chat) {
            self.conversations.insert(String::from_str(chat), Conversation::new());
        } else {
            assert(self.conversations@ =~= old(self).conversations@.insert(
                chat@,
                old(self).conversations@[chat@],
            ));
        }
    }

    fn note_view_end(&mut self, at_bottom: bool)
        ensures
            view_end_noted(*old(self), at_bottom, *final(self)),
    {
        proof {
            reveal(view_end_noted);
        }
        self.view.at_bottom = at_bottom;
        self.view.scroll_to_bottom = false;
    }

    fn settle_anchor(&mut self, chat: &str, anchored: bool)
        requires
            old(self).conversations@.contains_key(chat@),
        ensures
            anchor_settled(*old(self), chat@, anchored, *final(self)),
    {
        proof {
            reveal(anchor_settled);
        }
        if anchored {
            self.view.scroll_anchor = None;
            return;
        }
        let missing = match (&self.view.scroll_anchor, self.conversations.get(chat)) {
            (Some(anchor), Some(c)) => !c.loading_older && !c.fetching_phone && c.message(
                anchor.as_str(),
            ).is_none(),
            _ => false,
        };
        if missing {
            self.view.scroll_anchor = None;
        }
    }

    fn ask_older_at_top(&mut self, chat: &str, at_top: bool)
        requires
            old(self).conversations@.contains_key(chat@),
        ensures
            top_reached(*old(self), chat@, at_top, *final(self)),
    {
        proof {
            reveal(top_reached);
        }
        let wants = match self.conversations.get(chat) {
            Some(c) => (!c.complete && !c.loading_older) || (c.complete && !c.fetching_phone
                && !c.phone_exhausted),
            None => false,
        };
        if at_top && wants {
            let ghost before = self.actions@;
            self.actions.push(Action::LoadOlder(String::from_str(chat)));
            assert(self.actions@.drop_last() =~= before);
        }
    }

    /// The conversation view of `chat` was drawn: whether it ended at the
    /// newest message, whether it brought the message it was asked for
    /// into view, and whether it reached the top (or the whole history
    /// fits).
    pub fn history_shown(&mut self, chat: &str, at_bottom: bool, anchored: bool, at_top: bool)
        ensures
            history_viewed(*old(self), chat@, at_bottom, anchored, at_top, *final(self)),
    {
        self.ensure_conversation(chat);
        let ghost s1 = *self;
        self.note_view_end(at_bottom);
        let ghost s2 = *self;
        proof {
            reveal(view_end_noted);
        }
        self.settle_anchor(chat, anchored);
        let ghost s3 = *self;
        proof {
            reveal(anchor_settled);
        }
        self.ask_older_at_top(chat, at_top);
        assert(conversation_ensured(*old(self), chat@, s1) && view_end_noted(s1, at_bottom, s2)
            && anchor_settled(s2, chat@, anchored, s3));
    }
}

/// Sending what the composer holds, by its key or its button: a composer
/// with more than white space in it is emptied into a message for `chat`,
/// replying to what it replied to, and keeps the focus.
#[verifier::opaque]
pub open spec fn composer_submitted(before: App, chat: Seq<char>, after: App) -> bool {
    if trimmed(before.composer@).len() == 0 {
        after == before
    } else {
        &&& after.composer@.len() == 0
        &&& after.actions@.len() == before.actions@.len() + 1
        &&& after.actions@.drop_last() == before.actions@
        &&& after.actions@.last() matches Action::SendText { chat: c, text, quoting } && c@ == chat
            && text == before.composer && text_of(quoting) == text_of(before.compose.reply_to)
        &&& after == (App {
            composer: after.composer,
            actions: after.actions,
            view: Screen { focus_composer: true, ..before.view },
            ..before
        })
    }
}

/// A reply whose message is no longer loaded in the open chat is dropped.
#[verifier::opaque]
pub open spec fn reply_checked(before: App, chat: Seq<char>, after: App) -> bool {
    let lost = before.compose.editing is None && (before.compose.reply_to matches Some(id) && !(
    before.conversations@.contains_key(chat) && index_of_id(
        before.conversations@[chat].messages@,
        id@,
    ) is Some));
    if lost {
        after == (App { compose: Compose { reply_to: None, ..before.compose }, ..before })
    } else {
        after == before
    }
}

impl App {
    /// The composer's send key or button was used in `chat`.
    pub fn submit_composer(&mut self, chat: &str)
        ensures
            composer_submitted(*old(self), chat@, *final(self)),
    {
        proof {
            reveal(composer_submitted);
        }
        let chars = chars_of(self.composer.as_str());
        let trimmed_chars = trim_chars(chars.as_slice());
        if trimmed_chars.len() == 0 {
            return;
        }
        let mut text = String::new();
        std::mem::swap(&mut text, &mut self.composer);
        let quoting = self.compose.reply_to.clone();
        let ghost before = self.actions@;
        self.actions.push(Action::SendText { chat: String::from_str(chat), text, quoting });
        assert(self.actions@.drop_last() =~= before);
        self.view.focus_composer = true;
    }

    /// Before the composer of `chat` is drawn: a reply to a message that is
    /// not loaded there any more is dropped.
    pub fn check_reply(&mut self, chat: &str)
        ensures
            reply_checked(*old(self), chat@, *final(self)),
    {
        proof {
            reveal(reply_checked);
        }
        if self.compose.editing.is_some() {
            return;
        }
        let lost = match &self.compose.reply_to {
            Some(id) => match self.conversations.get(chat) {
                Some(c) => c.message(id.as_str()).is_none(),
                None => true,
            },
            None => false,
        };
        if lost {
            self.compose.reply_to = None;
        }
    }
}

/// The GIF search field was submitted: a query other than the last one
/// searched (white space aside) is looked up.
#[verifier::opaque]
pub open spec fn gif_query_submitted(before: App, query: String, after: App) -> bool {
    if trimmed(query@) != trimmed(before.picker.gif_query@) {
        &&& after.actions@ == before.actions@.push(Action::SearchGifs(query))
        &&& after == (App { actions: after.actions, ..before })
    } else {
        after == before
    }
}

/// The GIPHY key field was left: with a key in it, what is trending is
/// looked up.
#[verifier::opaque]
pub open spec fn giphy_key_left(before: App, after: App) -> bool {
    if trimmed(before.settings.giphy_key@).len() > 0 {
        &&& after.actions@.len() == before.actions@.len() + 1
        &&& after.actions@.drop_last() == before.actions@
        &&& after.actions@.last() matches Action::SearchGifs(q) && q@.len() == 0
        &&& after == (App { actions: after.actions, ..before })
    } else {
        after == before
    }
}

impl App {
    /// The GIF search field was submitted with `query`.
    pub fn submit_gif_query(&mut self, query: String)
        ensures
            gif_query_submitted(*old(self), query, *final(self)),
    {
        proof {
            reveal(gif_query_submitted);
        }
        let wanted = trim_chars(chars_of(query.as_str()).as_slice());
        let last = trim_chars(chars_of(self.picker.gif_query.as_str()).as_slice());
        if !crate::text::same_chars(wanted.as_slice(), last.as_slice()) {
            self.actions.push(Action::SearchGifs(query));
        }
    }

    /// The GIPHY key field lost the focus.
    pub fn leave_giphy_key(&mut self)
        ensures
            giphy_key_left(*old(self), *final(self)),
    {
        proof {
            reveal(giphy_key_left);
        }
        let key = trim_chars(chars_of(self.settings.giphy_key.as_str()).as_slice());
        if key.len() > 0 {
            let ghost before = self.actions@;
            self.actions.push(Action::SearchGifs(String::new()));
            assert(self.actions@.drop_last() =~= before);
        }
    }
}

/// What Escape backs out of, topmost first: a dialog, the picker, an edit,
/// a reply, the settings page; `None` when none of these is up.
pub open spec fn escape_action(app: App) -> Option<Action> {
    if app.view.dialog is Some {
        Some(Action::CloseDialog)
    } else if app.picker.tab is Some {
        Some(Action::ClosePicker)
    } else if app.compose.editing is Some {
        Some(Action::CancelEdit)
    } else if app.compose.reply_to is Some {
        Some(Action::CancelReply)
    } else if app.view.page == Page::Settings {
        Some(Action::Open(Page::Chats))
    } else {
        None
    }
}

/// With nothing else to back out of, Escape clears a search.
pub open spec fn escape_clears_search(app: App) -> bool {
    escape_action(app) is None && app.search@.len() > 0
}

/// The first visible chat with an id, or the number of visible chats.
pub open spec fn visible_position(list: Seq<Chat>, id: Seq<char>) -> int
    decreases list.len(),
{
    if list.len() == 0 {
        0
    } else if list[0].id@ == id {
        0
    } else {
        1 + visible_position(list.drop_first(), id)
    }
}

/// The chat Alt+Up (`down` false) or Alt+Down opens: the one before or
/// after the open chat in the visible list, wrapping around, or the first
/// when the open chat is not in it.
pub open spec fn stepped_chat(list: Seq<Chat>, open: Option<Seq<char>>, down: bool) -> Option<Chat> {
    if list.len() == 0 {
        None
    } else {
        let at = match open {
            Some(id) => visible_position(list, id),
            None => list.len() as int,
        };
        if at < list.len() {
            Some(
                list[if down {
                    (at + 1) % (list.len() as int)
                } else {
                    (at + list.len() - 1) % (list.len() as int)
                }],
            )
        } else {
            Some(list[0])
        }
    }
}

proof fn lemma_visible_position(list: Seq<Chat>, id: Seq<char>)
    ensures
        0 <= visible_position(list, id) <= list.len(),
        visible_position(list, id) < list.len() ==> list[visible_position(list, id)].id@ == id,
        forall|k: int| 0 <= k < visible_position(list, id) ==> (#[trigger] list[k]).id@ != id,
    decreases list.len(),
{
    if list.len() > 0 && list[0].id@ != id {
        lemma_visible_position(list.drop_first(), id);
        assert forall|k: int| 0 <= k < visible_position(list, id) implies (#[trigger] list[k]).id@
            != id by {
            if k > 0 {
                assert(list[k] == list.drop_first()[k - 1]);
            }
        }
    }
}

impl App {
    /// Escape was pressed with no menu open: the action it asks for, if
    /// any, is queued.
    pub fn escape_pressed(&mut self)
        ensures
            escape_action(*old(self)) matches Some(a) ==> final(self).actions@ == old(self).actions@.push(a),
            escape_clears_search(*old(self)) ==> (final(self).actions@.len() == old(self).actions@.len()
                + 1 && final(self).actions@.drop_last() == old(self).actions@ && (final(self).actions@.last() matches Action::Search(s) && s@.len() == 0)),
            escape_action(*old(self)) is None && !escape_clears_search(*old(self)) ==> final(self).actions == old(self).actions,
            *final(self) == (App { actions: final(self).actions, ..*old(self) }),
    {
        let action = if self.view.dialog.is_some() {
            Some(Action::CloseDialog)
        } else if self.picker.tab.is_some() {
            Some(Action::ClosePicker)
        } else if self.compose.editing.is_some() {
            Some(Action::CancelEdit)
        } else if self.compose.reply_to.is_some() {
            Some(Action::CancelReply)
        } else if self.view.page == Page::Settings {
            Some(Action::Open(Page::Chats))
        } else if self.search.as_str().unicode_len() > 0 {
            Some(Action::Search(String::new()))
        } else {
            None
        };
        match action {
            Some(action) => {
                let ghost before = self.actions@;
                self.actions.push(action);
                assert(self.actions@.drop_last() =~= before);
            },
            None => {},
        }
    }

    /// Alt+Down (`down`) or Alt+Up: the next or previous chat of the list
    /// opens, wrapping around.
    pub fn step_chat(&mut self, down: bool)
        ensures
            stepped_chat(
                visible(old(self).chats@, old(self).view.show_archived, old(self).search@),
                text_of(old(self).open_chat),
                down,
            ) matches Some(next) ==> (final(self).actions@.len() == old(self).actions@.len() + 1
                && final(self).actions@.drop_last() == old(self).actions@ && (final(self).actions@.last() matches Action::OpenChat(id) && id@ == next.id@)),
            stepped_chat(
                visible(old(self).chats@, old(self).view.show_archived, old(self).search@),
                text_of(old(self).open_chat),
                down,
            ) is None ==> final(self).actions == old(self).actions,
            *final(self) == (App { actions: final(self).actions, ..*old(self) }),
    {
        let list = self.visible_chats();
        let ghost shown = visible(self.chats@, self.view.show_archived, self.search@);
        assert(list@.len() == shown.len());
        if list.len() == 0 {
            return;
        }
        let count = list.len();
        let mut at: usize = count;
        match &self.open_chat {
            Some(open) => {
                proof {
                    lemma_visible_position(shown, open@);
                }
                let mut i: usize = 0;
                let mut found = false;
                while !found && i < count
                    invariant
                        i <= count,
                        count == list@.len(),
                        list@.len() == shown.len(),
                        forall|k: int| 0 <= k < list@.len() ==> *list@[k] == shown[k],
                        forall|k: int| 0 <= k < i ==> (#[trigger] shown[k]).id@ != open@,
                        found ==> i < count && shown[i as int].id@ == open@,
                    decreases count - i + (if found { 0int } else { 1int }),
                {
                    if crate::text::same_text(list[i].id.as_str(), open.as_str()) {
                        found = true;
                    } else {
                        i = i + 1;
                    }
                }
                proof {
                    if visible_position(shown, open@) < i {
                        assert(shown[visible_position(shown, open@)].id@ == open@);
                    }
                    if found && visible_position(shown, open@) > i {
                        assert(shown[i as int].id@ != open@);
                    }
                }
                at = i;
            },
            None => {},
        }
        let next = if at < count {
            if down {
                if at + 1 == count {
                    0
                } else {
                    at + 1
                }
            } else if at == 0 {
                count - 1
            } else {
                at - 1
            }
        } else {
            0
        };
        proof {
            let n = count as int;
            if at < count {
                if down {
                    if at + 1 == count {
                        vstd::arithmetic::div_mod::lemma_mod_self_0(n);
                    } else {
                        vstd::arithmetic::div_mod::lemma_small_mod((at + 1) as nat, n as nat);
                    }
                } else if at == 0 {
                    vstd::arithmetic::div_mod::lemma_small_mod((n - 1) as nat, n as nat);
                } else {
                    vstd::arithmetic::div_mod::lemma_mod_add_multiples_vanish(at - 1, n);
                    vstd::arithmetic::div_mod::lemma_small_mod((at - 1) as nat, n as nat);
                }
            }
        }
        let id = String::from_str(list[next].id.as_str());
        let ghost before = self.actions@;
        self.actions.push(Action::OpenChat(id));
        assert(self.actions@.drop_last() =~= before);
    }
}

/// Alt+Down then Alt+Up comes back to the chat that was open, when it is
/// in the list and the list names each chat once.
pub proof fn stepping_down_and_up_comes_back(list: Seq<Chat>, open: Seq<char>)
    requires
        forall|i: int, j: int| 0 <= i < j < list.len() ==> list[i].id@ != list[j].id@,
        exists|k: int| 0 <= k < list.len() && list[k].id@ == open,
    ensures
        stepped_chat(list, Some(open), true) matches Some(next) && stepped_chat(
            list,
            Some(next.id@),
            false,
        ) matches Some(back) && back.id@ == open,
{
    let n = list.len() as int;
    lemma_visible_position(list, open);
    let p = visible_position(list, open);
    assert(p < n) by {
        let k = choose|k: int| 0 <= k < list.len() && list[k].id@ == open;
        if p >= n {
            assert(list[k].id@ != open);
        }
    }
    let q = (p + 1) % n;
    assert(0 <= q < n);
    if p + 1 == n {
        vstd::arithmetic::div_mod::lemma_mod_self_0(n);
    } else {
        vstd::arithmetic::div_mod::lemma_small_mod((p + 1) as nat, n as nat);
    }
    let next = list[q];
    lemma_visible_position(list, next.id@);
    let r = visible_position(list, next.id@);
    assert(r == q) by {
        if r < q {
            assert(list[r].id@ == next.id@);
        }
        if r > q {
            assert(list[q].id@ != next.id@);
        }
    }
    if q == 0 {
        vstd::arithmetic::div_mod::lemma_small_mod((n - 1) as nat, n as nat);
        assert(p == n - 1);
    } else {
        vstd::arithmetic::div_mod::lemma_mod_add_multiples_vanish(q - 1, n);
        vstd::arithmetic::div_mod::lemma_small_mod((q - 1) as nat, n as nat);
        assert(q - 1 == p);
    }
}

} // verus!
