//! Applying what the views ask for: each action changes the state, and may
//! hand commands to the backend and work to the window.

use vstd::prelude::*;

use crate::app::compose::{chat_closed, edit_started, recent_after, text_sent};
use crate::app::history::{fetched_older, older_loaded};
use crate::app::messages::revised;
use crate::app::{
    chat_opened, chat_position, fresh_conversation, index_of_id, keystroke_noted,
    lemma_index_of_id, read_marked, stopped_composing, text_of, with_toast, App, Compose,
    Conversation, Effect, Picker, Saving, Screen, Window,
};
use crate::backend::{commands_view, texts, Command, CommandView};
use crate::model::{
    with_media_state, Action, Chat, Content, Dialog, Gif, MediaState, Message, PickerTab, Toast,
    ToastKind,
};
use crate::settings::{giphy_key_choice, Settings, ZOOM_ONE_BITS};
use crate::text::decimal;
use crate::util::digits_of;

verus! {

/// A notice joins the toasts: an informational one only while fewer than
/// four are showing, an error always.
#[verifier::opaque]
pub open spec fn toasted(before: App, text: Seq<char>, kind: ToastKind, now: i64, after: App) -> bool {
    &&& if kind == ToastKind::Info && before.toasts@.len() >= 4 {
        after.toasts@ == before.toasts@.take(4)
    } else {
        &&& after.toasts@ == before.toasts@.push(after.toasts@.last())
        &&& after.toasts@.last().message@ == text
        &&& after.toasts@.last().kind == kind
        &&& after.toasts@.last().created == now
    }
    &&& after == (App { toasts: after.toasts, ..before })
}

/// A command handed to the backend, nothing else changed.
#[verifier::opaque]
pub open spec fn sent(before: App, command: CommandView, after: App) -> bool {
    &&& commands_view(after.outbox@) == commands_view(before.outbox@).push(command)
    &&& after == (App { outbox: after.outbox, ..before })
}

/// Work handed to the window, nothing else changed.
#[verifier::opaque]
pub open spec fn effected(before: App, effect: Effect, after: App) -> bool {
    &&& after.effects@ == before.effects@.push(effect)
    &&& after == (App { effects: after.effects, ..before })
}

/// A message of a loaded chat changed by a rule.
#[verifier::opaque]
pub open spec fn chat_message_revised(
    before: App,
    chat: Seq<char>,
    id: Seq<char>,
    rule: spec_fn(Message, Message) -> bool,
    after: App,
) -> bool {
    if before.conversations@.contains_key(chat) {
        let c = before.conversations@[chat];
        let c2 = after.conversations@[chat];
        &&& after.conversations@ == before.conversations@.insert(chat, c2)
        &&& c2 == Conversation { messages: c2.messages, ..c }
        &&& revised(c.messages@, id, c2.messages@, rule)
        &&& after == (App { conversations: after.conversations, ..before })
    } else {
        after == before
    }
}

/// The attachment of a message of a loaded chat shown as downloading.
#[verifier::opaque]
pub open spec fn marked_downloading(before: App, chat: Seq<char>, id: Seq<char>, after: App) -> bool {
    chat_message_revised(
        before,
        chat,
        id,
        |m: Message, m2: Message|
            m2 == (Message { content: with_media_state(m.content, MediaState::Downloading), ..m }),
        after,
    )
}

/// A message of a loaded chat shown as taken back.
#[verifier::opaque]
pub open spec fn marked_revoked(before: App, chat: Seq<char>, id: Seq<char>, after: App) -> bool {
    chat_message_revised(
        before,
        chat,
        id,
        |m: Message, m2: Message| m2 == (Message { content: Content::Revoked, ..m }),
        after,
    )
}

/// Downloading an attachment: it shows as downloading, and the backend is
/// asked for it.
#[verifier::opaque]
pub open spec fn download_asked(before: App, chat: Seq<char>, message: Seq<char>, after: App) -> bool {
    exists|s1: App|
        #![trigger marked_downloading(before, chat, message, s1)]
        marked_downloading(before, chat, message, s1) && sent(
            s1,
            CommandView::Download { chat, message },
            after,
        )
}

/// Taking a message of the open chat back from everyone.
#[verifier::opaque]
pub open spec fn revoked_for_everyone(before: App, id: Seq<char>, after: App) -> bool {
    match before.open_chat {
        Some(chat) => exists|s1: App|
            #![trigger marked_revoked(before, chat@, id, s1)]
            marked_revoked(before, chat@, id, s1) && sent(
                s1,
                CommandView::Revoke { chat: chat@, id },
                after,
            ),
        None => after == before,
    }
}

/// Forgetting a message of the open chat on this computer only.
#[verifier::opaque]
pub open spec fn deleted_for_me(before: App, id: Seq<char>, after: App) -> bool {
    match before.open_chat {
        Some(chat) => {
            let forgotten = if before.conversations@.contains_key(chat@) {
                let c = before.conversations@[chat@];
                let c2 = after.conversations@[chat@];
                &&& after.conversations@ == before.conversations@.insert(chat@, c2)
                &&& c2 == Conversation { messages: c2.messages, ..c }
                &&& c2.messages@ == crate::app::messages::without_id(c.messages@, id)
            } else {
                after.conversations == before.conversations
            };
            &&& forgotten
            &&& commands_view(after.outbox@) == commands_view(before.outbox@).push(
                CommandView::DeleteLocal { chat: chat@, id },
            )
            &&& after == (App {
                conversations: after.conversations,
                outbox: after.outbox,
                ..before
            })
        },
        None => after == before,
    }
}

/// The view after something was sent to the open chat: it scrolls to its
/// newest message.
pub open spec fn scrolled_down(view: Screen) -> Screen {
    Screen { scroll_to_bottom: true, at_bottom: true, ..view }
}

/// "Sending 3 files…".
pub open spec fn sending_files_text(n: nat) -> Seq<char> {
    "Sending "@ + decimal(n) + " file"@ + (if n == 1 {
        ""@
    } else {
        "s"@
    }) + "…"@
}

/// Sending files to the open chat: refused with a notice when no chat is
/// open, nothing for no files, else announced and handed to the backend.
#[verifier::opaque]
pub open spec fn files_sent(before: App, paths: Vec<String>, now: i64, after: App) -> bool {
    match before.open_chat {
        None => toasted(before, "Open a chat first"@, ToastKind::Error, now, after),
        Some(chat) => if paths@.len() == 0 {
            after == before
        } else {
            exists|s1: App|
                #![trigger toasted(before, sending_files_text(paths@.len()), ToastKind::Info, now, s1)]
                toasted(before, sending_files_text(paths@.len()), ToastKind::Info, now, s1) && {
                    &&& commands_view(after.outbox@) == commands_view(s1.outbox@).push(
                        CommandView::SendFiles { chat: chat@, paths: texts(paths@) },
                    )
                    &&& after == (App {
                        outbox: after.outbox,
                        view: scrolled_down(s1.view),
                        ..s1
                    })
                }
        },
    }
}

/// Something sent to the open chat with a notice: announced, handed to
/// the backend, and the view scrolls down.
#[verifier::opaque]
pub open spec fn sent_with_notice(
    before: App,
    notice: Seq<char>,
    command: CommandView,
    now: i64,
    after: App,
) -> bool {
    exists|s1: App|
        #![trigger toasted(before, notice, ToastKind::Info, now, s1)]
        toasted(before, notice, ToastKind::Info, now, s1) && {
            &&& commands_view(after.outbox@) == commands_view(s1.outbox@).push(command)
            &&& after == (App { outbox: after.outbox, view: scrolled_down(s1.view), ..s1 })
        }
}

/// Opening the picker on a tab, or closing it when that tab shows; the
/// sticker tab asks for the stickers, and the GIF tab, when it has no
/// results, looks up what is trending.
#[verifier::opaque]
pub open spec fn picker_toggled(before: App, tab: PickerTab, after: App) -> bool {
    if before.picker.tab == Some(tab) {
        after == (App { picker: Picker { tab: None, ..before.picker }, ..before })
    } else {
        let stickers = tab == PickerTab::Stickers;
        let gifs = tab == PickerTab::Gifs && before.picker.gif_results@.len() == 0;
        &&& after.picker.search@.len() == 0
        &&& after.picker == Picker {
            tab: Some(tab),
            search: after.picker.search,
            focus: tab == PickerTab::Emoji,
            stickers_pending: if stickers {
                before.picker.stickers@.len() == 0
            } else {
                before.picker.stickers_pending
            },
            ..before.picker
        }
        &&& commands_view(after.outbox@) == if stickers {
            commands_view(before.outbox@).push(CommandView::RecentStickers)
        } else {
            commands_view(before.outbox@)
        }
        &&& if gifs {
            &&& after.actions@ == before.actions@.push(after.actions@.last())
            &&& after.actions@.last() matches Action::SearchGifs(q) && q@.len() == 0
        } else {
            after.actions == before.actions
        }
        &&& after == (App {
            picker: after.picker,
            outbox: after.outbox,
            actions: after.actions,
            ..before
        })
    }
}

/// Looking GIFs up: the query is remembered, the search shows as under
/// way, and the backend asked with the GIPHY key in force (empty when
/// there is none).
#[verifier::opaque]
pub open spec fn gifs_searched(before: App, query: String, after: App) -> bool {
    let key = match giphy_key_choice(before.settings.giphy_key@, text_of(before.giphy_built_in)) {
        Some(k) => k,
        None => Seq::empty(),
    };
    &&& after.picker.gif_query@ == query@
    &&& commands_view(after.outbox@) == commands_view(before.outbox@).push(
        CommandView::SearchGifs { query: query@, key },
    )
    &&& after == (App {
        picker: Picker {
            gif_query: after.picker.gif_query,
            gif_pending: true,
            gif_error: None,
            ..before.picker
        },
        outbox: after.outbox,
        ..before
    })
}

/// A chat archived or brought back: the list shows it, the open chat
/// closes when it is archived, and the backend is told.
#[verifier::opaque]
pub open spec fn archived_set(before: App, chat: Seq<char>, archived: bool, after: App) -> bool {
    let i = chat_position(before.chats@, chat);
    let closing = archived && text_of(before.open_chat) == Some(chat);
    &&& after.chats@ == if i < before.chats@.len() {
        before.chats@.update(i, Chat { archived, ..before.chats@[i] })
    } else {
        before.chats@
    }
    &&& after.actions@ == if closing {
        before.actions@.push(Action::CloseChat)
    } else {
        before.actions@
    }
    &&& commands_view(after.outbox@) == commands_view(before.outbox@).push(
        CommandView::SetArchived(chat, archived),
    )
    &&& after == (App { chats: after.chats, actions: after.actions, outbox: after.outbox, ..before })
}

/// A chat pinned or unpinned.
#[verifier::opaque]
pub open spec fn pinned_set(before: App, chat: Seq<char>, pinned: bool, after: App) -> bool {
    let i = chat_position(before.chats@, chat);
    &&& after.chats@ == if i < before.chats@.len() {
        before.chats@.update(i, Chat { pinned, ..before.chats@[i] })
    } else {
        before.chats@
    }
    &&& commands_view(after.outbox@) == commands_view(before.outbox@).push(
        CommandView::SetPinned(chat, pinned),
    )
    &&& after == (App { chats: after.chats, outbox: after.outbox, ..before })
}

/// Bringing a message of a chat into view: when it is older than what is
/// loaded, the archive is asked for everything down to it.
#[verifier::opaque]
pub open spec fn reached(before: App, chat: Seq<char>, id: String, after: App) -> bool {
    let known = before.conversations@.contains_key(chat);
    let c = before.conversations@[chat];
    let c2 = after.conversations@[chat];
    let load = known && index_of_id(c.messages@, id@) is None && !c.loading_older
        && c.messages@.len() > 0;
    &&& after.conversations@ == before.conversations@.insert(chat, c2)
    &&& if !known {
        fresh_conversation(c2)
    } else if load {
        c2 == Conversation { loading_older: true, ..c }
    } else {
        c2 == c
    }
    &&& commands_view(after.outbox@) == if load {
        commands_view(before.outbox@).push(
            CommandView::LoadUntil {
                chat,
                id: id@,
                before: (c.messages@[0].timestamp, c.messages@[0].id@),
            },
        )
    } else {
        commands_view(before.outbox@)
    }
    &&& after == (App {
        conversations: after.conversations,
        outbox: after.outbox,
        view: Screen { scroll_anchor: Some(id), ..before.view },
        ..before
    })
}

/// Bringing a message of the open chat into view, the view no longer
/// pulled to the newest message.
#[verifier::opaque]
pub open spec fn scrolled_to(before: App, id: String, after: App) -> bool {
    let s = App { view: Screen { scroll_to_bottom: false, ..before.view }, ..before };
    match before.open_chat {
        None => after == s,
        Some(chat) => reached(s, chat@, id, after),
    }
}

/// Asking for a pairing code: the number's digits, when there are at
/// least seven of them; else a notice.
#[verifier::opaque]
pub open spec fn pairing_asked(before: App, phone: Seq<char>, now: i64, after: App) -> bool {
    let digits = digits_of(phone);
    if digits.len() < 7 {
        toasted(
            before,
            "Enter the number with its country code, digits only"@,
            ToastKind::Error,
            now,
            after,
        )
    } else {
        sent(before, CommandView::PairWithPhone(digits), after)
    }
}

impl App {
    /// Hands work to the window.
    pub(crate) fn effect(&mut self, effect: Effect)
        ensures
            effected(*old(self), effect, *final(self)),
    {
        proof {
            reveal(effected);
        }
        self.effects.push(effect);
    }

    /// Hands a command to the backend.
    pub(crate) fn send_only(&mut self, command: Command)
        ensures
            sent(*old(self), crate::backend::command_view(command), *final(self)),
    {
        proof {
            reveal(sent);
        }
        self.send(command);
    }

    /// A notice for the user with a fixed text.
    pub(crate) fn notice(&mut self, text: &str, kind: ToastKind, now: i64)
        ensures
            toasted(*old(self), text@, kind, now, *final(self)),
    {
        proof {
            reveal(toasted);
        }
        let message = String::from_str(text);
        match kind {
            ToastKind::Info => {
                let ghost t = Toast { message, kind: ToastKind::Info, created: now };
                self.toast(message, now);
                proof {
                    if old(self).toasts@.len() < 4 {
                        assert(self.toasts@ == old(self).toasts@.push(t));
                        assert(self.toasts@.drop_last() =~= old(self).toasts@);
                        assert(self.toasts@.last() == t);
                    }
                }
            },
            ToastKind::Error => {
                self.toast_error(message, now);
            },
        }
    }

    /// Changes a message of a loaded chat to show its attachment as
    /// downloading.
    pub(crate) fn mark_downloading(&mut self, chat: &str, id: &str)
        ensures
            marked_downloading(*old(self), chat@, id@, *final(self)),
    {
        proof {
            reveal(marked_downloading);
            reveal(chat_message_revised);
        }
        if !self.conversations.contains_key(chat) {
            return;
        }
        match self.conversations.remove(chat) {
            Some(mut c) => {
                c.set_media_state_of(id, MediaState::Downloading);
                let ghost c2 = c;
                self.conversations.insert(String::from_str(chat), c);
                assert(self.conversations@ =~= old(self).conversations@.insert(chat@, c2));
            },
            None => {},
        }
    }

    pub(crate) fn download(&mut self, chat: String, message: String)
        ensures
            download_asked(*old(self), chat@, message@, *final(self)),
    {
        proof {
            reveal(download_asked);
        }
        self.mark_downloading(chat.as_str(), message.as_str());
        let ghost s1 = *self;
        self.send_only(Command::Download { chat, message });
        assert(marked_downloading(*old(self), chat@, message@, s1));
    }

    /// Shows a message of a loaded chat as taken back.
    pub(crate) fn mark_revoked(&mut self, chat: &str, id: &str)
        ensures
            marked_revoked(*old(self), chat@, id@, *final(self)),
    {
        proof {
            reveal(marked_revoked);
            reveal(chat_message_revised);
        }
        if !self.conversations.contains_key(chat) {
            return;
        }
        match self.conversations.remove(chat) {
            Some(mut c) => {
                c.revoke(id);
                let ghost c2 = c;
                self.conversations.insert(String::from_str(chat), c);
                assert(self.conversations@ =~= old(self).conversations@.insert(chat@, c2));
            },
            None => {},
        }
    }

    pub(crate) fn revoke_open(&mut self, id: String)
        ensures
            revoked_for_everyone(*old(self), id@, *final(self)),
    {
        proof {
            reveal(revoked_for_everyone);
        }
        let chat = match &self.open_chat {
            Some(chat) => chat.clone(),
            None => {
                return;
            },
        };
        self.mark_revoked(chat.as_str(), id.as_str());
        let ghost s1 = *self;
        self.send_only(Command::Revoke { chat, id });
        assert(marked_revoked(*old(self), old(self).open_chat->0@, id@, s1));
    }

    pub(crate) fn delete_open(&mut self, id: String)
        ensures
            deleted_for_me(*old(self), id@, *final(self)),
    {
        proof {
            reveal(deleted_for_me);
        }
        let chat = match &self.open_chat {
            Some(chat) => chat.clone(),
            None => {
                return;
            },
        };
        if self.conversations.contains_key(chat.as_str()) {
            match self.conversations.remove(chat.as_str()) {
                Some(mut c) => {
                    c.forget(id.as_str());
                    let ghost c2 = c;
                    self.conversations.insert(chat.clone(), c);
                    assert(self.conversations@ =~= old(self).conversations@.insert(chat@, c2));
                },
                None => {},
            }
        }
        self.send(Command::DeleteLocal { chat, id });
    }

    pub(crate) fn send_files(&mut self, paths: Vec<String>, now: i64)
        ensures
            files_sent(*old(self), paths, now, *final(self)),
    {
        proof {
            reveal(files_sent);
        }
        let chat = match &self.open_chat {
            Some(chat) => chat.clone(),
            None => {
                self.notice("Open a chat first", ToastKind::Error, now);
                return;
            },
        };
        if paths.len() == 0 {
            return;
        }
        let mut text = String::from_str("Sending ");
        crate::text::push_decimal(&mut text, paths.len() as u64);
        crate::text::push_str(&mut text, " file");
        if paths.len() != 1 {
            crate::text::push_str(&mut text, "s");
        }
        crate::text::push_str(&mut text, "…");
        proof {
            reveal_strlit("Sending ");
            reveal_strlit(" file");
            reveal_strlit("s");
            reveal_strlit("");
            assert(text@ =~= sending_files_text(paths@.len()));
        }
        let ghost n = paths@.len();
        self.notice(text.as_str(), ToastKind::Info, now);
        let ghost s1 = *self;
        self.send(Command::SendFiles { chat, paths });
        self.view.scroll_to_bottom = true;
        self.view.at_bottom = true;
        assert(toasted(*old(self), sending_files_text(n), ToastKind::Info, now, s1));
    }

    pub(crate) fn send_noticed(&mut self, notice: &str, command: Command, now: i64)
        ensures
            sent_with_notice(
                *old(self),
                notice@,
                crate::backend::command_view(command),
                now,
                *final(self),
            ),
    {
        proof {
            reveal(sent_with_notice);
        }
        self.notice(notice, ToastKind::Info, now);
        let ghost s1 = *self;
        self.send(command);
        self.view.scroll_to_bottom = true;
        self.view.at_bottom = true;
        assert(toasted(*old(self), notice@, ToastKind::Info, now, s1));
    }

    pub(crate) fn toggle_picker(&mut self, tab: PickerTab)
        ensures
            picker_toggled(*old(self), tab, *final(self)),
    {
        proof {
            reveal(picker_toggled);
        }
        let showing = match self.picker.tab {
            Some(open) => open == tab,
            None => false,
        };
        if showing {
            self.picker.tab = None;
            return;
        }
        self.picker.tab = Some(tab);
        self.picker.search = String::new();
        self.picker.focus = tab == PickerTab::Emoji;
        if tab == PickerTab::Stickers {
            self.picker.stickers_pending = self.picker.stickers.len() == 0;
            self.send(Command::RecentStickers);
        }
        if tab == PickerTab::Gifs && self.picker.gif_results.len() == 0 {
            self.actions.push(Action::SearchGifs(String::new()));
        }
    }

    pub(crate) fn search_gifs(&mut self, query: String)
        ensures
            gifs_searched(*old(self), query, *final(self)),
    {
        proof {
            reveal(gifs_searched);
        }
        self.picker.gif_query = query.clone();
        self.picker.gif_pending = true;
        self.picker.gif_error = None;
        let built_in = match &self.giphy_built_in {
            Some(key) => Some(key.as_str()),
            None => None,
        };
        let key = match self.settings.effective_giphy_key(built_in) {
            Some(key) => key,
            None => String::new(),
        };
        self.send(Command::SearchGifs { query, key });
    }

    pub(crate) fn set_archived(&mut self, chat: String, archived: bool)
        ensures
            archived_set(*old(self), chat@, archived, *final(self)),
    {
        proof {
            reveal(archived_set);
        }
        let i = self.chat_index(chat.as_str());
        if i < self.chats.len() {
            let ghost before = self.chats@;
            let mut known = self.chats.remove(i);
            known.archived = archived;
            self.chats.insert(i, known);
            assert(self.chats@ =~= before.update(i as int, Chat { archived, ..before[i as int] }));
        }
        let open = match &self.open_chat {
            Some(open) => *open == chat,
            None => false,
        };
        if archived && open {
            self.actions.push(Action::CloseChat);
        }
        self.send(Command::SetArchived(chat, archived));
    }

    pub(crate) fn set_pinned(&mut self, chat: String, pinned: bool)
        ensures
            pinned_set(*old(self), chat@, pinned, *final(self)),
    {
        proof {
            reveal(pinned_set);
        }
        let i = self.chat_index(chat.as_str());
        if i < self.chats.len() {
            let ghost before = self.chats@;
            let mut known = self.chats.remove(i);
            known.pinned = pinned;
            self.chats.insert(i, known);
            assert(self.chats@ =~= before.update(i as int, Chat { pinned, ..before[i as int] }));
        }
        self.send(Command::SetPinned(chat, pinned));
    }

    /// Marks a loaded conversation as loading older messages and asks the
    /// archive for everything down to a message not loaded yet.
    fn load_until(&mut self, chat: &String, id: &String)
        requires
            old(self).conversations@.contains_key(chat@),
            index_of_id(old(self).conversations@[chat@].messages@, id@) is None,
            !old(self).conversations@[chat@].loading_older,
            old(self).conversations@[chat@].messages@.len() > 0,
        ensures
            ({
                let c = old(self).conversations@[chat@];
                &&& final(self).conversations@ == old(self).conversations@.insert(
                    chat@,
                    Conversation { loading_older: true, ..c },
                )
                &&& commands_view(final(self).outbox@) == commands_view(old(self).outbox@).push(
                    CommandView::LoadUntil {
                        chat: chat@,
                        id: id@,
                        before: (c.messages@[0].timestamp, c.messages@[0].id@),
                    },
                )
                &&& *final(self) == (App {
                    conversations: final(self).conversations,
                    outbox: final(self).outbox,
                    ..*old(self)
                })
            }),
    {
        match self.conversations.remove(chat.as_str()) {
            Some(mut c) => {
                let ghost c0 = c;
                c.loading_older = true;
                let before = (c.messages[0].timestamp, c.messages[0].id.clone());
                self.conversations.insert(chat.clone(), c);
                assert(self.conversations@ =~= old(self).conversations@.insert(
                    chat@,
                    Conversation { loading_older: true, ..c0 },
                ));
                self.send(Command::LoadUntil { chat: chat.clone(), id: id.clone(), before });
            },
            None => {},
        }
    }

    /// Whether a message is older than what a loaded chat holds, with the
    /// chat not loading already.
    fn beyond_loaded(&self, chat: &str, id: &str) -> (r: bool)
        requires
            self.conversations@.contains_key(chat@),
        ensures
            r == ({
                let c = self.conversations@[chat@];
                index_of_id(c.messages@, id@) is None && !c.loading_older && c.messages@.len() > 0
            }),
    {
        match self.conversations.get(chat) {
            Some(c) => {
                proof {
                    lemma_index_of_id(c.messages@, id@);
                }
                let missing = match c.message(id) {
                    Some(_) => false,
                    None => true,
                };
                missing && !c.loading_older && c.messages.len() > 0
            },
            None => false,
        }
    }

    fn reach_new(&mut self, chat: String, id: String)
        requires
            !old(self).conversations@.contains_key(chat@),
        ensures
            reached(*old(self), chat@, id, *final(self)),
    {
        proof {
            reveal(reached);
        }
        self.conversations.insert(chat, Conversation::new());
        self.view.scroll_anchor = Some(id);
    }

    fn reach_keep(&mut self, chat: String, id: String)
        requires
            old(self).conversations@.contains_key(chat@),
            !({
                let c = old(self).conversations@[chat@];
                index_of_id(c.messages@, id@) is None && !c.loading_older && c.messages@.len() > 0
            }),
        ensures
            reached(*old(self), chat@, id, *final(self)),
    {
        proof {
            reveal(reached);
        }
        assert(self.conversations@ =~= old(self).conversations@.insert(
            chat@,
            old(self).conversations@[chat@],
        ));
        self.view.scroll_anchor = Some(id);
    }

    fn reach_older(&mut self, chat: String, id: String)
        requires
            old(self).conversations@.contains_key(chat@),
            ({
                let c = old(self).conversations@[chat@];
                index_of_id(c.messages@, id@) is None && !c.loading_older && c.messages@.len() > 0
            }),
        ensures
            reached(*old(self), chat@, id, *final(self)),
    {
        proof {
            reveal(reached);
        }
        self.load_until(&chat, &id);
        self.view.scroll_anchor = Some(id);
    }

    fn reach_loaded(&mut self, chat: String, id: String)
        requires
            old(self).conversations@.contains_key(chat@),
        ensures
            reached(*old(self), chat@, id, *final(self)),
    {
        if self.beyond_loaded(chat.as_str(), id.as_str()) {
            self.reach_older(chat, id);
        } else {
            self.reach_keep(chat, id);
        }
    }

    fn reach(&mut self, chat: String, id: String)
        ensures
            reached(*old(self), chat@, id, *final(self)),
    {
        if !self.conversations.contains_key(chat.as_str()) {
            self.reach_new(chat, id);
        } else {
            self.reach_loaded(chat, id);
        }
    }

    pub(crate) fn scroll_to(&mut self, id: String)
        ensures
            scrolled_to(*old(self), id, *final(self)),
    {
        proof {
            reveal(scrolled_to);
        }
        self.view.scroll_to_bottom = false;
        let chat = match &self.open_chat {
            Some(chat) => chat.clone(),
            None => {
                return;
            },
        };
        self.reach(chat, id);
    }

    pub(crate) fn pair_with_phone(&mut self, phone: String, now: i64)
        ensures
            pairing_asked(*old(self), phone@, now, *final(self)),
    {
        proof {
            reveal(pairing_asked);
        }
        let digits = crate::util::ascii_digits(phone.as_str());
        if digits.len() < 7 {
            self.notice(
                "Enter the number with its country code, digits only",
                ToastKind::Error,
                now,
            );
        } else {
            self.send_only(Command::PairWithPhone(crate::text::from_chars(digits.as_slice())));
        }
    }
}

} // verus!
