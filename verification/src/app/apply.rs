//! The one entry point for what the views ask: an action and the time it
//! is applied at.

use vstd::prelude::*;

use crate::app::actions::{
    archived_set, deleted_for_me, download_asked, effected, files_sent, gifs_searched,
    pairing_asked, picker_toggled, pinned_set, revoked_for_everyone, scrolled_down, scrolled_to,
    sent, sent_with_notice, toasted,
};
use crate::app::compose::{chat_closed, edit_started, recent_after, text_sent};
use crate::app::frame::insertion_point;
use crate::app::history::{fetched_older, older_loaded};
use crate::app::{
    chat_opened, keystroke_noted, read_marked, stopped_composing, text_of, App, Compose, Effect,
    Picker, Saving, Screen, Window,
};
use crate::backend::{commands_view, Command, CommandView};
use crate::model::{Action, Dialog, Gif, Page, ToastKind};
use crate::settings::{Settings, ZOOM_ONE_BITS};

verus! {

/// A page of the window opened, any dialog closed.
#[verifier::opaque]
pub open spec fn page_opened(before: App, page: Page, after: App) -> bool {
    after == (App {
        view: Screen { page, dialog: None, ..before.view },
        ..before
    })
}

/// Text copied to the clipboard, with a notice.
#[verifier::opaque]
pub open spec fn text_copied(before: App, text: String, now: i64, after: App) -> bool {
    exists|s1: App|
        #![trigger effected(before, Effect::CopyText(text), s1)]
        effected(before, Effect::CopyText(text), s1) && toasted(
            s1,
            "Copied"@,
            ToastKind::Info,
            now,
            after,
        )
}

/// Replying to a message: the composer points at it and takes the focus.
#[verifier::opaque]
pub open spec fn reply_started(before: App, id: String, after: App) -> bool {
    after == (App {
        compose: Compose { reply_to: Some(id), ..before.compose },
        view: Screen { focus_composer: true, ..before.view },
        ..before
    })
}

/// No longer replying.
#[verifier::opaque]
pub open spec fn reply_cancelled(before: App, after: App) -> bool {
    after == (App {
        compose: Compose { reply_to: None, ..before.compose },
        ..before
    })
}

/// No longer changing a message; what the composer held goes.
#[verifier::opaque]
pub open spec fn edit_cancelled(before: App, after: App) -> bool {
    if before.compose.editing is Some {
        &&& after.composer@.len() == 0
        &&& after == (App {
            composer: after.composer,
            compose: Compose { editing: None, ..before.compose },
            ..before
        })
    } else {
        after == before
    }
}

/// Files to send chosen with the desktop's picker, for the open chat.
#[verifier::opaque]
pub open spec fn attach_asked(before: App, after: App) -> bool {
    match before.open_chat {
        Some(chat) => sent(before, CommandView::PickFiles(chat@), after),
        None => after == before,
    }
}

/// A picture from the clipboard sent to the open chat.
#[verifier::opaque]
pub open spec fn image_pasted(before: App, width: usize, height: usize, rgba: Vec<u8>, now: i64, after: App) -> bool {
    match before.open_chat {
        Some(chat) => sent_with_notice(
            before,
            "Sending the picture…"@,
            CommandView::SendImage {
                chat: chat@,
                width: width as u32,
                height: height as u32,
                rgba: rgba@,
            },
            now,
            after,
        ),
        None => after == before,
    }
}

/// The picker closed.
#[verifier::opaque]
pub open spec fn picker_closed(before: App, after: App) -> bool {
    after == (App {
        picker: Picker { tab: None, ..before.picker },
        ..before
    })
}

/// An emoji put into the composer at the cursor (at the end without one),
/// the cursor moved past it, and the emoji first among those picked
/// lately. A composer whose length together with the emoji's would not
/// fit a `usize` is left as it is.
#[verifier::opaque]
pub open spec fn emoji_inserted(before: App, emoji: String, cursor: Option<usize>, after: App) -> bool {
    let fits = before.composer@.len() + emoji@.len() <= usize::MAX;
    let at = insertion_point(before.composer@, cursor);
    &&& after.settings.recent_emoji@ == recent_after(before.settings.recent_emoji@, emoji)
    &&& after.composer@ == if fits {
        before.composer@.take(at) + emoji@ + before.composer@.skip(at)
    } else {
        before.composer@
    }
    &&& after.effects@ == if fits && cursor is Some {
        before.effects@.push(Effect::ComposerCursor((at + emoji@.len()) as usize))
    } else {
        before.effects@
    }
    &&& after == (App {
        composer: after.composer,
        settings: Settings {
            recent_emoji: after.settings.recent_emoji,
            ..before.settings
        },
        saving: Saving { dirty: true, ..before.saving },
        effects: after.effects,
        view: Screen { focus_composer: true, ..before.view },
        ..before
    })
}

/// Without a cursor an emoji goes at the end of what the composer holds,
/// and the composer takes the focus.
pub proof fn an_emoji_without_a_cursor_goes_at_the_end(before: App, emoji: String, after: App)
    requires
        emoji_inserted(before, emoji, None, after),
        before.composer@.len() + emoji@.len() <= usize::MAX,
    ensures
        after.composer@ == before.composer@ + emoji@,
        after.view.focus_composer,
        after.effects@ == before.effects@,
{
    reveal(emoji_inserted);
    assert(before.composer@.take(before.composer@.len() as int) =~= before.composer@);
    assert(before.composer@.skip(before.composer@.len() as int) =~= Seq::<char>::empty());
    assert(before.composer@ + emoji@ + Seq::<char>::empty() =~= before.composer@ + emoji@);
}

/// A sticker sent to the open chat; the picker closes.
#[verifier::opaque]
pub open spec fn sticker_sent(before: App, path: String, after: App) -> bool {
    match before.open_chat {
        Some(chat) => {
            &&& commands_view(after.outbox@) == commands_view(before.outbox@).push(
                CommandView::SendSticker { chat: chat@, path: path@ },
            )
            &&& after == (App {
                outbox: after.outbox,
                picker: Picker { tab: None, ..before.picker },
                view: scrolled_down(before.view),
                ..before
            })
        },
        None => after == before,
    }
}

/// A GIF sent to the open chat; the picker closes.
#[verifier::opaque]
pub open spec fn gif_sent(before: App, gif: Gif, now: i64, after: App) -> bool {
    match before.open_chat {
        Some(chat) => exists|s1: App|
            #![trigger sent_with_notice(before, "Sending the GIF…"@, CommandView::SendGif { chat: chat@, gif }, now, s1)]
            sent_with_notice(
                before,
                "Sending the GIF…"@,
                CommandView::SendGif { chat: chat@, gif },
                now,
                s1,
            ) && after == (App { picker: Picker { tab: None, ..s1.picker }, ..s1 }),
        None => after == before,
    }
}

/// A reaction handed to the backend.
#[verifier::opaque]
pub open spec fn reacted(before: App, chat: String, message: String, emoji: String, after: App) -> bool {
    sent(
        before,
        CommandView::React { chat: chat@, message: message@, emoji: emoji@ },
        after,
    )
}

/// A dialog shown; the pairing one starts with an empty number.
#[verifier::opaque]
pub open spec fn dialog_shown(before: App, dialog: Dialog, after: App) -> bool {
    if dialog == Dialog::PairWithPhone {
        &&& after.view.pair_phone@.len() == 0
        &&& after == (App {
            view: Screen {
                dialog: Some(dialog),
                pair_phone: after.view.pair_phone,
                ..before.view
            },
            ..before
        })
    } else {
        after == (App { view: Screen { dialog: Some(dialog), ..before.view }, ..before })
    }
}

/// The dialog closed.
#[verifier::opaque]
pub open spec fn dialog_closed(before: App, after: App) -> bool {
    after == (App {
        view: Screen { dialog: None, ..before.view },
        ..before
    })
}

/// The chat list shown or hidden.
#[verifier::opaque]
pub open spec fn sidebar_toggled(before: App, after: App) -> bool {
    after == (App {
        view: Screen { sidebar_visible: !before.view.sidebar_visible, ..before.view },
        ..before
    })
}

/// The chat list's search takes the focus.
#[verifier::opaque]
pub open spec fn search_focused(before: App, after: App) -> bool {
    after == (App {
        view: Screen {
            sidebar_visible: true,
            page: crate::model::Page::Chats,
            focus_search: true,
            ..before.view
        },
        ..before
    })
}

/// The composer takes the focus.
#[verifier::opaque]
pub open spec fn composer_focused(before: App, after: App) -> bool {
    after == (App {
        view: Screen { focus_composer: true, ..before.view },
        ..before
    })
}

/// The conversation view goes to its newest message.
#[verifier::opaque]
pub open spec fn bottom_asked(before: App, after: App) -> bool {
    after == (App {
        view: Screen { scroll_to_bottom: true, ..before.view },
        ..before
    })
}

/// The chat list's search text changed.
#[verifier::opaque]
pub open spec fn search_set(before: App, text: String, after: App) -> bool {
    after == (App { search: text, ..before })
}

/// The settings are to be written.
#[verifier::opaque]
pub open spec fn settings_changed(before: App, after: App) -> bool {
    after == (App {
        saving: Saving { dirty: true, ..before.saving },
        ..before
    })
}

/// The zoom changed by a step, which the window applies.
#[verifier::opaque]
pub open spec fn zoomed(before: App, step: u32, after: App) -> bool {
    &&& after.effects@ == before.effects@.push(Effect::ZoomBy(step))
    &&& after == (App {
        effects: after.effects,
        window: Window { zoom_applied: false, ..before.window },
        saving: Saving { dirty: true, ..before.saving },
        ..before
    })
}

/// The zoom back to its default.
#[verifier::opaque]
pub open spec fn zoom_reset(before: App, after: App) -> bool {
    after == (App {
        settings: Settings { zoom_bits: ZOOM_ONE_BITS, ..before.settings },
        window: Window { zoom_applied: false, ..before.window },
        saving: Saving { dirty: true, ..before.saving },
        ..before
    })
}

/// The device unlinked; the dialog closes.
#[verifier::opaque]
pub open spec fn unlinked(before: App, after: App) -> bool {
    exists|s1: App|
        #![trigger sent(s1, CommandView::Unlink, after)]
        s1 == (App { view: Screen { dialog: None, ..before.view }, ..before }) && sent(
            s1,
            CommandView::Unlink,
            after,
        )
}

/// The backend asked to reconnect.
#[verifier::opaque]
pub open spec fn reconnect_asked(before: App, after: App) -> bool {
    sent(before, CommandView::Reconnect, after)
}

/// The app quits: the window closes for good.
#[verifier::opaque]
pub open spec fn quit_asked(before: App, after: App) -> bool {
    &&& after.effects@ == before.effects@.push(Effect::CloseWindow)
    &&& after == (App {
        effects: after.effects,
        window: Window { quit_requested: true, ..before.window },
        ..before
    })
}

/// The window brought forward, or created when the app lives in the tray.
#[verifier::opaque]
pub open spec fn window_shown(before: App, after: App) -> bool {
    if before.window.hidden {
        after == (App { window: Window { wants_show: true, ..before.window }, ..before })
    } else {
        effected(before, Effect::FocusWindow, after)
    }
}

/// The window closed with the app staying in the tray, when there is one.
#[verifier::opaque]
pub open spec fn window_hidden(before: App, after: App) -> bool {
    if before.window.has_tray {
        &&& after.effects@ == before.effects@.push(Effect::CloseWindow)
        &&& after == (App {
            effects: after.effects,
            window: Window { hide_intent: true, ..before.window },
            ..before
        })
    } else {
        after == before
    }
}

/// What applying an action does, at `now` (milliseconds of the app's
/// clock, Unix seconds being a thousandth of it).
pub open spec fn applied(before: App, action: Action, now: i64, after: App) -> bool {
    match action {
        Action::Open(page) => page_opened(before, page, after),
        Action::OpenChat(id) => chat_opened(before, id@, after),
        Action::CloseChat => chat_closed(before, after),
        Action::SendText { chat, text, quoting } => exists|s1: App|
            #![trigger text_sent(before, chat@, text@, text_of(quoting), s1)]
            text_sent(before, chat@, text@, text_of(quoting), s1) && after == (App {
                compose: Compose { reply_to: None, ..s1.compose },
                ..s1
            }),
        Action::Composing { chat, composing } => if composing {
            keystroke_noted(before, now, after)
        } else {
            stopped_composing(before, chat@, after)
        },
        Action::MarkRead(chat) => read_marked(before, chat@, after),
        Action::LoadOlder(chat) => older_loaded(before, chat@, now, after),
        Action::FetchOlder(chat) => fetched_older(before, chat@, now, after),
        Action::Download { chat, message } => download_asked(before, chat@, message@, after),
        Action::OpenFile(path) => effected(before, Effect::OpenFile(path), after),
        Action::OpenUrl(url) => effected(before, Effect::OpenUrl(url), after),
        Action::CopyText(text) => text_copied(before, text, now, after),
        Action::Reply(id) => reply_started(before, id, after),
        Action::CancelReply => reply_cancelled(before, after),
        Action::Edit(id) => edit_started(before, id, after),
        Action::CancelEdit => edit_cancelled(before, after),
        Action::DeleteForEveryone(id) => revoked_for_everyone(before, id@, after),
        Action::DeleteForMe(id) => deleted_for_me(before, id@, after),
        Action::Attach => attach_asked(before, after),
        Action::SendFiles(paths) => files_sent(before, paths, now, after),
        Action::PasteImage { width, height, rgba } => image_pasted(before, width, height, rgba, now, after),
        Action::TogglePicker(tab) => picker_toggled(before, tab, after),
        Action::ClosePicker => picker_closed(before, after),
        Action::InsertEmoji(emoji, cursor) => emoji_inserted(before, emoji, cursor, after),
        Action::SendSticker(path) => sticker_sent(before, path, after),
        Action::SearchGifs(query) => gifs_searched(before, query, after),
        Action::SendGif(gif) => gif_sent(before, gif, now, after),
        Action::React { chat, message, emoji } => reacted(before, chat, message, emoji, after),
        Action::SetArchived(chat, archived) => archived_set(before, chat@, archived, after),
        Action::SetPinned(chat, pinned) => pinned_set(before, chat@, pinned, after),
        Action::ShowDialog(dialog) => dialog_shown(before, dialog, after),
        Action::CloseDialog => dialog_closed(before, after),
        Action::ToggleSidebar => sidebar_toggled(before, after),
        Action::FocusSearch => search_focused(before, after),
        Action::FocusComposer => composer_focused(before, after),
        Action::ScrollToBottom => bottom_asked(before, after),
        Action::ScrollTo(id) => scrolled_to(before, id, after),
        Action::Search(text) => search_set(before, text, after),
        Action::SettingsChanged => settings_changed(before, after),
        Action::ZoomBy(step) => zoomed(before, step, after),
        Action::ResetZoom => zoom_reset(before, after),
        Action::PairWithPhone(phone) => pairing_asked(before, phone@, now, after),
        Action::Unlink => unlinked(before, after),
        Action::Reconnect => reconnect_asked(before, after),
        Action::Quit => quit_asked(before, after),
        Action::ShowWindow => window_shown(before, after),
        Action::HideWindow => window_hidden(before, after),
    }
}

/// An action on the open chat or its composer.
pub open spec fn chat_action(action: Action) -> bool {
    match action {
        Action::OpenChat(..) => true,
        Action::CloseChat => true,
        Action::SendText { .. } => true,
        Action::Composing { .. } => true,
        Action::MarkRead(..) => true,
        Action::LoadOlder(..) => true,
        Action::FetchOlder(..) => true,
        Action::Download { .. } => true,
        Action::Reply(..) => true,
        Action::CancelReply => true,
        Action::Edit(..) => true,
        Action::CancelEdit => true,
        Action::DeleteForEveryone(..) => true,
        Action::DeleteForMe(..) => true,
        Action::ScrollTo(..) => true,
        _ => false,
    }
}

/// An action that sends something or works the picker or the chat list.
pub open spec fn send_action(action: Action) -> bool {
    match action {
        Action::Attach => true,
        Action::SendFiles(..) => true,
        Action::PasteImage { .. } => true,
        Action::TogglePicker(..) => true,
        Action::ClosePicker => true,
        Action::InsertEmoji(..) => true,
        Action::SendSticker(..) => true,
        Action::SearchGifs(..) => true,
        Action::SendGif(..) => true,
        Action::React { .. } => true,
        Action::SetArchived(..) => true,
        Action::SetPinned(..) => true,
        _ => false,
    }
}

/// An action on what the window shows.
pub open spec fn view_action(action: Action) -> bool {
    match action {
        Action::Open(..) => true,
        Action::OpenFile(..) => true,
        Action::OpenUrl(..) => true,
        Action::CopyText(..) => true,
        Action::ShowDialog(..) => true,
        Action::CloseDialog => true,
        Action::ToggleSidebar => true,
        Action::FocusSearch => true,
        Action::FocusComposer => true,
        Action::ScrollToBottom => true,
        Action::Search(..) => true,
        _ => false,
    }
}

/// An action on the settings, the link or the window.
pub open spec fn window_action(action: Action) -> bool {
    match action {
        Action::SettingsChanged => true,
        Action::ZoomBy(..) => true,
        Action::ResetZoom => true,
        Action::PairWithPhone(..) => true,
        Action::Unlink => true,
        Action::Reconnect => true,
        Action::Quit => true,
        Action::ShowWindow => true,
        Action::HideWindow => true,
        _ => false,
    }
}

impl App {
    fn reply(&mut self, id: String)
        ensures
            reply_started(*old(self), id, *final(self)),
    {
        proof {
            reveal(reply_started);
        }
        self.compose.reply_to = Some(id);
        self.view.focus_composer = true;
    }

    fn cancel_reply(&mut self)
        ensures
            reply_cancelled(*old(self), *final(self)),
    {
        proof {
            reveal(reply_cancelled);
        }
        self.compose.reply_to = None;
    }

    fn cancel_editing(&mut self)
        ensures
            edit_cancelled(*old(self), *final(self)),
    {
        proof {
            reveal(edit_cancelled);
        }
        self.cancel_edit();
    }

    fn attach(&mut self)
        ensures
            attach_asked(*old(self), *final(self)),
    {
        proof {
            reveal(attach_asked);
        }
        match &self.open_chat {
            Some(chat) => {
                let chat = chat.clone();
                self.send_only(Command::PickFiles(chat));
            },
            None => {},
        }
    }

    fn paste_image(&mut self, width: usize, height: usize, rgba: Vec<u8>, now: i64)
        ensures
            image_pasted(*old(self), width, height, rgba, now, *final(self)),
    {
        proof {
            reveal(image_pasted);
        }
        match &self.open_chat {
            Some(chat) => {
                let chat = chat.clone();
                self.send_noticed(
                    "Sending the picture…",
                    Command::SendImage {
                        chat,
                        width: width as u32,
                        height: height as u32,
                        rgba,
                    },
                    now,
                );
            },
            None => {},
        }
    }

    fn close_picker(&mut self)
        ensures
            picker_closed(*old(self), *final(self)),
    {
        proof {
            reveal(picker_closed);
        }
        self.picker.tab = None;
    }

    fn pick_emoji(&mut self, emoji: String, cursor: Option<usize>)
        ensures
            emoji_inserted(*old(self), emoji, cursor, *final(self)),
    {
        proof {
            reveal(emoji_inserted);
        }
        self.insert_emoji(emoji, cursor);
    }

    fn send_sticker(&mut self, path: String)
        ensures
            sticker_sent(*old(self), path, *final(self)),
    {
        proof {
            reveal(sticker_sent);
        }
        match &self.open_chat {
            Some(chat) => {
                let chat = chat.clone();
                self.send(Command::SendSticker { chat, path });
                self.picker.tab = None;
                self.view.scroll_to_bottom = true;
                self.view.at_bottom = true;
            },
            None => {},
        }
    }

    fn send_gif(&mut self, gif: Gif, now: i64)
        ensures
            gif_sent(*old(self), gif, now, *final(self)),
    {
        proof {
            reveal(gif_sent);
        }
        match &self.open_chat {
            Some(chat) => {
                let chat = chat.clone();
                self.send_noticed("Sending the GIF…", Command::SendGif { chat, gif }, now);
                self.picker.tab = None;
            },
            None => {},
        }
    }

    fn react(&mut self, chat: String, message: String, emoji: String)
        ensures
            reacted(*old(self), chat, message, emoji, *final(self)),
    {
        proof {
            reveal(reacted);
        }
        self.send_only(
                Command::React { chat, message, emoji },
            );
    }

    fn open_page(&mut self, page: Page)
        ensures
            page_opened(*old(self), page, *final(self)),
    {
        proof {
            reveal(page_opened);
        }
        self.view.page = page;
        self.view.dialog = None;
    }

    fn copy_text(&mut self, text: String, now: i64)
        ensures
            text_copied(*old(self), text, now, *final(self)),
    {
        proof {
            reveal(text_copied);
        }
        self.effect(Effect::CopyText(text));
        self.notice("Copied", ToastKind::Info, now);
    }

    fn show_dialog(&mut self, dialog: Dialog)
        ensures
            dialog_shown(*old(self), dialog, *final(self)),
    {
        proof {
            reveal(dialog_shown);
        }
        match dialog {
            Dialog::PairWithPhone => {
                self.view.pair_phone = String::new();
            },
            _ => {},
        }
        self.view.dialog = Some(dialog);
    }

    fn close_dialog(&mut self)
        ensures
            dialog_closed(*old(self), *final(self)),
    {
        proof {
            reveal(dialog_closed);
        }
        self.view.dialog = None;
    }

    fn toggle_sidebar(&mut self)
        ensures
            sidebar_toggled(*old(self), *final(self)),
    {
        proof {
            reveal(sidebar_toggled);
        }
        self.view.sidebar_visible = !self.view.sidebar_visible;
    }

    fn focus_search(&mut self)
        ensures
            search_focused(*old(self), *final(self)),
    {
        proof {
            reveal(search_focused);
        }
        self.view.sidebar_visible = true;
        self.view.page = crate::model::Page::Chats;
        self.view.focus_search = true;
    }

    fn focus_composer(&mut self)
        ensures
            composer_focused(*old(self), *final(self)),
    {
        proof {
            reveal(composer_focused);
        }
        self.view.focus_composer = true;
    }

    fn scroll_to_bottom(&mut self)
        ensures
            bottom_asked(*old(self), *final(self)),
    {
        proof {
            reveal(bottom_asked);
        }
        self.view.scroll_to_bottom = true;
    }

    fn set_search(&mut self, text: String)
        ensures
            search_set(*old(self), text, *final(self)),
    {
        proof {
            reveal(search_set);
        }
        self.search = text;
    }

    fn settings_changed_now(&mut self)
        ensures
            settings_changed(*old(self), *final(self)),
    {
        proof {
            reveal(settings_changed);
        }
        self.mark_settings_dirty();
    }

    fn zoom_by(&mut self, step: u32)
        ensures
            zoomed(*old(self), step, *final(self)),
    {
        proof {
            reveal(zoomed);
        }
        self.effects.push(Effect::ZoomBy(step));
        self.window.zoom_applied = false;
        self.saving.dirty = true;
    }

    fn reset_zoom(&mut self)
        ensures
            zoom_reset(*old(self), *final(self)),
    {
        proof {
            reveal(zoom_reset);
        }
        self.settings.zoom_bits = ZOOM_ONE_BITS;
        self.window.zoom_applied = false;
        self.saving.dirty = true;
    }

    fn unlink(&mut self)
        ensures
            unlinked(*old(self), *final(self)),
    {
        proof {
            reveal(unlinked);
        }
        self.view.dialog = None;
        self.send_only(Command::Unlink);
    }

    fn reconnect(&mut self)
        ensures
            reconnect_asked(*old(self), *final(self)),
    {
        proof {
            reveal(reconnect_asked);
        }
        self.send_only(Command::Reconnect);
    }

    fn quit(&mut self)
        ensures
            quit_asked(*old(self), *final(self)),
    {
        proof {
            reveal(quit_asked);
        }
        self.window.quit_requested = true;
        self.effects.push(Effect::CloseWindow);
    }

    fn show_window(&mut self)
        ensures
            window_shown(*old(self), *final(self)),
    {
        proof {
            reveal(window_shown);
        }
        if self.window.hidden {
            self.window.wants_show = true;
        } else {
            self.effect(Effect::FocusWindow);
        }
    }

    fn hide_window(&mut self)
        ensures
            window_hidden(*old(self), *final(self)),
    {
        proof {
            reveal(window_hidden);
        }
        if self.window.has_tray {
            self.window.hide_intent = true;
            self.effects.push(Effect::CloseWindow);
        }
    }

    fn apply_chat_action(&mut self, action: Action, now: i64)
        requires
            chat_action(action),
        ensures
            applied(*old(self), action, now, *final(self)),
    {
        match action {
            Action::OpenChat(id) => self.open_chat(id),
            Action::CloseChat => self.close_chat(),
            Action::SendText { chat, text, quoting } => {
                self.send_text(chat, text, quoting);
                self.compose.reply_to = None;
            },
            Action::Composing { chat, composing } => {
                if composing {
                    self.note_keystroke(now);
                } else {
                    self.stop_composing(chat.as_str());
                }
            },
            Action::MarkRead(chat) => self.mark_read(chat.as_str()),
            Action::LoadOlder(chat) => self.load_older(chat.as_str(), now),
            Action::FetchOlder(chat) => self.fetch_older(chat.as_str(), now),
            Action::Download { chat, message } => self.download(chat, message),
            Action::Reply(id) => self.reply(id),
            Action::CancelReply => self.cancel_reply(),
            Action::Edit(id) => self.start_edit(id),
            Action::CancelEdit => self.cancel_editing(),
            Action::DeleteForEveryone(id) => self.revoke_open(id),
            Action::DeleteForMe(id) => self.delete_open(id),
            Action::ScrollTo(id) => self.scroll_to(id),

            _ => {},
        }
    }

    fn apply_send_action(&mut self, action: Action, now: i64)
        requires
            send_action(action),
        ensures
            applied(*old(self), action, now, *final(self)),
    {
        match action {
            Action::Attach => self.attach(),
            Action::SendFiles(paths) => self.send_files(paths, now),
            Action::PasteImage { width, height, rgba } => self.paste_image(width, height, rgba, now),
            Action::TogglePicker(tab) => self.toggle_picker(tab),
            Action::ClosePicker => self.close_picker(),
            Action::InsertEmoji(emoji, cursor) => self.pick_emoji(emoji, cursor),
            Action::SendSticker(path) => self.send_sticker(path),
            Action::SearchGifs(query) => self.search_gifs(query),
            Action::SendGif(gif) => self.send_gif(gif, now),
            Action::React { chat, message, emoji } => self.react(chat, message, emoji),
            Action::SetArchived(chat, archived) => self.set_archived(chat, archived),
            Action::SetPinned(chat, pinned) => self.set_pinned(chat, pinned),
            _ => {},
        }
    }

    fn apply_view_action(&mut self, action: Action, now: i64)
        requires
            view_action(action),
        ensures
            applied(*old(self), action, now, *final(self)),
    {
        match action {
            Action::Open(page) => self.open_page(page),
            Action::OpenFile(path) => self.effect(Effect::OpenFile(path)),
            Action::OpenUrl(url) => self.effect(Effect::OpenUrl(url)),
            Action::CopyText(text) => self.copy_text(text, now),
            Action::ShowDialog(dialog) => self.show_dialog(dialog),
            Action::CloseDialog => self.close_dialog(),
            Action::ToggleSidebar => self.toggle_sidebar(),
            Action::FocusSearch => self.focus_search(),
            Action::FocusComposer => self.focus_composer(),
            Action::ScrollToBottom => self.scroll_to_bottom(),
            Action::Search(text) => self.set_search(text),
            _ => {},
        }
    }

    fn apply_window_action(&mut self, action: Action, now: i64)
        requires
            window_action(action),
        ensures
            applied(*old(self), action, now, *final(self)),
    {
        match action {
            Action::SettingsChanged => self.settings_changed_now(),
            Action::ZoomBy(step) => self.zoom_by(step),
            Action::ResetZoom => self.reset_zoom(),
            Action::PairWithPhone(phone) => self.pair_with_phone(phone, now),
            Action::Unlink => self.unlink(),
            Action::Reconnect => self.reconnect(),
            Action::Quit => self.quit(),
            Action::ShowWindow => self.show_window(),
            Action::HideWindow => self.hide_window(),
            _ => {},
        }
    }

    /// Applies one action at `now` (milliseconds of the app's clock).
    pub fn apply(&mut self, action: Action, now: i64)
        ensures
            applied(*old(self), action, now, *final(self)),
    {
        match action {
            Action::OpenChat(..)
            | Action::CloseChat
            | Action::SendText { .. }
            | Action::Composing { .. }
            | Action::MarkRead(..)
            | Action::LoadOlder(..)
            | Action::FetchOlder(..)
            | Action::Download { .. }
            | Action::Reply(..)
            | Action::CancelReply
            | Action::Edit(..)
            | Action::CancelEdit
            | Action::DeleteForEveryone(..)
            | Action::DeleteForMe(..)
            | Action::ScrollTo(..) => self.apply_chat_action(action, now),
            Action::Attach
            | Action::SendFiles(..)
            | Action::PasteImage { .. }
            | Action::TogglePicker(..)
            | Action::ClosePicker
            | Action::InsertEmoji(..)
            | Action::SendSticker(..)
            | Action::SearchGifs(..)
            | Action::SendGif(..)
            | Action::React { .. }
            | Action::SetArchived(..)
            | Action::SetPinned(..) => self.apply_send_action(action, now),
            Action::Open(..)
            | Action::OpenFile(..)
            | Action::OpenUrl(..)
            | Action::CopyText(..)
            | Action::ShowDialog(..)
            | Action::CloseDialog
            | Action::ToggleSidebar
            | Action::FocusSearch
            | Action::FocusComposer
            | Action::ScrollToBottom
            | Action::Search(..) => self.apply_view_action(action, now),
            Action::SettingsChanged
            | Action::ZoomBy(..)
            | Action::ResetZoom
            | Action::PairWithPhone(..)
            | Action::Unlink
            | Action::Reconnect
            | Action::Quit
            | Action::ShowWindow
            | Action::HideWindow => self.apply_window_action(action, now),
        }
    }
}

} // verus!
