//! Upkeep between frames: what times out, and the window coming and going.

use vstd::prelude::*;

use crate::app::{
    stopped_composing, unread_in, editable, revocable, App, Effect, Saving, Typers, Window,
};
use crate::model::{Message, Toast, ToastKind};
use crate::text::push_str;

verus! {

/// How long after the last keystroke the other side is told we stopped
/// typing, in milliseconds.
pub const COMPOSING_TIMEOUT_MS: i64 = 4000i64;

/// How long "typing…" stays on screen if the other side never says it
/// stopped, in milliseconds.
pub const TYPING_TIMEOUT_MS: i64 = 12000i64;

/// How long a toast shows, in milliseconds.
pub const TOAST_MS: i64 = 3200i64;

/// How long changed settings wait before they are written, in
/// milliseconds.
pub const SAVE_DELAY_MS: i64 = 2000i64;

/// The typers seen typing in the last twelve seconds.
pub open spec fn live_typers(typers: Seq<(String, i64)>, now: i64) -> Seq<(String, i64)> {
    typers.filter(|t: (String, i64)| now - t.1 < TYPING_TIMEOUT_MS)
}

/// The toasts younger than their showing time.
pub open spec fn live_toasts(toasts: Seq<Toast>, now: i64) -> Seq<Toast> {
    toasts.filter(|t: Toast| now - t.created < TOAST_MS)
}

/// After a pause in typing, the other side is told we stopped.
#[verifier::opaque]
pub open spec fn composing_timed_out(before: App, now: i64, after: App) -> bool {
    if before.compose.composing && (before.compose.last_keystroke matches Some(last) && now - last
        > COMPOSING_TIMEOUT_MS) && before.open_chat is Some {
        stopped_composing(before, before.open_chat->0@, after)
    } else {
        after == before
    }
}

/// Typers not seen for a while are dropped, and chats nobody types in.
#[verifier::opaque]
pub open spec fn typing_expired(before: App, now: i64, after: App) -> bool {
    &&& forall|chat: Seq<char>|
        #![trigger after.people.typing@.contains_key(chat)]
        after.people.typing@.contains_key(chat) <==> before.people.typing@.contains_key(chat)
            && live_typers(before.people.typing@[chat]@, now).len() > 0
    &&& forall|chat: Seq<char>|
        #![trigger after.people.typing@[chat]]
        after.people.typing@.contains_key(chat) ==> after.people.typing@[chat]@ == live_typers(
            before.people.typing@[chat]@,
            now,
        )
    &&& after == (App {
        people: crate::app::People { typing: after.people.typing, ..before.people },
        ..before
    })
}

/// Changed settings are written once they have waited a moment.
#[verifier::opaque]
pub open spec fn settings_saved(before: App, now: i64, after: App) -> bool {
    if before.saving.dirty && now - before.saving.last_save > SAVE_DELAY_MS {
        &&& after.effects@ == before.effects@.push(Effect::SaveSettings)
        &&& after == (App {
            saving: Saving { dirty: false, last_save: now },
            effects: after.effects,
            ..before
        })
    } else {
        after == before
    }
}

/// A tick at `now` (milliseconds): typing stops being announced after a
/// pause, old typers and toasts go, and changed settings are written.
#[verifier::opaque]
pub open spec fn ticked(before: App, now: i64, after: App) -> bool {
    exists|s1: App, s2: App, s3: App|
        #![trigger composing_timed_out(before, now, s1), typing_expired(s1, now, s2), settings_saved(s3, now, after)]
        {
            &&& composing_timed_out(before, now, s1)
            &&& typing_expired(s1, now, s2)
            &&& s3.toasts@ == live_toasts(s2.toasts@, now)
            &&& s3 == (App { toasts: s3.toasts, ..s2 })
            &&& settings_saved(s3, now, after)
        }
}

impl App {
    fn time_out_composing(&mut self, now: i64)
        ensures
            composing_timed_out(*old(self), now, *final(self)),
    {
        proof {
            reveal(composing_timed_out);
        }
        if !self.compose.composing {
            return;
        }
        let late = match self.compose.last_keystroke {
            Some(last) => (now as i128) - (last as i128) > COMPOSING_TIMEOUT_MS as i128,
            None => false,
        };
        if !late {
            return;
        }
        match &self.open_chat {
            Some(chat) => {
                let chat = chat.clone();
                self.stop_composing(chat.as_str());
            },
            None => {},
        }
    }

    /// The typers seen lately.
    fn live(typers: Typers, now: i64) -> (r: Typers)
        ensures
            r@ == live_typers(typers@, now),
    {
        let ghost all = typers@;
        let mut kept: Typers = Vec::new();
        let mut rest = typers;
        let mut k: usize = 0;
        assert(all.take(0).filter(|t: (String, i64)| now - t.1 < TYPING_TIMEOUT_MS) =~= Seq::<
            (String, i64),
        >::empty());
        assert(all.skip(0) =~= all);
        assert(all.len() == rest.len());
        while rest.len() > 0
            invariant
                k <= all.len() <= usize::MAX,
                rest@ == all.skip(k as int),
                kept@ == all.take(k as int).filter(|t: (String, i64)| now - t.1 < TYPING_TIMEOUT_MS),
            decreases rest@.len(),
        {
            let t = rest.remove(0);
            assert(t == all[k as int]);
            assert(rest@ =~= all.skip(k + 1));
            assert(all.take(k + 1).drop_last() =~= all.take(k as int));
            assert(all.take(k + 1).last() == t);
            if (now as i128) - (t.1 as i128) < TYPING_TIMEOUT_MS as i128 {
                kept.push(t);
            }
            proof {
                reveal(Seq::filter);
            }
            k = k + 1;
        }
        assert(all.take(k as int) =~= all);
        kept
    }

    fn expire_typing(&mut self, now: i64)
        ensures
            typing_expired(*old(self), now, *final(self)),
    {
        proof {
            reveal(typing_expired);
        }
        let keys = self.people.typing.keys();
        let mut i: usize = 0;
        while i < keys.len()
            invariant
                i <= keys@.len(),
                forall|chat: Seq<char>|
                    old(self).people.typing@.contains_key(chat) <==> exists|j: int|
                        0 <= j < keys@.len() && (#[trigger] keys@[j])@ == chat,
                forall|a: int, b: int|
                    0 <= a < keys@.len() && 0 <= b < keys@.len() && a != b ==> (
                    #[trigger] keys@[a])@ != (#[trigger] keys@[b])@,
                forall|chat: Seq<char>|
                    #![trigger self.people.typing@.contains_key(chat)]
                    (exists|j: int| 0 <= j < i && (#[trigger] keys@[j])@ == chat) ==> (
                    self.people.typing@.contains_key(chat) <==> live_typers(
                        old(self).people.typing@[chat]@,
                        now,
                    ).len() > 0) && (self.people.typing@.contains_key(chat)
                        ==> self.people.typing@[chat]@ == live_typers(
                        old(self).people.typing@[chat]@,
                        now,
                    )),
                forall|chat: Seq<char>|
                    #![trigger self.people.typing@.contains_key(chat)]
                    !(exists|j: int| 0 <= j < i && (#[trigger] keys@[j])@ == chat) ==> (
                    self.people.typing@.contains_key(chat) == old(self).people.typing@.contains_key(
                        chat,
                    ) && (self.people.typing@.contains_key(chat) ==> self.people.typing@[chat]
                        == old(self).people.typing@[chat])),
                *self == (App {
                    people: crate::app::People { typing: self.people.typing, ..old(self).people },
                    ..*old(self)
                }),
            decreases keys@.len() - i,
        {
            let key = &keys[i];
            let ghost before = self.people.typing@;
            assert(old(self).people.typing@.contains_key(key@)) by {
                assert(keys@[i as int]@ == key@);
            }
            assert(!(exists|j: int| 0 <= j < i && (#[trigger] keys@[j])@ == key@)) by {
                if exists|j: int| 0 <= j < i && (#[trigger] keys@[j])@ == key@ {
                    let j = choose|j: int| 0 <= j < i && (#[trigger] keys@[j])@ == key@;
                    assert(keys@[j]@ != keys@[i as int]@);
                }
            }
            match self.people.typing.remove(key.as_str()) {
                Some(typers) => {
                    let kept = App::live(typers, now);
                    if kept.len() > 0 {
                        self.people.typing.insert(key.clone(), kept);
                    }
                },
                None => {},
            }
            proof {
                assert forall|chat: Seq<char>|
                    #![trigger self.people.typing@.contains_key(chat)]
                    (exists|j: int| 0 <= j < i + 1 && (#[trigger] keys@[j])@ == chat) implies (
                    self.people.typing@.contains_key(chat) <==> live_typers(
                        old(self).people.typing@[chat]@,
                        now,
                    ).len() > 0) && (self.people.typing@.contains_key(chat)
                        ==> self.people.typing@[chat]@ == live_typers(
                        old(self).people.typing@[chat]@,
                        now,
                    )) by {
                    if chat != key@ {
                        let j = choose|j: int| 0 <= j < i + 1 && (#[trigger] keys@[j])@ == chat;
                        assert(j != i);
                        assert(exists|j: int| 0 <= j < i && (#[trigger] keys@[j])@ == chat);
                    }
                }
                assert forall|chat: Seq<char>|
                    #![trigger self.people.typing@.contains_key(chat)]
                    !(exists|j: int| 0 <= j < i + 1 && (#[trigger] keys@[j])@ == chat) implies (
                    self.people.typing@.contains_key(chat) == old(
                        self,
                    ).people.typing@.contains_key(chat) && (self.people.typing@.contains_key(chat)
                        ==> self.people.typing@[chat] == old(self).people.typing@[chat])) by {
                    assert(keys@[i as int]@ == key@);
                    if chat == key@ {
                        assert(exists|j: int| 0 <= j < i + 1 && (#[trigger] keys@[j])@ == chat);
                    }
                    assert(!(exists|j: int| 0 <= j < i && (#[trigger] keys@[j])@ == chat));
                }
            }
            i = i + 1;
        }
        proof {
            assert forall|chat: Seq<char>|
                #![trigger self.people.typing@.contains_key(chat)]
                self.people.typing@.contains_key(chat) <==> old(self).people.typing@.contains_key(
                    chat,
                ) && live_typers(old(self).people.typing@[chat]@, now).len() > 0 by {
                if old(self).people.typing@.contains_key(chat) {
                    let j = choose|j: int| 0 <= j < keys@.len() && (#[trigger] keys@[j])@ == chat;
                } else if self.people.typing@.contains_key(chat) {
                    if exists|j: int| 0 <= j < i && (#[trigger] keys@[j])@ == chat {
                        let j = choose|j: int| 0 <= j < i && (#[trigger] keys@[j])@ == chat;
                        assert(old(self).people.typing@.contains_key(keys@[j]@));
                    }
                }
            }
            assert forall|chat: Seq<char>|
                #![trigger self.people.typing@[chat]]
                self.people.typing@.contains_key(chat) implies self.people.typing@[chat]@
                == live_typers(old(self).people.typing@[chat]@, now) by {
                assert(old(self).people.typing@.contains_key(chat));
                let j = choose|j: int| 0 <= j < keys@.len() && (#[trigger] keys@[j])@ == chat;
            }
        }
    }

    fn drop_old_toasts(&mut self, now: i64)
        ensures
            final(self).toasts@ == live_toasts(old(self).toasts@, now),
            *final(self) == (App { toasts: final(self).toasts, ..*old(self) }),
    {
        let mut rest: Vec<Toast> = Vec::new();
        std::mem::swap(&mut rest, &mut self.toasts);
        let ghost all = rest@;
        let mut kept: Vec<Toast> = Vec::new();
        let mut k: usize = 0;
        assert(all.take(0).filter(|t: Toast| now - t.created < TOAST_MS) =~= Seq::<Toast>::empty());
        assert(all.skip(0) =~= all);
        assert(all.len() == rest.len());
        while rest.len() > 0
            invariant
                k <= all.len() <= usize::MAX,
                rest@ == all.skip(k as int),
                kept@ == all.take(k as int).filter(|t: Toast| now - t.created < TOAST_MS),
            decreases rest@.len(),
        {
            let t = rest.remove(0);
            assert(t == all[k as int]);
            assert(rest@ =~= all.skip(k + 1));
            assert(all.take(k + 1).drop_last() =~= all.take(k as int));
            assert(all.take(k + 1).last() == t);
            if (now as i128) - (t.created as i128) < TOAST_MS as i128 {
                kept.push(t);
            }
            proof {
                reveal(Seq::filter);
            }
            k = k + 1;
        }
        assert(all.take(k as int) =~= all);
        self.toasts = kept;
    }

    fn save_when_due(&mut self, now: i64)
        ensures
            settings_saved(*old(self), now, *final(self)),
    {
        proof {
            reveal(settings_saved);
        }
        if self.saving.dirty && (now as i128) - (self.saving.last_save as i128)
            > SAVE_DELAY_MS as i128 {
            self.saving.dirty = false;
            self.saving.last_save = now;
            self.effects.push(Effect::SaveSettings);
        }
    }

    /// Upkeep at `now` (milliseconds of the app's clock).
    pub fn tick(&mut self, now: i64)
        ensures
            ticked(*old(self), now, *final(self)),
    {
        proof {
            reveal(ticked);
        }
        self.time_out_composing(now);
        let ghost s1 = *self;
        self.expire_typing(now);
        let ghost s2 = *self;
        self.drop_old_toasts(now);
        let ghost s3 = *self;
        self.save_when_due(now);
        assert(composing_timed_out(*old(self), now, s1) && typing_expired(s1, now, s2)
            && settings_saved(s3, now, *self));
    }

    /// Writes the settings if they changed, as the app stops or the
    /// window goes.
    pub fn save_state(&mut self, now: i64)
        ensures
            old(self).saving.dirty ==> final(self).effects@ == old(self).effects@.push(
                Effect::SaveSettings,
            ) && *final(self) == (App {
                saving: Saving { dirty: false, last_save: now },
                effects: final(self).effects,
                ..*old(self)
            }),
            !old(self).saving.dirty ==> *final(self) == *old(self),
    {
        if self.saving.dirty {
            self.saving.dirty = false;
            self.saving.last_save = now;
            self.effects.push(Effect::SaveSettings);
        }
    }

    /// Whether closing the window keeps the app in the tray rather than
    /// quitting.
    pub fn hides_to_tray(&self) -> (r: bool)
        ensures
            r == (self.window.has_tray && self.settings.keep_running_in_background),
    {
        self.window.has_tray && self.settings.keep_running_in_background
    }

    /// The window is gone but the process stays: the link, the archive,
    /// and the tray keep going until Show or Quit.
    pub fn window_gone(&mut self)
        ensures
            *final(self) == (App {
                window: Window { hidden: true, hide_intent: false, wants_show: false, ..old(self).window },
                ..*old(self)
            }),
    {
        self.window.hidden = true;
        self.window.hide_intent = false;
        self.window.wants_show = false;
    }

    /// The window closed. When the app keeps running in the tray and no
    /// quit was asked for, the window is gone and the process stays
    /// (`true`); otherwise the process is to end (`false`) and nothing
    /// changes.
    pub fn window_closed(&mut self) -> (stays: bool)
        ensures
            stays == (old(self).window.has_tray && old(self).settings.keep_running_in_background
                && !old(self).window.quit_requested),
            stays ==> *final(self) == (App {
                window: Window { hidden: true, hide_intent: false, wants_show: false, ..old(self).window },
                ..*old(self)
            }),
            !stays ==> *final(self) == *old(self),
    {
        if self.hides_to_tray() && !self.window.quit_requested {
            self.window_gone();
            true
        } else {
            false
        }
    }

    /// The desktop could not open a file: an error notice says which, and
    /// why.
    pub fn open_failed(&mut self, path: &str, error: &str, now: i64)
        ensures
            final(self).toasts@.len() == old(self).toasts@.len() + 1,
            final(self).toasts@.drop_last() == old(self).toasts@,
            final(self).toasts@.last().message@ == "Could not open "@ + path@ + ": "@ + error@,
            final(self).toasts@.last().kind == ToastKind::Error,
            final(self).toasts@.last().created == now,
            *final(self) == (App { toasts: final(self).toasts, ..*old(self) }),
    {
        let mut message = String::from_str("Could not open ");
        push_str(&mut message, path);
        push_str(&mut message, ": ");
        push_str(&mut message, error);
        self.toast_error(message, now);
        assert(self.toasts@.drop_last() =~= old(self).toasts@);
    }

    /// A window exists again: its theme and zoom are to be applied anew.
    pub fn window_attached(&mut self)
        ensures
            *final(self) == (App {
                window: Window {
                    hidden: false,
                    hide_intent: false,
                    wants_show: false,
                    zoom_applied: false,
                    ..old(self).window
                },
                ..*old(self)
            }),
    {
        self.window.zoom_applied = false;
        self.window.hidden = false;
        self.window.hide_intent = false;
        self.window.wants_show = false;
    }

    /// The unread messages of the chats that are neither archived nor
    /// muted now.
    pub fn unread_total(&self) -> (r: u32)
        requires
            forall|t: i64| #[trigger] unread_in(self.chats@, t) <= u32::MAX,
        ensures
            exists|t: i64| r == #[trigger] unread_in(self.chats@, t),
    {
        let now = crate::util::now();
        let r = self.unread_total_at(now);
        assert(r == unread_in(self.chats@, now));
        r
    }

    /// Whether a message of ours is still young enough to change.
    pub fn can_edit(&self, message: &Message) -> (r: bool)
        ensures
            exists|t: i64| r == #[trigger] editable(*message, t),
            r ==> message.from_me && message.content is Text,
    {
        let now = crate::util::now();
        let r = self.can_edit_at(message, now);
        assert(r == editable(*message, now));
        r
    }

    /// Whether a message of ours can still be taken back from everyone.
    pub fn can_revoke(&self, message: &Message) -> (r: bool)
        ensures
            exists|t: i64| r == #[trigger] revocable(*message, t),
            r ==> message.from_me && !(message.content is Revoked),
    {
        let now = crate::util::now();
        let r = self.can_revoke_at(message, now);
        assert(r == revocable(*message, now));
        r
    }
}

} // verus!
