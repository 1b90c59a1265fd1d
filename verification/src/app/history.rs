//! Paging a chat's history: from the archive first, then from the phone,
//! which is asked sparingly.

use vstd::prelude::*;

use crate::app::{loaded_ensured, App, Conversation};
use crate::backend::{commands_view, Command, CommandView, LinkStatus};

verus! {

/// Two to the power `n`.
pub open spec fn doubling(n: nat) -> nat
    decreases n,
{
    if n == 0 {
        1
    } else {
        2 * doubling((n - 1) as nat)
    }
}

/// How long to leave the phone alone after it answered, in milliseconds:
/// six seconds, doubled for each empty answer in a row, at most ten
/// minutes.
pub open spec fn phone_cooldown(misses: nat) -> int {
    if 6000 * doubling(misses) < 600_000 {
        (6000 * doubling(misses)) as int
    } else {
        600_000
    }
}

proof fn lemma_doubling_grows(n: nat)
    requires
        n >= 7,
    ensures
        doubling(n) >= 128,
    decreases n,
{
    if n > 7 {
        lemma_doubling_grows((n - 1) as nat);
    } else {
        reveal_with_fuel(doubling, 8);
    }
}

/// The wait after the phone answered, computed.
fn cooldown_ms(misses: u32) -> (r: i64)
    ensures
        r == phone_cooldown(misses as nat),
{
    proof {
        reveal_with_fuel(doubling, 8);
    }
    if misses == 0 {
        6000
    } else if misses == 1 {
        12000
    } else if misses == 2 {
        24000
    } else if misses == 3 {
        48000
    } else if misses == 4 {
        96000
    } else if misses == 5 {
        192000
    } else if misses == 6 {
        384000
    } else {
        proof {
            lemma_doubling_grows(misses as nat);
        }
        600000
    }
}

/// Asking the phone for what came before the archive, at `now`
/// (milliseconds): only for a loaded chat that is not being asked already,
/// whose phone has not said it has nothing more, over a live link, after
/// the wait that followed its last answer.
#[verifier::opaque]
pub open spec fn fetched_older(before: App, chat: Seq<char>, now: i64, after: App) -> bool {
    let c = before.conversations@[chat];
    if !before.conversations@.contains_key(chat) || c.fetching_phone || c.phone_exhausted
        || !(before.account.link is Connected) || (c.phone_answered matches Some(answered) && now
        - answered < phone_cooldown(c.phone_misses as nat)) || c.messages@.len() == 0 {
        after == before
    } else {
        &&& after.conversations@ == before.conversations@.insert(
            chat,
            Conversation { fetching_phone: true, ..c },
        )
        &&& crate::app::text_of(after.view.scroll_anchor) == Some(c.messages@[0].id@)
        &&& commands_view(after.outbox@) == commands_view(before.outbox@).push(
            CommandView::FetchOlder(chat),
        )
        &&& after == (App {
            conversations: after.conversations,
            outbox: after.outbox,
            view: crate::app::Screen { scroll_anchor: after.view.scroll_anchor, ..before.view },
            ..before
        })
    }
}

/// Loading older messages of a chat: the next page from the archive, or,
/// when the archive has no more, from the phone.
#[verifier::opaque]
pub open spec fn older_loaded(before: App, chat: Seq<char>, now: i64, after: App) -> bool {
    let c = before.conversations@[chat];
    if !before.conversations@.contains_key(chat) || c.loading_older || c.messages@.len() == 0 {
        after == before
    } else if c.complete {
        fetched_older(before, chat, now, after)
    } else {
        let oldest = c.messages@[0];
        &&& after.conversations@ == before.conversations@.insert(
            chat,
            Conversation { loading_older: true, ..c },
        )
        &&& crate::app::text_of(after.view.scroll_anchor) == Some(oldest.id@)
        &&& commands_view(after.outbox@) == commands_view(before.outbox@).push(
            CommandView::LoadChat { chat, before: Some((oldest.timestamp, oldest.id@)) },
        )
        &&& after == (App {
            conversations: after.conversations,
            outbox: after.outbox,
            view: crate::app::Screen { scroll_anchor: after.view.scroll_anchor, ..before.view },
            ..before
        })
    }
}

impl App {
    /// Asks the phone for what came before the archive, at `now`
    /// (milliseconds of the app's clock), if it has not said there is
    /// nothing and was not asked a moment ago.
    pub fn fetch_older(&mut self, chat: &str, now: i64)
        ensures
            fetched_older(*old(self), chat@, now, *final(self)),
    {
        proof {
            reveal(fetched_older);
        }
        let connected = self.account.link.is_connected();
        let go = match self.conversations.get(chat) {
            Some(conversation) => {
                let waiting = match conversation.phone_answered {
                    Some(answered) => (now as i128) - (answered as i128) < cooldown_ms(
                        conversation.phone_misses,
                    ) as i128,
                    None => false,
                };
                !(conversation.fetching_phone || conversation.phone_exhausted || !connected
                    || waiting || conversation.messages.len() == 0)
            },
            None => false,
        };
        if !go {
            return;
        }
        let mut conversation = match self.conversations.remove(chat) {
            Some(c) => c,
            None => {
                return;
            },
        };
        let ghost c = conversation;
        conversation.fetching_phone = true;
        let anchor = conversation.messages[0].id.clone();
        self.conversations.insert(String::from_str(chat), conversation);
        self.view.scroll_anchor = Some(anchor);
        self.send(Command::FetchOlder(String::from_str(chat)));
        assert(self.conversations@ =~= old(self).conversations@.insert(
            chat@,
            Conversation { fetching_phone: true, ..c },
        ));
    }

    /// Loads the page of a chat before what is loaded: from the archive,
    /// or from the phone when the archive has nothing older.
    pub fn load_older(&mut self, chat: &str, now: i64)
        ensures
            older_loaded(*old(self), chat@, now, *final(self)),
    {
        proof {
            reveal(older_loaded);
        }
        let (loading, empty, complete) = match self.conversations.get(chat) {
            Some(c) => (c.loading_older, c.messages.len() == 0, c.complete),
            None => {
                return;
            },
        };
        if loading || empty {
            return;
        }
        if complete {
            self.fetch_older(chat, now);
            return;
        }
        let mut conversation = match self.conversations.remove(chat) {
            Some(c) => c,
            None => {
                return;
            },
        };
        let ghost c = conversation;
        conversation.loading_older = true;
        let timestamp = conversation.messages[0].timestamp;
        let id = conversation.messages[0].id.clone();
        let anchor = conversation.messages[0].id.clone();
        self.conversations.insert(String::from_str(chat), conversation);
        self.view.scroll_anchor = Some(anchor);
        self.send(Command::LoadChat { chat: String::from_str(chat), before: Some((timestamp, id)) });
        assert(self.conversations@ =~= old(self).conversations@.insert(
            chat@,
            Conversation { loading_older: true, ..c },
        ));
    }
}

} // verus!
