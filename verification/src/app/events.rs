//! Folding in what the backend reports: each event changes the state at
//! the time it arrives.

use vstd::prelude::*;

use crate::app::actions::toasted;
use crate::app::messages::without_id;
use crate::app::{
    chat_position, chat_with, fresh_conversation, index_of_id, lemma_chat_position,
    lemma_index_of_id, loaded_ensured, merged, read_marked, text_of, Account, App, Compose,
    Conversation, Effect, Picker, Presence, Screen, Typers,
};
use crate::backend::{Event, LinkStatus};
use crate::model::{
    media_in, Content, with_media_file, with_media_state, Chat, Contact, Dialog, Gif, MediaState, Message,
    Page, ToastKind,
};
use crate::text::contains_text;

verus! {

// ---------------------------------------------------------------------
// The chat list, newest activity first.

/// Where a chat goes in a list kept newest first: after every chat with
/// activity as recent or more recent.
pub open spec fn activity_slot(sorted: Seq<Chat>, last_activity: i64) -> int
    decreases sorted.len(),
{
    if sorted.len() == 0 || sorted[0].last_activity < last_activity {
        0
    } else {
        1 + activity_slot(sorted.drop_first(), last_activity)
    }
}

/// The chats by newest activity first, those as recent as each other in
/// the order they came (what a stable sort gives).
pub open spec fn newest_first(s: Seq<Chat>) -> Seq<Chat>
    decreases s.len(),
{
    if s.len() == 0 {
        s
    } else {
        let sorted = newest_first(s.drop_last());
        sorted.insert(activity_slot(sorted, s.last().last_activity), s.last())
    }
}

proof fn lemma_activity_slot_is(sorted: Seq<Chat>, t: i64, j: int)
    requires
        0 <= j <= sorted.len(),
        forall|k: int| 0 <= k < j ==> (#[trigger] sorted[k]).last_activity >= t,
        j < sorted.len() ==> sorted[j].last_activity < t,
    ensures
        activity_slot(sorted, t) == j,
    decreases j,
{
    if j > 0 {
        assert forall|k: int| 0 <= k < j - 1 implies (#[trigger] sorted.drop_first()[k]).last_activity
            >= t by {
            assert(sorted.drop_first()[k] == sorted[k + 1]);
        }
        lemma_activity_slot_is(sorted.drop_first(), t, j - 1);
    }
}

/// Chats sorted newest first, stably.
fn sort_newest_first(v: Vec<Chat>) -> (r: Vec<Chat>)
    ensures
        r@ == newest_first(v@),
{
    let ghost given = v@;
    let mut rest = v;
    let mut out: Vec<Chat> = Vec::new();
    let mut k: usize = 0;
    assert(given.take(0) =~= Seq::<Chat>::empty());
    assert(given.skip(0) =~= given);
    assert(given.len() == rest.len());
    while rest.len() > 0
        invariant
            k <= given.len() <= usize::MAX,
            rest@ == given.skip(k as int),
            out@ == newest_first(given.take(k as int)),
        decreases rest@.len(),
    {
        let c = rest.remove(0);
        assert(c == given[k as int]);
        assert(rest@ =~= given.skip(k + 1));
        let t = c.last_activity;
        let mut j: usize = 0;
        while j < out.len() && out[j].last_activity >= t
            invariant
                j <= out@.len(),
                forall|i: int| 0 <= i < j ==> out@[i].last_activity >= t,
            decreases out@.len() - j,
        {
            j = j + 1;
        }
        proof {
            lemma_activity_slot_is(out@, t, j as int);
            assert(given.take(k + 1).drop_last() =~= given.take(k as int));
            assert(given.take(k + 1).last() == c);
        }
        out.insert(j, c);
        k = k + 1;
    }
    assert(given.take(k as int) =~= given);
    out
}

/// A chat folded into the list: in place of the first with its id, or at
/// the end.
pub open spec fn chat_upserted(chats: Seq<Chat>, chat: Chat) -> Seq<Chat> {
    let i = chat_position(chats, chat.id@);
    if i < chats.len() {
        chats.update(i, chat)
    } else {
        chats.push(chat)
    }
}

// ---------------------------------------------------------------------
// What each event does.

/// Coming back online after a drop is announced.
#[verifier::opaque]
pub open spec fn back_online(before: App, now: i64, after: App) -> bool {
    if before.account.link is Disconnected {
        toasted(before, "Back online"@, ToastKind::Info, now, after)
    } else {
        after == before
    }
}

/// Once linked, the pairing dialog closes and the open chat's history is
/// asked for.
#[verifier::opaque]
pub open spec fn open_reloaded(before: App, open: Option<String>, after: App) -> bool {
    let s = App {
        view: Screen {
            dialog: if before.view.dialog == Some(Dialog::PairWithPhone) {
                None
            } else {
                before.view.dialog
            },
            ..before.view
        },
        ..before
    };
    match open {
        Some(open) => loaded_ensured(s, open@, after),
        None => after == s,
    }
}

/// An updated chat being looked at is read at once.
#[verifier::opaque]
pub open spec fn read_if_reading(before: App, chat: Chat, after: App) -> bool {
    let reading = text_of(before.open_chat) == Some(chat.id@) && before.view.page == Page::Chats
        && chat.unread > 0 && before.window.focused;
    if reading {
        read_marked(before, chat.id@, after)
    } else {
        after == before
    }
}

/// The state of the link changed: back online is announced and the open
/// chat's history asked for; a pairing dialog closes once linked; logging
/// out forgets everything of the account; a failure is announced.
#[verifier::opaque]
pub open spec fn link_handled(before: App, status: LinkStatus, now: i64, after: App) -> bool {
    match status {
        LinkStatus::Connected => exists|s1: App, s2: App|
            #![trigger back_online(before, now, s1), open_reloaded(s1, before.open_chat, s2)]
            {
                &&& back_online(before, now, s1)
                &&& open_reloaded(s1, before.open_chat, s2)
                &&& after == (App { account: Account { link: status, ..s2.account }, ..s2 })
            },
        LinkStatus::LoggedOut => exists|s1: App|
            #![trigger toasted(s1, "This device was unlinked from your phone"@, ToastKind::Error, now, after)]
            {
                &&& s1.chats@.len() == 0
                &&& s1.conversations@ == Map::<Seq<char>, Conversation>::empty()
                &&& s1.contacts@ == Map::<Seq<char>, Contact>::empty()
                &&& s1.people.avatars@ == Map::<Seq<char>, Option<String>>::empty()
                &&& s1 == (App {
                    chats: s1.chats,
                    conversations: s1.conversations,
                    contacts: s1.contacts,
                    people: crate::app::People { avatars: s1.people.avatars, ..before.people },
                    open_chat: None,
                    account: Account { link: status, ..before.account },
                    ..before
                })
                &&& toasted(
                    s1,
                    "This device was unlinked from your phone"@,
                    ToastKind::Error,
                    now,
                    after,
                )
            },
        LinkStatus::Failed(message) => exists|s1: App|
            #![trigger toasted(before, message@, ToastKind::Error, now, s1)]
            toasted(before, message@, ToastKind::Error, now, s1) && after == (App {
                account: Account { link: status, ..s1.account },
                ..s1
            }),
        _ => after == (App { account: Account { link: status, ..before.account }, ..before }),
    }
}

/// The chat list replaced: the open chat closes when it is gone, and its
/// history is asked for when it is there.
#[verifier::opaque]
pub open spec fn chats_replaced(before: App, chats: Vec<Chat>, after: App) -> bool {
    let s1 = App { chats, ..before };
    match before.open_chat {
        Some(open) => if chat_with(chats@, open@) is None {
            after == (App { open_chat: None, ..s1 })
        } else {
            loaded_ensured(s1, open@, after)
        },
        None => after == s1,
    }
}

/// A chat changed: read at once when it is open, showing and focused;
/// folded into the list, which stays newest first.
#[verifier::opaque]
pub open spec fn chat_updated(before: App, chat: Chat, after: App) -> bool {
    let reading = text_of(before.open_chat) == Some(chat.id@) && before.view.page == Page::Chats
        && chat.unread > 0 && before.window.focused;
    exists|s1: App|
        #![trigger read_if_reading(before, chat, s1)]
        {
            &&& read_if_reading(before, chat, s1)
            &&& after.chats@ == newest_first(
                chat_upserted(
                    s1.chats@,
                    if reading {
                        Chat { unread: 0, ..chat }
                    } else {
                        chat
                    },
                ),
            )
            &&& after == (App { chats: after.chats, ..s1 })
        }
}

/// A page of messages arrived for a chat: merged into its history (a
/// fresh one when there was none), with what the page says of the
/// archive; an open chat at its end follows newer messages down.
#[verifier::opaque]
pub open spec fn messages_arrived(
    before: App,
    chat: Seq<char>,
    messages: Seq<Message>,
    older: bool,
    complete: bool,
    after: App,
) -> bool {
    let known = before.conversations@.contains_key(chat);
    let c = before.conversations@[chat];
    let current = if known {
        c.messages@
    } else {
        Seq::<Message>::empty()
    };
    let was_empty = current.len() == 0;
    let c2 = after.conversations@[chat];
    let delivered = older && messages.len() > 0;
    &&& after.conversations@ == before.conversations@.insert(chat, c2)
    &&& c2.messages@ == merged(current, messages, older)
    &&& if known {
        c2 == Conversation {
            messages: c2.messages,
            phone_delivered: delivered || c.phone_delivered,
            loading_older: if older {
                false
            } else {
                c.loading_older
            },
            complete: if older || was_empty {
                complete
            } else {
                c.complete
            },
            ..c
        }
    } else {
        &&& c2.phone_delivered == delivered
        &&& c2.complete == complete
        &&& !c2.loading_older && !c2.requested && !c2.fetching_phone && !c2.phone_exhausted
        &&& c2.phone_answered is None && c2.phone_misses == 0
    }
    &&& if text_of(before.open_chat) == Some(chat) && !older && (before.view.at_bottom
        || was_empty) {
        after == (App {
            conversations: after.conversations,
            view: Screen { scroll_to_bottom: true, ..before.view },
            ..before
        })
    } else {
        after == (App { conversations: after.conversations, ..before })
    }
}

/// A message that changed takes its place in a loaded chat, keeping the
/// download state its attachment had here.
#[verifier::opaque]
pub open spec fn message_updated(before: App, message: Message, after: App) -> bool {
    let chat = message.chat@;
    if before.conversations@.contains_key(chat) && index_of_id(
        before.conversations@[chat].messages@,
        message.id@,
    ) is Some {
        let c = before.conversations@[chat];
        let i = index_of_id(c.messages@, message.id@)->0;
        let replaced = match media_in(c.messages@[i].content) {
            Some(media) => Message {
                content: with_media_state(message.content, media.state),
                ..message
            },
            None => message,
        };
        let c2 = after.conversations@[chat];
        &&& c2 == Conversation { messages: c2.messages, ..c }
        &&& c2.messages@ == c.messages@.update(i, replaced)
        &&& after.conversations@ == before.conversations@.insert(chat, c2)
        &&& after == (App { conversations: after.conversations, ..before })
    } else {
        after == before
    }
}

/// Contacts folded into the address book one by one, each in place of any
/// with its id.
pub open spec fn with_contacts(book: Map<Seq<char>, Contact>, contacts: Seq<Contact>) -> Map<
    Seq<char>,
    Contact,
>
    decreases contacts.len(),
{
    if contacts.len() == 0 {
        book
    } else {
        with_contacts(book, contacts.drop_last()).insert(contacts.last().id@, contacts.last())
    }
}

/// Who types in a chat, after someone started or stopped: they are taken
/// out, and put back at the end with the time when they type.
pub open spec fn typers_after(
    typers: Seq<(String, i64)>,
    sender: String,
    composing: bool,
    now: i64,
) -> Seq<(String, i64)> {
    let others = typers.filter(|t: (String, i64)| t.0@ != sender@);
    if composing {
        others.push((sender, now))
    } else {
        others
    }
}

/// Someone started or stopped typing in a chat.
#[verifier::opaque]
pub open spec fn typing_noted(
    before: App,
    chat: Seq<char>,
    sender: String,
    composing: bool,
    now: i64,
    after: App,
) -> bool {
    let typers = if before.people.typing@.contains_key(chat) {
        before.people.typing@[chat]@
    } else {
        Seq::<(String, i64)>::empty()
    };
    let t2 = after.people.typing@[chat];
    &&& after.people.typing@ == before.people.typing@.insert(chat, t2)
    &&& t2@ == typers_after(typers, sender, composing, now)
    &&& after == (App {
        people: crate::app::People { typing: after.people.typing, ..before.people },
        ..before
    })
}

/// A profile picture came back: it is no longer asked for, and is kept
/// (as missing, when there is none).
#[verifier::opaque]
pub open spec fn avatar_arrived(
    before: App,
    id: Seq<char>,
    full: bool,
    path: Option<String>,
    after: App,
) -> bool {
    if full {
        &&& after.people.avatar_full_requests@ == before.people.avatar_full_requests@.remove(id)
        &&& after.people.avatars_full@ == before.people.avatars_full@.insert(id, path)
        &&& after == (App {
            people: crate::app::People {
                avatar_full_requests: after.people.avatar_full_requests,
                avatars_full: after.people.avatars_full,
                ..before.people
            },
            ..before
        })
    } else {
        &&& after.people.avatar_requests@ == before.people.avatar_requests@.remove(id)
        &&& after.people.avatars@ == before.people.avatars@.insert(id, path)
        &&& after == (App {
            people: crate::app::People {
                avatar_requests: after.people.avatar_requests,
                avatars: after.people.avatars,
                ..before.people
            },
            ..before
        })
    }
}

/// A message deleted: it leaves the loaded history, and an edit of it
/// stops, the composer emptied.
#[verifier::opaque]
pub open spec fn message_deleted(before: App, chat: Seq<char>, id: Seq<char>, after: App) -> bool {
    let editing = text_of(before.compose.editing) == Some(id);
    &&& if before.conversations@.contains_key(chat) {
        let c = before.conversations@[chat];
        let c2 = after.conversations@[chat];
        &&& after.conversations@ == before.conversations@.insert(chat, c2)
        &&& c2 == Conversation { messages: c2.messages, ..c }
        &&& c2.messages@ == without_id(c.messages@, id)
    } else {
        after.conversations == before.conversations
    }
    &&& if editing {
        &&& after.composer@.len() == 0
        &&& after == (App {
            conversations: after.conversations,
            composer: after.composer,
            compose: Compose { editing: None, ..before.compose },
            ..before
        })
    } else {
        after == (App { conversations: after.conversations, ..before })
    }
}

/// GIF results for the query being shown: the search is over, with its
/// results or its failure.
#[verifier::opaque]
pub open spec fn gifs_arrived(
    before: App,
    query: Seq<char>,
    results: Result<Vec<Gif>, String>,
    after: App,
) -> bool {
    if query == before.picker.gif_query@ {
        match results {
            Ok(gifs) => after == (App {
                picker: Picker {
                    gif_pending: false,
                    gif_results: gifs,
                    gif_error: None,
                    ..before.picker
                },
                ..before
            }),
            Err(error) => {
                &&& after.picker.gif_results@.len() == 0
                &&& after == (App {
                    picker: Picker {
                        gif_pending: false,
                        gif_results: after.picker.gif_results,
                        gif_error: Some(error),
                        ..before.picker
                    },
                    ..before
                })
            },
        }
    } else {
        after == before
    }
}

/// The notice for a failed download: a file WhatsApp no longer keeps is
/// said to be gone; anything else is reported as is.
pub open spec fn download_failure_text(error: Seq<char>) -> Seq<char> {
    if contains_text(error, "403"@) || contains_text(error, "404"@) {
        "This file is no longer on WhatsApp's servers; ask for it to be sent again"@
    } else {
        "Download failed: "@ + error
    }
}

/// A download finished: the attachment is ready, or shows the failure,
/// which is announced.
#[verifier::opaque]
pub open spec fn media_arrived(
    before: App,
    chat: Seq<char>,
    id: Seq<char>,
    result: Result<String, String>,
    now: i64,
    after: App,
) -> bool {
    let c = before.conversations@[chat];
    let found = before.conversations@.contains_key(chat) && index_of_id(c.messages@, id) is Some;
    let i = index_of_id(c.messages@, id)->0;
    if !found || media_in(c.messages@[i].content) is None {
        after == before
    } else {
        let m = c.messages@[i];
        let content = match result {
            Ok(path) => with_media_file(m.content, path),
            Err(error) => with_media_state(m.content, MediaState::Failed(error)),
        };
        let c2 = Conversation {
            messages: after.conversations@[chat].messages,
            ..c
        };
        let s1 = App { conversations: after.conversations, ..before };
        &&& after.conversations@ == before.conversations@.insert(chat, c2)
        &&& c2.messages@ == c.messages@.update(i, Message { content, ..m })
        &&& match result {
            Ok(_) => after == s1,
            Err(error) => toasted(s1, download_failure_text(error@), ToastKind::Error, now, after),
        }
    }
}

/// The end of history sync is announced.
#[verifier::opaque]
pub open spec fn sync_end_announced(before: App, syncing: bool, now: i64, after: App) -> bool {
    if before.account.syncing && !syncing {
        toasted(before, "History is in"@, ToastKind::Info, now, after)
    } else {
        after == before
    }
}

/// History sync started or ended; its end is announced.
#[verifier::opaque]
pub open spec fn sync_noted(before: App, syncing: bool, now: i64, after: App) -> bool {
    exists|s1: App|
        #![trigger sync_end_announced(before, syncing, now, s1)]
        {
            &&& sync_end_announced(before, syncing, now, s1)
            &&& after == (App {
                account: Account {
                    syncing,
                    sync_percent: if syncing {
                        s1.account.sync_percent
                    } else {
                        None
                    },
                    ..s1.account
                },
                ..s1
            })
        }
}

/// The phone answered a request for older messages at `now`: it is
/// waited on no more, said to have nothing more when it does, counted as
/// a miss when nothing came, and the archive is paged again.
#[verifier::opaque]
pub open spec fn older_fetched(before: App, chat: Seq<char>, more: bool, now: i64, after: App) -> bool {
    let known = before.conversations@.contains_key(chat);
    let c = before.conversations@[chat];
    let c2 = after.conversations@[chat];
    let misses = if known {
        c.phone_misses
    } else {
        0u32
    };
    let delivered = known && c.phone_delivered;
    &&& after.conversations@ == before.conversations@.insert(chat, c2)
    &&& c2.fetching_phone == false && c2.phone_exhausted == !more && c2.phone_answered == Some(now)
    &&& c2.phone_misses == if delivered {
        0
    } else if misses + 1 < 7 {
        misses + 1
    } else {
        7
    }
    &&& !c2.phone_delivered && !c2.complete
    &&& if known {
        c2 == Conversation {
            fetching_phone: false,
            phone_exhausted: !more,
            phone_answered: Some(now),
            phone_misses: c2.phone_misses,
            phone_delivered: false,
            complete: false,
            ..c
        }
    } else {
        c2.messages@.len() == 0 && !c2.loading_older && !c2.requested
    }
    &&& after == (App { conversations: after.conversations, ..before })
}

/// A message arrived as it was sent: the desktop is told, unless
/// notifications are off, the chat is unknown or muted, the message is
/// over a minute old (a backlog), or the chat is being read.
#[verifier::opaque]
pub open spec fn incoming_noted(before: App, chat: Seq<char>, message: Message, now: i64, after: App) -> bool {
    let seconds = now / 1000;
    let reading = !before.window.hidden && before.window.focused && before.view.page == Page::Chats
        && text_of(before.open_chat) == Some(chat);
    if !before.settings.notifications || chat_with(before.chats@, chat) is None
        || crate::model::muted_at(chat_with(before.chats@, chat)->0.muted_until, seconds as i64)
        || seconds - message.timestamp > 60 || reading {
        after == before
    } else {
        let known = chat_with(before.chats@, chat)->0;
        let sender = crate::app::name_for(
            text_of(before.me),
            before.contacts@,
            before.chats@,
            message.sender@,
        );
        let lines = crate::notify::notification_lines(
            known.name@,
            known.kind == crate::model::ChatKind::Group,
            sender,
            crate::model::summary_text(message.content),
        );
        &&& after.effects@ == before.effects@.push(after.effects@.last())
        &&& after.effects@.last() matches Effect::Notify { title, body, chat: c } && title@
            == lines.0 && body@ == lines.1 && c@ == chat
        &&& after == (App { effects: after.effects, ..before })
    }
}

/// What folding in an event does, at `now` (milliseconds of the app's
/// clock since the Unix epoch).
pub open spec fn handled(before: App, event: Event, now: i64, after: App) -> bool {
    match event {
        Event::Link(status) => link_handled(before, status, now, after),
        Event::Me { id, name, about } => after == (App {
            me: Some(id),
            account: Account { me_name: name, me_about: about, ..before.account },
            ..before
        }),
        Event::Chats(chats) => chats_replaced(before, chats, after),
        Event::ChatUpdated(chat) => chat_updated(before, chat, after),
        Event::Messages { chat, messages, older, complete } => messages_arrived(
            before,
            chat@,
            messages@,
            older,
            complete,
            after,
        ),
        Event::MessageUpdated(message) => message_updated(before, message, after),
        Event::Incoming { chat, message } => incoming_noted(before, chat@, message, now, after),
        Event::Contacts(contacts) => {
            &&& after.contacts@ == with_contacts(before.contacts@, contacts@)
            &&& after == (App { contacts: after.contacts, ..before })
        },
        Event::Typing { chat, sender, composing } => typing_noted(
            before,
            chat@,
            sender,
            composing,
            now,
            after,
        ),
        Event::Presence { id, online, last_seen } => {
            &&& after.people.presence@ == before.people.presence@.insert(
                id@,
                Presence { online, last_seen },
            )
            &&& after == (App {
                people: crate::app::People { presence: after.people.presence, ..before.people },
                ..before
            })
        },
        Event::Avatar { id, full, path } => avatar_arrived(before, id@, full, path, after),
        Event::MessageDeleted { chat, id } => message_deleted(before, chat@, id@, after),
        Event::Gifs { query, results } => gifs_arrived(before, query@, results, after),
        Event::Stickers(stickers) => after == (App {
            picker: Picker { stickers, stickers_pending: false, ..before.picker },
            ..before
        }),
        Event::Media { chat, message, result } => media_arrived(
            before,
            chat@,
            message@,
            result,
            now,
            after,
        ),
        Event::Syncing(syncing) => sync_noted(before, syncing, now, after),
        Event::SyncProgress(percent) => after == (App {
            account: Account { sync_percent: Some(percent), ..before.account },
            ..before
        }),
        Event::OlderFetched { chat, more } => older_fetched(before, chat@, more, now, after),
        Event::Error(message) => toasted(before, message@, ToastKind::Error, now, after),
    }
}

impl App {
    fn handle_link(&mut self, status: LinkStatus, now: i64)
        ensures
            link_handled(*old(self), status, now, *final(self)),
    {
        proof {
            reveal(link_handled);
        }
        match status {
            LinkStatus::Connected => {
                let open = match &self.open_chat {
                    Some(open) => Some(open.clone()),
                    None => None,
                };
                self.note_back_online(now);
                let ghost s1 = *self;
                self.reload_open(open);
                let ghost s2 = *self;
                self.account.link = status;
                assert(back_online(*old(self), now, s1));
                assert(open_reloaded(s1, old(self).open_chat, s2));
            },
            LinkStatus::LoggedOut => {
                self.chats = Vec::new();
                self.conversations.clear();
                self.contacts.clear();
                self.people.avatars.clear();
                self.open_chat = None;
                self.account.link = status;
                let ghost s1 = *self;
                self.notice("This device was unlinked from your phone", ToastKind::Error, now);
                assert(toasted(
                    s1,
                    "This device was unlinked from your phone"@,
                    ToastKind::Error,
                    now,
                    *self,
                ));
            },
            LinkStatus::Failed(message) => {
                self.notice(message.as_str(), ToastKind::Error, now);
                let ghost s1 = *self;
                self.account.link = LinkStatus::Failed(message);
                assert(toasted(*old(self), message@, ToastKind::Error, now, s1));
            },
            _ => {
                self.account.link = status;
            },
        }
    }

    fn note_back_online(&mut self, now: i64)
        ensures
            back_online(*old(self), now, *final(self)),
    {
        proof {
            reveal(back_online);
        }
        let was_down = match self.account.link {
            LinkStatus::Disconnected { .. } => true,
            _ => false,
        };
        if was_down {
            self.notice("Back online", ToastKind::Info, now);
        }
    }

    fn reload_open(&mut self, open: Option<String>)
        ensures
            open_reloaded(*old(self), open, *final(self)),
    {
        proof {
            reveal(open_reloaded);
        }
        let pairing = match &self.view.dialog {
            Some(Dialog::PairWithPhone) => true,
            _ => false,
        };
        if pairing {
            self.view.dialog = None;
        }
        match open {
            Some(open) => self.ensure_loaded(open.as_str()),
            None => {},
        }
    }

    fn read_when_reading(&mut self, chat: &Chat)
        ensures
            read_if_reading(*old(self), *chat, *final(self)),
    {
        proof {
            reveal(read_if_reading);
        }
        let is_open = match &self.open_chat {
            Some(open) => *open == chat.id,
            None => false,
        };
        if is_open && self.view.page == Page::Chats && chat.unread > 0 && self.window.focused {
            self.mark_read(chat.id.as_str());
        }
    }

    fn replace_chats(&mut self, chats: Vec<Chat>)
        ensures
            chats_replaced(*old(self), chats, *final(self)),
    {
        proof {
            reveal(chats_replaced);
        }
        self.chats = chats;
        let open = match &self.open_chat {
            Some(open) => Some(open.clone()),
            None => None,
        };
        match open {
            Some(open) => {
                let gone = match self.chat(open.as_str()) {
                    Some(_) => false,
                    None => true,
                };
                if gone {
                    self.open_chat = None;
                } else {
                    self.ensure_loaded(open.as_str());
                }
            },
            None => {},
        }
    }

    /// A chat folded into the list, which is kept newest first.
    fn fold_chat(&mut self, chat: Chat)
        ensures
            final(self).chats@ == newest_first(chat_upserted(old(self).chats@, chat)),
            *final(self) == (App { chats: final(self).chats, ..*old(self) }),
    {
        let i = self.chat_index(chat.id.as_str());
        let mut chats: Vec<Chat> = Vec::new();
        std::mem::swap(&mut chats, &mut self.chats);
        if i < chats.len() {
            chats.set(i, chat);
        } else {
            chats.push(chat);
        }
        self.chats = sort_newest_first(chats);
    }

    fn update_chat(&mut self, chat: Chat)
        ensures
            chat_updated(*old(self), chat, *final(self)),
    {
        proof {
            reveal(chat_updated);
        }
        let is_open = match &self.open_chat {
            Some(open) => *open == chat.id,
            None => false,
        };
        let reading = is_open && self.view.page == Page::Chats && chat.unread > 0
            && self.window.focused;
        self.read_when_reading(&chat);
        let ghost s1 = *self;
        let ghost given = chat;
        let mut chat = chat;
        if reading {
            chat.unread = 0;
        }
        self.fold_chat(chat);
        assert(read_if_reading(*old(self), given, s1));
    }

    /// A conversation after a page of messages arrived for it.
    fn fold_page(c: Conversation, messages: Vec<Message>, older: bool, complete: bool) -> (r:
        Conversation)
        ensures
            ({
                let was_empty = c.messages@.len() == 0;
                let delivered = older && messages@.len() > 0;
                &&& r.messages@ == merged(c.messages@, messages@, older)
                &&& r == Conversation {
                    messages: r.messages,
                    phone_delivered: delivered || c.phone_delivered,
                    loading_older: if older {
                        false
                    } else {
                        c.loading_older
                    },
                    complete: if older || was_empty {
                        complete
                    } else {
                        c.complete
                    },
                    ..c
                }
            }),
    {
        let mut c = c;
        let was_empty = c.messages.len() == 0;
        if older && messages.len() > 0 {
            c.phone_delivered = true;
        }
        c.merge(messages, older);
        if older {
            c.loading_older = false;
            c.complete = complete;
        } else if was_empty {
            c.complete = complete;
        }
        c
    }

    fn take_messages(&mut self, chat: String, messages: Vec<Message>, older: bool, complete: bool)
        ensures
            messages_arrived(*old(self), chat@, messages@, older, complete, *final(self)),
    {
        proof {
            reveal(messages_arrived);
        }
        let conversation = match self.conversations.remove(chat.as_str()) {
            Some(c) => c,
            None => Conversation::new(),
        };
        let was_empty = conversation.messages.len() == 0;
        assert(was_empty ==> conversation.messages@ =~= Seq::<Message>::empty());
        let conversation = App::fold_page(conversation, messages, older, complete);
        let open = match &self.open_chat {
            Some(open) => *open == chat,
            None => false,
        };
        let ghost c2 = conversation;
        let ghost key = chat@;
        self.conversations.insert(chat, conversation);
        assert(self.conversations@ =~= old(self).conversations@.insert(key, c2));
        if open && !older && (self.view.at_bottom || was_empty) {
            self.view.scroll_to_bottom = true;
        }
    }

    fn update_message(&mut self, message: Message)
        ensures
            message_updated(*old(self), message, *final(self)),
    {
        proof {
            reveal(message_updated);
        }
        let chat = message.chat.clone();
        if !self.conversations.contains_key(chat.as_str()) {
            return;
        }
        let found = match self.conversations.get(chat.as_str()) {
            Some(c) => {
                proof {
                    lemma_index_of_id(c.messages@, message.id@);
                }
                match crate::app::find_id(&c.messages, message.id.as_str()) {
                    Some(_) => true,
                    None => false,
                }
            },
            None => false,
        };
        if !found {
            return;
        }
        match self.conversations.remove(chat.as_str()) {
            Some(mut c) => {
                let ghost c0 = c;
                proof {
                    lemma_index_of_id(c.messages@, message.id@);
                }
                match crate::app::find_id(&c.messages, message.id.as_str()) {
                    Some(i) => {
                        let existing = c.messages.remove(i);
                        let mut message = message;
                        if existing.content.media().is_some() {
                            let state = take_state(existing.content);
                            message.content.set_media_state(state);
                        }
                        c.messages.insert(i, message);
                        assert(c.messages@ =~= c0.messages@.update(i as int, c.messages@[i as int]));
                    },
                    None => {},
                }
                let ghost c2 = c;
                let ghost key = chat@;
                self.conversations.insert(chat, c);
                assert(self.conversations@ =~= old(self).conversations@.insert(key, c2));
            },
            None => {},
        }
    }
}

/// The state of an attachment, taken out of a content that has one.
fn take_state(content: Content) -> (r: MediaState)
    requires
        media_in(content) is Some,
    ensures
        r == media_in(content)->0.state,
{
    match content {
        Content::Image { media, .. } => media.state,
        Content::Video { media, .. } => media.state,
        Content::Audio { media, .. } => media.state,
        Content::Document { media, .. } => media.state,
        Content::Sticker { media, .. } => media.state,
        _ => MediaState::Idle,
    }
}

impl App {
    fn add_contacts(&mut self, contacts: Vec<Contact>)
        ensures
            final(self).contacts@ == with_contacts(old(self).contacts@, contacts@),
            *final(self) == (App { contacts: final(self).contacts, ..*old(self) }),
    {
        let ghost all = contacts@;
        let mut rest = contacts;
        let mut k: usize = 0;
        assert(all.take(0) =~= Seq::<Contact>::empty());
        assert(all.skip(0) =~= all);
        assert(all.len() == rest.len());
        while rest.len() > 0
            invariant
                k <= all.len() <= usize::MAX,
                rest@ == all.skip(k as int),
                self.contacts@ == with_contacts(old(self).contacts@, all.take(k as int)),
                *self == (App { contacts: self.contacts, ..*old(self) }),
            decreases rest@.len(),
        {
            let contact = rest.remove(0);
            assert(contact == all[k as int]);
            assert(rest@ =~= all.skip(k + 1));
            assert(all.take(k + 1).drop_last() =~= all.take(k as int));
            assert(all.take(k + 1).last() == contact);
            self.contacts.insert(contact.id.clone(), contact);
            k = k + 1;
        }
        assert(all.take(k as int) =~= all);
    }

    fn note_typing(&mut self, chat: String, sender: String, composing: bool, now: i64)
        ensures
            typing_noted(*old(self), chat@, sender, composing, now, *final(self)),
    {
        proof {
            reveal(typing_noted);
        }
        let typers: Typers = match self.people.typing.remove(chat.as_str()) {
            Some(t) => t,
            None => Vec::new(),
        };
        let ghost all = typers@;
        let mut kept: Typers = Vec::new();
        let mut rest = typers;
        let mut k: usize = 0;
        assert(all.take(0).filter(|t: (String, i64)| t.0@ != sender@) =~= Seq::<(String, i64)>::empty());
        assert(all.skip(0) =~= all);
        assert(all.len() == rest.len());
        while rest.len() > 0
            invariant
                k <= all.len() <= usize::MAX,
                rest@ == all.skip(k as int),
                kept@ == all.take(k as int).filter(|t: (String, i64)| t.0@ != sender@),
            decreases rest@.len(),
        {
            let t = rest.remove(0);
            assert(t == all[k as int]);
            assert(rest@ =~= all.skip(k + 1));
            assert(all.take(k + 1).drop_last() =~= all.take(k as int));
            assert(all.take(k + 1).last() == t);
            if t.0 != sender {
                kept.push(t);
            }
            proof {
                reveal(Seq::filter);
            }
            k = k + 1;
        }
        assert(all.take(k as int) =~= all);
        if composing {
            kept.push((sender, now));
        }
        let ghost t2 = kept;
        self.people.typing.insert(chat, kept);
        assert(self.people.typing@ =~= old(self).people.typing@.insert(chat@, t2));
    }

    fn take_avatar(&mut self, id: String, full: bool, path: Option<String>)
        ensures
            avatar_arrived(*old(self), id@, full, path, *final(self)),
    {
        proof {
            reveal(avatar_arrived);
        }
        if full {
            self.people.avatar_full_requests.remove(id.as_str());
            self.people.avatars_full.insert(id, path);
        } else {
            self.people.avatar_requests.remove(id.as_str());
            self.people.avatars.insert(id, path);
        }
    }

    fn drop_message(&mut self, chat: String, id: String)
        ensures
            message_deleted(*old(self), chat@, id@, *final(self)),
    {
        proof {
            reveal(message_deleted);
        }
        if self.conversations.contains_key(chat.as_str()) {
            match self.conversations.remove(chat.as_str()) {
                Some(mut c) => {
                    c.forget(id.as_str());
                    let ghost c2 = c;
                    let ghost key = chat@;
                    self.conversations.insert(chat, c);
                    assert(self.conversations@ =~= old(self).conversations@.insert(key, c2));
                },
                None => {},
            }
        }
        let editing = match &self.compose.editing {
            Some(e) => *e == id,
            None => false,
        };
        if editing {
            self.compose.editing = None;
            self.composer = String::new();
        }
    }

    fn take_gifs(&mut self, query: String, results: Result<Vec<Gif>, String>)
        ensures
            gifs_arrived(*old(self), query@, results, *final(self)),
    {
        proof {
            reveal(gifs_arrived);
        }
        if query == self.picker.gif_query {
            self.picker.gif_pending = false;
            match results {
                Ok(gifs) => {
                    self.picker.gif_results = gifs;
                    self.picker.gif_error = None;
                },
                Err(error) => {
                    self.picker.gif_results = Vec::new();
                    self.picker.gif_error = Some(error);
                },
            }
        }
    }

    /// The notice for a failed download.
    fn download_failure(error: &str) -> (r: String)
        ensures
            r@ == download_failure_text(error@),
    {
        let chars = crate::text::chars_of(error);
        let forbidden = crate::text::chars_of("403");
        let missing = crate::text::chars_of("404");
        if crate::text::contains_chars(chars.as_slice(), forbidden.as_slice())
            || crate::text::contains_chars(chars.as_slice(), missing.as_slice()) {
            let r = String::from_str(
                "This file is no longer on WhatsApp's servers; ask for it to be sent again",
            );
            r
        } else {
            let mut r = String::from_str("Download failed: ");
            crate::text::push_str(&mut r, error);
            proof {
                reveal_strlit("Download failed: ");
            }
            r
        }
    }

    fn take_media(&mut self, chat: String, message: String, result: Result<String, String>, now: i64)
        ensures
            media_arrived(*old(self), chat@, message@, result, now, *final(self)),
    {
        proof {
            reveal(media_arrived);
            reveal(toasted);
        }
        let found = match self.conversations.get(chat.as_str()) {
            Some(c) => {
                proof {
                    lemma_index_of_id(c.messages@, message@);
                }
                match crate::app::find_id(&c.messages, message.as_str()) {
                    Some(i) => c.messages[i].content.media().is_some(),
                    None => false,
                }
            },
            None => false,
        };
        if !found {
            return;
        }
        let notice = match &result {
            Ok(_) => None,
            Err(error) => Some(App::download_failure(error.as_str())),
        };
        match self.conversations.remove(chat.as_str()) {
            Some(mut c) => {
                let ghost c0 = c;
                match result {
                    Ok(path) => c.set_media_file_of(message.as_str(), path),
                    Err(error) => c.set_media_state_of(message.as_str(), MediaState::Failed(error)),
                }
                proof {
                    lemma_index_of_id(c0.messages@, message@);
                }
                let ghost c2 = c;
                let ghost key = chat@;
                self.conversations.insert(chat, c);
                assert(self.conversations@ =~= old(self).conversations@.insert(key, c2));
            },
            None => {},
        }
        match notice {
            Some(text) => self.notice(text.as_str(), ToastKind::Error, now),
            None => {},
        }
    }

    fn note_sync(&mut self, syncing: bool, now: i64)
        ensures
            sync_noted(*old(self), syncing, now, *final(self)),
    {
        proof {
            reveal(sync_noted);
        }
        self.announce_sync_end(syncing, now);
        let ghost s1 = *self;
        self.account.syncing = syncing;
        if !syncing {
            self.account.sync_percent = None;
        }
        assert(sync_end_announced(*old(self), syncing, now, s1));
    }

    fn announce_sync_end(&mut self, syncing: bool, now: i64)
        ensures
            sync_end_announced(*old(self), syncing, now, *final(self)),
    {
        proof {
            reveal(sync_end_announced);
        }
        if self.account.syncing && !syncing {
            self.notice("History is in", ToastKind::Info, now);
        }
    }

    fn phone_answered(&mut self, chat: String, more: bool, now: i64)
        ensures
            older_fetched(*old(self), chat@, more, now, *final(self)),
    {
        proof {
            reveal(older_fetched);
        }
        let mut c = match self.conversations.remove(chat.as_str()) {
            Some(c) => c,
            None => Conversation::new(),
        };
        c.fetching_phone = false;
        c.phone_exhausted = !more;
        c.phone_answered = Some(now);
        if c.phone_delivered {
            c.phone_misses = 0;
        } else if c.phone_misses < 6 {
            c.phone_misses = c.phone_misses + 1;
        } else {
            c.phone_misses = 7;
        }
        c.phone_delivered = false;
        c.complete = false;
        let ghost c2 = c;
        let ghost key = chat@;
        self.conversations.insert(chat, c);
        assert(self.conversations@ =~= old(self).conversations@.insert(key, c2));
    }

    /// The Unix seconds of a time in milliseconds.
    fn seconds_of(now: i64) -> (r: i64)
        ensures
            r == now / 1000,
    {
        let n = now as i128;
        let q: i128 = if n >= 0 {
            n / 1000
        } else {
            -((-n + 999) / 1000)
        };
        assert(q == now / 1000) by (nonlinear_arith)
            requires
                n == now,
                n >= 0 ==> q == n / 1000,
                n < 0 ==> q == -((-n + 999) / 1000),
        ;
        q as i64
    }

    fn note_incoming(&mut self, chat: String, message: Message, now: i64)
        ensures
            incoming_noted(*old(self), chat@, message, now, *final(self)),
    {
        proof {
            reveal(incoming_noted);
        }
        if !self.settings.notifications {
            return;
        }
        let seconds = App::seconds_of(now);
        let (name, group, muted) = match self.chat(chat.as_str()) {
            Some(known) => (known.name.clone(), known.is_group(), known.muted(seconds)),
            None => {
                return;
            },
        };
        if muted || (seconds as i128) - (message.timestamp as i128) > 60 {
            return;
        }
        let open = match &self.open_chat {
            Some(open) => *open == chat,
            None => false,
        };
        let reading = !self.window.hidden && self.window.focused && self.view.page == Page::Chats
            && open;
        if reading {
            return;
        }
        let sender = self.display_name(message.sender.as_str());
        let summary = message.summary();
        let (title, body) = crate::notify::lines(name.as_str(), group, sender.as_str(), summary.as_str());
        self.effects.push(Effect::Notify { title, body, chat });
    }
}

impl App {
    fn note_presence(&mut self, id: String, online: bool, last_seen: Option<i64>)
        ensures
            final(self).people.presence@ == old(self).people.presence@.insert(
                id@,
                Presence { online, last_seen },
            ),
            *final(self) == (App {
                people: crate::app::People {
                    presence: final(self).people.presence,
                    ..old(self).people
                },
                ..*old(self)
            }),
    {
        self.people.presence.insert(id, Presence { online, last_seen });
    }

    /// Folds in one event from the backend at `now` (milliseconds since the
    /// Unix epoch).
    pub fn handle_event(&mut self, event: Event, now: i64)
        ensures
            handled(*old(self), event, now, *final(self)),
    {
        match event {
            Event::Link(status) => self.handle_link(status, now),
            Event::Me { id, name, about } => {
                self.me = Some(id);
                self.account.me_name = name;
                self.account.me_about = about;
            },
            Event::Chats(chats) => self.replace_chats(chats),
            Event::ChatUpdated(chat) => self.update_chat(chat),
            Event::Messages { chat, messages, older, complete } => self.take_messages(
                chat,
                messages,
                older,
                complete,
            ),
            Event::MessageUpdated(message) => self.update_message(message),
            Event::Incoming { chat, message } => self.note_incoming(chat, message, now),
            Event::Contacts(contacts) => self.add_contacts(contacts),
            Event::Typing { chat, sender, composing } => self.note_typing(
                chat,
                sender,
                composing,
                now,
            ),
            Event::Presence { id, online, last_seen } => self.note_presence(id, online, last_seen),
            Event::Avatar { id, full, path } => self.take_avatar(id, full, path),
            Event::MessageDeleted { chat, id } => self.drop_message(chat, id),
            Event::Gifs { query, results } => self.take_gifs(query, results),
            Event::Stickers(stickers) => {
                self.picker.stickers = stickers;
                self.picker.stickers_pending = false;
            },
            Event::Media { chat, message, result } => self.take_media(chat, message, result, now),
            Event::Syncing(syncing) => self.note_sync(syncing, now),
            Event::SyncProgress(percent) => {
                self.account.sync_percent = Some(percent);
            },
            Event::OlderFetched { chat, more } => self.phone_answered(chat, more, now),
            Event::Error(message) => self.notice(message.as_str(), ToastKind::Error, now),
        }
    }
}

} // verus!
