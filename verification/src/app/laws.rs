//! What holds of the state across actions, events and ticks.

use vstd::prelude::*;

use crate::app::actions::toasted;
use crate::app::upkeep::{live_typers, ticked, typing_expired, composing_timed_out, settings_saved, TYPING_TIMEOUT_MS};
use crate::app::{
    chat_opened, chat_rank, left_chat, listed, listed_chats, loaded_ensured, rank_slot, ranked,
    read_if_unread, read_marked, remembered, search_needle, switched, text_of, visible, chat_with, App,
};
use crate::app::actions::effected;
use crate::app::apply::{applied, window_shown};
use crate::app::events::{handled, incoming_noted};
use crate::app::history::{doubling, fetched_older, phone_cooldown};
use crate::backend::commands_view;
use crate::backend::Event;
use crate::model::{muted_at, Action, Chat, Message, Page, ToastKind};
use crate::text::{contains_text, lowercase, trimmed};
use crate::model::phone_digits;

verus! {

/// Opening a chat and then going back keeps what was typed apart: a
/// composer holding text (not an edit) when another chat opens holds the
/// same text again once its chat is reopened.
pub proof fn drafts_come_back(s0: App, s1: App, s2: App, a: String, b: String)
    requires
        text_of(s0.open_chat) == Some(a@),
        a@ != b@,
        s0.compose.editing is None,
        trimmed(s0.composer@).len() > 0,
        chat_opened(s0, b@, s1),
        chat_opened(s1, a@, s2),
    ensures
        s2.composer == s0.composer,
        text_of(s2.open_chat) == Some(a@),
{
    reveal(chat_opened);
    reveal(switched);
    reveal(loaded_ensured);
    reveal(read_if_unread);
    reveal(read_marked);
    reveal(remembered);
    let (t1, t2, t3) = choose|t1: App, t2: App, t3: App|
        #![trigger switched(s0, b@, t1), loaded_ensured(t1, b@, t2), read_if_unread(t2, b@, t3)]
        switched(s0, b@, t1) && loaded_ensured(t1, b@, t2) && read_if_unread(t2, b@, t3)
            && remembered(t3, b@, s1);
    let drafts1 = s0.drafts@.insert(a@, s0.composer);
    assert(t1.drafts@ == drafts1.remove(b@));
    assert(s1.drafts@ == t1.drafts@);
    assert(s1.drafts@.contains_key(a@) && s1.drafts@[a@] == s0.composer);
    assert(text_of(s1.open_chat) == Some(b@));
    let (u1, u2, u3) = choose|u1: App, u2: App, u3: App|
        #![trigger switched(s1, a@, u1), loaded_ensured(u1, a@, u2), read_if_unread(u2, a@, u3)]
        switched(s1, a@, u1) && loaded_ensured(u1, a@, u2) && read_if_unread(u2, a@, u3)
            && remembered(u3, a@, s2);
    assert(u1.composer == s0.composer);
    assert(s2.composer == u1.composer);
}

proof fn lemma_rank_slot(sorted: Seq<Chat>, rank: int)
    ensures
        0 <= rank_slot(sorted, rank) <= sorted.len(),
        forall|k: int| 0 <= k < rank_slot(sorted, rank) ==> chat_rank(#[trigger] sorted[k]) >= rank,
        rank_slot(sorted, rank) < sorted.len() ==> chat_rank(sorted[rank_slot(sorted, rank)])
            < rank,
    decreases sorted.len(),
{
    if sorted.len() > 0 && chat_rank(sorted[0]) >= rank {
        lemma_rank_slot(sorted.drop_first(), rank);
        assert forall|k: int| 0 <= k < rank_slot(sorted, rank) implies chat_rank(
            #[trigger] sorted[k],
        ) >= rank by {
            if k > 0 {
                assert(sorted[k] == sorted.drop_first()[k - 1]);
            }
        }
    }
}

/// Ranking orders the chats from highest rank down and keeps them all.
proof fn lemma_ranked(s: Seq<Chat>)
    ensures
        ranked(s).len() == s.len(),
        forall|i: int, j: int|
            0 <= i < j < ranked(s).len() ==> chat_rank(ranked(s)[i]) >= chat_rank(ranked(s)[j]),
        forall|c: Chat| ranked(s).contains(c) <==> s.contains(c),
    decreases s.len(),
{
    if s.len() > 0 {
        let init = s.drop_last();
        let sorted = ranked(init);
        lemma_ranked(init);
        let x = s.last();
        let p = rank_slot(sorted, chat_rank(x));
        lemma_rank_slot(sorted, chat_rank(x));
        let r = sorted.insert(p, x);
        assert(r == ranked(s));
        assert forall|i: int, j: int| 0 <= i < j < r.len() implies chat_rank(r[i]) >= chat_rank(
            r[j],
        ) by {
            if j < p {
                assert(r[i] == sorted[i] && r[j] == sorted[j]);
            } else if j == p {
                assert(r[i] == sorted[i]);
            } else {
                assert(r[j] == sorted[j - 1]);
                if i < p {
                    assert(r[i] == sorted[i]);
                } else if i > p {
                    assert(r[i] == sorted[i - 1]);
                } else {
                    assert(chat_rank(sorted[p]) < chat_rank(x));
                    if j - 1 > p {
                        assert(chat_rank(sorted[p]) >= chat_rank(sorted[j - 1]));
                    }
                }
            }
        }
        assert forall|c: Chat| r.contains(c) <==> s.contains(c) by {
            if r.contains(c) {
                let k = choose|k: int| 0 <= k < r.len() && r[k] == c;
                if k < p {
                    assert(r[k] == sorted[k]);
                    assert(sorted.contains(c));
                    assert(init.contains(c));
                    let m = choose|m: int| 0 <= m < init.len() && init[m] == c;
                    assert(s[m] == c);
                } else if k > p {
                    assert(r[k] == sorted[k - 1]);
                    assert(sorted.contains(c));
                    assert(init.contains(c));
                    let m = choose|m: int| 0 <= m < init.len() && init[m] == c;
                    assert(s[m] == c);
                } else {
                    assert(s[s.len() - 1] == c);
                }
            }
            if s.contains(c) {
                let k = choose|k: int| 0 <= k < s.len() && s[k] == c;
                if k < s.len() - 1 {
                    assert(init[k] == c);
                    assert(init.contains(c));
                    let m = choose|m: int| 0 <= m < sorted.len() && sorted[m] == c;
                    if m < p {
                        assert(r[m] == c);
                    } else {
                        assert(r[m + 1] == c);
                    }
                } else {
                    assert(r[p] == c);
                }
            }
        }
    }
}

/// The listed chats are those of the list that the list shows.
proof fn lemma_listed(chats: Seq<Chat>, show_archived: bool, needle: Seq<char>)
    ensures
        forall|c: Chat|
            listed_chats(chats, show_archived, needle).contains(c) <==> chats.contains(c)
                && listed(c, show_archived, needle),
    decreases chats.len(),
{
    if chats.len() > 0 {
        let init = chats.drop_last();
        lemma_listed(init, show_archived, needle);
        let prev = listed_chats(init, show_archived, needle);
        assert forall|c: Chat|
            listed_chats(chats, show_archived, needle).contains(c) <==> chats.contains(c)
                && listed(c, show_archived, needle) by {
            let l = listed_chats(chats, show_archived, needle);
            if l.contains(c) {
                let k = choose|k: int| 0 <= k < l.len() && l[k] == c;
                if k < prev.len() {
                    assert(l[k] == prev[k]);
                    assert(prev.contains(c));
                    assert(init.contains(c));
                    let m = choose|m: int| 0 <= m < init.len() && init[m] == c;
                    assert(chats[m] == c);
                } else {
                    assert(chats[chats.len() - 1] == c);
                }
            }
            if chats.contains(c) && listed(c, show_archived, needle) {
                let k = choose|k: int| 0 <= k < chats.len() && chats[k] == c;
                if k < chats.len() - 1 {
                    assert(init[k] == c);
                    assert(init.contains(c));
                    assert(prev.contains(c));
                    let m = choose|m: int| 0 <= m < prev.len() && prev[m] == c;
                    assert(l[m] == c);
                } else {
                    assert(l[l.len() - 1] == c);
                }
            }
        }
    }
}

/// The chat list shows exactly the chats that are on the side being looked
/// at (archived or not; either, during a search) and match the search;
/// pinned chats come first, and otherwise the newest activity comes first.
pub proof fn visible_chats_are_ranked(chats: Seq<Chat>, show_archived: bool, search: Seq<char>)
    ensures
        forall|c: Chat|
            visible(chats, show_archived, search).contains(c) <==> chats.contains(c) && listed(
                c,
                show_archived,
                search_needle(search),
            ),
        forall|i: int, j: int|
            0 <= i < j < visible(chats, show_archived, search).len() && (#[trigger] visible(
                chats,
                show_archived,
                search,
            )[j]).pinned ==> (#[trigger] visible(chats, show_archived, search)[i]).pinned,
        forall|i: int, j: int|
            0 <= i < j < visible(chats, show_archived, search).len() && visible(
                chats,
                show_archived,
                search,
            )[i].pinned == visible(chats, show_archived, search)[j].pinned ==> visible(
                chats,
                show_archived,
                search,
            )[i].last_activity >= visible(chats, show_archived, search)[j].last_activity,
{
    let l = listed_chats(chats, show_archived, search_needle(search));
    lemma_listed(chats, show_archived, search_needle(search));
    lemma_ranked(l);
    let v = visible(chats, show_archived, search);
    assert(v == ranked(l));
    assert forall|i: int, j: int| 0 <= i < j < v.len() && (#[trigger] v[j]).pinned implies (#[trigger] v[i]).pinned by {
        assert(chat_rank(v[i]) >= chat_rank(v[j]));
    }
}

proof fn lemma_ranked_multiset(s: Seq<Chat>)
    ensures
        ranked(s).to_multiset() == s.to_multiset(),
    decreases s.len(),
{
    broadcast use vstd::seq_lib::group_to_multiset_ensures, vstd::multiset::group_multiset_axioms;
    if s.len() > 0 {
        let init = s.drop_last();
        let last = s.last();
        let sorted = ranked(init);
        lemma_ranked_multiset(init);
        lemma_ranked(init);
        let k = rank_slot(sorted, chat_rank(last));
        lemma_rank_slot(sorted, chat_rank(last));
        let front = sorted.subrange(0, k);
        let back = sorted.subrange(k, sorted.len() as int);
        assert(sorted == front + back);
        assert(sorted.insert(k, last) == front.push(last) + back);
        vstd::seq_lib::lemma_multiset_commutative(front.push(last), back);
        vstd::seq_lib::lemma_multiset_commutative(front, back);
        assert(init.push(last) =~= s);
        assert(ranked(s).to_multiset() =~= s.to_multiset());
    }
}

proof fn lemma_listed_multiset(chats: Seq<Chat>, show_archived: bool, needle: Seq<char>)
    ensures
        forall|c: Chat|
            #[trigger] listed_chats(chats, show_archived, needle).to_multiset().count(c) == if listed(
                c,
                show_archived,
                needle,
            ) {
                chats.to_multiset().count(c)
            } else {
                0
            },
    decreases chats.len(),
{
    broadcast use vstd::seq_lib::group_to_multiset_ensures, vstd::multiset::group_multiset_axioms;
    if chats.len() > 0 {
        let init = chats.drop_last();
        let last = chats.last();
        lemma_listed_multiset(init, show_archived, needle);
        assert(init.push(last) =~= chats);
        let sub = listed_chats(init, show_archived, needle);
        assert forall|c: Chat| #[trigger] listed_chats(chats, show_archived, needle).to_multiset().count(c)
            == if listed(c, show_archived, needle) {
            chats.to_multiset().count(c)
        } else {
            0
        } by {
            assert(chats.to_multiset() =~= init.to_multiset().insert(last));
            assert(sub.to_multiset().count(c) == if listed(c, show_archived, needle) {
                init.to_multiset().count(c)
            } else {
                0
            });
            if listed(last, show_archived, needle) {
                assert(listed_chats(chats, show_archived, needle) == sub.push(last));
                assert(sub.push(last).to_multiset() =~= sub.to_multiset().insert(last));
            } else {
                assert(listed_chats(chats, show_archived, needle) == sub);
            }
        }
    }
}

/// The list shows each chat that matches as often as the chats hold it:
/// a chat held once shows once, and where no chat is held twice none
/// shows twice.
pub proof fn each_listed_chat_shows_once(chats: Seq<Chat>, show_archived: bool, search: Seq<char>)
    ensures
        forall|c: Chat|
            #[trigger] visible(chats, show_archived, search).to_multiset().count(c) == if listed(
                c,
                show_archived,
                search_needle(search),
            ) {
                chats.to_multiset().count(c)
            } else {
                0
            },
        chats.no_duplicates() ==> visible(chats, show_archived, search).no_duplicates(),
{
    broadcast use vstd::seq_lib::group_to_multiset_ensures, vstd::multiset::group_multiset_axioms;
    let needle = search_needle(search);
    let l = listed_chats(chats, show_archived, needle);
    lemma_ranked_multiset(l);
    lemma_listed_multiset(chats, show_archived, needle);
    let v = visible(chats, show_archived, search);
    if chats.no_duplicates() {
        chats.lemma_multiset_has_no_duplicates();
        assert forall|x: Chat| v.to_multiset().contains(x) implies v.to_multiset().count(x) == 1 by {
            assert(chats.to_multiset().count(x) > 0);
        }
        v.lemma_multiset_has_no_duplicates_conv();
    }
}

/// Without a search the list shows the chats of the side being looked at
/// (archived or not); with one, it shows every chat, archived or not, whose
/// name, phone number or newest message holds the search text, trimmed and
/// in lower case.
pub proof fn searching_looks_through_archived_chats(
    chats: Seq<Chat>,
    show_archived: bool,
    search: Seq<char>,
    c: Chat,
)
    ensures
        !chats.contains(c) ==> !visible(chats, show_archived, search).contains(c),
        chats.contains(c) && lowercase(trimmed(search)).len() == 0 ==> (visible(
            chats,
            show_archived,
            search,
        ).contains(c) <==> c.archived == show_archived),
        chats.contains(c) && lowercase(trimmed(search)).len() > 0 ==> (visible(
            chats,
            show_archived,
            search,
        ).contains(c) <==> (contains_text(lowercase(c.name@), lowercase(trimmed(search))) || (
        phone_digits(c.id@) matches Some(digits) && contains_text(digits, lowercase(trimmed(search))))
            || (c.last matches Some(last) && contains_text(
            lowercase(last.summary@),
            lowercase(trimmed(search)),
        )))),
{
    visible_chats_are_ranked(chats, show_archived, search);
}

/// A tick leaves nobody shown as typing who was not seen typing in the
/// last twelve seconds.
pub proof fn typing_fades(before: App, now: i64, after: App)
    requires
        ticked(before, now, after),
    ensures
        forall|chat: Seq<char>, k: int|
            after.people.typing@.contains_key(chat) && 0 <= k < after.people.typing@[chat]@.len()
                ==> now - (#[trigger] after.people.typing@[chat]@[k]).1 < TYPING_TIMEOUT_MS,
{
    reveal(ticked);
    reveal(typing_expired);
    reveal(settings_saved);
    let (s1, s2, s3) = choose|s1: App, s2: App, s3: App|
        #![trigger composing_timed_out(before, now, s1), typing_expired(s1, now, s2), settings_saved(s3, now, after)]
        composing_timed_out(before, now, s1) && typing_expired(s1, now, s2) && s3.toasts@
            == crate::app::upkeep::live_toasts(s2.toasts@, now) && s3 == (App {
            toasts: s3.toasts,
            ..s2
        }) && settings_saved(s3, now, after);
    assert(after.people == s2.people);
    assert forall|chat: Seq<char>, k: int|
        after.people.typing@.contains_key(chat) && 0 <= k < after.people.typing@[chat]@.len()
            implies now - (#[trigger] after.people.typing@[chat]@[k]).1 < TYPING_TIMEOUT_MS by {
        assert(s2.people.typing@.contains_key(chat));
        let typers = s1.people.typing@[chat]@;
        assert(s2.people.typing@[chat]@ == live_typers(typers, now));
        broadcast use vstd::seq_lib::group_filter_ensures;
    }
}

/// An informational notice never makes more than four toasts: once four
/// show, a new one waits its turn.
pub proof fn toasts_stay_few(before: App, text: Seq<char>, now: i64, after: App)
    requires
        toasted(before, text, ToastKind::Info, now, after),
        before.toasts@.len() <= 4,
    ensures
        after.toasts@.len() <= 4,
{
    reveal(toasted);
}

/// A message that arrives in a muted chat, or in the chat being read in a
/// focused window, or while notifications are off, tells the desktop
/// nothing: the state stays as it was.
pub proof fn quiet_when_muted_or_read(
    before: App,
    chat: String,
    message: Message,
    now: i64,
    after: App,
)
    requires
        handled(before, Event::Incoming { chat, message }, now, after),
        !before.settings.notifications || (chat_with(before.chats@, chat@) matches Some(known)
            && muted_at(known.muted_until, (now / 1000) as i64)) || (!before.window.hidden
            && before.window.focused && before.view.page == Page::Chats && text_of(
            before.open_chat,
        ) == Some(chat@)),
    ensures
        after == before,
{
    reveal(incoming_noted);
}

/// Launching the app again while it runs brings its window back: the
/// request becomes a Show action, and applying it asks for a window when
/// there is none and focuses the one there is.
pub proof fn a_second_launch_shows_the_window(s0: App, s1: App, s2: App, now: i64)
    requires
        s1.actions@ == s0.actions@.push(Action::ShowWindow),
        s1 == (App { actions: s1.actions, ..s0 }),
        applied(s1, s1.actions@.last(), now, s2),
    ensures
        s0.window.hidden ==> s2.window.wants_show,
        !s0.window.hidden ==> s2.effects@.last() == crate::app::Effect::FocusWindow,
{
    reveal(window_shown);
    reveal(effected);
}

/// Each empty answer from the phone doubles the wait before it is asked
/// again, up to ten minutes.
pub proof fn waits_double_after_each_miss(misses: nat)
    ensures
        phone_cooldown(misses + 1) == if 2 * phone_cooldown(misses) < 600_000 {
            2 * phone_cooldown(misses)
        } else {
            600_000
        },
        phone_cooldown(misses) <= phone_cooldown(misses + 1),
{
    assert(doubling(misses + 1) == 2 * doubling(misses));
}

/// While a request to the phone is out, asking again sends nothing: two
/// requests in a row send at most one command.
pub proof fn the_phone_is_asked_once_at_a_time(
    s0: App,
    s1: App,
    s2: App,
    chat: Seq<char>,
    t1: i64,
    t2: i64,
)
    requires
        fetched_older(s0, chat, t1, s1),
        fetched_older(s1, chat, t2, s2),
    ensures
        commands_view(s2.outbox@).len() <= commands_view(s0.outbox@).len() + 1,
{
    reveal(fetched_older);
    if s1 != s0 {
        assert(s1.conversations@[chat].fetching_phone);
        assert(s2 == s1);
    }
}

} // verus!
