//! Application state: the chats, the loaded part of each conversation,
//! and the decisions the window's actions lead to.
//!
//! Views draw from this state and push actions; the state applies them
//! and collects the commands the backend is to carry out.

use vstd::prelude::*;

use crate::backend::{command_view, commands_view, Command, CommandView, LinkStatus};
use crate::model::{
    contact_label, kind_of, muted_at, phone_digits, Chat, ChatKind, Contact, Content, Dialog, Gif,
    Message, Page, PickerTab, Toast, ToastKind,
};
use crate::settings::Settings;
use crate::table::Table;
use crate::text::{contains_text, is_digit, lowercase, push_str, trimmed};
use crate::util::phone_text;

pub mod actions;
pub mod apply;
pub mod compose;
pub mod events;
pub mod frame;
pub mod history;
pub mod laws;
pub mod messages;
pub mod people;
pub mod upkeep;

verus! {

/// How many messages a chat opens with, and loads per scroll to the top.
pub const PAGE: usize = 60;

/// WhatsApp lets a message be changed for this long after sending, in
/// seconds.
pub const EDIT_WINDOW_SECS: i64 = 900i64;

/// And taken back from everyone for this long, in seconds.
pub const REVOKE_WINDOW_SECS: i64 = 172800i64;

// ---------------------------------------------------------------------
// Messages in time order.

/// Messages by the time they were sent, earliest first.
pub open spec fn in_time_order(s: Seq<Message>) -> bool {
    forall|i: int, j: int| 0 <= i <= j < s.len() ==> s[i].timestamp <= s[j].timestamp
}

/// Where a message sent at `t` goes in a list in time order: after every
/// message sent at or before `t`.
pub open spec fn time_slot(sorted: Seq<Message>, t: i64) -> int
    decreases sorted.len(),
{
    if sorted.len() == 0 || sorted[0].timestamp > t {
        0
    } else {
        1 + time_slot(sorted.drop_first(), t)
    }
}

/// The messages of `s` in time order, those sent at the same second in the
/// order `s` had them (what a stable sort by timestamp gives).
pub open spec fn by_time(s: Seq<Message>) -> Seq<Message>
    decreases s.len(),
{
    if s.len() == 0 {
        s
    } else {
        let sorted = by_time(s.drop_last());
        sorted.insert(time_slot(sorted, s.last().timestamp), s.last())
    }
}

/// Whether a message with this id is among `s`.
pub open spec fn has_id(s: Seq<Message>, id: Seq<char>) -> bool {
    exists|i: int| 0 <= i < s.len() && (#[trigger] s[i]).id@ == id
}

/// No two messages of `s` share an id.
pub open spec fn unique_ids(s: Seq<Message>) -> bool {
    forall|i: int, j: int|
        0 <= i < s.len() && 0 <= j < s.len() && i != j ==> (#[trigger] s[i]).id@ != (#[trigger] s[j]).id@
}

proof fn lemma_time_slot(sorted: Seq<Message>, t: i64)
    ensures
        0 <= time_slot(sorted, t) <= sorted.len(),
        forall|k: int| 0 <= k < time_slot(sorted, t) ==> sorted[k].timestamp <= t,
        time_slot(sorted, t) < sorted.len() ==> sorted[time_slot(sorted, t)].timestamp > t,
    decreases sorted.len(),
{
    if sorted.len() > 0 && sorted[0].timestamp <= t {
        lemma_time_slot(sorted.drop_first(), t);
        assert forall|k: int| 0 <= k < time_slot(sorted, t) implies sorted[k].timestamp <= t by {
            if k > 0 {
                assert(sorted[k] == sorted.drop_first()[k - 1]);
            }
        }
    }
}

proof fn lemma_time_slot_is(sorted: Seq<Message>, t: i64, j: int)
    requires
        0 <= j <= sorted.len(),
        forall|k: int| 0 <= k < j ==> sorted[k].timestamp <= t,
        j < sorted.len() ==> sorted[j].timestamp > t,
    ensures
        time_slot(sorted, t) == j,
    decreases j,
{
    if j > 0 {
        assert forall|k: int| 0 <= k < j - 1 implies sorted.drop_first()[k].timestamp <= t by {
            assert(sorted.drop_first()[k] == sorted[k + 1]);
        }
        lemma_time_slot_is(sorted.drop_first(), t, j - 1);
    }
}

proof fn lemma_insert_sorted(sorted: Seq<Message>, m: Message)
    requires
        in_time_order(sorted),
    ensures
        in_time_order(sorted.insert(time_slot(sorted, m.timestamp), m)),
{
    lemma_time_slot(sorted, m.timestamp);
    let p = time_slot(sorted, m.timestamp);
    let r = sorted.insert(p, m);
    assert forall|i: int, j: int| 0 <= i <= j < r.len() implies r[i].timestamp
        <= r[j].timestamp by {
        if j < p {
            assert(r[i] == sorted[i] && r[j] == sorted[j]);
        } else if j == p {
            if i < p {
                assert(r[i] == sorted[i]);
            }
        } else {
            assert(r[j] == sorted[j - 1]);
            if i < p {
                assert(r[i] == sorted[i]);
            } else if i == p {
                assert(sorted[p].timestamp > m.timestamp);
                assert(sorted[p].timestamp <= sorted[j - 1].timestamp);
            } else {
                assert(r[i] == sorted[i - 1]);
            }
        }
    }
}

proof fn lemma_has_id_insert(s: Seq<Message>, p: int, m: Message, id: Seq<char>)
    requires
        0 <= p <= s.len(),
    ensures
        has_id(s.insert(p, m), id) == (has_id(s, id) || m.id@ == id),
{
    let r = s.insert(p, m);
    if has_id(s, id) {
        let i = choose|i: int| 0 <= i < s.len() && (#[trigger] s[i]).id@ == id;
        if i < p {
            assert(r[i] == s[i]);
        } else {
            assert(r[i + 1] == s[i]);
        }
    }
    if m.id@ == id {
        assert(r[p] == m);
    }
    if has_id(r, id) {
        let i = choose|i: int| 0 <= i < r.len() && (#[trigger] r[i]).id@ == id;
        if i < p {
            assert(r[i] == s[i]);
        } else if i > p {
            assert(r[i] == s[i - 1]);
        }
    }
}

proof fn lemma_unique_insert(s: Seq<Message>, p: int, m: Message)
    requires
        0 <= p <= s.len(),
        unique_ids(s),
        !has_id(s, m.id@),
    ensures
        unique_ids(s.insert(p, m)),
{
    let r = s.insert(p, m);
    assert forall|i: int, j: int|
        0 <= i < r.len() && 0 <= j < r.len() && i != j implies (#[trigger] r[i]).id@ != (
    #[trigger] r[j]).id@ by {
        let si = if i < p { i } else { i - 1 };
        let sj = if j < p { j } else { j - 1 };
        if i == p {
            assert(r[j] == s[sj]);
        } else if j == p {
            assert(r[i] == s[si]);
        } else {
            assert(r[i] == s[si] && r[j] == s[sj]);
        }
    }
}

/// Sorting by time keeps the messages in order, keeps exactly the ids
/// there were, and keeps them distinct when they were.
pub proof fn lemma_by_time(s: Seq<Message>)
    ensures
        in_time_order(by_time(s)),
        by_time(s).len() == s.len(),
        forall|id: Seq<char>| has_id(by_time(s), id) == has_id(s, id),
        unique_ids(s) ==> unique_ids(by_time(s)),
    decreases s.len(),
{
    if s.len() > 0 {
        let init = s.drop_last();
        let sorted = by_time(init);
        lemma_by_time(init);
        lemma_time_slot(sorted, s.last().timestamp);
        let p = time_slot(sorted, s.last().timestamp);
        lemma_insert_sorted(sorted, s.last());
        assert forall|id: Seq<char>| has_id(by_time(s), id) == has_id(s, id) by {
            lemma_has_id_insert(sorted, p, s.last(), id);
            lemma_has_id_push(init, s.last(), id);
            assert(init.push(s.last()) =~= s);
        }
        if unique_ids(s) {
            assert(init.push(s.last()) =~= s);
            assert forall|i: int, j: int|
                0 <= i < init.len() && 0 <= j < init.len() && i != j implies (
            #[trigger] init[i]).id@ != (#[trigger] init[j]).id@ by {
                assert(init[i] == s[i] && init[j] == s[j]);
            }
            if has_id(init, s.last().id@) {
                let i = choose|i: int| 0 <= i < init.len() && (#[trigger] init[i]).id@ == s.last().id@;
                assert(s[i] == init[i]);
                assert(s[s.len() - 1] == s.last());
            }
            lemma_unique_insert(sorted, p, s.last());
        }
    }
}

proof fn lemma_has_id_push(s: Seq<Message>, m: Message, id: Seq<char>)
    ensures
        has_id(s.push(m), id) == (has_id(s, id) || m.id@ == id),
{
    lemma_has_id_insert(s, s.len() as int, m, id);
    assert(s.insert(s.len() as int, m) =~= s.push(m));
}

/// Messages sorted by time, stably.
fn sort_by_time(v: Vec<Message>) -> (r: Vec<Message>)
    ensures
        r@ == by_time(v@),
{
    let ghost given = v@;
    let mut rest = v;
    let mut out: Vec<Message> = Vec::new();
    let mut k: usize = 0;
    assert(given.take(0) =~= Seq::<Message>::empty());
    assert(given.skip(0) =~= given);
    assert(given.len() == rest.len());
    while rest.len() > 0
        invariant
            k <= given.len() <= usize::MAX,
            rest@ == given.skip(k as int),
            out@ == by_time(given.take(k as int)),
        decreases rest@.len(),
    {
        let m = rest.remove(0);
        assert(m == given[k as int]);
        assert(rest@ =~= given.skip(k + 1));
        let t = m.timestamp;
        let mut j: usize = 0;
        while j < out.len() && out[j].timestamp <= t
            invariant
                j <= out@.len(),
                forall|i: int| 0 <= i < j ==> out@[i].timestamp <= t,
            decreases out@.len() - j,
        {
            j = j + 1;
        }
        proof {
            lemma_time_slot_is(out@, t, j as int);
            assert(given.take(k + 1).drop_last() =~= given.take(k as int));
            assert(given.take(k + 1).last() == m);
        }
        out.insert(j, m);
        k = k + 1;
    }
    assert(given.take(k as int) =~= given);
    out
}

// ---------------------------------------------------------------------
// A conversation's loaded history.

/// The loaded part of a chat's history.
#[derive(Debug)]
pub struct Conversation {
    pub messages: Vec<Message>,
    /// The archive has nothing older than the first message here.
    pub complete: bool,
    pub loading_older: bool,
    /// The first page was asked for.
    pub requested: bool,
    /// The phone is being asked for what came before the archive.
    pub fetching_phone: bool,
    /// The phone said there is nothing older, or cannot be asked.
    pub phone_exhausted: bool,
    /// When the phone last answered, in milliseconds of the app's clock.
    pub phone_answered: Option<i64>,
    /// Requests the phone answered with nothing, in a row; each doubles
    /// the wait before the next.
    pub phone_misses: u32,
    /// Older messages arrived since the phone was last asked.
    pub phone_delivered: bool,
}

/// The messages of an older page that are not loaded yet, in page order.
pub open spec fn unseen(incoming: Seq<Message>, known: Seq<Message>) -> Seq<Message>
    decreases incoming.len(),
{
    if incoming.len() == 0 {
        incoming
    } else if has_id(known, incoming.last().id@) {
        unseen(incoming.drop_last(), known)
    } else {
        unseen(incoming.drop_last(), known).push(incoming.last())
    }
}

/// The index of the first message with an id, if any.
pub open spec fn index_of_id(s: Seq<Message>, id: Seq<char>) -> Option<int>
    decreases s.len(),
{
    if s.len() == 0 {
        None
    } else if s[0].id@ == id {
        Some(0)
    } else {
        match index_of_id(s.drop_first(), id) {
            Some(i) => Some(i + 1),
            None => None,
        }
    }
}

/// A message folded into a list: in place of the first with its id, or
/// at the end.
pub open spec fn upserted(list: Seq<Message>, m: Message) -> Seq<Message> {
    match index_of_id(list, m.id@) {
        Some(i) => list.update(i, m),
        None => list.push(m),
    }
}

/// Newer messages folded into a list one by one.
pub open spec fn upserted_all(list: Seq<Message>, incoming: Seq<Message>) -> Seq<Message>
    decreases incoming.len(),
{
    if incoming.len() == 0 {
        list
    } else {
        upserted(upserted_all(list, incoming.drop_last()), incoming.last())
    }
}

/// A page merged into a loaded history: an older page goes before it,
/// less what is already loaded; newer messages replace those with their
/// id or join at the end; then everything is put in time order.
pub open spec fn merged(current: Seq<Message>, incoming: Seq<Message>, older: bool) -> Seq<
    Message,
> {
    if older {
        by_time(unseen(incoming, current) + current)
    } else {
        by_time(upserted_all(current, incoming))
    }
}

pub(crate) proof fn lemma_index_of_id(s: Seq<Message>, id: Seq<char>)
    ensures
        index_of_id(s, id) matches Some(i) ==> 0 <= i < s.len() && s[i].id@ == id,
        index_of_id(s, id) is None ==> !has_id(s, id),
    decreases s.len(),
{
    if s.len() > 0 && s[0].id@ != id {
        lemma_index_of_id(s.drop_first(), id);
        if index_of_id(s, id) is None && has_id(s, id) {
            let i = choose|i: int| 0 <= i < s.len() && (#[trigger] s[i]).id@ == id;
            assert(s.drop_first()[i - 1] == s[i]);
        }
    }
}

proof fn lemma_upserted(list: Seq<Message>, m: Message)
    ensures
        forall|id: Seq<char>|
            has_id(upserted(list, m), id) == (has_id(list, id) || m.id@ == id),
        unique_ids(list) ==> unique_ids(upserted(list, m)),
{
    lemma_index_of_id(list, m.id@);
    match index_of_id(list, m.id@) {
        Some(i) => {
            let r = list.update(i, m);
            assert forall|id: Seq<char>| has_id(r, id) == (has_id(list, id) || m.id@ == id) by {
                if has_id(list, id) {
                    let k = choose|k: int| 0 <= k < list.len() && (#[trigger] list[k]).id@ == id;
                    assert(r[k].id@ == id);
                }
                if m.id@ == id {
                    assert(r[i] == m);
                }
                if has_id(r, id) {
                    let k = choose|k: int| 0 <= k < r.len() && (#[trigger] r[k]).id@ == id;
                    if k == i {
                        assert(m.id@ == id);
                    } else {
                        assert(list[k] == r[k]);
                    }
                }
            }
            if unique_ids(list) {
                assert forall|a: int, b: int|
                    0 <= a < r.len() && 0 <= b < r.len() && a != b implies (#[trigger] r[a]).id@
                    != (#[trigger] r[b]).id@ by {
                    assert(r[a].id@ == list[a].id@);
                    assert(r[b].id@ == list[b].id@);
                }
            }
        },
        None => {
            assert forall|id: Seq<char>| has_id(list.push(m), id) == (has_id(list, id) || m.id@
                == id) by {
                lemma_has_id_push(list, m, id);
            }
            if unique_ids(list) {
                lemma_unique_insert(list, list.len() as int, m);
                assert(list.insert(list.len() as int, m) =~= list.push(m));
            }
        },
    }
}

proof fn lemma_upserted_all(list: Seq<Message>, incoming: Seq<Message>)
    ensures
        forall|id: Seq<char>|
            has_id(upserted_all(list, incoming), id) == (has_id(list, id) || has_id(incoming, id)),
        unique_ids(list) ==> unique_ids(upserted_all(list, incoming)),
    decreases incoming.len(),
{
    if incoming.len() > 0 {
        let init = incoming.drop_last();
        lemma_upserted_all(list, init);
        lemma_upserted(upserted_all(list, init), incoming.last());
        assert forall|id: Seq<char>| has_id(upserted_all(list, incoming), id) == (has_id(list, id)
            || has_id(incoming, id)) by {
            lemma_has_id_push(init, incoming.last(), id);
            assert(init.push(incoming.last()) =~= incoming);
        }
    }
}

proof fn lemma_unseen(incoming: Seq<Message>, known: Seq<Message>)
    ensures
        forall|id: Seq<char>|
            has_id(unseen(incoming, known), id) ==> has_id(incoming, id) && !has_id(known, id),
        forall|id: Seq<char>|
            has_id(incoming, id) ==> has_id(unseen(incoming, known), id) || has_id(known, id),
        unique_ids(incoming) ==> unique_ids(unseen(incoming, known)),
    decreases incoming.len(),
{
    if incoming.len() > 0 {
        let init = incoming.drop_last();
        let last = incoming.last();
        lemma_unseen(init, known);
        assert(init.push(last) =~= incoming);
        assert forall|id: Seq<char>| has_id(unseen(incoming, known), id) implies has_id(
            incoming,
            id,
        ) && !has_id(known, id) by {
            lemma_has_id_push(init, last, id);
            lemma_has_id_push(unseen(init, known), last, id);
        }
        assert forall|id: Seq<char>| has_id(incoming, id) implies has_id(
            unseen(incoming, known),
            id,
        ) || has_id(known, id) by {
            lemma_has_id_push(init, last, id);
            lemma_has_id_push(unseen(init, known), last, id);
        }
        if unique_ids(incoming) {
            assert forall|i: int, j: int|
                0 <= i < init.len() && 0 <= j < init.len() && i != j implies (
            #[trigger] init[i]).id@ != (#[trigger] init[j]).id@ by {
                assert(init[i] == incoming[i] && init[j] == incoming[j]);
            }
            if !has_id(known, last.id@) {
                if has_id(unseen(init, known), last.id@) {
                    let i = choose|i: int| 0 <= i < init.len() && (#[trigger] init[i]).id@ == last.id@;
                    assert(incoming[i] == init[i]);
                    assert(incoming[incoming.len() - 1] == last);
                }
                lemma_unique_insert(unseen(init, known), unseen(init, known).len() as int, last);
                assert(unseen(init, known).insert(unseen(init, known).len() as int, last)
                    =~= unseen(init, known).push(last));
            }
        }
    }
}

proof fn lemma_has_id_concat(a: Seq<Message>, b: Seq<Message>, id: Seq<char>)
    ensures
        has_id(a + b, id) == (has_id(a, id) || has_id(b, id)),
{
    if has_id(a, id) {
        let i = choose|i: int| 0 <= i < a.len() && (#[trigger] a[i]).id@ == id;
        assert((a + b)[i] == a[i]);
    }
    if has_id(b, id) {
        let i = choose|i: int| 0 <= i < b.len() && (#[trigger] b[i]).id@ == id;
        assert((a + b)[a.len() + i] == b[i]);
    }
    if has_id(a + b, id) {
        let i = choose|i: int| 0 <= i < (a + b).len() && (#[trigger] (a + b)[i]).id@ == id;
        if i < a.len() {
            assert((a + b)[i] == a[i]);
        } else {
            assert((a + b)[i] == b[i - a.len()]);
        }
    }
}

/// Merging keeps a history in time order, keeps every message it had and
/// takes in every message of the page (by id), and never loads a message
/// twice: newer messages replace those with their id, and an older page
/// only adds what is not loaded yet (so a page without repeats of its own
/// cannot bring in a duplicate).
pub proof fn merge_keeps_history(current: Seq<Message>, incoming: Seq<Message>, older: bool)
    ensures
        in_time_order(merged(current, incoming, older)),
        forall|id: Seq<char>|
            has_id(merged(current, incoming, older), id) == (has_id(current, id) || has_id(
                incoming,
                id,
            )),
        unique_ids(current) && (older ==> unique_ids(incoming)) ==> unique_ids(
            merged(current, incoming, older),
        ),
{
    if older {
        let fresh = unseen(incoming, current);
        let combined = fresh + current;
        lemma_unseen(incoming, current);
        lemma_by_time(combined);
        assert forall|id: Seq<char>| has_id(combined, id) == (has_id(current, id) || has_id(
            incoming,
            id,
        )) by {
            lemma_has_id_concat(fresh, current, id);
        }
        if unique_ids(current) && unique_ids(incoming) {
            assert forall|i: int, j: int|
                0 <= i < combined.len() && 0 <= j < combined.len() && i != j implies (
            #[trigger] combined[i]).id@ != (#[trigger] combined[j]).id@ by {
                if i < fresh.len() && j < fresh.len() {
                    assert(combined[i] == fresh[i] && combined[j] == fresh[j]);
                } else if i >= fresh.len() && j >= fresh.len() {
                    assert(combined[i] == current[i - fresh.len()]);
                    assert(combined[j] == current[j - fresh.len()]);
                } else if i < fresh.len() {
                    assert(combined[i] == fresh[i]);
                    assert(combined[j] == current[j - fresh.len()]);
                    assert(has_id(fresh, fresh[i].id@));
                    assert(has_id(current, current[j - fresh.len()].id@));
                } else {
                    assert(combined[j] == fresh[j]);
                    assert(combined[i] == current[i - fresh.len()]);
                    assert(has_id(fresh, fresh[j].id@));
                    assert(has_id(current, current[i - fresh.len()].id@));
                }
            }
        }
    } else {
        lemma_upserted_all(current, incoming);
        lemma_by_time(upserted_all(current, incoming));
    }
}

proof fn lemma_by_time_contains(s: Seq<Message>)
    ensures
        forall|m: Message| by_time(s).contains(m) == s.contains(m),
    decreases s.len(),
{
    if s.len() > 0 {
        let init = s.drop_last();
        let sorted = by_time(init);
        lemma_by_time_contains(init);
        lemma_by_time(init);
        lemma_time_slot(sorted, s.last().timestamp);
        let k = time_slot(sorted, s.last().timestamp);
        let r = sorted.insert(k, s.last());
        assert forall|m: Message| r.contains(m) == s.contains(m) by {
            if r.contains(m) {
                let i = choose|i: int| 0 <= i < r.len() && r[i] == m;
                if i == k {
                    assert(s[s.len() - 1] == m);
                } else {
                    let i0 = if i < k { i } else { i - 1 };
                    assert(sorted[i0] == m);
                    assert(sorted.contains(m));
                    assert(init.contains(m));
                    let j = choose|j: int| 0 <= j < init.len() && init[j] == m;
                    assert(s[j] == m);
                }
            }
            if s.contains(m) {
                let i = choose|i: int| 0 <= i < s.len() && s[i] == m;
                if i == s.len() - 1 {
                    assert(r[k] == m);
                } else {
                    assert(init[i] == m);
                    assert(init.contains(m));
                    assert(sorted.contains(m));
                    let j = choose|j: int| 0 <= j < sorted.len() && sorted[j] == m;
                    if j < k {
                        assert(r[j] == m);
                    } else {
                        assert(r[j + 1] == m);
                    }
                }
            }
        }
    }
}

proof fn lemma_unseen_contains(incoming: Seq<Message>, known: Seq<Message>)
    ensures
        forall|m: Message|
            unseen(incoming, known).contains(m) == (incoming.contains(m) && !has_id(known, m.id@)),
    decreases incoming.len(),
{
    if incoming.len() > 0 {
        let init = incoming.drop_last();
        let last = incoming.last();
        lemma_unseen_contains(init, known);
        assert(init.push(last) =~= incoming);
        assert forall|m: Message| unseen(incoming, known).contains(m) == (incoming.contains(m)
            && !has_id(known, m.id@)) by {
            assert(incoming[incoming.len() - 1] == last);
            if incoming.contains(m) && m != last {
                let i = choose|i: int| 0 <= i < incoming.len() && incoming[i] == m;
                assert(init[i] == m);
            }
            if init.contains(m) {
                let i = choose|i: int| 0 <= i < init.len() && init[i] == m;
                assert(incoming[i] == m);
            }
            let u = unseen(init, known);
            if u.push(last).contains(m) && m != last {
                let i = choose|i: int| 0 <= i < u.push(last).len() && u.push(last)[i] == m;
                assert(u[i] == m);
            }
            if u.contains(m) {
                let i = choose|i: int| 0 <= i < u.len() && u[i] == m;
                assert(u.push(last)[i] == m);
            }
            assert(u.push(last)[u.len() as int] == last);
        }
    }
}

proof fn lemma_upserted_contains(list: Seq<Message>, m: Message)
    requires
        unique_ids(list),
    ensures
        forall|x: Message|
            upserted(list, m).contains(x) == (x == m || (list.contains(x) && x.id@ != m.id@)),
{
    lemma_index_of_id(list, m.id@);
    match index_of_id(list, m.id@) {
        Some(i) => {
            let r = list.update(i, m);
            assert forall|x: Message| r.contains(x) == (x == m || (list.contains(x) && x.id@
                != m.id@)) by {
                assert(r[i] == m);
                if r.contains(x) && x != m {
                    let k = choose|k: int| 0 <= k < r.len() && r[k] == x;
                    assert(k != i);
                    assert(list[k] == x);
                    assert(list[i].id@ == m.id@);
                }
                if list.contains(x) && x.id@ != m.id@ {
                    let k = choose|k: int| 0 <= k < list.len() && list[k] == x;
                    assert(k != i);
                    assert(r[k] == x);
                }
            }
        },
        None => {
            let r = list.push(m);
            assert forall|x: Message| r.contains(x) == (x == m || (list.contains(x) && x.id@
                != m.id@)) by {
                assert(r[list.len() as int] == m);
                if r.contains(x) && x != m {
                    let k = choose|k: int| 0 <= k < r.len() && r[k] == x;
                    assert(list[k] == x);
                }
                if list.contains(x) {
                    let k = choose|k: int| 0 <= k < list.len() && list[k] == x;
                    assert(r[k] == x);
                    assert(has_id(list, x.id@));
                }
            }
        },
    }
}

proof fn lemma_upserted_all_contains(list: Seq<Message>, incoming: Seq<Message>)
    requires
        unique_ids(list),
        unique_ids(incoming),
    ensures
        forall|x: Message|
            upserted_all(list, incoming).contains(x) == (incoming.contains(x) || (list.contains(x)
                && !has_id(incoming, x.id@))),
    decreases incoming.len(),
{
    if incoming.len() > 0 {
        let init = incoming.drop_last();
        let last = incoming.last();
        assert forall|i: int, j: int|
            0 <= i < init.len() && 0 <= j < init.len() && i != j implies (#[trigger] init[i]).id@
            != (#[trigger] init[j]).id@ by {
            assert(init[i] == incoming[i] && init[j] == incoming[j]);
        }
        lemma_upserted_all_contains(list, init);
        lemma_upserted_all(list, init);
        lemma_upserted_contains(upserted_all(list, init), last);
        assert(incoming[incoming.len() - 1] == last);
        assert forall|x: Message| upserted_all(list, incoming).contains(x) == (incoming.contains(x)
            || (list.contains(x) && !has_id(incoming, x.id@))) by {
            lemma_has_id_push(init, last, x.id@);
            assert(init.push(last) =~= incoming);
            if init.contains(x) {
                let i = choose|i: int| 0 <= i < init.len() && init[i] == x;
                assert(incoming[i] == x);
                assert(x.id@ != last.id@);
            }
            if incoming.contains(x) && x != last {
                let i = choose|i: int| 0 <= i < incoming.len() && incoming[i] == x;
                assert(init[i] == x);
            }
        }
    }
}

/// Which copy of a message a merge keeps. A page of older messages never
/// replaces what is loaded: the history keeps every message it had, and
/// takes in those of the page whose id it does not know. Newer messages
/// replace the loaded ones with their id: the history keeps every message
/// of the page, and those it had whose id the page does not bring. Nothing
/// else comes in.
pub proof fn merge_keeps_the_right_copy(current: Seq<Message>, incoming: Seq<Message>, older: bool)
    requires
        unique_ids(current),
        unique_ids(incoming),
    ensures
        older ==> forall|m: Message|
            merged(current, incoming, older).contains(m) == (current.contains(m) || (
            incoming.contains(m) && !has_id(current, m.id@))),
        !older ==> forall|m: Message|
            merged(current, incoming, older).contains(m) == (incoming.contains(m) || (
            current.contains(m) && !has_id(incoming, m.id@))),
{
    if older {
        let fresh = unseen(incoming, current);
        lemma_unseen_contains(incoming, current);
        lemma_by_time_contains(fresh + current);
        assert forall|m: Message| (fresh + current).contains(m) == (fresh.contains(m)
            || current.contains(m)) by {
            if (fresh + current).contains(m) {
                let i = choose|i: int| 0 <= i < (fresh + current).len() && (fresh + current)[i] == m;
                if i < fresh.len() {
                    assert(fresh[i] == m);
                } else {
                    assert(current[i - fresh.len()] == m);
                }
            }
            if fresh.contains(m) {
                let i = choose|i: int| 0 <= i < fresh.len() && fresh[i] == m;
                assert((fresh + current)[i] == m);
            }
            if current.contains(m) {
                let i = choose|i: int| 0 <= i < current.len() && current[i] == m;
                assert((fresh + current)[fresh.len() + i] == m);
            }
        }
    } else {
        lemma_upserted_all_contains(current, incoming);
        lemma_by_time_contains(upserted_all(current, incoming));
    }
}

impl Conversation {
    /// An empty history, nothing asked for yet.
    pub fn new() -> (r: Self)
        ensures
            r.messages@.len() == 0,
            !r.complete && !r.loading_older && !r.requested && !r.fetching_phone,
            !r.phone_exhausted && r.phone_answered is None && r.phone_misses == 0,
            !r.phone_delivered,
    {
        Conversation {
            messages: Vec::new(),
            complete: false,
            loading_older: false,
            requested: false,
            fetching_phone: false,
            phone_exhausted: false,
            phone_answered: None,
            phone_misses: 0,
            phone_delivered: false,
        }
    }

    /// Folds a page of messages into the history.
    pub fn merge(&mut self, incoming: Vec<Message>, older: bool)
        ensures
            final(self).messages@ == merged(old(self).messages@, incoming@, older),
            final(self).complete == old(self).complete,
            final(self).loading_older == old(self).loading_older,
            final(self).requested == old(self).requested,
            final(self).fetching_phone == old(self).fetching_phone,
            final(self).phone_exhausted == old(self).phone_exhausted,
            final(self).phone_answered == old(self).phone_answered,
            final(self).phone_misses == old(self).phone_misses,
            final(self).phone_delivered == old(self).phone_delivered,
    {
        let ghost current = self.messages@;
        let mut messages: Vec<Message> = Vec::new();
        std::mem::swap(&mut messages, &mut self.messages);
        let combined = if older {
            let mut fresh: Vec<Message> = Vec::new();
            let mut rest = incoming;
            let ghost all = rest@;
            let mut k: usize = 0;
            assert(all.take(0) =~= Seq::<Message>::empty());
            assert(all.skip(0) =~= all);
            assert(all.len() == rest.len());
            while rest.len() > 0
                invariant
                    messages@ == current,
                    k <= all.len() <= usize::MAX,
                    rest@ == all.skip(k as int),
                    fresh@ == unseen(all.take(k as int), current),
                decreases rest@.len(),
            {
                let m = rest.remove(0);
                assert(m == all[k as int]);
                assert(rest@ =~= all.skip(k + 1));
                assert(all.take(k + 1).drop_last() =~= all.take(k as int));
                assert(all.take(k + 1).last() == m);
                let known = contains_id(&messages, &m.id);
                if !known {
                    fresh.push(m);
                }
                k = k + 1;
            }
            assert(all.take(k as int) =~= all);
            let ghost fresh_view = fresh@;
            fresh.append(&mut messages);
            assert(fresh@ =~= fresh_view + current);
            fresh
        } else {
            let mut list = messages;
            let mut rest = incoming;
            let ghost all = rest@;
            let mut k: usize = 0;
            assert(all.take(0) =~= Seq::<Message>::empty());
            assert(all.skip(0) =~= all);
            assert(all.len() == rest.len());
            while rest.len() > 0
                invariant
                    k <= all.len() <= usize::MAX,
                    rest@ == all.skip(k as int),
                    list@ == upserted_all(current, all.take(k as int)),
                decreases rest@.len(),
            {
                let m = rest.remove(0);
                assert(m == all[k as int]);
                assert(rest@ =~= all.skip(k + 1));
                assert(all.take(k + 1).drop_last() =~= all.take(k as int));
                assert(all.take(k + 1).last() == m);
                upsert(&mut list, m);
                k = k + 1;
            }
            assert(all.take(k as int) =~= all);
            list
        };
        self.messages = sort_by_time(combined);
    }

    /// The loaded message with this id.
    pub fn message(&self, id: &str) -> (r: Option<&Message>)
        ensures
            r matches Some(m) ==> index_of_id(self.messages@, id@) matches Some(i)
                && self.messages@[i] == *m,
            r is None ==> index_of_id(self.messages@, id@) is None,
    {
        proof {
            lemma_index_of_id(self.messages@, id@);
        }
        match find_id(&self.messages, id) {
            Some(i) => Some(&self.messages[i]),
            None => None,
        }
    }
}

/// Whether a message with this id is in the list.
fn contains_id(list: &Vec<Message>, id: &String) -> (r: bool)
    ensures
        r == has_id(list@, id@),
{
    proof {
        lemma_index_of_id(list@, id@);
    }
    match find_id(list, id.as_str()) {
        Some(_) => true,
        None => false,
    }
}

/// The index of the first message with this id.
pub(crate) fn find_id(list: &Vec<Message>, id: &str) -> (r: Option<usize>)
    ensures
        r matches Some(i) ==> index_of_id(list@, id@) == Some(i as int),
        r is None ==> index_of_id(list@, id@) is None,
{
    let target = String::from_str(id);
    let mut i: usize = 0;
    assert(list@.skip(0) =~= list@);
    while i < list.len()
        invariant
            target@ == id@,
            i <= list@.len(),
            index_of_id(list@, id@) == (match index_of_id(list@.skip(i as int), id@) {
                Some(k) => Some(k + i),
                None => None,
            }),
        decreases list@.len() - i,
    {
        assert(list@.skip(i as int)[0] == list@[i as int]);
        assert(list@.skip(i as int).drop_first() =~= list@.skip(i + 1));
        if list[i].id == target {
            return Some(i);
        }
        i = i + 1;
    }
    None
}

/// Folds one newer message into a list.
fn upsert(list: &mut Vec<Message>, m: Message)
    ensures
        final(list)@ == upserted(old(list)@, m),
{
    proof {
        lemma_index_of_id(list@, m.id@);
    }
    match find_id(list, m.id.as_str()) {
        Some(i) => {
            list.set(i, m);
        },
        None => {
            list.push(m);
        },
    }
}

// ---------------------------------------------------------------------
// The application state.

/// Whether someone is online, and when they were last seen.
#[derive(Clone, Copy, Debug, Default, PartialEq)]
pub struct Presence {
    pub online: bool,
    pub last_seen: Option<i64>,
}

/// What a process wants of the app beyond the window.
#[derive(Clone, Copy, Debug)]
pub struct AppOptions {
    /// Register the system-tray item.
    pub tray: bool,
}

impl Default for AppOptions {
    fn default() -> (r: Self)
        ensures
            r.tray,
    {
        AppOptions { tray: true }
    }
}

/// Work for the window rather than the backend, carried out by whoever
/// runs the frame loop.
#[derive(Debug)]
pub enum Effect {
    /// Open a file with the desktop's program for it.
    OpenFile(String),
    OpenUrl(String),
    CopyText(String),
    /// Show a desktop notification; clicking it opens the chat.
    Notify { title: String, body: String, chat: String },
    /// Put the composer's cursor after this many characters.
    ComposerCursor(usize),
    /// Change the zoom by a step, given as the bits of an `f32`, and clamp
    /// it to the allowed range.
    ZoomBy(u32),
    /// Write the settings to disk.
    SaveSettings,
    CloseWindow,
    FocusWindow,
}

/// The text of an optional string.
pub open spec fn text_of(s: Option<String>) -> Option<Seq<char>> {
    match s {
        Some(s) => Some(s@),
        None => None,
    }
}

/// Who is typing in a chat, and since when (milliseconds of the app's
/// clock).
pub type Typers = Vec<(String, i64)>;

/// The account and the state of its link.
pub struct Account {
    pub link: LinkStatus,
    /// History is being replayed after linking.
    pub syncing: bool,
    pub sync_percent: Option<u32>,
    pub me_name: Option<String>,
    /// Our "about" line.
    pub me_about: Option<String>,
}

/// The composer's state beyond its text.
pub struct Compose {
    /// The message the composer is replying to, in the open chat.
    pub reply_to: Option<String>,
    /// The message of ours the composer is changing, in the open chat.
    pub editing: Option<String>,
    /// The other side was told we are typing.
    pub composing: bool,
    /// When the composer last changed, in milliseconds.
    pub last_keystroke: Option<i64>,
}

/// What is known of people beyond the address book.
pub struct People {
    /// Who is typing in each chat.
    pub typing: Table<Typers>,
    pub presence: Table<Presence>,
    /// Profile pictures that came back, by id; `None` where there is none.
    pub avatars: Table<Option<String>>,
    /// Profile pictures asked for and not back yet.
    pub avatar_requests: Table<()>,
    /// The large pictures, for info dialogs.
    pub avatars_full: Table<Option<String>>,
    pub avatar_full_requests: Table<()>,
}

/// The emoji/GIF/sticker picker.
pub struct Picker {
    /// The tab showing, when the picker is open.
    pub tab: Option<PickerTab>,
    pub search: String,
    /// The picker just opened: its search field takes the focus once.
    pub focus: bool,
    pub gif_query: String,
    pub gif_results: Vec<Gif>,
    /// A GIF search is on its way.
    pub gif_pending: bool,
    pub gif_error: Option<String>,
    pub stickers: Vec<String>,
    /// The sticker list was asked for and has not come back yet.
    pub stickers_pending: bool,
}

/// What the window shows, and where its attention goes.
pub struct Screen {
    pub page: Page,
    pub dialog: Option<Dialog>,
    /// The number typed in the pair-with-phone dialog.
    pub pair_phone: String,
    pub sidebar_visible: bool,
    pub show_archived: bool,
    /// The conversation view should show its newest message this frame.
    pub scroll_to_bottom: bool,
    /// The conversation view was at its end last frame.
    pub at_bottom: bool,
    /// A message the conversation view should bring into view.
    pub scroll_anchor: Option<String>,
    pub focus_composer: bool,
    pub focus_search: bool,
}

/// The window itself, and the tray it may live in.
pub struct Window {
    pub quit_requested: bool,
    pub focused: bool,
    /// The system-tray item is there.
    pub has_tray: bool,
    /// No window exists; the app lives in the tray.
    pub hidden: bool,
    /// The window should close but the process should stay in the tray.
    pub hide_intent: bool,
    /// Something asked for a window while there is none.
    pub wants_show: bool,
    /// The interface zoom in the settings is the one on screen.
    pub zoom_applied: bool,
}

/// When the settings were written.
pub struct Saving {
    /// The settings changed since they were last written.
    pub dirty: bool,
    /// When the settings were last written, in milliseconds.
    pub last_save: i64,
}

/// The state the window draws from.
pub struct App {
    pub settings: Settings,
    pub saving: Saving,
    /// The GIPHY key this build carries, if any.
    pub giphy_built_in: Option<String>,
    pub account: Account,
    pub me: Option<String>,
    /// Newest activity first, as the backend sends them.
    pub chats: Vec<Chat>,
    pub contacts: Table<Contact>,
    pub conversations: Table<Conversation>,
    pub open_chat: Option<String>,
    /// What is typed in each chat's composer, kept while switching chats.
    pub drafts: Table<String>,
    pub composer: String,
    pub compose: Compose,
    pub search: String,
    pub people: People,
    pub picker: Picker,
    pub view: Screen,
    pub window: Window,
    pub toasts: Vec<Toast>,
    /// Actions to apply after this frame.
    pub actions: Vec<crate::model::Action>,
    /// Commands for the backend, in the order they were given.
    pub outbox: Vec<Command>,
    /// Work for the window, in order.
    pub effects: Vec<Effect>,
}

/// The position of the first chat with an id, or the number of chats.
pub open spec fn chat_position(chats: Seq<Chat>, id: Seq<char>) -> int
    decreases chats.len(),
{
    if chats.len() == 0 {
        0
    } else if chats[0].id@ == id {
        0
    } else {
        1 + chat_position(chats.drop_first(), id)
    }
}

/// The first chat with an id.
pub open spec fn chat_with(chats: Seq<Chat>, id: Seq<char>) -> Option<Chat> {
    let i = chat_position(chats, id);
    if i < chats.len() {
        Some(chats[i])
    } else {
        None
    }
}

pub proof fn lemma_chat_position(chats: Seq<Chat>, id: Seq<char>)
    ensures
        0 <= chat_position(chats, id) <= chats.len(),
        chat_position(chats, id) < chats.len() ==> chats[chat_position(chats, id)].id@ == id,
        forall|k: int| 0 <= k < chat_position(chats, id) ==> (#[trigger] chats[k]).id@ != id,
    decreases chats.len(),
{
    if chats.len() > 0 && chats[0].id@ != id {
        lemma_chat_position(chats.drop_first(), id);
        assert forall|k: int| 0 <= k < chat_position(chats, id) implies (#[trigger] chats[k]).id@
            != id by {
            if k > 0 {
                assert(chats[k] == chats.drop_first()[k - 1]);
            }
        }
    }
}

proof fn lemma_chat_position_is(chats: Seq<Chat>, id: Seq<char>, j: int)
    requires
        0 <= j <= chats.len(),
        forall|k: int| 0 <= k < j ==> (#[trigger] chats[k]).id@ != id,
        j < chats.len() ==> chats[j].id@ == id,
    ensures
        chat_position(chats, id) == j,
    decreases j,
{
    if j > 0 {
        assert forall|k: int| 0 <= k < j - 1 implies (#[trigger] chats.drop_first()[k]).id@
            != id by {
            assert(chats.drop_first()[k] == chats[k + 1]);
        }
        lemma_chat_position_is(chats.drop_first(), id, j - 1);
    }
}

/// A text made of ASCII digits only (an empty one too).
pub open spec fn all_digits(s: Seq<char>) -> bool {
    forall|i: int| 0 <= i < s.len() ==> #[trigger] is_digit(s[i])
}

/// The device is linked: a link state that only a linked device has, or
/// chats while not logged out.
pub open spec fn linked(link: LinkStatus, has_chats: bool) -> bool {
    link is Connected || link is Connecting || link is Disconnected || (has_chats
        && !(link is LoggedOut))
}

/// The name to show for a sender: "You", the address book's label, the
/// chat's own name when it is not a bare number, the phone number, or
/// "Unknown".
pub open spec fn name_for(
    me: Option<Seq<char>>,
    contacts: Map<Seq<char>, Contact>,
    chats: Seq<Chat>,
    id: Seq<char>,
) -> Seq<char> {
    if me == Some(id) {
        "You"@
    } else if contacts.contains_key(id) && contact_label(contacts[id]) is Some {
        contact_label(contacts[id])->0
    } else if chat_with(chats, id) matches Some(chat) && chat.name@.len() > 0 && !all_digits(
        chat.name@,
    ) {
        chat_with(chats, id)->0.name@
    } else {
        match phone_digits(id) {
            Some(digits) => phone_text(digits),
            None => "Unknown"@,
        }
    }
}

/// How many chats are archived.
pub open spec fn archived_in(chats: Seq<Chat>) -> nat
    decreases chats.len(),
{
    if chats.len() == 0 {
        0
    } else {
        archived_in(chats.drop_last()) + if chats.last().archived {
            1nat
        } else {
            0nat
        }
    }
}

/// The unread messages of the chats that are neither archived nor muted.
pub open spec fn unread_in(chats: Seq<Chat>, now: i64) -> nat
    decreases chats.len(),
{
    if chats.len() == 0 {
        0
    } else {
        unread_in(chats.drop_last(), now) + if !chats.last().archived && !muted_at(
            chats.last().muted_until,
            now,
        ) {
            chats.last().unread as nat
        } else {
            0nat
        }
    }
}

/// A message of ours that is text and no older than the edit window.
pub open spec fn editable(message: Message, now: i64) -> bool {
    message.from_me && message.content is Text && now - message.timestamp <= EDIT_WINDOW_SECS
}

/// A message of ours, not taken back yet, no older than the revoke window.
pub open spec fn revocable(message: Message, now: i64) -> bool {
    message.from_me && !(message.content is Revoked) && now - message.timestamp
        <= REVOKE_WINDOW_SECS
}

impl App {
    /// The state at start: nothing known yet, the chat that was open last
    /// time open again.
    pub fn new(settings: Settings, options: AppOptions) -> (r: Self)
        ensures
            text_of(r.open_chat) == text_of(settings.last_chat),
            r.settings == settings,
            r.window.has_tray == options.tray,
            r.account.link is Starting,
            r.chats@.len() == 0,
            r.contacts@ == Map::<Seq<char>, Contact>::empty(),
            r.conversations@ == Map::<Seq<char>, Conversation>::empty(),
            r.drafts@ == Map::<Seq<char>, String>::empty(),
            r.composer@.len() == 0,
            r.search@.len() == 0,
            r.view.page == Page::Chats,
            r.view.dialog is None,
            r.view.sidebar_visible && !r.view.show_archived,
            r.view.scroll_to_bottom && r.view.at_bottom && r.window.focused,
            !r.saving.dirty && !r.compose.composing && !r.window.quit_requested,
            r.outbox@.len() == 0 && r.effects@.len() == 0 && r.actions@.len() == 0,
            r.toasts@.len() == 0,
    {
        let open_chat = match &settings.last_chat {
            Some(chat) => Some(chat.clone()),
            None => None,
        };
        App {
            settings,
            saving: Saving { dirty: false, last_save: 0 },
            giphy_built_in: None,
            account: Account {
                link: LinkStatus::Starting,
                syncing: false,
                sync_percent: None,
                me_name: None,
                me_about: None,
            },
            me: None,
            chats: Vec::new(),
            contacts: Table::new(),
            conversations: Table::new(),
            open_chat,
            drafts: Table::new(),
            composer: String::new(),
            compose: Compose { reply_to: None, editing: None, composing: false, last_keystroke: None },
            search: String::new(),
            people: People {
                typing: Table::new(),
                presence: Table::new(),
                avatars: Table::new(),
                avatar_requests: Table::new(),
                avatars_full: Table::new(),
                avatar_full_requests: Table::new(),
            },
            picker: Picker {
                tab: None,
                search: String::new(),
                focus: false,
                gif_query: String::new(),
                gif_results: Vec::new(),
                gif_pending: false,
                gif_error: None,
                stickers: Vec::new(),
                stickers_pending: false,
            },
            view: Screen {
                page: Page::Chats,
                dialog: None,
                pair_phone: String::new(),
                sidebar_visible: true,
                show_archived: false,
                scroll_to_bottom: true,
                at_bottom: true,
                scroll_anchor: None,
                focus_composer: false,
                focus_search: false,
            },
            window: Window {
                quit_requested: false,
                focused: true,
                has_tray: options.tray,
                hidden: false,
                hide_intent: false,
                wants_show: false,
                zoom_applied: false,
            },
            toasts: Vec::new(),
            actions: Vec::new(),
            outbox: Vec::new(),
            effects: Vec::new(),
        }
    }

    pub fn is_connected(&self) -> (r: bool)
        ensures
            r == (self.account.link is Connected),
    {
        self.account.link.is_connected()
    }

    /// The device is linked: history may be showing even while offline.
    pub fn is_linked(&self) -> (r: bool)
        ensures
            r == linked(self.account.link, self.chats@.len() > 0),
    {
        match self.account.link {
            LinkStatus::Connected | LinkStatus::Connecting | LinkStatus::Disconnected { .. } => true,
            LinkStatus::LoggedOut => false,
            _ => self.chats.len() > 0,
        }
    }

    /// Where the first chat with an id is, or the number of chats.
    pub fn chat_index(&self, id: &str) -> (r: usize)
        ensures
            r == chat_position(self.chats@, id@),
    {
        let target = String::from_str(id);
        let mut i: usize = 0;
        while i < self.chats.len()
            invariant
                target@ == id@,
                i <= self.chats@.len(),
                forall|k: int| 0 <= k < i ==> (#[trigger] self.chats@[k]).id@ != id@,
            decreases self.chats@.len() - i,
        {
            if self.chats[i].id == target {
                proof {
                    lemma_chat_position_is(self.chats@, id@, i as int);
                }
                return i;
            }
            i = i + 1;
        }
        proof {
            lemma_chat_position_is(self.chats@, id@, i as int);
        }
        i
    }

    pub fn chat(&self, id: &str) -> (r: Option<&Chat>)
        ensures
            r matches Some(chat) ==> chat_with(self.chats@, id@) == Some(*chat),
            r is None ==> chat_with(self.chats@, id@) is None,
    {
        let i = self.chat_index(id);
        if i < self.chats.len() {
            Some(&self.chats[i])
        } else {
            None
        }
    }

    /// The open chat, when it is in the list.
    pub fn current_chat(&self) -> (r: Option<&Chat>)
        ensures
            r matches Some(chat) ==> self.open_chat matches Some(id) && chat_with(
                self.chats@,
                id@,
            ) == Some(*chat),
            r is None ==> (self.open_chat matches Some(id) ==> chat_with(self.chats@, id@) is None),
    {
        match &self.open_chat {
            Some(id) => self.chat(id.as_str()),
            None => None,
        }
    }

    /// The name to show for a sender: the address book's, the name they
    /// chose for themselves (with a tilde, as WhatsApp does), the phone
    /// number, or "Unknown".
    pub fn display_name(&self, id: &str) -> (r: String)
        ensures
            r@ == name_for(text_of(self.me), self.contacts@, self.chats@, id@),
    {
        match &self.me {
            Some(me) => {
                if me.as_str().unicode_len() == id.unicode_len() && crate::text::same_chars(
                    crate::text::chars_of(me.as_str()).as_slice(),
                    crate::text::chars_of(id).as_slice(),
                ) {
                    let you = String::from_str("You");
                    proof {
                        reveal_strlit("You");
                    }
                    return you;
                }
            },
            None => {},
        }
        match self.contacts.get(id) {
            Some(contact) => match contact.label() {
                Some(name) => {
                    return name;
                },
                None => {},
            },
            None => {},
        }
        match self.chat(id) {
            Some(chat) => {
                let name = crate::text::chars_of(chat.name.as_str());
                if name.len() > 0 && !digits_only(&name) {
                    return chat.name.clone();
                }
            },
            None => {},
        }
        match crate::model::phone_of(id) {
            Some(digits) => crate::util::phone(digits),
            None => {
                let unknown = String::from_str("Unknown");
                proof {
                    reveal_strlit("Unknown");
                }
                unknown
            },
        }
    }

    /// Whether a direct chat's name comes from the address book, rather
    /// than from what the other side calls themselves.
    pub fn is_saved_contact(&self, id: &str) -> (r: bool)
        ensures
            r == (self.contacts@.contains_key(id@) && crate::model::present(
                self.contacts@[id@].full_name,
            )),
    {
        match self.contacts.get(id) {
            Some(contact) => match &contact.full_name {
                Some(name) => name.as_str().unicode_len() > 0,
                None => false,
            },
            None => false,
        }
    }

    pub fn archived_count(&self) -> (r: usize)
        ensures
            r == archived_in(self.chats@),
    {
        let mut count: usize = 0;
        let mut i: usize = 0;
        while i < self.chats.len()
            invariant
                i <= self.chats@.len(),
                count == archived_in(self.chats@.take(i as int)),
                count <= i,
            decreases self.chats@.len() - i,
        {
            assert(self.chats@.take(i + 1).drop_last() =~= self.chats@.take(i as int));
            if self.chats[i].archived {
                count = count + 1;
            }
            i = i + 1;
        }
        assert(self.chats@.take(i as int) =~= self.chats@);
        count
    }

    /// The unread messages of the chats that are neither archived nor
    /// muted at `now` (Unix seconds).
    pub fn unread_total_at(&self, now: i64) -> (r: u32)
        requires
            unread_in(self.chats@, now) <= u32::MAX,
        ensures
            r == unread_in(self.chats@, now),
    {
        let mut total: u32 = 0;
        let mut i: usize = 0;
        while i < self.chats.len()
            invariant
                i <= self.chats@.len(),
                total == unread_in(self.chats@.take(i as int), now),
                unread_in(self.chats@, now) <= u32::MAX,
            decreases self.chats@.len() - i,
        {
            assert(self.chats@.take(i + 1).drop_last() =~= self.chats@.take(i as int));
            proof {
                lemma_unread_prefix(self.chats@, now, i + 1);
            }
            let chat = &self.chats[i];
            if !chat.archived && !chat.muted(now) {
                total = total + chat.unread;
            }
            i = i + 1;
        }
        assert(self.chats@.take(i as int) =~= self.chats@);
        total
    }

    /// Whether a message of ours is still young enough to change at `now`
    /// (Unix seconds).
    pub fn can_edit_at(&self, message: &Message, now: i64) -> (r: bool)
        ensures
            r == editable(*message, now),
    {
        message.from_me && (match &message.content {
            Content::Text { .. } => true,
            _ => false,
        }) && (now as i128) - (message.timestamp as i128) <= EDIT_WINDOW_SECS as i128
    }

    /// Whether a message of ours can still be taken back from everyone at
    /// `now` (Unix seconds).
    pub fn can_revoke_at(&self, message: &Message, now: i64) -> (r: bool)
        ensures
            r == revocable(*message, now),
    {
        message.from_me && (match &message.content {
            Content::Revoked => false,
            _ => true,
        }) && (now as i128) - (message.timestamp as i128) <= REVOKE_WINDOW_SECS as i128
    }
}

/// The unread count of a prefix is no more than that of the whole list.
proof fn lemma_unread_prefix(chats: Seq<Chat>, now: i64, n: int)
    requires
        0 <= n <= chats.len(),
    ensures
        unread_in(chats.take(n), now) <= unread_in(chats, now),
    decreases chats.len(),
{
    if n < chats.len() {
        assert(chats.drop_last().take(n) =~= chats.take(n));
        lemma_unread_prefix(chats.drop_last(), now, n);
    } else {
        assert(chats.take(n) =~= chats);
    }
}

/// Whether every character is an ASCII digit.
fn digits_only(s: &Vec<char>) -> (r: bool)
    ensures
        r == all_digits(s@),
{
    let mut i: usize = 0;
    while i < s.len()
        invariant
            i <= s@.len(),
            forall|k: int| 0 <= k < i ==> #[trigger] is_digit(s@[k]),
        decreases s@.len() - i,
    {
        if !crate::text::is_ascii_digit(s[i]) {
            return false;
        }
        i = i + 1;
    }
    true
}

// ---------------------------------------------------------------------
// The chat list.

/// What the chat list's search looks for: the search text trimmed, in
/// lower case.
pub open spec fn search_needle(search: Seq<char>) -> Seq<char> {
    lowercase(trimmed(search))
}

/// A chat matches a search when there is none, or when its name, its phone
/// number or its newest message (in lower case) holds the needle.
pub open spec fn matches_search(chat: Chat, needle: Seq<char>) -> bool {
    ||| needle.len() == 0
    ||| contains_text(lowercase(chat.name@), needle)
    ||| (phone_digits(chat.id@) matches Some(digits) && contains_text(digits, needle))
    ||| (chat.last matches Some(last) && contains_text(lowercase(last.summary@), needle))
}

/// A chat the list shows: on the side (archived or not) being looked at,
/// or anywhere during a search; and matching the search.
pub open spec fn listed(chat: Chat, show_archived: bool, needle: Seq<char>) -> bool {
    (chat.archived == show_archived || needle.len() > 0) && matches_search(chat, needle)
}

/// The chats the list shows, in their order.
pub open spec fn listed_chats(chats: Seq<Chat>, show_archived: bool, needle: Seq<char>) -> Seq<
    Chat,
>
    decreases chats.len(),
{
    if chats.len() == 0 {
        chats
    } else if listed(chats.last(), show_archived, needle) {
        listed_chats(chats.drop_last(), show_archived, needle).push(chats.last())
    } else {
        listed_chats(chats.drop_last(), show_archived, needle)
    }
}

/// Where a chat ranks in the list: pinned chats above the rest, then by
/// newest activity.
pub open spec fn chat_rank(chat: Chat) -> int {
    (if chat.pinned {
        0x1_0000_0000_0000_0000int
    } else {
        0int
    }) + chat.last_activity
}

/// Where a chat of this rank goes in a ranked list: after every chat that
/// ranks as high or higher.
pub open spec fn rank_slot(sorted: Seq<Chat>, rank: int) -> int
    decreases sorted.len(),
{
    if sorted.len() == 0 || chat_rank(sorted[0]) < rank {
        0
    } else {
        1 + rank_slot(sorted.drop_first(), rank)
    }
}

/// The chats from highest rank down, those of equal rank in the order
/// they came (what a stable sort gives).
pub open spec fn ranked(s: Seq<Chat>) -> Seq<Chat>
    decreases s.len(),
{
    if s.len() == 0 {
        s
    } else {
        let sorted = ranked(s.drop_last());
        sorted.insert(rank_slot(sorted, chat_rank(s.last())), s.last())
    }
}

/// The chats the list shows, in the order it shows them.
pub open spec fn visible(chats: Seq<Chat>, show_archived: bool, search: Seq<char>) -> Seq<Chat> {
    ranked(listed_chats(chats, show_archived, search_needle(search)))
}

proof fn lemma_rank_slot_is(sorted: Seq<Chat>, rank: int, j: int)
    requires
        0 <= j <= sorted.len(),
        forall|k: int| 0 <= k < j ==> chat_rank(#[trigger] sorted[k]) >= rank,
        j < sorted.len() ==> chat_rank(sorted[j]) < rank,
    ensures
        rank_slot(sorted, rank) == j,
    decreases j,
{
    if j > 0 {
        assert forall|k: int| 0 <= k < j - 1 implies chat_rank(#[trigger] sorted.drop_first()[k])
            >= rank by {
            assert(sorted.drop_first()[k] == sorted[k + 1]);
        }
        lemma_rank_slot_is(sorted.drop_first(), rank, j - 1);
    }
}

/// The rank of a chat, computed.
fn rank_of(chat: &Chat) -> (r: i128)
    ensures
        r == chat_rank(*chat),
{
    (if chat.pinned {
        0x1_0000_0000_0000_0000i128
    } else {
        0i128
    }) + chat.last_activity as i128
}

/// Whether the list shows a chat.
fn is_listed(chat: &Chat, show_archived: bool, needle: &Vec<char>) -> (r: bool)
    ensures
        r == listed(*chat, show_archived, needle@),
{
    if !(chat.archived == show_archived || needle.len() > 0) {
        return false;
    }
    if needle.len() == 0 {
        return true;
    }
    let name = crate::text::to_lowercase(chat.name.as_str());
    if crate::text::contains_chars(crate::text::chars_of(name.as_str()).as_slice(), needle.as_slice()) {
        return true;
    }
    match chat.phone() {
        Some(digits) => {
            if crate::text::contains_chars(crate::text::chars_of(digits).as_slice(), needle.as_slice()) {
                return true;
            }
        },
        None => {},
    }
    match &chat.last {
        Some(last) => {
            let summary = crate::text::to_lowercase(last.summary.as_str());
            crate::text::contains_chars(
                crate::text::chars_of(summary.as_str()).as_slice(),
                needle.as_slice(),
            )
        },
        None => false,
    }
}

impl App {
    /// The chats the list shows: matching the search, archived or not,
    /// pinned first, then by newest activity.
    pub fn visible_chats(&self) -> (r: Vec<&Chat>)
        ensures
            r@.len() == visible(self.chats@, self.view.show_archived, self.search@).len(),
            forall|i: int|
                0 <= i < r@.len() ==> *r@[i] == visible(
                    self.chats@,
                    self.view.show_archived,
                    self.search@,
                )[i],
    {
        let trimmed_search = crate::text::from_chars(
            crate::text::trim_chars(crate::text::chars_of(self.search.as_str()).as_slice()).as_slice(),
        );
        let lowered = crate::text::to_lowercase(trimmed_search.as_str());
        let needle = crate::text::chars_of(lowered.as_str());
        let ghost wanted = listed_chats(self.chats@, self.view.show_archived, needle@);
        let mut out: Vec<&Chat> = Vec::new();
        let ghost mut taken: Seq<Chat> = Seq::empty();
        let mut i: usize = 0;
        while i < self.chats.len()
            invariant
                i <= self.chats@.len(),
                taken == listed_chats(self.chats@.take(i as int), self.view.show_archived, needle@),
                out@.len() == ranked(taken).len(),
                forall|k: int| 0 <= k < out@.len() ==> *out@[k] == ranked(taken)[k],
            decreases self.chats@.len() - i,
        {
            let chat = &self.chats[i];
            assert(self.chats@.take(i + 1).drop_last() =~= self.chats@.take(i as int));
            assert(self.chats@.take(i + 1).last() == *chat);
            if is_listed(chat, self.view.show_archived, &needle) {
                let rank = rank_of(chat);
                let mut j: usize = 0;
                while j < out.len() && rank_of(out[j]) >= rank
                    invariant
                        j <= out@.len(),
                        rank == chat_rank(*chat),
                        forall|k: int| 0 <= k < j ==> chat_rank(*out@[k]) >= rank,
                    decreases out@.len() - j,
                {
                    j = j + 1;
                }
                proof {
                    let sorted = ranked(taken);
                    assert forall|k: int| 0 <= k < j implies chat_rank(#[trigger] sorted[k])
                        >= rank by {
                        assert(*out@[k] == sorted[k]);
                    }
                    if j < out@.len() {
                        assert(*out@[j as int] == sorted[j as int]);
                    }
                    lemma_rank_slot_is(sorted, rank as int, j as int);
                }
                let ghost before = out@;
                let ghost sorted = ranked(taken);
                out.insert(j, chat);
                proof {
                    let old_taken = taken;
                    taken = taken.push(*chat);
                    assert(taken.drop_last() =~= old_taken);
                    assert(taken.last() == *chat);
                    let expected = sorted.insert(j as int, *chat);
                    assert(ranked(taken) == expected);
                    assert forall|k: int| 0 <= k < out@.len() implies *out@[k] == ranked(taken)[k] by {
                        if k < j {
                            assert(out@[k] == before[k]);
                        } else if k > j {
                            assert(out@[k] == before[k - 1]);
                        }
                    }
                }
            }
            i = i + 1;
        }
        assert(self.chats@.take(i as int) =~= self.chats@);
        out
    }
}

// ---------------------------------------------------------------------
// Steps the actions and events are made of.

proof fn lemma_commands_push(s: Seq<Command>, c: Command)
    ensures
        commands_view(s.push(c)) == commands_view(s).push(command_view(c)),
{
    assert(commands_view(s.push(c)) =~= commands_view(s).push(command_view(c)));
}

/// A conversation with nothing loaded or asked for.
pub open spec fn fresh_conversation(c: Conversation) -> bool {
    &&& c.messages@.len() == 0
    &&& !c.complete && !c.loading_older && !c.requested && !c.fetching_phone
    &&& !c.phone_exhausted && c.phone_answered is None && c.phone_misses == 0
    &&& !c.phone_delivered
}

/// The toasts after a notice joins them: at most four are kept, the
/// oldest first.
pub open spec fn with_toast(toasts: Seq<Toast>, toast: Toast) -> Seq<Toast> {
    if toasts.len() < 4 {
        toasts.push(toast)
    } else {
        toasts.take(4)
    }
}

/// Stopping saying we type: the other side is told, if it was told we
/// were typing.
#[verifier::opaque]
pub open spec fn stopped_composing(before: App, chat: Seq<char>, after: App) -> bool {
    &&& commands_view(after.outbox@) == if before.compose.composing {
        commands_view(before.outbox@).push(CommandView::Composing { chat, composing: false })
    } else {
        commands_view(before.outbox@)
    }
    &&& after == (App {
        outbox: after.outbox,
        compose: Compose { composing: false, last_keystroke: None, ..before.compose },
        ..before
    })
}

/// A keystroke at `now`: the other side is told we type, once, if the
/// settings allow it and a chat is open.
#[verifier::opaque]
pub open spec fn keystroke_noted(before: App, now: i64, after: App) -> bool {
    if !before.compose.composing && before.settings.send_typing && before.open_chat is Some {
        &&& commands_view(after.outbox@) == commands_view(before.outbox@).push(
            CommandView::Composing { chat: before.open_chat->0@, composing: true },
        )
        &&& after == (App {
            outbox: after.outbox,
            compose: Compose { composing: true, last_keystroke: Some(now), ..before.compose },
            ..before
        })
    } else {
        after == (App {
            compose: Compose { last_keystroke: Some(now), ..before.compose },
            ..before
        })
    }
}

/// A chat read: its unread count cleared, and the backend told (with
/// receipts when the settings send them).
#[verifier::opaque]
pub open spec fn read_marked(before: App, chat: Seq<char>, after: App) -> bool {
    let i = chat_position(before.chats@, chat);
    &&& after.chats@ == if i < before.chats@.len() {
        before.chats@.update(i, Chat { unread: 0, ..before.chats@[i] })
    } else {
        before.chats@
    }
    &&& commands_view(after.outbox@) == commands_view(before.outbox@).push(
        CommandView::MarkRead { chat, receipts: before.settings.send_read_receipts },
    )
    &&& after == (App { chats: after.chats, outbox: after.outbox, ..before })
}

/// A chat's history asked for, the first time it is needed.
#[verifier::opaque]
pub open spec fn loaded_ensured(before: App, chat: Seq<char>, after: App) -> bool {
    let known = before.conversations@.contains_key(chat);
    let c = after.conversations@[chat];
    &&& after.conversations@ == before.conversations@.insert(chat, c)
    &&& if known {
        c == Conversation { requested: true, ..before.conversations@[chat] }
    } else {
        c.requested && fresh_conversation(Conversation { requested: false, ..c })
    }
    &&& commands_view(after.outbox@) == if known && before.conversations@[chat].requested {
        commands_view(before.outbox@)
    } else {
        commands_view(before.outbox@).push(CommandView::LoadChat { chat, before: None })
    }
    &&& after == (App { conversations: after.conversations, outbox: after.outbox, ..before })
}

impl App {
    /// Hands a command to the backend.
    pub(crate) fn send(&mut self, command: Command)
        ensures
            commands_view(final(self).outbox@) == commands_view(old(self).outbox@).push(
                command_view(command),
            ),
            *final(self) == (App { outbox: final(self).outbox, ..*old(self) }),
    {
        proof {
            lemma_commands_push(self.outbox@, command);
        }
        self.outbox.push(command);
    }

    pub fn mark_settings_dirty(&mut self)
        ensures
            *final(self) == (App {
                saving: Saving { dirty: true, ..old(self).saving },
                ..*old(self)
            }),
    {
        self.saving.dirty = true;
    }

    /// A notice for the user, at `now` (milliseconds of the app's clock).
    pub fn toast(&mut self, message: String, now: i64)
        ensures
            final(self).toasts@ == with_toast(
                old(self).toasts@,
                Toast { message, kind: ToastKind::Info, created: now },
            ),
            *final(self) == (App { toasts: final(self).toasts, ..*old(self) }),
    {
        self.toasts.push(Toast { message, kind: ToastKind::Info, created: now });
        self.toasts.truncate(4);
    }

    /// A notice that something went wrong, at `now`.
    pub fn toast_error(&mut self, message: String, now: i64)
        ensures
            final(self).toasts@ == old(self).toasts@.push(
                Toast { message, kind: ToastKind::Error, created: now },
            ),
            *final(self) == (App { toasts: final(self).toasts, ..*old(self) }),
    {
        self.toasts.push(Toast { message, kind: ToastKind::Error, created: now });
    }

    /// Stops telling the other side we type.
    pub fn stop_composing(&mut self, chat: &str)
        ensures
            stopped_composing(*old(self), chat@, *final(self)),
    {
        proof {
            reveal(stopped_composing);
        }
        if self.compose.composing {
            self.compose.composing = false;
            self.send(Command::Composing { chat: String::from_str(chat), composing: false });
        }
        self.compose.last_keystroke = None;
    }

    /// The composer changed at `now` (milliseconds): tell the other side
    /// we are typing, once.
    pub fn note_keystroke(&mut self, now: i64)
        ensures
            keystroke_noted(*old(self), now, *final(self)),
    {
        proof {
            reveal(keystroke_noted);
        }
        self.compose.last_keystroke = Some(now);
        if !self.compose.composing && self.settings.send_typing {
            match &self.open_chat {
                Some(chat) => {
                    let chat = chat.clone();
                    self.compose.composing = true;
                    self.send(Command::Composing { chat, composing: true });
                },
                None => {},
            }
        }
    }

    /// Clears a chat's unread count and tells the backend.
    pub fn mark_read(&mut self, chat: &str)
        ensures
            read_marked(*old(self), chat@, *final(self)),
    {
        proof {
            reveal(read_marked);
        }
        let i = self.chat_index(chat);
        if i < self.chats.len() {
            let ghost before = self.chats@;
            let mut known = self.chats.remove(i);
            known.unread = 0;
            self.chats.insert(i, known);
            assert(self.chats@ =~= before.update(i as int, Chat { unread: 0, ..before[i as int] }));
        }
        let receipts = self.settings.send_read_receipts;
        self.send(Command::MarkRead { chat: String::from_str(chat), receipts });
    }

    /// Asks for a chat's history the first time it is needed.
    pub fn ensure_loaded(&mut self, chat: &str)
        ensures
            loaded_ensured(*old(self), chat@, *final(self)),
    {
        proof {
            reveal(loaded_ensured);
        }
        let mut conversation = match self.conversations.remove(chat) {
            Some(c) => c,
            None => Conversation::new(),
        };
        let asked = conversation.requested;
        conversation.requested = true;
        self.conversations.insert(String::from_str(chat), conversation);
        if !asked {
            self.send(Command::LoadChat { chat: String::from_str(chat), before: None });
        }
        assert(self.conversations@ =~= old(self).conversations@.insert(chat@, self.conversations@[chat@]));
    }
}

/// Switching the composer to a chat: the text of the chat being left is
/// kept as its draft (unless it was an edit, or blank), the other side
/// stops being told we type there, and the new chat's draft comes back.
#[verifier::opaque]
pub open spec fn switched(before: App, id: Seq<char>, after: App) -> bool {
    let screen = Screen {
        page: Page::Chats,
        scroll_to_bottom: true,
        at_bottom: true,
        focus_composer: true,
        ..before.view
    };
    if text_of(before.open_chat) == Some(id) {
        &&& text_of(after.open_chat) == Some(id)
        &&& after == (App { open_chat: after.open_chat, view: screen, ..before })
    } else {
        let drafts = match before.open_chat {
            Some(previous) => if before.compose.editing is Some || trimmed(before.composer@).len()
                == 0 {
                before.drafts@.remove(previous@)
            } else {
                before.drafts@.insert(previous@, before.composer)
            },
            None => before.drafts@,
        };
        let left = before.open_chat is Some;
        &&& text_of(after.open_chat) == Some(id)
        &&& after.drafts@ == drafts.remove(id)
        &&& if drafts.contains_key(id) {
            after.composer == drafts[id]
        } else {
            after.composer@.len() == 0
        }
        &&& commands_view(after.outbox@) == if left && before.compose.composing {
            commands_view(before.outbox@).push(
                CommandView::Composing { chat: before.open_chat->0@, composing: false },
            )
        } else {
            commands_view(before.outbox@)
        }
        &&& after == (App {
            open_chat: after.open_chat,
            drafts: after.drafts,
            composer: after.composer,
            outbox: after.outbox,
            compose: Compose {
                reply_to: None,
                editing: None,
                composing: if left {
                    false
                } else {
                    before.compose.composing
                },
                last_keystroke: if left {
                    None
                } else {
                    before.compose.last_keystroke
                },
            },
            view: screen,
            ..before
        })
    }
}

/// A chat with unread messages is read on opening.
#[verifier::opaque]
pub open spec fn read_if_unread(before: App, id: Seq<char>, after: App) -> bool {
    if chat_with(before.chats@, id) matches Some(chat) && chat.unread > 0 {
        read_marked(before, id, after)
    } else {
        after == before
    }
}

/// The open chat is remembered in the settings, to reopen it next time.
#[verifier::opaque]
pub open spec fn remembered(before: App, id: Seq<char>, after: App) -> bool {
    if text_of(before.settings.last_chat) == Some(id) {
        after == before
    } else {
        &&& text_of(after.settings.last_chat) == Some(id)
        &&& after == (App {
            settings: Settings { last_chat: after.settings.last_chat, ..before.settings },
            saving: Saving { dirty: true, ..before.saving },
            ..before
        })
    }
}

/// Opening a chat: the composer switches to it, its history is asked for
/// if it was not, it is read if it had unread messages, and it is
/// remembered for the next start.
#[verifier::opaque]
pub open spec fn chat_opened(before: App, id: Seq<char>, after: App) -> bool {
    exists|s1: App, s2: App, s3: App|
        #![trigger switched(before, id, s1), loaded_ensured(s1, id, s2), read_if_unread(s2, id, s3)]
        switched(before, id, s1) && loaded_ensured(s1, id, s2) && read_if_unread(s2, id, s3)
            && remembered(s3, id, after)
}

/// Leaving the open chat for another: its text is kept as its draft
/// (unless it was an edit, or blank) and the other side stops being told
/// we type there.
#[verifier::opaque]
pub open spec fn left_chat(before: App, after: App) -> bool {
    match before.open_chat {
        Some(previous) => {
            &&& after.drafts@ == if before.compose.editing is Some || trimmed(before.composer@).len()
                == 0 {
                before.drafts@.remove(previous@)
            } else {
                before.drafts@.insert(previous@, before.composer)
            }
            &&& after.composer@.len() == 0
            &&& commands_view(after.outbox@) == if before.compose.composing {
                commands_view(before.outbox@).push(
                    CommandView::Composing { chat: previous@, composing: false },
                )
            } else {
                commands_view(before.outbox@)
            }
            &&& after == (App {
                open_chat: None,
                drafts: after.drafts,
                composer: after.composer,
                outbox: after.outbox,
                compose: Compose {
                    editing: None,
                    composing: false,
                    last_keystroke: None,
                    ..before.compose
                },
                ..before
            })
        },
        None => after == before,
    }
}

impl App {
    fn leave_chat(&mut self)
        ensures
            left_chat(*old(self), *final(self)),
    {
        proof {
            reveal(stopped_composing);
            reveal(left_chat);
        }
        let previous = self.open_chat.take();
        match previous {
            Some(previous) => {
                let mut draft = String::new();
                std::mem::swap(&mut draft, &mut self.composer);
                let was_editing = self.compose.editing.is_some();
                self.compose.editing = None;
                let blank = crate::text::trim_chars(
                    crate::text::chars_of(draft.as_str()).as_slice(),
                ).len() == 0;
                if was_editing || blank {
                    self.drafts.remove(previous.as_str());
                } else {
                    self.drafts.insert(previous.clone(), draft);
                }
                self.stop_composing(previous.as_str());
            },
            None => {},
        }
    }

    fn switch_to(&mut self, id: &String)
        ensures
            switched(*old(self), id@, *final(self)),
    {
        proof {
            reveal(left_chat);
            reveal(switched);
        }
        let same = match &self.open_chat {
            Some(open) => *open == *id,
            None => false,
        };
        if !same {
            self.leave_chat();
            self.composer = match self.drafts.remove(id.as_str()) {
                Some(draft) => draft,
                None => String::new(),
            };
            self.compose.reply_to = None;
            self.compose.editing = None;
        }
        self.open_chat = Some(id.clone());
        self.view.page = Page::Chats;
        self.view.scroll_to_bottom = true;
        self.view.at_bottom = true;
        self.view.focus_composer = true;
    }

    fn read_on_open(&mut self, id: &str)
        ensures
            read_if_unread(*old(self), id@, *final(self)),
    {
        proof {
            reveal(read_if_unread);
        }
        let unread = match self.chat(id) {
            Some(chat) => chat.unread > 0,
            None => false,
        };
        if unread {
            self.mark_read(id);
        }
    }

    fn remember_chat(&mut self, id: String)
        ensures
            remembered(*old(self), id@, *final(self)),
    {
        proof {
            reveal(remembered);
        }
        let known = match &self.settings.last_chat {
            Some(last) => *last == id,
            None => false,
        };
        if !known {
            self.settings.last_chat = Some(id);
            self.mark_settings_dirty();
        }
    }

    /// Opens a chat in the conversation view.
    pub fn open_chat(&mut self, id: String)
        ensures
            chat_opened(*old(self), id@, *final(self)),
    {
        proof {
            reveal(chat_opened);
        }
        let ghost s0 = *self;
        self.switch_to(&id);
        let ghost s1 = *self;
        self.ensure_loaded(id.as_str());
        let ghost s2 = *self;
        self.read_on_open(id.as_str());
        let ghost s3 = *self;
        self.remember_chat(id);
        assert(switched(s0, id@, s1) && loaded_ensured(s1, id@, s2) && read_if_unread(s2, id@, s3));
    }
}

} // verus!
