//! Moving pictures: which frame of an animation shows at a moment, which
//! decoded animations stay in memory, and how H.264 samples from an MP4
//! file are handed to the decoder. Times are in nanoseconds.

use vstd::prelude::*;

use crate::text::{chars_of, same_chars};

verus! {

/// Whether MP4 playback is possible on this desktop: always, since H.264
/// decodes in-process; kept for the interface.
pub fn can_play_video() -> (r: bool)
    ensures
        r,
{
    true
}

/// The four-byte start code that comes before each NAL unit.
pub open spec fn start_code() -> Seq<u8> {
    seq![0u8, 0u8, 0u8, 1u8]
}

/// A NAL unit behind a start code.
pub fn push_annex_b(out: &mut Vec<u8>, nal: &[u8])
    ensures
        final(out)@ == old(out)@ + start_code() + nal@,
{
    out.push(0);
    out.push(0);
    out.push(0);
    out.push(1);
    let mut i: usize = 0;
    while i < nal.len()
        invariant
            i <= nal@.len(),
            out@ == old(out)@ + start_code() + nal@.take(i as int),
        decreases nal@.len() - i,
    {
        out.push(nal[i]);
        assert(nal@.take(i + 1) =~= nal@.take(i as int).push(nal@[i as int]));
        i = i + 1;
    }
    assert(nal@.take(nal@.len() as int) =~= nal@);
}

/// A big-endian 32-bit length.
pub open spec fn length_of(b0: u8, b1: u8, b2: u8, b3: u8) -> nat {
    (b0 as nat) * 16777216 + (b1 as nat) * 65536 + (b2 as nat) * 256 + (b3 as nat)
}

/// A sample of length-prefixed NAL units as start-code-prefixed ones; a
/// zero or overlong length ends the conversion.
pub open spec fn annex_b(sample: Seq<u8>) -> Seq<u8>
    decreases sample.len(),
{
    if sample.len() < 4 {
        Seq::empty()
    } else {
        let length = length_of(sample[0], sample[1], sample[2], sample[3]);
        let rest = sample.skip(4);
        if length == 0 || length > rest.len() {
            Seq::empty()
        } else {
            start_code() + rest.take(length as int) + annex_b(rest.skip(length as int))
        }
    }
}

/// MP4 samples carry NAL units behind four-byte lengths; the decoder wants
/// them behind start codes.
pub fn avcc_to_annex_b(out: &mut Vec<u8>, sample: &[u8])
    ensures
        final(out)@ == old(out)@ + annex_b(sample@),
{
    let mut at: usize = 0;
    assert(sample@.skip(0) =~= sample@);
    loop
        invariant
            at <= sample@.len(),
            sample@.len() == sample.len(),
            out@ + annex_b(sample@.skip(at as int)) == old(out)@ + annex_b(sample@),
        decreases sample@.len() - at,
    {
        let ghost rest = sample@.skip(at as int);
        if sample.len() - at < 4 {
            assert(annex_b(rest) =~= Seq::<u8>::empty());
            assert(out@ + Seq::<u8>::empty() =~= out@);
            return;
        }
        let length = (sample[at] as u64) * 16777216 + (sample[at + 1] as u64) * 65536
            + (sample[at + 2] as u64) * 256 + (sample[at + 3] as u64);
        assert(length == length_of(rest[0], rest[1], rest[2], rest[3]));
        let available = sample.len() - at - 4;
        assert(rest.skip(4) =~= sample@.skip(at + 4));
        if length == 0 || length > available as u64 {
            assert(out@ + Seq::<u8>::empty() =~= out@);
            return;
        }
        let start = at + 4;
        let end = start + length as usize;
        let nal = &sample[start..end];
        assert(nal@ =~= rest.skip(4).take(length as int));
        assert(rest.skip(4).skip(length as int) =~= sample@.skip(end as int));
        let ghost before = out@;
        push_annex_b(out, nal);
        assert(out@ + annex_b(sample@.skip(end as int)) =~= before + annex_b(rest));
        at = end;
    }
}

/// The shortest loop an animation plays, in nanoseconds: 50 ms.
pub const MIN_LOOP_NS: u64 = 50_000_000u64;

/// How long the view waits before asking again when no frame is due, in
/// nanoseconds: 40 ms.
pub const DEFAULT_WAIT_NS: u64 = 40_000_000u64;

/// The frames' delays added up.
pub open spec fn delay_sum(delays: Seq<u64>) -> nat
    decreases delays.len(),
{
    if delays.len() == 0 {
        0
    } else {
        delay_sum(delays.drop_last()) + delays.last() as nat
    }
}

/// How long one loop of an animation lasts: its delays added up, and at
/// least 50 ms.
pub open spec fn loop_length(delays: Seq<u64>) -> nat {
    if delay_sum(delays) < MIN_LOOP_NS {
        MIN_LOOP_NS as nat
    } else {
        delay_sum(delays)
    }
}

/// The frame showing `position` into the loop, counted from frame `i`, and
/// how long until the next one; the first frame and 40 ms when the
/// position lies past the last frame.
pub open spec fn frame_from(delays: Seq<u64>, i: int, position: int) -> (int, int)
    decreases delays.len() - i,
{
    if i < 0 || i >= delays.len() {
        (0, DEFAULT_WAIT_NS as int)
    } else if position < delays[i] {
        (i, delays[i] - position)
    } else {
        frame_from(delays, i + 1, position - delays[i])
    }
}

/// The frame of an animation to draw `elapsed` into its playback, and how
/// long until the next frame is due.
pub open spec fn frame_showing(delays: Seq<u64>, elapsed: nat) -> (int, int) {
    frame_from(delays, 0, (elapsed % loop_length(delays)) as int)
}

proof fn lemma_delay_sum_take(delays: Seq<u64>, i: int)
    requires
        0 <= i < delays.len(),
    ensures
        delay_sum(delays.take(i + 1)) == delay_sum(delays.take(i)) + delays[i],
{
    assert(delays.take(i + 1).drop_last() =~= delays.take(i));
}

/// Which frame of an animation with these delays to draw `elapsed` into
/// its playback, and how long until the next is due.
pub fn frame_at(delays: &[u64], elapsed: u64) -> (r: (usize, u64))
    requires
        delay_sum(delays@) <= u64::MAX,
    ensures
        r.0 as int == frame_showing(delays@, elapsed as nat).0,
        r.1 as int == frame_showing(delays@, elapsed as nat).1,
{
    let mut total: u64 = 0;
    let mut i: usize = 0;
    while i < delays.len()
        invariant
            i <= delays@.len(),
            total == delay_sum(delays@.take(i as int)),
            delay_sum(delays@) <= u64::MAX,
        decreases delays@.len() - i,
    {
        proof {
            lemma_delay_sum_take(delays@, i as int);
            lemma_delay_sum_prefix(delays@, i + 1);
        }
        total = total + delays[i];
        i = i + 1;
    }
    assert(delays@.take(i as int) =~= delays@);
    if total < MIN_LOOP_NS {
        total = MIN_LOOP_NS;
    }
    let mut position = elapsed % total;
    let mut k: usize = 0;
    while k < delays.len()
        invariant
            k <= delays@.len(),
            total == loop_length(delays@),
            frame_from(delays@, k as int, position as int) == frame_showing(delays@, elapsed as nat),
        decreases delays@.len() - k,
    {
        if position < delays[k] {
            return (k, delays[k] - position);
        }
        position = position - delays[k];
        k = k + 1;
    }
    (0, DEFAULT_WAIT_NS)
}

proof fn lemma_delay_sum_prefix(delays: Seq<u64>, n: int)
    requires
        0 <= n <= delays.len(),
    ensures
        delay_sum(delays.take(n)) <= delay_sum(delays),
    decreases delays.len() - n,
{
    if n < delays.len() {
        lemma_delay_sum_prefix(delays, n + 1);
        lemma_delay_sum_take(delays, n);
    } else {
        assert(delays.take(n) =~= delays);
    }
}

/// An animation loops: a whole loop later, the same frame shows, with the
/// same wait until the next.
pub proof fn animations_loop(delays: Seq<u64>, elapsed: nat)
    ensures
        frame_showing(delays, elapsed + loop_length(delays)) == frame_showing(delays, elapsed),
{
    let n = loop_length(delays);
    assert(n > 0);
    assert((elapsed + n) % n == elapsed % n) by (nonlinear_arith)
        requires
            n > 0,
    {
        vstd::arithmetic::div_mod::lemma_mod_add_multiples_vanish(elapsed as int, n as int);
    }
}

// ---------------------------------------------------------------------
// Which decoded animations stay.

/// How long an animation nobody has drawn stays decoded: 20 s.
pub const IDLE_NS: u64 = 20_000_000_000u64;

/// Frames kept across every animation; the least recently drawn go first
/// when this is exceeded.
pub const MAX_RESIDENT_FRAMES: usize = 450;

/// What is known of an animated file.
#[derive(Clone, Copy, Debug, PartialEq, Eq)]
pub enum CacheState {
    Decoding,
    Failed,
    /// Decoded into this many frames, last drawn at this moment.
    Ready { frames: usize, last_drawn: u64 },
}

/// An animated file and what is known of it.
#[derive(Clone, Debug)]
pub struct CachedAnimation {
    pub path: String,
    pub state: CacheState,
}

/// A decoded animation nobody has drawn for the idle time.
pub open spec fn idle(e: CachedAnimation, now: u64) -> bool {
    e.state matches CacheState::Ready { last_drawn, .. } && now - last_drawn >= IDLE_NS
}

/// The entries without the idle ones, in order.
pub open spec fn without_idle(s: Seq<CachedAnimation>, now: u64) -> Seq<CachedAnimation>
    decreases s.len(),
{
    if s.len() == 0 {
        s
    } else {
        without_idle(s.drop_last(), now) + if idle(s.last(), now) {
            Seq::empty()
        } else {
            seq![s.last()]
        }
    }
}

/// The frames held by an entry.
pub open spec fn held(e: CachedAnimation) -> nat {
    match e.state {
        CacheState::Ready { frames, .. } => frames as nat,
        _ => 0,
    }
}

/// The frames held by all entries.
pub open spec fn resident(s: Seq<CachedAnimation>) -> nat
    decreases s.len(),
{
    if s.len() == 0 {
        0
    } else {
        resident(s.drop_last()) + held(s.last())
    }
}

/// An entry that may go to make room: decoded, and not the one being
/// drawn.
pub open spec fn evictable(e: CachedAnimation, current: Seq<char>) -> bool {
    e.state is Ready && e.path@ != current
}

pub open spec fn drawn_at(e: CachedAnimation) -> u64 {
    match e.state {
        CacheState::Ready { last_drawn, .. } => last_drawn,
        _ => 0,
    }
}

/// The first of the least recently drawn evictable entries.
pub open spec fn victim(s: Seq<CachedAnimation>, current: Seq<char>) -> Option<int>
    decreases s.len(),
{
    if s.len() == 0 {
        None
    } else {
        let last = s.len() - 1;
        let earlier = victim(s.drop_last(), current);
        if evictable(s[last], current) {
            match earlier {
                Some(j) => if drawn_at(s[last]) < drawn_at(s[j]) {
                    Some(last)
                } else {
                    Some(j)
                },
                None => Some(last),
            }
        } else {
            earlier
        }
    }
}

/// Evicting the least recently drawn while more than the budget of frames
/// is held and something can go.
pub open spec fn evicted(s: Seq<CachedAnimation>, current: Seq<char>) -> Seq<CachedAnimation>
    decreases s.len(),
{
    if resident(s) <= MAX_RESIDENT_FRAMES {
        s
    } else {
        match victim(s, current) {
            Some(v) => if 0 <= v < s.len() {
                evicted(s.remove(v), current)
            } else {
                s
            },
            None => s,
        }
    }
}

/// What stays of the cache at `now` while `current` is drawn: the idle
/// animations go, then the least recently drawn until the frames fit.
pub open spec fn pruned(s: Seq<CachedAnimation>, current: Seq<char>, now: u64) -> Seq<CachedAnimation> {
    evicted(without_idle(s, now), current)
}

proof fn lemma_victim(s: Seq<CachedAnimation>, current: Seq<char>)
    ensures
        victim(s, current) matches Some(v) ==> 0 <= v < s.len() && evictable(s[v], current)
            && forall|k: int| 0 <= k < s.len() && evictable(#[trigger] s[k], current) ==> drawn_at(
                s[v],
            ) <= drawn_at(s[k]),
        victim(s, current) is None ==> forall|k: int| 0 <= k < s.len() ==> !evictable(#[trigger] s[k], current),
    decreases s.len(),
{
    if s.len() > 0 {
        let rest = s.drop_last();
        let last = s.len() - 1;
        lemma_victim(rest, current);
        assert forall|k: int| 0 <= k < rest.len() implies #[trigger] rest[k] == s[k] by {}
        match victim(rest, current) {
            Some(j) => {
                assert(rest[j] == s[j]);
                if evictable(s[last], current) && drawn_at(s[last]) < drawn_at(s[j]) {
                    assert(victim(s, current) == Some(last));
                    assert forall|k: int| 0 <= k < s.len() && evictable(#[trigger] s[k], current) implies drawn_at(
                        s[last],
                    ) <= drawn_at(s[k]) by {
                        if k < last {
                            assert(rest[k] == s[k]);
                        }
                    }
                } else {
                    assert(victim(s, current) == Some(j));
                    assert forall|k: int| 0 <= k < s.len() && evictable(#[trigger] s[k], current) implies drawn_at(
                        s[j],
                    ) <= drawn_at(s[k]) by {
                        if k < last {
                            assert(rest[k] == s[k]);
                        }
                    }
                }
            },
            None => {
                if evictable(s[last], current) {
                    assert(victim(s, current) == Some(last));
                    assert forall|k: int| 0 <= k < s.len() && evictable(#[trigger] s[k], current) implies drawn_at(
                        s[last],
                    ) <= drawn_at(s[k]) by {
                        if k < last {
                            assert(rest[k] == s[k]);
                            assert(!evictable(rest[k], current));
                        }
                    }
                } else {
                    assert(victim(s, current) is None);
                    assert forall|k: int| 0 <= k < s.len() implies !evictable(#[trigger] s[k], current) by {
                        if k < last {
                            assert(rest[k] == s[k]);
                        }
                    }
                }
            },
        }
    }
}

proof fn lemma_resident_remove(s: Seq<CachedAnimation>, v: int)
    requires
        0 <= v < s.len(),
    ensures
        resident(s.remove(v)) + held(s[v]) == resident(s),
    decreases s.len(),
{
    if v == s.len() - 1 {
        assert(s.remove(v) =~= s.drop_last());
    } else {
        assert(s.remove(v).drop_last() =~= s.drop_last().remove(v));
        assert(s.remove(v).last() == s.last());
        lemma_resident_remove(s.drop_last(), v);
    }
}

fn held_by(e: &CachedAnimation) -> (r: usize)
    ensures
        r == held(*e),
{
    match e.state {
        CacheState::Ready { frames, .. } => frames,
        _ => 0,
    }
}

fn victim_of(s: &Vec<CachedAnimation>, current: &str) -> (r: Option<usize>)
    ensures
        r matches Some(v) ==> victim(s@, current@) == Some(v as int),
        r is None ==> victim(s@, current@) is None,
{
    let current_chars = chars_of(current);
    let mut best: Option<usize> = None;
    let mut j: usize = 0;
    assert(s@.take(0) =~= Seq::<CachedAnimation>::empty());
    while j < s.len()
        invariant
            j <= s@.len(),
            current_chars@ == current@,
            best matches Some(b) ==> victim(s@.take(j as int), current@) == Some(b as int) && b < j,
            best is None ==> victim(s@.take(j as int), current@) is None,
        decreases s@.len() - j,
    {
        let ghost prefix = s@.take(j + 1);
        assert(prefix.drop_last() =~= s@.take(j as int));
        assert(prefix[j as int] == s@[j as int]);
        let eligible = match s[j].state {
            CacheState::Ready { .. } => {
                let path = chars_of(s[j].path.as_str());
                !same_chars(path.as_slice(), current_chars.as_slice())
            },
            _ => false,
        };
        assert(eligible == evictable(prefix[j as int], current@));
        if eligible {
            match best {
                Some(b) => {
                    assert(prefix[b as int] == s@[b as int]);
                    if drawn_at_of(&s[j]) < drawn_at_of(&s[b]) {
                        best = Some(j);
                    }
                },
                None => {
                    best = Some(j);
                },
            }
        }
        j = j + 1;
    }
    assert(s@.take(j as int) =~= s@);
    best
}

fn drawn_at_of(e: &CachedAnimation) -> (r: u64)
    ensures
        r == drawn_at(*e),
{
    match e.state {
        CacheState::Ready { last_drawn, .. } => last_drawn,
        _ => 0,
    }
}

/// Drops what should no longer stay decoded while `current` is drawn at
/// `now`: the animations nobody drew for the idle time, then the least
/// recently drawn until the frames fit the budget.
pub fn prune(entries: &mut Vec<CachedAnimation>, current: &str, now: u64)
    requires
        resident(old(entries)@) <= usize::MAX,
    ensures
        final(entries)@ == pruned(old(entries)@, current@, now),
{
    let mut all: Vec<CachedAnimation> = Vec::new();
    std::mem::swap(&mut all, entries);
    let ghost given = all@;
    assert(given == old(entries)@);
    assert(given.len() == all.len());
    let mut i: usize = 0;
    let mut total: usize = 0;
    assert(given.skip(0) =~= given);
    assert(given.take(0) =~= Seq::<CachedAnimation>::empty());
    while all.len() > 0
        invariant
            i <= given.len(),
            all@ == given.skip(i as int),
            given.len() <= usize::MAX,
            entries@ == without_idle(given.take(i as int), now),
            total == resident(entries@),
            resident(given) <= usize::MAX,
        decreases all@.len(),
    {
        let ghost prefix = given.take(i + 1);
        assert(prefix.drop_last() =~= given.take(i as int));
        assert(all@[0] == given[i as int]);
        assert(prefix.last() == given[i as int]);
        let e = all.remove(0);
        assert(all@ =~= given.skip(i + 1));
        let stale = match e.state {
            CacheState::Ready { last_drawn, .. } => now >= last_drawn && now - last_drawn >= IDLE_NS,
            _ => false,
        };
        if !stale {
            let ghost before = entries@;
            let frames = held_by(&e);
            entries.push(e);
            assert(entries@ =~= without_idle(prefix, now));
            assert(entries@.drop_last() =~= before);
            proof {
                lemma_kept_resident(given, i as int + 1, now);
            }
            total = total + frames;
        } else {
            assert(without_idle(prefix, now) =~= without_idle(given.take(i as int), now));
        }
        i = i + 1;
    }
    assert(given.take(i as int) =~= given);
    loop
        invariant
            total == resident(entries@),
            given == old(entries)@,
            evicted(entries@, current@) == pruned(given, current@, now),
        decreases entries@.len(),
    {
        if total <= MAX_RESIDENT_FRAMES {
            assert(evicted(entries@, current@) == entries@);
            return;
        }
        match victim_of(entries, current) {
            Some(v) => {
                proof {
                    lemma_victim(entries@, current@);
                    lemma_resident_remove(entries@, v as int);
                }
                let gone = entries.remove(v);
                total = total - held_by(&gone);
            },
            None => {
                assert(evicted(entries@, current@) == entries@);
                return;
            },
        }
    }
}

/// Keeping the fresh entries of a prefix holds no more frames than the
/// whole.
proof fn lemma_kept_resident(s: Seq<CachedAnimation>, n: int, now: u64)
    requires
        0 <= n <= s.len(),
    ensures
        resident(without_idle(s.take(n), now)) <= resident(s),
    decreases n,
{
    if n > 0 {
        let prefix = s.take(n);
        assert(prefix.drop_last() =~= s.take(n - 1));
        lemma_kept_resident(s, n - 1, now);
        lemma_prefix_resident(s, n);
        lemma_kept_below(prefix, now);
    }
}

proof fn lemma_kept_below(s: Seq<CachedAnimation>, now: u64)
    ensures
        resident(without_idle(s, now)) <= resident(s),
    decreases s.len(),
{
    if s.len() > 0 {
        lemma_kept_below(s.drop_last(), now);
        let kept = without_idle(s.drop_last(), now);
        if !idle(s.last(), now) {
            assert((kept + seq![s.last()]).drop_last() =~= kept);
        } else {
            assert(kept + Seq::<CachedAnimation>::empty() =~= kept);
        }
    }
}

proof fn lemma_prefix_resident(s: Seq<CachedAnimation>, n: int)
    requires
        0 <= n <= s.len(),
    ensures
        resident(s.take(n)) <= resident(s),
    decreases s.len() - n,
{
    if n < s.len() {
        lemma_prefix_resident(s, n + 1);
        assert(s.take(n + 1).drop_last() =~= s.take(n));
    } else {
        assert(s.take(n) =~= s);
    }
}

proof fn lemma_without_idle(s: Seq<CachedAnimation>, now: u64)
    ensures
        forall|k: int| 0 <= k < without_idle(s, now).len() ==> !idle(#[trigger] without_idle(s, now)[k], now)
            && s.contains(without_idle(s, now)[k]),
        forall|k: int| 0 <= k < s.len() && !idle(#[trigger] s[k], now) ==> without_idle(s, now).contains(s[k]),
    decreases s.len(),
{
    if s.len() > 0 {
        let rest = s.drop_last();
        let w = without_idle(rest, now);
        lemma_without_idle(rest, now);
        let out = without_idle(s, now);
        assert forall|k: int| 0 <= k < out.len() implies !idle(#[trigger] out[k], now) && s.contains(out[k]) by {
            if k < w.len() {
                assert(out[k] == w[k]);
                let j = choose|j: int| 0 <= j < rest.len() && rest[j] == w[k];
                assert(s[j] == rest[j]);
            } else {
                assert(out[k] == s.last());
                assert(s[s.len() - 1] == s.last());
            }
        }
        assert forall|k: int| 0 <= k < s.len() && !idle(#[trigger] s[k], now) implies out.contains(s[k]) by {
            if k < rest.len() {
                assert(rest[k] == s[k]);
                let j = choose|j: int| 0 <= j < w.len() && w[j] == rest[k];
                assert(out[j] == w[j]);
            } else {
                assert(out[out.len() - 1] == s.last());
            }
        }
    }
}

proof fn lemma_evicted(s: Seq<CachedAnimation>, current: Seq<char>)
    ensures
        forall|k: int| 0 <= k < evicted(s, current).len() ==> s.contains(#[trigger] evicted(s, current)[k]),
        forall|k: int| 0 <= k < s.len() && !evictable(#[trigger] s[k], current) ==> evicted(s, current).contains(s[k]),
        resident(evicted(s, current)) <= MAX_RESIDENT_FRAMES || forall|k: int|
            0 <= k < evicted(s, current).len() ==> !evictable(#[trigger] evicted(s, current)[k], current),
    decreases s.len(),
{
    let e = evicted(s, current);
    if resident(s) <= MAX_RESIDENT_FRAMES {
        assert forall|k: int| 0 <= k < s.len() implies e.contains(#[trigger] s[k]) by {
            assert(e[k] == s[k]);
        }
        assert forall|k: int| 0 <= k < e.len() implies s.contains(#[trigger] e[k]) by {
            assert(s[k] == e[k]);
        }
    } else {
        lemma_victim(s, current);
        match victim(s, current) {
            Some(v) => {
                let smaller = s.remove(v);
                lemma_evicted(smaller, current);
                assert(e == evicted(smaller, current));
                assert forall|k: int| 0 <= k < e.len() implies s.contains(#[trigger] e[k]) by {
                    let j = choose|j: int| 0 <= j < smaller.len() && smaller[j] == e[k];
                    if j < v {
                        assert(s[j] == smaller[j]);
                    } else {
                        assert(s[j + 1] == smaller[j]);
                    }
                }
                assert forall|k: int| 0 <= k < s.len() && !evictable(#[trigger] s[k], current) implies e.contains(s[k]) by {
                    assert(k != v);
                    if k < v {
                        assert(smaller[k] == s[k]);
                    } else {
                        assert(smaller[k - 1] == s[k]);
                    }
                }
            },
            None => {
                assert forall|k: int| 0 <= k < s.len() implies e.contains(#[trigger] s[k]) by {
                    assert(e[k] == s[k]);
                }
                assert forall|k: int| 0 <= k < e.len() implies s.contains(#[trigger] e[k]) by {
                    assert(s[k] == e[k]);
                }
            },
        }
    }
}

/// What pruning keeps: nothing idle, everything being drawn or still
/// decoding, and frames within the budget unless only what cannot go is
/// left.
pub proof fn pruning_keeps_what_is_drawn(s: Seq<CachedAnimation>, current: Seq<char>, now: u64)
    ensures
        forall|k: int| 0 <= k < pruned(s, current, now).len() ==> !idle(#[trigger] pruned(s, current, now)[k], now),
        forall|k: int| 0 <= k < s.len() && !idle(#[trigger] s[k], now) && !evictable(s[k], current) ==> pruned(s, current, now).contains(s[k]),
        resident(pruned(s, current, now)) <= MAX_RESIDENT_FRAMES || forall|k: int|
            0 <= k < pruned(s, current, now).len() ==> !evictable(#[trigger] pruned(s, current, now)[k], current),
{
    let w = without_idle(s, now);
    lemma_without_idle(s, now);
    lemma_evicted(w, current);
    let p = pruned(s, current, now);
    assert forall|k: int| 0 <= k < p.len() implies !idle(#[trigger] p[k], now) by {
        let j = choose|j: int| 0 <= j < w.len() && w[j] == p[k];
        assert(!idle(w[j], now));
    }
    assert forall|k: int| 0 <= k < s.len() && !idle(#[trigger] s[k], now) && !evictable(s[k], current) implies p.contains(s[k]) by {
        let j = choose|j: int| 0 <= j < w.len() && w[j] == s[k];
        assert(!evictable(w[j], current));
    }
}

} // verus!
