//! A small map from text keys to values, kept as a list of entries.
//!
//! The app keeps its per-chat and per-person state in these: contacts by
//! id, a conversation per chat, a draft per chat. Lists of this size are
//! walked faster than they are hashed, and a list keeps the proofs about
//! lookups and updates short.

use vstd::prelude::*;

verus! {

/// The map a list of entries stands for: each key to the value of its
/// last entry.
pub open spec fn entries_map<V>(entries: Seq<(String, V)>) -> Map<Seq<char>, V>
    decreases entries.len(),
{
    if entries.len() == 0 {
        Map::empty()
    } else {
        entries_map(entries.drop_last()).insert(entries.last().0@, entries.last().1)
    }
}

/// No two entries share a key.
pub open spec fn distinct_keys<V>(entries: Seq<(String, V)>) -> bool {
    forall|i: int, j: int|
        0 <= i < entries.len() && 0 <= j < entries.len() && i != j ==> (#[trigger] entries[i]).0@
            != (#[trigger] entries[j]).0@
}

/// The position of the entry with a key, or the length when none has it.
pub open spec fn key_position<V>(entries: Seq<(String, V)>, key: Seq<char>) -> int
    decreases entries.len(),
{
    if entries.len() == 0 {
        0
    } else if entries[0].0@ == key {
        0
    } else {
        1 + key_position(entries.drop_first(), key)
    }
}

proof fn lemma_key_position<V>(entries: Seq<(String, V)>, key: Seq<char>)
    ensures
        0 <= key_position(entries, key) <= entries.len(),
        key_position(entries, key) < entries.len() ==> entries[key_position(entries, key)].0@
            == key,
        forall|k: int| 0 <= k < key_position(entries, key) ==> (#[trigger] entries[k]).0@ != key,
    decreases entries.len(),
{
    if entries.len() > 0 && entries[0].0@ != key {
        lemma_key_position(entries.drop_first(), key);
        assert forall|k: int| 0 <= k < key_position(entries, key) implies (
        #[trigger] entries[k]).0@ != key by {
            if k > 0 {
                assert(entries[k] == entries.drop_first()[k - 1]);
            }
        }
    }
}

proof fn lemma_key_position_is<V>(entries: Seq<(String, V)>, key: Seq<char>, j: int)
    requires
        0 <= j <= entries.len(),
        forall|k: int| 0 <= k < j ==> (#[trigger] entries[k]).0@ != key,
        j < entries.len() ==> entries[j].0@ == key,
    ensures
        key_position(entries, key) == j,
    decreases j,
{
    if j > 0 {
        assert forall|k: int| 0 <= k < j - 1 implies (#[trigger] entries.drop_first()[k]).0@
            != key by {
            assert(entries.drop_first()[k] == entries[k + 1]);
        }
        lemma_key_position_is(entries.drop_first(), key, j - 1);
    }
}

/// Some entry has this key.
pub open spec fn has_key<V>(entries: Seq<(String, V)>, key: Seq<char>) -> bool {
    exists|i: int| 0 <= i < entries.len() && (#[trigger] entries[i]).0@ == key
}

/// A key is in the map exactly when some entry has it, and then the map
/// holds that entry's value.
proof fn lemma_entries_map<V>(entries: Seq<(String, V)>)
    requires
        distinct_keys(entries),
    ensures
        forall|key: Seq<char>| #[trigger]
            entries_map(entries).contains_key(key) == has_key(entries, key),
        forall|i: int|
            0 <= i < entries.len() ==> #[trigger] entries_map(entries)[entries[i].0@]
                == entries[i].1,
    decreases entries.len(),
{
    if entries.len() > 0 {
        let init = entries.drop_last();
        assert forall|i: int, j: int|
            0 <= i < init.len() && 0 <= j < init.len() && i != j implies (#[trigger] init[i]).0@
            != (#[trigger] init[j]).0@ by {
            assert(init[i] == entries[i] && init[j] == entries[j]);
        }
        lemma_entries_map(init);
        let last = entries.last();
        assert(entries_map(entries) == entries_map(init).insert(last.0@, last.1));
        assert forall|key: Seq<char>| #[trigger]
            entries_map(entries).contains_key(key) == has_key(entries, key) by {
            if key == last.0@ {
                assert(entries[entries.len() - 1].0@ == key);
            } else {
                if entries_map(init).contains_key(key) {
                    assert(has_key(init, key));
                    let i = choose|i: int| 0 <= i < init.len() && (#[trigger] init[i]).0@ == key;
                    assert(entries[i] == init[i]);
                }
                if has_key(entries, key) {
                    let i = choose|i: int| 0 <= i < entries.len() && (#[trigger] entries[i]).0@
                        == key;
                    assert(i < init.len());
                    assert(init[i] == entries[i]);
                    assert(has_key(init, key));
                    assert(entries_map(init).contains_key(key));
                }
            }
        }
        assert forall|i: int| 0 <= i < entries.len() implies #[trigger] entries_map(
            entries,
        )[entries[i].0@] == entries[i].1 by {
            if i < init.len() {
                assert(init[i] == entries[i]);
                assert(entries[i].0@ != last.0@);
                assert(entries_map(init)[init[i].0@] == init[i].1);
            }
        }
    }
}

proof fn lemma_distinct_update<V>(entries: Seq<(String, V)>, i: int, entry: (String, V))
    requires
        distinct_keys(entries),
        0 <= i < entries.len(),
        entry.0@ == entries[i].0@,
    ensures
        distinct_keys(entries.update(i, entry)),
        entries_map(entries.update(i, entry)) == entries_map(entries).insert(entry.0@, entry.1),
{
    let r = entries.update(i, entry);
    assert forall|a: int, b: int|
        0 <= a < r.len() && 0 <= b < r.len() && a != b implies (#[trigger] r[a]).0@ != (
    #[trigger] r[b]).0@ by {
        assert(r[a].0@ == entries[a].0@);
        assert(r[b].0@ == entries[b].0@);
    }
    lemma_entries_map(entries);
    lemma_entries_map(r);
    let expected = entries_map(entries).insert(entry.0@, entry.1);
    assert forall|key: Seq<char>| #[trigger] entries_map(r).contains_key(key) <==> expected.contains_key(key) by {
        if expected.contains_key(key) && key != entry.0@ {
            let k = choose|k: int| 0 <= k < entries.len() && (#[trigger] entries[k]).0@ == key;
            assert(r[k].0@ == key);
        }
        if entries_map(r).contains_key(key) {
            let k = choose|k: int| 0 <= k < r.len() && (#[trigger] r[k]).0@ == key;
            assert(entries[k].0@ == key);
        }
        if key == entry.0@ {
            assert(r[i].0@ == key);
        }
    }
    assert forall|key: Seq<char>| #[trigger] entries_map(r).contains_key(key) implies entries_map(
        r,
    )[key] == expected[key] by {
        let k = choose|k: int| 0 <= k < r.len() && (#[trigger] r[k]).0@ == key;
        assert(entries_map(r)[r[k].0@] == r[k].1);
        if k != i {
            assert(entries_map(entries)[entries[k].0@] == entries[k].1);
        }
    }
    assert(entries_map(r) =~= expected);
}

proof fn lemma_distinct_push<V>(entries: Seq<(String, V)>, entry: (String, V))
    requires
        distinct_keys(entries),
        !entries_map(entries).contains_key(entry.0@),
    ensures
        distinct_keys(entries.push(entry)),
{
    lemma_entries_map(entries);
    let r = entries.push(entry);
    assert forall|a: int, b: int|
        0 <= a < r.len() && 0 <= b < r.len() && a != b implies (#[trigger] r[a]).0@ != (
    #[trigger] r[b]).0@ by {
        if a < entries.len() && b < entries.len() {
            assert(r[a] == entries[a] && r[b] == entries[b]);
        } else if a < entries.len() {
            assert(r[a] == entries[a]);
        } else {
            assert(r[b] == entries[b]);
        }
    }
}

proof fn lemma_distinct_remove<V>(entries: Seq<(String, V)>, i: int)
    requires
        distinct_keys(entries),
        0 <= i < entries.len(),
    ensures
        distinct_keys(entries.remove(i)),
        entries_map(entries.remove(i)) == entries_map(entries).remove(entries[i].0@),
{
    let r = entries.remove(i);
    let key = entries[i].0@;
    assert forall|a: int, b: int|
        0 <= a < r.len() && 0 <= b < r.len() && a != b implies (#[trigger] r[a]).0@ != (
    #[trigger] r[b]).0@ by {
        let a2 = if a < i { a } else { a + 1 };
        let b2 = if b < i { b } else { b + 1 };
        assert(r[a] == entries[a2] && r[b] == entries[b2]);
    }
    lemma_entries_map(entries);
    lemma_entries_map(r);
    let expected = entries_map(entries).remove(key);
    assert forall|k: Seq<char>| #[trigger] entries_map(r).contains_key(k) <==> expected.contains_key(k) by {
        if entries_map(r).contains_key(k) {
            let a = choose|a: int| 0 <= a < r.len() && (#[trigger] r[a]).0@ == k;
            let a2 = if a < i { a } else { a + 1 };
            assert(r[a] == entries[a2]);
        }
        if expected.contains_key(k) {
            let a = choose|a: int| 0 <= a < entries.len() && (#[trigger] entries[a]).0@ == k;
            assert(a != i);
            let a2 = if a < i { a } else { a - 1 };
            assert(r[a2] == entries[a]);
        }
    }
    assert forall|k: Seq<char>| #[trigger] entries_map(r).contains_key(k) implies entries_map(
        r,
    )[k] == expected[k] by {
        let a = choose|a: int| 0 <= a < r.len() && (#[trigger] r[a]).0@ == k;
        let a2 = if a < i { a } else { a + 1 };
        assert(r[a] == entries[a2]);
        assert(entries_map(r)[r[a].0@] == r[a].1);
        assert(entries_map(entries)[entries[a2].0@] == entries[a2].1);
    }
    assert(entries_map(r) =~= expected);
}

/// A map from text keys to values.
pub struct Table<V> {
    entries: Vec<(String, V)>,
}

impl<V> View for Table<V> {
    type V = Map<Seq<char>, V>;

    closed spec fn view(&self) -> Map<Seq<char>, V> {
        entries_map(self.entries@)
    }
}

impl<V> Table<V> {
    #[verifier::type_invariant]
    closed spec fn keys_are_distinct(self) -> bool {
        distinct_keys(self.entries@)
    }

    /// An empty table.
    pub fn new() -> (t: Self)
        ensures
            t@ == Map::<Seq<char>, V>::empty(),
    {
        Table { entries: Vec::new() }
    }

    /// Where the entry with this key is, or the length.
    fn position(&self, key: &str) -> (r: usize)
        ensures
            r == key_position(self.entries@, key@),
    {
        let target = String::from_str(key);
        let mut i: usize = 0;
        while i < self.entries.len()
            invariant
                target@ == key@,
                i <= self.entries@.len(),
                forall|k: int| 0 <= k < i ==> (#[trigger] self.entries@[k]).0@ != key@,
            decreases self.entries@.len() - i,
        {
            if self.entries[i].0 == target {
                proof {
                    lemma_key_position_is(self.entries@, key@, i as int);
                }
                return i;
            }
            i = i + 1;
        }
        proof {
            lemma_key_position_is(self.entries@, key@, i as int);
        }
        i
    }

    /// Whether a key has a value.
    pub fn contains_key(&self, key: &str) -> (r: bool)
        ensures
            r == self@.contains_key(key@),
    {
        proof {
            use_type_invariant(self);
            lemma_key_position(self.entries@, key@);
            lemma_entries_map(self.entries@);
        }
        self.position(key) < self.entries.len()
    }

    /// The value of a key.
    pub fn get(&self, key: &str) -> (r: Option<&V>)
        ensures
            r matches Some(v) ==> self@.contains_key(key@) && self@[key@] == *v,
            r is None ==> !self@.contains_key(key@),
    {
        proof {
            use_type_invariant(self);
            lemma_key_position(self.entries@, key@);
            lemma_entries_map(self.entries@);
        }
        let i = self.position(key);
        if i < self.entries.len() {
            Some(&self.entries[i].1)
        } else {
            None
        }
    }

    /// Sets the value of a key, in place of any it had.
    pub fn insert(&mut self, key: String, value: V)
        ensures
            final(self)@ == old(self)@.insert(key@, value),
    {
        proof {
            use_type_invariant(&*self);
            lemma_key_position(self.entries@, key@);
            lemma_entries_map(self.entries@);
        }
        let i = self.position(key.as_str());
        let mut entries: Vec<(String, V)> = Vec::new();
        std::mem::swap(&mut entries, &mut self.entries);
        let ghost before = entries@;
        if i < entries.len() {
            proof {
                lemma_distinct_update(before, i as int, (key, value));
            }
            entries.set(i, (key, value));
        } else {
            proof {
                lemma_distinct_push(before, (key, value));
                assert(before.push((key, value)).drop_last() =~= before);
            }
            entries.push((key, value));
        }
        self.entries = entries;
    }

    /// Takes a key and its value out.
    pub fn remove(&mut self, key: &str) -> (r: Option<V>)
        ensures
            final(self)@ == old(self)@.remove(key@),
            r matches Some(v) ==> old(self)@.contains_key(key@) && old(self)@[key@] == v,
            r is None ==> !old(self)@.contains_key(key@) && *final(self) == *old(self),
    {
        proof {
            use_type_invariant(&*self);
            lemma_key_position(self.entries@, key@);
            lemma_entries_map(self.entries@);
        }
        let i = self.position(key);
        if i < self.entries.len() {
            let mut entries: Vec<(String, V)> = Vec::new();
            std::mem::swap(&mut entries, &mut self.entries);
            let ghost before = entries@;
            proof {
                lemma_distinct_remove(before, i as int);
            }
            let (_, value) = entries.remove(i);
            self.entries = entries;
            Some(value)
        } else {
            assert(old(self)@.remove(key@) =~= old(self)@);
            None
        }
    }

    /// Empties the table.
    pub fn clear(&mut self)
        ensures
            final(self)@ == Map::<Seq<char>, V>::empty(),
    {
        self.entries = Vec::new();
    }
    /// The keys, each once, in no promised order.
    pub fn keys(&self) -> (r: Vec<String>)
        ensures
            forall|key: Seq<char>|
                self@.contains_key(key) <==> exists|i: int|
                    0 <= i < r@.len() && (#[trigger] r@[i])@ == key,
            forall|i: int, j: int|
                0 <= i < r@.len() && 0 <= j < r@.len() && i != j ==> (#[trigger] r@[i])@ != (
                #[trigger] r@[j])@,
    {
        proof {
            use_type_invariant(self);
            lemma_entries_map(self.entries@);
        }
        let mut out: Vec<String> = Vec::new();
        let mut i: usize = 0;
        while i < self.entries.len()
            invariant
                i <= self.entries@.len(),
                distinct_keys(self.entries@),
                out@.len() == i,
                forall|k: int| 0 <= k < i ==> (#[trigger] out@[k])@ == self.entries@[k].0@,
            decreases self.entries@.len() - i,
        {
            out.push(self.entries[i].0.clone());
            i = i + 1;
        }
        proof {
            assert forall|key: Seq<char>| self@.contains_key(key) <==> exists|i: int|
                0 <= i < out@.len() && (#[trigger] out@[i])@ == key by {
                if self@.contains_key(key) {
                    assert(has_key(self.entries@, key));
                    let k = choose|k: int|
                        0 <= k < self.entries@.len() && (#[trigger] self.entries@[k]).0@ == key;
                    assert(out@[k]@ == key);
                }
                if exists|i: int| 0 <= i < out@.len() && (#[trigger] out@[i])@ == key {
                    let k = choose|k: int| 0 <= k < out@.len() && (#[trigger] out@[k])@ == key;
                    assert(self.entries@[k].0@ == key);
                    assert(has_key(self.entries@, key));
                }
            }
            assert forall|a: int, b: int|
                0 <= a < out@.len() && 0 <= b < out@.len() && a != b implies (#[trigger] out@[a])@
                != (#[trigger] out@[b])@ by {
                assert(out@[a]@ == self.entries@[a].0@);
                assert(out@[b]@ == self.entries@[b].0@);
            }
        }
        out
    }
}

} // verus!
