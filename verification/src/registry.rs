//! A name-keyed collection that keeps its entries in the order in which they
//! were registered.  No key occurs twice.

use vstd::prelude::*;

verus! {

/// No key occurs twice among `entries`.
pub open spec fn keys_distinct<V>(entries: Seq<(Seq<char>, V)>) -> bool {
    forall|i: int, j: int|
        0 <= i < j < entries.len() ==> (#[trigger] entries[i]).0 != (#[trigger] entries[j]).0
}

/// The first entry at or after `start` that is registered under `key`.
pub open spec fn key_index_from<V>(entries: Seq<(Seq<char>, V)>, key: Seq<char>, start: int)
    -> Option<int>
    decreases entries.len() - start,
{
    if start < 0 || start >= entries.len() {
        None
    } else if entries[start].0 == key {
        Some(start)
    } else {
        key_index_from(entries, key, start + 1)
    }
}

/// The position of the entry registered under `key`.
pub open spec fn key_index<V>(entries: Seq<(Seq<char>, V)>, key: Seq<char>) -> Option<int> {
    key_index_from(entries, key, 0)
}

/// Whether an entry is registered under `key`.
pub open spec fn has_key<V>(entries: Seq<(Seq<char>, V)>, key: Seq<char>) -> bool {
    exists|i: int| 0 <= i < entries.len() && (#[trigger] entries[i]).0 == key
}

/// From `start` on, the search by position finds exactly the registered keys.
pub proof fn lemma_key_index_from<V>(entries: Seq<(Seq<char>, V)>, key: Seq<char>, start: int)
    requires
        0 <= start <= entries.len(),
    ensures
        match key_index_from(entries, key, start) {
            Some(i) => start <= i < entries.len() && entries[i].0 == key && forall|j: int|
                start <= j < i ==> (#[trigger] entries[j]).0 != key,
            None => forall|j: int| start <= j < entries.len() ==> (#[trigger] entries[j]).0 != key,
        },
    decreases entries.len() - start,
{
    if start < entries.len() && entries[start].0 != key {
        lemma_key_index_from(entries, key, start + 1);
    }
}

/// A key has a position exactly when it is registered.
pub proof fn lemma_key_index<V>(entries: Seq<(Seq<char>, V)>, key: Seq<char>)
    ensures
        key_index(entries, key).is_some() <==> has_key(entries, key),
        match key_index(entries, key) {
            Some(i) => 0 <= i < entries.len() && entries[i].0 == key,
            None => true,
        },
{
    lemma_key_index_from(entries, key, 0);
}

/// The two sequences hold the same keys at the same positions.
pub open spec fn same_keys<A, B>(a: Seq<(Seq<char>, A)>, b: Seq<(Seq<char>, B)>) -> bool {
    &&& a.len() == b.len()
    &&& forall|i: int| 0 <= i < a.len() ==> (#[trigger] a[i]).0 == b[i].0
}

/// Sequences with the same keys find every key at the same position.
pub proof fn lemma_same_keys_from<A, B>(
    a: Seq<(Seq<char>, A)>,
    b: Seq<(Seq<char>, B)>,
    key: Seq<char>,
    start: int,
)
    requires
        same_keys(a, b),
    ensures
        key_index_from(a, key, start) == key_index_from(b, key, start),
    decreases a.len() - start,
{
    if 0 <= start < a.len() && a[start].0 != key {
        lemma_same_keys_from(a, b, key, start + 1);
    }
}

/// Sequences with the same keys agree on which keys are registered, and
/// where.
pub proof fn lemma_same_keys<A, B>(a: Seq<(Seq<char>, A)>, b: Seq<(Seq<char>, B)>, key: Seq<char>)
    requires
        same_keys(a, b),
    ensures
        key_index(a, key) == key_index(b, key),
        has_key(a, key) == has_key(b, key),
        keys_distinct(a) == keys_distinct(b),
{
    lemma_same_keys_from(a, b, key, 0);
    lemma_key_index(a, key);
    lemma_key_index(b, key);
    if keys_distinct(a) {
        assert forall|i: int, j: int| 0 <= i < j < b.len() implies (#[trigger] b[i]).0 != (
        #[trigger] b[j]).0 by {
            assert(a[i].0 != a[j].0);
        }
    }
    if keys_distinct(b) {
        assert forall|i: int, j: int| 0 <= i < j < a.len() implies (#[trigger] a[i]).0 != (
        #[trigger] a[j]).0 by {
            assert(b[i].0 != b[j].0);
        }
    }
}

/// Whether `names[k]` is taken once the names before it have been
/// registered on top of `entries`: it is a key of `entries`, or it occurs
/// among those earlier names.
pub open spec fn name_taken<V>(entries: Seq<(Seq<char>, V)>, names: Seq<Seq<char>>, k: int)
    -> bool {
    has_key(entries, names[k]) || exists|j: int| 0 <= j < k && #[trigger] names[j] == names[k]
}

/// The first position at or after `start` whose name is taken; the length of
/// `names` where there is none.
pub open spec fn first_taken_from<V>(
    entries: Seq<(Seq<char>, V)>,
    names: Seq<Seq<char>>,
    start: int,
) -> int
    decreases names.len() - start,
{
    if start < 0 || start >= names.len() {
        names.len() as int
    } else if name_taken(entries, names, start) {
        start
    } else {
        first_taken_from(entries, names, start + 1)
    }
}

/// The number of names that can be registered one after the other on top of
/// `entries` before one of them is found taken.
pub open spec fn first_taken<V>(entries: Seq<(Seq<char>, V)>, names: Seq<Seq<char>>) -> int {
    first_taken_from(entries, names, 0)
}

/// The characters of each name.
pub open spec fn names_view(names: Seq<String>) -> Seq<Seq<char>> {
    Seq::new(names.len(), |i: int| names[i]@)
}

/// After the first `k` names have been registered on top of `entries`, the
/// next name is a key exactly when it is taken.
pub proof fn lemma_name_taken<V>(
    entries: Seq<(Seq<char>, V)>,
    grown: Seq<(Seq<char>, V)>,
    names: Seq<Seq<char>>,
    k: int,
)
    requires
        0 <= k < names.len(),
        grown.len() == entries.len() + k,
        forall|i: int| 0 <= i < entries.len() ==> (#[trigger] grown[i]).0 == entries[i].0,
        forall|j: int| 0 <= j < k ==> (#[trigger] grown[entries.len() + j]).0 == names[j],
    ensures
        has_key(grown, names[k]) == name_taken(entries, names, k),
{
    if has_key(grown, names[k]) {
        let i = choose|i: int| 0 <= i < grown.len() && (#[trigger] grown[i]).0 == names[k];
        if i < entries.len() {
            assert(entries[i].0 == names[k]);
        } else {
            let j = i - entries.len();
            assert(grown[entries.len() + j].0 == names[j]);
            assert(names[j] == names[k]);
        }
    }
    if has_key(entries, names[k]) {
        let i = choose|i: int| 0 <= i < entries.len() && (#[trigger] entries[i]).0 == names[k];
        assert(grown[i].0 == names[k]);
    }
    if exists|j: int| 0 <= j < k && #[trigger] names[j] == names[k] {
        let j = choose|j: int| 0 <= j < k && #[trigger] names[j] == names[k];
        assert(grown[entries.len() + j].0 == names[k]);
    }
}

/// A new entry under a free key leaves the keys distinct.
pub proof fn lemma_push_keeps_keys_distinct<V>(
    entries: Seq<(Seq<char>, V)>,
    key: Seq<char>,
    value: V,
)
    requires
        keys_distinct(entries),
        !has_key(entries, key),
    ensures
        keys_distinct(entries.push((key, value))),
{
    let grown = entries.push((key, value));
    assert forall|i: int, j: int| 0 <= i < j < grown.len() implies (#[trigger] grown[i]).0 != (
    #[trigger] grown[j]).0 by {
        assert(grown[i] == entries[i]);
        if j < entries.len() {
            assert(grown[j] == entries[j]);
        }
    }
}

/// Another value under the key of entry `i` leaves the keys distinct.
pub proof fn lemma_update_keeps_keys_distinct<V>(entries: Seq<(Seq<char>, V)>, i: int, value: V)
    requires
        keys_distinct(entries),
        0 <= i < entries.len(),
    ensures
        keys_distinct(entries.update(i, (entries[i].0, value))),
{
    let changed = entries.update(i, (entries[i].0, value));
    assert forall|a: int, b: int| 0 <= a < b < changed.len() implies (#[trigger] changed[a]).0 != (
    #[trigger] changed[b]).0 by {
        assert(changed[a].0 == entries[a].0);
        assert(changed[b].0 == entries[b].0);
    }
}

/// Entries keyed by name, in registration order.
#[derive(Debug)]
pub struct NameMap<T> {
    entries: Vec<(String, T)>,
}

impl<T> NameMap<T> {
    /// The entries, each key by its characters.
    pub closed spec fn entries(&self) -> Seq<(Seq<char>, T)> {
        Seq::new(self.entries.len() as nat, |i: int| (self.entries[i].0@, self.entries[i].1))
    }

    /// No key occurs twice.
    pub open spec fn wf(&self) -> bool {
        keys_distinct(self.entries())
    }

    /// An empty collection.
    pub fn new() -> (r: NameMap<T>)
        ensures
            r.entries() == Seq::<(Seq<char>, T)>::empty(),
            r.wf(),
    {
        let r = NameMap { entries: Vec::new() };
        assert(r.entries() =~= Seq::<(Seq<char>, T)>::empty());
        r
    }

    /// The number of entries.
    pub fn len(&self) -> (r: usize)
        ensures
            r == self.entries().len(),
    {
        self.entries.len()
    }

    /// The position of the entry registered under `key`.
    pub fn position(&self, key: &String) -> (r: Option<usize>)
        ensures
            match r {
                Some(i) => key_index(self.entries(), key@) == Some(i as int) && i
                    < self.entries().len() && self.entries()[i as int].0 == key@,
                None => key_index(self.entries(), key@).is_none() && !has_key(
                    self.entries(),
                    key@,
                ),
            },
    {
        let mut i: usize = 0;
        while i < self.entries.len()
            invariant
                i <= self.entries.len(),
                key_index(self.entries(), key@) == key_index_from(
                    self.entries(),
                    key@,
                    i as int,
                ),
            decreases self.entries.len() - i,
        {
            if self.entries[i].0 == *key {
                return Some(i);
            }
            i += 1;
        }
        proof {
            lemma_key_index(self.entries(), key@);
        }
        None
    }

    /// The key of the entry at position `i`.
    pub fn key(&self, i: usize) -> (r: &String)
        requires
            i < self.entries().len(),
        ensures
            r@ == self.entries()[i as int].0,
    {
        &self.entries[i].0
    }

    /// The value of the entry at position `i`.
    pub fn get(&self, i: usize) -> (r: &T)
        requires
            i < self.entries().len(),
        ensures
            *r == self.entries()[i as int].1,
    {
        &self.entries[i].1
    }

    /// A handle on the value of the entry at position `i`.  Whatever the
    /// caller stores through it, the key stays.
    pub fn get_mut(&mut self, i: usize) -> (r: &mut T)
        requires
            i < old(self).entries().len(),
        ensures
            *r == old(self).entries()[i as int].1,
            final(self).entries() == old(self).entries().update(
                i as int,
                (old(self).entries()[i as int].0, *final(r)),
            ),
            old(self).wf() ==> final(self).wf(),
    {
        assert forall|v: T| old(self).wf() implies keys_distinct(
            #[trigger] old(self).entries().update(i as int, (old(self).entries()[i as int].0, v)),
        ) by {
            lemma_update_keeps_keys_distinct(old(self).entries(), i as int, v);
        }
        let entry = &mut self.entries[i];
        &mut entry.1
    }

    /// Registers `value` under `key` at the end and tells the new entry's
    /// position.  Where the key is taken, nothing is changed.
    pub fn register(&mut self, key: String, value: T) -> (r: Option<usize>)
        ensures
            match r {
                Some(i) => !has_key(old(self).entries(), key@) && i == old(self).entries().len()
                    && final(self).entries() == old(self).entries().push((key@, value)),
                None => has_key(old(self).entries(), key@)
                    && final(self).entries() == old(self).entries(),
            },
            old(self).wf() ==> final(self).wf(),
    {
        if self.position(&key).is_some() {
            return None;
        }
        let at: usize = self.entries.len();
        self.entries.push((key, value));
        assert(self.entries() =~= old(self).entries().push((key@, value)));
        Some(at)
    }
}

} // verus!
