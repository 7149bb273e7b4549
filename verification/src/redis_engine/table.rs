//! Keyed tables: the container behind each keyspace.
use vstd::prelude::*;
use crate::redis_engine::util::{same_text, Text};

verus! {

/// A table from text keys to values that keeps its entries in the order in
/// which their keys first came in. No key occurs twice.
pub struct Table<V> {
    pub keys: Vec<String>,
    pub vals: Vec<V>,
}

/// Position of the first entry of `e` under key `k`.
pub open spec fn assoc_index<T>(e: Seq<(Text, T)>, k: Text) -> Option<int>
    decreases e.len(),
{
    if e.len() == 0 {
        None
    } else if e.last().0 == k && assoc_index(e.drop_last(), k) is None {
        Some(e.len() - 1)
    } else {
        assoc_index(e.drop_last(), k)
    }
}

/// The value that `e` holds under key `k`.
pub open spec fn assoc_get<T>(e: Seq<(Text, T)>, k: Text) -> Option<T> {
    match assoc_index(e, k) {
        Some(i) => Some(e[i].1),
        None => None,
    }
}

/// `e` with `v` under key `k`: in the place of the old value where `k` was
/// present, as a new last entry where it was not.
pub open spec fn assoc_put<T>(e: Seq<(Text, T)>, k: Text, v: T) -> Seq<(Text, T)> {
    match assoc_index(e, k) {
        Some(i) => e.update(i, (k, v)),
        None => e.push((k, v)),
    }
}

/// `e` without its entry under key `k`.
pub open spec fn assoc_del<T>(e: Seq<(Text, T)>, k: Text) -> Seq<(Text, T)> {
    match assoc_index(e, k) {
        Some(i) => e.remove(i),
        None => e,
    }
}

/// Whether no key occurs twice in `e`.
pub open spec fn assoc_distinct<T>(e: Seq<(Text, T)>) -> bool {
    forall|i: int, j: int| 0 <= i < j < e.len() ==> (#[trigger] e[i]).0 != (#[trigger] e[j]).0
}

/// `assoc_index` finds the first position that holds the key, and none
/// where no position holds it.
pub proof fn lemma_assoc_index<T>(e: Seq<(Text, T)>, k: Text)
    ensures
        match assoc_index(e, k) {
            Some(i) => 0 <= i < e.len() && e[i].0 == k && forall|j: int|
                0 <= j < i ==> (#[trigger] e[j]).0 != k,
            None => forall|j: int| 0 <= j < e.len() ==> (#[trigger] e[j]).0 != k,
        },
    decreases e.len(),
{
    if e.len() > 0 {
        let front = e.drop_last();
        lemma_assoc_index(front, k);
        assert forall|j: int| 0 <= j < front.len() implies front[j] == e[j] by {}
        match assoc_index(front, k) {
            Some(i) => {
                assert(front[i] == e[i]);
                assert forall|j: int| 0 <= j < i implies (#[trigger] e[j]).0 != k by {
                    assert(front[j] == e[j]);
                }
            },
            None => {
                assert forall|j: int| 0 <= j < e.len() - 1 implies (#[trigger] e[j]).0 != k by {
                    assert(front[j] == e[j]);
                }
            },
        }
    }
}

/// A position that holds the key, with no earlier one that does, is what
/// `assoc_index` finds.
pub proof fn lemma_assoc_index_is<T>(e: Seq<(Text, T)>, k: Text, i: int)
    requires
        0 <= i < e.len(),
        e[i].0 == k,
        forall|j: int| 0 <= j < i ==> (#[trigger] e[j]).0 != k,
    ensures
        assoc_index(e, k) == Some(i),
{
    lemma_assoc_index(e, k);
}

/// Where no position holds the key, `assoc_index` finds none.
pub proof fn lemma_assoc_index_none<T>(e: Seq<(Text, T)>, k: Text)
    requires
        forall|j: int| 0 <= j < e.len() ==> (#[trigger] e[j]).0 != k,
    ensures
        assoc_index(e, k) is None,
{
    lemma_assoc_index(e, k);
}

/// A key holds what was last put under it.
pub proof fn lemma_get_after_put<T>(e: Seq<(Text, T)>, k: Text, v: T)
    ensures
        assoc_get(assoc_put(e, k, v), k) == Some(v),
{
    lemma_assoc_index(e, k);
    let after = assoc_put(e, k, v);
    match assoc_index(e, k) {
        Some(i) => {
            assert forall|j: int| 0 <= j < i implies (#[trigger] after[j]).0 != k by {
                assert(after[j] == e[j]);
            }
            lemma_assoc_index_is(after, k, i);
        },
        None => {
            assert forall|j: int| 0 <= j < e.len() implies (#[trigger] after[j]).0 != k by {
                assert(after[j] == e[j]);
            }
            lemma_assoc_index_is(after, k, e.len() as int);
        },
    }
}

/// Putting a value under one key changes nothing under another.
pub proof fn lemma_get_other_after_put<T>(e: Seq<(Text, T)>, k: Text, v: T, other: Text)
    requires
        other != k,
    ensures
        assoc_get(assoc_put(e, k, v), other) == assoc_get(e, other),
{
    lemma_assoc_index(e, k);
    lemma_assoc_index(e, other);
    let after = assoc_put(e, k, v);
    assert forall|j: int| 0 <= j < e.len() implies (#[trigger] after[j]).0 == e[j].0 by {}
    match assoc_index(e, other) {
        Some(i) => {
            assert forall|j: int| 0 <= j < i implies (#[trigger] after[j]).0 != other by {
                assert(after[j].0 == e[j].0);
            }
            assert(after[i] == e[i]);
            lemma_assoc_index_is(after, other, i);
        },
        None => {
            assert forall|j: int| 0 <= j < after.len() implies (#[trigger] after[j]).0
                != other by {
                if j < e.len() {
                    assert(after[j].0 == e[j].0);
                }
            }
            lemma_assoc_index_none(after, other);
        },
    }
}

/// A key that was taken out holds nothing, where no key occurs twice.
pub proof fn lemma_get_after_del<T>(e: Seq<(Text, T)>, k: Text)
    requires
        assoc_distinct(e),
    ensures
        assoc_get(assoc_del(e, k), k) is None,
{
    lemma_assoc_index(e, k);
    let after = assoc_del(e, k);
    match assoc_index(e, k) {
        Some(i) => {
            assert forall|j: int| 0 <= j < after.len() implies (#[trigger] after[j]).0 != k by {
                if j < i {
                    assert(after[j] == e[j]);
                } else {
                    assert(after[j] == e[j + 1]);
                    assert(e[i].0 != e[j + 1].0);
                }
            }
            lemma_assoc_index_none(after, k);
        },
        None => {},
    }
}

/// Taking one key out changes nothing under another.
pub proof fn law_get_other_after_del<T>(e: Seq<(Text, T)>, k: Text, other: Text)
    requires
        other != k,
    ensures
        assoc_get(assoc_del(e, k), other) == assoc_get(e, other),
{
    lemma_assoc_index(e, k);
    lemma_assoc_index(e, other);
    let after = assoc_del(e, k);
    match assoc_index(e, k) {
        Some(i) => {
            match assoc_index(e, other) {
                Some(o) => {
                    let at = if o < i {
                        o
                    } else {
                        o - 1
                    };
                    assert(after[at] == e[o]);
                    assert forall|j: int| 0 <= j < at implies (#[trigger] after[j]).0
                        != other by {
                        if j < i {
                            assert(after[j] == e[j]);
                        } else {
                            assert(after[j] == e[j + 1]);
                        }
                    }
                    lemma_assoc_index_is(after, other, at);
                },
                None => {
                    assert forall|j: int| 0 <= j < after.len() implies (#[trigger] after[j]).0
                        != other by {
                        if j < i {
                            assert(after[j] == e[j]);
                        } else {
                            assert(after[j] == e[j + 1]);
                        }
                    }
                    lemma_assoc_index_none(after, other);
                },
            }
        },
        None => {},
    }
}

/// Putting a value under a key and taking a key out keep the keys distinct.
pub proof fn law_distinct_kept<T>(e: Seq<(Text, T)>, k: Text, v: T)
    requires
        assoc_distinct(e),
    ensures
        assoc_distinct(assoc_put(e, k, v)),
        assoc_distinct(assoc_del(e, k)),
{
    lemma_assoc_index(e, k);
    let put = assoc_put(e, k, v);
    assert forall|i: int, j: int| 0 <= i < j < put.len() implies #[trigger] put[i].0
        != #[trigger] put[j].0 by {
        if j < e.len() {
            assert(put[i].0 == e[i].0 && put[j].0 == e[j].0);
        } else {
            assert(put[i].0 == e[i].0);
        }
    }
    let del = assoc_del(e, k);
    match assoc_index(e, k) {
        Some(at) => {
            assert forall|i: int, j: int| 0 <= i < j < del.len() implies #[trigger] del[i].0
                != #[trigger] del[j].0 by {
                let i0 = if i < at {
                    i
                } else {
                    i + 1
                };
                let j0 = if j < at {
                    j
                } else {
                    j + 1
                };
                assert(del[i] == e[i0] && del[j] == e[j0]);
            }
        },
        None => {},
    }
}

/// The entries with each value changed by `f`, under the same keys.
pub open spec fn assoc_map<A, B>(e: Seq<(Text, A)>, f: spec_fn(A) -> B) -> Seq<(Text, B)> {
    Seq::new(e.len(), |i: int| (e[i].0, f(e[i].1)))
}

/// Whether two sequences of entries hold the same value under every key.
pub open spec fn same_lookup<T>(a: Seq<(Text, T)>, b: Seq<(Text, T)>) -> bool {
    forall|k: Text| assoc_get(a, k) == assoc_get(b, k)
}

/// Changing each value by `f` changes what a key holds by `f`.
pub proof fn lemma_get_mapped<A, B>(e: Seq<(Text, A)>, f: spec_fn(A) -> B, k: Text)
    ensures
        assoc_get(assoc_map(e, f), k) == match assoc_get(e, k) {
            Some(v) => Some(f(v)),
            None => None,
        },
{
    let mapped = assoc_map(e, f);
    lemma_assoc_index(e, k);
    match assoc_index(e, k) {
        Some(i) => {
            assert forall|j: int| 0 <= j < i implies (#[trigger] mapped[j]).0 != k by {
                assert(mapped[j].0 == e[j].0);
            }
            lemma_assoc_index_is(mapped, k, i);
        },
        None => {
            assert forall|j: int| 0 <= j < mapped.len() implies (#[trigger] mapped[j]).0 != k by {
                assert(mapped[j].0 == e[j].0);
            }
            lemma_assoc_index_none(mapped, k);
        },
    }
}

/// Where no key occurs twice, each entry is what its key holds.
pub proof fn lemma_get_entry<T>(e: Seq<(Text, T)>, i: int)
    requires
        assoc_distinct(e),
        0 <= i < e.len(),
    ensures
        assoc_get(e, e[i].0) == Some(e[i].1),
{
    assert forall|j: int| 0 <= j < i implies (#[trigger] e[j]).0 != e[i].0 by {}
    lemma_assoc_index_is(e, e[i].0, i);
}

impl<V: DeepView> DeepView for Table<V> {
    type V = Seq<(Text, V::V)>;

    open spec fn deep_view(&self) -> Seq<(Text, V::V)> {
        Seq::new(self.keys.len() as nat, |i: int| (self.keys[i]@, self.vals[i].deep_view()))
    }
}

impl<V: DeepView> Table<V> {
    /// The invariant of a table: one value for each key, and no key twice.
    pub open spec fn wf(&self) -> bool {
        &&& self.keys.len() == self.vals.len()
        &&& forall|i: int, j: int|
            0 <= i < j < self.keys.len() ==> (#[trigger] self.keys[i])@ != (#[trigger] self.keys[j])@
    }

    /// The entries of a well-formed table hold no key twice.
    pub proof fn lemma_distinct(&self)
        requires
            self.wf(),
        ensures
            assoc_distinct(self.deep_view()),
    {
    }

    /// An empty table.
    pub fn new() -> (t: Self)
        ensures
            t.wf(),
            t.deep_view() == Seq::<(Text, V::V)>::empty(),
            t.keys@ == Seq::<String>::empty(),
            t.vals@ == Seq::<V>::empty(),
    {
        let t = Table { keys: Vec::new(), vals: Vec::new() };
        assert(t.deep_view() =~= Seq::<(Text, V::V)>::empty());
        t
    }

    /// The number of entries.
    pub fn len(&self) -> (n: usize)
        ensures
            n == self.deep_view().len(),
    {
        self.keys.len()
    }

    /// Tests the invariant of the table.
    pub fn is_well_formed(&self) -> (good: bool)
        ensures
            good == self.wf(),
    {
        if self.keys.len() != self.vals.len() {
            return false;
        }
        let mut j: usize = 0;
        while j < self.keys.len()
            invariant
                j <= self.keys.len(),
                self.keys.len() == self.vals.len(),
                forall|a: int, b: int|
                    0 <= a < b < j ==> (#[trigger] self.keys[a])@ != (#[trigger] self.keys[b])@,
            decreases self.keys.len() - j,
        {
            let mut i: usize = 0;
            while i < j
                invariant
                    i <= j < self.keys.len(),
                    forall|a: int| 0 <= a < i ==> (#[trigger] self.keys[a])@ != self.keys[j as int]@,
                decreases j - i,
            {
                if same_text(self.keys[i].as_str(), self.keys[j].as_str()) {
                    return false;
                }
                i += 1;
            }
            j += 1;
        }
        true
    }

    /// Where the entry of `key` stands.
    pub fn position(&self, key: &str) -> (at: Option<usize>)
        requires
            self.wf(),
        ensures
            match at {
                Some(i) => i < self.keys.len() && self.keys[i as int]@ == key@ && assoc_index(
                    self.deep_view(),
                    key@,
                ) == Some(i as int),
                None => assoc_index(self.deep_view(), key@) is None,
            },
    {
        let mut i: usize = 0;
        while i < self.keys.len()
            invariant
                i <= self.keys.len(),
                forall|j: int| 0 <= j < i ==> self.keys[j]@ != key@,
            decreases self.keys.len() - i,
        {
            if same_text(self.keys[i].as_str(), key) {
                proof {
                    lemma_assoc_index_is(self.deep_view(), key@, i as int);
                }
                return Some(i);
            }
            i += 1;
        }
        proof {
            lemma_assoc_index_none(self.deep_view(), key@);
        }
        None
    }

    /// Whether `key` has an entry.
    pub fn contains_key(&self, key: &str) -> (present: bool)
        requires
            self.wf(),
        ensures
            present == assoc_get(self.deep_view(), key@).is_some(),
    {
        self.position(key).is_some()
    }

    /// The value under `key`.
    pub fn get(&self, key: &str) -> (found: Option<&V>)
        requires
            self.wf(),
        ensures
            match found {
                Some(v) => assoc_get(self.deep_view(), key@) == Some(v.deep_view()),
                None => assoc_get(self.deep_view(), key@) is None,
            },
    {
        match self.position(key) {
            Some(i) => Some(&self.vals[i]),
            None => None,
        }
    }

    /// Puts `val` under `key` and says whether the key is new.
    pub fn insert(&mut self, key: String, val: V) -> (fresh: bool)
        requires
            old(self).wf(),
        ensures
            final(self).wf(),
            final(self).deep_view() == assoc_put(old(self).deep_view(), key@, val.deep_view()),
            fresh == assoc_get(old(self).deep_view(), key@).is_none(),
            forall|j: int|
                0 <= j < final(self).vals.len() ==> (#[trigger] final(self).vals[j]) == val || (j
                    < old(self).vals.len() && final(self).vals[j] == old(self).vals[j]),
    {
        let ghost before = self.deep_view();
        match self.position(key.as_str()) {
            Some(i) => {
                self.vals[i] = val;
                assert(self.deep_view() =~= before.update(i as int, (key@, val.deep_view())));
                false
            },
            None => {
                proof {
                    lemma_assoc_index(before, key@);
                    assert forall|j: int| 0 <= j < self.keys.len() implies self.keys[j]@
                        != key@ by {
                        assert(before[j].0 == self.keys[j]@);
                    }
                }
                self.keys.push(key);
                self.vals.push(val);
                assert(self.deep_view() =~= before.push((key@, val.deep_view())));
                true
            },
        }
    }

    /// Takes the entry of `key` out and hands back its value.
    pub fn remove(&mut self, key: &str) -> (taken: Option<V>)
        requires
            old(self).wf(),
        ensures
            final(self).wf(),
            final(self).deep_view() == assoc_del(old(self).deep_view(), key@),
            forall|j: int|
                0 <= j < final(self).vals.len() ==> old(self).vals@.contains(
                    #[trigger] final(self).vals[j],
                ),
            match taken {
                Some(v) => assoc_get(old(self).deep_view(), key@) == Some(v.deep_view()),
                None => assoc_get(old(self).deep_view(), key@) is None,
            },
    {
        let ghost before = self.deep_view();
        match self.position(key) {
            Some(i) => {
                let _ = self.keys.remove(i);
                let ghost old_vals = self.vals@;
                let v = self.vals.remove(i);
                assert(self.deep_view() =~= before.remove(i as int));
                assert forall|j: int| 0 <= j < self.vals.len() implies old_vals.contains(
                    #[trigger] self.vals[j],
                ) by {
                    if j < i {
                        assert(old_vals[j] == self.vals[j]);
                    } else {
                        assert(old_vals[j + 1] == self.vals[j]);
                    }
                }
                Some(v)
            },
            None => None,
        }
    }
}

} // verus!
