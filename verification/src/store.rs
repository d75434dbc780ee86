use vstd::prelude::*;

use crate::value::Value;
use crate::value::ValueModel;

verus! {

/// Why a compare-and-swap was refused.
pub enum CasError {
    /// The key is not present in the store.
    KeyNotFound,
    /// The key is present but its current value differs from the expected one.
    PreconditionFailed,
}

/// The outcome a compare-and-swap decides for store `m`, key `k` and
/// expected value `e`: applied when the key is present with exactly `e`,
/// otherwise refused for the reason given.
pub enum CasOutcome {
    Applied,
    KeyMissing,
    ValueMismatch,
}

/// What a compare-and-swap on store `m` decides.
pub open spec fn cas_outcome(m: Map<ValueModel, ValueModel>, k: ValueModel, e: ValueModel) -> CasOutcome {
    if !m.contains_key(k) {
        CasOutcome::KeyMissing
    } else if m[k] == e {
        CasOutcome::Applied
    } else {
        CasOutcome::ValueMismatch
    }
}

/// The store a compare-and-swap leaves behind: updated exactly when applied.
pub open spec fn cas_result(
    m: Map<ValueModel, ValueModel>,
    k: ValueModel,
    e: ValueModel,
    n: ValueModel,
) -> Map<ValueModel, ValueModel> {
    if cas_outcome(m, k, e) is Applied {
        m.insert(k, n)
    } else {
        m
    }
}

/// What a read of key `k` resolves to: the stored value, or the null
/// sentinel when the key is absent. Absence is not an error.
pub open spec fn read_result(m: Map<ValueModel, ValueModel>, k: ValueModel) -> ValueModel {
    if m.contains_key(k) {
        m[k]
    } else {
        ValueModel::Null
    }
}

/// Whether some entry of `s` has key model `k`.
spec fn seq_has_key(s: Seq<(Value, Value)>, k: ValueModel) -> bool {
    exists|i: int| 0 <= i < s.len() && s[i].0@ == k
}

/// The index of an entry of `s` with key model `k`.
spec fn seq_key_index(s: Seq<(Value, Value)>, k: ValueModel) -> int {
    choose|i: int| 0 <= i < s.len() && s[i].0@ == k
}

/// The finite map an entry sequence denotes.
spec fn seq_as_map(s: Seq<(Value, Value)>) -> Map<ValueModel, ValueModel> {
    Map::new(|k: ValueModel| seq_has_key(s, k), |k: ValueModel| s[seq_key_index(s, k)].1@)
}

/// Keys of `s` are pairwise distinct, so each key denotes at most one entry.
spec fn unique_keys(s: Seq<(Value, Value)>) -> bool {
    forall|i: int, j: int| 0 <= i < j < s.len() ==> s[i].0@ != s[j].0@
}

/// The in-memory key-value store: a mapping from keys to values, modelled as
/// a finite map from key models to value models.
pub struct KvStore {
    entries: Vec<(Value, Value)>,
}

impl View for KvStore {
    type V = Map<ValueModel, ValueModel>;

    closed spec fn view(&self) -> Map<ValueModel, ValueModel> {
        seq_as_map(self.entries@)
    }
}

impl KvStore {
    /// Internal well-formedness: entry keys are pairwise distinct.
    pub closed spec fn wf(self) -> bool {
        unique_keys(self.entries@)
    }

    /// An empty store.
    pub fn new() -> (s: KvStore)
        ensures
            s.wf(),
            s@ == Map::<ValueModel, ValueModel>::empty(),
    {
        let s = KvStore { entries: Vec::new() };
        proof {
            assert(s@ =~= Map::<ValueModel, ValueModel>::empty());
        }
        s
    }

    /// The index of the entry holding `key`, if one does.
    fn find_index(&self, key: &Value) -> (r: Option<usize>)
        ensures
            match r {
                Some(i) => i < self.entries@.len() && self.entries@[i as int].0@ == key@,
                None => !seq_has_key(self.entries@, key@),
            },
    {
        let n = self.entries.len();
        let mut i: usize = 0;
        while i < n
            invariant
                n == self.entries@.len(),
                i <= n,
                forall|j: int| 0 <= j < i ==> self.entries@[j].0@ != key@,
            decreases n - i,
        {
            if self.entries[i].0.equals(key) {
                return Some(i);
            }
            i += 1;
        }
        None
    }

    /// The current value under `key`, or nothing; absence is not an error.
    pub fn get<'a>(&'a self, key: &Value) -> (r: Option<&'a Value>)
        requires
            self.wf(),
        ensures
            match r {
                Some(v) => self@.contains_key(key@) && v@ == self@[key@],
                None => !self@.contains_key(key@),
            },
    {
        match self.find_index(key) {
            Some(i) => {
                proof {
                    lemma_key_index_unique(self.entries@, i as int, key@);
                }
                Some(&self.entries[i].1)
            },
            None => None,
        }
    }

    /// Store `value` under `key`, creating or unconditionally overwriting
    /// the entry.
    pub fn insert(&mut self, key: Value, value: Value)
        requires
            old(self).wf(),
        ensures
            final(self).wf(),
            final(self)@ == old(self)@.insert(key@, value@),
    {
        let found = self.find_index(&key);
        match found {
            Some(i) => {
                proof {
                    lemma_update_entry(self.entries@, i as int, key, value);
                }
                self.entries[i] = (key, value);
            },
            None => {
                proof {
                    lemma_push_entry(self.entries@, key, value);
                }
                self.entries.push((key, value));
            },
        }
    }

    /// Store `new` under `key` exactly when the key is present and its
    /// current value structurally equals `expected`; otherwise leave the
    /// store unchanged and say which precondition failed.
    pub fn compare_and_swap(&mut self, key: &Value, expected: &Value, new: Value) -> (r: Result<
        (),
        CasError,
    >)
        requires
            old(self).wf(),
        ensures
            final(self).wf(),
            final(self)@ == cas_result(old(self)@, key@, expected@, new@),
            r == (match cas_outcome(old(self)@, key@, expected@) {
                CasOutcome::Applied => Result::<(), CasError>::Ok(()),
                CasOutcome::KeyMissing => Result::<(), CasError>::Err(CasError::KeyNotFound),
                CasOutcome::ValueMismatch => Result::<(), CasError>::Err(
                    CasError::PreconditionFailed,
                ),
            }),
    {
        let current_matches: Option<bool> = match self.get(key) {
            Some(current) => Some(current.equals(expected)),
            None => None,
        };
        match current_matches {
            Some(true) => {
                self.insert(key.duplicate(), new);
                Ok(())
            },
            Some(false) => Err(CasError::PreconditionFailed),
            None => Err(CasError::KeyNotFound),
        }
    }
}

/// With pairwise distinct keys, an entry holding key model `k` at index `i`
/// is the entry the map denotes for `k`.
proof fn lemma_key_index_unique(s: Seq<(Value, Value)>, i: int, k: ValueModel)
    requires
        unique_keys(s),
        0 <= i < s.len(),
        s[i].0@ == k,
    ensures
        seq_as_map(s).contains_key(k),
        seq_as_map(s)[k] == s[i].1@,
{
    assert(seq_has_key(s, k));
    let j = seq_key_index(s, k);
    assert(0 <= j < s.len() && s[j].0@ == k);
    assert(j == i);
}

/// Overwriting the entry at `i` in place with the same key updates the
/// denoted map at that key and keeps the keys distinct.
proof fn lemma_update_entry(s: Seq<(Value, Value)>, i: int, key: Value, value: Value)
    requires
        unique_keys(s),
        0 <= i < s.len(),
        s[i].0@ == key@,
    ensures
        unique_keys(s.update(i, (key, value))),
        seq_as_map(s.update(i, (key, value))) == seq_as_map(s).insert(key@, value@),
{
    let s2 = s.update(i, (key, value));
    assert forall|a: int, b: int| 0 <= a < b < s2.len() implies s2[a].0@ != s2[b].0@ by {
        assert(s[a].0@ != s[b].0@);
    }
    assert forall|x: ValueModel| seq_has_key(s2, x) <==> (x == key@ || seq_has_key(s, x)) by {
        if seq_has_key(s2, x) {
            let j = choose|j: int| 0 <= j < s2.len() && s2[j].0@ == x;
            if j != i {
                assert(s[j].0@ == x);
            }
        }
        if x == key@ {
            assert(s2[i].0@ == x);
            assert(seq_has_key(s2, x));
        } else if seq_has_key(s, x) {
            let j = choose|j: int| 0 <= j < s.len() && s[j].0@ == x;
            assert(j != i);
            assert(s2[j].0@ == x);
            assert(seq_has_key(s2, x));
        }
    }
    assert forall|x: ValueModel| seq_has_key(s2, x) implies seq_as_map(s2)[x] == seq_as_map(s).insert(
        key@,
        value@,
    )[x] by {
        let j = seq_key_index(s2, x);
        assert(0 <= j < s2.len() && s2[j].0@ == x);
        if x == key@ {
            assert(j == i);
            assert(seq_as_map(s2)[x] == value@);
        } else {
            assert(j != i);
            assert(s[j].0@ == x);
            lemma_key_index_unique(s, j, x);
            let j2 = seq_key_index(s, x);
            assert(j2 == j);
        }
    }
    assert(seq_as_map(s2) =~= seq_as_map(s).insert(key@, value@));
}

/// Appending an entry with a fresh key adds exactly that binding to the
/// denoted map and keeps the keys distinct.
proof fn lemma_push_entry(s: Seq<(Value, Value)>, key: Value, value: Value)
    requires
        unique_keys(s),
        !seq_has_key(s, key@),
    ensures
        unique_keys(s.push((key, value))),
        seq_as_map(s.push((key, value))) == seq_as_map(s).insert(key@, value@),
{
    let s2 = s.push((key, value));
    assert forall|a: int, b: int| 0 <= a < b < s2.len() implies s2[a].0@ != s2[b].0@ by {
        if b == s.len() {
            assert(s2[a] == s[a]);
            assert(s[a].0@ != key@);
        } else {
            assert(s[a].0@ != s[b].0@);
        }
    }
    assert forall|x: ValueModel| seq_has_key(s2, x) <==> (x == key@ || seq_has_key(s, x)) by {
        if seq_has_key(s2, x) {
            let j = choose|j: int| 0 <= j < s2.len() && s2[j].0@ == x;
            if j != s.len() {
                assert(s[j].0@ == x);
            }
        }
        if x == key@ {
            assert(s2[s.len() as int].0@ == x);
            assert(seq_has_key(s2, x));
        } else if seq_has_key(s, x) {
            let j = choose|j: int| 0 <= j < s.len() && s[j].0@ == x;
            assert(s2[j].0@ == x);
            assert(seq_has_key(s2, x));
        }
    }
    assert forall|x: ValueModel| seq_has_key(s2, x) implies seq_as_map(s2)[x] == seq_as_map(s).insert(
        key@,
        value@,
    )[x] by {
        let j = seq_key_index(s2, x);
        assert(0 <= j < s2.len() && s2[j].0@ == x);
        assert(unique_keys(s2));
        if x == key@ {
            assert(j == s.len());
            assert(seq_as_map(s2)[x] == value@);
        } else {
            assert(j != s.len());
            assert(s[j].0@ == x);
            lemma_key_index_unique(s, j, x);
            let j2 = seq_key_index(s, x);
            assert(j2 == j);
        }
    }
    assert(seq_as_map(s2) =~= seq_as_map(s).insert(key@, value@));
}

} // verus!
