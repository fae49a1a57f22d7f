//! The request store: a keyed mapping from requester identity to the single
//! bridge request record stored for that requester.
//!
//! The store is modelled as a `Map<Seq<char>, RequestView>`; the
//! representation keeps one entry per key, so each requester occupies at
//! most one slot.

use vstd::prelude::*;

use crate::model::{BridgeRequest, RequestView};

verus! {

/// One stored slot: a requester identity and its record.
pub struct StoreEntry {
    pub key: String,
    pub value: BridgeRequest,
}

/// True when no two entries share a requester key.
pub open spec fn unique_keys(s: Seq<StoreEntry>) -> bool {
    forall|i: int, j: int| 0 <= i < j < s.len() ==> s[i].key@ != s[j].key@
}

/// True when some entry holds the given requester key.
pub open spec fn seq_has_key(s: Seq<StoreEntry>, k: Seq<char>) -> bool {
    exists|i: int| 0 <= i < s.len() && s[i].key@ == k
}

/// The record stored under the given requester key.
pub open spec fn seq_value_of(s: Seq<StoreEntry>, k: Seq<char>) -> RequestView {
    s[choose|i: int| 0 <= i < s.len() && s[i].key@ == k].value@
}

/// The mapping the entries denote.
pub open spec fn seq_to_map(s: Seq<StoreEntry>) -> Map<Seq<char>, RequestView> {
    Map::new(|k: Seq<char>| seq_has_key(s, k), |k: Seq<char>| seq_value_of(s, k))
}

/// Key-value store of bridge requests, keyed by requester identity.
pub struct RequestStore {
    entries: Vec<StoreEntry>,
}

proof fn lemma_seq_to_map_push_fresh(s: Seq<StoreEntry>, e: StoreEntry)
    requires
        unique_keys(s),
        forall|j: int| 0 <= j < s.len() ==> s[j].key@ != e.key@,
    ensures
        seq_to_map(s.push(e)) =~= seq_to_map(s).insert(e.key@, e.value@),
        unique_keys(s.push(e)),
{
    let s2 = s.push(e);
    assert forall|k: Seq<char>| #[trigger] seq_has_key(s2, k) implies seq_has_key(s, k) || k
        == e.key@ by {
        let i = choose|i: int| 0 <= i < s2.len() && s2[i].key@ == k;
        if i < s.len() {
            assert(s[i].key@ == k);
        }
    }
    assert forall|k: Seq<char>| seq_has_key(s, k) || k == e.key@ implies #[trigger] seq_has_key(
        s2,
        k,
    ) by {
        if k == e.key@ {
            assert(s2[s.len() as int].key@ == k);
        } else {
            let i = choose|i: int| 0 <= i < s.len() && s[i].key@ == k;
            assert(s2[i].key@ == k);
        }
    }
    assert forall|k: Seq<char>| #[trigger] seq_has_key(s2, k) implies seq_value_of(s2, k) == (
    if k == e.key@ {
        e.value@
    } else {
        seq_value_of(s, k)
    }) by {
        let i = choose|i: int| 0 <= i < s2.len() && s2[i].key@ == k;
        if k == e.key@ {
            if i < s.len() {
                assert(s[i].key@ == e.key@);
                assert(false);
            }
            assert(s2[i] == e);
        } else {
            assert(i < s.len());
            let i2 = choose|i2: int| 0 <= i2 < s.len() && s[i2].key@ == k;
            if i != i2 {
                assert(s[i].key@ == s[i2].key@);
                assert(false);
            }
        }
    }
}

proof fn lemma_seq_to_map_remove_key(s: Seq<StoreEntry>, i: int)
    requires
        unique_keys(s),
        0 <= i < s.len(),
    ensures
        seq_to_map(s.remove(i)) =~= seq_to_map(s).remove(s[i].key@),
        unique_keys(s.remove(i)),
        forall|j: int| 0 <= j < s.remove(i).len() ==> s.remove(i)[j].key@ != s[i].key@,
{
    let r = s.remove(i);
    let k0 = s[i].key@;
    assert forall|j: int| 0 <= j < r.len() implies r[j].key@ != k0 by {
        if j < i {
            assert(r[j] == s[j]);
        } else {
            assert(r[j] == s[j + 1]);
        }
    }
    assert(unique_keys(r)) by {
        assert forall|a: int, b: int| 0 <= a < b < r.len() implies r[a].key@ != r[b].key@ by {
            let a0 = if a < i { a } else { a + 1 };
            let b0 = if b < i { b } else { b + 1 };
            assert(r[a] == s[a0]);
            assert(r[b] == s[b0]);
        }
    }
    assert forall|k: Seq<char>| #[trigger] seq_has_key(r, k) implies seq_has_key(s, k) && k
        != k0 by {
        let j = choose|j: int| 0 <= j < r.len() && r[j].key@ == k;
        let j0 = if j < i { j } else { j + 1 };
        assert(r[j] == s[j0]);
        assert(s[j0].key@ == k);
    }
    assert forall|k: Seq<char>| seq_has_key(s, k) && k != k0 implies #[trigger] seq_has_key(
        r,
        k,
    ) by {
        let j = choose|j: int| 0 <= j < s.len() && s[j].key@ == k;
        if j < i {
            assert(r[j] == s[j]);
            assert(r[j].key@ == k);
        } else {
            assert(j != i);
            assert(r[j - 1] == s[j]);
            assert(r[j - 1].key@ == k);
        }
    }
    assert forall|k: Seq<char>| #[trigger] seq_has_key(r, k) implies seq_value_of(r, k)
        == seq_value_of(s, k) by {
        let j = choose|j: int| 0 <= j < r.len() && r[j].key@ == k;
        let j0 = if j < i { j } else { j + 1 };
        assert(r[j] == s[j0]);
        let j1 = choose|j1: int| 0 <= j1 < s.len() && s[j1].key@ == k;
        if j0 != j1 {
            assert(s[j0].key@ == s[j1].key@);
            assert(false);
        }
    }
}

impl RequestStore {
    /// The stored entries, in insertion order.
    pub closed spec fn entry_seq(&self) -> Seq<StoreEntry> {
        self.entries@
    }

    /// Well-formedness: one slot per requester key.
    pub open spec fn wf(&self) -> bool {
        unique_keys(self.entry_seq())
    }

    /// At most one record exists per requester: two entries holding the same
    /// requester key are the same entry.
    pub proof fn lemma_single_slot(&self, i: int, j: int)
        requires
            self.wf(),
            0 <= i < self.entry_seq().len(),
            0 <= j < self.entry_seq().len(),
            self.entry_seq()[i].key@ == self.entry_seq()[j].key@,
        ensures
            i == j,
    {
        if i < j {
            assert(self.entry_seq()[i].key@ != self.entry_seq()[j].key@);
        } else if j < i {
            assert(self.entry_seq()[j].key@ != self.entry_seq()[i].key@);
        }
    }

    /// An empty store.
    pub fn new() -> (s: Self)
        ensures
            s.wf(),
            s@ =~= Map::<Seq<char>, RequestView>::empty(),
    {
        let s = RequestStore { entries: Vec::new() };
        proof {
            assert forall|k: Seq<char>| !#[trigger] seq_has_key(s.entries@, k) by {}
        }
        s
    }

    fn find_index(&self, key: &String) -> (r: Option<usize>)
        ensures
            match r {
                Option::Some(i) => i < self.entry_seq().len() && self.entry_seq()[i as int].key@
                    == key@,
                Option::None => forall|j: int|
                    0 <= j < self.entry_seq().len() ==> self.entry_seq()[j].key@ != key@,
            },
    {
        let n = self.entries.len();
        let mut idx: usize = 0;
        while idx < n
            invariant
                n == self.entries@.len(),
                idx <= n,
                forall|j: int| 0 <= j < idx ==> self.entries@[j].key@ != key@,
            decreases n - idx,
        {
            if self.entries[idx].key == *key {
                return Option::Some(idx);
            }
            idx = idx + 1;
        }
        Option::None
    }

    /// Point lookup: the record stored for the given requester, if any.
    pub fn get(&self, key: &String) -> (r: Option<&BridgeRequest>)
        requires
            self.wf(),
        ensures
            match r {
                Option::Some(req) => self@.contains_key(key@) && self@[key@] == req@,
                Option::None => !self@.contains_key(key@),
            },
    {
        match self.find_index(key) {
            Option::Some(i) => {
                proof {
                    assert(seq_has_key(self.entries@, key@));
                    let j = choose|j: int|
                        0 <= j < self.entries@.len() && self.entries@[j].key@ == key@;
                    self.lemma_single_slot(i as int, j);
                }
                Option::Some(&self.entries[i].value)
            },
            Option::None => {
                proof {
                    if seq_has_key(self.entries@, key@) {
                        let j = choose|j: int|
                            0 <= j < self.entries@.len() && self.entries@[j].key@ == key@;
                        assert(self.entries@[j].key@ == key@);
                        assert(false);
                    }
                }
                Option::None
            },
        }
    }

    /// Insert or overwrite: after the call the store maps `key` to `value`
    /// and every other requester to what it held before.
    pub fn put(&mut self, key: String, value: BridgeRequest)
        requires
            old(self).wf(),
        ensures
            final(self).wf(),
            final(self)@ == old(self)@.insert(key@, value@),
    {
        let ghost s0 = self.entries@;
        match self.find_index(&key) {
            Option::Some(i) => {
                self.entries.remove(i);
                proof {
                    lemma_seq_to_map_remove_key(s0, i as int);
                }
            },
            Option::None => {},
        }
        let ghost s1 = self.entries@;
        let e = StoreEntry { key, value };
        let ghost ge = e;
        self.entries.push(e);
        proof {
            lemma_seq_to_map_push_fresh(s1, ge);
            assert(seq_to_map(self.entries@) =~= seq_to_map(s0).insert(ge.key@, ge.value@));
        }
    }
}

impl View for RequestStore {
    type V = Map<Seq<char>, RequestView>;

    closed spec fn view(&self) -> Map<Seq<char>, RequestView> {
        seq_to_map(self.entries@)
    }
}

} // verus!
