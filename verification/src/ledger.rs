//! The version ledger: a mapping from package name to the last-seen version
//! string, with an atomic read-and-replace.
//!
//! One run mutates each package's entry exactly once, through
//! [`VersionLedger::reconcile`]: the old entry is taken out and the version
//! just observed is put in, in one indivisible step, so the ledger reflects
//! the observed version even if a later pipeline stage fails. Absence of a key
//! means "never checked before" and is reported as the [`sentinel`] token,
//! which is distinct from any real version string by convention.
//!
//! Concurrent pipelines share one ledger; the caller serializes access to it
//! (a single lock around the whole map), so each `reconcile` call sees and
//! leaves a consistent map. [`lemma_reconcile_distinct_keys_commute`] states
//! that the order of reconciliations on distinct keys does not matter, and
//! [`lemma_reconcile_twice`] that a second reconciliation of a key returns
//! exactly what the first inserted.

use vstd::prelude::*;
use vstd::string::StringExecFns;

verus! {

/// The marker meaning "no prior observation exists" for a package.
pub open spec fn sentinel() -> Seq<char> {
    "None"@
}

/// The [`sentinel`] as an executable value.
pub fn sentinel_version() -> (s: String)
    ensures
        s@ == sentinel(),
{
    String::from_str("None")
}

/// The map described by a sequence of key-value pairs, a later pair
/// overriding an earlier one with the same key.
pub open spec fn ledger_map_of(entries: Seq<(Seq<char>, Seq<char>)>) -> Map<Seq<char>, Seq<char>>
    decreases entries.len(),
{
    if entries.len() == 0 {
        Map::empty()
    } else {
        ledger_map_of(entries.drop_last()).insert(entries.last().0, entries.last().1)
    }
}

/// A mapping from package name to the version string last observed for it.
pub struct VersionLedger {
    entries: Vec<(String, String)>,
}

impl View for VersionLedger {
    type V = Map<Seq<char>, Seq<char>>;

    closed spec fn view(&self) -> Map<Seq<char>, Seq<char>> {
        Map::new(
            |k: Seq<char>| self.contains_name(k),
            |k: Seq<char>|
                {
                    let i = choose|i: int|
                        0 <= i < self.entries@.len() && self.entries@[i].0@ == k;
                    self.entries@[i].1@
                },
        )
    }
}

impl VersionLedger {
    /// No package name occurs twice; every method preserves this.
    pub closed spec fn wf(&self) -> bool {
        forall|i: int, j: int|
            0 <= i < j < self.entries@.len() ==> self.entries@[i].0@ != self.entries@[j].0@
    }

    pub closed spec fn contains_name(&self, k: Seq<char>) -> bool {
        exists|i: int| 0 <= i < self.entries@.len() && self.entries@[i].0@ == k
    }

    proof fn lemma_unique_index(&self, w: int, v: int)
        requires
            self.wf(),
            0 <= w < self.entries@.len(),
            0 <= v < self.entries@.len(),
            self.entries@[w].0@ == self.entries@[v].0@,
        ensures
            w == v,
    {
        if w < v {
            assert(self.entries@[w].0@ != self.entries@[v].0@);
        } else if v < w {
            assert(self.entries@[v].0@ != self.entries@[w].0@);
        }
    }

    /// A ledger with no observations at all.
    pub fn new() -> (l: VersionLedger)
        ensures
            l.wf(),
            l@ == Map::<Seq<char>, Seq<char>>::empty(),
    {
        let l = VersionLedger { entries: Vec::new() };
        proof {
            assert(l@ =~= Map::<Seq<char>, Seq<char>>::empty());
        }
        l
    }

    /// Atomically takes the entry for `name` out and re-inserts
    /// `name -> new_version`, returning what was taken out, or the
    /// [`sentinel`] if `name` had never been observed.
    pub fn reconcile(&mut self, name: &String, new_version: &String) -> (prev: String)
        requires
            old(self).wf(),
        ensures
            final(self).wf(),
            final(self)@ == old(self)@.insert(name@, new_version@),
            old(self)@.dom().contains(name@) ==> prev@ == old(self)@[name@],
            !old(self)@.dom().contains(name@) ==> prev@ == sentinel(),
    {
        let n = self.entries.len();
        let mut i: usize = 0;
        while i < n
            invariant
                n == self.entries@.len(),
                i <= n,
                self == old(self),
                old(self).wf(),
                forall|j: int| 0 <= j < i ==> self.entries@[j].0@ != name@,
            decreases n - i,
        {
            if self.entries[i].0 == *name {
                let prev = self.entries[i].1.clone();
                self.entries[i] = (name.clone(), new_version.clone());
                proof {
                    let i = i as int;
                    assert forall|p: int, q: int|
                        0 <= p < q < self.entries@.len() implies self.entries@[p].0@
                        != self.entries@[q].0@ by {
                        if p != i && q != i {
                            assert(old(self).entries@[p].0@ != old(self).entries@[q].0@);
                        } else if p == i {
                            assert(old(self).entries@[i].0@ != old(self).entries@[q].0@);
                        } else {
                            assert(old(self).entries@[p].0@ != old(self).entries@[i].0@);
                        }
                    }
                    assert(old(self)@.dom().contains(name@));
                    assert(old(self)@[name@] == prev@) by {
                        let w = choose|w: int|
                            0 <= w < old(self).entries@.len() && old(self).entries@[w].0@
                                == name@;
                        old(self).lemma_unique_index(w, i);
                    }
                    assert forall|k: Seq<char>| self.contains_name(k) implies old(
                        self,
                    ).contains_name(k) || k == name@ by {
                        let w = choose|w: int|
                            0 <= w < self.entries@.len() && self.entries@[w].0@ == k;
                        if w != i {
                            assert(old(self).entries@[w].0@ == k);
                        }
                    }
                    assert forall|k: Seq<char>| old(self).contains_name(k) implies self
                        .contains_name(k) by {
                        let w = choose|w: int|
                            0 <= w < old(self).entries@.len() && old(self).entries@[w].0@ == k;
                        if w == i {
                            assert(self.entries@[i].0@ == name@ && name@ == k);
                        } else {
                            assert(self.entries@[w].0@ == k);
                        }
                    }
                    assert forall|k: Seq<char>| self.contains_name(k) && k != name@ implies self@[k]
                        == old(self)@[k] by {
                        let w = choose|w: int|
                            0 <= w < self.entries@.len() && self.entries@[w].0@ == k;
                        let v = choose|v: int|
                            0 <= v < old(self).entries@.len() && old(self).entries@[v].0@ == k;
                        assert(w != i && v != i);
                        assert(self.entries@[v].0@ == k);
                        assert(old(self).entries@[w].0@ == k);
                        old(self).lemma_unique_index(w, v);
                    }
                    assert(self.contains_name(name@)) by {
                        assert(self.entries@[i].0@ == name@);
                    }
                    assert(self@[name@] == new_version@) by {
                        let w = choose|w: int|
                            0 <= w < self.entries@.len() && self.entries@[w].0@ == name@;
                        self.lemma_unique_index(w, i);
                    }
                    assert(final(self)@ =~= old(self)@.insert(name@, new_version@));
                }
                return prev;
            }
            i += 1;
        }
        self.entries.push((name.clone(), new_version.clone()));
        proof {
            let m = self.entries@.len() - 1;
            assert forall|p: int, q: int|
                0 <= p < q < self.entries@.len() implies self.entries@[p].0@
                != self.entries@[q].0@ by {
                if q != m {
                    assert(old(self).entries@[p].0@ != old(self).entries@[q].0@);
                } else {
                    assert(old(self).entries@[p].0@ != name@);
                }
            }
            assert(!old(self)@.dom().contains(name@));
            assert forall|k: Seq<char>| self.contains_name(k) implies old(self).contains_name(k)
                || k == name@ by {
                let w = choose|w: int| 0 <= w < self.entries@.len() && self.entries@[w].0@ == k;
                if w != m {
                    assert(old(self).entries@[w].0@ == k);
                }
            }
            assert forall|k: Seq<char>| old(self).contains_name(k) implies self.contains_name(
                k,
            ) by {
                let w = choose|w: int|
                    0 <= w < old(self).entries@.len() && old(self).entries@[w].0@ == k;
                assert(self.entries@[w].0@ == k);
            }
            assert forall|k: Seq<char>| self.contains_name(k) && k != name@ implies self@[k] == old(
                self,
            )@[k] by {
                let w = choose|w: int| 0 <= w < self.entries@.len() && self.entries@[w].0@ == k;
                let v = choose|v: int|
                    0 <= v < old(self).entries@.len() && old(self).entries@[v].0@ == k;
                assert(w != m);
                assert(self.entries@[v].0@ == k);
                assert(old(self).entries@[w].0@ == k);
                old(self).lemma_unique_index(w, v);
            }
            assert(self@[name@] == new_version@) by {
                assert(self.entries@[m].0@ == name@);
                let w = choose|w: int| 0 <= w < self.entries@.len() && self.entries@[w].0@ == name@;
                self.lemma_unique_index(w, m);
            }
            assert(final(self)@ =~= old(self)@.insert(name@, new_version@));
        }
        sentinel_version()
    }

    /// The ledger's entries, for persisting: unique keys, and exactly the
    /// pairs of the ledger's map.
    pub fn to_entries(&self) -> (v: Vec<(String, String)>)
        requires
            self.wf(),
        ensures
            forall|i: int, j: int| 0 <= i < j < v@.len() ==> v@[i].0@ != v@[j].0@,
            forall|i: int|
                0 <= i < v@.len() ==> self@.dom().contains(#[trigger] v@[i].0@) && self@[v@[i].0@]
                    == v@[i].1@,
            forall|k: Seq<char>|
                self@.dom().contains(k) ==> exists|i: int| 0 <= i < v@.len() && #[trigger] v@[i].0@
                    == k,
    {
        let n = self.entries.len();
        let mut v: Vec<(String, String)> = Vec::new();
        let mut i: usize = 0;
        while i < n
            invariant
                self.wf(),
                n == self.entries@.len(),
                i <= n,
                v@.len() == i,
                forall|j: int| 0 <= j < i ==> v@[j] == self.entries@[j],
            decreases n - i,
        {
            let pair = (self.entries[i].0.clone(), self.entries[i].1.clone());
            proof {
                assert(pair == self.entries@[i as int]);
            }
            v.push(pair);
            i += 1;
        }
        proof {
            assert forall|i: int|
                0 <= i < v@.len() implies self@.dom().contains(#[trigger] v@[i].0@) && self@[v@[i
                ].0@] == v@[i].1@ by {
                assert(self.entries@[i].0@ == v@[i].0@);
                let w = choose|w: int|
                    0 <= w < self.entries@.len() && self.entries@[w].0@ == v@[i].0@;
                assert(w == i);
            }
            assert forall|k: Seq<char>| self@.dom().contains(k) implies exists|i: int|
                0 <= i < v@.len() && #[trigger] v@[i].0@ == k by {
                let w = choose|w: int| 0 <= w < self.entries@.len() && self.entries@[w].0@ == k;
                assert(v@[w].0@ == k);
            }
        }
        v
    }

    /// Builds a ledger from persisted key-value pairs; a later pair for the
    /// same key overrides an earlier one.
    pub fn from_entries(pairs: &Vec<(String, String)>) -> (l: VersionLedger)
        ensures
            l.wf(),
            l@ == ledger_map_of(pairs.deep_view()),
    {
        let n = pairs.len();
        let mut l = VersionLedger::new();
        let mut i: usize = 0;
        while i < n
            invariant
                n == pairs@.len(),
                i <= n,
                l.wf(),
                l@ == ledger_map_of(pairs.deep_view().take(i as int)),
            decreases n - i,
        {
            let _ = l.reconcile(&pairs[i].0, &pairs[i].1);
            proof {
                let d = pairs.deep_view();
                assert(d.take(i + 1).drop_last() =~= d.take(i as int));
                assert(d.take(i + 1).last() == d[i as int]);
            }
            i += 1;
        }
        proof {
            assert(pairs.deep_view().take(n as int) =~= pairs.deep_view());
        }
        l
    }
}

/// Reconciliations of distinct keys commute: two concurrent pipelines that
/// reconcile different package names leave the ledger's map the same
/// whichever one the lock admits first.
pub proof fn lemma_reconcile_distinct_keys_commute(
    m: Map<Seq<char>, Seq<char>>,
    k1: Seq<char>,
    v1: Seq<char>,
    k2: Seq<char>,
    v2: Seq<char>,
)
    requires
        k1 != k2,
    ensures
        m.insert(k1, v1).insert(k2, v2) == m.insert(k2, v2).insert(k1, v1),
{
    assert(m.insert(k1, v1).insert(k2, v2) =~= m.insert(k2, v2).insert(k1, v1));
}

/// A reconciliation of a key never seen before yields the sentinel, and a
/// second reconciliation of the same key returns exactly the version the
/// first one inserted.
pub proof fn lemma_reconcile_twice(
    m: Map<Seq<char>, Seq<char>>,
    k: Seq<char>,
    v1: Seq<char>,
    v2: Seq<char>,
)
    requires
        !m.dom().contains(k),
    ensures
        m.insert(k, v1).dom().contains(k),
        m.insert(k, v1)[k] == v1,
        m.insert(k, v1).insert(k, v2)[k] == v2,
{
}

} // verus!
