//! An insertion-ordered map from textual identifiers to records.
//!
//! Keys and values live in two parallel vectors, so that the records can be
//! paged through by position while lookups go by key. Removal moves the last
//! entry into the freed slot.

use vstd::prelude::*;
use vstd::seq_lib::seq_to_set_is_finite;

verus! {

pub struct Ledger<V> {
    pub keys: Vec<String>,
    pub values: Vec<V>,
}

impl<V> View for Ledger<V> {
    type V = Map<Seq<char>, V>;

    /// The ledger as a mathematical map from key text to record.
    open spec fn view(&self) -> Map<Seq<char>, V> {
        Map::new(|k: Seq<char>| self.has(k), |k: Seq<char>| self.values@[self.slot(k)])
    }
}

impl<V> Ledger<V> {
    /// Keys and values are aligned and no key occurs twice.
    pub open spec fn wf(&self) -> bool {
        &&& self.keys@.len() == self.values@.len()
        &&& forall|i: int, j: int|
            0 <= i < self.keys@.len() && 0 <= j < self.keys@.len() && i != j
                ==> self.keys@[i]@ != self.keys@[j]@
    }

    pub open spec fn has(&self, k: Seq<char>) -> bool {
        exists|i: int| 0 <= i < self.keys@.len() && self.keys@[i]@ == k
    }

    /// The keys in the order in which the ledger lists them.
    pub open spec fn order(&self) -> Seq<Seq<char>> {
        self.keys@.map_values(|k: String| k@)
    }

    /// The position at which `k` is stored, meaningful when `has(k)`.
    pub open spec fn slot(&self, k: Seq<char>) -> int {
        choose|i: int| 0 <= i < self.keys@.len() && self.keys@[i]@ == k
    }

    /// In a well-formed ledger the position of a key is determined by the key.
    pub proof fn lemma_slot(&self, i: int)
        requires
            self.wf(),
            0 <= i < self.keys@.len(),
        ensures
            self.has(self.keys@[i]@),
            self.slot(self.keys@[i]@) == i,
            self@.dom().contains(self.keys@[i]@),
            self@[self.keys@[i]@] == self.values@[i],
    {
        let k = self.keys@[i]@;
        assert(0 <= i < self.keys@.len() && self.keys@[i]@ == k);
    }

    /// Replacing the record in one slot is a map update at that slot's key.
    pub proof fn lemma_replaced(&self, before: &Ledger<V>, i: int)
        requires
            before.wf(),
            0 <= i < before.keys@.len(),
            self.keys@ =~= before.keys@,
            self.values@ =~= before.values@.update(i, self.values@[i]),
        ensures
            self.wf(),
            self@ == before@.insert(before.keys@[i]@, self.values@[i]),
    {
        let k = before.keys@[i]@;
        before.lemma_slot(i);
        self.lemma_slot(i);
        assert forall|q: Seq<char>| self.has(q) == before.has(q) by {
            if self.has(q) {
                let j = self.slot(q);
                assert(0 <= j < before.keys@.len() && before.keys@[j]@ == q);
            }
            if before.has(q) {
                let j = before.slot(q);
                assert(0 <= j < self.keys@.len() && self.keys@[j]@ == q);
            }
        }
        assert forall|q: Seq<char>| self.has(q) implies self.slot(q) == before.slot(q) by {
            let j = self.slot(q);
            before.lemma_slot(j);
        }
        assert forall|q: Seq<char>| #[trigger] self.has(q) && q != k implies self.values@[self.slot(q)]
            == before.values@[before.slot(q)] by {
            let j = self.slot(q);
            before.lemma_slot(j);
        }
        assert(self@ =~= before@.insert(k, self.values@[i]));
    }

    /// A ledger holds finitely many keys.
    pub proof fn lemma_dom_finite(&self)
        ensures
            self@.dom().finite(),
    {
        let ks = self.keys@.map_values(|k: String| k@);
        seq_to_set_is_finite(ks);
        assert forall|q: Seq<char>| self@.dom().contains(q) <==> ks.to_set().contains(q) by {
            if self.has(q) {
                let i = self.slot(q);
                assert(ks[i] == q);
            }
            if ks.contains(q) {
                let i = choose|i: int| 0 <= i < ks.len() && ks[i] == q;
                assert(self.keys@[i]@ == q);
            }
        }
        assert(self@.dom() =~= ks.to_set());
    }

    pub fn new() -> (r: Self)
        ensures
            r.wf(),
            r@ == Map::<Seq<char>, V>::empty(),
            r.keys@.len() == 0,
            r.values@.len() == 0,
            r.order() == Seq::<Seq<char>>::empty(),
    {
        let r = Ledger { keys: Vec::new(), values: Vec::new() };
        assert(r@ =~= Map::<Seq<char>, V>::empty());
        assert(r.order() =~= Seq::<Seq<char>>::empty());
        r
    }

    /// Whether the ledger is well formed.
    pub fn check(&self) -> (b: bool)
        ensures
            b == self.wf(),
    {
        let n = self.keys.len();
        if n != self.values.len() {
            return false;
        }
        let mut i: usize = 0;
        while i < n
            invariant
                i <= n,
                n == self.keys@.len(),
                n == self.values@.len(),
                forall|a: int, b: int| 0 <= a < i && 0 <= b < i && a != b ==> self.keys@[a]@ != self.keys@[b]@,
            decreases n - i,
        {
            let mut j: usize = 0;
            while j < i
                invariant
                    j <= i < n,
                    n == self.keys@.len(),
                    forall|b: int| 0 <= b < j ==> self.keys@[i as int]@ != self.keys@[b]@,
                decreases i - j,
            {
                if self.keys[i] == self.keys[j] {
                    return false;
                }
                j += 1;
            }
            i += 1;
        }
        true
    }

    pub fn len(&self) -> (n: usize)
        ensures
            n == self.keys@.len(),
    {
        self.keys.len()
    }

    /// Position of `k`, if it is present.
    pub fn find(&self, k: &String) -> (r: Option<usize>)
        requires
            self.wf(),
        ensures
            match r {
                Some(i) => i < self.keys@.len() && self.keys@[i as int]@ == k@ && self.has(k@)
                    && self.slot(k@) == i && self@.dom().contains(k@) && self@[k@]
                    == self.values@[i as int],
                None => !self.has(k@) && !self@.dom().contains(k@),
            },
    {
        let mut i: usize = 0;
        while i < self.keys.len()
            invariant
                self.wf(),
                i <= self.keys@.len(),
                forall|j: int| 0 <= j < i ==> self.keys@[j]@ != k@,
            decreases self.keys@.len() - i,
        {
            if self.keys[i] == *k {
                proof {
                    self.lemma_slot(i as int);
                }
                return Some(i);
            }
            i += 1;
        }
        None
    }

    pub fn contains_key(&self, k: &String) -> (b: bool)
        requires
            self.wf(),
        ensures
            b == self@.dom().contains(k@),
    {
        self.find(k).is_some()
    }

    /// Stores `v` under `k`: in place when the key is present, at the end otherwise.
    pub fn insert(&mut self, k: String, v: V)
        requires
            old(self).wf(),
        ensures
            final(self).wf(),
            final(self)@ == old(self)@.insert(k@, v),
            old(self)@.dom().contains(k@) ==> final(self).keys@ == old(self).keys@,
            !old(self)@.dom().contains(k@) ==> final(self).keys@ == old(self).keys@.push(k),
            old(self)@.dom().contains(k@) ==> final(self).values@ == old(self).values@.update(
                old(self).slot(k@),
                v,
            ),
            !old(self)@.dom().contains(k@) ==> final(self).values@ == old(self).values@.push(v),
            final(self).order() == (if old(self)@.dom().contains(k@) {
                old(self).order()
            } else {
                old(self).order().push(k@)
            }),
    {
        let ghost before = *self;
        match self.find(&k) {
            Some(i) => {
                self.values[i] = v;
                proof {
                    self.lemma_replaced(&before, i as int);
                    assert(self.order() =~= before.order());
                }
            },
            None => {
                self.keys.push(k);
                self.values.push(v);
                proof {
                    let n = before.keys@.len() as int;
                    assert(self.wf());
                    self.lemma_slot(n);
                    assert forall|q: Seq<char>| self.has(q) == (before.has(q) || q == k@) by {
                        if self.has(q) {
                            let j = self.slot(q);
                            if j < n {
                                assert(before.keys@[j]@ == q);
                            }
                        }
                        if before.has(q) {
                            let j = before.slot(q);
                            assert(self.keys@[j]@ == q);
                        }
                    }
                    assert forall|q: Seq<char>| #[trigger] before.has(q) implies self.values@[self.slot(
                        q,
                    )] == before.values@[before.slot(q)] by {
                        let j = before.slot(q);
                        assert(self.keys@[j]@ == q);
                        self.lemma_slot(j);
                    }
                    assert(self@ =~= before@.insert(k@, v));
                    assert(self.order() =~= before.order().push(k@));
                }
            },
        }
    }

    /// Removes the entry in slot `i`; the last entry takes its place.
    pub fn remove_at(&mut self, i: usize) -> (v: V)
        requires
            old(self).wf(),
            i < old(self).keys@.len(),
        ensures
            final(self).wf(),
            v == old(self).values@[i as int],
            final(self)@ == old(self)@.remove(old(self).keys@[i as int]@),
            final(self).keys@ == old(self).keys@.update(i as int, old(self).keys@.last()).drop_last(),
            final(self).values@ == old(self).values@.update(
                i as int,
                old(self).values@.last(),
            ).drop_last(),
            final(self).order() == old(self).order().update(
                i as int,
                old(self).order().last(),
            ).drop_last(),
    {
        let ghost before = *self;
        self.keys.swap_remove(i);
        let v = self.values.swap_remove(i);
        proof {
            let n = before.keys@.len() as int;
            let k = before.keys@[i as int]@;
            assert forall|j: int| 0 <= j < n - 1 implies #[trigger] self.keys@[j] == before.keys@[if j
                == i {
                n - 1
            } else {
                j
            }] && self.values@[j] == before.values@[if j == i {
                n - 1
            } else {
                j
            }] by {}
            assert(self.wf());
            assert forall|q: Seq<char>| self.has(q) == (before.has(q) && q != k) by {
                if self.has(q) {
                    let j = self.slot(q);
                    let j0 = if j == i { n - 1 } else { j };
                    assert(self.keys@[j] == before.keys@[j0]);
                    assert(before.keys@[j0]@ == q);
                }
                if before.has(q) && q != k {
                    let j = before.slot(q);
                    let j1 = if j == n - 1 { i as int } else { j };
                    assert(self.keys@[j1] == before.keys@[j]);
                }
            }
            assert forall|q: Seq<char>| #[trigger] self.has(q) implies self.values@[self.slot(q)]
                == before.values@[before.slot(q)] by {
                let j = self.slot(q);
                let j0 = if j == i { n - 1 } else { j };
                assert(self.keys@[j] == before.keys@[j0]);
                before.lemma_slot(j0);
            }
            assert(self@ =~= before@.remove(k));
            assert(self.order() =~= before.order().update(
                i as int,
                before.order().last(),
            ).drop_last());
        }
        v
    }
}

} // verus!
