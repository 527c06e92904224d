//! The split award table: a static mapping from a split identifier to the
//! payout share it cashes in, kept in tenths of a percent.

use vstd::prelude::*;

verus! {

/// Lookup in a sequence of (split, permille) pairs; a later pair shadows
/// an earlier one with the same split, as repeated inserts would.
pub open spec fn spec_lookup(pairs: Seq<(Seq<char>, u32)>, key: Seq<char>) -> Option<u32>
    decreases pairs.len(),
{
    if pairs.len() == 0 {
        None
    } else if pairs.last().0 == key {
        Some(pairs.last().1)
    } else {
        spec_lookup(pairs.drop_last(), key)
    }
}

/// A lookup in percentage-bounded pairs returns a bounded share.
pub proof fn lemma_lookup_bounded(pairs: Seq<(Seq<char>, u32)>, key: Seq<char>)
    requires
        forall|i: int| 0 <= i < pairs.len() ==> (#[trigger] pairs[i]).1 <= 1000,
        spec_lookup(pairs, key) is Some,
    ensures
        spec_lookup(pairs, key)->Some_0 <= 1000,
    decreases pairs.len(),
{
    if pairs.len() > 0 {
        if pairs.last().0 == key {
            assert(pairs[pairs.len() - 1].1 <= 1000);
        } else {
            assert(forall|i: int|
                0 <= i < pairs.drop_last().len() ==> (#[trigger] pairs.drop_last()[i]).1 <= 1000);
            lemma_lookup_bounded(pairs.drop_last(), key);
        }
    }
}

/// Mapping from a split identifier to a payout share in tenths of a
/// percent (`250` means 25.0%). Immutable data loaded once at startup.
pub struct AwardTable {
    entries: Vec<(String, u32)>,
}

impl View for AwardTable {
    type V = Seq<(Seq<char>, u32)>;

    closed spec fn view(&self) -> Seq<(Seq<char>, u32)> {
        self.entries@.map_values(|p: (String, u32)| (p.0@, p.1))
    }
}

impl AwardTable {
    /// The payout share recorded for `key`, if any.
    pub open spec fn spec_get(&self, key: Seq<char>) -> Option<u32> {
        spec_lookup(self@, key)
    }

    /// Every share is a percentage: at most 100.0%, i.e. 1000 per-mille.
    pub open spec fn wf(&self) -> bool {
        forall|i: int| 0 <= i < self@.len() ==> (#[trigger] self@[i]).1 <= 1000
    }

    pub fn new() -> (r: Self)
        ensures
            r@ == Seq::<(Seq<char>, u32)>::empty(),
            r.wf(),
    {
        let r = AwardTable { entries: Vec::new() };
        proof {
            assert(r@ =~= Seq::<(Seq<char>, u32)>::empty());
        }
        r
    }

    /// Record that `key` pays out `permille` tenths of a percent,
    /// shadowing any earlier entry for `key`.
    pub fn insert(&mut self, key: String, permille: u32)
        requires
            old(self).wf(),
            permille <= 1000,
        ensures
            final(self).wf(),
            final(self)@ == old(self)@.push((key@, permille)),
            forall|k: Seq<char>|
                #[trigger] final(self).spec_get(k) == (if k == key@ {
                    Some(permille)
                } else {
                    old(self).spec_get(k)
                }),
    {
        let ghost oldv = self@;
        let ghost kv = key@;
        self.entries.push((key, permille));
        proof {
            assert(self@ =~= oldv.push((kv, permille)));
            assert(self@.drop_last() =~= oldv);
        }
    }

    /// The payout share recorded for `key`, if any.
    pub fn get(&self, key: &String) -> (r: Option<u32>)
        ensures
            r == self.spec_get(key@),
    {
        let mut i: usize = self.entries.len();
        proof {
            assert(self@.take(i as int) =~= self@);
        }
        while i > 0
            invariant
                0 <= i <= self.entries.len(),
                self@.len() == self.entries.len(),
                spec_lookup(self@.take(i as int), key@) == self.spec_get(key@),
            decreases i,
        {
            if self.entries[i - 1].0 == *key {
                proof {
                    assert(self@.take(i as int).last() == self@[i as int - 1]);
                }
                return Some(self.entries[i - 1].1);
            }
            proof {
                assert(self@.take(i as int).last() == self@[i as int - 1]);
                assert(self@.take(i as int).drop_last() =~= self@.take(i as int - 1));
            }
            i = i - 1;
        }
        None
    }

    /// The number of entries.
    pub fn len(&self) -> (r: usize)
        ensures
            r == self@.len(),
    {
        self.entries.len()
    }

    /// An equal copy of the table.
    pub fn duplicate(&self) -> (r: AwardTable)
        ensures
            r@ == self@,
    {
        let mut v: Vec<(String, u32)> = Vec::new();
        let mut i: usize = 0;
        while i < self.entries.len()
            invariant
                0 <= i <= self.entries.len(),
                v@.len() == i,
                forall|j: int|
                    0 <= j < i ==> (#[trigger] v@[j].0@) == self@[j].0 && v@[j].1 == self@[j].1,
            decreases self.entries.len() - i,
        {
            let key = self.entries[i].0.clone();
            let share = self.entries[i].1;
            v.push((key, share));
            i = i + 1;
        }
        let r = AwardTable { entries: v };
        proof {
            assert(r@ =~= self@);
        }
        r
    }

    /// Every split identifier in the table, in entry order.
    pub fn split_names(&self) -> (r: Vec<String>)
        ensures
            r@.len() == self@.len(),
            forall|i: int| 0 <= i < r@.len() ==> (#[trigger] r@[i]@) == self@[i].0,
    {
        let mut v: Vec<String> = Vec::new();
        let mut i: usize = 0;
        while i < self.entries.len()
            invariant
                0 <= i <= self.entries.len(),
                v@.len() == i,
                forall|j: int| 0 <= j < i ==> (#[trigger] v@[j]@) == self@[j].0,
            decreases self.entries.len() - i,
        {
            let key = self.entries[i].0.clone();
            v.push(key);
            i = i + 1;
        }
        v
    }
}

} // verus!
