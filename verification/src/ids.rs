//! Identifiers of what a repository holds, and sets of them.

use std::collections::HashMap;
use vstd::prelude::*;

verus! {

/// A 256-bit identifier, in two halves.
#[derive(Debug, Copy, Clone, PartialEq, Eq, Structural)]
pub struct ID {
    /// The upper 128 bits.
    pub hi: u128,
    /// The lower 128 bits.
    pub lo: u128,
}

/// A set of identifiers.
pub struct IdSet {
    /// The lower halves, by the upper half that they go with.
    buckets: HashMap<u128, Vec<u128>>,
}

impl View for IdSet {
    type V = Set<ID>;

    closed spec fn view(&self) -> Set<ID> {
        Set::new(|id: ID| self.buckets@.contains_key(id.hi) && self.buckets@[id.hi]@.contains(id.lo))
    }
}

impl IdSet {
    /// The empty set.
    pub fn new() -> (r: IdSet)
        ensures
            r@ == Set::<ID>::empty(),
    {
        broadcast use vstd::std_specs::hash::group_hash_axioms;

        let r = IdSet { buckets: HashMap::new() };
        assert(r@ =~= Set::<ID>::empty());
        r
    }

    /// Whether an identifier is in the set.
    pub fn contains(&self, id: &ID) -> (r: bool)
        ensures
            r == self@.contains(*id),
    {
        broadcast use vstd::std_specs::hash::group_hash_axioms;

        match self.buckets.get(&id.hi) {
            Some(bucket) => holds(bucket, id.lo),
            None => false,
        }
    }

    /// Puts an identifier into the set. True where it was not there yet.
    pub fn insert(&mut self, id: ID) -> (r: bool)
        ensures
            final(self)@ == old(self)@.insert(id),
            r == !old(self)@.contains(id),
    {
        broadcast use vstd::std_specs::hash::group_hash_axioms;

        let ghost before = self.buckets@;
        let mut bucket: Vec<u128> = match self.buckets.remove(&id.hi) {
            Some(bucket) => bucket,
            None => Vec::new(),
        };
        let ghost had = bucket@;
        let fresh: bool = !holds(&bucket, id.lo);
        if fresh {
            bucket.push(id.lo);
        }
        let ghost has = bucket@;
        self.buckets.insert(id.hi, bucket);
        proof {
            let after = self.buckets@;
            assert(before.contains_key(id.hi) ==> had == before[id.hi]@);
            assert(!before.contains_key(id.hi) ==> had.len() == 0);
            assert(has.contains(id.lo)) by {
                if fresh {
                    assert(has[has.len() - 1] == id.lo);
                }
            }
            assert forall|x: ID| #[trigger] self@.contains(x) == old(self)@.insert(id).contains(x) by {
                if x.hi == id.hi {
                    assert(after[x.hi]@ == has);
                    if had.contains(x.lo) {
                        let k = choose|k: int| 0 <= k < had.len() && had[k] == x.lo;
                        assert(has[k] == x.lo);
                    }
                    if has.contains(x.lo) && x.lo != id.lo {
                        let k = choose|k: int| 0 <= k < has.len() && has[k] == x.lo;
                        assert(had[k] == x.lo);
                    }
                } else {
                    assert(after.contains_key(x.hi) == before.contains_key(x.hi));
                    assert(before.contains_key(x.hi) ==> after[x.hi] == before[x.hi]);
                }
            }
            assert(self@ =~= old(self)@.insert(id));
        }
        fresh
    }
}

fn holds(bucket: &Vec<u128>, lo: u128) -> (r: bool)
    ensures
        r == bucket@.contains(lo),
{
    let mut i: usize = 0;
    while i < bucket.len()
        invariant
            i <= bucket@.len(),
            forall|k: int| 0 <= k < i ==> bucket@[k] != lo,
        decreases bucket@.len() - i,
    {
        if bucket[i] == lo {
            return true;
        }
        i = i + 1;
    }
    false
}

} // verus!
