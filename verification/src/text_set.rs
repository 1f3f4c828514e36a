//! Sets of texts that stand in order.

use vstd::prelude::*;
use crate::text;
use crate::text::Alphabet;

verus! {

/// A set of texts, in the order of an alphabet.
#[derive(Debug)]
pub struct TextSet {
    /// The texts, each once, the first in the order first.
    pub items: Vec<String>,
    /// The order.
    pub alphabet: Alphabet,
}

impl TextSet {
    /// Whether the texts stand in order and none stands twice.
    pub open spec fn well_formed(&self) -> bool {
        forall|i: int, j: int|
            0 <= i < j < self.items@.len() ==> text::precedes(
                self.alphabet,
                (#[trigger] self.items@[i])@,
                (#[trigger] self.items@[j])@,
            )
    }

    /// Whether a text is among the first `n`.
    pub open spec fn among(&self, n: int, item: Seq<char>) -> bool {
        exists|i: int| 0 <= i < n && (#[trigger] self.items@[i])@ == item
    }
}

impl View for TextSet {
    type V = Set<Seq<char>>;

    open spec fn view(&self) -> Set<Seq<char>> {
        Set::new(|item: Seq<char>| self.among(self.items@.len() as int, item))
    }
}

impl TextSet {
    /// No texts.
    pub fn new(alphabet: Alphabet) -> (r: TextSet)
        ensures
            r.well_formed(),
            r.alphabet == alphabet,
            r@ == Set::<Seq<char>>::empty(),
    {
        let r = TextSet { items: Vec::new(), alphabet };
        assert(r@ =~= Set::<Seq<char>>::empty());
        r
    }

    /// The number of texts.
    pub fn len(&self) -> (r: usize)
        ensures
            r == self.items@.len(),
    {
        self.items.len()
    }

    /// Whether a text is in the set.
    pub fn contains(&self, item: &str) -> (r: bool)
        ensures
            r == self@.contains(item@),
    {
        let mut i: usize = 0;
        while i < self.items.len()
            invariant
                i <= self.items@.len(),
                forall|k: int| 0 <= k < i ==> (#[trigger] self.items@[k])@ != item@,
            decreases self.items@.len() - i,
        {
            if text::same(self.items[i].as_str(), item) {
                assert(self.among(self.items@.len() as int, item@));
                return true;
            }
            i = i + 1;
        }
        false
    }

    /// Puts a text into the set. True where it was not there yet.
    pub fn insert(&mut self, item: String) -> (r: bool)
        requires
            old(self).well_formed(),
        ensures
            final(self).well_formed(),
            final(self).alphabet == old(self).alphabet,
            final(self)@ == old(self)@.insert(item@),
            r == !old(self)@.contains(item@),
    {
        let ghost before = self.items@;
        let mut i: usize = 0;
        while i < self.items.len()
            invariant
                i <= self.items@.len(),
                self.items@ == before,
                *self == *old(self),
                old(self).well_formed(),
                forall|k: int| 0 <= k < i ==> text::precedes(self.alphabet, (#[trigger] before[k])@, item@),
            ensures
                forall|k: int| i <= k < before.len() ==> text::precedes(self.alphabet, item@, (#[trigger] before[k])@),
            decreases self.items@.len() - i,
        {
            match text::side_of(self.alphabet, self.items[i].as_str(), item.as_str()) {
                text::Side::Before => {
                    i = i + 1;
                },
                text::Side::Same => {
                    assert(old(self).among(before.len() as int, item@));
                    assert(self@ =~= old(self)@.insert(item@));
                    return false;
                },
                text::Side::After => {
                    assert forall|k: int| i < k < before.len() implies text::precedes(
                        self.alphabet,
                        item@,
                        (#[trigger] before[k])@,
                    ) by {
                        text::lemma_precedes_transitive(self.alphabet, item@, before[i as int]@, before[k]@);
                    }
                    break;
                },
            }
        }
        proof {
            assert forall|k: int| 0 <= k < before.len() implies (#[trigger] before[k])@ != item@ by {
                text::lemma_not_before_itself(self.alphabet, item@);
            }
        }
        self.items.insert(i, item);
        proof {
            let after = self.items@;
            assert(after == before.insert(i as int, item));
            assert forall|a: int, b: int| 0 <= a < b < after.len() implies text::precedes(
                self.alphabet,
                (#[trigger] after[a])@,
                (#[trigger] after[b])@,
            ) by {
                if a < i && b > i {
                    assert(after[b] == before[b - 1]);
                } else if a > i {
                    assert(after[a] == before[a - 1] && after[b] == before[b - 1]);
                } else if a == i {
                    assert(after[b] == before[b - 1]);
                }
            }
            assert forall|t: Seq<char>| #[trigger] self@.contains(t) == old(self)@.insert(item@).contains(t) by {
                if self@.contains(t) {
                    let k = choose|k: int| 0 <= k < after.len() && (#[trigger] after[k])@ == t;
                    if k < i {
                        assert(before[k]@ == t);
                    } else if k > i {
                        assert(before[k - 1]@ == t);
                    }
                }
                if old(self)@.contains(t) {
                    let k = choose|k: int| 0 <= k < before.len() && (#[trigger] before[k])@ == t;
                    if k < i {
                        assert(after[k]@ == t);
                    } else {
                        assert(after[k + 1]@ == t);
                    }
                }
                if t == item@ {
                    assert(after[i as int]@ == t);
                }
            }
            assert(self@ =~= old(self)@.insert(item@));
        }
        true
    }

    /// The set without one text.
    pub fn without(self, item: &str) -> (r: TextSet)
        requires
            self.well_formed(),
        ensures
            r.well_formed(),
            r.alphabet == self.alphabet,
            r@ == self@.remove(item@),
    {
        let mut out = TextSet::new(self.alphabet);
        let mut i: usize = 0;
        while i < self.items.len()
            invariant
                i <= self.items@.len(),
                self.well_formed(),
                out.well_formed(),
                out.alphabet == self.alphabet,
                forall|t: Seq<char>| #[trigger] out@.contains(t) <==> self.among(i as int, t) && t != item@,
            decreases self.items@.len() - i,
        {
            let ghost seen = out@;
            let here = self.items[i].clone();
            if !text::same(here.as_str(), item) {
                out.insert(here);
            }
            proof {
                assert forall|t: Seq<char>| #[trigger] out@.contains(t) <==> self.among(i + 1, t) && t != item@ by {
                    assert(seen.contains(t) <==> self.among(i as int, t) && t != item@);
                    if self.among(i + 1, t) && !self.among(i as int, t) {
                        let k = choose|k: int| 0 <= k < i + 1 && (#[trigger] self.items@[k])@ == t;
                        assert(k == i);
                    }
                    if self.among(i as int, t) {
                        let k = choose|k: int| 0 <= k < i && (#[trigger] self.items@[k])@ == t;
                        assert(self.items@[k]@ == t);
                    }
                    if self.items@[i as int]@ == t {
                        assert(self.among(i + 1, t));
                    }
                }
            }
            i = i + 1;
        }
        assert(out@ =~= self@.remove(item@));
        out
    }
}

/// A set holds the texts that stand in it and no others, and where it is in order none
/// stands twice and each comes before those behind it.
pub proof fn law_a_set_holds_what_stands_in_it(s: TextSet, item: Seq<char>, i: int, j: int)
    ensures
        s@.contains(item) <==> exists|k: int| 0 <= k < s.items@.len() && (#[trigger] s.items@[k])@ == item,
        s.well_formed() && 0 <= i < j < s.items@.len() ==> {
            &&& text::precedes(s.alphabet, s.items@[i]@, s.items@[j]@)
            &&& s.items@[i]@ != s.items@[j]@
        },
{
    if s.well_formed() && 0 <= i < j < s.items@.len() {
        assert(text::precedes(s.alphabet, s.items@[i]@, s.items@[j]@));
        text::lemma_not_before_itself(s.alphabet, s.items@[i]@);
    }
}

} // verus!
