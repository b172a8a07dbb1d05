use vstd::arithmetic::div_mod::{
    lemma_add_mod_noop, lemma_mod_bound, lemma_mod_self_0, lemma_small_mod,
};
use vstd::prelude::*;

use crate::rotation::{lemma_rotate_index, rotate_seq};
use crate::suggestion::Suggestion;

verus! {

/// How many items of the current order are surfaced to a client at once.
pub const VISIBLE_WINDOW: usize = 5;

/// The prefix of an order that a query returns: its first `VISIBLE_WINDOW`
/// items, or the whole order where it is shorter.
pub open spec fn visible_prefix(s: Seq<Suggestion>) -> Seq<Suggestion> {
    if s.len() <= VISIBLE_WINDOW {
        s
    } else {
        s.take(VISIBLE_WINDOW as int)
    }
}

/// The ordered collection of suggestion records: the unit of truth for what
/// exists and in what order. Positions `0..` define the currently surfaced
/// priority. The length is fixed after seeding; ticks only reorder.
pub struct SuggestionStore {
    items: Vec<Suggestion>,
}

impl View for SuggestionStore {
    type V = Seq<Suggestion>;

    closed spec fn view(&self) -> Seq<Suggestion> {
        self.items@
    }
}

impl SuggestionStore {
    /// Seeds the store, once at startup, with the given records in order.
    pub fn new(seed: Vec<Suggestion>) -> (store: SuggestionStore)
        ensures
            store@ == seed@,
    {
        SuggestionStore { items: seed }
    }

    pub fn len(&self) -> (n: usize)
        ensures
            n == self@.len(),
    {
        self.items.len()
    }

    /// Replaces the order with its left rotation by `k` positions: the item
    /// at position `i` afterwards is the item that stood at position
    /// `(i + k) % len` before.
    pub fn rotate_left(&mut self, k: usize)
        requires
            k <= old(self)@.len(),
        ensures
            final(self)@ == rotate_seq(old(self)@, k as int),
    {
        let ghost orig = self.items@;
        let total = self.items.len();
        let mut rotated: Vec<Suggestion> = Vec::new();
        let mut idx: usize = if k == total {
            0
        } else {
            k
        };
        let mut i: usize = 0;
        proof {
            if total > 0 {
                if k == total {
                    lemma_mod_self_0(total as int);
                } else {
                    lemma_small_mod(k as nat, total as nat);
                }
            }
        }
        while i < total
            invariant
                total == orig.len(),
                self.items@ == orig,
                i <= total,
                rotated@.len() == i,
                total > 0 ==> idx < total,
                total > 0 ==> idx as int == (k + i) % (total as int),
                forall|j: int| 0 <= j < i ==> rotated@[j] == orig[(j + k) % (total as int)],
            decreases total - i,
        {
            let item = self.items[idx].clone();
            rotated.push(item);
            proof {
                let t = total as int;
                lemma_add_mod_noop(k + i, 1, t);
                if total == 1 {
                    lemma_mod_bound(k + i + 1, t);
                } else {
                    lemma_small_mod(1nat, total as nat);
                    if idx + 1 == total {
                        lemma_mod_self_0(t);
                    } else {
                        lemma_small_mod((idx + 1) as nat, total as nat);
                    }
                }
            }
            idx = idx + 1;
            if idx == total {
                idx = 0;
            }
            i = i + 1;
        }
        proof {
            assert forall|j: int| 0 <= j < total implies rotated@[j] == rotate_seq(orig, k as int)[j]
                by {
                lemma_rotate_index(orig, k as int, j);
            }
            assert(rotated@ =~= rotate_seq(orig, k as int));
        }
        self.items = rotated;
    }

    /// Copies out the first `count` items of the current order.
    fn copy_prefix(&self, count: usize) -> (v: Vec<Suggestion>)
        requires
            count <= self@.len(),
        ensures
            v@ == self@.take(count as int),
    {
        let mut out: Vec<Suggestion> = Vec::new();
        let mut i: usize = 0;
        while i < count
            invariant
                count <= self.items@.len(),
                i <= count,
                out@.len() == i,
                forall|j: int| 0 <= j < i ==> out@[j] == self.items@[j],
            decreases count - i,
        {
            out.push(self.items[i].clone());
            i = i + 1;
        }
        proof {
            assert(out@ =~= self@.take(count as int));
        }
        out
    }

    /// Copies out the currently visible prefix: the first `VISIBLE_WINDOW`
    /// items of the order, or all of them where the store holds fewer. The
    /// store itself is untouched, and an empty store yields an empty list.
    pub fn snapshot_prefix(&self) -> (v: Vec<Suggestion>)
        ensures
            v@ == visible_prefix(self@),
            self@.len() >= VISIBLE_WINDOW ==> v@ == self@.take(VISIBLE_WINDOW as int),
            self@.len() == 0 ==> v@.len() == 0,
    {
        let total = self.items.len();
        let count = if total < VISIBLE_WINDOW {
            total
        } else {
            VISIBLE_WINDOW
        };
        let out = self.copy_prefix(count);
        proof {
            assert(out@ =~= visible_prefix(self@));
        }
        out
    }

    /// Copies out the whole current order.
    pub fn to_vec(&self) -> (v: Vec<Suggestion>)
        ensures
            v@ == self@,
    {
        let out = self.copy_prefix(self.items.len());
        proof {
            assert(out@ =~= self@);
        }
        out
    }
}

} // verus!
