use vstd::arithmetic::div_mod::{
    lemma_add_mod_noop, lemma_add_mod_noop_right, lemma_mod_bound, lemma_mod_sub_multiples_vanish,
    lemma_small_mod,
};
use vstd::arithmetic::mul::{lemma_mul_basics_1, lemma_mul_is_distributive_add_other_way};
use vstd::prelude::*;

use crate::rotation::{lemma_rotate_index, lemma_rotate_permutation, rotate_iter, rotate_seq};
use crate::store::SuggestionStore;
use crate::suggestion::Suggestion;

verus! {

/// The number of positions the visible window advances per tick in the
/// default configuration.
pub const DEFAULT_STRIDE: usize = 5;

/// The pause between two ticks, in seconds, in the default configuration.
/// Sleeping between ticks is the caller's concern; it must happen outside
/// any lock around the store.
pub const TICK_INTERVAL_SECS: u64 = 3;

/// The rotator cycles the content of a store: each tick rewrites the order
/// by a left rotation, so that the visible window advances by `stride`
/// positions, and keeps a running offset `index` relative to the seed order.
pub struct Rotator {
    stride: usize,
    index: usize,
}

impl Rotator {
    /// The fixed number of positions the visible window advances per tick.
    pub closed spec fn spec_stride(&self) -> usize {
        self.stride
    }

    /// The running offset of the current order relative to the seed order,
    /// advanced by `stride` modulo the store length on every applied tick.
    pub closed spec fn spec_index(&self) -> usize {
        self.index
    }

    pub fn new(stride: usize) -> (r: Rotator)
        ensures
            r.spec_stride() == stride,
            r.spec_index() == 0,
    {
        Rotator { stride, index: 0 }
    }

    pub fn stride(&self) -> (s: usize)
        ensures
            s == self.spec_stride(),
    {
        self.stride
    }

    pub fn index(&self) -> (i: usize)
        ensures
            i == self.spec_index(),
    {
        self.index
    }

    /// One tick: against an empty store it is skipped outright; otherwise it
    /// replaces the order with its left rotation by `stride % total`, a
    /// cyclic permutation, and advances the running offset to
    /// `(index + stride) % total`. No partial rewrite is ever observable:
    /// the call either applies the whole rotation or changes nothing.
    pub fn tick(&mut self, store: &mut SuggestionStore)
        ensures
            old(store)@.len() == 0 ==> final(store)@ == old(store)@ && *final(self) == *old(
                self,
            ),
            old(store)@.len() > 0 ==> {
                let total = old(store)@.len() as int;
                &&& final(store)@ == rotate_seq(
                    old(store)@,
                    (old(self).spec_stride() as int) % total,
                )
                &&& final(self).spec_index() as int == (old(self).spec_index() as int
                    + old(self).spec_stride() as int) % total
                &&& final(self).spec_stride() == old(self).spec_stride()
            },
    {
        let total = store.len();
        if total == 0 {
            return ;
        }
        let k = self.stride % total;
        store.rotate_left(k);
        let i = self.index % total;
        let next = if i >= total - k {
            i - (total - k)
        } else {
            i + k
        };
        proof {
            let t = total as int;
            let si = self.index as int;
            let ss = self.stride as int;
            lemma_mod_bound(si, t);
            lemma_mod_bound(ss, t);
            lemma_add_mod_noop(si, ss, t);
            if i >= total - k {
                lemma_mod_sub_multiples_vanish(i + k, t);
                lemma_small_mod((i + k - total) as nat, total as nat);
            } else {
                lemma_small_mod((i + k) as nat, total as nat);
            }
        }
        self.index = next;
    }

    /// Applies `count` ticks in a row, as the background task does over
    /// time: against an empty store nothing ever changes; otherwise the
    /// order advances by `stride` positions per tick, reaching the `count`th
    /// iterated rotation of the order it started from, and the running
    /// offset keeps pace.
    pub fn tick_many(&mut self, store: &mut SuggestionStore, count: usize)
        ensures
            final(self).spec_stride() == old(self).spec_stride(),
            count == 0 ==> final(store)@ == old(store)@ && *final(self) == *old(self),
            old(store)@.len() == 0 ==> final(store)@ == old(store)@ && *final(self) == *old(
                self,
            ),
            old(store)@.len() > 0 ==> final(store)@ == rotate_iter(
                old(store)@,
                (old(self).spec_stride() as int) % old(store)@.len() as int,
                count as nat,
            ),
            old(store)@.len() > 0 && count > 0 ==> final(self).spec_index() as int == (old(
                self,
            ).spec_index() as int + count * old(self).spec_stride() as int) % old(
                store,
            )@.len() as int,
    {
        let ghost orig_store = *store;
        let ghost orig_self = *self;
        let ghost t = orig_store@.len() as int;
        let ghost k = (orig_self.spec_stride() as int) % t;
        let mut i: usize = 0;
        while i < count
            invariant
                i <= count,
                t == orig_store@.len() as int,
                k == (orig_self.spec_stride() as int) % t,
                self.spec_stride() == orig_self.spec_stride(),
                store@.len() == orig_store@.len(),
                i == 0 ==> *store == orig_store && *self == orig_self,
                orig_store@.len() == 0 ==> store@ == orig_store@ && *self == orig_self,
                orig_store@.len() > 0 ==> store@ == rotate_iter(orig_store@, k, i as nat),
                orig_store@.len() > 0 && i > 0 ==> self.spec_index() as int == (
                orig_self.spec_index() as int + i * orig_self.spec_stride() as int) % t,
            decreases count - i,
        {
            let ghost pre_store = *store;
            let ghost pre_self = *self;
            self.tick(store);
            proof {
                if orig_store@.len() > 0 {
                    let ss = orig_self.spec_stride() as int;
                    let i0 = orig_self.spec_index() as int;
                    // the tick rotated by stride % total, one more iteration
                    assert(rotate_iter(orig_store@, k, (i + 1) as nat) == rotate_seq(
                        rotate_iter(orig_store@, k, i as nat),
                        k,
                    ));
                    assert(store@ == rotate_iter(orig_store@, k, (i + 1) as nat));
                    // and advanced the offset by stride, modulo the total
                    if i == 0 {
                        lemma_mul_basics_1(ss);
                        assert(1 * ss == ss);
                    } else {
                        lemma_add_mod_noop_right(ss, i0 + i * ss, t);
                        assert((ss + (i0 + i * ss) % t) % t == (ss + (i0 + i * ss)) % t);
                    }
                    lemma_mul_is_distributive_add_other_way(ss, i as int, 1);
                    assert((i + 1) * ss == i * ss + 1 * ss);
                    lemma_mul_basics_1(ss);
                }
            }
            i = i + 1;
        }
    }
}

/// Law: the order an applied tick leaves behind is a cyclic permutation of
/// the order it found — same length, same multiset of records, and every
/// position advanced by `stride` modulo the total.
pub proof fn lemma_tick_is_cyclic_permutation(pre: Seq<Suggestion>, stride: nat)
    requires
        pre.len() > 0,
    ensures
        rotate_seq(pre, (stride % pre.len()) as int).len() == pre.len(),
        rotate_seq(pre, (stride % pre.len()) as int).to_multiset() == pre.to_multiset(),
        forall|i: int|
            0 <= i < pre.len() ==> #[trigger] rotate_seq(pre, (stride % pre.len()) as int)[i]
                == pre[(i + stride) % (pre.len() as int)],
{
    let n = pre.len() as int;
    let k = (stride % pre.len()) as int;
    lemma_mod_bound(stride as int, n);
    lemma_rotate_permutation(pre, k);
    assert forall|i: int|
        0 <= i < pre.len() implies rotate_seq(pre, k)[i] == pre[(i + stride) % n] by {
        lemma_rotate_index(pre, k, i);
        lemma_add_mod_noop(i, stride as int, n);
        lemma_small_mod(i as nat, pre.len());
        assert((i % n + (stride as int) % n) % n == (i + stride) % n);
    }
}

} // verus!
