use vstd::arithmetic::div_mod::{
    lemma_add_mod_noop, lemma_fundamental_div_mod, lemma_mod_bound, lemma_mod_multiples_basic,
    lemma_mod_sub_multiples_vanish, lemma_mul_mod_noop_right, lemma_small_mod,
};
use vstd::arithmetic::mul::{
    lemma_mul_basics_1, lemma_mul_is_associative, lemma_mul_is_commutative,
    lemma_mul_is_distributive_add_other_way, lemma_mul_nonnegative,
};
use vstd::prelude::*;
use vstd::seq_lib::lemma_multiset_commutative;

use crate::math::{gcd, lemma_gcd_divides};

verus! {

/// The sequence `s` rotated left by `k` positions: the element at position
/// `i` of the result is the element at position `(i + k) % s.len()` of `s`.
pub open spec fn rotate_seq<T>(s: Seq<T>, k: int) -> Seq<T>
    recommends
        0 <= k <= s.len(),
{
    s.subrange(k, s.len() as int) + s.subrange(0, k)
}

/// The sequence `s` rotated left by `k` positions, `count` times in a row.
pub open spec fn rotate_iter<T>(s: Seq<T>, k: int, count: nat) -> Seq<T>
    decreases count,
{
    if count == 0 {
        s
    } else {
        rotate_seq(rotate_iter(s, k, (count - 1) as nat), k)
    }
}

/// Rotating by zero positions leaves the sequence unchanged.
pub proof fn lemma_rotate_zero<T>(s: Seq<T>)
    ensures
        rotate_seq(s, 0) == s,
{
    assert(rotate_seq(s, 0) =~= s);
}

/// Element-wise reading of a rotation: position `i` of the rotated sequence
/// holds the element at position `(i + k) % s.len()` of the original.
pub proof fn lemma_rotate_index<T>(s: Seq<T>, k: int, i: int)
    requires
        0 <= k <= s.len(),
        0 <= i < s.len(),
    ensures
        rotate_seq(s, k)[i] == s[(i + k) % (s.len() as int)],
{
    let n = s.len() as int;
    if i < n - k {
        lemma_small_mod((i + k) as nat, n as nat);
    } else {
        lemma_mod_sub_multiples_vanish(i + k, n);
        lemma_small_mod((i + k - n) as nat, n as nat);
    }
}

/// Two successive rotations compose into a single rotation by the sum of the
/// offsets, reduced modulo the length.
pub proof fn lemma_rotate_compose<T>(s: Seq<T>, a: int, b: int)
    requires
        0 <= a < s.len(),
        0 <= b < s.len(),
    ensures
        rotate_seq(rotate_seq(s, a), b) == rotate_seq(s, (a + b) % (s.len() as int)),
{
    let n = s.len() as int;
    let c = (a + b) % n;
    let r1 = rotate_seq(s, a);
    lemma_mod_bound(a + b, n);
    assert forall|i: int| 0 <= i < n implies rotate_seq(r1, b)[i] == rotate_seq(s, c)[i] by {
        lemma_rotate_index(r1, b, i);
        lemma_mod_bound(i + b, n);
        lemma_rotate_index(s, a, (i + b) % n);
        lemma_rotate_index(s, c, i);
        // rotate_seq(r1, b)[i] == r1[(i + b) % n] == s[((i + b) % n + a) % n]
        lemma_add_mod_noop(i + b, a, n);
        lemma_small_mod(a as nat, n as nat);
        assert(((i + b) % n + a % n) % n == (i + b + a) % n);
        // rotate_seq(s, c)[i] == s[(i + (a + b) % n) % n] == s[(i + a + b) % n]
        lemma_add_mod_noop(i, a + b, n);
        lemma_small_mod(i as nat, n as nat);
        assert((i % n + (a + b) % n) % n == (i + (a + b)) % n);
    }
    assert(rotate_seq(r1, b) =~= rotate_seq(s, c));
}

/// A rotation is a cyclic permutation: it keeps the length and the multiset
/// of elements of the sequence.
pub proof fn lemma_rotate_permutation<T>(s: Seq<T>, k: int)
    requires
        0 <= k <= s.len(),
    ensures
        rotate_seq(s, k).len() == s.len(),
        rotate_seq(s, k).to_multiset() == s.to_multiset(),
{
    let hi = s.subrange(k, s.len() as int);
    let lo = s.subrange(0, k);
    assert(s =~= lo + hi);
    lemma_multiset_commutative(hi, lo);
    lemma_multiset_commutative(lo, hi);
    assert(hi.to_multiset().add(lo.to_multiset()) =~= lo.to_multiset().add(hi.to_multiset()));
}

/// Repeating a rotation by `k` a total of `count` times is one rotation by
/// `(count * k) % s.len()`.
pub proof fn lemma_rotate_iter_total<T>(s: Seq<T>, k: int, count: nat)
    requires
        s.len() > 0,
        0 <= k < s.len(),
    ensures
        rotate_iter(s, k, count) == rotate_seq(s, (count * k) % (s.len() as int)),
    decreases count,
{
    let n = s.len() as int;
    if count == 0 {
        lemma_rotate_zero(s);
        assert(0 * k == 0);
        lemma_small_mod(0, n as nat);
    } else {
        let prev = (count - 1) as nat;
        lemma_rotate_iter_total(s, k, prev);
        lemma_mul_nonnegative(prev as int, k);
        let a = (prev * k) % n;
        lemma_mod_bound(prev * k, n);
        lemma_rotate_compose(s, a, k);
        assert(rotate_iter(s, k, count) == rotate_seq(s, (a + k) % n));
        lemma_add_mod_noop(prev * k, k, n);
        lemma_small_mod(k as nat, n as nat);
        assert((a + k % n) % n == (prev * k + k) % n);
        lemma_mul_is_distributive_add_other_way(k, prev as int, 1);
        lemma_mul_basics_1(k);
        assert((prev + 1) * k == prev * k + 1 * k);
        assert(prev * k + k == count * k);
    }
}

/// Rotating by `k` as many times as the sequence is long restores the
/// original order.
pub proof fn lemma_rotation_full_cycle<T>(s: Seq<T>, k: int)
    requires
        s.len() > 0,
        0 <= k < s.len(),
    ensures
        rotate_iter(s, k, s.len()) == s,
{
    let n = s.len() as int;
    lemma_rotate_iter_total(s, k, s.len());
    lemma_mul_is_commutative(n, k);
    lemma_mod_multiples_basic(k, n);
    assert((n * k) % n == 0);
    lemma_rotate_zero(s);
}

/// Rotating by `stride % len` a total of `len / gcd(stride, len)` times
/// restores the original order: that count is the period of the rotation.
pub proof fn lemma_rotation_cycle<T>(s: Seq<T>, stride: nat)
    requires
        s.len() > 0,
    ensures
        rotate_iter(s, (stride % s.len()) as int, s.len() / gcd(stride, s.len())) == s,
{
    let n = s.len() as int;
    let k = (stride % s.len()) as int;
    let g = gcd(stride, s.len());
    lemma_gcd_divides(stride, s.len());
    let c = s.len() / g;
    lemma_mod_bound(stride as int, n);
    lemma_rotate_iter_total(s, k, c);
    // (c * k) % n == (c * stride) % n, since k == stride % n
    lemma_mul_mod_noop_right(c as int, stride as int, n);
    // n == g * c and stride == g * (stride / g), because g divides both
    assert(n == g as int * c as int) by {
        lemma_fundamental_div_mod(n, g as int);
    }
    let q = (stride / g) as int;
    assert(stride as int == g as int * q) by {
        lemma_fundamental_div_mod(stride as int, g as int);
    }
    // c * stride == c * (g * q) == (c * g) * q == n * q, a multiple of n
    lemma_mul_is_associative(c as int, g as int, q);
    lemma_mul_is_commutative(c as int, g as int);
    assert(c as int * stride as int == n * q);
    lemma_mul_is_commutative(n, q);
    lemma_mod_multiples_basic(q, n);
    assert((c as int * stride as int) % n == 0);
    lemma_rotate_zero(s);
}

} // verus!
