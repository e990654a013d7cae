//! Alignment arithmetic: the padding that carries a byte offset to the
//! next multiple of a power-of-two alignment.

use vstd::prelude::*;
use vstd::arithmetic::power2::pow2;
use vstd::arithmetic::power2::lemma_pow2_adds;
use vstd::arithmetic::power2::lemma_pow2_strictly_increases;
use vstd::arithmetic::div_mod::lemma_fundamental_div_mod;
use vstd::arithmetic::div_mod::lemma_mod_division_less_than_divisor;
use vstd::arithmetic::div_mod::lemma_mod_multiples_basic;
use vstd::arithmetic::div_mod::lemma_mod_multiples_vanish;
use vstd::arithmetic::div_mod::lemma_mod_self_0;
use vstd::arithmetic::div_mod::lemma_small_mod;
use vstd::arithmetic::mul::lemma_mul_is_distributive_add;
use vstd::arithmetic::mul::lemma_mul_is_associative;
use vstd::arithmetic::mul::lemma_mul_is_commutative;

verus! {

/// A valid alignment: a positive power of two.
pub open spec fn is_power_of_two(a: int) -> bool {
    a >= 1 && exists|e: nat| a == pow2(e)
}

/// The larger of two alignment requirements.
pub open spec fn max_int(a: int, b: int) -> int {
    if a >= b {
        a
    } else {
        b
    }
}

/// The minimal padding that makes `offset` a multiple of `alignment`.
pub open spec fn spec_align_offset(offset: int, alignment: int) -> int
    recommends
        alignment >= 1,
{
    (alignment - offset % alignment) % alignment
}

/// `spec_align_offset` is the least non-negative padding that carries
/// `offset` to a multiple of `alignment`.
pub proof fn lemma_align_offset(offset: int, alignment: int)
    requires
        0 <= offset,
        1 <= alignment,
    ensures
        0 <= spec_align_offset(offset, alignment) < alignment,
        (offset + spec_align_offset(offset, alignment)) % alignment == 0,
        forall|s: int|
            0 <= s < spec_align_offset(offset, alignment) ==> #[trigger] ((offset + s) % alignment)
                != 0,
{
    let m = offset % alignment;
    let r = spec_align_offset(offset, alignment);
    lemma_mod_division_less_than_divisor(offset, alignment);
    if m == 0 {
        lemma_mod_self_0(alignment);
        assert(r == 0);
    } else {
        lemma_small_mod((alignment - m) as nat, alignment as nat);
        assert(r == alignment - m);
        lemma_fundamental_div_mod(offset, alignment);
        let q = offset / alignment;
        assert(offset + r == alignment * (q + 1)) by {
            lemma_mul_is_distributive_add(alignment, q, 1);
        }
        lemma_mod_multiples_basic(q + 1, alignment);
        assert forall|s: int| 0 <= s < r implies #[trigger] ((offset + s) % alignment) != 0 by {
            lemma_mod_multiples_vanish(q, m + s, alignment);
            lemma_small_mod((m + s) as nat, alignment as nat);
        }
    }
}

/// A smaller power of two always divides a larger one.
pub proof fn lemma_pow2_le_divides(a: int, b: int)
    requires
        is_power_of_two(a),
        is_power_of_two(b),
        a <= b,
    ensures
        b % a == 0,
{
    let ea = choose|e: nat| a == pow2(e);
    let eb = choose|e: nat| b == pow2(e);
    if eb < ea {
        lemma_pow2_strictly_increases(eb, ea);
    }
    lemma_pow2_adds(ea, (eb - ea) as nat);
    let k = pow2((eb - ea) as nat) as int;
    assert(b == pow2(ea) * pow2((eb - ea) as nat));
    assert(b == a * k);
    assert(a * k == k * a) by {
        lemma_mul_is_commutative(a, k);
    }
    lemma_mod_multiples_basic(k, a);
}

/// A multiple of `b` is a multiple of any divisor `a` of `b`.
pub proof fn lemma_multiple_of_divisor(x: int, a: int, b: int)
    requires
        1 <= a,
        1 <= b,
        x % b == 0,
        b % a == 0,
    ensures
        x % a == 0,
{
    lemma_fundamental_div_mod(x, b);
    lemma_fundamental_div_mod(b, a);
    lemma_mul_is_associative(a, b / a, x / b);
    lemma_mod_multiples_basic((b / a) * (x / b), a);
}

/// Padding that takes `offset` to the next multiple of `alignment`.
pub fn align_offset(offset: usize, alignment: usize) -> (r: usize)
    requires
        alignment >= 1,
    ensures
        r == spec_align_offset(offset as int, alignment as int),
        r < alignment,
        (offset + r) % (alignment as int) == 0,
        forall|s: int| 0 <= s < r ==> #[trigger] ((offset + s) % (alignment as int)) != 0,
{
    proof {
        lemma_align_offset(offset as int, alignment as int);
    }
    (alignment - offset % alignment) % alignment
}

/// The larger of two alignment requirements.
pub fn max_usize(a: usize, b: usize) -> (r: usize)
    ensures
        r == max_int(a as int, b as int),
{
    if a >= b {
        a
    } else {
        b
    }
}

} // verus!
