//! Alignment arithmetic: powers of two, rounding an address down or up
//! to an alignment boundary.

use vstd::prelude::*;

verus! {

/// `a` is a power of two (1, 2, 4, 8, ...).
pub open spec fn is_pow2(a: nat) -> bool
    decreases a,
{
    if a == 0 {
        false
    } else if a == 1 {
        true
    } else {
        a % 2 == 0 && is_pow2(a / 2)
    }
}

/// The largest multiple of `a` that is at most `x`.
pub open spec fn round_down(x: int, a: int) -> int {
    x - x % a
}

/// The smallest multiple of `a` that is at least `x`.
pub open spec fn round_up(x: int, a: int) -> int {
    if x % a == 0 {
        x
    } else {
        x + a - x % a
    }
}

/// A power of two is at least 1.
pub proof fn lemma_pow2_pos(a: nat)
    requires
        is_pow2(a),
    ensures
        a >= 1,
{
}

/// Rounding down lands on an aligned address no more than `a - 1` below `x`.
pub proof fn lemma_round_down_props(x: int, a: int)
    requires
        x >= 0,
        a >= 1,
    ensures
        round_down(x, a) % a == 0,
        round_down(x, a) <= x,
        x - a < round_down(x, a),
        round_down(x, a) >= 0,
{
    let q = x / a;
    let r = x % a;
    vstd::arithmetic::div_mod::lemma_fundamental_div_mod(x, a);
    assert(0 <= r < a) by (nonlinear_arith)
        requires
            a >= 1,
            x >= 0,
            r == x % a,
    ;
    assert(round_down(x, a) == q * a);
    assert((q * a) % a == 0) by (nonlinear_arith)
        requires
            a >= 1,
    ;
}

/// Rounding up lands on an aligned address fewer than `a` bytes above `x`.
pub proof fn lemma_round_up_props(x: int, a: int)
    requires
        x >= 0,
        a >= 1,
    ensures
        round_up(x, a) % a == 0,
        round_up(x, a) >= x,
        round_up(x, a) < x + a,
{
    let q = x / a;
    let r = x % a;
    vstd::arithmetic::div_mod::lemma_fundamental_div_mod(x, a);
    assert(0 <= r < a) by (nonlinear_arith)
        requires
            a >= 1,
            x >= 0,
            r == x % a,
    ;
    if r == 0 {
        assert(round_up(x, a) == q * a);
        assert((q * a) % a == 0) by (nonlinear_arith)
            requires
                a >= 1,
        ;
    } else {
        assert(round_up(x, a) == (q + 1) * a) by (nonlinear_arith)
            requires
                x == q * a + r,
                round_up(x, a) == x + a - r,
        ;
        assert(((q + 1) * a) % a == 0) by (nonlinear_arith)
            requires
                a >= 1,
        ;
    }
}

/// Decides whether `a` is a power of two, by repeated halving.
pub fn is_power_of_two(a: usize) -> (b: bool)
    ensures
        b == is_pow2(a as nat),
{
    if a == 0 {
        return false;
    }
    let mut x: usize = a;
    while x > 1
        invariant
            x >= 1,
            is_pow2(a as nat) == is_pow2(x as nat),
        decreases x,
    {
        if x % 2 == 1 {
            return false;
        }
        x = x / 2;
    }
    true
}

/// Rounds `x` down to a multiple of `align`.
pub fn round_down_to(x: usize, align: usize) -> (r: usize)
    requires
        align >= 1,
    ensures
        r == round_down(x as int, align as int),
{
    proof {
        lemma_round_down_props(x as int, align as int);
    }
    x - x % align
}

} // verus!
