use vstd::prelude::*;

verus! {

/// `a` is a power of two.
pub open spec fn is_pow2(a: int) -> bool
    decreases a,
{
    if a <= 0 {
        false
    } else if a == 1 {
        true
    } else {
        a % 2 == 0 && is_pow2(a / 2)
    }
}

/// The least multiple of `a` that is at least `x`.
pub open spec fn align_up(x: int, a: int) -> int {
    if x % a == 0 {
        x
    } else {
        x + (a - x % a)
    }
}

/// The larger of two integers.
pub open spec fn max_int(a: int, b: int) -> int {
    if a >= b {
        a
    } else {
        b
    }
}

/// Of two powers of two, the larger is a multiple of the smaller.
pub proof fn lemma_pow2_divides(a: int, b: int)
    requires
        is_pow2(a),
        is_pow2(b),
        a <= b,
    ensures
        b % a == 0,
    decreases b,
{
    if a != 1 {
        assert(b != 1);
        lemma_pow2_divides(a / 2, b / 2);
        let q = (b / 2) / (a / 2);
        assert(b / 2 == q * (a / 2)) by {
            vstd::arithmetic::div_mod::lemma_fundamental_div_mod(b / 2, a / 2);
        }
        assert(b == q * a) by (nonlinear_arith)
            requires
                b / 2 == q * (a / 2),
                b % 2 == 0,
                a % 2 == 0,
                b == 2 * (b / 2) + b % 2,
                a == 2 * (a / 2) + a % 2,
        ;
        vstd::arithmetic::div_mod::lemma_mod_multiples_basic(q, a);
    }
}

/// A power of two is positive.
pub proof fn lemma_pow2_positive(a: int)
    requires
        is_pow2(a),
    ensures
        a > 0,
{
}

/// Rounding up to a multiple gives a multiple, no smaller, and less than one
/// step above.
pub proof fn lemma_align_up(x: int, a: int)
    requires
        x >= 0,
        a > 0,
    ensures
        align_up(x, a) % a == 0,
        x <= align_up(x, a) < x + a,
{
    if x % a != 0 {
        vstd::arithmetic::div_mod::lemma_fundamental_div_mod(x, a);
        let q = x / a;
        assert(align_up(x, a) == (q + 1) * a) by (nonlinear_arith)
            requires
                x == a * q + x % a,
                align_up(x, a) == x + (a - x % a),
        ;
        vstd::arithmetic::div_mod::lemma_mod_multiples_basic(q + 1, a);
    }
}

/// An address that is a multiple of a coarse alignment, moved by a multiple of
/// a finer one that divides it, stays a multiple of the finer one.
pub proof fn lemma_aligned_sum(addr: int, off: int, coarse: int, fine: int)
    requires
        addr >= 0,
        off >= 0,
        fine > 0,
        coarse > 0,
        addr % coarse == 0,
        coarse % fine == 0,
        off % fine == 0,
    ensures
        (addr + off) % fine == 0,
{
    vstd::arithmetic::div_mod::lemma_fundamental_div_mod(addr, coarse);
    vstd::arithmetic::div_mod::lemma_fundamental_div_mod(coarse, fine);
    vstd::arithmetic::div_mod::lemma_fundamental_div_mod(off, fine);
    let k = (addr / coarse) * (coarse / fine) + off / fine;
    assert(addr + off == k * fine) by (nonlinear_arith)
        requires
            addr == coarse * (addr / coarse),
            coarse == fine * (coarse / fine),
            off == fine * (off / fine),
            k == (addr / coarse) * (coarse / fine) + off / fine,
    ;
    vstd::arithmetic::div_mod::lemma_mod_multiples_basic(k, fine);
}

/// Tells whether `a` is a power of two.
pub fn check_pow2(a: usize) -> (r: bool)
    ensures
        r == is_pow2(a as int),
{
    let mut x: usize = a;
    while x > 1 && x % 2 == 0
        invariant
            is_pow2(x as int) == is_pow2(a as int),
        decreases x,
    {
        x = x / 2;
    }
    x == 1
}

/// Rounds `x` up to a multiple of `a`, or `None` where that does not fit.
pub fn checked_align_up(x: usize, a: usize) -> (r: Option<usize>)
    requires
        a > 0,
    ensures
        r matches Some(v) ==> v == align_up(x as int, a as int),
        r is None <==> align_up(x as int, a as int) > usize::MAX,
{
    let rem = x % a;
    if rem == 0 {
        Some(x)
    } else {
        x.checked_add(a - rem)
    }
}

} // verus!
