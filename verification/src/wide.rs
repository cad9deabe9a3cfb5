//! Multiply-then-divide on 128-bit magnitudes, with no loss before the one
//! rounding down at the end.

use vstd::arithmetic::div_mod::lemma_div_is_ordered;
use vstd::arithmetic::div_mod::lemma_div_multiples_vanish;
use vstd::arithmetic::div_mod::lemma_fundamental_div_mod;
use vstd::arithmetic::div_mod::lemma_fundamental_div_mod_converse;
use vstd::prelude::*;

verus! {

/// `floor(a * b / c)` over the unbounded integers.
pub open spec fn mul_div_floor(a: u128, b: u128, c: u128) -> int {
    (a * b) / (c as int)
}

/// A product that reaches `k * c` has a quotient by `c` of at least `k`.
proof fn lemma_quotient_at_least(x: int, k: int, c: int)
    requires
        c > 0,
        x >= k * c,
    ensures
        x / c >= k,
{
    lemma_div_multiples_vanish(k, c);
    assert(c * k == k * c) by (nonlinear_arith);
    lemma_div_is_ordered(k * c, x, c);
}

/// Splitting the multiplier into its lowest bit and the rest.
proof fn lemma_halve(acc: int, addend: int, n: int, bit: int, half: int)
    requires
        n == 2 * half + bit,
    ensures
        acc + addend * n == (acc + addend * bit) + (2 * addend) * half,
{
    assert(addend * (2 * half + bit) == addend * bit + (2 * addend) * half) by (nonlinear_arith);
}

/// Adds two residues below `c`; the flag says whether `c` was taken off once.
fn add_residues(x: u128, y: u128, c: u128) -> (out: (u128, bool))
    requires
        x < c,
        y < c,
    ensures
        out.0 < c,
        x + y == out.0 + (if out.1 { c as int } else { 0 }),
{
    let gap: u128 = c - y;
    if x >= gap {
        (x - gap, true)
    } else {
        (x + y, false)
    }
}

/// Adds two quotients and a carry; `None` when the sum leaves 128 bits.
fn add_quotients(x: u128, y: u128, carry: bool) -> (out: Option<u128>)
    ensures
        match out {
            Some(s) => s == x + y + (if carry { 1int } else { 0 }),
            None => x + y + (if carry { 1int } else { 0 }) > u128::MAX,
        },
{
    match x.checked_add(y) {
        Some(s) => if carry {
            s.checked_add(1)
        } else {
            Some(s)
        },
        None => None,
    }
}

/// Computes `floor(a * b / c)` exactly, whatever the size of `a * b`.
///
/// The product is held in 256 bits throughout, as two words of 128 bits: its
/// quotient and its remainder by `c`, built up from the bits of `b`. Nothing
/// is rounded before the end. The result is `None` exactly when the quotient
/// does not fit in 128 bits.
pub fn mul_div(a: u128, b: u128, c: u128) -> (out: Option<u128>)
    requires
        c > 0,
    ensures
        match out {
            Some(q) => q == mul_div_floor(a, b, c),
            None => mul_div_floor(a, b, c) > u128::MAX,
        },
{
    let mut q: u128 = 0;
    let mut r: u128 = 0;
    let mut qa: u128 = a / c;
    let mut ra: u128 = a % c;
    let mut n: u128 = b;
    proof {
        lemma_fundamental_div_mod(a as int, c as int);
        assert(c * (a / c) == (a / c) * c) by (nonlinear_arith);
        assert((qa * c + ra) * n == a * b) by (nonlinear_arith)
            requires
                qa * c + ra == a,
                n == b,
        ;
    }
    while n > 0
        invariant
            c > 0,
            r < c,
            ra < c,
            a * b == (q * c + r) + (qa * c + ra) * n,
        decreases n,
    {
        let ghost acc: int = q * c + r;
        let ghost addend: int = qa * c + ra;
        let half: u128 = n / 2;
        let odd: bool = n % 2 == 1;
        proof {
            lemma_halve(acc, addend, n as int, if odd { 1int } else { 0 }, half as int);
            assert(addend >= 0) by (nonlinear_arith)
                requires
                    addend == qa * c + ra,
                    qa >= 0,
                    c > 0,
                    ra >= 0,
            ;
            assert((2 * addend) * half >= 0) by (nonlinear_arith)
                requires
                    addend >= 0,
                    half >= 0,
            ;
        }
        if odd {
            let (r1, carry) = add_residues(r, ra, c);
            let sum = add_quotients(q, qa, carry);
            proof {
                let wide: int = q + qa + (if carry { 1int } else { 0 });
                assert(wide * c + r1 == acc + addend) by (nonlinear_arith)
                    requires
                        wide == q + qa + (if carry { 1int } else { 0 }),
                        acc == q * c + r,
                        addend == qa * c + ra,
                        r + ra == r1 + (if carry { c as int } else { 0 }),
                ;
                if sum is None {
                    assert(a * b >= (u128::MAX + 1) * c) by (nonlinear_arith)
                        requires
                            a * b >= wide * c + r1,
                            wide > u128::MAX,
                            c > 0,
                            r1 >= 0,
                    ;
                    lemma_quotient_at_least(a * b, u128::MAX + 1, c as int);
                }
            }
            match sum {
                Some(s) => {
                    q = s;
                    r = r1;
                },
                None => {
                    return None;
                },
            }
        }
        n = half;
        if n > 0 {
            let (r2, carry) = add_residues(ra, ra, c);
            let twice = add_quotients(qa, qa, carry);
            proof {
                let wide: int = qa + qa + (if carry { 1int } else { 0 });
                assert(wide * c + r2 == 2 * addend) by (nonlinear_arith)
                    requires
                        wide == qa + qa + (if carry { 1int } else { 0 }),
                        addend == qa * c + ra,
                        ra + ra == r2 + (if carry { c as int } else { 0 }),
                ;
                if twice is None {
                    assert(a * b >= (u128::MAX + 1) * c) by (nonlinear_arith)
                        requires
                            a * b == (q * c + r) + (2 * addend) * n,
                            2 * addend == wide * c + r2,
                            wide > u128::MAX,
                            n >= 1,
                            c > 0,
                            r2 >= 0,
                            q >= 0,
                            r >= 0,
                    ;
                    lemma_quotient_at_least(a * b, u128::MAX + 1, c as int);
                }
            }
            match twice {
                Some(t) => {
                    qa = t;
                    ra = r2;
                },
                None => {
                    return None;
                },
            }
        } else {
            assert((2 * addend) * 0 == 0 && (qa * c + ra) * 0 == 0) by (nonlinear_arith);
        }
    }
    proof {
        assert((qa * c + ra) * 0 == 0) by (nonlinear_arith);
        lemma_fundamental_div_mod_converse(a * b, c as int, q as int, r as int);
    }
    Some(q)
}

} // verus!
