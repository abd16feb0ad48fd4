//! What bits stand for, and that they are ordered and read as what they stand
//! for.

use vstd::arithmetic::power2::{
    lemma_pow2_pos, lemma_pow2_strictly_increases, lemma_pow2_unfold, pow2,
};
use vstd::prelude::*;

use crate::float::{
    absolute, below, denotes, finite, larger, largest, nan, negated, positive,
    whole, whole_value,
};

verus! {

/// What finite bits stand for, counted in the least number above zero, which is
/// two to the power of -149: a sign bit, eight bits of exponent and 23 of
/// fraction. The fraction of a number with an exponent has a leading one.
pub open spec fn counted(b: u32) -> int {
    let fraction = b as int % 0x80_0000;
    let exponent = b as int / 0x80_0000 % 0x100;
    let steps = if exponent == 0 {
        fraction
    } else {
        (0x80_0000 + fraction) * pow2((exponent - 1) as nat)
    };
    if b as int / 0x8000_0000 == 0 {
        steps
    } else {
        -steps
    }
}

/// Without their sign, bits count more the larger they are.
proof fn lemma_counted_grows(x: u32, y: u32)
    requires
        x < y < 0x7F80_0000,
    ensures
        0 <= counted(x) < counted(y),
{
    let f = x as int % 0x80_0000;
    let g = y as int % 0x80_0000;
    let d = x as int / 0x80_0000 % 0x100;
    let e = y as int / 0x80_0000 % 0x100;
    assert(d == x as int / 0x80_0000 && e == y as int / 0x80_0000);
    assert(0 <= d <= e <= 254);
    assert(d == e ==> f < g);
    if d > 0 {
        let p = pow2((d - 1) as nat);
        lemma_pow2_pos((d - 1) as nat);
        assert(0 <= (0x80_0000 + f) * p) by (nonlinear_arith)
            requires
                f >= 0,
                p > 0,
        ;
        if d == e {
            assert((0x80_0000 + f) * p < (0x80_0000 + g) * p) by (nonlinear_arith)
                requires
                    f < g,
                    p > 0,
            ;
        } else {
            let q = pow2((e - 1) as nat);
            lemma_pow2_unfold(d as nat);
            if d < e - 1 {
                lemma_pow2_strictly_increases(d as nat, (e - 1) as nat);
            }
            assert((0x80_0000 + f) * p < (0x80_0000 + g) * q) by (nonlinear_arith)
                requires
                    0 <= f < 0x80_0000,
                    0 <= g,
                    p > 0,
                    2 * p <= q,
            ;
        }
    } else if e > 0 {
        let q = pow2((e - 1) as nat);
        lemma_pow2_pos((e - 1) as nat);
        assert(0x80_0000 <= (0x80_0000 + g) * q) by (nonlinear_arith)
            requires
                0 <= g,
                q >= 1,
        ;
    }
}

/// Bits with the sign bit count what those without it count, below zero.
proof fn lemma_counted_sign(b: u32)
    requires
        b < 0x8000_0000,
    ensures
        counted((b + 0x8000_0000) as u32) == -counted(b),
{
    let c = (b + 0x8000_0000) as u32;
    assert(c as int % 0x80_0000 == b as int % 0x80_0000);
    assert(c as int / 0x80_0000 % 0x100 == b as int / 0x80_0000 % 0x100);
}

/// The bits of a finite number are those whose exponent has a bit that is not
/// set; of the others, those with a fraction are not a number.
pub proof fn law_kinds(b: u32)
    ensures
        finite(b) <==> b as int / 0x80_0000 % 0x100 != 255,
        nan(b) <==> b as int / 0x80_0000 % 0x100 == 255 && b as int % 0x80_0000 != 0,
{
}

/// Finite numbers are ordered as what they stand for. Minus infinity is below all
/// of them and infinity is above, and what is not a number is neither below nor
/// above anything.
pub proof fn law_order(x: u32, y: u32)
    ensures
        finite(x) && finite(y) ==> (below(x, y) <==> counted(x) < counted(y)),
        finite(x) ==> below(x, 0x7F80_0000) && !below(0x7F80_0000, x),
        finite(x) ==> below(0xFF80_0000, x) && !below(x, 0xFF80_0000),
        below(0xFF80_0000, 0x7F80_0000),
        nan(x) ==> !below(x, y) && !below(y, x),
        finite(x) ==> (positive(x) <==> counted(x) > 0),
        positive(0x7F80_0000),
        !positive(0xFF80_0000),
        nan(x) ==> !positive(x),
{
    if finite(x) && finite(y) {
        let a = absolute(x);
        let b = absolute(y);
        if a < b {
            lemma_counted_grows(a, b);
        }
        if b < a {
            lemma_counted_grows(b, a);
        }
        if a > 0 {
            lemma_counted_grows(0, a);
        }
        if b > 0 {
            lemma_counted_grows(0, b);
        }
        lemma_counted_sign(a);
        lemma_counted_sign(b);
        assert(counted(0) == 0);
    }
    if finite(x) {
        let a = absolute(x);
        if a > 0 {
            lemma_counted_grows(0, a);
        }
        lemma_counted_sign(a);
        assert(counted(0) == 0);
    }
}

/// Turning the sign turns what a number stands for, and twice gives it back.
/// Without its sign a number stands for as much, from zero on.
pub proof fn law_sign(x: u32)
    ensures
        counted(negated(x)) == -counted(x),
        negated(negated(x)) == x,
        negated(x) != x,
        finite(x) ==> counted(absolute(x)) == if counted(x) < 0 {
            -counted(x)
        } else {
            counted(x)
        },
        absolute(x) == x || absolute(x) == negated(x),
        absolute(x) < 0x8000_0000,
{
    if x < 0x8000_0000 {
        lemma_counted_sign(x);
    } else {
        lemma_counted_sign((x - 0x8000_0000) as u32);
    }
    if finite(x) {
        let a = absolute(x);
        if a > 0 {
            lemma_counted_grows(0, a);
        }
        assert(counted(0) == 0);
    }
}

/// Bits are those of a natural number exactly where they are finite and stand
/// for it: for it times two to the power of 149 of the least steps.
pub proof fn law_whole(b: u32, n: nat)
    ensures
        denotes(b, n) <==> finite(b) && counted(b) == n * pow2(149),
{
    lemma_pow2_unfold(150);
    lemma_pow2_pos(149);
    let a = absolute(b);
    lemma_counted_sign(a);
    if finite(b) {
        if a > 0 {
            lemma_counted_grows(0, a);
        }
        assert(counted(0) == 0);
        let e = crate::float::exponent(b);
        let s = crate::float::significand(b);
        let p = pow2((e - 1) as nat);
        lemma_pow2_unfold(e);
        lemma_pow2_pos((e - 1) as nat);
        vstd::arithmetic::power2::lemma2_to64();
        assert(1 <= e);
        assert(a as int / 0x80_0000 % 0x100 == a as int / 0x80_0000);
        assert(counted(a) == s * p) by {
            if a < 0x80_0000 {
                assert(s == a && p == 1);
                assert(s * 1 == s) by (nonlinear_arith);
            }
        }
        let t = pow2(149);
        assert(n * (2 * t) == s * (2 * p) <==> n * t == s * p) by (nonlinear_arith);
        assert(n * t >= 0) by (nonlinear_arith)
            requires
                t > 0,
                n >= 0,
        ;
    }
}

/// The natural number that bits are read as is what they stand for, or the
/// largest number of 64 bits where they stand for more. Bits that stand for no
/// natural number are not read.
pub proof fn law_whole_read(b: u32)
    ensures
        whole(b) <==> finite(b) && exists|n: nat| #[trigger] (n * pow2(149)) == counted(b),
        whole(b) && whole_value(b) < u64::MAX ==> counted(b) == whole_value(b) * pow2(149),
        whole(b) && whole_value(b) == u64::MAX ==> counted(b) >= u64::MAX * pow2(149),
{
    lemma_pow2_pos(149);
    if whole(b) {
        let n = choose|n: nat| denotes(b, n);
        law_whole(b, n);
        assert((n * pow2(149)) == counted(b));
        let t = pow2(149);
        if n >= u64::MAX {
            assert(n * t >= u64::MAX * t) by (nonlinear_arith)
                requires
                    n >= u64::MAX,
                    t > 0,
            ;
        }
    }
    if finite(b) && exists|n: nat| #[trigger] (n * pow2(149)) == counted(b) {
        let n = choose|n: nat| #[trigger] (n * pow2(149)) == counted(b);
        law_whole(b, n);
    }
}

/// The larger of two numbers is one of them, and neither is above it; what is
/// not a number gives way to what is.
pub proof fn law_larger(x: u32, y: u32)
    ensures
        larger(x, y) == x || larger(x, y) == y,
        !below(larger(x, y), x),
        !below(larger(x, y), y),
        nan(x) ==> larger(x, y) == y,
        nan(y) && !nan(x) ==> larger(x, y) == x,
{
}

/// The largest of some numbers is a number. None of them is above it, and it is
/// one of them, or minus infinity where none is above that.
pub proof fn law_largest(s: Seq<u32>, n: nat)
    requires
        n <= s.len(),
    ensures
        !nan(largest(s, n)),
        forall|i: int| 0 <= i < n ==> !below(largest(s, n), #[trigger] s[i]),
        (exists|i: int| 0 <= i < n && #[trigger] s[i] == largest(s, n)) || (largest(s, n)
            == 0xFF80_0000 && forall|i: int| 0 <= i < n ==> !below(0xFF80_0000, #[trigger] s[i])),
    decreases n,
{
    if n > 0 {
        let m = (n - 1) as nat;
        law_largest(s, m);
        let x = largest(s, m);
        law_larger(x, s[n - 1]);
        if largest(s, n) == s[n - 1] {
            assert(s[n - 1] == largest(s, n));
        } else if exists|i: int| 0 <= i < m && #[trigger] s[i] == x {
            let i = choose|i: int| 0 <= i < m && #[trigger] s[i] == x;
            assert(s[i] == largest(s, n));
        }
    }
}

} // verus!
