//! IEEE 754 single-precision numbers, held as their 32 bits.
//!
//! What the bits alone decide (sign, order, finiteness, whole numbers) is
//! decided here. What needs rounding is left to an [`Arithmetic`], which the
//! caller supplies.

use vstd::arithmetic::mul::lemma_mul_equality_converse;
use vstd::arithmetic::power2::{lemma_pow2_adds, lemma_pow2_pos, lemma_pow2_strictly_increases, lemma_pow2_unfold, pow2};
use vstd::prelude::*;

verus! {

/// Arithmetic on single-precision numbers given by their bits.
///
/// No method carries a contract: a kernel is specified by which operation is
/// applied to which elements in which order, whatever the operations give.
pub trait Arithmetic {
    /// `x + y`.
    fn add(&self, x: u32, y: u32) -> u32;

    /// `x - y`.
    fn sub(&self, x: u32, y: u32) -> u32;

    /// `x * y`.
    fn mul(&self, x: u32, y: u32) -> u32;

    /// `x / y`.
    fn div(&self, x: u32, y: u32) -> u32;

    /// The square root of `x`.
    fn sqrt(&self, x: u32) -> u32;

    /// `e` to the power of `x`.
    fn exp(&self, x: u32) -> u32;

    /// The hyperbolic tangent of `x`.
    fn tanh(&self, x: u32) -> u32;

    /// The sine and the cosine of `x`.
    fn sin_cos(&self, x: u32) -> (u32, u32);

    /// `x` to the power of `y`.
    fn powf(&self, x: u32, y: u32) -> u32;

    /// The single-precision number nearest to an integer.
    fn from_integer(&self, n: u64) -> u32;

    /// The single-precision number nearest to a double-precision one, which
    /// is given by its 64 bits.
    fn narrow(&self, wide: u64) -> u32;

    /// The shortest decimal that reads back as `x`.
    fn display(&self, x: u32) -> String;
}

/// `r` is a result of `x + y`.
pub open spec fn adds<A: Arithmetic>(ops: &A, x: u32, y: u32, r: u32) -> bool {
    call_ensures(A::add, (ops, x, y), r)
}

/// `r` is a result of `x - y`.
pub open spec fn subtracts<A: Arithmetic>(ops: &A, x: u32, y: u32, r: u32) -> bool {
    call_ensures(A::sub, (ops, x, y), r)
}

/// `r` is a result of `x * y`.
pub open spec fn multiplies<A: Arithmetic>(ops: &A, x: u32, y: u32, r: u32) -> bool {
    call_ensures(A::mul, (ops, x, y), r)
}

/// `r` is a result of `x / y`.
pub open spec fn divides<A: Arithmetic>(ops: &A, x: u32, y: u32, r: u32) -> bool {
    call_ensures(A::div, (ops, x, y), r)
}

/// `r` is a result of the square root of `x`.
pub open spec fn roots<A: Arithmetic>(ops: &A, x: u32, r: u32) -> bool {
    call_ensures(A::sqrt, (ops, x), r)
}

/// `r` is a result of the exponential of `x`.
pub open spec fn exponentiates<A: Arithmetic>(ops: &A, x: u32, r: u32) -> bool {
    call_ensures(A::exp, (ops, x), r)
}

/// `r` is a result of the hyperbolic tangent of `x`.
pub open spec fn tanhs<A: Arithmetic>(ops: &A, x: u32, r: u32) -> bool {
    call_ensures(A::tanh, (ops, x), r)
}

/// `sin` and `cos` are a result of the sine and cosine of `x`.
pub open spec fn sines<A: Arithmetic>(ops: &A, x: u32, sin: u32, cos: u32) -> bool {
    call_ensures(A::sin_cos, (ops, x), (sin, cos))
}

/// `r` is a result of `x` to the power of `y`.
pub open spec fn powers<A: Arithmetic>(ops: &A, x: u32, y: u32, r: u32) -> bool {
    call_ensures(A::powf, (ops, x, y), r)
}

/// `r` is a result of converting the integer `n`.
pub open spec fn converts<A: Arithmetic>(ops: &A, n: u64, r: u32) -> bool {
    call_ensures(A::from_integer, (ops, n), r)
}

/// `r` is a result of narrowing a double-precision number.
pub open spec fn narrows<A: Arithmetic>(ops: &A, wide: u64, r: u32) -> bool {
    call_ensures(A::narrow, (ops, wide), r)
}

/// `r` is a decimal that stands for `x`.
pub open spec fn displays<A: Arithmetic>(ops: &A, x: u32, r: String) -> bool {
    call_ensures(A::display, (ops, x), r)
}

/// Each operation has one result for the same operands, as that of a machine
/// does.
///
/// The result is one bit for bit, a result that is not a number too. For
/// single-precision numbers Rust leaves the bits of such a result open, and how
/// exactly exponentials, tangents, sines and powers are rounded, so this holds
/// of an arithmetic that settles both.
pub open spec fn single_valued<A: Arithmetic>(ops: &A) -> bool {
    &&& forall|x: u32, y: u32, r: u32, s: u32| #[trigger]
        adds(ops, x, y, r) && #[trigger] adds(ops, x, y, s) ==> r == s
    &&& forall|x: u32, y: u32, r: u32, s: u32| #[trigger]
        subtracts(ops, x, y, r) && #[trigger] subtracts(ops, x, y, s) ==> r == s
    &&& forall|x: u32, y: u32, r: u32, s: u32| #[trigger]
        multiplies(ops, x, y, r) && #[trigger] multiplies(ops, x, y, s) ==> r == s
    &&& forall|x: u32, y: u32, r: u32, s: u32| #[trigger]
        divides(ops, x, y, r) && #[trigger] divides(ops, x, y, s) ==> r == s
    &&& forall|x: u32, r: u32, s: u32| #[trigger]
        roots(ops, x, r) && #[trigger] roots(ops, x, s) ==> r == s
    &&& forall|x: u32, r: u32, s: u32| #[trigger]
        exponentiates(ops, x, r) && #[trigger] exponentiates(ops, x, s) ==> r == s
    &&& forall|x: u32, r: u32, s: u32| #[trigger]
        tanhs(ops, x, r) && #[trigger] tanhs(ops, x, s) ==> r == s
    &&& forall|x: u32, sin: u32, cos: u32, sin2: u32, cos2: u32| #[trigger]
        sines(ops, x, sin, cos) && #[trigger] sines(ops, x, sin2, cos2) ==> sin == sin2 && cos
            == cos2
    &&& forall|x: u32, y: u32, r: u32, s: u32| #[trigger]
        powers(ops, x, y, r) && #[trigger] powers(ops, x, y, s) ==> r == s
    &&& forall|n: u64, r: u32, s: u32| #[trigger]
        converts(ops, n, r) && #[trigger] converts(ops, n, s) ==> r == s
    &&& forall|wide: u64, r: u32, s: u32| #[trigger]
        narrows(ops, wide, r) && #[trigger] narrows(ops, wide, s) ==> r == s
    &&& forall|x: u32, r: String, s: String| #[trigger]
        displays(ops, x, r) && #[trigger] displays(ops, x, s) ==> r@ == s@
}

/// A product that is a number does not depend on the order of its factors.
pub open spec fn commutative<A: Arithmetic>(ops: &A) -> bool {
    forall|x: u32, y: u32, r: u32, s: u32|
        {
            &&& #[trigger] multiplies(ops, x, y, r)
            &&& #[trigger] multiplies(ops, y, x, s)
            &&& !nan(x)
            &&& !nan(y)
            &&& !nan(r)
        } ==> r == s
}

/// A sum that is a number is the one sum of its summands.
pub open spec fn sums_settled<A: Arithmetic>(ops: &A) -> bool {
    forall|x: u32, y: u32, r: u32, s: u32|
        {
            &&& #[trigger] adds(ops, x, y, r)
            &&& #[trigger] adds(ops, x, y, s)
            &&& !nan(r)
        } ==> r == s
}

/// A sum or a product with an operand that is not a number is not a number.
pub open spec fn propagates_nan<A: Arithmetic>(ops: &A) -> bool {
    &&& forall|x: u32, y: u32, r: u32| #[trigger]
        adds(ops, x, y, r) && (nan(x) || nan(y)) ==> nan(r)
    &&& forall|x: u32, y: u32, r: u32| #[trigger]
        multiplies(ops, x, y, r) && (nan(x) || nan(y)) ==> nan(r)
}

/// Zero.
pub const ZERO: u32 = 0;

/// One half.
pub const HALF: u32 = 0x3F00_0000;

/// One.
pub const ONE: u32 = 0x3F80_0000;

/// Two.
pub const TWO: u32 = 0x4000_0000;

/// Minus two.
pub const NEG_TWO: u32 = 0xC000_0000;

/// Minus infinity.
pub const NEG_INFINITY: u32 = 0xFF80_0000;

/// Whether the sign bit is set.
pub open spec fn negative(b: u32) -> bool {
    b >= 0x8000_0000
}

/// The bits below the sign bit, as a number.
pub open spec fn magnitude(b: u32) -> nat {
    if negative(b) {
        (b - 0x8000_0000) as nat
    } else {
        b as nat
    }
}

/// Not a number.
pub open spec fn nan(b: u32) -> bool {
    magnitude(b) > 0x7F80_0000
}

/// Neither infinite nor not a number.
pub open spec fn finite(b: u32) -> bool {
    magnitude(b) < 0x7F80_0000
}

/// Numbers other than not-a-number are ordered as their ranks are: both zeros
/// have rank zero.
pub open spec fn rank(b: u32) -> int {
    if negative(b) {
        -(magnitude(b) as int)
    } else {
        magnitude(b) as int
    }
}

/// `x < y`.
pub open spec fn below(x: u32, y: u32) -> bool {
    !nan(x) && !nan(y) && rank(x) < rank(y)
}

/// `x > 0`.
pub open spec fn positive(x: u32) -> bool {
    !nan(x) && rank(x) > 0
}

/// The larger of two numbers, where one that is not a number gives way.
pub open spec fn larger(x: u32, y: u32) -> u32 {
    if nan(x) || below(x, y) {
        y
    } else {
        x
    }
}

/// The largest of the first `n` numbers and minus infinity.
pub open spec fn largest(s: Seq<u32>, n: nat) -> u32
    decreases n,
{
    if n == 0 {
        NEG_INFINITY
    } else {
        larger(largest(s, (n - 1) as nat), s[n - 1])
    }
}

/// The same number with the other sign.
pub open spec fn negated(x: u32) -> u32 {
    if negative(x) {
        (x - 0x8000_0000) as u32
    } else {
        (x + 0x8000_0000) as u32
    }
}

/// The same number without its sign.
pub open spec fn absolute(x: u32) -> u32 {
    magnitude(x) as u32
}

/// The significand, with the leading one of a normal number.
pub open spec fn significand(b: u32) -> nat {
    if magnitude(b) < 0x80_0000 {
        magnitude(b)
    } else {
        0x80_0000 + magnitude(b) % 0x80_0000
    }
}

/// The exponent: a finite number without sign is
/// `significand * 2^(exponent - 150)`.
pub open spec fn exponent(b: u32) -> nat {
    if magnitude(b) < 0x80_0000 {
        1
    } else {
        magnitude(b) / 0x80_0000
    }
}

/// The bits are those of the natural number `n`. Minus zero is zero.
pub open spec fn denotes(b: u32, n: nat) -> bool {
    &&& finite(b)
    &&& negative(b) ==> magnitude(b) == 0
    &&& n * pow2(150) == significand(b) * pow2(exponent(b))
}

/// Whether the bits are those of some natural number.
pub open spec fn whole(b: u32) -> bool {
    exists|n: nat| denotes(b, n)
}

/// The natural number that the bits are those of, or the largest 64-bit number
/// where that is smaller.
pub open spec fn whole_value(b: u32) -> u64 {
    let n = choose|n: nat| denotes(b, n);
    if n > u64::MAX {
        u64::MAX
    } else {
        n as u64
    }
}

/// Whether a number is finite.
pub fn is_finite(x: u32) -> (r: bool)
    ensures
        r == finite(x),
{
    let magnitude: u32 = if x >= 0x8000_0000 {
        x - 0x8000_0000
    } else {
        x
    };
    magnitude < 0x7F80_0000
}

/// Whether one number is below another.
pub fn is_below(x: u32, y: u32) -> (r: bool)
    ensures
        r == below(x, y),
{
    let x_magnitude: u32 = absolute_of(x);
    let y_magnitude: u32 = absolute_of(y);
    if x_magnitude > 0x7F80_0000 || y_magnitude > 0x7F80_0000 {
        return false;
    }
    if x >= 0x8000_0000 {
        if y >= 0x8000_0000 {
            y_magnitude < x_magnitude
        } else {
            x_magnitude > 0 || y_magnitude > 0
        }
    } else {
        y < 0x8000_0000 && x_magnitude < y_magnitude
    }
}

/// Whether a number is above zero.
pub fn is_positive(x: u32) -> (r: bool)
    ensures
        r == positive(x),
{
    0 < x && x <= 0x7F80_0000
}

/// The larger of two numbers.
pub fn larger_of(x: u32, y: u32) -> (r: u32)
    ensures
        r == larger(x, y),
{
    if absolute_of(x) > 0x7F80_0000 || is_below(x, y) {
        y
    } else {
        x
    }
}

/// The largest of some numbers and minus infinity.
pub fn largest_of(s: &Vec<u32>) -> (r: u32)
    ensures
        r == largest(s@, s@.len()),
{
    let mut r: u32 = NEG_INFINITY;
    let mut i: usize = 0;
    while i < s.len()
        invariant
            i <= s@.len(),
            r == largest(s@, i as nat),
        decreases s@.len() - i,
    {
        r = larger_of(r, s[i]);
        i += 1;
    }
    r
}

/// The number with the other sign.
pub fn negated_of(x: u32) -> (r: u32)
    ensures
        r == negated(x),
{
    if x >= 0x8000_0000 {
        x - 0x8000_0000
    } else {
        x + 0x8000_0000
    }
}

/// The number without its sign.
pub fn absolute_of(x: u32) -> (r: u32)
    ensures
        r == absolute(x),
        r == magnitude(x),
{
    if x >= 0x8000_0000 {
        x - 0x8000_0000
    } else {
        x
    }
}

fn power_of_two(n: u32) -> (r: u64)
    requires
        n < 64,
    ensures
        r == pow2(n as nat),
{
    let mut r: u64 = 1;
    let mut i: u32 = 0;
    proof {
        vstd::arithmetic::power2::lemma2_to64();
    }
    while i < n
        invariant
            i <= n < 64,
            r == pow2(i as nat),
        decreases n - i,
    {
        proof {
            lemma_pow2_unfold((i + 1) as nat);
            if i + 1 < 63 {
                lemma_pow2_strictly_increases((i + 1) as nat, 63);
            }
            vstd::arithmetic::power2::lemma2_to64_rest();
        }
        r = r * 2;
        i += 1;
    }
    r
}

/// Bits are those of one natural number at most.
pub proof fn lemma_denotes_unique(b: u32, m: nat, n: nat)
    requires
        denotes(b, m),
        denotes(b, n),
    ensures
        m == n,
{
    lemma_pow2_pos(150);
    lemma_mul_equality_converse(pow2(150) as int, m as int, n as int);
}

/// Reads the natural number that some bits are those of, if they are.
pub fn whole_of(b: u32) -> (r: Option<u64>)
    ensures
        r is Some <==> whole(b),
        r matches Some(n) ==> n == whole_value(b),
{
    let magnitude: u32 = absolute_of(b);
    if magnitude >= 0x7F80_0000 {
        return None;
    }
    if magnitude == 0 {
        proof {
            let p = pow2(exponent(b));
            assert(0 * pow2(150) == 0 * p) by (nonlinear_arith);
            assert(denotes(b, 0));
            let n = choose|n: nat| denotes(b, n);
            lemma_denotes_unique(b, 0, n);
        }
        return Some(0);
    }
    if b >= 0x8000_0000 {
        return None;
    }
    let e: u32 = magnitude / 0x80_0000;
    if e < 127 {
        proof {
            lemma_fraction(b);
        }
        return None;
    }
    let s: u64 = 0x80_0000 + (magnitude % 0x80_0000) as u64;
    if e < 150 {
        let unit: u64 = power_of_two(150 - e);
        proof {
            lemma_pow2_pos((150 - e) as nat);
            lemma_pow2_pos(e as nat);
            lemma_pow2_adds((150 - e) as nat, e as nat);
        }
        if s % unit != 0 {
            proof {
                assert forall|n: nat| !denotes(b, n) by {
                    if denotes(b, n) {
                        lemma_multiple(n, s as nat, unit as nat, pow2(e as nat));
                    }
                }
            }
            None
        } else {
            let n: u64 = s / unit;
            proof {
                assert(n * pow2(150) == s * pow2(e as nat)) by (nonlinear_arith)
                    requires
                        pow2(150) == unit * pow2(e as nat),
                        s % unit == 0,
                        n == s / unit,
                        unit > 0,
                ;
                assert(denotes(b, n as nat));
                lemma_denotes_unique(b, n as nat, choose|m: nat| denotes(b, m));
            }
            Some(n)
        }
    } else {
        proof {
            lemma_pow2_adds((e - 150) as nat, 150);
            let exact = s * pow2((e - 150) as nat);
            assert(exact * pow2(150) == s * pow2(e as nat)) by (nonlinear_arith)
                requires
                    exact == s * pow2((e - 150) as nat),
                    pow2((e - 150) as nat) * pow2(150) == pow2(e as nat),
            ;
            assert(denotes(b, exact as nat));
            lemma_denotes_unique(b, exact as nat, choose|m: nat| denotes(b, m));
        }
        if e <= 190 {
            let unit: u64 = power_of_two(e - 150);
            proof {
                vstd::arithmetic::power2::lemma2_to64_rest();
                if e < 190 {
                    lemma_pow2_strictly_increases((e - 150) as nat, 40);
                }
                assert(s * unit <= 0xFF_FFFF * 0x100_0000_0000) by (nonlinear_arith)
                    requires
                        s <= 0xFF_FFFF,
                        unit <= 0x100_0000_0000,
                ;
            }
            Some(s * unit)
        } else {
            proof {
                vstd::arithmetic::power2::lemma2_to64_rest();
                if e > 191 {
                    lemma_pow2_strictly_increases(41, (e - 150) as nat);
                }
                assert(s * pow2((e - 150) as nat) >= 0x80_0000 * 0x200_0000_0000) by (nonlinear_arith)
                    requires
                        s >= 0x80_0000,
                        pow2((e - 150) as nat) >= 0x200_0000_0000,
                ;
            }
            Some(u64::MAX)
        }
    }
}

/// A number strictly between zero and one is no natural number.
proof fn lemma_fraction(b: u32)
    requires
        0 < magnitude(b) < 127 * 0x80_0000,
    ensures
        !whole(b),
{
    let e = exponent(b);
    let s = significand(b);
    assert forall|n: nat| !denotes(b, n) by {
        if denotes(b, n) {
            assert(1 <= e <= 126);
            assert(0 < s < 0x100_0000);
            lemma_pow2_pos(e);
            if e < 126 {
                lemma_pow2_strictly_increases(e, 126);
            }
            lemma_pow2_adds(24, 126);
            vstd::arithmetic::power2::lemma2_to64();
            assert(0 < s * pow2(e) < pow2(150)) by (nonlinear_arith)
                requires
                    0 < s < 0x100_0000,
                    0 < pow2(e) <= pow2(126),
                    0x100_0000 * pow2(126) == pow2(150),
            ;
            assert(n == 0) by (nonlinear_arith)
                requires
                    n * pow2(150) < pow2(150),
                    n >= 0,
            ;
            assert(n * pow2(150) == 0) by (nonlinear_arith)
                requires
                    n == 0,
            ;
        }
    }
}

proof fn lemma_multiple(n: nat, s: nat, unit: nat, p: nat)
    requires
        n * (unit * p) == s * p,
        p > 0,
        unit > 0,
    ensures
        s % unit == 0,
{
    assert((n * unit) * p == s * p) by (nonlinear_arith)
        requires
            n * (unit * p) == s * p,
    ;
    lemma_mul_equality_converse(p as int, (n * unit) as int, s as int);
    vstd::arithmetic::div_mod::lemma_mod_multiples_basic(n as int, unit as int);
}

/// The largest of some numbers is finite exactly where one of them is and none
/// is plus infinity.
pub proof fn law_largest_finite(s: Seq<u32>)
    ensures
        finite(largest(s, s.len())) <==> {
            &&& exists|i: int| 0 <= i < s.len() && finite(#[trigger] s[i])
            &&& forall|i: int| 0 <= i < s.len() ==> #[trigger] s[i] != 0x7F80_0000
        },
{
    lemma_largest(s, s.len());
}

proof fn lemma_largest(s: Seq<u32>, n: nat)
    requires
        n <= s.len(),
    ensures
        !nan(largest(s, n)),
        finite(largest(s, n)) <==> {
            &&& exists|i: int| 0 <= i < n && finite(#[trigger] s[i])
            &&& forall|i: int| 0 <= i < n ==> #[trigger] s[i] != 0x7F80_0000
        },
        largest(s, n) == 0x7F80_0000 <==> exists|i: int| 0 <= i < n && #[trigger] s[i] == 0x7F80_0000,
    decreases n,
{
    if n > 0 {
        let m = (n - 1) as nat;
        lemma_largest(s, m);
        let x = largest(s, m);
        let y = s[n - 1];
        if finite(y) {
            assert(0 <= n - 1 < n && finite(s[n - 1]));
        }
        if exists|i: int| 0 <= i < m && finite(#[trigger] s[i]) {
            let i = choose|i: int| 0 <= i < m && finite(#[trigger] s[i]);
            assert(0 <= i < n && finite(s[i]));
        }
        if x == 0x7F80_0000 {
            let i = choose|i: int| 0 <= i < m && #[trigger] s[i] == 0x7F80_0000;
            assert(0 <= i < n && s[i] == 0x7F80_0000);
        }
    }
}

} // verus!
