//! Bits read as real numbers: what rounding may lose, and what it keeps.

use vstd::prelude::*;

use crate::float::{
    adds, below, converts, divides, exponentiates, finite, multiplies, roots, subtracts,
    Arithmetic, ONE, ZERO,
};

verus! {

/// The sum of the first `n` numbers.
pub open spec fn series(f: spec_fn(int) -> real, n: nat) -> real
    decreases n,
{
    if n == 0 {
        0real
    } else {
        series(f, (n - 1) as nat) + f(n - 1)
    }
}

/// The sum of the first `n` products of two rows of numbers.
pub open spec fn product_series(
    value: spec_fn(u32) -> real,
    left: spec_fn(int) -> u32,
    right: spec_fn(int) -> u32,
    n: nat,
) -> real
    decreases n,
{
    if n == 0 {
        0real
    } else {
        product_series(value, left, right, (n - 1) as nat) + value(left(n - 1)) * value(
            right(n - 1),
        )
    }
}

/// `b` multiplied by itself `n` times.
pub open spec fn raised(b: real, n: nat) -> real
    decreases n,
{
    if n == 0 {
        1real
    } else {
        raised(b, (n - 1) as nat) * b
    }
}

/// A number without its sign.
pub open spec fn size(x: real) -> real {
    if x < 0real {
        -x
    } else {
        x
    }
}

/// Two to the power of 64: results up to here are promised to be finite.
pub open spec fn most() -> real {
    18446744073709551616real
}

/// Finite bits read as real numbers, each operation is that of the reals up to
/// rounding: the result is off by at most `unit` times itself, and a product or
/// a quotient by at most `least` more.
///
/// Single-precision numbers round so, with two to the power of -24 for `unit`
/// and of -150 for `least`.
pub open spec fn rounds<A: Arithmetic>(
    ops: &A,
    value: spec_fn(u32) -> real,
    unit: real,
    least: real,
) -> bool {
    &&& 0real <= unit < 1real
    &&& 0real <= least
    &&& value(ZERO) == 0real
    &&& value(ONE) == 1real
    &&& forall|x: u32, y: u32|
        finite(x) && finite(y) ==> #[trigger] below(x, y) == (value(x) < value(y))
    &&& forall|x: u32, y: u32, r: u32|
        finite(x) && finite(y) && #[trigger] adds(ops, x, y, r) && size(value(x) + value(y))
            <= most() ==> finite(r) && size(value(r) - (value(x) + value(y))) <= unit * size(
            value(x) + value(y),
        )
    &&& forall|x: u32, y: u32, r: u32|
        finite(x) && finite(y) && #[trigger] subtracts(ops, x, y, r) && size(value(x) - value(y))
            <= most() ==> finite(r) && size(value(r) - (value(x) - value(y))) <= unit * size(
            value(x) - value(y),
        )
    &&& forall|x: u32, y: u32, r: u32|
        finite(x) && finite(y) && #[trigger] multiplies(ops, x, y, r) && size(value(x) * value(y))
            <= most() ==> finite(r) && size(value(r) - value(x) * value(y)) <= unit * size(
            value(x) * value(y),
        ) + least
    &&& forall|x: u32, y: u32, r: u32|
        finite(x) && finite(y) && #[trigger] divides(ops, x, y, r) && value(y) != 0real && size(
            value(x) / value(y),
        ) <= most() ==> finite(r) && size(value(r) - value(x) / value(y)) <= unit * size(
            value(x) / value(y),
        ) + least
    &&& forall|x: u32, r: u32|
        finite(x) && 0real <= value(x) && #[trigger] roots(ops, x, r) ==> {
            &&& finite(r)
            &&& 0real <= value(r)
            &&& (1real - unit) * (1real - unit) * value(x) <= value(r) * value(r)
            &&& value(r) * value(r) <= (1real + unit) * (1real + unit) * value(x)
        }
    &&& forall|n: u64, r: u32| #[trigger]
        converts(ops, n, r) ==> finite(r) && size(value(r) - n as int as real) <= unit
            * n as int as real
    &&& forall|x: u32, r: u32|
        finite(x) && value(x) <= 0real && #[trigger] exponentiates(ops, x, r) ==> {
            &&& finite(r)
            &&& 0real <= value(r) <= 1real
            &&& value(x) == 0real ==> value(r) == 1real
        }
}

/// Finite bits stand for the number.
pub open spec fn held(value: spec_fn(u32) -> real, z: real) -> bool {
    exists|b: u32| finite(b) && #[trigger] value(b) == z
}

/// Finite bits read as real numbers, a sum, a difference or a product that
/// some bits stand for is exact.
///
/// The operations of single-precision numbers are exact so.
pub open spec fn exact<A: Arithmetic>(ops: &A, value: spec_fn(u32) -> real) -> bool {
    &&& value(ZERO) == 0real
    &&& forall|x: u32, y: u32, r: u32|
        finite(x) && finite(y) && #[trigger] adds(ops, x, y, r) && held(value, value(x) + value(y))
            ==> finite(r) && value(r) == value(x) + value(y)
    &&& forall|x: u32, y: u32, r: u32|
        finite(x) && finite(y) && #[trigger] subtracts(ops, x, y, r) && held(
            value,
            value(x) - value(y),
        ) ==> finite(r) && value(r) == value(x) - value(y)
    &&& forall|x: u32, y: u32, r: u32|
        finite(x) && finite(y) && #[trigger] multiplies(ops, x, y, r) && held(
            value,
            value(x) * value(y),
        ) ==> finite(r) && value(r) == value(x) * value(y)
}

/// Powers of a base of at least one grow, and of at most one shrink.
pub proof fn lemma_raised(unit: real, n: nat)
    requires
        0real <= unit < 1real,
    ensures
        1real <= raised(1real + unit, n),
        0real < raised(1real - unit, n) <= 1real,
        n > 0 ==> raised(1real + unit, (n - 1) as nat) <= raised(1real + unit, n),
    decreases n,
{
    if n > 0 {
        lemma_raised(unit, (n - 1) as nat);
        let a = raised(1real + unit, (n - 1) as nat);
        let b = raised(1real - unit, (n - 1) as nat);
        assert(a <= a * (1real + unit)) by (nonlinear_arith)
            requires
                0real <= unit,
                1real <= a,
        ;
        assert(0real < b * (1real - unit) <= b) by (nonlinear_arith)
            requires
                0real <= unit < 1real,
                0real < b,
        ;
    }
}

/// A sum of rounded additions is off by a factor for each of them.
pub proof fn lemma_rounded_sum<A: Arithmetic>(
    ops: &A,
    value: spec_fn(u32) -> real,
    unit: real,
    least: real,
    terms: Seq<u32>,
    sums: Seq<u32>,
    n: nat,
)
    requires
        rounds(ops, value, unit, least),
        n <= terms.len(),
        n < sums.len(),
        sums[0] == ZERO,
        forall|i: int| 0 <= i < n ==> adds(ops, sums[i], terms[i], #[trigger] sums[i + 1]),
        forall|i: int|
            0 <= i < n ==> finite(#[trigger] terms[i]) && 0real <= value(terms[i]) <= 1real,
        n as int as real * raised(1real + unit, n) <= most(),
    ensures
        finite(sums[n as int]),
        0real <= series(|i: int| value(terms[i]), n) <= n as int as real,
        raised(1real - unit, n) * series(|i: int| value(terms[i]), n) <= value(sums[n as int]),
        value(sums[n as int]) <= raised(1real + unit, n) * series(|i: int| value(terms[i]), n),
    decreases n,
{
    let f = |i: int| value(terms[i]);
    if n == 0 {
        assert(raised(1real - unit, 0) * 0real == 0real && raised(1real + unit, 0) * 0real
            == 0real);
    } else {
        let m = (n - 1) as nat;
        let a = raised(1real + unit, m);
        let b = raised(1real - unit, m);
        let before = series(f, m);
        let x = f(n - 1);
        let s = value(sums[n - 1]);
        let s2 = value(sums[n as int]);
        lemma_raised(unit, m);
        lemma_raised(unit, n);
        let c = raised(1real + unit, n);
        assert(m as int as real * a <= n as int as real * c) by (nonlinear_arith)
            requires
                0real <= m as int as real <= n as int as real,
                0real <= a <= c,
        ;
        lemma_rounded_sum(ops, value, unit, least, terms, sums, m);
        assert(x == value(terms[n - 1]));
        assert(adds(ops, sums[n - 1], terms[n - 1], sums[n - 1 + 1]));
        assert(s + x <= a * (before + x)) by (nonlinear_arith)
            requires
                s <= a * before,
                0real <= x,
                1real <= a,
        ;
        assert(b * (before + x) <= s + x) by (nonlinear_arith)
            requires
                b * before <= s,
                0real <= x,
                b <= 1real,
        ;
        assert(0real <= b * (before + x)) by (nonlinear_arith)
            requires
                0real < b,
                0real <= before + x,
        ;
        assert(a * (before + x) <= n as int as real * c) by (nonlinear_arith)
            requires
                0real <= before + x <= n as int as real,
                0real <= a <= c,
        ;
        assert(size(s + x) <= most());
        assert(size(s2 - (s + x)) <= unit * size(s + x));
        assert(s2 <= (1real + unit) * (s + x)) by (nonlinear_arith)
            requires
                s2 - (s + x) <= unit * (s + x),
        ;
        assert((1real - unit) * (s + x) <= s2) by (nonlinear_arith)
            requires
                (s + x) - s2 <= unit * (s + x),
        ;
        assert((1real + unit) * (s + x) <= (a * (1real + unit)) * (before + x)) by (nonlinear_arith)
            requires
                s + x <= a * (before + x),
                0real <= unit,
        ;
        assert((b * (1real - unit)) * (before + x) <= (1real - unit) * (s + x)) by (nonlinear_arith)
            requires
                b * (before + x) <= s + x,
                unit < 1real,
        ;
    }
}

/// Where products and partial sums are numbers that some bits stand for, a sum
/// of products is exact.
pub proof fn lemma_exact_products<A: Arithmetic>(
    ops: &A,
    value: spec_fn(u32) -> real,
    left: spec_fn(int) -> u32,
    right: spec_fn(int) -> u32,
    products: Seq<u32>,
    sums: Seq<u32>,
    n: nat,
)
    requires
        exact(ops, value),
        n <= products.len(),
        n < sums.len(),
        sums[0] == ZERO,
        forall|i: int|
            0 <= i < n ==> {
                &&& multiplies(ops, left(i), right(i), #[trigger] products[i])
                &&& adds(ops, sums[i], products[i], sums[i + 1])
                &&& finite(left(i)) && finite(right(i))
                &&& held(value, value(left(i)) * value(right(i)))
            },
        forall|i: nat|
            i <= n ==> held(value, #[trigger] product_series(value, left, right, i)),
    ensures
        finite(sums[n as int]),
        value(sums[n as int]) == product_series(value, left, right, n),
    decreases n,
{
    if n > 0 {
        let m = (n - 1) as nat;
        lemma_exact_products(ops, value, left, right, products, sums, m);
        assert(multiplies(ops, left(n - 1), right(n - 1), products[n - 1]));
        assert(held(value, product_series(value, left, right, n)));
        assert(adds(ops, sums[n - 1], products[n - 1], sums[n - 1 + 1]));
    }
}

/// One over the root of a number, multiplied by itself and by the number, is one
/// up to rounding.
pub proof fn lemma_inverse_root<A: Arithmetic>(
    ops: &A,
    value: spec_fn(u32) -> real,
    unit: real,
    least: real,
    x: u32,
    root: u32,
    scale: u32,
)
    requires
        rounds(ops, value, unit, least),
        finite(x),
        0real < value(x),
        1real <= (1real - unit) * (1real - unit) * value(x) * most() * most(),
        roots(ops, x, root),
        divides(ops, ONE, root, scale),
    ensures
        ({
            let s = value(scale);
            let off = unit + least * value(root);
            &&& finite(scale)
            &&& 0real < value(root)
            &&& s * s * value(x) * ((1real - unit) * (1real - unit)) <= (1real + off) * (1real
                + off)
            &&& off <= 1real ==> (1real - off) * (1real - off) <= s * s * value(x) * ((1real
                + unit) * (1real + unit))
        }),
{
    let v = value(x);
    let w = value(root);
    let s = value(scale);
    let d = (1real - unit) * (1real - unit);
    let c = (1real + unit) * (1real + unit);
    assert(finite(ONE));
    assert(0real < d) by (nonlinear_arith)
        requires
            d == (1real - unit) * (1real - unit),
            unit < 1real,
    ;
    assert(0real < d * v) by (nonlinear_arith)
        requires
            0real < d,
            0real < v,
    ;
    assert(0real < w) by (nonlinear_arith)
        requires
            0real < d * v,
            d * v <= w * w,
            0real <= w,
    ;
    assert(1real <= w * most()) by (nonlinear_arith)
        requires
            1real <= d * v * most() * most(),
            d * v <= w * w,
            0real < w,
            most() == 18446744073709551616real,
    ;
    assert(0real < 1real / w <= most()) by (nonlinear_arith)
        requires
            0real < w,
            1real <= w * most(),
    ;
    let z = 1real / w;
    assert(z * w == 1real) by (nonlinear_arith)
        requires
            z == 1real / w,
            0real < w,
    ;
    let off = unit + least * w;
    assert(s * w <= 1real + off) by (nonlinear_arith)
        requires
            s - z <= unit * z + least,
            z * w == 1real,
            0real < w,
            off == unit + least * w,
    ;
    assert(1real - off <= s * w) by (nonlinear_arith)
        requires
            z - s <= unit * z + least,
            z * w == 1real,
            0real < w,
            off == unit + least * w,
    ;
    assert(0real <= off) by (nonlinear_arith)
        requires
            off == unit + least * w,
            0real <= unit,
            0real <= least,
            0real < w,
    ;
    let y = s * w;
    assert(-(1real + off) <= y);
    assert(y * y <= (1real + off) * (1real + off)) by (nonlinear_arith)
        requires
            -(1real + off) <= y <= 1real + off,
    ;
    assert(y * y == (s * s) * (w * w)) by (nonlinear_arith)
        requires
            y == s * w,
    ;
    let q = s * s;
    assert(0real <= q) by (nonlinear_arith)
        requires
            q == s * s,
    ;
    assert(q * v * d <= q * (w * w)) by (nonlinear_arith)
        requires
            d * v <= w * w,
            0real <= q,
    ;
    assert(q * (w * w) <= q * v * c) by (nonlinear_arith)
        requires
            w * w <= c * v,
            0real <= q,
    ;
    if off <= 1real {
        assert((1real - off) * (1real - off) <= y * y) by (nonlinear_arith)
            requires
                0real <= 1real - off <= y,
        ;
    }
}

/// Quotients of numbers by one divisor add up to the quotient of their sum, up
/// to what each is rounded by.
pub proof fn lemma_rounded_quotients(
    terms: spec_fn(int) -> real,
    quotients: spec_fn(int) -> real,
    divisor: real,
    unit: real,
    least: real,
    n: nat,
)
    requires
        0real < divisor,
        forall|i: int|
            0 <= i < n ==> size(#[trigger] quotients(i) - terms(i) / divisor) <= unit * (terms(i)
                / divisor) + least,
    ensures
        size(series(quotients, n) - series(terms, n) / divisor) <= unit * (series(terms, n)
            / divisor) + n as int as real * least,
    decreases n,
{
    if n == 0 {
        assert(0real / divisor == 0real) by (nonlinear_arith)
            requires
                0real < divisor,
        ;
        assert(unit * 0real == 0real && 0real * least == 0real);
    } else {
        let m = (n - 1) as nat;
        lemma_rounded_quotients(terms, quotients, divisor, unit, least, m);
        let t = series(terms, m);
        let x = terms(n - 1);
        let q = series(quotients, m);
        let y = quotients(n - 1);
        assert((t + x) / divisor == t / divisor + x / divisor) by (nonlinear_arith)
            requires
                0real < divisor,
        ;
        let a = t / divisor;
        let b = x / divisor;
        assert(unit * (a + b) == unit * a + unit * b) by (nonlinear_arith);
        assert(n as int as real == m as int as real + 1real);
        assert((m as int as real + 1real) * least == m as int as real * least + least)
            by (nonlinear_arith);
        assert(size(y - b) <= unit * b + least);
        assert(size(q - a) <= unit * a + m as int as real * least);
    }
}

} // verus!
