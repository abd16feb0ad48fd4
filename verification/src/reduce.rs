//! Sums of elements and of products of elements, taken in order.

use vstd::prelude::*;

use crate::float::{
    adds, commutative, divides, multiplies, nan, propagates_nan, single_valued, sums_settled,
    Arithmetic, ZERO,
};

verus! {

/// `r` is `x[x0] * y[y0] + x[x0 + xs] * y[y0 + ys] + ...` over `n` products,
/// added to zero from the left.
pub open spec fn dot<A: Arithmetic>(
    ops: &A,
    x: Seq<u32>,
    x0: int,
    xs: int,
    y: Seq<u32>,
    y0: int,
    ys: int,
    n: nat,
    r: u32,
) -> bool
    decreases n,
{
    if n == 0 {
        r == ZERO
    } else {
        exists|sum: u32, product: u32|
            {
                &&& dot(ops, x, x0, xs, y, y0, ys, (n - 1) as nat, sum)
                &&& multiplies(ops, x[x0 + (n - 1) * xs], y[y0 + (n - 1) * ys], product)
                &&& #[trigger] adds(ops, sum, product, r)
            }
    }
}

/// `r` is the sum of the first `n` elements, added to zero from the left.
pub open spec fn total<A: Arithmetic>(ops: &A, s: Seq<u32>, n: nat, r: u32) -> bool
    decreases n,
{
    if n == 0 {
        r == ZERO
    } else {
        exists|sum: u32|
            {
                &&& total(ops, s, (n - 1) as nat, sum)
                &&& #[trigger] adds(ops, sum, s[n - 1], r)
            }
    }
}

/// `r` is `(w[0] / sum) * v[v0] + (w[1] / sum) * v[v0 + vs] + ...` over `n`
/// products, added to zero from the left.
pub open spec fn weighted<A: Arithmetic>(
    ops: &A,
    w: Seq<u32>,
    sum: u32,
    v: Seq<u32>,
    v0: int,
    vs: int,
    n: nat,
    r: u32,
) -> bool
    decreases n,
{
    if n == 0 {
        r == ZERO
    } else {
        exists|before: u32, product: u32|
            {
                &&& weighted(ops, w, sum, v, v0, vs, (n - 1) as nat, before)
                &&& shares(ops, w[n - 1], sum, v[v0 + (n - 1) * vs], product)
                &&& #[trigger] adds(ops, before, product, r)
            }
    }
}

/// `r` is `(w / sum) * x`.
pub open spec fn shares<A: Arithmetic>(ops: &A, w: u32, sum: u32, x: u32, r: u32) -> bool {
    exists|share: u32| divides(ops, w, sum, share) && #[trigger] multiplies(ops, share, x, r)
}

/// A sum of products depends on the elements that it takes alone, not on how
/// far apart they are stored.
pub proof fn lemma_dot_same<A: Arithmetic>(
    ops: &A,
    x: Seq<u32>,
    x0: int,
    xs: int,
    x2: Seq<u32>,
    x20: int,
    x2s: int,
    y: Seq<u32>,
    y0: int,
    ys: int,
    y2: Seq<u32>,
    y20: int,
    y2s: int,
    n: nat,
    r: u32,
)
    requires
        dot(ops, x, x0, xs, y, y0, ys, n, r),
        forall|i: int| 0 <= i < n ==> x[#[trigger] (x0 + i * xs)] == x2[x20 + i * x2s],
        forall|i: int| 0 <= i < n ==> y[#[trigger] (y0 + i * ys)] == y2[y20 + i * y2s],
    ensures
        dot(ops, x2, x20, x2s, y2, y20, y2s, n, r),
    decreases n,
{
    if n > 0 {
        let (sum, product) = choose|sum: u32, product: u32|
            {
                &&& dot(ops, x, x0, xs, y, y0, ys, (n - 1) as nat, sum)
                &&& multiplies(ops, x[x0 + (n - 1) * xs], y[y0 + (n - 1) * ys], product)
                &&& #[trigger] adds(ops, sum, product, r)
            };
        lemma_dot_same(
            ops,
            x,
            x0,
            xs,
            x2,
            x20,
            x2s,
            y,
            y0,
            ys,
            y2,
            y20,
            y2s,
            (n - 1) as nat,
            sum,
        );
        assert(adds(ops, sum, product, r));
    }
}

/// A weighted sum depends on the elements that it takes alone, not on how far
/// apart they are stored.
pub proof fn lemma_weighted_same<A: Arithmetic>(
    ops: &A,
    w: Seq<u32>,
    sum: u32,
    v: Seq<u32>,
    v0: int,
    vs: int,
    v2: Seq<u32>,
    v20: int,
    v2s: int,
    n: nat,
    r: u32,
)
    requires
        weighted(ops, w, sum, v, v0, vs, n, r),
        forall|i: int| 0 <= i < n ==> v[#[trigger] (v0 + i * vs)] == v2[v20 + i * v2s],
    ensures
        weighted(ops, w, sum, v2, v20, v2s, n, r),
    decreases n,
{
    if n > 0 {
        let (before, product) = choose|before: u32, product: u32|
            {
                &&& weighted(ops, w, sum, v, v0, vs, (n - 1) as nat, before)
                &&& shares(ops, w[n - 1], sum, v[v0 + (n - 1) * vs], product)
                &&& #[trigger] adds(ops, before, product, r)
            };
        lemma_weighted_same(ops, w, sum, v, v0, vs, v2, v20, v2s, (n - 1) as nat, before);
        assert(v[v0 + (n - 1) * vs] == v2[v20 + (n - 1) * v2s]);
        assert(adds(ops, before, product, r));
    }
}

/// There is one sum of products.
pub proof fn lemma_dot_once<A: Arithmetic>(
    ops: &A,
    x: Seq<u32>,
    x0: int,
    xs: int,
    y: Seq<u32>,
    y0: int,
    ys: int,
    n: nat,
    r: u32,
    r2: u32,
)
    requires
        single_valued(ops),
        dot(ops, x, x0, xs, y, y0, ys, n, r),
        dot(ops, x, x0, xs, y, y0, ys, n, r2),
    ensures
        r == r2,
    decreases n,
{
    if n > 0 {
        let (sum, product) = choose|sum: u32, product: u32|
            {
                &&& dot(ops, x, x0, xs, y, y0, ys, (n - 1) as nat, sum)
                &&& multiplies(ops, x[x0 + (n - 1) * xs], y[y0 + (n - 1) * ys], product)
                &&& #[trigger] adds(ops, sum, product, r)
            };
        let (sum2, product2) = choose|sum: u32, product: u32|
            {
                &&& dot(ops, x, x0, xs, y, y0, ys, (n - 1) as nat, sum)
                &&& multiplies(ops, x[x0 + (n - 1) * xs], y[y0 + (n - 1) * ys], product)
                &&& #[trigger] adds(ops, sum, product, r2)
            };
        lemma_dot_once(ops, x, x0, xs, y, y0, ys, (n - 1) as nat, sum, sum2);
    }
}

/// There is one sum.
pub proof fn lemma_total_once<A: Arithmetic>(ops: &A, s: Seq<u32>, n: nat, r: u32, r2: u32)
    requires
        single_valued(ops),
        total(ops, s, n, r),
        total(ops, s, n, r2),
    ensures
        r == r2,
    decreases n,
{
    if n > 0 {
        let sum = choose|sum: u32|
            total(ops, s, (n - 1) as nat, sum) && #[trigger] adds(ops, sum, s[n - 1], r);
        let sum2 = choose|sum: u32|
            total(ops, s, (n - 1) as nat, sum) && #[trigger] adds(ops, sum, s[n - 1], r2);
        lemma_total_once(ops, s, (n - 1) as nat, sum, sum2);
    }
}

/// There is one weighted sum.
pub proof fn lemma_weighted_once<A: Arithmetic>(
    ops: &A,
    w: Seq<u32>,
    sum: u32,
    v: Seq<u32>,
    v0: int,
    vs: int,
    n: nat,
    r: u32,
    r2: u32,
)
    requires
        single_valued(ops),
        weighted(ops, w, sum, v, v0, vs, n, r),
        weighted(ops, w, sum, v, v0, vs, n, r2),
    ensures
        r == r2,
    decreases n,
{
    if n > 0 {
        let (before, product) = choose|before: u32, product: u32|
            {
                &&& weighted(ops, w, sum, v, v0, vs, (n - 1) as nat, before)
                &&& shares(ops, w[n - 1], sum, v[v0 + (n - 1) * vs], product)
                &&& #[trigger] adds(ops, before, product, r)
            };
        let (before2, product2) = choose|before: u32, product: u32|
            {
                &&& weighted(ops, w, sum, v, v0, vs, (n - 1) as nat, before)
                &&& shares(ops, w[n - 1], sum, v[v0 + (n - 1) * vs], product)
                &&& #[trigger] adds(ops, before, product, r2)
            };
        lemma_weighted_once(ops, w, sum, v, v0, vs, (n - 1) as nat, before, before2);
        assert(product == product2);
    }
}

/// With products that do not depend on the order of their factors, a sum of
/// products that is a number does not either.
pub proof fn lemma_dot_swapped<A: Arithmetic>(
    ops: &A,
    x: Seq<u32>,
    x0: int,
    xs: int,
    y: Seq<u32>,
    y0: int,
    ys: int,
    n: nat,
    r: u32,
    r2: u32,
)
    requires
        commutative(ops),
        sums_settled(ops),
        propagates_nan(ops),
        dot(ops, x, x0, xs, y, y0, ys, n, r),
        dot(ops, y, y0, ys, x, x0, xs, n, r2),
        !nan(r),
    ensures
        r == r2,
    decreases n,
{
    if n > 0 {
        let (sum, product) = choose|sum: u32, product: u32|
            {
                &&& dot(ops, x, x0, xs, y, y0, ys, (n - 1) as nat, sum)
                &&& multiplies(ops, x[x0 + (n - 1) * xs], y[y0 + (n - 1) * ys], product)
                &&& #[trigger] adds(ops, sum, product, r)
            };
        let (sum2, product2) = choose|sum: u32, product: u32|
            {
                &&& dot(ops, y, y0, ys, x, x0, xs, (n - 1) as nat, sum)
                &&& multiplies(ops, y[y0 + (n - 1) * ys], x[x0 + (n - 1) * xs], product)
                &&& #[trigger] adds(ops, sum, product, r2)
            };
        lemma_dot_swapped(ops, x, x0, xs, y, y0, ys, (n - 1) as nat, sum, sum2);
    }
}

/// The strided positions before the last one are within the elements too.
pub proof fn lemma_stride(start: int, stride: int, i: int, n: int, len: int)
    requires
        0 <= i < n,
        0 <= start,
        0 <= stride,
        start + (n - 1) * stride < len,
    ensures
        0 <= i * stride,
        0 <= start + i * stride < len,
{
    assert(0 <= i * stride <= (n - 1) * stride) by (nonlinear_arith)
        requires
            0 <= i <= n - 1,
            0 <= stride,
    ;
}

/// The sum of products at strided positions.
pub fn dot_of<A: Arithmetic>(
    ops: &A,
    x: &Vec<u32>,
    x0: usize,
    xs: usize,
    y: &Vec<u32>,
    y0: usize,
    ys: usize,
    n: usize,
) -> (r: u32)
    requires
        n > 0 ==> x0 + (n - 1) * xs < x@.len(),
        n > 0 ==> y0 + (n - 1) * ys < y@.len(),
    ensures
        dot(ops, x@, x0 as int, xs as int, y@, y0 as int, ys as int, n as nat, r),
{
    let mut r: u32 = ZERO;
    let mut i: usize = 0;
    while i < n
        invariant
            i <= n,
            n > 0 ==> x0 + (n - 1) * xs < x@.len(),
            n > 0 ==> y0 + (n - 1) * ys < y@.len(),
            dot(ops, x@, x0 as int, xs as int, y@, y0 as int, ys as int, i as nat, r),
        decreases n - i,
    {
        proof {
            assert(x@.len() == x.len() && y@.len() == y.len());
            lemma_stride(x0 as int, xs as int, i as int, n as int, x@.len() as int);
            lemma_stride(y0 as int, ys as int, i as int, n as int, y@.len() as int);
        }
        let product: u32 = ops.mul(x[x0 + i * xs], y[y0 + i * ys]);
        let sum: u32 = ops.add(r, product);
        assert(adds(ops, r, product, sum));
        r = sum;
        i += 1;
    }
    r
}

/// The sum of some elements.
pub fn total_of<A: Arithmetic>(ops: &A, s: &Vec<u32>) -> (r: u32)
    ensures
        total(ops, s@, s@.len(), r),
{
    let mut r: u32 = ZERO;
    let mut i: usize = 0;
    while i < s.len()
        invariant
            i <= s@.len(),
            total(ops, s@, i as nat, r),
        decreases s@.len() - i,
    {
        let sum: u32 = ops.add(r, s[i]);
        assert(total(ops, s@, (i + 1) as nat, sum)) by {
            assert(adds(ops, r, s@[(i + 1) as nat - 1], sum));
        }
        r = sum;
        i += 1;
    }
    r
}

/// The weighted sum of elements at strided positions.
pub fn weighted_of<A: Arithmetic>(
    ops: &A,
    w: &Vec<u32>,
    sum: u32,
    v: &Vec<u32>,
    v0: usize,
    vs: usize,
) -> (r: u32)
    requires
        w@.len() > 0 ==> v0 + (w@.len() - 1) * vs < v@.len(),
    ensures
        weighted(ops, w@, sum, v@, v0 as int, vs as int, w@.len(), r),
{
    let mut r: u32 = ZERO;
    let mut i: usize = 0;
    while i < w.len()
        invariant
            i <= w@.len(),
            w@.len() > 0 ==> v0 + (w@.len() - 1) * vs < v@.len(),
            weighted(ops, w@, sum, v@, v0 as int, vs as int, i as nat, r),
        decreases w@.len() - i,
    {
        proof {
            assert(v@.len() == v.len());
            lemma_stride(v0 as int, vs as int, i as int, w@.len() as int, v@.len() as int);
        }
        let share: u32 = ops.div(w[i], sum);
        let product: u32 = ops.mul(share, v[v0 + i * vs]);
        let next: u32 = ops.add(r, product);
        assert(multiplies(ops, share, v@[v0 + i * vs], product));
        assert(shares(ops, w@[i as int], sum, v@[v0 + i * vs], product));
        assert(adds(ops, r, product, next));
        r = next;
        i += 1;
    }
    r
}

} // verus!
