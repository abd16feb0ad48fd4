//! What attention is, in terms of the other kernels: the softmax of the scaled
//! products of a query and the keys that it sees, times the values of those
//! keys.

use vstd::prelude::*;

use crate::error::ReferenceCpuError;
use crate::float::{
    adds, converts, divides, multiplies, roots, single_valued, Arithmetic, ONE,
};
use crate::kernels::attention::{
    attends_at, attends_by, attention_gives, attention_rows, first_key, end_key, head_base,
    head_slice, kv_heads, lemma_groups, lifts, query_position, scales, scores, shared_head,
    AttentionParams,
};
use crate::kernels::elementwise::mul_gives;
use crate::kernels::matmul::{matmul_cell, matmul_gives};
use crate::kernels::softmax::{
    row_largest, row_slice, softmax_gives, softmax_row, softmax_row_by,
};
use crate::reals::{lemma_inverse_root, most, rounds, size};
use crate::reduce::{
    dot, lemma_dot_once, lemma_dot_same, lemma_total_once, shares, weighted,
};
use crate::tensor::{at, lemma_at_bounds, HostTensor, Tensor};

verus! {

/// A weighted sum is a sum of products with the weights divided by their sum.
proof fn lemma_weighted_is_dot<A: Arithmetic>(
    ops: &A,
    w: Seq<u32>,
    sum: u32,
    v: Seq<u32>,
    v0: int,
    vs: int,
    divided: Seq<u32>,
    y: Seq<u32>,
    y0: int,
    ys: int,
    n: nat,
    r: u32,
    r2: u32,
)
    requires
        single_valued(ops),
        weighted(ops, w, sum, v, v0, vs, n, r),
        dot(ops, divided, 0, 1, y, y0, ys, n, r2),
        forall|i: int| 0 <= i < n ==> divides(ops, w[i], sum, #[trigger] divided[i]),
        forall|i: int| 0 <= i < n ==> v[#[trigger] (v0 + i * vs)] == y[y0 + i * ys],
    ensures
        r == r2,
    decreases n,
{
    if n > 0 {
        let (before, product) = choose|before: u32, product: u32|
            {
                &&& weighted(ops, w, sum, v, v0, vs, (n - 1) as nat, before)
                &&& shares(ops, w[n - 1], sum, v[v0 + (n - 1) * vs], product)
                &&& #[trigger] adds(ops, before, product, r)
            };
        let (before2, product2) = choose|before: u32, product: u32|
            {
                &&& dot(ops, divided, 0, 1, y, y0, ys, (n - 1) as nat, before)
                &&& multiplies(ops, divided[0 + (n - 1) * 1], y[y0 + (n - 1) * ys], product)
                &&& #[trigger] adds(ops, before, product, r2)
            };
        lemma_weighted_is_dot(
            ops,
            w,
            sum,
            v,
            v0,
            vs,
            divided,
            y,
            y0,
            ys,
            (n - 1) as nat,
            before,
            before2,
        );
        assert(v[v0 + (n - 1) * vs] == y[y0 + (n - 1) * ys]);
        assert(divides(ops, w[n - 1], sum, divided[n - 1]));
        assert(product == product2);
    }
}

/// One head of one query. The query is multiplied with the keys that it sees,
/// the products are scaled by one over the root of the head dimension, softmax
/// turns them into weights, and the weights are multiplied with the values.
///
/// The query head `head` reads the key and value head `head / group`, where a
/// group is as many query heads as share a key and value head. The query stands
/// as far from the last key as it stands from the last query. It sees the keys
/// up to its own position, or all of them without a causal mask, and of those
/// the last ones that a window admits.
///
/// This holds of an arithmetic with one result for the same operands.
pub proof fn law_attention_head<A: Arithmetic>(
    ops: &A,
    q: Tensor,
    k: Tensor,
    v: Tensor,
    p: AttentionParams,
    r: HostTensor,
    query: int,
    head: int,
    numbers: (u32, u32, u32),
    some: (Tensor, Tensor, Tensor),
    products: HostTensor,
    factors: Tensor,
    scaled: HostTensor,
    weights: HostTensor,
    out: HostTensor,
)
    requires
        single_valued(ops),
        attention_gives(ops, q, k, v, p, Ok(r)),
        0 <= query < q.shape[0],
        0 <= head < p.head_count,
        ({
            let (width, root, scale) = numbers;
            let (some_q, some_k, some_v) = some;
            let d = p.head_dimension as int;
            let kv_head_count = match p.kv_head_count {
                Some(n) => n as int,
                None => p.head_count as int,
            };
            let shared = head / (p.head_count as int / kv_head_count);
            let position = k.shape[0] - q.shape[0] + query;
            let end = if p.causal {
                position + 1
            } else {
                k.shape[0] as int
            };
            let first = match p.window_size {
                Some(n) => if n <= position {
                    position + 1 - n
                } else {
                    0
                },
                None => 0,
            };
            &&& some_q.shape == seq![1u64, d as u64]
            &&& some_k.shape == seq![(end - first) as u64, d as u64]
            &&& some_v.shape == seq![(end - first) as u64, d as u64]
            &&& forall|j: int|
                0 <= j < d ==> #[trigger] some_q.data[j] == q.data[query * q.shape[1] + head * d
                    + j]
            &&& forall|i: int, j: int|
                0 <= i < end - first && 0 <= j < d ==> #[trigger] some_k.data[i * d + j]
                    == k.data[(first + i) * k.shape[1] + shared * d + j]
            &&& forall|i: int, j: int|
                0 <= i < end - first && 0 <= j < d ==> #[trigger] some_v.data[i * d + j]
                    == v.data[(first + i) * k.shape[1] + shared * d + j]
            &&& converts(ops, p.head_dimension, width)
            &&& roots(ops, width, root)
            &&& divides(ops, ONE, root, scale)
            &&& matmul_gives(ops, some_q, some_k, false, true, Ok(products))
            &&& factors.data.len() == end - first
            &&& forall|i: int| 0 <= i < end - first ==> #[trigger] factors.data[i] == scale
            &&& mul_gives(ops, products@, factors, Ok(scaled))
            &&& softmax_gives(ops, scaled@, Ok(weights))
            &&& matmul_gives(ops, weights@, some_v, false, false, Ok(out))
        }),
    ensures
        out@.shape == seq![1u64, p.head_dimension],
        forall|j: int|
            0 <= j < p.head_dimension ==> #[trigger] out@.data[j] == r@.data[query * q.shape[1]
                + head * p.head_dimension + j],
{
    let (width, root, scale) = numbers;
    let (some_q, some_k, some_v) = some;
    let d = p.head_dimension as int;
    let keys = k.shape[0] as int;
    let q_width = q.shape[1] as int;
    let kv_width = k.shape[1] as int;
    let position = query_position(q.shape[0] as int, keys, query);
    let first = first_key(position, p.window_size);
    let end = end_key(position, keys, p.causal);
    let seen = end - first;
    let shared = shared_head(p, head);
    let offset = shared * d;
    let base = head_base(q_width, d, query, head);
    lemma_groups(p.head_count as int, kv_heads(p) as int, head);
    assert(0 < seen);
    let used = choose|scale: u32| #[trigger]
        scales(ops, p.head_dimension, scale) && attention_rows(
            ops,
            q,
            k,
            v,
            p,
            scale,
            q.shape[0] as int,
            r@.data,
        );
    assert(scales(ops, p.head_dimension, used));
    let (width2, root2) = choose|width: u32, root: u32|
        {
            &&& converts(ops, p.head_dimension, width)
            &&& #[trigger] roots(ops, width, root)
            &&& divides(ops, ONE, root, used)
        };
    assert(width2 == width);
    assert(root2 == root);
    assert(used == scale);
    let slice = head_slice(r@.data, q_width, d, query, head);
    assert(attends_at(ops, q, k, v, p, scale, query, head, slice));
    lemma_at_bounds(p.head_count as int, d, head, 0);
    assert(q_width == p.head_count * d);
    lemma_at_bounds(q.shape[0] as int, q_width, query, 0);
    assert(slice.len() == d);
    let (score, lifted, sum) = choose|score: Seq<u32>, lifted: Seq<u32>, sum: u32| #[trigger]
        attends_by(
            ops,
            q.data,
            base,
            k.data,
            v.data,
            offset,
            kv_width,
            first,
            end,
            scale,
            score,
            lifted,
            sum,
            slice,
        );
    assert(1 * seen == seen && 0 * seen == 0) by (nonlinear_arith);
    assert(1 * d == d && 0 * d == 0) by (nonlinear_arith);
    assert(products@.shape == seq![1u64, seen as u64]);
    assert forall|i: int| 0 <= i < seen implies #[trigger] score[i] == scaled@.data[i] by {
        lemma_score(
            ops,
            q.data,
            base,
            k.data,
            (first + i) * kv_width + offset,
            some_q,
            some_k,
            d,
            seen,
            i,
            scale,
            products,
            score[i],
            scaled@.data[i],
        );
    }
    let row = row_slice(scaled@.data, seen, 0);
    assert((0 + 1) * seen == seen) by (nonlinear_arith);
    assert(row =~= score);
    assert(softmax_row(ops, scaled@.data, seen, 0, weights@.data));
    let (lifted2, sum2) = choose|lifted: Seq<u32>, sum: u32| #[trigger]
        softmax_row_by(ops, scaled@.data, seen, 0, lifted, sum, weights@.data);
    let max = row_largest(scaled@.data, seen, 0);
    assert forall|i: int| 0 <= i < seen implies lifted[i] == lifted2[i] by {
        assert(score[i] == scaled@.data[i]);
        assert(lifts(ops, score[i], max, lifted[i]));
        assert(lifts(ops, at(scaled@.data, seen, 0, i), max, lifted2[i]));
    }
    assert(lifted =~= lifted2);
    lemma_total_once(ops, lifted, lifted.len(), sum, sum2);
    assert forall|i: int| 0 <= i < seen implies divides(
        ops,
        lifted[i],
        sum,
        #[trigger] weights@.data[i],
    ) by {
        assert(divides(ops, lifted2[i], sum2, at(weights@.data, seen, 0, i)));
    }
    assert(out@.shape =~= seq![1u64, p.head_dimension]);
    assert forall|j: int| 0 <= j < d implies #[trigger] out@.data[j] == r@.data[query * q_width
        + head * d + j] by {
        let v0 = first * kv_width + offset + j;
        assert(slice[j] == r@.data[query * q_width + head * d + j]);
        assert(at(out@.data, d, 0, j) == out@.data[j]);
        assert(matmul_cell(ops, weights@, some_v, false, false, 0, j, seen as nat, at(
            out@.data,
            d,
            0,
            j,
        )));
        assert(j * 1 == j) by (nonlinear_arith);
        assert(dot(ops, weights@.data, 0, 1, some_v.data, j, d, seen as nat, out@.data[j]));
        assert forall|i: int| 0 <= i < seen implies v.data[#[trigger] (v0 + i * kv_width)]
            == some_v.data[j + i * d] by {
            assert((first + i) * kv_width == first * kv_width + i * kv_width) by (nonlinear_arith);
            assert(some_v.data[i * d + j] == v.data[(first + i) * kv_width + shared * d + j]);
        }
        lemma_weighted_is_dot(
            ops,
            lifted,
            sum,
            v.data,
            v0,
            kv_width,
            weights@.data,
            some_v.data,
            j,
            d,
            seen as nat,
            slice[j],
            out@.data[j],
        );
    }
}

/// A score of attention is the scaled product of the query and a key.
proof fn lemma_score<A: Arithmetic>(
    ops: &A,
    q: Seq<u32>,
    base: int,
    k: Seq<u32>,
    key_base: int,
    some_q: Tensor,
    some_k: Tensor,
    d: int,
    seen: int,
    i: int,
    scale: u32,
    products: HostTensor,
    score: u32,
    scaled: u32,
)
    requires
        single_valued(ops),
        0 <= d <= u64::MAX,
        0 <= i < seen <= u64::MAX,
        scores(ops, q, base, k, key_base, d as nat, scale, score),
        some_q.shape == seq![1u64, d as u64],
        some_k.shape == seq![seen as u64, d as u64],
        matmul_gives(ops, some_q, some_k, false, true, Ok(products)),
        multiplies(ops, products@.data[i], scale, scaled),
        forall|j: int| 0 <= j < d ==> #[trigger] some_q.data[j] == q[base + j],
        forall|j: int| 0 <= j < d ==> #[trigger] some_k.data[i * d + j] == k[key_base + j],
    ensures
        score == scaled,
{
    let product = choose|product: u32|
        {
            &&& dot(ops, q, base, 1, k, key_base, 1, d as nat, product)
            &&& #[trigger] multiplies(ops, product, scale, score)
        };
    assert(0 * seen == 0 && 0 * d == 0) by (nonlinear_arith);
    assert(at(products@.data, seen, 0, i) == products@.data[i]);
    assert(matmul_cell(ops, some_q, some_k, false, true, 0, i, d as nat, at(
        products@.data,
        seen,
        0,
        i,
    )));
    assert(dot(ops, some_q.data, 0, 1, some_k.data, i * d, 1, d as nat, products@.data[i]));
    assert forall|j: int| 0 <= j < d implies q[#[trigger] (base + j * 1)] == some_q.data[0 + j
        * 1] by {
        assert(some_q.data[j] == q[base + j]);
    }
    assert forall|j: int| 0 <= j < d implies k[#[trigger] (key_base + j * 1)] == some_k.data[i * d
        + j * 1] by {
        assert(some_k.data[i * d + j] == k[key_base + j]);
    }
    lemma_dot_same(
        ops,
        q,
        base,
        1,
        some_q.data,
        0,
        1,
        k,
        key_base,
        1,
        some_k.data,
        i * d,
        1,
        d as nat,
        product,
    );
    lemma_dot_once(
        ops,
        some_q.data,
        0,
        1,
        some_k.data,
        i * d,
        1,
        d as nat,
        product,
        products@.data[i],
    );
}

/// The scale of attention is one over the root of the head dimension, so that,
/// by itself and by the head dimension, it is one up to rounding, whatever the
/// head dimension is.
///
/// The head dimension as a number, its root and the scale are handed out. There
/// is one such scale for all heads of all queries.
pub proof fn law_attention_scale<A: Arithmetic>(
    ops: &A,
    q: Tensor,
    k: Tensor,
    v: Tensor,
    p: AttentionParams,
    r: HostTensor,
) -> (w: (u32, u32, u32))
    requires
        attention_gives(ops, q, k, v, p, Ok(r)),
    ensures
        ({
            let (width, root, scale) = w;
            &&& converts(ops, p.head_dimension, width)
            &&& roots(ops, width, root)
            &&& divides(ops, ONE, root, scale)
            &&& attention_rows(ops, q, k, v, p, scale, q.shape[0] as int, r@.data)
            &&& forall|value: spec_fn(u32) -> real, unit: real, least: real|
                #[trigger] rounds(ops, value, unit, least) && 2real * unit <= 1real ==> {
                    let s = value(scale);
                    let d = p.head_dimension as int as real;
                    let off = unit + least * value(root);
                    let less = (1real - unit) * (1real - unit) * (1real - unit);
                    let more = (1real + unit) * (1real + unit) * (1real + unit);
                    &&& s * s * d * less <= (1real + off) * (1real + off)
                    &&& off <= 1real ==> (1real - off) * (1real - off) <= s * s * d * more
                }
        }),
{
    let scale = choose|scale: u32| #[trigger]
        scales(ops, p.head_dimension, scale) && attention_rows(
            ops,
            q,
            k,
            v,
            p,
            scale,
            q.shape[0] as int,
            r@.data,
        );
    assert(scales(ops, p.head_dimension, scale));
    let (width, root) = choose|width: u32, root: u32|
        {
            &&& converts(ops, p.head_dimension, width)
            &&& #[trigger] roots(ops, width, root)
            &&& divides(ops, ONE, root, scale)
        };
    assert forall|value: spec_fn(u32) -> real, unit: real, least: real|
        #[trigger] rounds(ops, value, unit, least) && 2real * unit <= 1real implies {
        let s = value(scale);
        let d = p.head_dimension as int as real;
        let off = unit + least * value(root);
        let less = (1real - unit) * (1real - unit) * (1real - unit);
        let more = (1real + unit) * (1real + unit) * (1real + unit);
        &&& s * s * d * less <= (1real + off) * (1real + off)
        &&& off <= 1real ==> (1real - off) * (1real - off) <= s * s * d * more
    } by {
        lemma_scale_inverse(
            ops,
            value,
            unit,
            least,
            p.head_dimension,
            width,
            root,
            scale,
        );
    }
    (width, root, scale)
}

proof fn lemma_scale_inverse<A: Arithmetic>(
    ops: &A,
    value: spec_fn(u32) -> real,
    unit: real,
    least: real,
    head_dimension: u64,
    width: u32,
    root: u32,
    scale: u32,
)
    requires
        rounds(ops, value, unit, least),
        2real * unit <= 1real,
        0 < head_dimension,
        converts(ops, head_dimension, width),
        roots(ops, width, root),
        divides(ops, ONE, root, scale),
    ensures
        ({
            let s = value(scale);
            let d = head_dimension as int as real;
            let off = unit + least * value(root);
            let less = (1real - unit) * (1real - unit) * (1real - unit);
            let more = (1real + unit) * (1real + unit) * (1real + unit);
            &&& s * s * d * less <= (1real + off) * (1real + off)
            &&& off <= 1real ==> (1real - off) * (1real - off) <= s * s * d * more
        }),
{
    let d = head_dimension as int as real;
    let x = value(width);
    assert(1real <= d);
    assert(size(x - d) <= unit * d);
    let l = 1real - unit;
    let m = 1real + unit;
    assert(l * d <= x) by (nonlinear_arith)
        requires
            d - x <= unit * d,
            l == 1real - unit,
    ;
    assert(x <= m * d) by (nonlinear_arith)
        requires
            x - d <= unit * d,
            m == 1real + unit,
    ;
    assert(l <= l * d) by (nonlinear_arith)
        requires
            0real <= l,
            1real <= d,
    ;
    let ll = l * l;
    assert(1real <= 4real * ll) by (nonlinear_arith)
        requires
            1real <= 2real * l,
            ll == l * l,
    ;
    let y = ll * x;
    assert(1real <= 8real * y) by (nonlinear_arith)
        requires
            1real <= 4real * ll,
            1real <= 2real * x,
            y == ll * x,
    ;
    assert(1real <= y * most() * most());
    lemma_inverse_root(ops, value, unit, least, width, root, scale);
    let s = value(scale);
    let t = s * s;
    assert(0real <= t) by (nonlinear_arith)
        requires
            t == s * s,
    ;
    let mm = m * m;
    assert(0real <= mm) by (nonlinear_arith)
        requires
            mm == m * m,
    ;
    lemma_between(t, d, x, l, ll);
    lemma_between(t, d, x, m, mm);
}

/// A number between two others stays so when both are multiplied.
proof fn lemma_between(t: real, d: real, x: real, l: real, ll: real)
    requires
        0real <= t,
        0real <= ll,
    ensures
        l * d <= x ==> t * d * (ll * l) <= t * x * ll,
        x <= l * d ==> t * x * ll <= t * d * (ll * l),
{
    let z = l * d;
    let u = t * ll;
    assert(0real <= u) by (nonlinear_arith)
        requires
            0real <= t,
            0real <= ll,
            u == t * ll,
    ;
    assert(t * x * ll == u * x) by (nonlinear_arith)
        requires
            u == t * ll,
    ;
    assert(t * d * (ll * l) == u * z) by (nonlinear_arith)
        requires
            u == t * ll,
            z == l * d,
    ;
    if z <= x {
        assert(u * z <= u * x) by (nonlinear_arith)
            requires
                0real <= u,
                z <= x,
        ;
    }
    if x <= z {
        assert(u * x <= u * z) by (nonlinear_arith)
            requires
                0real <= u,
                x <= z,
        ;
    }
}

/// Attention is taken exactly where the keys and the values have one shape, there
/// are heads, each with elements, the query heads share the key and value heads
/// evenly, a window is not empty and goes with a causal mask, there is a key for
/// each query, and a row is as wide as its heads together.
pub proof fn law_attention_taken<A: Arithmetic>(
    ops: &A,
    q: Tensor,
    k: Tensor,
    v: Tensor,
    p: AttentionParams,
    r: Result<HostTensor, ReferenceCpuError>,
)
    requires
        attention_gives(ops, q, k, v, p, r),
    ensures
        r is Ok <==> {
            let kv_head_count = match p.kv_head_count {
                Some(n) => n,
                None => p.head_count,
            };
            &&& k.shape == v.shape
            &&& 0 < p.head_count
            &&& 0 < p.head_dimension
            &&& 0 < kv_head_count
            &&& p.head_count % kv_head_count == 0
            &&& p.window_size matches Some(n) ==> 0 < n && p.causal
            &&& q.shape.len() == 2
            &&& k.shape.len() == 2
            &&& q.shape[0] <= k.shape[0]
            &&& q.shape[1] == p.head_count * p.head_dimension
            &&& k.shape[1] == kv_head_count * p.head_dimension
        },
        r matches Ok(t) ==> t@.shape == q.shape && t@.data.len() == q.shape[0] * q.shape[1],
{
}

} // verus!
