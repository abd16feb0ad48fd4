//! How attention comes about, operation by operation, whatever the numbers are.

use vstd::prelude::*;

use crate::float::{
    adds, below, converts, divides, exponentiates, largest, multiplies, nan, roots, subtracts,
    Arithmetic, ONE, ZERO,
};
use crate::kernels::attention::{
    attends_at, attends_by, attention_gives, attention_rows, end_key, first_key, head_base,
    head_slice, kv_heads, lemma_groups, lifts, query_position, scales, scores, shared_head,
    AttentionParams,
};
use crate::kernels::rmsnorm_laws::lemma_partial_products;
use crate::kernels::softmax_laws::{lemma_largest_is_one, lemma_partial_sums};
use crate::reduce::{dot, shares, weighted};
use crate::tensor::{lemma_at_bounds, HostTensor, Tensor};

verus! {

/// The numbers that one head of one query goes by.
pub struct AttentionSteps {
    /// The head dimension, as a number.
    pub width: u32,
    /// Its root.
    pub root: u32,
    /// One over the root.
    pub scale: u32,
    /// For each key, the products of its elements with those of the query.
    pub products: Seq<Seq<u32>>,
    /// For each key, the partial sums of the products.
    pub sums: Seq<Seq<u32>>,
    /// For each key, the whole sum, scaled.
    pub score: Seq<u32>,
    /// The largest score.
    pub max: u32,
    /// The scores, lowered by the largest.
    pub lowered: Seq<u32>,
    /// The exponentials of those.
    pub lifted: Seq<u32>,
    /// Their partial sums.
    pub totals: Seq<u32>,
    /// For each element, the exponentials divided by their sum.
    pub weights: Seq<Seq<u32>>,
    /// For each element, those times the values.
    pub parts: Seq<Seq<u32>>,
    /// For each element, the partial sums of the parts.
    pub outs: Seq<Seq<u32>>,
}

/// Products of two rows of numbers, and their partial sums from zero.
pub open spec fn adds_products<A: Arithmetic>(
    ops: &A,
    left: spec_fn(int) -> u32,
    right: spec_fn(int) -> u32,
    n: nat,
    products: Seq<u32>,
    sums: Seq<u32>,
) -> bool {
    &&& products.len() == n && sums.len() == n + 1
    &&& sums[0] == ZERO
    &&& forall|i: int|
        0 <= i < n ==> {
            &&& multiplies(ops, left(i), right(i), #[trigger] products[i])
            &&& adds(ops, sums[i], products[i], sums[i + 1])
        }
}

/// A weighted sum by its weights, their products with the values, and the
/// partial sums of those.
proof fn lemma_weighted_steps<A: Arithmetic>(
    ops: &A,
    w: Seq<u32>,
    sum: u32,
    v: Seq<u32>,
    v0: int,
    vs: int,
    n: nat,
    r: u32,
) -> (t: (Seq<u32>, Seq<u32>, Seq<u32>))
    requires
        weighted(ops, w, sum, v, v0, vs, n, r),
    ensures
        t.0.len() == n,
        forall|i: int| 0 <= i < n ==> divides(ops, w[i], sum, #[trigger] t.0[i]),
        adds_products(ops, |i: int| t.0[i], |i: int| v[v0 + i * vs], n, t.1, t.2),
        t.2[n as int] == r,
    decreases n,
{
    if n == 0 {
        (seq![], seq![], seq![ZERO])
    } else {
        let (before, product) = choose|before: u32, product: u32|
            {
                &&& weighted(ops, w, sum, v, v0, vs, (n - 1) as nat, before)
                &&& shares(ops, w[n - 1], sum, v[v0 + (n - 1) * vs], product)
                &&& #[trigger] adds(ops, before, product, r)
            };
        let share = choose|share: u32|
            divides(ops, w[n - 1], sum, share) && #[trigger] multiplies(
                ops,
                share,
                v[v0 + (n - 1) * vs],
                product,
            );
        let (s0, p0, u0) = lemma_weighted_steps(ops, w, sum, v, v0, vs, (n - 1) as nat, before);
        let s = s0.push(share);
        let p = p0.push(product);
        let u = u0.push(r);
        let left0 = |i: int| s0[i];
        let right = |i: int| v[v0 + i * vs];
        assert forall|i: int| 0 <= i < n implies {
            &&& multiplies(ops, s[i], right(i), #[trigger] p[i])
            &&& adds(ops, u[i], p[i], u[i + 1])
        } by {
            if i < n - 1 {
                assert(p0[i] == p[i]);
                assert(multiplies(ops, left0(i), right(i), p0[i]));
            }
        }
        assert forall|i: int| 0 <= i < n implies divides(ops, w[i], sum, #[trigger] s[i]) by {
            if i < n - 1 {
                assert(s0[i] == s[i]);
            }
        }
        let left = |i: int| s[i];
        assert(adds_products(ops, left, right, n, p, u));
        (s, p, u)
    }
}

/// How one head of one query comes about. For each key that the query sees, in
/// order, the elements of the query and of the key are multiplied and added to
/// zero from the left, and the sum is multiplied by one over the root of the head
/// dimension. The scores are lowered by the largest and raised to exponentials,
/// which are added to zero from the left. Each element of the output is the sum,
/// from the left, of the exponentials, each divided by their sum, times the
/// elements of the values.
pub proof fn law_attention_steps<A: Arithmetic>(
    ops: &A,
    q: Tensor,
    k: Tensor,
    v: Tensor,
    p: AttentionParams,
    r: HostTensor,
    query: int,
    head: int,
) -> (w: AttentionSteps)
    requires
        attention_gives(ops, q, k, v, p, Ok(r)),
        0 <= query < q.shape[0],
        0 <= head < p.head_count,
    ensures
        ({
            let d = p.head_dimension as int;
            let kv_head_count = match p.kv_head_count {
                Some(n) => n as int,
                None => p.head_count as int,
            };
            let shared = head / (p.head_count as int / kv_head_count);
            let position = k.shape[0] - q.shape[0] + query;
            let end = if p.causal {
                position + 1
            } else {
                k.shape[0] as int
            };
            let first = match p.window_size {
                Some(n) => if n <= position {
                    position + 1 - n
                } else {
                    0
                },
                None => 0,
            };
            let seen = end - first;
            let q_at = |j: int| q.data[query * q.shape[1] + head * d + j];
            let k_at = |i: int, j: int| k.data[(first + i) * k.shape[1] + shared * d + j];
            let v_at = |i: int, j: int| v.data[(first + i) * k.shape[1] + shared * d + j];
            &&& 0 < seen
            &&& converts(ops, p.head_dimension, w.width)
            &&& roots(ops, w.width, w.root)
            &&& divides(ops, ONE, w.root, w.scale)
            &&& w.products.len() == seen && w.sums.len() == seen && w.score.len() == seen
            &&& forall|i: int|
                0 <= i < seen ==> {
                    &&& adds_products(
                        ops,
                        q_at,
                        |j: int| k_at(i, j),
                        d as nat,
                        w.products[i],
                        w.sums[i],
                    )
                    &&& multiplies(ops, w.sums[i][d], w.scale, #[trigger] w.score[i])
                }
            &&& !nan(w.max)
            &&& forall|i: int| 0 <= i < seen ==> !below(w.max, #[trigger] w.score[i])
            &&& w.max == 0xFF80_0000 || w.score.contains(w.max)
            &&& w.lowered.len() == seen && w.lifted.len() == seen && w.totals.len() == seen + 1
            &&& w.totals[0] == ZERO
            &&& forall|i: int|
                0 <= i < seen ==> {
                    &&& subtracts(ops, w.score[i], w.max, #[trigger] w.lowered[i])
                    &&& exponentiates(ops, w.lowered[i], w.lifted[i])
                    &&& adds(ops, w.totals[i], w.lifted[i], w.totals[i + 1])
                }
            &&& w.weights.len() == d && w.parts.len() == d && w.outs.len() == d
            &&& forall|j: int|
                0 <= j < d ==> {
                    &&& (#[trigger] w.weights[j]).len() == seen
                    &&& forall|i: int|
                        0 <= i < seen ==> divides(
                            ops,
                            w.lifted[i],
                            w.totals[seen],
                            #[trigger] w.weights[j][i],
                        )
                    &&& adds_products(
                        ops,
                        |i: int| w.weights[j][i],
                        |i: int| v_at(i, j),
                        seen as nat,
                        w.parts[j],
                        w.outs[j],
                    )
                    &&& r@.data[query * q.shape[1] + head * d + j] == w.outs[j][seen]
                }
        }),
{
    let d = p.head_dimension as int;
    let keys = k.shape[0] as int;
    let q_width = q.shape[1] as int;
    let kv_width = k.shape[1] as int;
    let position = query_position(q.shape[0] as int, keys, query);
    let first = first_key(position, p.window_size);
    let end = end_key(position, keys, p.causal);
    let seen = end - first;
    let shared = shared_head(p, head);
    let offset = shared * d;
    let base = head_base(q_width, d, query, head);
    lemma_groups(p.head_count as int, kv_heads(p) as int, head);
    let scale = choose|scale: u32| #[trigger]
        scales(ops, p.head_dimension, scale) && attention_rows(
            ops,
            q,
            k,
            v,
            p,
            scale,
            q.shape[0] as int,
            r@.data,
        );
    assert(scales(ops, p.head_dimension, scale));
    let (width, root) = choose|width: u32, root: u32|
        {
            &&& converts(ops, p.head_dimension, width)
            &&& #[trigger] roots(ops, width, root)
            &&& divides(ops, ONE, root, scale)
        };
    let slice = head_slice(r@.data, q_width, d, query, head);
    assert(attends_at(ops, q, k, v, p, scale, query, head, slice));
    lemma_at_bounds(p.head_count as int, d, head, 0);
    assert(q_width == p.head_count * d);
    lemma_at_bounds(q.shape[0] as int, q_width, query, 0);
    assert(slice.len() == d);
    let (score, lifted, sum) = choose|score: Seq<u32>, lifted: Seq<u32>, sum: u32| #[trigger]
        attends_by(
            ops,
            q.data,
            base,
            k.data,
            v.data,
            offset,
            kv_width,
            first,
            end,
            scale,
            score,
            lifted,
            sum,
            slice,
        );
    let q_at = |j: int| q.data[query * q_width + head * d + j];
    let k_at = |i: int, j: int| k.data[(first + i) * kv_width + shared * d + j];
    let v_at = |i: int, j: int| v.data[(first + i) * kv_width + shared * d + j];
    let dots = Seq::new(
        seen as nat,
        |i: int|
            choose|t: (Seq<u32>, Seq<u32>)| #[trigger]
                scores_so(
                    ops,
                    q.data,
                    base,
                    k.data,
                    (first + i) * kv_width + offset,
                    d as nat,
                    scale,
                    score[i],
                    t,
                ),
    );
    assert forall|i: int| 0 <= i < seen implies scores_so(
        ops,
        q.data,
        base,
        k.data,
        (first + i) * kv_width + offset,
        d as nat,
        scale,
        score[i],
        #[trigger] dots[i],
    ) by {
        let key_base = (first + i) * kv_width + offset;
        assert(scores(ops, q.data, base, k.data, key_base, d as nat, scale, score[i]));
        let product = choose|product: u32|
            {
                &&& dot(ops, q.data, base, 1, k.data, key_base, 1, d as nat, product)
                &&& #[trigger] multiplies(ops, product, scale, score[i])
            };
        let t = lemma_partial_products(
            ops,
            q.data,
            base,
            1,
            k.data,
            key_base,
            1,
            d as nat,
            product,
        );
        assert forall|j: int| 0 <= j < d implies {
            &&& multiplies(ops, q.data[base + j], k.data[key_base + j], #[trigger] t.0[j])
            &&& adds(ops, t.1[j], t.0[j], t.1[j + 1])
        } by {
            assert(base + j * 1 == base + j && key_base + j * 1 == key_base + j);
        }
        assert(scores_so(
            ops,
            q.data,
            base,
            k.data,
            key_base,
            d as nat,
            scale,
            score[i],
            t,
        ));
    }
    let max = largest(score, score.len());
    let top = lemma_largest_is_one(score, score.len());
    if max != 0xFF80_0000 {
        assert(score[top] == max);
    }
    let lowered = Seq::new(
        seen as nat,
        |i: int|
            choose|x: u32|
                subtracts(ops, score[i], max, x) && #[trigger] exponentiates(ops, x, lifted[i]),
    );
    let totals = lemma_partial_sums(ops, lifted, lifted.len(), sum);
    assert forall|i: int| 0 <= i < seen implies {
        &&& subtracts(ops, score[i], max, #[trigger] lowered[i])
        &&& exponentiates(ops, lowered[i], lifted[i])
        &&& adds(ops, totals[i], lifted[i], totals[i + 1])
    } by {
        assert(lifts(ops, score[i], max, lifted[i]));
    }
    let ends = Seq::new(
        d as nat,
        |j: int|
            choose|t: (Seq<u32>, Seq<u32>, Seq<u32>)| #[trigger]
                ends_so(
                    ops,
                    lifted,
                    sum,
                    v.data,
                    first * kv_width + offset + j,
                    kv_width,
                    seen as nat,
                    slice[j],
                    t,
                ),
    );
    assert forall|j: int| 0 <= j < d implies ends_so(
        ops,
        lifted,
        sum,
        v.data,
        first * kv_width + offset + j,
        kv_width,
        seen as nat,
        slice[j],
        #[trigger] ends[j],
    ) by {
        let v0 = first * kv_width + offset + j;
        let t = lemma_weighted_steps(
            ops,
            lifted,
            sum,
            v.data,
            v0,
            kv_width,
            lifted.len(),
            slice[j],
        );
        assert(ends_so(ops, lifted, sum, v.data, v0, kv_width, seen as nat, slice[j], t));
    }
    let w = AttentionSteps {
        width,
        root,
        scale,
        products: Seq::new(seen as nat, |i: int| dots[i].0),
        sums: Seq::new(seen as nat, |i: int| dots[i].1),
        score,
        max,
        lowered,
        lifted,
        totals,
        weights: Seq::new(d as nat, |j: int| ends[j].0),
        parts: Seq::new(d as nat, |j: int| ends[j].1),
        outs: Seq::new(d as nat, |j: int| ends[j].2),
    };
    assert forall|i: int| 0 <= i < seen implies {
        &&& adds_products(ops, q_at, |j: int| k_at(i, j), d as nat, w.products[i], w.sums[i])
        &&& multiplies(ops, w.sums[i][d], scale, #[trigger] w.score[i])
    } by {
        let t = dots[i];
        assert(t.0 == w.products[i] && t.1 == w.sums[i]);
        assert(scores_so(
            ops,
            q.data,
            base,
            k.data,
            (first + i) * kv_width + offset,
            d as nat,
            scale,
            score[i],
            t,
        ));
        let right = |j: int| k_at(i, j);
        assert forall|j: int| 0 <= j < d implies {
            &&& multiplies(ops, q_at(j), right(j), #[trigger] t.0[j])
            &&& adds(ops, t.1[j], t.0[j], t.1[j + 1])
        } by {}
        assert(adds_products(ops, q_at, right, d as nat, t.0, t.1));
    }
    assert forall|j: int| 0 <= j < d implies {
        &&& (#[trigger] w.weights[j]).len() == seen
        &&& forall|i: int|
            0 <= i < seen ==> divides(ops, lifted[i], totals[seen], #[trigger] w.weights[j][i])
        &&& adds_products(
            ops,
            |i: int| w.weights[j][i],
            |i: int| v_at(i, j),
            seen as nat,
            w.parts[j],
            w.outs[j],
        )
        &&& r@.data[query * q_width + head * d + j] == w.outs[j][seen]
    } by {
        let t = ends[j];
        let v0 = first * kv_width + offset + j;
        assert(t.0 == w.weights[j] && t.1 == w.parts[j] && t.2 == w.outs[j]);
        assert(ends_so(ops, lifted, sum, v.data, v0, kv_width, seen as nat, slice[j], t));
        let left = |i: int| w.weights[j][i];
        let right = |i: int| v_at(i, j);
        let taken = |i: int| t.0[i];
        let stored = |i: int| v.data[v0 + i * kv_width];
        assert forall|i: int| 0 <= i < seen implies {
            &&& multiplies(ops, left(i), right(i), #[trigger] t.1[i])
            &&& adds(ops, t.2[i], t.1[i], t.2[i + 1])
        } by {
            assert((first + i) * kv_width == first * kv_width + i * kv_width) by (nonlinear_arith);
            assert(right(i) == stored(i));
            assert(multiplies(ops, taken(i), stored(i), t.1[i]));
        }
        assert(adds_products(ops, left, right, seen as nat, t.1, t.2));
        assert(slice[j] == r@.data[query * q_width + head * d + j]);
    }
    w
}

/// The steps by which a score comes about.
spec fn scores_so<A: Arithmetic>(
    ops: &A,
    q: Seq<u32>,
    q0: int,
    k: Seq<u32>,
    k0: int,
    n: nat,
    scale: u32,
    score: u32,
    t: (Seq<u32>, Seq<u32>),
) -> bool {
    &&& t.0.len() == n && t.1.len() == n + 1
    &&& t.1[0] == ZERO
    &&& forall|j: int|
        0 <= j < n ==> {
            &&& multiplies(ops, q[q0 + j], k[k0 + j], #[trigger] t.0[j])
            &&& adds(ops, t.1[j], t.0[j], t.1[j + 1])
        }
    &&& multiplies(ops, t.1[n as int], scale, score)
}

/// The steps by which an element of the output ends.
spec fn ends_so<A: Arithmetic>(
    ops: &A,
    lifted: Seq<u32>,
    sum: u32,
    v: Seq<u32>,
    v0: int,
    vs: int,
    n: nat,
    r: u32,
    t: (Seq<u32>, Seq<u32>, Seq<u32>),
) -> bool {
    &&& t.0.len() == n
    &&& forall|i: int| 0 <= i < n ==> divides(ops, lifted[i], sum, #[trigger] t.0[i])
    &&& adds_products(ops, |i: int| t.0[i], |i: int| v[v0 + i * vs], n, t.1, t.2)
    &&& t.2[n as int] == r
}

} // verus!
