//! Scaled dot-product attention, causal or over all keys, with grouped query
//! heads and an optional sliding window.

use vstd::prelude::*;

use crate::error::{shape_refusal, ReferenceCpuError, Refusal};
use crate::float::{
    converts, divides, exponentiates, largest, largest_of, multiplies, roots, subtracts, Arithmetic,
    ONE,
};
use crate::reduce::{
    dot, dot_of, lemma_dot_same, lemma_weighted_same, total, total_of, weighted, weighted_of,
};
use crate::tensor::{
    lemma_at_bounds, lemma_matrix_count, matrix_rows, mismatch_refusal, product_within, rank_refusal, refused,
    same_extents, same_shape, well_formed, HostTensor, Tensor,
};
use crate::text::{decimal, decimal_text};

verus! {

/// The parameters of attention.
#[derive(Clone, Copy, Debug, PartialEq, Eq)]
pub struct AttentionParams {
    /// How many query heads there are.
    pub head_count: u64,
    /// How many elements a head has in a row.
    pub head_dimension: u64,
    /// How many key and value heads there are; as many as query heads if not
    /// given.
    pub kv_head_count: Option<u64>,
    /// How many of the most recent keys a query sees; all if not given.
    pub window_size: Option<u64>,
    /// Whether a query sees no key after its own position.
    pub causal: bool,
}

/// How many key and value heads there are.
pub open spec fn kv_heads(p: AttentionParams) -> u64 {
    match p.kv_head_count {
        Some(n) => n,
        None => p.head_count,
    }
}

/// Why attention refuses, by what is looked at before any width is worked out.
pub open spec fn attention_parameter_refusal(
    q: Seq<u64>,
    k: Seq<u64>,
    v: Seq<u64>,
    p: AttentionParams,
) -> Option<Refusal> {
    if mismatch_refusal(k, v) is Some {
        mismatch_refusal(k, v)
    } else if p.head_count == 0 || p.head_dimension == 0 || kv_heads(p) == 0 {
        Some(
            shape_refusal("head_count, kv_head_count, and head_dimension must all be positive"@),
        )
    } else if p.head_count % kv_heads(p) != 0 {
        Some(
            shape_refusal(
                "head_count "@ + decimal(p.head_count as nat)
                    + " must be an exact multiple of kv_head_count "@ + decimal(kv_heads(p) as nat),
            ),
        )
    } else if p.window_size == Some(0u64) {
        Some(shape_refusal("window_size must be positive; a zero window admits no keys"@))
    } else if p.window_size is Some && !p.causal {
        Some(shape_refusal("window_size is only defined for causal attention"@))
    } else if rank_refusal(q) is Some {
        rank_refusal(q)
    } else if rank_refusal(k) is Some {
        rank_refusal(k)
    } else if q[0] > k[0] {
        Some(
            shape_refusal(
                "q sequence length "@ + decimal(q[0] as nat)
                    + " cannot exceed k/v sequence length "@ + decimal(k[0] as nat),
            ),
        )
    } else {
        None
    }
}

/// Why attention refuses, if it does.
pub open spec fn attention_refusal(
    q: Seq<u64>,
    k: Seq<u64>,
    v: Seq<u64>,
    p: AttentionParams,
) -> Option<Refusal> {
    if attention_parameter_refusal(q, k, v, p) is Some {
        attention_parameter_refusal(q, k, v, p)
    } else if p.head_count * p.head_dimension != q[1] {
        Some(
            shape_refusal(
                "head_count * head_dimension must equal q row width "@ + decimal(q[1] as nat)
                    + ", got "@ + decimal(p.head_count as nat) + " * "@ + decimal(
                    p.head_dimension as nat,
                ),
            ),
        )
    } else if kv_heads(p) * p.head_dimension != k[1] {
        Some(
            shape_refusal(
                "kv_head_count * head_dimension must equal k/v row width "@ + decimal(k[1] as nat)
                    + ", got "@ + decimal(kv_heads(p) as nat) + " * "@ + decimal(
                    p.head_dimension as nat,
                ),
            ),
        )
    } else {
        None
    }
}

/// The width of a row can be worked out in 64 bits, and the elements that
/// attention reads are there.
pub open spec fn attention_ready(q: Tensor, k: Tensor, v: Tensor, p: AttentionParams) -> bool {
    &&& attention_parameter_refusal(q.shape, k.shape, v.shape, p) is None ==> p.head_count
        * p.head_dimension <= u64::MAX
    &&& attention_refusal(q.shape, k.shape, v.shape, p) is None && q.shape[0] > 0 ==> {
        &&& q.shape[0] * q.shape[1] <= q.data.len()
        &&& k.shape[0] * k.shape[1] <= k.data.len()
        &&& k.shape[0] * k.shape[1] <= v.data.len()
    }
}

/// Where a query stands among the keys: the queries are the last positions
/// that the keys cover.
pub open spec fn query_position(queries: int, keys: int, query: int) -> int {
    keys - queries + query
}

/// The first key that a query sees.
pub open spec fn first_key(position: int, window: Option<u64>) -> int {
    match window {
        Some(w) => if position < w - 1 {
            0
        } else {
            position - (w - 1)
        },
        None => 0,
    }
}

/// The key after the last one that a query sees.
pub open spec fn end_key(position: int, keys: int, causal: bool) -> int {
    if causal {
        position + 1
    } else {
        keys
    }
}

/// The key and value head that a query head shares.
pub open spec fn shared_head(p: AttentionParams, head: int) -> int {
    head / (p.head_count as int / kv_heads(p) as int)
}

/// `scale` is one over the square root of the head dimension.
pub open spec fn scales<A: Arithmetic>(ops: &A, head_dimension: u64, scale: u32) -> bool {
    exists|width: u32, root: u32|
        {
            &&& converts(ops, head_dimension, width)
            &&& #[trigger] roots(ops, width, root)
            &&& divides(ops, ONE, root, scale)
        }
}

/// `r` is the scaled product of a query and a key.
pub open spec fn scores<A: Arithmetic>(
    ops: &A,
    q: Seq<u32>,
    query_base: int,
    k: Seq<u32>,
    key_base: int,
    width: nat,
    scale: u32,
    r: u32,
) -> bool {
    exists|product: u32|
        {
            &&& dot(ops, q, query_base, 1, k, key_base, 1, width, product)
            &&& #[trigger] multiplies(ops, product, scale, r)
        }
}

/// `r` is the exponential of how far `x` is from the largest.
pub open spec fn lifts<A: Arithmetic>(ops: &A, x: u32, max: u32, r: u32) -> bool {
    exists|difference: u32|
        subtracts(ops, x, max, difference) && #[trigger] exponentiates(ops, difference, r)
}

/// `out` is the output of one head for one query, by way of the given scores,
/// exponentials and their sum.
pub open spec fn attends_by<A: Arithmetic>(
    ops: &A,
    q: Seq<u32>,
    query_base: int,
    k: Seq<u32>,
    v: Seq<u32>,
    offset: int,
    kv_width: int,
    first: int,
    end: int,
    scale: u32,
    score: Seq<u32>,
    lifted: Seq<u32>,
    sum: u32,
    out: Seq<u32>,
) -> bool {
    &&& score.len() == end - first
    &&& lifted.len() == end - first
    &&& forall|i: int|
        0 <= i < score.len() ==> scores(
            ops,
            q,
            query_base,
            k,
            (first + i) * kv_width + offset,
            out.len(),
            scale,
            #[trigger] score[i],
        )
    &&& forall|i: int|
        0 <= i < lifted.len() ==> lifts(
            ops,
            score[i],
            largest(score, score.len()),
            #[trigger] lifted[i],
        )
    &&& total(ops, lifted, lifted.len(), sum)
    &&& forall|d: int|
        0 <= d < out.len() ==> weighted(
            ops,
            lifted,
            sum,
            v,
            first * kv_width + offset + d,
            kv_width,
            lifted.len(),
            #[trigger] out[d],
        )
}

/// `out` is the output of one head for one query: the values of the keys from
/// `first` to `end`, weighted by the softmax of their scaled products with the
/// query.
pub open spec fn attends<A: Arithmetic>(
    ops: &A,
    q: Seq<u32>,
    query_base: int,
    k: Seq<u32>,
    v: Seq<u32>,
    offset: int,
    kv_width: int,
    first: int,
    end: int,
    scale: u32,
    out: Seq<u32>,
) -> bool {
    exists|score: Seq<u32>, lifted: Seq<u32>, sum: u32| #[trigger]
        attends_by(
            ops,
            q,
            query_base,
            k,
            v,
            offset,
            kv_width,
            first,
            end,
            scale,
            score,
            lifted,
            sum,
            out,
        )
}

/// Where a head starts in the row of a query.
pub open spec fn head_base(q_width: int, head_dimension: int, query: int, head: int) -> int {
    query * q_width + head * head_dimension
}

/// The elements of one head in the row of a query.
pub open spec fn head_slice(
    data: Seq<u32>,
    q_width: int,
    head_dimension: int,
    query: int,
    head: int,
) -> Seq<u32> {
    data.subrange(
        head_base(q_width, head_dimension, query, head),
        head_base(q_width, head_dimension, query, head) + head_dimension,
    )
}

/// The output of one head for one query is what attention gives.
pub open spec fn attends_at<A: Arithmetic>(
    ops: &A,
    q: Tensor,
    k: Tensor,
    v: Tensor,
    p: AttentionParams,
    scale: u32,
    query: int,
    head: int,
    out: Seq<u32>,
) -> bool {
    let position = query_position(q.shape[0] as int, k.shape[0] as int, query);
    attends(
        ops,
        q.data,
        head_base(q.shape[1] as int, p.head_dimension as int, query, head),
        k.data,
        v.data,
        shared_head(p, head) * p.head_dimension,
        k.shape[1] as int,
        first_key(position, p.window_size),
        end_key(position, k.shape[0] as int, p.causal),
        scale,
        out,
    )
}

/// `out` holds what attention gives, for one scale used throughout.
pub open spec fn attention_output<A: Arithmetic>(
    ops: &A,
    q: Tensor,
    k: Tensor,
    v: Tensor,
    p: AttentionParams,
    out: Seq<u32>,
) -> bool {
    &&& out.len() == q.shape[0] * q.shape[1]
    &&& exists|scale: u32| #[trigger]
        scales(ops, p.head_dimension, scale) && attention_rows(
            ops,
            q,
            k,
            v,
            p,
            scale,
            q.shape[0] as int,
            out,
        )
}

/// The first `rows` rows of `out` hold what attention gives.
pub open spec fn attention_rows<A: Arithmetic>(
    ops: &A,
    q: Tensor,
    k: Tensor,
    v: Tensor,
    p: AttentionParams,
    scale: u32,
    rows: int,
    out: Seq<u32>,
) -> bool {
    forall|query: int, head: int|
        0 <= query < rows && 0 <= head < p.head_count ==> attends_at(
            ops,
            q,
            k,
            v,
            p,
            scale,
            query,
            head,
            #[trigger] head_slice(out, q.shape[1] as int, p.head_dimension as int, query, head),
        )
}

/// What attention gives.
pub open spec fn attention_gives<A: Arithmetic>(
    ops: &A,
    q: Tensor,
    k: Tensor,
    v: Tensor,
    p: AttentionParams,
    r: Result<HostTensor, ReferenceCpuError>,
) -> bool {
    &&& refused(r, attention_refusal(q.shape, k.shape, v.shape, p))
    &&& r matches Ok(t) ==> {
        &&& t@.shape == q.shape
        &&& attention_output(ops, q, k, v, p, t@.data)
        &&& well_formed(t@)
    }
}

/// The output of one head for one query.
fn attend<A: Arithmetic>(
    ops: &A,
    q: &Vec<u32>,
    query_base: usize,
    k: &Vec<u32>,
    v: &Vec<u32>,
    offset: usize,
    kv_width: usize,
    first: usize,
    end: usize,
    width: usize,
    scale: u32,
) -> (out: Vec<u32>)
    requires
        query_base + width <= q@.len(),
        first < end,
        0 < width,
        offset + width <= kv_width,
        end * kv_width <= k@.len(),
        end * kv_width <= v@.len(),
    ensures
        out@.len() == width,
        attends(
            ops,
            q@,
            query_base as int,
            k@,
            v@,
            offset as int,
            kv_width as int,
            first as int,
            end as int,
            scale,
            out@,
        ),
{
    let mut score: Vec<u32> = Vec::new();
    let mut key: usize = first;
    assert(k@.len() == k.len() && v@.len() == v.len() && q@.len() == q.len());
    while key < end
        invariant
            first <= key <= end,
            score@.len() == key - first,
            query_base + width <= q@.len(),
            0 < width,
            offset + width <= kv_width,
            end * kv_width <= k@.len(),
            k@.len() == k.len(),
            forall|i: int|
                0 <= i < score@.len() ==> scores(
                    ops,
                    q@,
                    query_base as int,
                    k@,
                    (first + i) * kv_width + offset,
                    width as nat,
                    scale,
                    #[trigger] score@[i],
                ),
        decreases end - key,
    {
        proof {
            lemma_at_bounds(end as int, kv_width as int, key as int, offset as int);
        }
        let product: u32 = dot_of(ops, q, query_base, 1, k, key * kv_width + offset, 1, width);
        let s: u32 = ops.mul(product, scale);
        assert(multiplies(ops, product, scale, s));
        score.push(s);
        key += 1;
    }
    let max: u32 = largest_of(&score);
    let mut lifted: Vec<u32> = Vec::new();
    let mut i: usize = 0;
    while i < score.len()
        invariant
            i <= score@.len(),
            lifted@.len() == i,
            max == largest(score@, score@.len()),
            forall|j: int|
                0 <= j < lifted@.len() ==> lifts(ops, score@[j], max, #[trigger] lifted@[j]),
        decreases score@.len() - i,
    {
        let difference: u32 = ops.sub(score[i], max);
        let e: u32 = ops.exp(difference);
        assert(exponentiates(ops, difference, e));
        lifted.push(e);
        i += 1;
    }
    let sum: u32 = total_of(ops, &lifted);
    let mut out: Vec<u32> = Vec::new();
    let mut d: usize = 0;
    proof {
        lemma_at_bounds(end as int, kv_width as int, first as int, offset as int);
        assert((lifted@.len() - 1) * kv_width + first * kv_width == (end - 1) * kv_width)
            by (nonlinear_arith)
            requires
                lifted@.len() == end - first,
        ;
        lemma_at_bounds(end as int, kv_width as int, end - 1, offset as int);
    }
    while d < width
        invariant
            d <= width,
            out@.len() == d,
            0 < lifted@.len(),
            offset + width <= kv_width,
            v@.len() == v.len(),
            0 <= first * kv_width,
            first * kv_width + kv_width <= v@.len(),
            (lifted@.len() - 1) * kv_width + first * kv_width + kv_width <= v@.len(),
            forall|j: int|
                0 <= j < out@.len() ==> weighted(
                    ops,
                    lifted@,
                    sum,
                    v@,
                    first * kv_width + offset + j,
                    kv_width as int,
                    lifted@.len(),
                    #[trigger] out@[j],
                ),
        decreases width - d,
    {
        let x: u32 = weighted_of(ops, &lifted, sum, v, first * kv_width + offset + d, kv_width);
        out.push(x);
        d += 1;
    }
    proof {
        assert(attends_by(
            ops,
            q@,
            query_base as int,
            k@,
            v@,
            offset as int,
            kv_width as int,
            first as int,
            end as int,
            scale,
            score@,
            lifted@,
            sum,
            out@,
        ));
    }
    out
}

/// Attention over `head_count` query heads of `head_dimension` elements each.
///
/// `q` has one row for each query, and `k` and `v` one row for each key. Each
/// group of `head_count / kv_head_count` query heads shares one key and value
/// head. The queries are the last positions of the keys, so that one query
/// against a longer history of keys stands at its true position.
pub fn attention<A: Arithmetic>(
    ops: &A,
    q: &HostTensor,
    k: &HostTensor,
    v: &HostTensor,
    head_count: u64,
    head_dimension: u64,
    kv_head_count: Option<u64>,
    window_size: Option<u64>,
    causal: bool,
) -> (r: Result<HostTensor, ReferenceCpuError>)
    requires
        attention_ready(
            q@,
            k@,
            v@,
            (AttentionParams { head_count, head_dimension, kv_head_count, window_size, causal }),
        ),
    ensures
        attention_gives(
            ops,
            q@,
            k@,
            v@,
            (AttentionParams { head_count, head_dimension, kv_head_count, window_size, causal }),
            r,
        ),
        r matches Ok(t) ==> exists|width: u32, root: u32, scale: u32|
            {
                &&& converts(ops, head_dimension, width)
                &&& #[trigger] roots(ops, width, root)
                &&& #[trigger] divides(ops, ONE, root, scale)
                &&& attention_rows(
                    ops,
                    q@,
                    k@,
                    v@,
                    (AttentionParams {
                        head_count,
                        head_dimension,
                        kv_head_count,
                        window_size,
                        causal,
                    }),
                    scale,
                    q@.shape[0] as int,
                    t@.data,
                )
            },
{
    let p = AttentionParams { head_count, head_dimension, kv_head_count, window_size, causal };
    match same_shape(k, v) {
        Ok(_) => {},
        Err(e) => {
            return Err(e);
        },
    }
    let kv_head_count: u64 = match kv_head_count {
        Some(n) => n,
        None => head_count,
    };
    if head_count == 0 || head_dimension == 0 || kv_head_count == 0 {
        return Err(
            ReferenceCpuError::shape(
                "head_count, kv_head_count, and head_dimension must all be positive".to_owned(),
            ),
        );
    }
    if head_count % kv_head_count != 0 {
        let mut reason = "head_count ".to_owned();
        reason.append(decimal_text(head_count).as_str());
        reason.append(" must be an exact multiple of kv_head_count ");
        reason.append(decimal_text(kv_head_count).as_str());
        return Err(ReferenceCpuError::shape(reason));
    }
    match window_size {
        Some(w) => {
            if w == 0 {
                return Err(
                    ReferenceCpuError::shape(
                        "window_size must be positive; a zero window admits no keys".to_owned(),
                    ),
                );
            }
            if !causal {
                return Err(
                    ReferenceCpuError::shape(
                        "window_size is only defined for causal attention".to_owned(),
                    ),
                );
            }
        },
        None => {},
    }
    let (queries, q_width) = match q.rows_cols() {
        Ok(dims) => dims,
        Err(e) => {
            return Err(e);
        },
    };
    let (keys, kv_width) = match k.rows_cols() {
        Ok(dims) => dims,
        Err(e) => {
            return Err(e);
        },
    };
    if queries > keys {
        let mut reason = "q sequence length ".to_owned();
        reason.append(decimal_text(queries).as_str());
        reason.append(" cannot exceed k/v sequence length ");
        reason.append(decimal_text(keys).as_str());
        return Err(ReferenceCpuError::shape(reason));
    }
    if head_count * head_dimension != q_width {
        let mut reason = "head_count * head_dimension must equal q row width ".to_owned();
        reason.append(decimal_text(q_width).as_str());
        reason.append(", got ");
        reason.append(decimal_text(head_count).as_str());
        reason.append(" * ");
        reason.append(decimal_text(head_dimension).as_str());
        return Err(ReferenceCpuError::shape(reason));
    }
    proof {
        lemma_groups(head_count as int, kv_head_count as int, 0);
        assert(kv_head_count * head_dimension <= head_count * head_dimension) by (nonlinear_arith)
            requires
                kv_head_count <= head_count,
        ;
    }
    if kv_head_count * head_dimension != kv_width {
        let mut reason = "kv_head_count * head_dimension must equal k/v row width ".to_owned();
        reason.append(decimal_text(kv_width).as_str());
        reason.append(", got ");
        reason.append(decimal_text(kv_head_count).as_str());
        reason.append(" * ");
        reason.append(decimal_text(head_dimension).as_str());
        return Err(ReferenceCpuError::shape(reason));
    }
    let out = attention_heads(ops, q, k, v, p);
    proof {
        lemma_matrix_count(q@.shape);
        assert(out@.len() == out.len());
        let scale = choose|scale: u32| #[trigger]
            scales(ops, p.head_dimension, scale) && attention_rows(
                ops,
                q@,
                k@,
                v@,
                p,
                scale,
                q@.shape[0] as int,
                out@,
            );
        let (width, root) = choose|width: u32, root: u32|
            {
                &&& converts(ops, p.head_dimension, width)
                &&& #[trigger] roots(ops, width, root)
                &&& divides(ops, ONE, root, scale)
            };
        assert(roots(ops, width, root) && divides(ops, ONE, root, scale));
    }
    HostTensor::new(q.shape.clone(), out)
}

/// The groups of query heads are not empty, and each query head has a key and
/// value head.
pub proof fn lemma_groups(head_count: int, kv_head_count: int, head: int)
    requires
        0 < head_count,
        0 < kv_head_count,
        head_count % kv_head_count == 0,
        0 <= head < head_count,
    ensures
        kv_head_count <= head_count,
        0 < head_count / kv_head_count,
        0 <= head / (head_count / kv_head_count) < kv_head_count,
{
    let group = head_count / kv_head_count;
    vstd::arithmetic::div_mod::lemma_fundamental_div_mod(head_count, kv_head_count);
    assert(head_count == kv_head_count * group);
    assert(0 < group) by (nonlinear_arith)
        requires
            0 < head_count == kv_head_count * group,
            0 < kv_head_count,
    ;
    assert(kv_head_count <= kv_head_count * group) by (nonlinear_arith)
        requires
            0 < group,
            0 < kv_head_count,
    ;
    vstd::arithmetic::div_mod::lemma_div_pos_is_pos(head, group);
    vstd::arithmetic::div_mod::lemma_multiply_divide_lt(head, group, kv_head_count);
    assert(kv_head_count * group == group * kv_head_count) by (nonlinear_arith);
}

/// The output of every head for every query, row by row.
fn attention_heads<A: Arithmetic>(
    ops: &A,
    q: &HostTensor,
    k: &HostTensor,
    v: &HostTensor,
    p: AttentionParams,
) -> (out: Vec<u32>)
    requires
        attention_ready(q@, k@, v@, p),
        attention_refusal(q@.shape, k@.shape, v@.shape, p) is None,
    ensures
        attention_output(ops, q@, k@, v@, p, out@),
{
    let kv_head_count: u64 = match p.kv_head_count {
        Some(n) => n,
        None => p.head_count,
    };
    let width: u32 = ops.from_integer(p.head_dimension);
    let root: u32 = ops.sqrt(width);
    let scale: u32 = ops.div(ONE, root);
    assert(roots(ops, width, root));
    assert(scales(ops, p.head_dimension, scale));
    let mut out: Vec<u32> = Vec::new();
    let queries: u64 = q.shape[0];
    let keys: u64 = k.shape[0];
    let q_width: u64 = q.shape[1];
    let kv_width: u64 = k.shape[1];
    let group: u64 = p.head_count / kv_head_count;
    if queries == 0 {
        assert(0 * q_width == 0) by (nonlinear_arith);
        return out;
    }
    proof {
        lemma_fits(q@, k@, v@, p);
        assert(q.data@.len() == q.data.len() && k.data@.len() == k.data.len());
        assert(0 * q_width == 0) by (nonlinear_arith);
    }
    let q_width: usize = q_width as usize;
    let kv_width: usize = kv_width as usize;
    let head_dimension: usize = p.head_dimension as usize;
    let mut query: u64 = 0;
    while query < queries
        invariant
            attention_ready(q@, k@, v@, p),
            attention_refusal(q@.shape, k@.shape, v@.shape, p) is None,
            queries == q@.shape[0],
            keys == k@.shape[0],
            q_width == q@.shape[1],
            kv_width == k@.shape[1],
            head_dimension == p.head_dimension,
            kv_head_count == kv_heads(p),
            group == p.head_count / kv_head_count,
            queries * q_width <= q@.data.len(),
            keys * kv_width <= k@.data.len(),
            keys * kv_width <= v@.data.len(),
            keys <= usize::MAX,
            queries <= usize::MAX,
            p.head_count <= usize::MAX,
            0 < q_width,
            q@.data.len() <= usize::MAX,
            k@.data.len() <= usize::MAX,
            query <= queries,
            out@.len() == query * q_width,
            attention_rows(ops, q@, k@, v@, p, scale, query as int, out@),
        decreases queries - query,
    {
        let position: u64 = keys - queries + query;
        let first: u64 = match p.window_size {
            Some(w) => if position < w - 1 {
                0
            } else {
                position - (w - 1)
            },
            None => 0,
        };
        let end: u64 = if p.causal {
            position + 1
        } else {
            keys
        };
        let mut head: u64 = 0;
        let ghost rows_before = out@;
        while head < p.head_count
            invariant
                attention_ready(q@, k@, v@, p),
                attention_refusal(q@.shape, k@.shape, v@.shape, p) is None,
                queries == q@.shape[0],
                keys == k@.shape[0],
                q_width == q@.shape[1],
                kv_width == k@.shape[1],
                head_dimension == p.head_dimension,
                kv_head_count == kv_heads(p),
                group == p.head_count / kv_head_count,
                queries * q_width <= q@.data.len(),
                keys * kv_width <= k@.data.len(),
                keys * kv_width <= v@.data.len(),
                keys <= usize::MAX,
                queries <= usize::MAX,
                p.head_count <= usize::MAX,
                0 < q_width,
                q@.data.len() <= usize::MAX,
                k@.data.len() <= usize::MAX,
                query < queries,
                position == query_position(queries as int, keys as int, query as int),
                first == first_key(position as int, p.window_size),
                end == end_key(position as int, keys as int, p.causal),
                first < end <= keys,
                head <= p.head_count,
                rows_before.len() == query * q_width,
                out@.len() == head_base(
                    q_width as int,
                    head_dimension as int,
                    query as int,
                    head as int,
                ),
                rows_before.is_prefix_of(out@),
                attention_rows(ops, q@, k@, v@, p, scale, query as int, rows_before),
                forall|h: int|
                    0 <= h < head ==> attends_at(
                        ops,
                        q@,
                        k@,
                        v@,
                        p,
                        scale,
                        query as int,
                        h,
                        #[trigger] head_slice(
                            out@,
                            q_width as int,
                            head_dimension as int,
                            query as int,
                            h,
                        ),
                    ),
            decreases p.head_count - head,
        {
            proof {
                lemma_groups(p.head_count as int, kv_head_count as int, head as int);
                lemma_at_bounds(
                    queries as int,
                    q_width as int,
                    query as int,
                    0,
                );
                lemma_at_bounds(
                    p.head_count as int,
                    head_dimension as int,
                    head as int,
                    0,
                );
                lemma_at_bounds(
                    kv_head_count as int,
                    head_dimension as int,
                    shared_head(p, head as int),
                    0,
                );
                assert(end * kv_width <= keys * kv_width) by (nonlinear_arith)
                    requires
                        end <= keys,
                ;
            }
            let kv_head: u64 = head / group;
            let query_base: usize = query as usize * q_width + head as usize * head_dimension;
            let offset: usize = kv_head as usize * head_dimension;
            let mut row = attend(
                ops,
                &q.data,
                query_base,
                &k.data,
                &v.data,
                offset,
                kv_width,
                first as usize,
                end as usize,
                head_dimension,
                scale,
            );
            let ghost before = out@;
            let ghost added = row@;
            out.append(&mut row);
            proof {
                assert(out@ =~= before + added);
                assert(head_slice(
                    out@,
                    q_width as int,
                    head_dimension as int,
                    query as int,
                    head as int,
                ) =~= added);
                assert forall|h: int| 0 <= h < head + 1 implies attends_at(
                    ops,
                    q@,
                    k@,
                    v@,
                    p,
                    scale,
                    query as int,
                    h,
                    #[trigger] head_slice(
                        out@,
                        q_width as int,
                        head_dimension as int,
                        query as int,
                        h,
                    ),
                ) by {
                    if h < head {
                        lemma_heads_apart(
                            q_width as int,
                            head_dimension as int,
                            query as int,
                            h,
                            head as int,
                        );
                        assert(head_slice(
                            out@,
                            q_width as int,
                            head_dimension as int,
                            query as int,
                            h,
                        ) =~= head_slice(
                            before,
                            q_width as int,
                            head_dimension as int,
                            query as int,
                            h,
                        ));
                    }
                }
            }
            head += 1;
        }
        proof {
            lemma_at_bounds(queries as int, q_width as int, query as int, 0);
            assert forall|i: int, h: int| 0 <= i < query + 1 && 0 <= h < p.head_count implies
                attends_at(
                ops,
                q@,
                k@,
                v@,
                p,
                scale,
                i,
                h,
                #[trigger] head_slice(out@, q@.shape[1] as int, p.head_dimension as int, i, h),
            ) by {
                if i < query {
                    lemma_at_bounds(query as int, q_width as int, i, 0);
                    lemma_at_bounds(p.head_count as int, head_dimension as int, h, 0);
                    assert(head_slice(out@, q_width as int, head_dimension as int, i, h)
                        =~= head_slice(rows_before, q_width as int, head_dimension as int, i, h));
                }
            }
        }
        query += 1;
    }
    out
}

/// What attention reads is addressable.
proof fn lemma_fits(q: Tensor, k: Tensor, v: Tensor, p: AttentionParams)
    requires
        attention_ready(q, k, v, p),
        attention_refusal(q.shape, k.shape, v.shape, p) is None,
        q.shape[0] > 0,
    ensures
        q.shape[0] <= q.data.len(),
        q.shape[1] <= q.data.len(),
        k.shape[0] <= k.data.len(),
        k.shape[1] <= k.data.len(),
        p.head_dimension <= q.data.len(),
        p.head_count <= q.data.len(),
        0 < q.shape[1],
{
    lemma_groups(p.head_count as int, kv_heads(p) as int, 0);
    assert(p.head_dimension <= p.head_count * p.head_dimension && p.head_count <= p.head_count
        * p.head_dimension) by (nonlinear_arith)
        requires
            1 <= p.head_count,
            1 <= p.head_dimension,
    ;
    assert(1 <= kv_heads(p) * p.head_dimension) by (nonlinear_arith)
        requires
            1 <= kv_heads(p),
            1 <= p.head_dimension,
    ;
    assert(q.shape[0] <= q.shape[0] * q.shape[1] && q.shape[1] <= q.shape[0] * q.shape[1])
        by (nonlinear_arith)
        requires
            1 <= q.shape[0],
            1 <= q.shape[1],
    ;
    assert(k.shape[0] <= k.shape[0] * k.shape[1] && k.shape[1] <= k.shape[0] * k.shape[1])
        by (nonlinear_arith)
        requires
            1 <= k.shape[0],
            1 <= k.shape[1],
    ;
}

/// The elements of an earlier head come before those of a later one.
proof fn lemma_heads_apart(q_width: int, head_dimension: int, query: int, h: int, head: int)
    requires
        0 <= h < head,
        0 <= head_dimension,
        0 <= query * q_width,
    ensures
        0 <= head_base(q_width, head_dimension, query, h),
        head_base(q_width, head_dimension, query, h) + head_dimension <= head_base(
            q_width,
            head_dimension,
            query,
            head,
        ),
{
    assert(h * head_dimension + head_dimension <= head * head_dimension) by (nonlinear_arith)
        requires
            h + 1 <= head,
            0 <= head_dimension,
    ;
    assert(0 <= h * head_dimension) by (nonlinear_arith)
        requires
            0 <= h,
            0 <= head_dimension,
    ;
}

/// A causal query sees the keys up to its own position, and of those the most
/// recent ones that the window admits.
pub proof fn law_window(position: int, keys: int, window: Option<u64>)
    requires
        0 <= position < keys,
        window != Some(0u64),
    ensures
        0 <= first_key(position, window) < end_key(position, keys, true),
        end_key(position, keys, true) == position + 1,
        window matches Some(w) ==> end_key(position, keys, true) - first_key(position, window) == (
        if w <= position {
            w as int
        } else {
            position + 1
        }),
        window is None ==> first_key(position, window) == 0,
{
}

/// Each query head shares the key and value head of its group, and the groups
/// are equally large.
pub proof fn law_groups(p: AttentionParams, head: int)
    requires
        0 < p.head_count,
        0 < kv_heads(p),
        p.head_count % kv_heads(p) == 0,
        0 <= head < p.head_count,
    ensures
        0 <= shared_head(p, head) < kv_heads(p),
        shared_head(p, head) * (p.head_count / kv_heads(p)) <= head < (shared_head(p, head) + 1) * (
        p.head_count / kv_heads(p)),
{
    let group = p.head_count as int / kv_heads(p) as int;
    lemma_groups(p.head_count as int, kv_heads(p) as int, head);
    vstd::arithmetic::div_mod::lemma_fundamental_div_mod(head, group);
    assert(group * (head / group) == (head / group) * group) by (nonlinear_arith);
    assert((head / group + 1) * group == (head / group) * group + group) by (nonlinear_arith);
}

/// Incremental decoding: the rows of some queries are what those queries alone
/// are given against the keys up to the last of them. This holds of causal
/// attention, and without a causal mask of the last queries.
pub proof fn law_attention_incremental<A: Arithmetic>(
    ops: &A,
    q: Tensor,
    k: Tensor,
    v: Tensor,
    p: AttentionParams,
    out: Seq<u32>,
    from: int,
    to: int,
)
    requires
        well_formed(q),
        well_formed(k),
        well_formed(v),
        attention_refusal(q.shape, k.shape, v.shape, p) is None,
        attention_output(ops, q, k, v, p, out),
        0 <= from <= to <= q.shape[0],
        p.causal || to == q.shape[0],
    ensures
        ({
            let keys = k.shape[0] - (q.shape[0] - to);
            let some_q = matrix_rows(q, from, to);
            let some_k = matrix_rows(k, 0, keys);
            let some_v = matrix_rows(v, 0, keys);
            let some_out = out.subrange(from * q.shape[1], to * q.shape[1]);
            &&& attention_refusal(some_q.shape, some_k.shape, some_v.shape, p) is None
            &&& attention_output(ops, some_q, some_k, some_v, p, some_out)
        }),
{
    let keys = k.shape[0] - (q.shape[0] - to);
    let some_q = matrix_rows(q, from, to);
    let some_k = matrix_rows(k, 0, keys);
    let some_v = matrix_rows(v, 0, keys);
    let q_width = q.shape[1] as int;
    let kv_width = k.shape[1] as int;
    let some_out = out.subrange(from * q_width, to * q_width);
    assert(some_k.shape == some_v.shape);
    lemma_matrix_count(q.shape);
    lemma_matrix_count(k.shape);
    assert(0 <= from * q_width <= to * q_width <= q.shape[0] * q_width) by (nonlinear_arith)
        requires
            0 <= from <= to <= q.shape[0],
            0 <= q_width,
    ;
    assert((to - from) * q_width == to * q_width - from * q_width) by (nonlinear_arith);
    assert(0 <= keys * kv_width <= k.shape[0] * kv_width) by (nonlinear_arith)
        requires
            0 <= keys <= k.shape[0],
            0 <= kv_width,
    ;
    assert(0 * kv_width == 0) by (nonlinear_arith);
    let scale = choose|scale: u32| #[trigger]
        scales(ops, p.head_dimension, scale) && attention_rows(
            ops,
            q,
            k,
            v,
            p,
            scale,
            q.shape[0] as int,
            out,
        );
    let width = p.head_dimension as int;
    assert forall|query: int, head: int|
        0 <= query < to - from && 0 <= head < p.head_count implies attends_at(
        ops,
        some_q,
        some_k,
        some_v,
        p,
        scale,
        query,
        head,
        #[trigger] head_slice(some_out, q_width, width, query, head),
    ) by {
        lemma_attends_incremental(ops, q, k, v, p, scale, out, from, to, query, head);
    }
    assert(attention_rows(ops, some_q, some_k, some_v, p, scale, to - from, some_out));
}

/// One head of one query, as in [`law_attention_incremental`].
proof fn lemma_attends_incremental<A: Arithmetic>(
    ops: &A,
    q: Tensor,
    k: Tensor,
    v: Tensor,
    p: AttentionParams,
    scale: u32,
    out: Seq<u32>,
    from: int,
    to: int,
    query: int,
    head: int,
)
    requires
        well_formed(q),
        well_formed(k),
        well_formed(v),
        attention_refusal(q.shape, k.shape, v.shape, p) is None,
        out.len() == q.shape[0] * q.shape[1],
        attention_rows(ops, q, k, v, p, scale, q.shape[0] as int, out),
        0 <= from <= to <= q.shape[0],
        p.causal || to == q.shape[0],
        0 <= query < to - from,
        0 <= head < p.head_count,
    ensures
        ({
            let keys = k.shape[0] - (q.shape[0] - to);
            let some_out = out.subrange(from * q.shape[1], to * q.shape[1]);
            attends_at(
                ops,
                matrix_rows(q, from, to),
                matrix_rows(k, 0, keys),
                matrix_rows(v, 0, keys),
                p,
                scale,
                query,
                head,
                head_slice(some_out, q.shape[1] as int, p.head_dimension as int, query, head),
            )
        }),
{
    let keys = k.shape[0] - (q.shape[0] - to);
    let some_q = matrix_rows(q, from, to);
    let some_k = matrix_rows(k, 0, keys);
    let some_v = matrix_rows(v, 0, keys);
    let q_width = q.shape[1] as int;
    let kv_width = k.shape[1] as int;
    let width = p.head_dimension as int;
    let some_out = out.subrange(from * q_width, to * q_width);
    lemma_matrix_count(q.shape);
    lemma_matrix_count(k.shape);
    assert(0 <= from * q_width <= to * q_width <= q.shape[0] * q_width) by (nonlinear_arith)
        requires
            0 <= from <= to <= q.shape[0],
            0 <= q_width,
    ;
    assert((to - from) * q_width == to * q_width - from * q_width) by (nonlinear_arith);
    assert(0 <= keys * kv_width <= k.shape[0] * kv_width) by (nonlinear_arith)
        requires
            0 <= keys <= k.shape[0],
            0 <= kv_width,
    ;
    assert(0 * kv_width == 0) by (nonlinear_arith);
    let whole_slice = head_slice(out, q_width, width, from + query, head);
    lemma_at_bounds(p.head_count as int, width, head, 0);
    lemma_at_bounds(to - from, q_width, query, 0);
    lemma_at_bounds(to, q_width, from + query, 0);
    assert((from + query) * q_width == from * q_width + query * q_width) by (nonlinear_arith);
    assert(head_slice(some_out, q_width, width, query, head) =~= whole_slice);
    assert(attends_at(ops, q, k, v, p, scale, from + query, head, whole_slice));
    let position = query_position(q.shape[0] as int, k.shape[0] as int, from + query);
    let offset = shared_head(p, head) * width;
    let first = first_key(position, p.window_size);
    let end = end_key(position, k.shape[0] as int, p.causal);
    assert(end == end_key(position, keys, p.causal));
    lemma_groups(p.head_count as int, kv_heads(p) as int, head);
    lemma_at_bounds(kv_heads(p) as int, width, shared_head(p, head), 0);
    let base = head_base(q_width, width, from + query, head);
    let some_base = head_base(q_width, width, query, head);
    assert(base == some_base + from * q_width);
    assert(base + width <= to * q_width);
    assert forall|key: int, i: int| first <= key < end && 0 <= i < width implies #[trigger]
        key_element(k.data, kv_width, offset, key, i) == key_element(
            some_k.data,
            kv_width,
            offset,
            key,
            i,
        ) by {
        lemma_at_bounds(keys, kv_width, key, offset + i);
    }
    assert forall|key: int, i: int| first <= key < end && 0 <= i < width implies #[trigger]
        key_element(v.data, kv_width, offset, key, i) == key_element(
            some_v.data,
            kv_width,
            offset,
            key,
            i,
        ) by {
        lemma_at_bounds(keys, kv_width, key, offset + i);
    }
    lemma_attends_same(
        ops,
        q.data,
        base,
        some_q.data,
        some_base,
        k.data,
        some_k.data,
        v.data,
        some_v.data,
        offset,
        kv_width,
        offset,
        kv_width,
        first,
        end,
        scale,
        whole_slice,
    );
}

/// An element of a head in the row of a key.
pub open spec fn key_element(data: Seq<u32>, width: int, offset: int, key: int, i: int) -> u32 {
    data[key * width + offset + i]
}

/// What one head gives depends on the query and on the keys that it sees, not
/// on where they are stored.
pub proof fn lemma_attends_same<A: Arithmetic>(
    ops: &A,
    q: Seq<u32>,
    base: int,
    q2: Seq<u32>,
    base2: int,
    k: Seq<u32>,
    k2: Seq<u32>,
    v: Seq<u32>,
    v2: Seq<u32>,
    offset: int,
    kv_width: int,
    offset2: int,
    kv_width2: int,
    first: int,
    end: int,
    scale: u32,
    out: Seq<u32>,
)
    requires
        attends(ops, q, base, k, v, offset, kv_width, first, end, scale, out),
        forall|i: int| 0 <= i < out.len() ==> #[trigger] q[base + i] == q2[base2 + i],
        forall|key: int, i: int|
            first <= key < end && 0 <= i < out.len() ==> #[trigger] key_element(
                k,
                kv_width,
                offset,
                key,
                i,
            ) == key_element(k2, kv_width2, offset2, key, i),
        forall|key: int, i: int|
            first <= key < end && 0 <= i < out.len() ==> #[trigger] key_element(
                v,
                kv_width,
                offset,
                key,
                i,
            ) == key_element(v2, kv_width2, offset2, key, i),
    ensures
        attends(ops, q2, base2, k2, v2, offset2, kv_width2, first, end, scale, out),
{
    let (score, lifted, sum) = choose|score: Seq<u32>, lifted: Seq<u32>, sum: u32| #[trigger]
        attends_by(
            ops,
            q,
            base,
            k,
            v,
            offset,
            kv_width,
            first,
            end,
            scale,
            score,
            lifted,
            sum,
            out,
        );
    let n = out.len();
    assert forall|i: int| 0 <= i < score.len() implies scores(
        ops,
        q2,
        base2,
        k2,
        (first + i) * kv_width2 + offset2,
        n,
        scale,
        #[trigger] score[i],
    ) by {
        let key_base = (first + i) * kv_width + offset;
        let key_base2 = (first + i) * kv_width2 + offset2;
        let product = choose|product: u32|
            {
                &&& dot(ops, q, base, 1, k, key_base, 1, n, product)
                &&& #[trigger] multiplies(ops, product, scale, score[i])
            };
        assert forall|j: int| 0 <= j < n implies q[#[trigger] (base + j * 1)] == q2[base2 + j
            * 1] by {
            assert(q[base + j] == q2[base2 + j]);
        }
        assert forall|j: int| 0 <= j < n implies k[#[trigger] (key_base + j * 1)] == k2[key_base2
            + j * 1] by {
            assert(key_element(k, kv_width, offset, first + i, j) == key_element(
                k2,
                kv_width2,
                offset2,
                first + i,
                j,
            ));
        }
        lemma_dot_same(
            ops,
            q,
            base,
            1,
            q2,
            base2,
            1,
            k,
            key_base,
            1,
            k2,
            key_base2,
            1,
            n,
            product,
        );
        assert(multiplies(ops, product, scale, score[i]));
    }
    assert forall|d: int| 0 <= d < n implies weighted(
        ops,
        lifted,
        sum,
        v2,
        first * kv_width2 + offset2 + d,
        kv_width2,
        lifted.len(),
        #[trigger] out[d],
    ) by {
        let v0 = first * kv_width + offset + d;
        let v20 = first * kv_width2 + offset2 + d;
        assert forall|i: int| 0 <= i < lifted.len() implies v[#[trigger] (v0 + i * kv_width)]
            == v2[v20 + i * kv_width2] by {
            assert((first + i) * kv_width == first * kv_width + i * kv_width) by (nonlinear_arith);
            assert((first + i) * kv_width2 == first * kv_width2 + i * kv_width2)
                by (nonlinear_arith);
            assert(key_element(v, kv_width, offset, first + i, d) == key_element(
                v2,
                kv_width2,
                offset2,
                first + i,
                d,
            ));
        }
        lemma_weighted_same(
            ops,
            lifted,
            sum,
            v,
            v0,
            kv_width,
            v2,
            v20,
            kv_width2,
            lifted.len(),
            out[d],
        );
    }
    assert(attends_by(
        ops,
        q2,
        base2,
        k2,
        v2,
        offset2,
        kv_width2,
        first,
        end,
        scale,
        score,
        lifted,
        sum,
        out,
    ));
}

/// Whether the width of a row can be worked out, and the elements that
/// attention reads are there.
pub fn attention_is_ready(
    q: &HostTensor,
    k: &HostTensor,
    v: &HostTensor,
    head_count: u64,
    head_dimension: u64,
    kv_head_count: Option<u64>,
    window_size: Option<u64>,
    causal: bool,
) -> (r: bool)
    ensures
        r == attention_ready(
            q@,
            k@,
            v@,
            (AttentionParams { head_count, head_dimension, kv_head_count, window_size, causal }),
        ),
{
    let kv_head_count: u64 = match kv_head_count {
        Some(n) => n,
        None => head_count,
    };
    let windowed = match window_size {
        Some(w) => w == 0 || !causal,
        None => false,
    };
    if !same_extents(&k.shape, &v.shape) || windowed {
        return true;
    }
    if head_count == 0 || head_dimension == 0 || kv_head_count == 0 {
        return true;
    }
    if head_count % kv_head_count != 0 {
        return true;
    }
    if q.shape.len() != 2 || k.shape.len() != 2 || q.shape[0] > k.shape[0] {
        return true;
    }
    let q_width: u64 = match head_count.checked_mul(head_dimension) {
        Some(width) => width,
        None => {
            return false;
        },
    };
    proof {
        assert(kv_head_count <= head_count) by (nonlinear_arith)
            requires
                head_count % kv_head_count == 0,
                0 < kv_head_count,
                0 < head_count,
        ;
        assert(kv_head_count * head_dimension <= head_count * head_dimension) by (nonlinear_arith)
            requires
                kv_head_count <= head_count,
        ;
    }
    if q_width != q.shape[1] || kv_head_count * head_dimension != k.shape[1] || q.shape[0] == 0 {
        return true;
    }
    product_within(q.shape[0], q.shape[1], q.data.len()) && product_within(
        k.shape[0],
        k.shape[1],
        k.data.len(),
    ) && product_within(k.shape[0], k.shape[1], v.data.len())
}

} // verus!
