//! What attention promises as a whole: one result, the same result from a
//! cache, and no say for keys that a query does not see.

use vstd::prelude::*;

use crate::error::ReferenceCpuError;
use crate::float::{largest, multiplies, single_valued, Arithmetic};
use crate::kernels::attention::{
    attends, attends_at, attends_by, attention_gives, attention_output, attention_refusal,
    attention_rows, end_key, first_key, head_base, head_slice, key_element, kv_heads,
    law_attention_incremental, lemma_attends_same, lemma_groups, lifts, query_position, scales,
    scores, shared_head, AttentionParams,
};
use crate::reduce::{dot, lemma_dot_once, lemma_total_once, lemma_weighted_once};
use crate::tensor::{
    at, lemma_at_bounds, lemma_matrix_count, lemma_rows_make_matrix, matrix_rows, same_result,
    well_formed, HostTensor, Tensor,
};

verus! {

/// There is one scale.
proof fn lemma_scale_once<A: Arithmetic>(ops: &A, head_dimension: u64, scale: u32, scale2: u32)
    requires
        single_valued(ops),
        scales(ops, head_dimension, scale),
        scales(ops, head_dimension, scale2),
    ensures
        scale == scale2,
{
}

/// There is one scaled product of a query and a key.
proof fn lemma_score_once<A: Arithmetic>(
    ops: &A,
    q: Seq<u32>,
    base: int,
    k: Seq<u32>,
    key_base: int,
    width: nat,
    scale: u32,
    r: u32,
    r2: u32,
)
    requires
        single_valued(ops),
        scores(ops, q, base, k, key_base, width, scale, r),
        scores(ops, q, base, k, key_base, width, scale, r2),
    ensures
        r == r2,
{
    let product = choose|product: u32|
        {
            &&& dot(ops, q, base, 1, k, key_base, 1, width, product)
            &&& #[trigger] multiplies(ops, product, scale, r)
        };
    let product2 = choose|product: u32|
        {
            &&& dot(ops, q, base, 1, k, key_base, 1, width, product)
            &&& #[trigger] multiplies(ops, product, scale, r2)
        };
    lemma_dot_once(ops, q, base, 1, k, key_base, 1, width, product, product2);
}

/// There is one output of a head for a query.
proof fn lemma_attends_once<A: Arithmetic>(
    ops: &A,
    q: Seq<u32>,
    base: int,
    k: Seq<u32>,
    v: Seq<u32>,
    offset: int,
    kv_width: int,
    first: int,
    end: int,
    scale: u32,
    out: Seq<u32>,
    out2: Seq<u32>,
)
    requires
        single_valued(ops),
        attends(ops, q, base, k, v, offset, kv_width, first, end, scale, out),
        attends(ops, q, base, k, v, offset, kv_width, first, end, scale, out2),
        out.len() == out2.len(),
    ensures
        out == out2,
{
    let (score, lifted, sum) = choose|score: Seq<u32>, lifted: Seq<u32>, sum: u32| #[trigger]
        attends_by(
            ops,
            q,
            base,
            k,
            v,
            offset,
            kv_width,
            first,
            end,
            scale,
            score,
            lifted,
            sum,
            out,
        );
    let (score2, lifted2, sum2) = choose|score: Seq<u32>, lifted: Seq<u32>, sum: u32| #[trigger]
        attends_by(
            ops,
            q,
            base,
            k,
            v,
            offset,
            kv_width,
            first,
            end,
            scale,
            score,
            lifted,
            sum,
            out2,
        );
    assert forall|i: int| 0 <= i < score.len() implies score[i] == score2[i] by {
        lemma_score_once(
            ops,
            q,
            base,
            k,
            (first + i) * kv_width + offset,
            out.len(),
            scale,
            score[i],
            score2[i],
        );
    }
    assert(score =~= score2);
    assert forall|i: int| 0 <= i < lifted.len() implies lifted[i] == lifted2[i] by {
        assert(lifts(ops, score[i], largest(score, score.len()), lifted[i]));
        assert(lifts(ops, score[i], largest(score, score.len()), lifted2[i]));
    }
    assert(lifted =~= lifted2);
    lemma_total_once(ops, lifted, lifted.len(), sum, sum2);
    assert forall|d: int| 0 <= d < out.len() implies out[d] == out2[d] by {
        lemma_weighted_once(
            ops,
            lifted,
            sum,
            v,
            first * kv_width + offset + d,
            kv_width,
            lifted.len(),
            out[d],
            out2[d],
        );
    }
    assert(out =~= out2);
}

/// Where the heads of a row are the same, the row is.
proof fn lemma_heads_make_row(
    out: Seq<u32>,
    out2: Seq<u32>,
    heads: int,
    head_dimension: int,
    width: int,
    query: int,
)
    requires
        0 < head_dimension,
        0 <= heads,
        width == heads * head_dimension,
        0 <= query,
        (query + 1) * width <= out.len(),
        (query + 1) * width <= out2.len(),
        forall|head: int|
            0 <= head < heads ==> #[trigger] head_slice(out, width, head_dimension, query, head)
                == head_slice(out2, width, head_dimension, query, head),
    ensures
        forall|j: int| 0 <= j < width ==> #[trigger] out[query * width + j] == out2[query * width
            + j],
{
    assert((query + 1) * width == query * width + width) by (nonlinear_arith);
    assert(0 <= query * width) by (nonlinear_arith)
        requires
            0 <= query,
            width == heads * head_dimension,
            0 <= heads,
            0 < head_dimension,
    ;
    assert forall|j: int| 0 <= j < width implies #[trigger] out[query * width + j] == out2[query
        * width + j] by {
        let head = j / head_dimension;
        let i = j % head_dimension;
        vstd::arithmetic::div_mod::lemma_fundamental_div_mod(j, head_dimension);
        assert(head * head_dimension == head_dimension * head) by (nonlinear_arith);
        assert(0 <= head < heads) by (nonlinear_arith)
            requires
                j == head_dimension * head + i,
                0 <= i < head_dimension,
                0 <= j < heads * head_dimension,
        ;
        lemma_at_bounds(heads, head_dimension, head, i);
        let slice = head_slice(out, width, head_dimension, query, head);
        let slice2 = head_slice(out2, width, head_dimension, query, head);
        assert(slice == slice2);
        assert(slice[i] == out[head_base(width, head_dimension, query, head) + i]);
        assert(slice2[i] == out2[head_base(width, head_dimension, query, head) + i]);
    }
}

/// The elements that a query sees are the same in two matrices.
pub open spec fn rows_agree(t: Tensor, t2: Tensor, from: int, to: int) -> bool {
    &&& t2.shape == t.shape
    &&& forall|row: int, col: int|
        from <= row < to && 0 <= col < t.shape[1] ==> #[trigger] at(
            t.data,
            t.shape[1] as int,
            row,
            col,
        ) == at(t2.data, t.shape[1] as int, row, col)
}

/// The first and the last key that a query of an attention sees.
pub open spec fn seen_keys(q: Tensor, k: Tensor, p: AttentionParams, query: int) -> (int, int) {
    let position = query_position(q.shape[0] as int, k.shape[0] as int, query);
    (first_key(position, p.window_size), end_key(position, k.shape[0] as int, p.causal))
}

/// The width of the rows, and the place of a head in the row of a key.
proof fn lemma_widths(q: Tensor, k: Tensor, v: Tensor, p: AttentionParams, head: int)
    requires
        attention_refusal(q.shape, k.shape, v.shape, p) is None,
        0 <= head < p.head_count,
    ensures
        q.shape.len() == 2,
        k.shape.len() == 2,
        v.shape == k.shape,
        0 < p.head_dimension,
        q.shape[1] == p.head_count * p.head_dimension,
        k.shape[1] == kv_heads(p) * p.head_dimension,
        0 < q.shape[1],
        q.shape[0] <= k.shape[0],
        0 <= shared_head(p, head) < kv_heads(p),
        0 <= shared_head(p, head) * p.head_dimension,
        shared_head(p, head) * p.head_dimension + p.head_dimension <= k.shape[1],
{
    lemma_groups(p.head_count as int, kv_heads(p) as int, head);
    lemma_at_bounds(kv_heads(p) as int, p.head_dimension as int, shared_head(p, head), 0);
    lemma_at_bounds(p.head_count as int, p.head_dimension as int, head, 0);
}

/// The row of a query depends on the keys that it sees: under an arithmetic with
/// one result for the same operands, it is the same with any keys and values
/// that agree on those.
pub proof fn law_unseen_keys<A: Arithmetic>(
    ops: &A,
    q: Tensor,
    k: Tensor,
    v: Tensor,
    k2: Tensor,
    v2: Tensor,
    p: AttentionParams,
    r: HostTensor,
    r2: HostTensor,
    query: int,
)
    requires
        single_valued(ops),
        attention_gives(ops, q, k, v, p, Ok(r)),
        attention_gives(ops, q, k2, v2, p, Ok(r2)),
        0 <= query < q.shape[0],
        rows_agree(k, k2, seen_keys(q, k, p, query).0, seen_keys(q, k, p, query).1),
        rows_agree(v, v2, seen_keys(q, k, p, query).0, seen_keys(q, k, p, query).1),
    ensures
        forall|j: int|
            0 <= j < q.shape[1] ==> #[trigger] at(r@.data, q.shape[1] as int, query, j) == at(
                r2@.data,
                q.shape[1] as int,
                query,
                j,
            ),
{
    lemma_unseen(ops, q, k, v, k2, v2, p, r@.data, r2@.data, query);
}

/// The row of a query, as in [`law_unseen_keys`].
proof fn lemma_unseen<A: Arithmetic>(
    ops: &A,
    q: Tensor,
    k: Tensor,
    v: Tensor,
    k2: Tensor,
    v2: Tensor,
    p: AttentionParams,
    all: Seq<u32>,
    all2: Seq<u32>,
    query: int,
)
    requires
        single_valued(ops),
        attention_refusal(q.shape, k.shape, v.shape, p) is None,
        attention_output(ops, q, k, v, p, all),
        attention_output(ops, q, k2, v2, p, all2),
        0 <= query < q.shape[0],
        rows_agree(k, k2, seen_keys(q, k, p, query).0, seen_keys(q, k, p, query).1),
        rows_agree(v, v2, seen_keys(q, k, p, query).0, seen_keys(q, k, p, query).1),
    ensures
        forall|j: int|
            0 <= j < q.shape[1] ==> #[trigger] at(all, q.shape[1] as int, query, j) == at(
                all2,
                q.shape[1] as int,
                query,
                j,
            ),
{
    let (first, end) = seen_keys(q, k, p, query);
    let width = p.head_dimension as int;
    let q_width = q.shape[1] as int;
    let kv_width = k.shape[1] as int;
    let scale = choose|scale: u32| #[trigger]
        scales(ops, p.head_dimension, scale) && attention_rows(
            ops,
            q,
            k,
            v,
            p,
            scale,
            q.shape[0] as int,
            all,
        );
    let scale2 = choose|scale: u32| #[trigger]
        scales(ops, p.head_dimension, scale) && attention_rows(
            ops,
            q,
            k2,
            v2,
            p,
            scale,
            q.shape[0] as int,
            all2,
        );
    lemma_scale_once(ops, p.head_dimension, scale, scale2);
    lemma_widths(q, k, v, p, 0);
    lemma_at_bounds(q.shape[0] as int, q_width, query, 0);
    assert forall|head: int| 0 <= head < p.head_count implies #[trigger] head_slice(
        all,
        q_width,
        width,
        query,
        head,
    ) == head_slice(all2, q_width, width, query, head) by {
        lemma_widths(q, k, v, p, head);
        lemma_at_bounds(p.head_count as int, width, head, 0);
        let offset = shared_head(p, head) * width;
        let base = head_base(q_width, width, query, head);
        let out = head_slice(all, q_width, width, query, head);
        let out2 = head_slice(all2, q_width, width, query, head);
        assert(attends_at(ops, q, k, v, p, scale, query, head, out));
        assert(attends_at(ops, q, k2, v2, p, scale, query, head, out2));
        lemma_same_keys(k, k2, first, end, offset, width);
        lemma_same_keys(v, v2, first, end, offset, width);
        lemma_attends_same(
            ops,
            q.data,
            base,
            q.data,
            base,
            k.data,
            k2.data,
            v.data,
            v2.data,
            offset,
            kv_width,
            offset,
            kv_width,
            first,
            end,
            scale,
            out,
        );
        lemma_attends_once(
            ops,
            q.data,
            base,
            k2.data,
            v2.data,
            offset,
            kv_width,
            first,
            end,
            scale,
            out,
            out2,
        );
    }
    lemma_heads_make_row(all, all2, p.head_count as int, width, q_width, query);
    assert forall|j: int| 0 <= j < q.shape[1] implies #[trigger] at(all, q_width, query, j)
        == at(all2, q_width, query, j) by {
        assert(all[query * q_width + j] == all2[query * q_width + j]);
    }
}

/// The heads of rows that agree do.
proof fn lemma_same_keys(
    t: Tensor,
    t2: Tensor,
    first: int,
    end: int,
    offset: int,
    width: int,
)
    requires
        rows_agree(t, t2, first, end),
        0 <= offset,
        offset + width <= t.shape[1],
    ensures
        forall|key: int, i: int|
            first <= key < end && 0 <= i < width ==> #[trigger] key_element(
                t.data,
                t.shape[1] as int,
                offset,
                key,
                i,
            ) == key_element(t2.data, t.shape[1] as int, offset, key, i),
{
    assert forall|key: int, i: int| first <= key < end && 0 <= i < width implies #[trigger]
        key_element(t.data, t.shape[1] as int, offset, key, i) == key_element(
            t2.data,
            t.shape[1] as int,
            offset,
            key,
            i,
        ) by {
        assert(at(t.data, t.shape[1] as int, key, offset + i) == at(
            t2.data,
            t.shape[1] as int,
            key,
            offset + i,
        ));
    }
}

/// Under an arithmetic with one result for the same operands, attention has one
/// result.
pub proof fn law_attention_once<A: Arithmetic>(
    ops: &A,
    q: Tensor,
    k: Tensor,
    v: Tensor,
    p: AttentionParams,
    r: Result<HostTensor, ReferenceCpuError>,
    r2: Result<HostTensor, ReferenceCpuError>,
)
    requires
        single_valued(ops),
        attention_gives(ops, q, k, v, p, r),
        attention_gives(ops, q, k, v, p, r2),
    ensures
        same_result(r, r2),
{
    if r is Ok {
        lemma_output_once(ops, q, k, v, p, r->Ok_0@.data, r2->Ok_0@.data);
    }
}

/// All rows of a matrix are the matrix.
proof fn lemma_all_rows(t: Tensor)
    requires
        well_formed(t),
        t.shape.len() == 2,
    ensures
        matrix_rows(t, 0, t.shape[0] as int) == t,
{
    lemma_matrix_count(t.shape);
    assert(0 * t.shape[1] == 0) by (nonlinear_arith);
    assert(matrix_rows(t, 0, t.shape[0] as int).shape =~= t.shape);
    assert(matrix_rows(t, 0, t.shape[0] as int).data =~= t.data);
}

/// Incremental decoding: under an arithmetic with one result for the same
/// operands, some queries alone, against the keys up to the last of them, give
/// the rows that they have in the whole. This holds of causal attention, and
/// without a causal mask of the last queries.
pub proof fn law_attention_decode<A: Arithmetic>(
    ops: &A,
    q: Tensor,
    k: Tensor,
    v: Tensor,
    p: AttentionParams,
    r: HostTensor,
    from: int,
    to: int,
    s: Result<HostTensor, ReferenceCpuError>,
)
    requires
        single_valued(ops),
        well_formed(q),
        well_formed(k),
        well_formed(v),
        attention_gives(ops, q, k, v, p, Ok(r)),
        0 <= from <= to <= q.shape[0],
        p.causal || to == q.shape[0],
        ({
            let keys = k.shape[0] - (q.shape[0] - to);
            attention_gives(
                ops,
                matrix_rows(q, from, to),
                matrix_rows(k, 0, keys),
                matrix_rows(v, 0, keys),
                p,
                s,
            )
        }),
    ensures
        s matches Ok(t) && t@ == matrix_rows(r@, from, to),
{
    let keys = k.shape[0] - (q.shape[0] - to);
    let some_q = matrix_rows(q, from, to);
    let some_k = matrix_rows(k, 0, keys);
    let some_v = matrix_rows(v, 0, keys);
    let some_out = r@.data.subrange(from * q.shape[1], to * q.shape[1]);
    lemma_widths(q, k, v, p, 0);
    law_attention_incremental(ops, q, k, v, p, r@.data, from, to);
    assert(attention_refusal(some_q.shape, some_k.shape, some_v.shape, p) is None);
    lemma_output_once(ops, some_q, some_k, some_v, p, some_out, s->Ok_0@.data);
    assert(s->Ok_0@.shape =~= matrix_rows(r@, from, to).shape);
}

/// A decode step: under an arithmetic with one result for the same operands,
/// the last queries alone, against all keys, give the last rows of the whole.
pub proof fn law_attention_last_rows<A: Arithmetic>(
    ops: &A,
    q: Tensor,
    k: Tensor,
    v: Tensor,
    p: AttentionParams,
    r: HostTensor,
    from: int,
    s: Result<HostTensor, ReferenceCpuError>,
)
    requires
        single_valued(ops),
        well_formed(q),
        well_formed(k),
        well_formed(v),
        attention_gives(ops, q, k, v, p, Ok(r)),
        0 <= from <= q.shape[0],
        attention_gives(ops, matrix_rows(q, from, q.shape[0] as int), k, v, p, s),
    ensures
        s matches Ok(t) && t@ == matrix_rows(r@, from, q.shape[0] as int),
{
    lemma_widths(q, k, v, p, 0);
    lemma_all_rows(k);
    lemma_all_rows(v);
    law_attention_decode(ops, q, k, v, p, r, from, q.shape[0] as int, s);
}

/// There is one output of attention.
proof fn lemma_output_once<A: Arithmetic>(
    ops: &A,
    q: Tensor,
    k: Tensor,
    v: Tensor,
    p: AttentionParams,
    out: Seq<u32>,
    out2: Seq<u32>,
)
    requires
        single_valued(ops),
        attention_refusal(q.shape, k.shape, v.shape, p) is None,
        attention_output(ops, q, k, v, p, out),
        attention_output(ops, q, k, v, p, out2),
    ensures
        out == out2,
{
    lemma_widths(q, k, v, p, 0);
    let q_width = q.shape[1] as int;
    assert forall|query: int, j: int|
        0 <= query < q.shape[0] && 0 <= j < q_width implies #[trigger] at(out, q_width, query, j)
        == at(out2, q_width, query, j) by {
        lemma_unseen(ops, q, k, v, k, v, p, out, out2, query);
    }
    lemma_rows_make_matrix(out, out2, q.shape[0] as int, q_width);
}

/// A matrix of keys or values in which each head is repeated for the query
/// heads that share it.
pub open spec fn repeats_heads(p: AttentionParams, width: u64, t: Tensor, repeated: Tensor) -> bool {
    &&& t.shape.len() == 2
    &&& repeated.shape == seq![t.shape[0], width]
    &&& forall|row: int, head: int, i: int|
        0 <= row < t.shape[0] && 0 <= head < p.head_count && 0 <= i < p.head_dimension
            ==> #[trigger] head_element(
            repeated.data,
            width as int,
            p.head_dimension as int,
            row,
            head,
            i,
        ) == head_element(
            t.data,
            t.shape[1] as int,
            p.head_dimension as int,
            row,
            shared_head(p, head),
            i,
        )
}

/// An element of a head in a row.
pub open spec fn head_element(
    data: Seq<u32>,
    width: int,
    head_dimension: int,
    row: int,
    head: int,
    i: int,
) -> u32 {
    data[row * width + head * head_dimension + i]
}

/// Grouped-query attention gives what attention with as many key and value
/// heads as query heads gives, where each key and value head is repeated for
/// the query heads that share it.
pub proof fn law_grouped_heads<A: Arithmetic>(
    ops: &A,
    q: Tensor,
    k: Tensor,
    v: Tensor,
    k2: Tensor,
    v2: Tensor,
    p: AttentionParams,
    r: HostTensor,
)
    requires
        attention_gives(ops, q, k, v, p, Ok(r)),
        repeats_heads(p, q.shape[1], k, k2),
        repeats_heads(p, q.shape[1], v, v2),
    ensures
        attention_gives(
            ops,
            q,
            k2,
            v2,
            (AttentionParams { kv_head_count: None, ..p }),
            Ok(r),
        ),
{
    let p2 = AttentionParams { kv_head_count: None, ..p };
    let width = p.head_dimension as int;
    let q_width = q.shape[1] as int;
    let scale = choose|scale: u32| #[trigger]
        scales(ops, p.head_dimension, scale) && attention_rows(
            ops,
            q,
            k,
            v,
            p,
            scale,
            q.shape[0] as int,
            r@.data,
        );
    lemma_widths(q, k, v, p, 0);
    assert(k2.shape == v2.shape);
    assert(p2.head_count % kv_heads(p2) == 0) by (nonlinear_arith)
        requires
            0 < p2.head_count,
            kv_heads(p2) == p2.head_count,
    ;
    assert(attention_refusal(q.shape, k2.shape, v2.shape, p2) is None);
    assert forall|query: int, head: int|
        0 <= query < q.shape[0] && 0 <= head < p2.head_count implies attends_at(
        ops,
        q,
        k2,
        v2,
        p2,
        scale,
        query,
        head,
        #[trigger] head_slice(r@.data, q_width, width, query, head),
    ) by {
        let out = head_slice(r@.data, q_width, width, query, head);
        assert(attends_at(ops, q, k, v, p, scale, query, head, out));
        lemma_widths(q, k, v, p, head);
        lemma_at_bounds(q.shape[0] as int, q_width, query, 0);
        lemma_at_bounds(p.head_count as int, width, head, 0);
        assert(p2.head_count as int / kv_heads(p2) as int == 1) by (nonlinear_arith)
            requires
                0 < p2.head_count,
                kv_heads(p2) == p2.head_count,
        ;
        assert(shared_head(p2, head) == head);
        let (first, end) = seen_keys(q, k, p, query);
        let base = head_base(q_width, width, query, head);
        lemma_repeated(p, q.shape[1], k, k2, head, first, end);
        lemma_repeated(p, q.shape[1], v, v2, head, first, end);
        lemma_attends_same(
            ops,
            q.data,
            base,
            q.data,
            base,
            k.data,
            k2.data,
            v.data,
            v2.data,
            shared_head(p, head) * width,
            k.shape[1] as int,
            head * width,
            q_width,
            first,
            end,
            scale,
            out,
        );
    }
    assert(attention_rows(ops, q, k2, v2, p2, scale, q.shape[0] as int, r@.data));
    assert(attention_output(ops, q, k2, v2, p2, r@.data));
}

/// A repeated head has the elements of the head that it repeats.
proof fn lemma_repeated(
    p: AttentionParams,
    width: u64,
    t: Tensor,
    repeated: Tensor,
    head: int,
    first: int,
    end: int,
)
    requires
        repeats_heads(p, width, t, repeated),
        0 <= head < p.head_count,
        0 <= first,
        end <= t.shape[0],
    ensures
        forall|key: int, i: int|
            first <= key < end && 0 <= i < p.head_dimension ==> #[trigger] key_element(
                t.data,
                t.shape[1] as int,
                shared_head(p, head) * p.head_dimension,
                key,
                i,
            ) == key_element(repeated.data, width as int, head * p.head_dimension, key, i),
{
    assert forall|key: int, i: int|
        first <= key < end && 0 <= i < p.head_dimension implies #[trigger] key_element(
        t.data,
        t.shape[1] as int,
        shared_head(p, head) * p.head_dimension,
        key,
        i,
    ) == key_element(repeated.data, width as int, head * p.head_dimension, key, i) by {
        assert(head_element(
            repeated.data,
            width as int,
            p.head_dimension as int,
            key,
            head,
            i,
        ) == head_element(
            t.data,
            t.shape[1] as int,
            p.head_dimension as int,
            key,
            shared_head(p, head),
            i,
        ));
    }
}

/// Under an arithmetic with one result for the same operands, grouped-query
/// attention is attention with each key and value head repeated.
pub proof fn law_grouped_heads_equal<A: Arithmetic>(
    ops: &A,
    q: Tensor,
    k: Tensor,
    v: Tensor,
    k2: Tensor,
    v2: Tensor,
    p: AttentionParams,
    r: HostTensor,
    s: Result<HostTensor, ReferenceCpuError>,
)
    requires
        single_valued(ops),
        attention_gives(ops, q, k, v, p, Ok(r)),
        repeats_heads(p, q.shape[1], k, k2),
        repeats_heads(p, q.shape[1], v, v2),
        attention_gives(ops, q, k2, v2, (AttentionParams { kv_head_count: None, ..p }), s),
    ensures
        s matches Ok(t) && t@ == r@,
{
    law_grouped_heads(ops, q, k, v, k2, v2, p, r);
    law_attention_once(
        ops,
        q,
        k2,
        v2,
        AttentionParams { kv_head_count: None, ..p },
        Ok(r),
        s,
    );
}

/// A window at least as long as the keys is no window.
pub proof fn law_whole_window<A: Arithmetic>(
    ops: &A,
    q: Tensor,
    k: Tensor,
    v: Tensor,
    p: AttentionParams,
    window: u64,
    r: Result<HostTensor, ReferenceCpuError>,
)
    requires
        p.causal,
        p.window_size == Some(window),
        0 < window,
        k.shape[0] <= window,
    ensures
        attention_gives(ops, q, k, v, p, r) <==> attention_gives(
            ops,
            q,
            k,
            v,
            (AttentionParams { window_size: None, ..p }),
            r,
        ),
{
    let p2 = AttentionParams { window_size: None, ..p };
    assert(attention_refusal(q.shape, k.shape, v.shape, p) == attention_refusal(
        q.shape,
        k.shape,
        v.shape,
        p2,
    ));
    if r is Ok && attention_refusal(q.shape, k.shape, v.shape, p) is None {
        let out = r->Ok_0@.data;
        lemma_widths(q, k, v, p, 0);
        assert forall|scale: u32, query: int, head: int, slice: Seq<u32>|
            0 <= query < q.shape[0] && 0 <= head < p.head_count implies #[trigger] attends_at(
            ops,
            q,
            k,
            v,
            p,
            scale,
            query,
            head,
            slice,
        ) == attends_at(ops, q, k, v, p2, scale, query, head, slice) by {
            let position = query_position(q.shape[0] as int, k.shape[0] as int, query);
            assert(first_key(position, p.window_size) == first_key(position, p2.window_size));
            assert(shared_head(p, head) == shared_head(p2, head));
        }
        assert forall|scale: u32| #[trigger]
            scales(ops, p.head_dimension, scale) implies attention_rows(
            ops,
            q,
            k,
            v,
            p,
            scale,
            q.shape[0] as int,
            out,
        ) == attention_rows(ops, q, k, v, p2, scale, q.shape[0] as int, out) by {
            lemma_rows_windowed(ops, q, k, v, p, p2, scale, out);
            lemma_rows_windowed(ops, q, k, v, p2, p, scale, out);
        }
    }
}

/// Attention with other parameters that give the same for each head.
proof fn lemma_rows_windowed<A: Arithmetic>(
    ops: &A,
    q: Tensor,
    k: Tensor,
    v: Tensor,
    p: AttentionParams,
    p2: AttentionParams,
    scale: u32,
    out: Seq<u32>,
)
    requires
        p2.head_count == p.head_count,
        p2.head_dimension == p.head_dimension,
        forall|query: int, head: int, slice: Seq<u32>|
            0 <= query < q.shape[0] && 0 <= head < p.head_count ==> #[trigger] attends_at(
                ops,
                q,
                k,
                v,
                p,
                scale,
                query,
                head,
                slice,
            ) == attends_at(ops, q, k, v, p2, scale, query, head, slice),
    ensures
        attention_rows(ops, q, k, v, p, scale, q.shape[0] as int, out) ==> attention_rows(
            ops,
            q,
            k,
            v,
            p2,
            scale,
            q.shape[0] as int,
            out,
        ),
{
    if attention_rows(ops, q, k, v, p, scale, q.shape[0] as int, out) {
        assert forall|query: int, head: int|
            0 <= query < q.shape[0] && 0 <= head < p2.head_count implies attends_at(
            ops,
            q,
            k,
            v,
            p2,
            scale,
            query,
            head,
            #[trigger] head_slice(out, q.shape[1] as int, p2.head_dimension as int, query, head),
        ) by {
            let slice = head_slice(out, q.shape[1] as int, p.head_dimension as int, query, head);
            assert(attends_at(ops, q, k, v, p, scale, query, head, slice));
        }
    }
}

} // verus!
