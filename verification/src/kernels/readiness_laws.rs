//! Every kernel can be called on tensors that hold as many elements as their
//! shapes call for.

use vstd::prelude::*;

use crate::float::whole_value;
use crate::kernels::attention::{attention_ready, AttentionParams};
use crate::kernels::embedding::{embedding_ready, first_fault, token_fault};
use crate::kernels::matmul::matmul_ready;
use crate::kernels::rmsnorm::rmsnorm_ready;
use crate::kernels::rope::{rope_ready, RopeParams};
use crate::kernels::softmax::softmax_ready;
use crate::tensor::{element_count, lemma_matrix_count, well_formed, Tensor};

verus! {

/// Well-formed matrices can be multiplied, where the host can address the
/// product.
pub proof fn law_matmul_ready(a: Tensor, b: Tensor, transpose_a: bool, transpose_b: bool)
    requires
        well_formed(a),
        well_formed(b),
        a.shape.len() == 2 && b.shape.len() == 2 ==> {
            let m = if transpose_a {
                a.shape[1]
            } else {
                a.shape[0]
            };
            let n = if transpose_b {
                b.shape[0]
            } else {
                b.shape[1]
            };
            &&& a.shape[0] <= usize::MAX && a.shape[1] <= usize::MAX
            &&& b.shape[0] <= usize::MAX && b.shape[1] <= usize::MAX
            &&& m * n <= usize::MAX
        },
    ensures
        matmul_ready(a, b, transpose_a, transpose_b),
{
    if a.shape.len() == 2 && b.shape.len() == 2 {
        lemma_matrix_count(a.shape);
        lemma_matrix_count(b.shape);
        assert(a.shape[0] * a.shape[1] == a.shape[1] * a.shape[0]) by (nonlinear_arith);
        assert(b.shape[0] * b.shape[1] == b.shape[1] * b.shape[0]) by (nonlinear_arith);
    }
}

/// A well-formed table can be looked up, whatever the token ids.
pub proof fn law_embedding_ready(table: Tensor, ids: Tensor)
    requires
        well_formed(table),
    ensures
        embedding_ready(table, ids),
{
    if table.shape.len() == 2 {
        lemma_matrix_count(table.shape);
        assert forall|i: int|
            0 <= i < ids.data.len() && first_fault(
                ids.data,
                table.shape[0],
                (i + 1) as nat,
            ) is None implies (whole_value(#[trigger] ids.data[i]) + 1) * table.shape[1]
            <= table.data.len() by {
            assert(token_fault(ids.data[(i + 1) as nat - 1], table.shape[0]) is None);
            let n = whole_value(ids.data[i]);
            assert((n + 1) * table.shape[1] <= table.shape[0] * table.shape[1]) by (nonlinear_arith)
                requires
                    n + 1 <= table.shape[0],
                    0 <= table.shape[1],
            ;
        }
    }
}

/// Well-formed tensors can be normalised and weighted.
pub proof fn law_rmsnorm_ready(input: Tensor, weight: Tensor, epsilon: u32)
    requires
        well_formed(input),
        well_formed(weight),
    ensures
        rmsnorm_ready(input, weight, epsilon),
{
    let cols = input.shape.last();
    reveal_with_fuel(crate::tensor::extent_product, 3);
    if weight.shape == seq![cols] {
        assert(element_count(weight.shape) == cols);
    } else if weight.shape == seq![1u64, cols] {
        lemma_matrix_count(weight.shape);
        assert(1nat * cols as nat == cols) by (nonlinear_arith);
    } else if weight.shape == input.shape {
    } else if weight.shape == seq![crate::kernels::rmsnorm::row_count(input, cols), cols] {
        lemma_matrix_count(weight.shape);
        if cols > 0 && input.data.len() as int % cols as int == 0 {
            let len = input.data.len() as int;
            let c = cols as int;
            vstd::arithmetic::div_mod::lemma_fundamental_div_mod(len, c);
            assert(c * (len / c) == (len / c) * c) by (nonlinear_arith);
            assert(0 <= len / c <= len) by (nonlinear_arith)
                requires
                    len == c * (len / c),
                    1 <= c,
                    0 <= len,
            ;
            assert(weight.shape[0] == len / c);
            assert(weight.shape[0] as nat * weight.shape[1] as nat == len);
        }
    }
}

/// A well-formed matrix can be rotated, where the host can count up to the last
/// position.
pub proof fn law_rope_ready(input: Tensor, p: RopeParams)
    requires
        well_formed(input),
        input.shape.len() == 2 ==> p.position_offset + input.shape[0] <= usize::MAX,
    ensures
        rope_ready(input, p),
{
    if input.shape.len() == 2 {
        lemma_matrix_count(input.shape);
        let rows = input.shape[0] as int;
        let cols = input.shape[1] as int;
        assert((rows - 1) * cols + cols == rows * cols) by (nonlinear_arith);
    }
}

/// Softmax of a well-formed matrix can be taken.
pub proof fn law_softmax_ready(input: Tensor)
    requires
        well_formed(input),
    ensures
        softmax_ready(input),
{
    if input.shape.len() == 2 {
        lemma_matrix_count(input.shape);
        assert forall|row: nat|
            row < input.shape[0] && #[trigger] crate::kernels::softmax::softmax_row_refusal(
                input.data,
                input.shape[1] as int,
                row,
            ) is None implies (row + 1) * input.shape[1] <= input.data.len() by {
            assert((row + 1) * input.shape[1] <= input.shape[0] * input.shape[1])
                by (nonlinear_arith)
                requires
                    row + 1 <= input.shape[0],
                    0 <= input.shape[1],
            ;
        }
    }
}

/// Attention of well-formed matrices can be taken, where the width of a row can
/// be worked out in 64 bits.
pub proof fn law_attention_ready(q: Tensor, k: Tensor, v: Tensor, p: AttentionParams)
    requires
        well_formed(q),
        well_formed(k),
        well_formed(v),
        p.head_count * p.head_dimension <= u64::MAX,
    ensures
        attention_ready(q, k, v, p),
{
    if q.shape.len() == 2 {
        lemma_matrix_count(q.shape);
    }
    if k.shape.len() == 2 {
        lemma_matrix_count(k.shape);
    }
}

} // verus!
