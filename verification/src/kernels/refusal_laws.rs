//! What the kernels say where they refuse: which shapes and numbers are wrong,
//! and how.

use vstd::prelude::*;

use crate::error::{ReferenceCpuError, ReferenceCpuErrorCode};
use crate::float::Arithmetic;
use crate::kernels::attention::{attention_gives, AttentionParams};
use crate::kernels::conversion::{
    dtype_conversion_refusal, dtype_name, layout_conversion_refusal, layout_name, ComputeDType,
    TensorLayoutKind,
};
use crate::kernels::elementwise::{add_gives, mul_gives};
use crate::kernels::embedding::embedding_gives;
use crate::kernels::matmul::matmul_gives;
use crate::kernels::rmsnorm::rmsnorm_gives;
use crate::kernels::rope::{rope_gives, RopeParams};
use crate::kernels::softmax::softmax_gives;
use crate::tensor::{multiplied, tensor_refusal, HostTensor, Tensor};
use crate::text::{bracketed, decimal};

verus! {

/// A shape is refused, in these words.
pub open spec fn refused_shape(
    r: Result<HostTensor, ReferenceCpuError>,
    words: Seq<char>,
) -> bool {
    &&& r is Err
    &&& r->Err_0.code == ReferenceCpuErrorCode::ShapeUnsupported
    &&& r->Err_0.reason@ == words
}

/// The kernels on matrices refuse a tensor of another rank and name its shape, the
/// first one first.
pub proof fn law_rank_refused<A: Arithmetic>(
    ops: &A,
    a: Tensor,
    b: Tensor,
    transpose_a: bool,
    transpose_b: bool,
    p: RopeParams,
    r: Result<HostTensor, ReferenceCpuError>,
)
    requires
        a.shape.len() != 2,
    ensures
        ({
            let words = "expected rank-2 tensor, got shape "@ + bracketed(a.shape);
            &&& matmul_gives(ops, a, b, transpose_a, transpose_b, r) ==> refused_shape(r, words)
            &&& b.shape.len() == 2 && matmul_gives(ops, b, a, transpose_a, transpose_b, r)
                ==> refused_shape(r, words)
            &&& embedding_gives(ops, a, b, r) ==> refused_shape(r, words)
            &&& rope_gives(ops, a, p, r) ==> refused_shape(r, words)
            &&& softmax_gives(ops, a, r) ==> refused_shape(r, words)
        }),
{
}

/// A product of matrices that do not fit names the columns of the first and the
/// rows of the second, each as it is turned.
pub proof fn law_matmul_refused<A: Arithmetic>(
    ops: &A,
    a: Tensor,
    b: Tensor,
    transpose_a: bool,
    transpose_b: bool,
    r: Result<HostTensor, ReferenceCpuError>,
)
    requires
        matmul_gives(ops, a, b, transpose_a, transpose_b, r),
        a.shape.len() == 2,
        b.shape.len() == 2,
    ensures
        ({
            let cols = if transpose_a {
                a.shape[0]
            } else {
                a.shape[1]
            };
            let rows = if transpose_b {
                b.shape[1]
            } else {
                b.shape[0]
            };
            cols != rows ==> refused_shape(
                r,
                "matmul inner dimension mismatch: "@ + decimal(cols as nat) + " vs "@ + decimal(
                    rows as nat,
                ),
            )
        }),
{
}

/// A sum or a product of tensors of two shapes names both.
pub proof fn law_pairs_refused<A: Arithmetic>(
    ops: &A,
    a: Tensor,
    b: Tensor,
    r: Result<HostTensor, ReferenceCpuError>,
)
    requires
        add_gives(ops, a, b, r) || mul_gives(ops, a, b, r),
    ensures
        a.shape != b.shape ==> refused_shape(
            r,
            "shape mismatch: "@ + bracketed(a.shape) + " vs "@ + bracketed(b.shape),
        ),
        a.shape == b.shape ==> r is Ok,
{
}

/// Normalisation refuses, in this order: no dimension, a last one of zero,
/// elements that make no whole rows, weights for neither the columns nor the
/// elements, and an epsilon that is zero, below zero or not a number.
pub proof fn law_rmsnorm_refused<A: Arithmetic>(
    ops: &A,
    input: Tensor,
    weight: Tensor,
    epsilon: u32,
    r: Result<HostTensor, ReferenceCpuError>,
)
    requires
        rmsnorm_gives(ops, input, weight, epsilon, r),
        input.data.len() <= usize::MAX,
    ensures
        ({
            let shape = input.shape;
            let len = input.data.len() as int;
            let cols = shape[shape.len() - 1];
            let rows = len / cols as int;
            if shape.len() == 0 {
                refused_shape(r, "RMSNorm expects at least one dimension"@)
            } else if cols == 0 {
                refused_shape(r, "RMSNorm hidden dimension must be non-zero"@)
            } else if rows * cols != len {
                refused_shape(
                    r,
                    "RMSNorm data length "@ + decimal(input.data.len())
                        + " is not divisible by hidden dimension "@ + decimal(cols as nat),
                )
            } else if weight.shape != seq![cols] && weight.shape != seq![1u64, cols] && weight.shape
                != shape && weight.shape != seq![rows as u64, cols] {
                refused_shape(
                    r,
                    "RMSNorm weight shape must be ["@ + decimal(cols as nat) + "], [1, "@ + decimal(
                        cols as nat,
                    ) + "], input shape "@ + bracketed(shape) + ", or ["@ + decimal(rows as nat)
                        + ", "@ + decimal(cols as nat) + "], got "@ + bracketed(weight.shape),
                )
            } else {
                epsilon == 0 || epsilon > 0x7F80_0000 ==> refused_shape(
                    r,
                    "RMSNorm epsilon must be positive"@,
                )
            }
        }),
{
    let len = input.data.len() as int;
    if input.shape.len() > 0 && input.shape.last() > 0 {
        let cols = input.shape.last() as int;
        vstd::arithmetic::div_mod::lemma_fundamental_div_mod(len, cols);
        assert(cols * (len / cols) == (len / cols) * cols) by (nonlinear_arith);
        assert(0 <= len / cols <= len) by (nonlinear_arith)
            requires
                len >= 0,
                cols >= 1,
        ;
    }
}

/// Rotation refuses, in this order: a dimension that is zero, odd or wider than a
/// row, which it names; a base, and a scale, that is not finite or not above
/// zero.
pub proof fn law_rope_refused<A: Arithmetic>(
    ops: &A,
    input: Tensor,
    p: RopeParams,
    r: Result<HostTensor, ReferenceCpuError>,
)
    requires
        rope_gives(ops, input, p, r),
        input.shape.len() == 2,
    ensures
        if p.dimension == 0 || p.dimension % 2 == 1 || p.dimension > input.shape[1] {
            refused_shape(
                r,
                "RoPE dimension "@ + decimal(p.dimension as nat)
                    + " must be positive, even, and at most the row width "@ + decimal(
                    input.shape[1] as nat,
                ),
            )
        } else if p.base == 0 || p.base >= 0x7F80_0000 {
            refused_shape(r, "RoPE base must be finite and positive"@)
        } else {
            p.scale == 0 || p.scale >= 0x7F80_0000 ==> refused_shape(
                r,
                "RoPE scale must be finite and positive"@,
            )
        },
{
}

/// Attention refuses, in this order: keys and values of two shapes; no heads or
/// heads without elements; query heads that the key heads do not divide; a window
/// of no keys, or without causality; tensors that are no matrices; more queries
/// than keys; and rows that are not as wide as their heads.
pub proof fn law_attention_refused<A: Arithmetic>(
    ops: &A,
    q: Tensor,
    k: Tensor,
    v: Tensor,
    p: AttentionParams,
    r: Result<HostTensor, ReferenceCpuError>,
)
    requires
        attention_gives(ops, q, k, v, p, r),
    ensures
        ({
            let heads = p.head_count;
            let width = p.head_dimension;
            let groups = if p.kv_head_count is Some {
                p.kv_head_count->Some_0
            } else {
                heads
            };
            if k.shape != v.shape {
                refused_shape(
                    r,
                    "shape mismatch: "@ + bracketed(k.shape) + " vs "@ + bracketed(v.shape),
                )
            } else if heads == 0 || groups == 0 || width == 0 {
                refused_shape(
                    r,
                    "head_count, kv_head_count, and head_dimension must all be positive"@,
                )
            } else if heads % groups != 0 {
                refused_shape(
                    r,
                    "head_count "@ + decimal(heads as nat)
                        + " must be an exact multiple of kv_head_count "@ + decimal(groups as nat),
                )
            } else if p.window_size is Some && p.window_size->Some_0 == 0 {
                refused_shape(r, "window_size must be positive; a zero window admits no keys"@)
            } else if p.window_size is Some && !p.causal {
                refused_shape(r, "window_size is only defined for causal attention"@)
            } else if q.shape.len() != 2 {
                refused_shape(r, "expected rank-2 tensor, got shape "@ + bracketed(q.shape))
            } else if k.shape.len() != 2 {
                refused_shape(r, "expected rank-2 tensor, got shape "@ + bracketed(k.shape))
            } else if q.shape[0] > k.shape[0] {
                refused_shape(
                    r,
                    "q sequence length "@ + decimal(q.shape[0] as nat)
                        + " cannot exceed k/v sequence length "@ + decimal(k.shape[0] as nat),
                )
            } else if heads * width != q.shape[1] {
                refused_shape(
                    r,
                    "head_count * head_dimension must equal q row width "@ + decimal(
                        q.shape[1] as nat,
                    ) + ", got "@ + decimal(heads as nat) + " * "@ + decimal(width as nat),
                )
            } else {
                groups * width != k.shape[1] ==> refused_shape(
                    r,
                    "kv_head_count * head_dimension must equal k/v row width "@ + decimal(
                        k.shape[1] as nat,
                    ) + ", got "@ + decimal(groups as nat) + " * "@ + decimal(width as nat),
                )
            }
        }),
{
}

/// A tensor that cannot be made is refused with its shape named, with how many
/// elements the shape has and how many there are where it can be counted.
pub proof fn law_tensor_refused(shape: Seq<u64>, len: nat)
    ensures
        tensor_refusal(shape, len) matches Some(e) ==> {
            &&& e.code == ReferenceCpuErrorCode::ShapeUnsupported
            &&& e.reason == "shape "@ + bracketed(shape)
                + " element count overflows the host address space"@ || {
                &&& multiplied(shape) != len
                &&& multiplied(shape) >= 0
                &&& e.reason == "shape "@ + bracketed(shape) + " expects "@ + decimal(
                    multiplied(shape) as nat,
                ) + " elements, got "@ + decimal(len)
            }
        },
{
    crate::tensor::lemma_multiplied(shape, shape.len());
    assert(shape.take(shape.len() as int) =~= shape);
}

/// A conversion that is refused names what it is from and what it is to, in that
/// order.
pub proof fn law_conversion_named(
    from: ComputeDType,
    to: ComputeDType,
    source: TensorLayoutKind,
    target: TensorLayoutKind,
)
    ensures
        dtype_conversion_refusal(from, to) matches Some(e) ==> e.reason
            == "Reference CPU only supports explicit f32; requested "@ + dtype_name(from) + " -> "@
            + dtype_name(to),
        ({
            let strided = source == TensorLayoutKind::Strided || target
                == TensorLayoutKind::Strided;
            let names = layout_name(source) + " -> "@ + layout_name(target);
            layout_conversion_refusal(source, target) matches Some(e) ==> if strided {
                e.reason
                    =~= "strided layout conversion is a defined placeholder, not yet implemented (requested "@
                    + names + ")"@
            } else {
                e.reason =~= "Reference CPU only supports contiguous layout; requested "@ + names
            }
        }),
{
}

} // verus!
