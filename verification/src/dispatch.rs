//! From an invocation to the call of a kernel: which kernel, on which tensors,
//! with which parameters.

use vstd::prelude::*;

use crate::catalogue::kernel_names;
use crate::error::{
    fault, fault_of, KernelError, KernelErrorCode, KernelFault, ReferenceCpuError,
};
use crate::float::{finite, positive, single_valued, Arithmetic, ONE, ZERO};
use crate::invocation::{
    attribute, attribute_bool, attribute_float, attribute_integer, bool_attribute,
    float_attribute, integer_attribute, Attribute, Invocation, KernelInvocation,
    OperatorAttributeValue,
};
use crate::kernels::attention::{
    attention, attention_gives, attention_is_ready, attention_ready, AttentionParams,
};
use crate::kernels::attention_laws::law_attention_once;
use crate::kernels::conversion::{
    dequantize_placeholder, dtype_conversion, dtype_name, layout_conversion, quantization_refusal,
    ComputeDType, TensorLayoutKind,
};
use crate::kernels::elementwise::{
    add_gives, gelu, gelu_gives, law_activation_once, law_pairs_once, mul_gives, residual_add, silu,
    silu_gives,
};
use crate::kernels::embedding::{
    embedding_gives, embedding_is_ready, embedding_lookup, embedding_ready, law_embedding_once,
};
use crate::kernels::matmul::{
    law_matmul_once, matmul, matmul_gives, matmul_is_ready, matmul_ready,
};
use crate::kernels::rmsnorm::{
    law_rmsnorm_once, rmsnorm, rmsnorm_gives, rmsnorm_is_ready, rmsnorm_ready,
};
use crate::kernels::rope::{
    law_rope_once, rope, rope_gives, rope_is_ready, rope_ready, RopeParams,
};
use crate::kernels::softmax::{
    law_softmax_once, softmax_gives, softmax_is_ready, softmax_ready, softmax_rows,
};
use crate::table::Table;
use crate::tensor::{same_result, HostTensor, Tensor};
use crate::text::{
    decimal, decimal_text, signed_decimal, signed_decimal_text, text_is, truth, truth_text,
};

verus! {

/// The epsilon of normalisation where none is given: one millionth.
pub const DEFAULT_EPSILON: u32 = 0x3586_37BD;

/// The base of rotation where none is given: ten thousand.
pub const DEFAULT_ROPE_BASE: u32 = 0x461C_4000;

/// The call of a kernel.
pub enum KernelCall {
    /// A matrix product.
    Matmul { a: HostTensor, b: HostTensor, transpose_a: bool, transpose_b: bool },
    /// Embedding lookup.
    Embedding { table: HostTensor, ids: HostTensor },
    /// Root-mean-square normalisation.
    RmsNorm { input: HostTensor, weight: HostTensor, epsilon: u32 },
    /// Rotary position embedding.
    Rope { input: HostTensor, base: u32, scale: u32, dimension: u64, position_offset: u64 },
    /// Attention.
    Attention {
        q: HostTensor,
        k: HostTensor,
        v: HostTensor,
        head_count: u64,
        head_dimension: u64,
        kv_head_count: Option<u64>,
        window_size: Option<u64>,
        causal: bool,
    },
    /// Softmax.
    Softmax { input: HostTensor },
    /// SiLU.
    Silu { input: HostTensor },
    /// GELU.
    Gelu { input: HostTensor },
    /// A sum.
    Add { a: HostTensor, b: HostTensor },
    /// A product, element by element.
    Mul { a: HostTensor, b: HostTensor },
    /// A residual connection.
    ResidualAdd { input: HostTensor, residual: HostTensor },
    /// A conversion of single precision to itself.
    DTypeConversion { input: HostTensor },
    /// A conversion of the contiguous layout to itself.
    LayoutConversion { input: HostTensor },
}

/// What a [`KernelCall`] stands for.
pub enum Call {
    /// A matrix product.
    Matmul { a: Tensor, b: Tensor, transpose_a: bool, transpose_b: bool },
    /// Embedding lookup.
    Embedding { table: Tensor, ids: Tensor },
    /// Root-mean-square normalisation.
    RmsNorm { input: Tensor, weight: Tensor, epsilon: u32 },
    /// Rotary position embedding.
    Rope { input: Tensor, rotation: RopeParams },
    /// Attention.
    Attention { q: Tensor, k: Tensor, v: Tensor, params: AttentionParams },
    /// Softmax.
    Softmax { input: Tensor },
    /// SiLU.
    Silu { input: Tensor },
    /// GELU.
    Gelu { input: Tensor },
    /// A sum.
    Add { a: Tensor, b: Tensor },
    /// A product, element by element.
    Mul { a: Tensor, b: Tensor },
    /// A residual connection.
    ResidualAdd { input: Tensor, residual: Tensor },
    /// A conversion of single precision to itself.
    DTypeConversion { input: Tensor },
    /// A conversion of the contiguous layout to itself.
    LayoutConversion { input: Tensor },
}

impl View for KernelCall {
    type V = Call;

    open spec fn view(&self) -> Call {
        match self {
            KernelCall::Matmul { a, b, transpose_a, transpose_b } => Call::Matmul {
                a: a@,
                b: b@,
                transpose_a: *transpose_a,
                transpose_b: *transpose_b,
            },
            KernelCall::Embedding { table, ids } => Call::Embedding { table: table@, ids: ids@ },
            KernelCall::RmsNorm { input, weight, epsilon } => Call::RmsNorm {
                input: input@,
                weight: weight@,
                epsilon: *epsilon,
            },
            KernelCall::Rope { input, base, scale, dimension, position_offset } => Call::Rope {
                input: input@,
                rotation: RopeParams {
                    base: *base,
                    scale: *scale,
                    dimension: *dimension,
                    position_offset: *position_offset,
                },
            },
            KernelCall::Attention {
                q,
                k,
                v,
                head_count,
                head_dimension,
                kv_head_count,
                window_size,
                causal,
            } => Call::Attention {
                q: q@,
                k: k@,
                v: v@,
                params: AttentionParams {
                    head_count: *head_count,
                    head_dimension: *head_dimension,
                    kv_head_count: *kv_head_count,
                    window_size: *window_size,
                    causal: *causal,
                },
            },
            KernelCall::Softmax { input } => Call::Softmax { input: input@ },
            KernelCall::Silu { input } => Call::Silu { input: input@ },
            KernelCall::Gelu { input } => Call::Gelu { input: input@ },
            KernelCall::Add { a, b } => Call::Add { a: a@, b: b@ },
            KernelCall::Mul { a, b } => Call::Mul { a: a@, b: b@ },
            KernelCall::ResidualAdd { input, residual } => Call::ResidualAdd {
                input: input@,
                residual: residual@,
            },
            KernelCall::DTypeConversion { input } => Call::DTypeConversion { input: input@ },
            KernelCall::LayoutConversion { input } => Call::LayoutConversion { input: input@ },
        }
    }
}

/// The kernel can be called: what it reads is there.
pub open spec fn call_ready(call: Call) -> bool {
    match call {
        Call::Matmul { a, b, transpose_a, transpose_b } => matmul_ready(
            a,
            b,
            transpose_a,
            transpose_b,
        ),
        Call::Embedding { table, ids } => embedding_ready(table, ids),
        Call::RmsNorm { input, weight, epsilon } => rmsnorm_ready(input, weight, epsilon),
        Call::Rope { input, rotation } => rope_ready(input, rotation),
        Call::Attention { q, k, v, params } => attention_ready(q, k, v, params),
        Call::Softmax { input } => softmax_ready(input),
        _ => true,
    }
}

/// What the call of a kernel gives.
pub open spec fn call_gives<A: Arithmetic>(
    ops: &A,
    call: Call,
    r: Result<HostTensor, ReferenceCpuError>,
) -> bool {
    match call {
        Call::Matmul { a, b, transpose_a, transpose_b } => matmul_gives(
            ops,
            a,
            b,
            transpose_a,
            transpose_b,
            r,
        ),
        Call::Embedding { table, ids } => embedding_gives(ops, table, ids, r),
        Call::RmsNorm { input, weight, epsilon } => rmsnorm_gives(ops, input, weight, epsilon, r),
        Call::Rope { input, rotation } => rope_gives(ops, input, rotation, r),
        Call::Attention { q, k, v, params } => attention_gives(ops, q, k, v, params, r),
        Call::Softmax { input } => softmax_gives(ops, input, r),
        Call::Silu { input } => r matches Ok(t) && silu_gives(ops, input, t@),
        Call::Gelu { input } => r matches Ok(t) && gelu_gives(ops, input, t@),
        Call::Add { a, b } => add_gives(ops, a, b, r),
        Call::Mul { a, b } => mul_gives(ops, a, b, r),
        Call::ResidualAdd { input, residual } => add_gives(ops, input, residual, r),
        Call::DTypeConversion { input } => r matches Ok(t) && t@ == input,
        Call::LayoutConversion { input } => r matches Ok(t) && t@ == input,
    }
}

impl KernelCall {
    /// Whether the kernel can be called.
    pub fn is_ready(&self) -> (r: bool)
        ensures
            r == call_ready(self@),
    {
        match self {
            KernelCall::Matmul { a, b, transpose_a, transpose_b } => matmul_is_ready(
                a,
                b,
                *transpose_a,
                *transpose_b,
            ),
            KernelCall::Embedding { table, ids } => embedding_is_ready(table, ids),
            KernelCall::RmsNorm { input, weight, epsilon } => rmsnorm_is_ready(
                input,
                weight,
                *epsilon,
            ),
            KernelCall::Rope { input, base, scale, dimension, position_offset } => rope_is_ready(
                input,
                *base,
                *scale,
                *dimension,
                *position_offset,
            ),
            KernelCall::Attention {
                q,
                k,
                v,
                head_count,
                head_dimension,
                kv_head_count,
                window_size,
                causal,
            } => attention_is_ready(
                q,
                k,
                v,
                *head_count,
                *head_dimension,
                *kv_head_count,
                *window_size,
                *causal,
            ),
            KernelCall::Softmax { input } => softmax_is_ready(input),
            _ => true,
        }
    }

    /// Calls the kernel.
    pub fn run<A: Arithmetic>(&self, ops: &A) -> (r: Result<HostTensor, ReferenceCpuError>)
        requires
            call_ready(self@),
        ensures
            call_gives(ops, self@, r),
    {
        match self {
            KernelCall::Matmul { a, b, transpose_a, transpose_b } => matmul(
                ops,
                a,
                b,
                *transpose_a,
                *transpose_b,
            ),
            KernelCall::Embedding { table, ids } => embedding_lookup(ops, table, ids),
            KernelCall::RmsNorm { input, weight, epsilon } => rmsnorm(ops, input, weight, *epsilon),
            KernelCall::Rope { input, base, scale, dimension, position_offset } => rope(
                ops,
                input,
                *base,
                *scale,
                *dimension,
                *position_offset,
            ),
            KernelCall::Attention {
                q,
                k,
                v,
                head_count,
                head_dimension,
                kv_head_count,
                window_size,
                causal,
            } => attention(
                ops,
                q,
                k,
                v,
                *head_count,
                *head_dimension,
                *kv_head_count,
                *window_size,
                *causal,
            ),
            KernelCall::Softmax { input } => softmax_rows(ops, input),
            KernelCall::Silu { input } => Ok(silu(ops, input)),
            KernelCall::Gelu { input } => Ok(gelu(ops, input)),
            KernelCall::Add { a, b } => crate::kernels::elementwise::add(ops, a, b),
            KernelCall::Mul { a, b } => crate::kernels::elementwise::mul(ops, a, b),
            KernelCall::ResidualAdd { input, residual } => residual_add(ops, input, residual),
            KernelCall::DTypeConversion { input } => dtype_conversion(
                input,
                ComputeDType::Float32,
                ComputeDType::Float32,
            ),
            KernelCall::LayoutConversion { input } => layout_conversion(
                input,
                TensorLayoutKind::Contiguous,
                TensorLayoutKind::Contiguous,
            ),
        }
    }
}

/// What stored tensors stand for.
pub open spec fn tensors(m: Map<Seq<char>, HostTensor>) -> Map<Seq<char>, Tensor> {
    m.map_values(|t: HostTensor| t@)
}

/// An attribute that the provider does not take.
pub open spec fn attribute_fault(detail: Seq<char>) -> KernelFault {
    fault(KernelErrorCode::KernelAttributeUnsupported, detail)
}

/// The tensor that an invocation reads at an index, or what is missing.
pub open spec fn input_at(
    inv: Invocation,
    storage: Map<Seq<char>, Tensor>,
    index: nat,
) -> Result<Tensor, KernelFault> {
    if index >= inv.inputs.len() {
        Err(
            fault(
                KernelErrorCode::KernelExecutionFailed,
                "missing input at index "@ + decimal(index),
            ),
        )
    } else if !storage.contains_key(inv.inputs[index as int]) {
        Err(
            fault(
                KernelErrorCode::KernelExecutionFailed,
                "no materialized data for input resource "@ + inv.inputs[index as int],
            ),
        )
    } else {
        Ok(storage[inv.inputs[index as int]])
    }
}

/// The first two tensors that an invocation reads.
pub open spec fn two_inputs(inv: Invocation, storage: Map<Seq<char>, Tensor>) -> Result<
    (Tensor, Tensor),
    KernelFault,
> {
    match input_at(inv, storage, 0) {
        Err(f) => Err(f),
        Ok(a) => match input_at(inv, storage, 1) {
            Err(f) => Err(f),
            Ok(b) => Ok((a, b)),
        },
    }
}

/// The first three tensors that an invocation reads.
pub open spec fn three_inputs(inv: Invocation, storage: Map<Seq<char>, Tensor>) -> Result<
    (Tensor, Tensor, Tensor),
    KernelFault,
> {
    match two_inputs(inv, storage) {
        Err(f) => Err(f),
        Ok((a, b)) => match input_at(inv, storage, 2) {
            Err(f) => Err(f),
            Ok(c) => Ok((a, b, c)),
        },
    }
}

/// The call of a matrix product.
pub open spec fn matmul_preparation(inv: Invocation, storage: Map<Seq<char>, Tensor>) -> Result<
    Call,
    KernelFault,
> {
    match two_inputs(inv, storage) {
        Err(f) => Err(f),
        Ok((a, b)) => match attribute(inv.attributes, "accumulation_dtype"@) {
            Some(Attribute::DType(dtype)) if dtype != ComputeDType::Float32 => Err(
                fault(
                    KernelErrorCode::KernelDTypeUnsupported,
                    "Reference CPU only accumulates in f32; requested "@ + dtype_name(dtype),
                ),
            ),
            _ => Ok(
                Call::Matmul {
                    a,
                    b,
                    transpose_a: bool_attribute(inv.attributes, "transpose_a"@, false),
                    transpose_b: bool_attribute(inv.attributes, "transpose_b"@, false),
                },
            ),
        },
    }
}

/// The position of the first row, or why it is refused.
pub open spec fn position_offset(m: Map<Seq<char>, Attribute>) -> Result<u64, KernelFault> {
    match attribute(m, "position_offset"@) {
        None => Ok(0),
        Some(Attribute::Integer(n)) => if n >= 0 {
            Ok(n as u64)
        } else {
            Err(
                attribute_fault(
                    "position_offset "@ + signed_decimal(n as int) + " must not be negative"@,
                ),
            )
        },
        Some(_) => Err(attribute_fault("position_offset must be an integer"@)),
    }
}

/// Why the mode of positions is refused, if it is.
pub open spec fn position_mode_fault(m: Map<Seq<char>, Attribute>) -> Option<KernelFault> {
    match attribute(m, "position_mode"@) {
        Some(Attribute::Text(mode)) if mode != "sequential"@ => Some(
            attribute_fault("position_mode '"@ + mode + "' is not implemented"@),
        ),
        _ => None,
    }
}

/// The call of rotation, with the given base and scale.
pub open spec fn rope_preparation(
    inv: Invocation,
    storage: Map<Seq<char>, Tensor>,
    base: u32,
    scale: u32,
) -> Result<Call, KernelFault> {
    match input_at(inv, storage, 0) {
        Err(f) => Err(f),
        Ok(input) => match integer_attribute(inv.attributes, "dimension"@) {
            None => Err(attribute_fault("dimension"@)),
            Some(dimension) => match position_mode_fault(inv.attributes) {
                Some(f) => Err(f),
                None => match position_offset(inv.attributes) {
                    Err(f) => Err(f),
                    Ok(offset) => Ok(
                        Call::Rope {
                            input,
                            rotation: RopeParams { base, scale, dimension, position_offset: offset },
                        },
                    ),
                },
            },
        },
    }
}

/// Why the kind of mask is refused, if it is: it is not known, or does not
/// agree with whether attention is causal.
pub open spec fn mask_fault(m: Map<Seq<char>, Attribute>, causal: bool) -> Option<KernelFault> {
    match attribute(m, "attention_mask_kind"@) {
        Some(Attribute::Text(kind)) => if kind != "causal"@ && kind != "bidirectional"@ {
            Some(attribute_fault("attention_mask_kind '"@ + kind + "' is not implemented"@))
        } else if (kind == "causal"@) != causal {
            Some(
                attribute_fault(
                    "attention_mask_kind '"@ + kind + "' is inconsistent with causal="@ + truth(
                        causal,
                    ),
                ),
            )
        } else {
            None
        },
        _ => None,
    }
}

/// The call of attention. A browser has no workspace for it.
pub open spec fn attention_preparation(
    inv: Invocation,
    storage: Map<Seq<char>, Tensor>,
    browser: bool,
) -> Result<Call, KernelFault> {
    let causal = bool_attribute(inv.attributes, "causal"@, false);
    if browser {
        Err(
            fault(
                KernelErrorCode::KernelBrowserFeatureUnsupported,
                "reference-cpu-attention-workspace"@,
            ),
        )
    } else {
        match three_inputs(inv, storage) {
            Err(f) => Err(f),
            Ok((q, k, v)) => match integer_attribute(inv.attributes, "head_count"@) {
                None => Err(attribute_fault("head_count"@)),
                Some(head_count) => match integer_attribute(inv.attributes, "head_dimension"@) {
                    None => Err(attribute_fault("head_dimension"@)),
                    Some(head_dimension) => match mask_fault(inv.attributes, causal) {
                        Some(f) => Err(f),
                        None => Ok(
                            Call::Attention {
                                q,
                                k,
                                v,
                                params: AttentionParams {
                                    head_count,
                                    head_dimension,
                                    kv_head_count: integer_attribute(
                                        inv.attributes,
                                        "kv_head_count"@,
                                    ),
                                    window_size: integer_attribute(
                                        inv.attributes,
                                        "window_size"@,
                                    ),
                                    causal,
                                },
                            },
                        ),
                    },
                },
            },
        }
    }
}

/// The call of an activation that is named by an attribute.
pub open spec fn activation_preparation(
    inv: Invocation,
    storage: Map<Seq<char>, Tensor>,
) -> Result<Call, KernelFault> {
    match input_at(inv, storage, 0) {
        Err(f) => Err(f),
        Ok(input) => match attribute(inv.attributes, "kind"@) {
            Some(Attribute::Text(kind)) => if kind == "silu"@ {
                Ok(Call::Silu { input })
            } else if kind == "gelu"@ {
                Ok(Call::Gelu { input })
            } else {
                Err(attribute_fault("activation kind '"@ + kind + "' is not implemented"@))
            },
            _ => Err(attribute_fault("kind"@)),
        },
    }
}

/// The call that an invocation asks for, with the given numbers in place of
/// its numeric attributes, or why there is none. A kernel that is not known is
/// not found.
pub open spec fn preparation(
    inv: Invocation,
    storage: Map<Seq<char>, Tensor>,
    browser: bool,
    first: u32,
    second: u32,
) -> Result<Call, KernelFault> {
    let name = inv.kernel.name;
    let one = input_at(inv, storage, 0);
    let two = two_inputs(inv, storage);
    if name == "matmul"@ {
        matmul_preparation(inv, storage)
    } else if name == "embedding"@ {
        match two {
            Err(f) => Err(f),
            Ok((table, ids)) => Ok(Call::Embedding { table, ids }),
        }
    } else if name == "rmsnorm"@ {
        match two {
            Err(f) => Err(f),
            Ok((input, weight)) => Ok(Call::RmsNorm { input, weight, epsilon: first }),
        }
    } else if name == "rope"@ {
        rope_preparation(inv, storage, first, second)
    } else if name == "attention"@ {
        attention_preparation(inv, storage, browser)
    } else if name == "softmax"@ {
        match one {
            Err(f) => Err(f),
            Ok(input) => Ok(Call::Softmax { input }),
        }
    } else if name == "silu"@ {
        match one {
            Err(f) => Err(f),
            Ok(input) => Ok(Call::Silu { input }),
        }
    } else if name == "gelu"@ {
        match one {
            Err(f) => Err(f),
            Ok(input) => Ok(Call::Gelu { input }),
        }
    } else if name == "activation"@ {
        activation_preparation(inv, storage)
    } else if name == "add"@ {
        match two {
            Err(f) => Err(f),
            Ok((a, b)) => Ok(Call::Add { a, b }),
        }
    } else if name == "mul"@ {
        match two {
            Err(f) => Err(f),
            Ok((a, b)) => Ok(Call::Mul { a, b }),
        }
    } else if name == "residual-add"@ {
        match two {
            Err(f) => Err(f),
            Ok((input, residual)) => Ok(Call::ResidualAdd { input, residual }),
        }
    } else if name == "dtype-conversion"@ {
        match one {
            Err(f) => Err(f),
            Ok(input) => Ok(Call::DTypeConversion { input }),
        }
    } else if name == "layout-conversion"@ {
        match one {
            Err(f) => Err(f),
            Ok(input) => Ok(Call::LayoutConversion { input }),
        }
    } else if name == "quantize"@ || name == "dequantize"@ {
        Err(fault_of(quantization_refusal()))
    } else {
        Err(fault(KernelErrorCode::KernelNotFound, name))
    }
}

/// The numbers that stand for the numeric attributes of an invocation: the
/// epsilon of normalisation, or the base and the scale of rotation.
pub open spec fn decided<A: Arithmetic>(ops: &A, inv: Invocation, first: u32, second: u32) -> bool {
    if inv.kernel.name == "rmsnorm"@ {
        float_attribute(ops, inv.attributes, "epsilon"@, DEFAULT_EPSILON, first)
    } else if inv.kernel.name == "rope"@ {
        &&& float_attribute(ops, inv.attributes, "base"@, DEFAULT_ROPE_BASE, first)
        &&& float_attribute(ops, inv.attributes, "scale"@, ONE, second)
    } else {
        true
    }
}

/// What preparing an invocation gives.
pub open spec fn prepares<A: Arithmetic>(
    ops: &A,
    inv: Invocation,
    storage: Map<Seq<char>, Tensor>,
    browser: bool,
    r: Result<Call, KernelFault>,
) -> bool {
    match r {
        Err(f) => preparation(inv, storage, browser, ZERO, ZERO) == Err::<Call, KernelFault>(f),
        Ok(call) => exists|first: u32, second: u32| #[trigger]
            decided(ops, inv, first, second) && preparation(inv, storage, browser, first, second)
                == Ok::<Call, KernelFault>(call),
    }
}

/// What a prepared call stands for.
pub open spec fn prepared(r: Result<KernelCall, KernelError>) -> Result<Call, KernelFault> {
    match r {
        Ok(call) => Ok(call@),
        Err(e) => Err(e@),
    }
}

fn attribute_error(detail: String) -> (r: KernelError)
    ensures
        r@ == attribute_fault(detail@),
{
    KernelError::new(KernelErrorCode::KernelAttributeUnsupported, detail)
}

/// Reads a tensor that an invocation names.
pub(crate) fn input_tensor(
    invocation: &KernelInvocation,
    storage: &Table<HostTensor>,
    index: usize,
) -> (r: Result<HostTensor, KernelError>)
    ensures
        match input_at(invocation@, tensors(storage@), index as nat) {
            Ok(t) => r matches Ok(x) && x@ == t,
            Err(f) => r matches Err(e) && e@ == f,
        },
{
    if index >= invocation.inputs.len() {
        let mut reason = "missing input at index ".to_owned();
        reason.append(decimal_text(index as u64).as_str());
        return Err(KernelError::new(KernelErrorCode::KernelExecutionFailed, reason));
    }
    let id = &invocation.inputs[index];
    assert(invocation@.inputs[index as int] == id@);
    match storage.get(id.as_str()) {
        Some(tensor) => Ok(tensor.clone()),
        None => {
            let mut reason = "no materialized data for input resource ".to_owned();
            reason.append(id.as_str());
            Err(KernelError::new(KernelErrorCode::KernelExecutionFailed, reason))
        },
    }
}

fn two_tensors(invocation: &KernelInvocation, storage: &Table<HostTensor>) -> (r: Result<
    (HostTensor, HostTensor),
    KernelError,
>)
    ensures
        match two_inputs(invocation@, tensors(storage@)) {
            Ok((a, b)) => r matches Ok((x, y)) && x@ == a && y@ == b,
            Err(f) => r matches Err(e) && e@ == f,
        },
{
    match input_tensor(invocation, storage, 0) {
        Err(e) => Err(e),
        Ok(a) => match input_tensor(invocation, storage, 1) {
            Err(e) => Err(e),
            Ok(b) => Ok((a, b)),
        },
    }
}

fn prepare_matmul(invocation: &KernelInvocation, storage: &Table<HostTensor>) -> (r: Result<
    KernelCall,
    KernelError,
>)
    ensures
        prepared(r) == matmul_preparation(invocation@, tensors(storage@)),
{
    let (a, b) = match two_tensors(invocation, storage) {
        Ok(pair) => pair,
        Err(e) => {
            return Err(e);
        },
    };
    if let Some(OperatorAttributeValue::DType(dtype)) = invocation.attributes.get(
        "accumulation_dtype",
    ) {
        if *dtype != ComputeDType::Float32 {
            let mut detail = "Reference CPU only accumulates in f32; requested ".to_owned();
            detail.append(dtype.name());
            return Err(KernelError::new(KernelErrorCode::KernelDTypeUnsupported, detail));
        }
    }
    Ok(
        KernelCall::Matmul {
            a,
            b,
            transpose_a: attribute_bool(&invocation.attributes, "transpose_a", false),
            transpose_b: attribute_bool(&invocation.attributes, "transpose_b", false),
        },
    )
}

fn prepare_rope<A: Arithmetic>(
    ops: &A,
    invocation: &KernelInvocation,
    storage: &Table<HostTensor>,
) -> (r: Result<KernelCall, KernelError>)
    ensures
        match r {
            Err(e) => rope_preparation(invocation@, tensors(storage@), ZERO, ZERO) == Err::<
                Call,
                KernelFault,
            >(e@),
            Ok(call) => exists|base: u32, scale: u32|
                {
                    &&& #[trigger] float_attribute(
                        ops,
                        invocation@.attributes,
                        "base"@,
                        DEFAULT_ROPE_BASE,
                        base,
                    )
                    &&& #[trigger] float_attribute(
                        ops,
                        invocation@.attributes,
                        "scale"@,
                        ONE,
                        scale,
                    )
                    &&& rope_preparation(invocation@, tensors(storage@), base, scale) == Ok::<
                        Call,
                        KernelFault,
                    >(call@)
                },
        },
{
    let base: u32 = attribute_float(ops, &invocation.attributes, "base", DEFAULT_ROPE_BASE);
    let scale: u32 = attribute_float(ops, &invocation.attributes, "scale", ONE);
    prepare_rotation(invocation, storage, base, scale)
}

fn prepare_rotation(
    invocation: &KernelInvocation,
    storage: &Table<HostTensor>,
    base: u32,
    scale: u32,
) -> (r: Result<KernelCall, KernelError>)
    ensures
        prepared(r) == rope_preparation(invocation@, tensors(storage@), base, scale),
{
    let input = match input_tensor(invocation, storage, 0) {
        Ok(t) => t,
        Err(e) => {
            return Err(e);
        },
    };
    let dimension: u64 = match attribute_integer(&invocation.attributes, "dimension") {
        Some(n) => n,
        None => {
            return Err(attribute_error("dimension".to_owned()));
        },
    };
    if let Some(OperatorAttributeValue::Text(mode)) = invocation.attributes.get("position_mode") {
        if !text_is(mode, "sequential") {
            let mut detail = "position_mode '".to_owned();
            detail.append(mode.as_str());
            detail.append("' is not implemented");
            return Err(attribute_error(detail));
        }
    }
    let position_offset: u64 = match invocation.attributes.get("position_offset") {
        None => 0,
        Some(OperatorAttributeValue::Integer(n)) => if *n >= 0 {
            *n as u64
        } else {
            let mut detail = "position_offset ".to_owned();
            detail.append(signed_decimal_text(*n).as_str());
            detail.append(" must not be negative");
            return Err(attribute_error(detail));
        },
        Some(_) => {
            return Err(attribute_error("position_offset must be an integer".to_owned()));
        },
    };
    Ok(KernelCall::Rope { input, base, scale, dimension, position_offset })
}

fn check_mask(invocation: &KernelInvocation, causal: bool) -> (r: Result<(), KernelError>)
    ensures
        match mask_fault(invocation@.attributes, causal) {
            Some(f) => r matches Err(e) && e@ == f,
            None => r is Ok,
        },
{
    if let Some(OperatorAttributeValue::Text(kind)) = invocation.attributes.get(
        "attention_mask_kind",
    ) {
        proof {
            reveal_strlit("causal");
            reveal_strlit("bidirectional");
        }
        let expected_causal = if text_is(kind, "causal") {
            true
        } else if text_is(kind, "bidirectional") {
            false
        } else {
            let mut detail = "attention_mask_kind '".to_owned();
            detail.append(kind.as_str());
            detail.append("' is not implemented");
            return Err(attribute_error(detail));
        };
        if expected_causal != causal {
            let mut detail = "attention_mask_kind '".to_owned();
            detail.append(kind.as_str());
            detail.append("' is inconsistent with causal=");
            detail.append(truth_text(causal).as_str());
            return Err(attribute_error(detail));
        }
    }
    Ok(())
}

fn prepare_attention(
    invocation: &KernelInvocation,
    storage: &Table<HostTensor>,
    browser: bool,
) -> (r: Result<KernelCall, KernelError>)
    ensures
        prepared(r) == attention_preparation(invocation@, tensors(storage@), browser),
{
    if browser {
        return Err(
            KernelError::new(
                KernelErrorCode::KernelBrowserFeatureUnsupported,
                "reference-cpu-attention-workspace".to_owned(),
            ),
        );
    }
    let (q, k) = match two_tensors(invocation, storage) {
        Ok(pair) => pair,
        Err(e) => {
            return Err(e);
        },
    };
    let v = match input_tensor(invocation, storage, 2) {
        Ok(t) => t,
        Err(e) => {
            return Err(e);
        },
    };
    let head_count: u64 = match attribute_integer(&invocation.attributes, "head_count") {
        Some(n) => n,
        None => {
            return Err(attribute_error("head_count".to_owned()));
        },
    };
    let head_dimension: u64 = match attribute_integer(&invocation.attributes, "head_dimension") {
        Some(n) => n,
        None => {
            return Err(attribute_error("head_dimension".to_owned()));
        },
    };
    let kv_head_count: Option<u64> = attribute_integer(&invocation.attributes, "kv_head_count");
    let window_size: Option<u64> = attribute_integer(&invocation.attributes, "window_size");
    let causal = attribute_bool(&invocation.attributes, "causal", false);
    if let Err(e) = check_mask(invocation, causal) {
        return Err(e);
    }
    Ok(
        KernelCall::Attention {
            q,
            k,
            v,
            head_count,
            head_dimension,
            kv_head_count,
            window_size,
            causal,
        },
    )
}

fn prepare_activation(invocation: &KernelInvocation, storage: &Table<HostTensor>) -> (r: Result<
    KernelCall,
    KernelError,
>)
    ensures
        prepared(r) == activation_preparation(invocation@, tensors(storage@)),
{
    let input = match input_tensor(invocation, storage, 0) {
        Ok(t) => t,
        Err(e) => {
            return Err(e);
        },
    };
    match invocation.attributes.get("kind") {
        Some(OperatorAttributeValue::Text(kind)) => if text_is(kind, "silu") {
            Ok(KernelCall::Silu { input })
        } else if text_is(kind, "gelu") {
            Ok(KernelCall::Gelu { input })
        } else {
            let mut detail = "activation kind '".to_owned();
            detail.append(kind.as_str());
            detail.append("' is not implemented");
            Err(attribute_error(detail))
        },
        _ => Err(attribute_error("kind".to_owned())),
    }
}

/// Works out the call that an invocation asks for: reads its tensors from the
/// storage, and its parameters from its attributes.
pub fn prepare<A: Arithmetic>(
    ops: &A,
    invocation: &KernelInvocation,
    storage: &Table<HostTensor>,
    browser: bool,
) -> (r: Result<KernelCall, KernelError>)
    ensures
        prepares(ops, invocation@, tensors(storage@), browser, prepared(r)),
{
    let name = &invocation.kernel.name;
    if text_is(name, "rope") {
        let r = prepare_rope(ops, invocation, storage);
        proof {
            lemma_names_apart();
            if r is Ok {
                let call = r->Ok_0;
                let (base, scale) = choose|base: u32, scale: u32|
                    {
                        &&& #[trigger] float_attribute(
                            ops,
                            invocation@.attributes,
                            "base"@,
                            DEFAULT_ROPE_BASE,
                            base,
                        )
                        &&& #[trigger] float_attribute(
                            ops,
                            invocation@.attributes,
                            "scale"@,
                            ONE,
                            scale,
                        )
                        &&& rope_preparation(invocation@, tensors(storage@), base, scale) == Ok::<
                            Call,
                            KernelFault,
                        >(call@)
                    };
                assert(decided(ops, invocation@, base, scale));
            }
        }
        return r;
    }
    if text_is(name, "rmsnorm") {
        let (input, weight) = match two_tensors(invocation, storage) {
            Ok(pair) => pair,
            Err(e) => {
                proof {
                    lemma_names_apart();
                }
                return Err(e);
            },
        };
        let epsilon: u32 = attribute_float(
            ops,
            &invocation.attributes,
            "epsilon",
            DEFAULT_EPSILON,
        );
        proof {
            lemma_names_apart();
            assert(decided(ops, invocation@, epsilon, ZERO));
        }
        return Ok(KernelCall::RmsNorm { input, weight, epsilon });
    }
    assert(decided(ops, invocation@, ZERO, ZERO));
    prepare_plain(invocation, storage, browser)
}

/// The kernels with numeric attributes are not those without.
proof fn lemma_names_apart()
    ensures
        "rope"@ != "matmul"@,
        "rope"@ != "embedding"@,
        "rope"@ != "rmsnorm"@,
        "rmsnorm"@ != "matmul"@,
        "rmsnorm"@ != "embedding"@,
{
    reveal_strlit("rope");
    reveal_strlit("rmsnorm");
    reveal_strlit("matmul");
    reveal_strlit("embedding");
    assert("rope"@.len() == 4 && "rmsnorm"@.len() == 7);
    assert("matmul"@.len() == 6 && "embedding"@.len() == 9);
}

/// The invocation can be run on the stored tensors, whatever numbers stand for
/// its numeric attributes.
pub open spec fn ready_however_rounded(
    inv: Invocation,
    storage: Map<Seq<char>, Tensor>,
    browser: bool,
) -> bool {
    forall|first: u32, second: u32|
        preparation_ready(#[trigger] preparation(inv, storage, browser, first, second))
}

/// The kernel that was prepared can be called, or none was.
pub open spec fn preparation_ready(preparation: Result<Call, KernelFault>) -> bool {
    match preparation {
        Ok(call) => call_ready(call),
        Err(_) => true,
    }
}

/// The invocation can be run on the stored tensors, with the numbers that its
/// numeric attributes can be rounded to.
pub open spec fn invocation_ready<A: Arithmetic>(
    ops: &A,
    inv: Invocation,
    storage: Map<Seq<char>, Tensor>,
    browser: bool,
) -> bool {
    forall|first: u32, second: u32| #[trigger]
        decided(ops, inv, first, second) ==> preparation_ready(
            preparation(inv, storage, browser, first, second),
        )
}

/// `r` tells whether the invocation can be run as it is prepared.
pub open spec fn tells_ready<A: Arithmetic>(
    ops: &A,
    inv: Invocation,
    storage: Map<Seq<char>, Tensor>,
    browser: bool,
    r: bool,
) -> bool {
    exists|call: Result<Call, KernelFault>| #[trigger]
        prepares(ops, inv, storage, browser, call) && r == preparation_ready(call)
}

/// What can be run whatever its numeric attributes are rounded to can be run.
pub proof fn law_ready_however_rounded<A: Arithmetic>(
    ops: &A,
    inv: Invocation,
    storage: Map<Seq<char>, Tensor>,
    browser: bool,
)
    requires
        ready_however_rounded(inv, storage, browser),
    ensures
        invocation_ready(ops, inv, storage, browser),
{
}

/// Readiness does not depend on what a numeric attribute is rounded to, but
/// for numbers that the kernel refuses.
proof fn lemma_ready(inv: Invocation, storage: Map<Seq<char>, Tensor>, browser: bool)
    requires
        preparation_ready(preparation(inv, storage, browser, ONE, ONE)),
    ensures
        ready_however_rounded(inv, storage, browser),
{
    assert forall|first: u32, second: u32|
        preparation_ready(#[trigger] preparation(inv, storage, browser, first, second)) by {
        assert(finite(ONE) && positive(ONE));
    }
}

/// An arithmetic with one result for the same operands decides on one call.
pub proof fn law_prepared_once<A: Arithmetic>(
    ops: &A,
    inv: Invocation,
    storage: Map<Seq<char>, Tensor>,
    browser: bool,
    call: Result<Call, KernelFault>,
    call2: Result<Call, KernelFault>,
)
    requires
        single_valued(ops),
        prepares(ops, inv, storage, browser, call),
        prepares(ops, inv, storage, browser, call2),
    ensures
        call == call2,
{
    if call is Ok && call2 is Ok {
        let (first, second) = choose|first: u32, second: u32| #[trigger]
            decided(ops, inv, first, second) && preparation(inv, storage, browser, first, second)
                == Ok::<Call, KernelFault>(call->Ok_0);
        let (first2, second2) = choose|first: u32, second: u32| #[trigger]
            decided(ops, inv, first, second) && preparation(inv, storage, browser, first, second)
                == Ok::<Call, KernelFault>(call2->Ok_0);
        law_refused_before_rounding(inv, storage, browser, first, second);
    } else {
        if call is Ok {
            let (first, second) = choose|first: u32, second: u32| #[trigger]
                decided(ops, inv, first, second) && preparation(
                    inv,
                    storage,
                    browser,
                    first,
                    second,
                ) == Ok::<Call, KernelFault>(call->Ok_0);
            law_refused_before_rounding(inv, storage, browser, first, second);
        }
        if call2 is Ok {
            let (first, second) = choose|first: u32, second: u32| #[trigger]
                decided(ops, inv, first, second) && preparation(
                    inv,
                    storage,
                    browser,
                    first,
                    second,
                ) == Ok::<Call, KernelFault>(call2->Ok_0);
            law_refused_before_rounding(inv, storage, browser, first, second);
        }
    }
}

/// Whether an invocation can be run on the stored tensors, with its numeric
/// attributes as they are rounded now.
pub fn is_ready<A: Arithmetic>(
    ops: &A,
    invocation: &KernelInvocation,
    storage: &Table<HostTensor>,
    browser: bool,
) -> (r: bool)
    ensures
        tells_ready(ops, invocation@, tensors(storage@), browser, r),
        ready_however_rounded(invocation@, tensors(storage@), browser) ==> r,
        single_valued(ops) ==> r == invocation_ready(
            ops,
            invocation@,
            tensors(storage@),
            browser,
        ),
{
    let preparation = prepare(ops, invocation, storage, browser);
    let r = match &preparation {
        Ok(call) => call.is_ready(),
        Err(_) => true,
    };
    proof {
        lemma_told(
            ops,
            invocation@,
            tensors(storage@),
            browser,
            prepared(preparation),
        );
    }
    r
}

/// What the prepared call tells of readiness.
proof fn lemma_told<A: Arithmetic>(
    ops: &A,
    inv: Invocation,
    storage: Map<Seq<char>, Tensor>,
    browser: bool,
    call: Result<Call, KernelFault>,
)
    requires
        prepares(ops, inv, storage, browser, call),
    ensures
        tells_ready(ops, inv, storage, browser, preparation_ready(call)),
        ready_however_rounded(inv, storage, browser) ==> preparation_ready(call),
        single_valued(ops) ==> preparation_ready(call) == invocation_ready(
            ops,
            inv,
            storage,
            browser,
        ),
{
    if single_valued(ops) && preparation_ready(call) {
        assert forall|first: u32, second: u32| #[trigger]
            decided(ops, inv, first, second) implies preparation_ready(
            preparation(inv, storage, browser, first, second),
        ) by {
            let other = preparation(inv, storage, browser, first, second);
            if other is Ok {
                assert(prepares(ops, inv, storage, browser, other));
                law_prepared_once(ops, inv, storage, browser, call, other);
            }
        }
    }
}

/// Whether an invocation can be run on the stored tensors, whatever its numeric
/// attributes are rounded to.
pub fn is_ready_however_rounded(
    invocation: &KernelInvocation,
    storage: &Table<HostTensor>,
    browser: bool,
) -> (r: bool)
    ensures
        r == ready_however_rounded(invocation@, tensors(storage@), browser),
{
    let name = &invocation.kernel.name;
    proof {
        lemma_names_apart();
        if preparation_ready(preparation(invocation@, tensors(storage@), browser, ONE, ONE)) {
            lemma_ready(invocation@, tensors(storage@), browser);
        }
    }
    let call = if text_is(name, "rope") {
        let r = prepare_rotation(invocation, storage, ONE, ONE);
        assert(prepared(r) == preparation(invocation@, tensors(storage@), browser, ONE, ONE));
        r
    } else if text_is(name, "rmsnorm") {
        let r = match two_tensors(invocation, storage) {
            Ok((input, weight)) => Ok(KernelCall::RmsNorm { input, weight, epsilon: ONE }),
            Err(e) => Err(e),
        };
        assert(prepared(r) == preparation(invocation@, tensors(storage@), browser, ONE, ONE));
        r
    } else {
        let r = prepare_plain(invocation, storage, browser);
        assert(prepared(r) == preparation(invocation@, tensors(storage@), browser, ONE, ONE));
        r
    };
    match call {
        Ok(call) => call.is_ready(),
        Err(_) => true,
    }
}

/// An invocation that is refused before its kernel is called is refused
/// whatever its numeric attributes are rounded to.
pub proof fn law_refused_before_rounding(
    inv: Invocation,
    storage: Map<Seq<char>, Tensor>,
    browser: bool,
    first: u32,
    second: u32,
)
    ensures
        match preparation(inv, storage, browser, ZERO, ZERO) {
            Err(f) => preparation(inv, storage, browser, first, second) == Err::<Call, KernelFault>(
                f,
            ),
            Ok(_) => preparation(inv, storage, browser, first, second) is Ok,
        },
{
}

/// Every kernel that is advertised is found, and no other is: a quantized
/// format is refused by its element type, and any other name is not found.
pub proof fn law_advertised_found(
    inv: Invocation,
    storage: Map<Seq<char>, Tensor>,
    browser: bool,
    first: u32,
    second: u32,
)
    ensures
        kernel_names().contains(inv.kernel.name) ==> (match preparation(
            inv,
            storage,
            browser,
            first,
            second,
        ) {
            Err(f) => f.code != KernelErrorCode::KernelNotFound,
            Ok(_) => true,
        }),
        !kernel_names().contains(inv.kernel.name) ==> (match preparation(
            inv,
            storage,
            browser,
            first,
            second,
        ) {
            Err(f) => if inv.kernel.name == "quantize"@ || inv.kernel.name == "dequantize"@ {
                f == fault_of(quantization_refusal())
            } else {
                f == fault(KernelErrorCode::KernelNotFound, inv.kernel.name)
            },
            Ok(_) => false,
        }),
{
    let names = kernel_names();
    let name = inv.kernel.name;
    if names.contains(name) {
        let i = choose|i: int| 0 <= i < names.len() && names[i] == name;
        assert(names[i] == name);
    } else {
        assert(names[0] == "matmul"@);
        assert(names[1] == "embedding"@);
        assert(names[2] == "rmsnorm"@);
        assert(names[3] == "rope"@);
        assert(names[4] == "attention"@);
        assert(names[5] == "softmax"@);
        assert(names[6] == "silu"@);
        assert(names[7] == "gelu"@);
        assert(names[8] == "activation"@);
        assert(names[9] == "add"@);
        assert(names[10] == "mul"@);
        assert(names[11] == "residual-add"@);
        assert(names[12] == "dtype-conversion"@);
        assert(names[13] == "layout-conversion"@);
    }
}

/// Works out the call of a kernel without numeric attributes.
fn prepare_plain(
    invocation: &KernelInvocation,
    storage: &Table<HostTensor>,
    browser: bool,
) -> (r: Result<KernelCall, KernelError>)
    requires
        invocation@.kernel.name != "rope"@,
        invocation@.kernel.name != "rmsnorm"@,
    ensures
        forall|first: u32, second: u32|
            prepared(r) == #[trigger] preparation(
                invocation@,
                tensors(storage@),
                browser,
                first,
                second,
            ),
{
    let name = &invocation.kernel.name;
    if text_is(name, "matmul") {
        return prepare_matmul(invocation, storage);
    }
    if text_is(name, "embedding") {
        return match two_tensors(invocation, storage) {
            Ok((table, ids)) => Ok(KernelCall::Embedding { table, ids }),
            Err(e) => Err(e),
        };
    }
    if text_is(name, "attention") {
        return prepare_attention(invocation, storage, browser);
    }
    if text_is(name, "softmax") {
        return match input_tensor(invocation, storage, 0) {
            Ok(input) => Ok(KernelCall::Softmax { input }),
            Err(e) => Err(e),
        };
    }
    if text_is(name, "silu") {
        return match input_tensor(invocation, storage, 0) {
            Ok(input) => Ok(KernelCall::Silu { input }),
            Err(e) => Err(e),
        };
    }
    if text_is(name, "gelu") {
        return match input_tensor(invocation, storage, 0) {
            Ok(input) => Ok(KernelCall::Gelu { input }),
            Err(e) => Err(e),
        };
    }
    if text_is(name, "activation") {
        return prepare_activation(invocation, storage);
    }
    if text_is(name, "add") {
        return match two_tensors(invocation, storage) {
            Ok((a, b)) => Ok(KernelCall::Add { a, b }),
            Err(e) => Err(e),
        };
    }
    if text_is(name, "mul") {
        return match two_tensors(invocation, storage) {
            Ok((a, b)) => Ok(KernelCall::Mul { a, b }),
            Err(e) => Err(e),
        };
    }
    if text_is(name, "residual-add") {
        return match two_tensors(invocation, storage) {
            Ok((input, residual)) => Ok(KernelCall::ResidualAdd { input, residual }),
            Err(e) => Err(e),
        };
    }
    if text_is(name, "dtype-conversion") {
        return match input_tensor(invocation, storage, 0) {
            Ok(input) => Ok(KernelCall::DTypeConversion { input }),
            Err(e) => Err(e),
        };
    }
    if text_is(name, "layout-conversion") {
        return match input_tensor(invocation, storage, 0) {
            Ok(input) => Ok(KernelCall::LayoutConversion { input }),
            Err(e) => Err(e),
        };
    }
    if text_is(name, "quantize") || text_is(name, "dequantize") {
        return Err(KernelError::from_refusal(dequantize_placeholder()));
    }
    Err(KernelError::new(KernelErrorCode::KernelNotFound, name.clone()))
}

/// Under an arithmetic with one result for the same operands, the call of a
/// kernel has one result.
pub proof fn law_call_once<A: Arithmetic>(
    ops: &A,
    call: Call,
    r: Result<HostTensor, ReferenceCpuError>,
    r2: Result<HostTensor, ReferenceCpuError>,
)
    requires
        single_valued(ops),
        call_gives(ops, call, r),
        call_gives(ops, call, r2),
    ensures
        same_result(r, r2),
{
    match call {
        Call::Matmul { a, b, transpose_a, transpose_b } => law_matmul_once(
            ops,
            a,
            b,
            transpose_a,
            transpose_b,
            r,
            r2,
        ),
        Call::Embedding { table, ids } => law_embedding_once(ops, table, ids, r, r2),
        Call::RmsNorm { input, weight, epsilon } => law_rmsnorm_once(
            ops,
            input,
            weight,
            epsilon,
            r,
            r2,
        ),
        Call::Rope { input, rotation } => law_rope_once(ops, input, rotation, r, r2),
        Call::Attention { q, k, v, params } => law_attention_once(ops, q, k, v, params, r, r2),
        Call::Softmax { input } => law_softmax_once(ops, input, r, r2),
        Call::Silu { input } => law_activation_once(ops, input, r->Ok_0@, r2->Ok_0@),
        Call::Gelu { input } => law_activation_once(ops, input, r->Ok_0@, r2->Ok_0@),
        Call::Add { a, b } => law_pairs_once(ops, a, b, r, r2),
        Call::Mul { a, b } => law_pairs_once(ops, a, b, r, r2),
        Call::ResidualAdd { input, residual } => law_pairs_once(ops, input, residual, r, r2),
        Call::DTypeConversion { input } => {},
        Call::LayoutConversion { input } => {},
    }
}

} // verus!
