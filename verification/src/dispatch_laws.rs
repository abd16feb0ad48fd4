//! What the preparation of an invocation promises: each kernel is called on the
//! tensors that the invocation names, in order, and each attribute reaches the
//! parameter of its name.

use vstd::prelude::*;

use crate::dispatch::{preparation, prepares, Call};
use crate::error::{KernelErrorCode, KernelFault};
use crate::float::{narrows, Arithmetic};
use crate::invocation::{Attribute, Invocation};
use crate::kernels::conversion::{dtype_name, ComputeDType};
use crate::tensor::Tensor;
use crate::text::{decimal, signed_decimal};

verus! {

/// The names of the kernels are apart.
pub(crate) proof fn lemma_kernel_names()
    ensures
        "matmul"@.len() == 6,
        "embedding"@.len() == 9 && "embedding"@[0] == 'e',
        "rmsnorm"@.len() == 7 && "rmsnorm"@[0] == 'r',
        "rope"@.len() == 4 && "rope"@[0] == 'r',
        "attention"@.len() == 9 && "attention"@[0] == 'a',
        "softmax"@.len() == 7 && "softmax"@[0] == 's',
        "silu"@.len() == 4 && "silu"@[0] == 's',
        "gelu"@.len() == 4 && "gelu"@[0] == 'g',
        "activation"@.len() == 10 && "activation"@[0] == 'a',
        "add"@.len() == 3 && "add"@[0] == 'a',
        "mul"@.len() == 3 && "mul"@[0] == 'm',
        "residual-add"@.len() == 12,
        "dtype-conversion"@.len() == 16,
        "layout-conversion"@.len() == 17,
        "quantize"@.len() == 8,
        "dequantize"@.len() == 10 && "dequantize"@[0] == 'd',
{
    reveal_strlit("matmul");
    reveal_strlit("embedding");
    reveal_strlit("rmsnorm");
    reveal_strlit("rope");
    reveal_strlit("attention");
    reveal_strlit("softmax");
    reveal_strlit("silu");
    reveal_strlit("gelu");
    reveal_strlit("activation");
    reveal_strlit("add");
    reveal_strlit("mul");
    reveal_strlit("residual-add");
    reveal_strlit("dtype-conversion");
    reveal_strlit("layout-conversion");
    reveal_strlit("quantize");
    reveal_strlit("dequantize");
}

/// The first `n` tensors that an invocation names are stored.
pub open spec fn inputs_stored(
    inv: Invocation,
    storage: Map<Seq<char>, Tensor>,
    n: nat,
) -> bool {
    &&& n <= inv.inputs.len()
    &&& forall|i: int| 0 <= i < n ==> storage.contains_key(#[trigger] inv.inputs[i])
}

/// An attribute is given as a text.
pub open spec fn given_text(inv: Invocation, key: Seq<char>, text: Seq<char>) -> bool {
    inv.attributes.contains_key(key) && inv.attributes[key] == Attribute::Text(text)
}

/// An attribute is given as an integer that is not negative.
pub open spec fn given_count(inv: Invocation, key: Seq<char>, n: u64) -> bool {
    &&& inv.attributes.contains_key(key)
    &&& inv.attributes[key] matches Attribute::Integer(i) && i == n
}

/// An optional count is the one that is given, if one is.
pub open spec fn optional_count(inv: Invocation, key: Seq<char>, r: Option<u64>) -> bool {
    match r {
        Some(n) => given_count(inv, key, n),
        None => forall|n: u64| !#[trigger] given_count(inv, key, n),
    }
}

/// A truth value is the one that is given, or false.
pub open spec fn optional_truth(inv: Invocation, key: Seq<char>, r: bool) -> bool {
    r == (inv.attributes.contains_key(key) && inv.attributes[key] == Attribute::Boolean(true))
}

/// A number is the one that is given, in single precision, or the default.
pub open spec fn optional_number<A: Arithmetic>(
    ops: &A,
    inv: Invocation,
    key: Seq<char>,
    default: u32,
    r: u32,
) -> bool {
    if inv.attributes.contains_key(key) && inv.attributes[key] is Float {
        narrows(ops, inv.attributes[key]->Float_0, r)
    } else {
        r == default
    }
}

/// The attributes of attention reach its parameters: the counts of heads, the
/// head dimension, the window and the mask are those that the invocation gives,
/// and no other. It is prepared exactly where its three tensors are stored, the
/// count and the dimension of heads are given, a kind of mask that is given is
/// known and agrees with the mask, and the host is no browser.
pub proof fn law_attention_prepared<A: Arithmetic>(
    ops: &A,
    inv: Invocation,
    storage: Map<Seq<char>, Tensor>,
    browser: bool,
    r: Result<Call, KernelFault>,
)
    requires
        inv.kernel.name == "attention"@,
        prepares(ops, inv, storage, browser, r),
    ensures
        r matches Ok(call) ==> {
            &&& call is Attention
            &&& call->Attention_q == storage[inv.inputs[0]]
            &&& call->Attention_k == storage[inv.inputs[1]]
            &&& call->Attention_v == storage[inv.inputs[2]]
            &&& given_count(inv, "head_count"@, call->params.head_count)
            &&& given_count(inv, "head_dimension"@, call->params.head_dimension)
            &&& optional_count(inv, "kv_head_count"@, call->params.kv_head_count)
            &&& optional_count(inv, "window_size"@, call->params.window_size)
            &&& optional_truth(inv, "causal"@, call->params.causal)
        },
        r is Ok <==> {
            &&& !browser
            &&& inputs_stored(inv, storage, 3)
            &&& exists|n: u64| #[trigger] given_count(inv, "head_count"@, n)
            &&& exists|n: u64| #[trigger] given_count(inv, "head_dimension"@, n)
            &&& forall|kind: Seq<char>| #[trigger]
                given_text(inv, "attention_mask_kind"@, kind) ==> {
                    ||| kind == "causal"@ && optional_truth(inv, "causal"@, true)
                    ||| kind == "bidirectional"@ && optional_truth(inv, "causal"@, false)
                }
        },
{
    lemma_kernel_names();
    reveal_strlit("causal");
    reveal_strlit("bidirectional");
    let m = inv.attributes;
    assert("causal"@.len() == 6 && "bidirectional"@.len() == 13);
    lemma_counts_given(inv, "head_count"@);
    lemma_counts_given(inv, "head_dimension"@);
    lemma_counts_given(inv, "kv_head_count"@);
    lemma_counts_given(inv, "window_size"@);
    if m.contains_key("attention_mask_kind"@) && m["attention_mask_kind"@] is Text {
        assert(given_text(inv, "attention_mask_kind"@, m["attention_mask_kind"@]->Text_0));
    }
    lemma_stored(inv, storage);
}

/// The counts that are given under a key.
proof fn lemma_counts_given(inv: Invocation, key: Seq<char>)
    ensures
        match crate::invocation::integer_attribute(inv.attributes, key) {
            Some(n) => given_count(inv, key, n),
            None => forall|n: u64| !#[trigger] given_count(inv, key, n),
        },
{
}

/// Which of the first three tensors are stored.
proof fn lemma_stored(inv: Invocation, storage: Map<Seq<char>, Tensor>)
    ensures
        inputs_stored(inv, storage, 1) <==> crate::dispatch::input_at(inv, storage, 0) is Ok,
        inputs_stored(inv, storage, 2) <==> crate::dispatch::two_inputs(inv, storage) is Ok,
        inputs_stored(inv, storage, 3) <==> crate::dispatch::three_inputs(inv, storage) is Ok,
{
    if inputs_stored(inv, storage, 1) {
        assert(storage.contains_key(inv.inputs[0]));
    }
    if inputs_stored(inv, storage, 2) {
        assert(storage.contains_key(inv.inputs[0]) && storage.contains_key(inv.inputs[1]));
    }
    if inputs_stored(inv, storage, 3) {
        assert(storage.contains_key(inv.inputs[0]) && storage.contains_key(inv.inputs[1])
            && storage.contains_key(inv.inputs[2]));
    }
}

/// The attributes of rotation reach its parameters: the base and the scale are
/// those that the invocation gives, or ten thousand and one, the dimension is
/// the one that it gives, and the position of the first row the one that it
/// gives, or zero. It is prepared exactly where its tensor is stored, the
/// dimension is given, a mode of positions that is given is the sequential one,
/// and a position that is given is an integer that is not negative.
pub proof fn law_rope_prepared<A: Arithmetic>(
    ops: &A,
    inv: Invocation,
    storage: Map<Seq<char>, Tensor>,
    browser: bool,
    r: Result<Call, KernelFault>,
)
    requires
        inv.kernel.name == "rope"@,
        prepares(ops, inv, storage, browser, r),
    ensures
        r matches Ok(call) ==> {
            &&& call is Rope
            &&& call->Rope_input == storage[inv.inputs[0]]
            &&& optional_number(ops, inv, "base"@, 0x461C_4000, call->rotation.base)
            &&& optional_number(ops, inv, "scale"@, 0x3F80_0000, call->rotation.scale)
            &&& given_count(inv, "dimension"@, call->rotation.dimension)
            &&& if inv.attributes.contains_key("position_offset"@) {
                given_count(inv, "position_offset"@, call->rotation.position_offset)
            } else {
                call->rotation.position_offset == 0
            }
        },
        r is Ok <==> {
            &&& inputs_stored(inv, storage, 1)
            &&& exists|n: u64| #[trigger] given_count(inv, "dimension"@, n)
            &&& forall|mode: Seq<char>| #[trigger]
                given_text(inv, "position_mode"@, mode) ==> mode == "sequential"@
            &&& inv.attributes.contains_key("position_offset"@) ==> exists|n: u64| #[trigger]
                given_count(inv, "position_offset"@, n)
        },
{
    lemma_kernel_names();
    lemma_stored(inv, storage);
    lemma_counts_given(inv, "dimension"@);
    lemma_counts_given(inv, "position_offset"@);
    let m = inv.attributes;
    if m.contains_key("position_mode"@) && m["position_mode"@] is Text {
        assert(given_text(inv, "position_mode"@, m["position_mode"@]->Text_0));
    }
    if r is Ok {
        let (first, second) = choose|first: u32, second: u32| #[trigger]
            crate::dispatch::decided(ops, inv, first, second) && preparation(
                inv,
                storage,
                browser,
                first,
                second,
            ) == r;
        assert(crate::dispatch::decided(ops, inv, first, second));
    }
}

/// The epsilon of normalisation is the one that the invocation gives, or one
/// millionth, and its tensors are the input and the weights.
pub proof fn law_rmsnorm_prepared<A: Arithmetic>(
    ops: &A,
    inv: Invocation,
    storage: Map<Seq<char>, Tensor>,
    browser: bool,
    r: Result<Call, KernelFault>,
)
    requires
        inv.kernel.name == "rmsnorm"@,
        prepares(ops, inv, storage, browser, r),
    ensures
        r matches Ok(call) ==> {
            &&& call is RmsNorm
            &&& call->RmsNorm_input == storage[inv.inputs[0]]
            &&& call->weight == storage[inv.inputs[1]]
            &&& optional_number(ops, inv, "epsilon"@, 0x3586_37BD, call->epsilon)
        },
        r is Ok <==> inputs_stored(inv, storage, 2),
{
    lemma_kernel_names();
    lemma_stored(inv, storage);
    if r is Ok {
        let (first, second) = choose|first: u32, second: u32| #[trigger]
            crate::dispatch::decided(ops, inv, first, second) && preparation(
                inv,
                storage,
                browser,
                first,
                second,
            ) == r;
        assert(crate::dispatch::decided(ops, inv, first, second));
    }
}

/// A matrix product is transposed as the invocation says. It is prepared exactly
/// where its two tensors are stored, and an element type that is given for the
/// sums is that of single precision.
pub proof fn law_matmul_prepared<A: Arithmetic>(
    ops: &A,
    inv: Invocation,
    storage: Map<Seq<char>, Tensor>,
    browser: bool,
    r: Result<Call, KernelFault>,
)
    requires
        inv.kernel.name == "matmul"@,
        prepares(ops, inv, storage, browser, r),
    ensures
        r matches Ok(call) ==> {
            &&& call is Matmul
            &&& call->Matmul_a == storage[inv.inputs[0]]
            &&& call->Matmul_b == storage[inv.inputs[1]]
            &&& optional_truth(inv, "transpose_a"@, call->transpose_a)
            &&& optional_truth(inv, "transpose_b"@, call->transpose_b)
        },
        r is Ok <==> {
            &&& inputs_stored(inv, storage, 2)
            &&& inv.attributes.contains_key("accumulation_dtype"@) ==> {
                inv.attributes["accumulation_dtype"@] matches Attribute::DType(dtype) ==> dtype
                    == ComputeDType::Float32
            }
        },
{
    lemma_kernel_names();
    lemma_stored(inv, storage);
}

/// The named activation is called: SiLU for `silu`, GELU for `gelu`, and nothing
/// for any other kind.
pub proof fn law_activation_prepared<A: Arithmetic>(
    ops: &A,
    inv: Invocation,
    storage: Map<Seq<char>, Tensor>,
    browser: bool,
    r: Result<Call, KernelFault>,
)
    requires
        inv.kernel.name == "activation"@,
        prepares(ops, inv, storage, browser, r),
    ensures
        r is Ok <==> inputs_stored(inv, storage, 1) && (given_text(inv, "kind"@, "silu"@)
            || given_text(inv, "kind"@, "gelu"@)),
        r is Ok && given_text(inv, "kind"@, "silu"@) ==> r == Ok::<Call, KernelFault>(
            Call::Silu { input: storage[inv.inputs[0]] },
        ),
        r is Ok && given_text(inv, "kind"@, "gelu"@) ==> r == Ok::<Call, KernelFault>(
            Call::Gelu { input: storage[inv.inputs[0]] },
        ),
{
    lemma_kernel_names();
    lemma_stored(inv, storage);
}

/// A kernel without attributes is called on the tensors that the invocation
/// names, in order, exactly where they are stored.
pub proof fn law_plain_prepared<A: Arithmetic>(
    ops: &A,
    inv: Invocation,
    storage: Map<Seq<char>, Tensor>,
    browser: bool,
    r: Result<Call, KernelFault>,
)
    requires
        prepares(ops, inv, storage, browser, r),
    ensures
        ({
            let name = inv.kernel.name;
            let x = storage[inv.inputs[0]];
            let y = storage[inv.inputs[1]];
            let one = |call: Call|
                if inputs_stored(inv, storage, 1) {
                    r == Ok::<Call, KernelFault>(call)
                } else {
                    r is Err
                };
            let two = |call: Call|
                if inputs_stored(inv, storage, 2) {
                    r == Ok::<Call, KernelFault>(call)
                } else {
                    r is Err
                };
            &&& name == "embedding"@ ==> two(Call::Embedding { table: x, ids: y })
            &&& name == "softmax"@ ==> one(Call::Softmax { input: x })
            &&& name == "silu"@ ==> one(Call::Silu { input: x })
            &&& name == "gelu"@ ==> one(Call::Gelu { input: x })
            &&& name == "add"@ ==> two(Call::Add { a: x, b: y })
            &&& name == "mul"@ ==> two(Call::Mul { a: x, b: y })
            &&& name == "residual-add"@ ==> two(Call::ResidualAdd { input: x, residual: y })
            &&& name == "dtype-conversion"@ ==> one(Call::DTypeConversion { input: x })
            &&& name == "layout-conversion"@ ==> one(Call::LayoutConversion { input: x })
            &&& name == "quantize"@ || name == "dequantize"@ ==> r is Err
        }),
{
    lemma_kernel_names();
    lemma_stored(inv, storage);
}

/// Whatever its name, a kernel is looked for among those that there are: any other
/// name is refused as one that is not found, and names itself.
pub proof fn law_unknown_kernel<A: Arithmetic>(
    ops: &A,
    inv: Invocation,
    storage: Map<Seq<char>, Tensor>,
    browser: bool,
    r: Result<Call, KernelFault>,
)
    requires
        prepares(ops, inv, storage, browser, r),
        ({
            let name = inv.kernel.name;
            &&& name != "matmul"@ && name != "embedding"@ && name != "rmsnorm"@
            &&& name != "rope"@ && name != "attention"@ && name != "softmax"@
            &&& name != "silu"@ && name != "gelu"@ && name != "activation"@
            &&& name != "add"@ && name != "mul"@ && name != "residual-add"@
            &&& name != "dtype-conversion"@ && name != "layout-conversion"@
            &&& name != "quantize"@ && name != "dequantize"@
        }),
    ensures
        r matches Err(f) && f.code == KernelErrorCode::KernelNotFound && f.detail
            == inv.kernel.name,
{
}

/// How many tensors a kernel reads.
pub open spec fn reads(name: Seq<char>) -> nat {
    if name == "attention"@ {
        3
    } else if name == "matmul"@ || name == "embedding"@ || name == "rmsnorm"@ || name == "add"@
        || name == "mul"@ || name == "residual-add"@ {
        2
    } else if name == "rope"@ || name == "softmax"@ || name == "silu"@ || name == "gelu"@ || name
        == "activation"@ || name == "dtype-conversion"@ || name == "layout-conversion"@ {
        1
    } else {
        0
    }
}

/// The first tensor that a kernel reads and that is not there is told: by its
/// place where the invocation names none, and by its name where none is stored
/// under it. That comes before anything is said of attributes.
pub proof fn law_input_missed<A: Arithmetic>(
    ops: &A,
    inv: Invocation,
    storage: Map<Seq<char>, Tensor>,
    browser: bool,
    r: Result<Call, KernelFault>,
    i: nat,
)
    requires
        prepares(ops, inv, storage, browser, r),
        i < reads(inv.kernel.name),
        inputs_stored(inv, storage, i),
        !inputs_stored(inv, storage, i + 1),
        !(browser && inv.kernel.name == "attention"@),
    ensures
        r matches Err(f) && {
            &&& f.code == KernelErrorCode::KernelExecutionFailed
            &&& f.found is None
            &&& inv.inputs.len() == i ==> f.detail == "missing input at index "@ + decimal(i)
            &&& inv.inputs.len() > i ==> f.detail == "no materialized data for input resource "@
                + inv.inputs[i as int]
        },
{
    lemma_kernel_names();
    lemma_stored(inv, storage);
    if inv.inputs.len() > i && storage.contains_key(inv.inputs[i as int]) {
        assert(inputs_stored(inv, storage, i + 1));
    }
}

/// An invocation is refused under a code, in these words.
pub open spec fn refused_as(
    r: Result<Call, KernelFault>,
    code: KernelErrorCode,
    words: Seq<char>,
) -> bool {
    &&& r is Err
    &&& r->Err_0.code == code
    &&& r->Err_0.detail == words
    &&& r->Err_0.found is None
}

/// An attribute is refused, in these words.
pub open spec fn refused_attribute(r: Result<Call, KernelFault>, words: Seq<char>) -> bool {
    refused_as(r, KernelErrorCode::KernelAttributeUnsupported, words)
}

/// Attention in a browser is refused before all else. Elsewhere the first
/// attribute that is wrong is told: a count of heads that is not given, a
/// dimension that is not, a kind of mask that is not known, one that is not that
/// of the mask.
pub proof fn law_attention_unprepared<A: Arithmetic>(
    ops: &A,
    inv: Invocation,
    storage: Map<Seq<char>, Tensor>,
    browser: bool,
    kind: Seq<char>,
    r: Result<Call, KernelFault>,
)
    requires
        inv.kernel.name == "attention"@,
        prepares(ops, inv, storage, browser, r),
    ensures
        browser ==> refused_as(
            r,
            KernelErrorCode::KernelBrowserFeatureUnsupported,
            "reference-cpu-attention-workspace"@,
        ),
        !browser && inputs_stored(inv, storage, 3) ==> {
            if forall|n: u64| !#[trigger] given_count(inv, "head_count"@, n) {
                refused_attribute(r, "head_count"@)
            } else if forall|n: u64| !#[trigger] given_count(inv, "head_dimension"@, n) {
                refused_attribute(r, "head_dimension"@)
            } else if given_text(inv, "attention_mask_kind"@, kind) {
                if kind != "causal"@ && kind != "bidirectional"@ {
                    refused_attribute(
                        r,
                        "attention_mask_kind '"@ + kind + "' is not implemented"@,
                    )
                } else if kind == "causal"@ && optional_truth(inv, "causal"@, false) {
                    refused_attribute(
                        r,
                        "attention_mask_kind '"@ + kind + "' is inconsistent with causal="@
                            + "false"@,
                    )
                } else if kind == "bidirectional"@ && optional_truth(inv, "causal"@, true) {
                    refused_attribute(
                        r,
                        "attention_mask_kind '"@ + kind + "' is inconsistent with causal="@
                            + "true"@,
                    )
                } else {
                    r is Ok
                }
            } else {
                true
            }
        },
{
    lemma_kernel_names();
    reveal_strlit("causal");
    reveal_strlit("bidirectional");
    assert("causal"@.len() == 6 && "bidirectional"@.len() == 13);
    lemma_counts_given(inv, "head_count"@);
    lemma_counts_given(inv, "head_dimension"@);
    lemma_stored(inv, storage);
    if r is Ok {
        law_attention_prepared(ops, inv, storage, browser, r);
    }
}

/// Of rotation the first attribute that is wrong is told: a dimension that is not
/// given, positions in a mode that is not known, an offset that is negative or no
/// integer.
pub proof fn law_rope_unprepared<A: Arithmetic>(
    ops: &A,
    inv: Invocation,
    storage: Map<Seq<char>, Tensor>,
    browser: bool,
    mode: Seq<char>,
    r: Result<Call, KernelFault>,
)
    requires
        inv.kernel.name == "rope"@,
        prepares(ops, inv, storage, browser, r),
        inputs_stored(inv, storage, 1),
    ensures
        ({
            let key = "position_offset"@;
            if forall|n: u64| !#[trigger] given_count(inv, "dimension"@, n) {
                refused_attribute(r, "dimension"@)
            } else if given_text(inv, "position_mode"@, mode) && mode != "sequential"@ {
                refused_attribute(r, "position_mode '"@ + mode + "' is not implemented"@)
            } else if given_text(inv, "position_mode"@, "sequential"@)
                || !inv.attributes.contains_key("position_mode"@) {
                if !inv.attributes.contains_key(key) {
                    r is Ok
                } else if inv.attributes[key] is Integer {
                    let n = inv.attributes[key]->Integer_0;
                    n < 0 ==> refused_attribute(
                        r,
                        "position_offset "@ + signed_decimal(n as int) + " must not be negative"@,
                    )
                } else {
                    refused_attribute(r, "position_offset must be an integer"@)
                }
            } else {
                true
            }
        }),
{
    lemma_kernel_names();
    lemma_counts_given(inv, "dimension"@);
    lemma_stored(inv, storage);
}

/// An activation without a kind is refused by that name, and one of a kind that
/// is not known by that kind. A product that is to accumulate in anything but
/// single precision is refused by what it is to accumulate in, and so are the
/// kernels on quantized tensors, always.
pub proof fn law_others_unprepared<A: Arithmetic>(
    ops: &A,
    inv: Invocation,
    storage: Map<Seq<char>, Tensor>,
    browser: bool,
    kind: Seq<char>,
    r: Result<Call, KernelFault>,
)
    requires
        prepares(ops, inv, storage, browser, r),
    ensures
        inv.kernel.name == "activation"@ && inputs_stored(inv, storage, 1) ==> {
            &&& (forall|text: Seq<char>| !#[trigger] given_text(inv, "kind"@, text))
                ==> refused_attribute(r, "kind"@)
            &&& given_text(inv, "kind"@, kind) && kind != "silu"@ && kind != "gelu"@
                ==> refused_attribute(r, "activation kind '"@ + kind + "' is not implemented"@)
        },
        inv.kernel.name == "matmul"@ && inputs_stored(inv, storage, 2)
            && inv.attributes.contains_key("accumulation_dtype"@)
            && inv.attributes["accumulation_dtype"@] is DType ==> {
            let dtype = inv.attributes["accumulation_dtype"@]->DType_0;
            dtype != ComputeDType::Float32 ==> refused_as(
                r,
                KernelErrorCode::KernelDTypeUnsupported,
                "Reference CPU only accumulates in f32; requested "@ + dtype_name(dtype),
            )
        },
        inv.kernel.name == "quantize"@ || inv.kernel.name == "dequantize"@ ==> refused_as(
            r,
            KernelErrorCode::KernelDTypeUnsupported,
            "Reference CPU has no quantized kernel implementation"@,
        ),
{
    lemma_kernel_names();
    lemma_stored(inv, storage);
    if inv.attributes.contains_key("kind"@) && inv.attributes["kind"@] is Text {
        assert(given_text(inv, "kind"@, inv.attributes["kind"@]->Text_0));
    }
}

} // verus!
