//! What values stand for: nothing that a value holds is left out of what it
//! stands for, and nothing is put in another place.

use vstd::prelude::*;

use crate::affinity::ResourceAffinity;
use crate::dispatch::{Call, KernelCall};
use crate::error::{KernelError, ReferenceCpuError};
use crate::execution::{ProviderExecutionError, ProviderExecutionHandle};
use crate::identity::{KernelId, OperatorId};
use crate::invocation::{
    Attribute, KernelInvocation, KernelResult, OperatorAttributeValue, TensorResourceDescriptor,
};
use crate::memory::{MemoryAllocationRequest, MemoryPlacement, Placement, TensorResidency};
use crate::observation::KernelObservation;
use crate::tensor::HostTensor;

verus! {

/// A tensor stands for its shape and its elements.
pub proof fn law_tensor_stands_for(t: HostTensor)
    ensures
        t@.shape == t.shape@,
        t@.data == t.data@,
{
}

/// An invocation stands for its identifier, its kernel, the tensors that it reads
/// and writes, in order, its attributes and its deadline.
pub proof fn law_invocation_stands_for(i: KernelInvocation, key: Seq<char>)
    ensures
        i@.id == i.id@,
        i@.kernel == i.kernel@,
        i@.deadline_millis == i.deadline_millis,
        i@.inputs.len() == i.inputs@.len(),
        forall|n: int| 0 <= n < i.inputs@.len() ==> i@.inputs[n] == (#[trigger] i.inputs@[n])@,
        i@.outputs.len() == i.outputs@.len(),
        forall|n: int| 0 <= n < i.outputs@.len() ==> i@.outputs[n] == (#[trigger] i.outputs@[n])@,
        i@.attributes.contains_key(key) <==> i.attributes@.contains_key(key),
        i.attributes@.contains_key(key) ==> i@.attributes[key] == i.attributes@[key]@,
{
}

/// An attribute stands for its value, in its kind.
pub proof fn law_attribute_stands_for(a: OperatorAttributeValue)
    ensures
        a is Boolean ==> a@ == Attribute::Boolean(a->Boolean_0),
        a is Integer ==> a@ == Attribute::Integer(a->Integer_0),
        a is Float ==> a@ == Attribute::Float(a->Float_0),
        a is Text ==> a@ == Attribute::Text(a->Text_0@),
        a is DType ==> a@ == Attribute::DType(a->DType_0),
        a is Layout ==> a@ == Attribute::Layout(a->Layout_0),
{
}

/// A tensor that is named stands for its identifier, its size, or why that is not
/// known, and what it is bound to.
pub proof fn law_resource_stands_for(d: TensorResourceDescriptor, a: ResourceAffinity)
    ensures
        d@.id == d.id@,
        d.byte_size is Ok ==> d@.byte_size == Ok::<u64, Seq<char>>(d.byte_size->Ok_0),
        d.byte_size is Err ==> d@.byte_size == Err::<u64, Seq<char>>(d.byte_size->Err_0@),
        d@.affinity == d.affinity@,
        a@.provider is Some <==> a.provider is Some,
        a.provider is Some ==> a@.provider->Some_0 == a.provider->Some_0@,
        a@.device is Some <==> a.device is Some,
        a.device is Some ==> a@.device->Some_0 == a.device->Some_0@,
        a@.capabilities.len() == a.capabilities@.len(),
        forall|n: int|
            0 <= n < a.capabilities@.len() ==> a@.capabilities[n] == (
            (#[trigger] a.capabilities@[n]).id@,
            a.capabilities@[n].version,
        ),
        a@.artifacts.len() == a.artifacts@.len(),
        forall|n: int|
            0 <= n < a.artifacts@.len() ==> a@.artifacts[n] == (
            (#[trigger] a.artifacts@[n]).role@,
            a.artifacts@[n].fingerprint@,
        ),
        a@.execution_context == a.execution_context,
        a@.group == a.group,
        a@.fallback == a.fallback,
{
}

/// A result stands for the invocation, its status, what is ready, what was
/// written, and its error.
pub proof fn law_result_stands_for(r: KernelResult)
    ensures
        r@.invocation == r.invocation@,
        r@.status == r.status,
        r@.output_readiness.len() == r.output_readiness@.len(),
        forall|n: int|
            0 <= n < r.output_readiness@.len() ==> r@.output_readiness[n] == (
            (#[trigger] r.output_readiness@[n]).id@,
            r.output_readiness@[n].ready,
        ),
        r@.updated_resources.len() == r.updated_resources@.len(),
        forall|n: int|
            0 <= n < r.updated_resources@.len() ==> r@.updated_resources[n]
                == (#[trigger] r.updated_resources@[n])@,
        r@.error is Some <==> r.error is Some,
        r.error is Some ==> r@.error->Some_0 == r.error->Some_0@,
{
}

/// An error stands for its code and its words, and a handle and its error for what
/// they name.
pub proof fn law_error_stands_for(
    e: ReferenceCpuError,
    k: KernelError,
    h: ProviderExecutionHandle,
    x: ProviderExecutionError,
)
    ensures
        e@.code == e.code && e@.reason == e.reason@,
        k@.code == k.code && k@.detail == k.detail@,
        k@.found is Some <==> k.found is Some,
        k.found is Some ==> k@.found->Some_0 == k.found->Some_0@,
        h@.id == h.id@ && h@.operation == h.operation && h@.plan == h.plan@,
        h@.provider == h.provider@,
        h@.device is Some <==> h.device is Some,
        h.device is Some ==> h@.device->Some_0 == h.device->Some_0@,
        x@.code == x.code && x@.phase == x.phase && x@.provider == x.provider@,
        x@.message == x.message@,
        x@.device is Some <==> x.device is Some,
        x.device is Some ==> x@.device->Some_0 == x.device->Some_0@,
{
}

/// A kernel and an operator stand for what names them.
pub proof fn law_names_stand_for(k: KernelId, o: OperatorId)
    ensures
        k@.provider == k.provider@ && k@.name == k.name@ && k@.version == k.version,
        k@.operator == k.operator@ && k@.operator_versions == k.operator_versions,
        k@.family == k.family,
        k@.conformance_profile is Some <==> k.conformance_profile is Some,
        k.conformance_profile is Some ==> k@.conformance_profile->Some_0
            == k.conformance_profile->Some_0@,
        o@.namespace == o.namespace@ && o@.name == o.name@,
        o@.version == o.version && o@.family == o.family,
{
}

/// What is asked of the memory manager stands for its size, its kind, where it is
/// to be, for whom, and what it is bound to.
pub proof fn law_request_stands_for(
    r: MemoryAllocationRequest,
    p: MemoryPlacement,
    t: TensorResidency,
)
    ensures
        r@.class == r.class && r@.size_bytes == r.size_bytes,
        r@.placement == r.placement@ && r@.owner == r.owner@,
        r@.affinity is Some <==> r.affinity is Some,
        r.affinity is Some ==> r@.affinity->Some_0 == r.affinity->Some_0@,
        p is HostOrdinary <==> p@ == Placement::HostOrdinary,
        p is ProviderOwnedOpaque ==> p@ == Placement::ProviderOwnedOpaque(
            p->ProviderOwnedOpaque_0@,
        ),
        t@.tensor == t.tensor@ && t@.placement == t.placement@,
        t@.affinity == t.affinity@ && t@.allocation == t.allocation,
{
}

/// An observation stands for its kind, what it names, and its texts, in order.
pub proof fn law_observation_stands_for(o: KernelObservation)
    ensures
        o@.kind == o.kind,
        o@.kernel is Some <==> o.kernel is Some,
        o.kernel is Some ==> o@.kernel->Some_0 == o.kernel->Some_0@,
        o@.invocation is Some <==> o.invocation is Some,
        o.invocation is Some ==> o@.invocation->Some_0 == o.invocation->Some_0@,
        o@.metadata.len() == o.redacted_metadata@.len(),
        forall|n: int|
            0 <= n < o.redacted_metadata@.len() ==> o@.metadata[n] == (
            (#[trigger] o.redacted_metadata@[n]).key@,
            o.redacted_metadata@[n].value@,
        ),
{
}

/// A prepared call stands for its kernel, its tensors and its parameters.
pub proof fn law_call_stands_for(c: KernelCall)
    ensures
        c is Matmul <==> c@ is Matmul,
        c is Embedding <==> c@ is Embedding,
        c is RmsNorm <==> c@ is RmsNorm,
        c is Rope <==> c@ is Rope,
        c is Softmax <==> c@ is Softmax,
        c is Attention <==> c@ is Attention,
        c is Silu <==> c@ is Silu,
        c is Gelu <==> c@ is Gelu,
        c is Add <==> c@ is Add,
        c is Mul <==> c@ is Mul,
        c is ResidualAdd <==> c@ is ResidualAdd,
        c is DTypeConversion <==> c@ is DTypeConversion,
        c is LayoutConversion <==> c@ is LayoutConversion,
        c matches KernelCall::Matmul { a, b, transpose_a, transpose_b } ==> c@ == (Call::Matmul {
            a: a@,
            b: b@,
            transpose_a,
            transpose_b,
        }),
        c matches KernelCall::Embedding { table, ids } ==> c@ == (Call::Embedding {
            table: table@,
            ids: ids@,
        }),
        c matches KernelCall::RmsNorm { input, weight, epsilon } ==> c@ == (Call::RmsNorm {
            input: input@,
            weight: weight@,
            epsilon,
        }),
        c matches KernelCall::Rope { input, base, scale, dimension, position_offset } ==> {
            &&& c@->Rope_input == input@
            &&& c@->rotation.base == base && c@->rotation.scale == scale
            &&& c@->rotation.dimension == dimension
            &&& c@->rotation.position_offset == position_offset
        },
        c matches KernelCall::Attention {
            q,
            k,
            v,
            head_count,
            head_dimension,
            kv_head_count,
            window_size,
            causal,
        } ==> {
            &&& c@->Attention_q == q@ && c@->Attention_k == k@ && c@->Attention_v == v@
            &&& c@->params.head_count == head_count
            &&& c@->params.head_dimension == head_dimension
            &&& c@->params.kv_head_count == kv_head_count
            &&& c@->params.window_size == window_size
            &&& c@->params.causal == causal
        },
        c matches KernelCall::Softmax { input } ==> c@->Softmax_input == input@,
        c matches KernelCall::Silu { input } ==> c@->Silu_input == input@,
        c matches KernelCall::Gelu { input } ==> c@->Gelu_input == input@,
        c matches KernelCall::Add { a, b } ==> c@->Add_a == a@ && c@->Add_b == b@,
        c matches KernelCall::Mul { a, b } ==> c@->Mul_a == a@ && c@->Mul_b == b@,
        c matches KernelCall::ResidualAdd { input, residual } ==> c@->ResidualAdd_input == input@
            && c@->residual == residual@,
        c matches KernelCall::DTypeConversion { input } ==> c@->DTypeConversion_input == input@,
        c matches KernelCall::LayoutConversion { input } ==> c@->LayoutConversion_input == input@,
{
}

} // verus!
