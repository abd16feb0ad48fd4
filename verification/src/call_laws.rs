//! What calls promise. Here the laws speak of the functions themselves: of what a
//! call was given, what it gave, and what it left behind.

use vstd::prelude::*;

use crate::affinity::ResourceAffinity;
use crate::dispatch::{call_gives, prepared, prepares, KernelCall};
use crate::error::{KernelError, ReferenceCpuError, ReferenceCpuErrorCode};
use crate::execution::{
    ProviderCancellationOutcome, ProviderExecutionError, ProviderExecutionErrorCode,
    ProviderExecutionHandle, ProviderExecutionPhase, ProviderExecutionResult,
    ProviderExecutionStatus, SchedulingState,
};
use crate::executor::{executes, ReferenceCpuExecutor};
use crate::fallback::{evaluate_fallback, FallbackPolicyContext};
use crate::float::{
    absolute_of, is_below, is_finite, is_positive, largest_of, negated_of, whole_of, Arithmetic,
};
use crate::float_laws::counted;
use crate::invocation::{
    attribute_bool, attribute_float, attribute_integer, attribute_map, KernelInvocation,
    KernelResult, OperatorAttributeValue,
};
use crate::kernels::attention::{
    attention, attention_gives, attention_is_ready, AttentionParams,
};
use crate::kernels::conversion::{
    dtype_conversion, layout_conversion, ComputeDType, TensorLayoutKind,
};
use crate::kernels::elementwise::{
    add_gives, gelu, gelu_gives, mul_gives, residual_add, silu, silu_gives,
};
use crate::kernels::embedding::{embedding_gives, embedding_is_ready, embedding_lookup};
use crate::kernels::matmul::{matmul, matmul_gives, matmul_is_ready};
use crate::kernels::rmsnorm::{rmsnorm, rmsnorm_gives, rmsnorm_is_ready};
use crate::kernels::rope::{rope, rope_gives, rope_is_ready, RopeParams};
use crate::kernels::softmax::{softmax_gives, softmax_is_ready, softmax_rows};
use crate::memory::TensorValue;
use crate::observation::KernelObservation;
use crate::table::Table;
use crate::tensor::{multiplied, HostTensor};
use crate::text::{decimal_text, read_digits, signed_decimal_text};

verus! {

/// A call of a kernel gives what is said of that kernel, of the tensors and the
/// parameters of the call, each in its place.
pub proof fn law_kernels_called<A: Arithmetic>(
    ops: &A,
    x: &HostTensor,
    y: &HostTensor,
    z: &HostTensor,
    first: bool,
    second: bool,
    epsilon: u32,
    p: AttentionParams,
    rotation: RopeParams,
    r: Result<HostTensor, ReferenceCpuError>,
    out: HostTensor,
)
    ensures
        call_ensures(matmul::<A>, (ops, x, y, first, second), r) ==> matmul_gives(
            ops,
            x@,
            y@,
            first,
            second,
            r,
        ),
        call_ensures(embedding_lookup::<A>, (ops, x, y), r) ==> embedding_gives(ops, x@, y@, r),
        call_ensures(rmsnorm::<A>, (ops, x, y, epsilon), r) ==> rmsnorm_gives(
            ops,
            x@,
            y@,
            epsilon,
            r,
        ),
        call_ensures(
            rope::<A>,
            (
                ops,
                x,
                rotation.base,
                rotation.scale,
                rotation.dimension,
                rotation.position_offset,
            ),
            r,
        ) ==> rope_gives(ops, x@, rotation, r),
        call_ensures(softmax_rows::<A>, (ops, x), r) ==> softmax_gives(ops, x@, r),
        call_ensures(
            attention::<A>,
            (
                ops,
                x,
                y,
                z,
                p.head_count,
                p.head_dimension,
                p.kv_head_count,
                p.window_size,
                p.causal,
            ),
            r,
        ) ==> attention_gives(ops, x@, y@, z@, p, r),
        call_ensures(silu::<A>, (ops, x), out) ==> silu_gives(ops, x@, out@),
        call_ensures(gelu::<A>, (ops, x), out) ==> gelu_gives(ops, x@, out@),
        call_ensures(crate::kernels::elementwise::add::<A>, (ops, x, y), r) ==> add_gives(
            ops,
            x@,
            y@,
            r,
        ),
        call_ensures(crate::kernels::elementwise::mul::<A>, (ops, x, y), r) ==> mul_gives(
            ops,
            x@,
            y@,
            r,
        ),
        call_ensures(residual_add::<A>, (ops, x, y), r) ==> add_gives(ops, x@, y@, r),
{
}

/// A tensor is made of a shape and as many elements as its extents multiplied
/// with each other, and holds both as they are; its rows and columns are told
/// exactly where it has two extents, and are those.
pub proof fn law_tensors_called(
    shape: Vec<u64>,
    data: Vec<u32>,
    made: Result<HostTensor, ReferenceCpuError>,
    t: &HostTensor,
    sides: Result<(u64, u64), ReferenceCpuError>,
)
    requires
        data@.len() <= usize::MAX,
    ensures
        call_ensures(HostTensor::new, (shape, data), made) ==> {
            &&& made is Ok <==> {
                &&& multiplied(shape@) == data@.len()
                &&& forall|n: int|
                    0 <= n <= shape@.len() ==> multiplied(#[trigger] shape@.take(n)) <= u64::MAX
            }
            &&& made is Ok ==> made->Ok_0@.shape == shape@ && made->Ok_0@.data == data@
            &&& made is Err ==> made->Err_0.code == ReferenceCpuErrorCode::ShapeUnsupported
        },
        call_ensures(HostTensor::rows_cols, (t,), sides) ==> {
            &&& sides is Ok <==> t@.shape.len() == 2
            &&& sides is Ok ==> sides->Ok_0.0 == t@.shape[0] && sides->Ok_0.1 == t@.shape[1]
            &&& sides is Err ==> sides->Err_0.code == ReferenceCpuErrorCode::ShapeUnsupported
        },
{
    crate::tensor::law_tensor_taken(shape@, data@.len());
}

/// A conversion gives the tensor as it is, from single precision to single
/// precision and from contiguous to contiguous; any other is refused.
pub proof fn law_conversions_called(
    t: &HostTensor,
    from: ComputeDType,
    to: ComputeDType,
    source: TensorLayoutKind,
    target: TensorLayoutKind,
    r: Result<HostTensor, ReferenceCpuError>,
)
    ensures
        call_ensures(dtype_conversion, (t, from, to), r) ==> {
            &&& r is Ok <==> from == ComputeDType::Float32 && to == ComputeDType::Float32
            &&& r is Ok ==> r->Ok_0@ == t@
            &&& r is Err ==> r->Err_0.code == ReferenceCpuErrorCode::DTypeUnsupported
        },
        call_ensures(layout_conversion, (t, source, target), r) ==> {
            &&& r is Ok <==> source == TensorLayoutKind::Contiguous && target
                == TensorLayoutKind::Contiguous
            &&& r is Ok ==> r->Ok_0@ == t@
            &&& r is Err ==> r->Err_0.code == ReferenceCpuErrorCode::LayoutUnsupported
        },
{
}

/// Bits are told finite, ordered and read as what they stand for.
pub proof fn law_bits_called(x: u32, y: u32, b: bool, n: u32, whole: Option<u64>, s: &Vec<u32>)
    ensures
        call_ensures(is_finite, (x,), b) ==> b == (x as int / 0x80_0000 % 0x100 != 255),
        call_ensures(is_below, (x, y), b) && call_ensures(is_finite, (x,), true)
            && call_ensures(is_finite, (y,), true) ==> b == (counted(x) < counted(y)),
        call_ensures(is_positive, (x,), b) && call_ensures(is_finite, (x,), true) ==> b == (
        counted(x) > 0),
        call_ensures(negated_of, (x,), n) ==> counted(n) == -counted(x),
        call_ensures(absolute_of, (x,), n) && call_ensures(is_finite, (x,), true) ==> counted(n)
            >= 0 && (counted(n) == counted(x) || counted(n) == -counted(x)),
        call_ensures(whole_of, (x,), whole) && whole is Some && whole->Some_0 < u64::MAX
            ==> counted(x) == whole->Some_0 * vstd::arithmetic::power2::pow2(149),
        call_ensures(largest_of, (s,), n) ==> forall|i: int|
            0 <= i < s@.len() ==> !crate::float::below(n, #[trigger] s@[i]),
{
    crate::float_laws::law_kinds(x);
    crate::float_laws::law_order(x, y);
    crate::float_laws::law_sign(x);
    crate::float_laws::law_whole_read(x);
    crate::float_laws::law_largest(s@, s@.len());
}

/// What a number is written as reads back as the number.
pub proof fn law_numbers_called(n: u64, i: i64, r: String)
    ensures
        call_ensures(decimal_text, (n,), r) ==> read_digits(r@) == n,
        call_ensures(signed_decimal_text, (i,), r) ==> if i < 0 {
            &&& r@[0] == '-'
            &&& read_digits(r@.skip(1)) == -i
        } else {
            read_digits(r@) == i
        },
{
    crate::text::law_decimal_reads(n as nat);
    crate::text::law_signed_decimal_reads(i as int);
}

/// A tensor that is written is read back as it was written, by an executor that
/// holds what the writing one was left with; a tensor under another identifier is
/// read as before, and nothing else has changed.
pub proof fn law_write_called(
    writer: &mut ReferenceCpuExecutor,
    reader: &ReferenceCpuExecutor,
    id: String,
    tensor: HostTensor,
    other: &str,
    r: Option<HostTensor>,
)
    requires
        call_ensures(ReferenceCpuExecutor::write_tensor, (writer, id, tensor), ()),
        call_ensures(ReferenceCpuExecutor::read_tensor, (reader, other), r),
        reader@ == final(writer)@,
    ensures
        other@ == id@ ==> r is Some && r->Some_0@ == tensor@,
        other@ != id@ ==> {
            &&& r is Some <==> old(writer)@.storage.contains_key(other@)
            &&& r is Some ==> r->Some_0@ == old(writer)@.storage[other@]
        },
        final(writer)@.observations == old(writer)@.observations,
        final(writer)@.submitted == old(writer)@.submitted,
        final(writer)@.kernel_executions == old(writer)@.kernel_executions,
        final(writer)@.resource_allocations == old(writer)@.resource_allocations,
        final(writer)@.next_execution_ordinal == old(writer)@.next_execution_ordinal,
{
}

/// Releasing a tensor tells whether there was one. It is not read any more, and
/// every other tensor is read as before.
pub proof fn law_release_called(
    owner: &mut ReferenceCpuExecutor,
    reader: &ReferenceCpuExecutor,
    id: &str,
    other: &str,
    had: bool,
    r: Option<HostTensor>,
)
    requires
        call_ensures(ReferenceCpuExecutor::release_tensor, (owner, id), had),
        call_ensures(ReferenceCpuExecutor::read_tensor, (reader, other), r),
        reader@ == final(owner)@,
    ensures
        had <==> old(owner)@.storage.contains_key(id@),
        other@ == id@ ==> r is None,
        other@ != id@ ==> {
            &&& r is Some <==> old(owner)@.storage.contains_key(other@)
            &&& r is Some ==> r->Some_0@ == old(owner)@.storage[other@]
        },
        final(owner)@.resource_allocations == old(owner)@.resource_allocations,
{
}

/// An execution is one of the invocation that is given, with what its validation
/// found and where the executor stands; a call that is prepared is the one that
/// the invocation asks for, and runs the kernel that it names.
pub proof fn law_execution_called<A: Arithmetic>(
    e: &mut ReferenceCpuExecutor,
    ops: &A,
    invocation: &KernelInvocation,
    validation: Result<(), KernelError>,
    browser: bool,
    r: KernelResult,
)
    requires
        call_ensures(
            ReferenceCpuExecutor::execute_invocation::<A>,
            (e, ops, invocation, validation, browser),
            r,
        ),
    ensures
        validation is Ok ==> executes(
            ops,
            invocation@,
            None,
            browser,
            old(e)@,
            final(e)@,
            r@,
        ),
        validation is Err ==> executes(
            ops,
            invocation@,
            Some(validation->Err_0@),
            browser,
            old(e)@,
            final(e)@,
            r@,
        ),
{
}

/// What an executor prepares is what the invocation asks for of the tensors that
/// it holds; what is prepared runs as it says.
pub proof fn law_preparation_called<A: Arithmetic>(
    e: &ReferenceCpuExecutor,
    ops: &A,
    invocation: &KernelInvocation,
    browser: bool,
    call: Result<KernelCall, KernelError>,
    c: &KernelCall,
    r: Result<HostTensor, ReferenceCpuError>,
)
    ensures
        call_ensures(
            ReferenceCpuExecutor::prepare::<A>,
            (e, ops, invocation, browser),
            call,
        ) ==> prepares(ops, invocation@, e@.storage, browser, prepared(call)),
        call_ensures(KernelCall::run::<A>, (c, ops), r) ==> call_gives(ops, c@, r),
{
}

/// A submission is taken once and completed once. From the time that it is taken
/// its status is told, as completed; it is completed without outputs; after that
/// it stands for nothing, and neither its status nor another completion is had.
/// It cannot be cancelled.
pub proof fn law_submission_called(
    taker: &mut ReferenceCpuExecutor,
    watcher: &ReferenceCpuExecutor,
    ender: &mut ReferenceCpuExecutor,
    after: &ReferenceCpuExecutor,
    again: &mut ReferenceCpuExecutor,
    handle: &ProviderExecutionHandle,
    taken: Result<ProviderExecutionHandle, ProviderExecutionError>,
    seen: Result<ProviderExecutionStatus, ProviderExecutionError>,
    ended: Result<ProviderExecutionResult, ProviderExecutionError>,
    gone: Result<ProviderExecutionStatus, ProviderExecutionError>,
    twice: Result<ProviderExecutionResult, ProviderExecutionError>,
    cancelled: Result<ProviderCancellationOutcome, ProviderExecutionError>,
)
    requires
        call_ensures(ReferenceCpuExecutor::submit, (taker, handle), taken),
        watcher@ == final(taker)@,
        call_ensures(ReferenceCpuExecutor::status, (watcher, handle), seen),
        call_ensures(ReferenceCpuExecutor::cancel, (watcher, handle), cancelled),
        old(ender)@ == watcher@,
        call_ensures(ReferenceCpuExecutor::complete, (ender, handle), ended),
        after@ == final(ender)@,
        call_ensures(ReferenceCpuExecutor::status, (after, handle), gone),
        old(again)@ == after@,
        call_ensures(ReferenceCpuExecutor::complete, (again, handle), twice),
    ensures
        taken is Ok && taken->Ok_0@ == handle@,
        seen is Ok && seen->Ok_0.handle@ == handle@,
        seen->Ok_0.state == SchedulingState::Completed,
        cancelled is Ok && cancelled->Ok_0 == ProviderCancellationOutcome::Unsupported,
        ended is Ok && ended->Ok_0.handle@ == handle@,
        ended->Ok_0.state == SchedulingState::Completed,
        ended->Ok_0.outputs@.len() == 0,
        gone is Err && gone->Err_0.phase == ProviderExecutionPhase::Observe,
        twice is Err && twice->Err_0.phase == ProviderExecutionPhase::Complete,
        gone->Err_0.code == ProviderExecutionErrorCode::ExecutionFailed,
        twice->Err_0.code == ProviderExecutionErrorCode::ExecutionFailed,
        gone->Err_0.provider@ == handle@.provider,
        twice->Err_0.provider@ == handle@.provider,
        final(again)@.storage == old(taker)@.storage,
        final(again)@.observations == old(taker)@.observations,
        final(again)@.kernel_executions == old(taker)@.kernel_executions,
        final(again)@.next_execution_ordinal == old(taker)@.next_execution_ordinal,
        final(again)@.submitted == old(taker)@.submitted.remove(handle@.id),
{
}

/// The result of a kernel that was submitted is handed out once, to whoever has
/// its handle; a handle that stands for no such result is refused.
pub proof fn law_completion_called(
    e: &mut ReferenceCpuExecutor,
    again: &mut ReferenceCpuExecutor,
    handle: &ProviderExecutionHandle,
    r: Result<KernelResult, ProviderExecutionError>,
    twice: Result<KernelResult, ProviderExecutionError>,
)
    requires
        call_ensures(ReferenceCpuExecutor::complete_kernel_invocation, (e, handle), r),
        old(again)@ == final(e)@,
        call_ensures(ReferenceCpuExecutor::complete_kernel_invocation, (again, handle), twice),
    ensures
        r is Ok <==> old(e)@.kernel_executions.contains_key(handle@.id),
        r is Ok ==> r->Ok_0@ == old(e)@.kernel_executions[handle@.id],
        r is Err ==> {
            &&& r->Err_0.code == ProviderExecutionErrorCode::ExecutionFailed
            &&& r->Err_0.phase == ProviderExecutionPhase::Complete
            &&& r->Err_0.provider@ == handle@.provider
        },
        twice is Err,
        final(e)@.storage == old(e)@.storage,
        final(e)@.submitted == old(e)@.submitted,
{
}

/// Fallback is permitted exactly where the policy permits it, nothing is pinned to
/// its provider, and no conversion is needed that is not allowed; whether it is
/// observed or not makes no difference.
pub proof fn law_fallback_called(
    e: &mut ReferenceCpuExecutor,
    kernel: &crate::identity::KernelId,
    affinity: &ResourceAffinity,
    context: &FallbackPolicyContext,
    r: Result<(), ReferenceCpuError>,
    observed: Result<(), ReferenceCpuError>,
)
    requires
        call_ensures(evaluate_fallback, (affinity, context), r),
        call_ensures(
            ReferenceCpuExecutor::evaluate_fallback_observed,
            (e, kernel, affinity, context),
            observed,
        ),
    ensures
        r is Ok <==> {
            &&& context.policy_allows_fallback
            &&& affinity.fallback != crate::affinity::FallbackClass::ProviderPinned
            &&& context.dtype_conversion_required ==> context.dtype_conversion_allowed
            &&& context.layout_conversion_required ==> context.layout_conversion_allowed
        },
        r is Err ==> r->Err_0.code == ReferenceCpuErrorCode::FallbackDenied,
        observed is Ok <==> r is Ok,
        observed is Err ==> observed->Err_0@ == r->Err_0@,
        final(e)@.observations.len() == old(e)@.observations.len() + 2,
        final(e)@.storage == old(e)@.storage,
{
}

/// A context of fallback says what it was made to say, and no more.
pub proof fn law_context_called(
    allows: bool,
    required: bool,
    allowed: bool,
    base: FallbackPolicyContext,
    r: FallbackPolicyContext,
)
    ensures
        call_ensures(FallbackPolicyContext::new, (allows,), r) ==> {
            &&& r.policy_allows_fallback == allows
            &&& !r.dtype_conversion_required && !r.dtype_conversion_allowed
            &&& !r.layout_conversion_required && !r.layout_conversion_allowed
        },
        call_ensures(
            FallbackPolicyContext::with_dtype_conversion,
            (base, required, allowed),
            r,
        ) ==> {
            &&& r.dtype_conversion_required == required
            &&& r.dtype_conversion_allowed == allowed
            &&& r.policy_allows_fallback == base.policy_allows_fallback
            &&& r.layout_conversion_required == base.layout_conversion_required
            &&& r.layout_conversion_allowed == base.layout_conversion_allowed
        },
        call_ensures(
            FallbackPolicyContext::with_layout_conversion,
            (base, required, allowed),
            r,
        ) ==> {
            &&& r.layout_conversion_required == required
            &&& r.layout_conversion_allowed == allowed
            &&& r.policy_allows_fallback == base.policy_allows_fallback
            &&& r.dtype_conversion_required == base.dtype_conversion_required
            &&& r.dtype_conversion_allowed == base.dtype_conversion_allowed
        },
{
}

/// A kernel that is told ready may be called.
pub proof fn law_readiness_called<A: Arithmetic>(
    x: &HostTensor,
    y: &HostTensor,
    z: &HostTensor,
    first: bool,
    second: bool,
    epsilon: u32,
    p: AttentionParams,
    rotation: RopeParams,
    ops: &A,
)
    ensures
        call_ensures(matmul_is_ready, (x, y, first, second), true) ==> call_requires(
            matmul::<A>,
            (ops, x, y, first, second),
        ),
        call_ensures(embedding_is_ready, (x, y), true) ==> call_requires(
            embedding_lookup::<A>,
            (ops, x, y),
        ),
        call_ensures(rmsnorm_is_ready, (x, y, epsilon), true) ==> call_requires(
            rmsnorm::<A>,
            (ops, x, y, epsilon),
        ),
        call_ensures(
            rope_is_ready,
            (
                x,
                rotation.base,
                rotation.scale,
                rotation.dimension,
                rotation.position_offset,
            ),
            true,
        ) ==> call_requires(
            rope::<A>,
            (
                ops,
                x,
                rotation.base,
                rotation.scale,
                rotation.dimension,
                rotation.position_offset,
            ),
        ),
        call_ensures(softmax_is_ready, (x,), true) ==> call_requires(softmax_rows::<A>, (ops, x)),
        call_ensures(
            attention_is_ready,
            (
                x,
                y,
                z,
                p.head_count,
                p.head_dimension,
                p.kv_head_count,
                p.window_size,
                p.causal,
            ),
            true,
        ) ==> call_requires(
            attention::<A>,
            (
                ops,
                x,
                y,
                z,
                p.head_count,
                p.head_dimension,
                p.kv_head_count,
                p.window_size,
                p.causal,
            ),
        ),
{
}

/// A value that the host can see is written and read as its tensor; one that it
/// cannot see is not written. What was observed is told in order.
pub proof fn law_values_called(
    e: &mut ReferenceCpuExecutor,
    reader: &ReferenceCpuExecutor,
    id: String,
    value: TensorValue,
    other: &str,
    r: Option<TensorValue>,
    told: Vec<KernelObservation>,
)
    ensures
        call_ensures(ReferenceCpuExecutor::write_tensor_value, (e, id, value), ()) ==> {
            &&& value is Opaque ==> final(e)@ == old(e)@
            &&& value is Host ==> final(e)@.storage == old(e)@.storage.insert(
                id@,
                value->Host_0@,
            ) && final(e)@.observations == old(e)@.observations
        },
        call_ensures(ReferenceCpuExecutor::read_tensor_value, (reader, other), r) ==> {
            &&& r is Some <==> reader@.storage.contains_key(other@)
            &&& r is Some ==> r->Some_0 is Host && r->Some_0->Host_0@ == reader@.storage[other@]
        },
        call_ensures(ReferenceCpuExecutor::observations, (reader,), told) ==> {
            &&& told@.len() == reader@.observations.len()
            &&& forall|i: int|
                0 <= i < told@.len() ==> (#[trigger] told@[i])@ == reader@.observations[i]
        },
{
    if call_ensures(ReferenceCpuExecutor::observations, (reader,), told) {
        assert forall|i: int| 0 <= i < told@.len() implies (#[trigger] told@[i])@
            == reader@.observations[i] by {
            assert(crate::observation::observed(told@)[i] == told@[i]@);
        }
    }
}

/// An attribute is read where it is given in the kind that is asked for: an
/// integer where it is not negative, a truth value or the default, a number in
/// single precision or the default.
pub proof fn law_attributes_called<A: Arithmetic>(
    ops: &A,
    attributes: &Table<OperatorAttributeValue>,
    key: &str,
    n: Option<u64>,
    truth: bool,
    b: bool,
    default: u32,
    x: u32,
)
    ensures
        ({
            let given = attribute_map(attributes@);
            &&& call_ensures(attribute_integer, (attributes, key), n) ==> {
                &&& n is Some <==> given.contains_key(key@) && given[key@] is Integer
                    && given[key@]->Integer_0 >= 0
                &&& n is Some ==> n->Some_0 == given[key@]->Integer_0
            }
            &&& call_ensures(attribute_bool, (attributes, key, truth), b) ==> {
                &&& given.contains_key(key@) && given[key@] is Boolean ==> b
                    == given[key@]->Boolean_0
                &&& !(given.contains_key(key@) && given[key@] is Boolean) ==> b == truth
            }
            &&& call_ensures(attribute_float::<A>, (ops, attributes, key, default), x) ==> {
                &&& given.contains_key(key@) && given[key@] is Float ==> crate::float::narrows(
                    ops,
                    given[key@]->Float_0,
                    x,
                )
                &&& !(given.contains_key(key@) && given[key@] is Float) ==> x == default
            }
        }),
{
}

} // verus!
