//! What the executor promises: an execution stores what the named kernel gives
//! of the named tensors, and every other operation changes what it is about and
//! nothing else.

use vstd::prelude::*;

use crate::affinity::Affinity;
use crate::dispatch::{call_gives, prepares, Call};
use crate::error::{
    fault_of, kernel_error_id, reference_cpu_error_id, KernelErrorCode, KernelFault,
    ReferenceCpuError,
};
use crate::execution::{
    no_execution, Handle, ProviderExecutionErrorCode, ProviderExecutionPhase,
};
use crate::executor::{
    call_stores, completing, completing_kernel, end_outcome, end_state, executes, fallback_state,
    initial_state, kernel_handle, numbering, observing, recording, releasing, releasing_admitted,
    run_gives, stores, submitting, writing, writing_admitted, ExecutorState,
};
use crate::fallback::{fallback_refusal, FallbackPolicyContext};
use crate::float::Arithmetic;
use crate::identity::{
    kernel_key, Kernel, REFERENCE_CPU_DEVICE_ID, REFERENCE_CPU_PROVIDER_NAME,
};
use crate::invocation::{Invocation, KernelResultStatus, Outcome};
use crate::kernels::attention::attention_gives;
use crate::kernels::elementwise::{add_gives, gelu_gives, mul_gives, silu_gives};
use crate::kernels::embedding::embedding_gives;
use crate::kernels::matmul::matmul_gives;
use crate::kernels::rmsnorm::rmsnorm_gives;
use crate::kernels::rope::rope_gives;
use crate::kernels::softmax::softmax_gives;
use crate::observation::{KernelObservationKind, Observation};
use crate::provider::initialised;
use crate::tensor::{HostTensor, Tensor};
use crate::text::decimal;

verus! {

/// Each call gives what the kernel of its name gives of its tensors and
/// parameters.
pub proof fn law_call_kernels<A: Arithmetic>(
    ops: &A,
    call: Call,
    r: Result<HostTensor, ReferenceCpuError>,
)
    requires
        call_gives(ops, call, r),
    ensures
        call matches Call::Matmul { a, b, transpose_a, transpose_b } ==> matmul_gives(
            ops,
            a,
            b,
            transpose_a,
            transpose_b,
            r,
        ),
        call matches Call::Embedding { table, ids } ==> embedding_gives(ops, table, ids, r),
        call matches Call::RmsNorm { input, weight, epsilon } ==> rmsnorm_gives(
            ops,
            input,
            weight,
            epsilon,
            r,
        ),
        call matches Call::Rope { input, rotation } ==> rope_gives(ops, input, rotation, r),
        call matches Call::Attention { q, k, v, params } ==> attention_gives(
            ops,
            q,
            k,
            v,
            params,
            r,
        ),
        call matches Call::Softmax { input } ==> softmax_gives(ops, input, r),
        call matches Call::Silu { input } ==> r is Ok && silu_gives(ops, input, r->Ok_0@),
        call matches Call::Gelu { input } ==> r is Ok && gelu_gives(ops, input, r->Ok_0@),
        call matches Call::Add { a, b } ==> add_gives(ops, a, b, r),
        call matches Call::Mul { a, b } ==> mul_gives(ops, a, b, r),
        call matches Call::ResidualAdd { input, residual } ==> add_gives(ops, input, residual, r),
        call matches Call::DTypeConversion { input } ==> r is Ok && r->Ok_0@ == input,
        call matches Call::LayoutConversion { input } ==> r is Ok && r->Ok_0@ == input,
{
}

/// How an execution that comes to run ends: the call that the invocation asks
/// for is prepared from the tensors that are stored, the kernel is called, and
/// what it gives is stored under the identifier of the first output, and nowhere
/// else. Where no call can be prepared, or the kernel refuses, or there is no
/// output, the execution fails, says why, and stores nothing.
///
/// The call and what the kernel gives are handed out.
pub proof fn law_execution_runs<A: Arithmetic>(
    ops: &A,
    inv: Invocation,
    browser: bool,
    s: ExecutorState,
    after: ExecutorState,
    r: Outcome,
) -> (w: (Result<Call, KernelFault>, Result<HostTensor, ReferenceCpuError>))
    requires
        inv.deadline_millis != Some(0u64),
        executes(ops, inv, None, browser, s, after, r),
    ensures
        ({
            let (call, out) = w;
            &&& r.invocation == inv.id
            &&& prepares(ops, inv, s.storage, browser, call)
            &&& call is Ok ==> call_gives(ops, call->Ok_0, out)
            &&& if call is Ok && out is Ok && inv.outputs.len() > 0 {
                let id = inv.outputs[0].id;
                &&& r.status == KernelResultStatus::Succeeded
                &&& r.error is None
                &&& r.updated_resources == seq![inv.outputs[0]]
                &&& r.output_readiness == seq![(id, true)]
                &&& after.storage.contains_key(id)
                &&& after.storage[id] == out->Ok_0@
                &&& forall|other: Seq<char>|
                    other != id ==> {
                        &&& #[trigger] after.storage.contains_key(other)
                            == s.storage.contains_key(other)
                        &&& after.storage[other] == s.storage[other]
                    }
            } else {
                &&& r.status == KernelResultStatus::Failed
                &&& r.updated_resources.len() == 0
                &&& r.output_readiness.len() == 0
                &&& after.storage == s.storage
                &&& call matches Err(f) ==> r.error == Some(f)
                &&& call is Ok && out is Err ==> r.error == Some(fault_of(out->Err_0@))
                &&& call is Ok && out is Ok ==> {
                    &&& r.error is Some
                    &&& r.error->Some_0.code == KernelErrorCode::KernelExecutionFailed
                    &&& r.error->Some_0.detail == "missing output at index "@ + decimal(0)
                    &&& r.error->Some_0.found is None
                }
            }
        }),
{
    let (storage, end) = choose|
        storage: Map<Seq<char>, Tensor>,
        end: Result<Outcome, KernelFault>,
    |
        {
            &&& #[trigger] run_gives(ops, inv, browser, s.storage, storage, end)
            &&& after == end_state(s, inv, storage, end)
            &&& r == end_outcome(inv, end)
        };
    let call = choose|call: Result<Call, KernelFault>|
        {
            &&& #[trigger] prepares(ops, inv, s.storage, browser, call)
            &&& match call {
                Err(f) => storage == s.storage && end == Err::<Outcome, KernelFault>(f),
                Ok(c) => call_stores(ops, c, inv, s.storage, storage, end),
            }
        };
    if call is Ok {
        let out = choose|out: Result<HostTensor, ReferenceCpuError>| #[trigger]
            call_gives(ops, call->Ok_0, out) && stores(inv, s.storage, out, storage, end);
        (call, out)
    } else {
        (call, arbitrary())
    }
}

/// An execution whose deadline has passed fails as timed out, whatever else is
/// wrong with it; one that was found invalid fails with what was found. Neither
/// calls a kernel or stores anything.
pub proof fn law_execution_refused<A: Arithmetic>(
    ops: &A,
    inv: Invocation,
    refusal: Option<KernelFault>,
    browser: bool,
    s: ExecutorState,
    after: ExecutorState,
    r: Outcome,
)
    requires
        inv.deadline_millis == Some(0u64) || refusal is Some,
        executes(ops, inv, refusal, browser, s, after, r),
    ensures
        r.invocation == inv.id,
        r.status == KernelResultStatus::Failed,
        r.updated_resources.len() == 0,
        r.output_readiness.len() == 0,
        r.error is Some,
        inv.deadline_millis == Some(0u64) ==> {
            &&& r.error->Some_0.code == KernelErrorCode::KernelTimeout
            &&& r.error->Some_0.detail.len() == 0
            &&& r.error->Some_0.found is None
        },
        inv.deadline_millis != Some(0u64) ==> r.error == refusal,
        after.storage == s.storage,
        after.submitted == s.submitted,
        after.kernel_executions == s.kernel_executions,
        after.resource_allocations == s.resource_allocations,
        after.next_execution_ordinal == s.next_execution_ordinal,
{
}

/// An execution is observed by its start and its end, in this order, both of
/// which name the kernel and the invocation. The end tells whether it timed out,
/// failed or was completed, and by what it failed.
pub proof fn law_execution_told<A: Arithmetic>(
    ops: &A,
    inv: Invocation,
    refusal: Option<KernelFault>,
    browser: bool,
    s: ExecutorState,
    after: ExecutorState,
    r: Outcome,
)
    requires
        executes(ops, inv, refusal, browser, s, after, r),
    ensures
        ({
            let n = s.observations.len() as int;
            let start = after.observations[n];
            let end = after.observations[n + 1];
            &&& after.observations.len() == n + 2
            &&& forall|i: int| 0 <= i < n ==> #[trigger] after.observations[i] == s.observations[i]
            &&& start.kind == KernelObservationKind::KernelDispatchStarted
            &&& start.invocation == Some(inv.id) && end.invocation == Some(inv.id)
            &&& start.kernel == Some(kernel_key(inv.kernel)) && start.kernel == end.kernel
            &&& start.metadata.len() == 0
            &&& end.metadata == if inv.deadline_millis != Some(0u64) && r.error is Some {
                seq![("error"@, kernel_error_id(r.error->Some_0.code))]
            } else {
                seq![]
            }
            &&& end.kind == if inv.deadline_millis == Some(0u64) {
                KernelObservationKind::KernelTimeout
            } else if r.status == KernelResultStatus::Succeeded {
                KernelObservationKind::KernelDispatchCompleted
            } else {
                KernelObservationKind::KernelDispatchFailed
            }
        }),
{
    if inv.deadline_millis != Some(0u64) && refusal is None {
        let w = law_execution_runs(ops, inv, browser, s, after, r);
    }
    let end = after.observations[s.observations.len() as int + 1];
    if inv.deadline_millis != Some(0u64) && r.error is Some {
        assert(end.metadata =~= seq![("error"@, kernel_error_id(r.error->Some_0.code))]);
    } else {
        assert(end.metadata =~= seq![]);
    }
}

/// Writing and dropping a tensor change that tensor and nothing else.
pub proof fn law_tensor_changes(
    s: ExecutorState,
    id: Seq<char>,
    tensor: Tensor,
    allocation: u64,
    other: Seq<char>,
)
    ensures
        ({
            let written = writing(s, id, tensor);
            let dropped = releasing(s, id);
            let admitted = writing_admitted(s, id, tensor, allocation);
            let released = releasing_admitted(s, id);
            let tables = |t: ExecutorState|
                {
                    &&& t.observations == s.observations
                    &&& t.submitted == s.submitted
                    &&& t.kernel_executions == s.kernel_executions
                    &&& t.next_execution_ordinal == s.next_execution_ordinal
                };
            &&& written.storage.contains_key(id) && written.storage[id] == tensor
            &&& admitted.storage.contains_key(id) && admitted.storage[id] == tensor
            &&& !dropped.storage.contains_key(id) && !released.storage.contains_key(id)
            &&& other != id ==> {
                &&& written.storage.contains_key(other) == s.storage.contains_key(other)
                &&& admitted.storage.contains_key(other) == s.storage.contains_key(other)
                &&& dropped.storage.contains_key(other) == s.storage.contains_key(other)
                &&& released.storage.contains_key(other) == s.storage.contains_key(other)
                &&& written.storage[other] == s.storage[other]
                &&& admitted.storage[other] == s.storage[other]
                &&& s.storage.contains_key(other) ==> dropped.storage[other] == s.storage[other]
                &&& s.storage.contains_key(other) ==> released.storage[other] == s.storage[other]
                &&& admitted.resource_allocations.contains_key(other)
                    == s.resource_allocations.contains_key(other)
                &&& released.resource_allocations.contains_key(other)
                    == s.resource_allocations.contains_key(other)
                &&& s.resource_allocations.contains_key(other) ==> {
                    &&& admitted.resource_allocations[other] == s.resource_allocations[other]
                    &&& released.resource_allocations[other] == s.resource_allocations[other]
                }
            }
            &&& admitted.resource_allocations.contains_key(id)
            &&& admitted.resource_allocations[id] == allocation
            &&& !released.resource_allocations.contains_key(id)
            &&& written.resource_allocations == s.resource_allocations
            &&& dropped.resource_allocations == s.resource_allocations
            &&& tables(written) && tables(dropped) && tables(admitted) && tables(released)
        }),
{
}

/// Taking, recording, completing and numbering an execution, and observing
/// something, change what they are about and nothing else. Numbers go up by one,
/// and start again after the last.
pub proof fn law_execution_changes(
    s: ExecutorState,
    inv: Invocation,
    id: Seq<char>,
    other: Seq<char>,
    outcome: Outcome,
    o: Observation,
)
    ensures
        ({
            let taken = submitting(s, id);
            let ended = completing(s, id);
            let recorded = recording(s, id, outcome);
            let handed = completing_kernel(s, id);
            let numbered = numbering(s);
            let seen = observing(s, o);
            let tensors = |t: ExecutorState|
                t.storage == s.storage && t.resource_allocations == s.resource_allocations;
            &&& tensors(taken) && tensors(ended) && tensors(recorded)
            &&& tensors(handed) && tensors(numbered) && tensors(seen)
            &&& taken.submitted.contains(id) && !ended.submitted.contains(id)
            &&& recorded.kernel_executions.contains_key(id)
            &&& recorded.kernel_executions[id] == outcome
            &&& !handed.kernel_executions.contains_key(id)
            &&& other != id ==> {
                &&& taken.submitted.contains(other) == s.submitted.contains(other)
                &&& ended.submitted.contains(other) == s.submitted.contains(other)
                &&& recorded.kernel_executions.contains_key(other)
                    == s.kernel_executions.contains_key(other)
                &&& handed.kernel_executions.contains_key(other)
                    == s.kernel_executions.contains_key(other)
                &&& s.kernel_executions.contains_key(other) ==> {
                    &&& recorded.kernel_executions[other] == s.kernel_executions[other]
                    &&& handed.kernel_executions[other] == s.kernel_executions[other]
                }
            }
            &&& taken.kernel_executions == s.kernel_executions
            &&& ended.kernel_executions == s.kernel_executions
            &&& recorded.submitted == s.submitted && handed.submitted == s.submitted
            &&& numbered.submitted == s.submitted && numbered.kernel_executions
                == s.kernel_executions
            &&& numbered.next_execution_ordinal as int == (s.next_execution_ordinal + 1)
                % 0x1_0000_0000_0000_0000
            &&& taken.next_execution_ordinal == s.next_execution_ordinal
            &&& ended.next_execution_ordinal == s.next_execution_ordinal
            &&& recorded.next_execution_ordinal == s.next_execution_ordinal
            &&& handed.next_execution_ordinal == s.next_execution_ordinal
            &&& taken.observations == s.observations && ended.observations == s.observations
            &&& recorded.observations == s.observations && handed.observations == s.observations
            &&& numbered.observations == s.observations
            &&& seen.observations.len() == s.observations.len() + 1
            &&& seen.observations.last() == o
            &&& forall|i: int|
                0 <= i < s.observations.len() ==> #[trigger] seen.observations[i]
                    == s.observations[i]
            &&& kernel_handle(s, inv).plan == inv.id
            &&& kernel_handle(s, inv).provider == REFERENCE_CPU_PROVIDER_NAME@
            &&& kernel_handle(s, inv).device is None
            &&& kernel_handle(s, inv).operation == numbered.next_execution_ordinal
            &&& kernel_handle(s, inv).id == REFERENCE_CPU_PROVIDER_NAME@ + ":"@ + inv.id + ":"@
                + decimal(s.next_execution_ordinal as nat)
        }),
{
}

/// The evaluation of fallback is observed by two observations that name the
/// kernel: that it was considered, and that it was used, or why it failed.
pub proof fn law_fallback_told(
    s: ExecutorState,
    kernel: Kernel,
    affinity: Affinity,
    context: FallbackPolicyContext,
)
    ensures
        ({
            let after = fallback_state(s, kernel, affinity, context);
            let n = s.observations.len() as int;
            let first = after.observations[n];
            let second = after.observations[n + 1];
            let refusal = fallback_refusal(affinity, context);
            &&& after.observations.len() == n + 2
            &&& forall|i: int| 0 <= i < n ==> #[trigger] after.observations[i] == s.observations[i]
            &&& first.kind == KernelObservationKind::KernelFallbackConsidered
            &&& first.kernel == Some(kernel_key(kernel))
            &&& first.metadata.len() == 0
            &&& second.kernel == Some(kernel_key(kernel))
            &&& refusal is None ==> {
                &&& second.kind == KernelObservationKind::KernelFallbackUsed
                &&& second.metadata.len() == 0
            }
            &&& refusal is Some ==> {
                &&& second.kind == KernelObservationKind::KernelFallbackFailed
                &&& second.metadata == seq![
                    ("error"@, reference_cpu_error_id(refusal->Some_0.code)),
                ]
            }
            &&& after.storage == s.storage
            &&& after.submitted == s.submitted
            &&& after.kernel_executions == s.kernel_executions
            &&& after.resource_allocations == s.resource_allocations
            &&& after.next_execution_ordinal == s.next_execution_ordinal
        }),
{
    let refusal = fallback_refusal(affinity, context);
    let after = fallback_state(s, kernel, affinity, context);
    if refusal is Some {
        assert(after.observations[s.observations.len() as int + 1].metadata =~= seq![
            ("error"@, reference_cpu_error_id(refusal->Some_0.code)),
        ]);
    }
}

/// An executor starts with nothing: no tensor, no observation, no execution, and
/// the number zero.
pub proof fn law_starts_empty(id: Seq<char>)
    ensures
        ({
            let s = initial_state();
            &&& !s.storage.contains_key(id)
            &&& !s.resource_allocations.contains_key(id)
            &&& !s.kernel_executions.contains_key(id)
            &&& !s.submitted.contains(id)
            &&& s.observations.len() == 0
            &&& s.next_execution_ordinal == 0
        }),
{
}

/// A handle that stands for nothing is refused as a failed execution, at what was
/// to be done with it, with the provider and the device that it names.
pub proof fn law_handle_refused(
    handle: Handle,
    phase: ProviderExecutionPhase,
    message: Seq<char>,
)
    ensures
        ({
            let f = no_execution(handle, phase, message);
            &&& f.code == ProviderExecutionErrorCode::ExecutionFailed
            &&& f.phase == phase
            &&& f.provider == handle.provider
            &&& f.device == handle.device
            &&& f.message == message
        }),
{
}

/// A provider that is initialised observes that it was registered and that its
/// device was found, in this order, each by name, and changes nothing else.
pub proof fn law_initialised_told(s: ExecutorState)
    ensures
        ({
            let after = initialised(s);
            let n = s.observations.len() as int;
            let first = after.observations[n];
            let second = after.observations[n + 1];
            &&& after.observations.len() == n + 2
            &&& forall|i: int| 0 <= i < n ==> #[trigger] after.observations[i] == s.observations[i]
            &&& first.kind == KernelObservationKind::ProviderRegistered
            &&& first.metadata == seq![("provider"@, REFERENCE_CPU_PROVIDER_NAME@)]
            &&& second.kind == KernelObservationKind::DeviceDetected
            &&& second.metadata == seq![("device"@, REFERENCE_CPU_DEVICE_ID@)]
            &&& first.kernel is None && second.kernel is None
            &&& first.invocation is None && second.invocation is None
            &&& after.storage == s.storage
            &&& after.submitted == s.submitted
            &&& after.kernel_executions == s.kernel_executions
            &&& after.resource_allocations == s.resource_allocations
            &&& after.next_execution_ordinal == s.next_execution_ordinal
        }),
{
    let after = initialised(s);
    let n = s.observations.len() as int;
    assert(after.observations[n].metadata =~= seq![("provider"@, REFERENCE_CPU_PROVIDER_NAME@)]);
    assert(after.observations[n + 1].metadata =~= seq![("device"@, REFERENCE_CPU_DEVICE_ID@)]);
}

} // verus!
