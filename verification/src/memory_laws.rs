//! What calls promise under a memory manager: what is asked of it, and what is
//! done with its reply.

use vstd::prelude::*;

use crate::admission::{
    executes_admitted, next_action, submits_kernel, MemoryAction, MemorySession,
};
use crate::error::KernelError;
use crate::execution::ProviderExecutionHandle;
use crate::executor::{validated, ReferenceCpuExecutor};
use crate::float::Arithmetic;
use crate::identity::REFERENCE_CPU_PROVIDER_NAME;
use crate::invocation::{KernelInvocation, KernelResult, KernelResultStatus};
use crate::memory::{
    MemoryAllocationClass, MemoryAllocationOwner, MemoryAllocationRequest, MemoryLedger, Owner,
    Placement,
};
use crate::tensor::HostTensor;
use crate::text::decimal;

verus! {

/// Before a tensor is written under a memory manager, memory for it is asked for:
/// four bytes for each element, with the provider, for what and for whom the
/// writer says. Where it is denied, nothing is written and the denial is handed
/// on. Where it is given, the tensor is written and backed by it, and the memory
/// that backed the identifier before is given back, if there was any.
pub proof fn law_admitted_write_called<M: MemoryLedger>(
    e: &mut ReferenceCpuExecutor,
    memory: M,
    id: String,
    tensor: HostTensor,
    class: MemoryAllocationClass,
    owner: MemoryAllocationOwner,
    r: (Result<(), M::Denial>, M),
)
    requires
        tensor@.data.len() * 4 <= u64::MAX,
        call_ensures(
            ReferenceCpuExecutor::write_tensor_admitted::<M>,
            (e, memory, id, tensor, class, owner),
            r,
        ),
    ensures
        exists|request: MemoryAllocationRequest, reply: Result<u64, M::Denial>, asked: M|
            {
                &&& #[trigger] call_ensures(M::allocate, (memory, request), (reply, asked))
                &&& request@.size_bytes == 4 * tensor@.data.len()
                &&& request@.class == class
                &&& request@.owner == owner@
                &&& request@.placement == Placement::ProviderOwnedOpaque(
                    REFERENCE_CPU_PROVIDER_NAME@,
                )
                &&& request@.affinity is None
                &&& r.0 is Ok <==> reply is Ok
                &&& reply is Err ==> r.0->Err_0 == reply->Err_0
                &&& reply is Err ==> final(e)@ == old(e)@ && r.1 == asked
                &&& reply is Ok ==> {
                    let before = old(e)@.resource_allocations;
                    &&& final(e)@.storage == old(e)@.storage.insert(id@, tensor@)
                    &&& final(e)@.resource_allocations == before.insert(id@, reply->Ok_0)
                    &&& final(e)@.observations == old(e)@.observations
                    &&& if before.contains_key(id@) {
                        call_ensures(M::release, (asked, before[id@]), r.1)
                    } else {
                        r.1 == asked
                    }
                }
            },
{
    let wanted = crate::memory::tensor_request(tensor@, class, owner@);
    let (reply, asked) = choose|reply: Result<u64, M::Denial>, asked: M|
        {
            &&& #[trigger] crate::memory::obtains(memory, wanted, reply, asked)
            &&& match reply {
                Ok(allocation) => {
                    &&& final(e)@ == crate::executor::writing_admitted(
                        old(e)@,
                        id@,
                        tensor@,
                        allocation,
                    )
                    &&& crate::memory::gives_back(
                        asked,
                        crate::executor::allocation_of(old(e)@, id@),
                        r.1,
                    )
                    &&& r.0 is Ok
                },
                Err(x) => final(e)@ == old(e)@ && r.1 == asked && r.0 == Err::<(), M::Denial>(x),
            }
        };
    let request = choose|q: MemoryAllocationRequest|
        q@ == wanted && #[trigger] call_ensures(M::allocate, (memory, q), (reply, asked));
    assert(call_ensures(M::allocate, (memory, request), (reply, asked)));
}

/// Releasing a tensor under a memory manager tells whether there was one, drops
/// it, and gives back the memory that backs it, if any does.
pub proof fn law_admitted_release_called<M: MemoryLedger>(
    e: &mut ReferenceCpuExecutor,
    memory: M,
    id: &str,
    r: (bool, M),
)
    requires
        call_ensures(
            ReferenceCpuExecutor::release_admitted_tensor::<M>,
            (e, memory, id),
            r,
        ),
    ensures
        r.0 <==> old(e)@.storage.contains_key(id@),
        final(e)@.storage == old(e)@.storage.remove(id@),
        final(e)@.resource_allocations == old(e)@.resource_allocations.remove(id@),
        final(e)@.observations == old(e)@.observations,
        if old(e)@.resource_allocations.contains_key(id@) {
            call_ensures(M::release, (memory, old(e)@.resource_allocations[id@]), r.1)
        } else {
            r.1 == memory
        },
{
}

/// Scratch space is asked for of the memory manager as it is wanted: in the host,
/// owned by the provider. What comes back is its reply.
pub proof fn law_workspace_called<M: MemoryLedger>(
    e: &ReferenceCpuExecutor,
    memory: M,
    size_bytes: u64,
    r: (Result<u64, M::Denial>, M),
) -> (request: MemoryAllocationRequest)
    requires
        call_ensures(
            ReferenceCpuExecutor::allocate_workspace::<M>,
            (e, memory, size_bytes),
            r,
        ),
    ensures
        call_ensures(M::allocate, (memory, request), r),
        request@.size_bytes == size_bytes,
        request@.class == MemoryAllocationClass::TemporaryWorkspace,
        request@.placement == Placement::HostOrdinary,
        request@.owner == Owner::Provider(REFERENCE_CPU_PROVIDER_NAME@),
        request@.affinity is None,
{
    let request = choose|q: MemoryAllocationRequest|
        q@ == crate::memory::workspace_request(size_bytes) && #[trigger] call_ensures(
            M::allocate,
            (memory, q),
            (r.0, r.1),
        );
    request
}

/// An execution under a memory manager is one of the invocation that is given,
/// with what its validation found, where the executor and the memory manager
/// stand.
pub proof fn law_admitted_execution_called<A: Arithmetic, M: MemoryLedger>(
    e: &mut ReferenceCpuExecutor,
    ops: &A,
    invocation: &KernelInvocation,
    validation: Result<(), KernelError>,
    browser: bool,
    memory: M,
    r: (KernelResult, M),
)
    requires
        call_ensures(
            ReferenceCpuExecutor::execute_invocation_with_memory_manager::<A, M>,
            (e, ops, invocation, validation, browser, memory),
            r,
        ),
    ensures
        validation is Ok ==> executes_admitted(
            ops,
            invocation@,
            None,
            browser,
            old(e)@,
            memory,
            final(e)@,
            r.1,
            r.0@,
        ),
        validation is Err ==> executes_admitted(
            ops,
            invocation@,
            Some(validation->Err_0@),
            browser,
            old(e)@,
            memory,
            final(e)@,
            r.1,
            r.0@,
        ),
{
}

/// A kernel that is submitted is executed at once, under a handle that names the
/// provider, the invocation and the number of the execution. What it came to is
/// kept under that handle, and is what its completion then hands out.
pub proof fn law_kernel_submission_called<A: Arithmetic, M: MemoryLedger>(
    e: &mut ReferenceCpuExecutor,
    ops: &A,
    invocation: &KernelInvocation,
    validation: Result<(), KernelError>,
    browser: bool,
    memory: M,
    r: (ProviderExecutionHandle, M),
    ender: &mut ReferenceCpuExecutor,
    ended: Result<KernelResult, crate::execution::ProviderExecutionError>,
)
    requires
        call_ensures(
            ReferenceCpuExecutor::submit_kernel_invocation::<A, M>,
            (e, ops, invocation, validation, browser, memory),
            r,
        ),
        old(ender)@ == final(e)@,
        call_ensures(
            ReferenceCpuExecutor::complete_kernel_invocation,
            (ender, &r.0),
            ended,
        ),
    ensures
        r.0@.id == REFERENCE_CPU_PROVIDER_NAME@ + ":"@ + invocation@.id + ":"@ + decimal(
            old(e)@.next_execution_ordinal as nat,
        ),
        r.0@.plan == invocation@.id,
        r.0@.provider == REFERENCE_CPU_PROVIDER_NAME@,
        r.0@.device is None,
        ended is Ok,
        ended->Ok_0@.invocation == invocation@.id,
        invocation@.deadline_millis == Some(0u64) ==> ended->Ok_0@.status
            == KernelResultStatus::Failed,
        validation is Err ==> ended->Ok_0@.status == KernelResultStatus::Failed,
        submits_kernel(
            ops,
            invocation@,
            validated(validation),
            browser,
            old(e)@,
            memory,
            final(e)@,
            r.1,
        ),
{
    let refusal = validated(validation);
    let x = old(e)@;
    let (executed, outcome) = choose|
        executed: crate::executor::ExecutorState,
        outcome: crate::invocation::Outcome,
    |
        {
            &&& #[trigger] executes_admitted(
                ops,
                invocation@,
                refusal,
                browser,
                crate::executor::numbering(x),
                memory,
                executed,
                r.1,
                outcome,
            )
            &&& final(e)@ == crate::executor::recording(
                executed,
                crate::executor::kernel_handle(x, invocation@).id,
                outcome,
            )
        };
    let w = crate::admission_laws::law_admission_calls(
        ops,
        invocation@,
        refusal,
        browser,
        crate::executor::numbering(x),
        memory,
        executed,
        r.1,
        outcome,
    );
    if w.0.len() == invocation@.outputs.len() {
        if invocation@.deadline_millis == Some(0u64) || refusal is Some {
            crate::executor_laws::law_execution_refused(
                ops,
                invocation@,
                refusal,
                browser,
                crate::executor::numbering(x),
                executed,
                outcome,
            );
        } else {
            let v = crate::executor_laws::law_execution_runs(
                ops,
                invocation@,
                browser,
                crate::executor::numbering(x),
                executed,
                outcome,
            );
        }
    }
}

/// The steps of a session are those that its state calls for. It begins without
/// memory; memory that is given is for the next output; a denial ends it; and each
/// settlement that is performed is one less to perform.
pub proof fn law_session_called<A: Arithmetic>(
    s: &mut MemorySession,
    e: &mut ReferenceCpuExecutor,
    ops: &A,
    invocation: &KernelInvocation,
    validation: Result<(), KernelError>,
    browser: bool,
    allocation: u64,
    why: &str,
    begun: MemorySession,
)
    ensures
        call_ensures(
            MemorySession::begin::<A>,
            (e, ops, invocation, validation, browser),
            begun,
        ) ==> {
            &&& begun@.admitted.len() == 0
            &&& begun@.result is None ==> final(e)@ == old(e)@ && invocation@.outputs.len() > 0
        },
        call_ensures(
            MemorySession::allocated::<A>,
            (s, e, ops, invocation, browser, allocation),
            (),
        ) ==> {
            &&& final(s)@.admitted == old(s)@.admitted.push(allocation)
            &&& final(s)@.result is None ==> final(e)@ == old(e)@ && final(s)@.admitted.len()
                < invocation@.outputs.len()
        },
        call_ensures(MemorySession::denied, (s, e, invocation, why), ()) ==> {
            let failed = final(s)@.result;
            &&& failed is Some && failed->Some_0.status == KernelResultStatus::Failed
            &&& failed->Some_0.invocation == invocation@.id
            &&& failed->Some_0.error is Some && failed->Some_0.error->Some_0.detail
                == "memory admission denied for output "@
                + invocation@.outputs[old(s)@.admitted.len() as int].id + ": "@ + why@
            &&& final(s)@.admitted == old(s)@.admitted
            &&& final(s)@.pending.len() == old(s)@.admitted.len()
            &&& final(s)@.done == 0
            &&& final(e)@.storage == old(e)@.storage
            &&& final(e)@.observations.len() == old(e)@.observations.len() + 1
        },
        call_ensures(MemorySession::performed, (s, invocation), ()) ==> {
            &&& final(s)@.done == old(s)@.done + 1
            &&& final(s)@.pending == old(s)@.pending
            &&& final(s)@.result == old(s)@.result
            &&& final(s)@.admitted == old(s)@.admitted
        },
{
}

/// What a session tells: whether it waits for memory, whether there is something
/// to settle, what is asked for next, and in the end the result.
pub proof fn law_session_told(
    s: MemorySession,
    invocation: &KernelInvocation,
    b: bool,
    action: MemoryAction,
    r: Option<KernelResult>,
)
    ensures
        call_ensures(MemorySession::waits, (&s,), b) ==> b == (s@.result is None),
        call_ensures(MemorySession::settles, (&s,), b) ==> b == (s@.done < s@.pending.len()),
        call_ensures(MemorySession::action, (&s, invocation), action) ==> action@ == next_action(
            invocation@,
            s@,
        ),
        call_ensures(MemorySession::finish, (s,), r) ==> {
            &&& r is Some <==> s@.result is Some
            &&& r is Some ==> r->Some_0@ == s@.result->Some_0
        },
{
}

} // verus!
