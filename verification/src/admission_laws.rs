//! What execution under a memory manager promises, call by call: what is asked
//! of the memory manager, in which order, and what becomes of what it gave.

use vstd::prelude::*;

use crate::admission::{
    admits, allocates, comes_to, denies, executes_admitted, law_admitted_execution, next_action,
    releases, settled, settlement, settles, settles_first, submits_kernel, Action, Session,
    Settlement,
};
use crate::error::{KernelErrorCode, KernelFault};
use crate::executor::{
    executes, kernel_handle, law_execution, numbering, recording, ExecutorState,
};
use crate::float::Arithmetic;
use crate::identity::{kernel_key, REFERENCE_CPU_PROVIDER_NAME};
use crate::invocation::{Invocation, KernelResultStatus, Outcome, Resource};
use crate::memory::{
    MemoryAllocationClass, MemoryAllocationRequest, MemoryLedger, Owner, Placement, TensorResidency,
};
use crate::observation::KernelObservationKind;

verus! {

/// What is asked for an output: memory for a tensor of its size, with the
/// provider, owned by it, and bound to what the output is bound to.
pub open spec fn asks_for(request: MemoryAllocationRequest, output: Resource) -> bool {
    &&& request@.class == MemoryAllocationClass::Tensor
    &&& output.byte_size == Ok::<u64, Seq<char>>(request@.size_bytes)
    &&& request@.placement == Placement::ProviderOwnedOpaque(REFERENCE_CPU_PROVIDER_NAME@)
    &&& request@.owner == Owner::Provider(REFERENCE_CPU_PROVIDER_NAME@)
    &&& request@.affinity == Some(output.affinity)
}

/// The memory manager is asked for memory for an output, and denies it. The words
/// are those that name the output and describe the denial.
pub open spec fn is_denied<M: MemoryLedger>(
    memory: M,
    output: Resource,
    after: M,
    words: Seq<char>,
) -> bool {
    exists|request: MemoryAllocationRequest, denial: M::Denial, why: String|
        {
            &&& asks_for(request, output)
            &&& #[trigger] call_ensures(M::allocate, (memory, request), (Err(denial), after))
            &&& #[trigger] call_ensures(M::describe, (&denial,), why)
            &&& words == "memory admission denied for output "@ + output.id + ": "@ + why@
        }
}

/// It is recorded that an output is with the provider, in the given memory, and
/// bound to what it is bound to.
pub open spec fn is_located<M: MemoryLedger>(
    memory: M,
    output: Resource,
    allocation: u64,
    after: M,
) -> bool {
    exists|residency: TensorResidency|
        {
            &&& residency@.tensor == output.id
            &&& residency@.placement == Placement::ProviderOwnedOpaque(
                REFERENCE_CPU_PROVIDER_NAME@,
            )
            &&& residency@.affinity == output.affinity
            &&& residency@.allocation == allocation
            &&& #[trigger] call_ensures(M::record_residency, (memory, residency), after)
        }
}

/// The calls by which memory was admitted.
proof fn lemma_admitted<M: MemoryLedger>(
    inv: Invocation,
    memory: M,
    admitted: Seq<u64>,
    after: M,
) -> (w: (Seq<M>, Seq<MemoryAllocationRequest>))
    requires
        admits(inv, memory, admitted, after),
        forall|i: int| 0 <= i < admitted.len() ==> (#[trigger] inv.outputs[i]).byte_size is Ok,
    ensures
        ({
            let (asked, requests) = w;
            &&& asked.len() == admitted.len() + 1
            &&& requests.len() == admitted.len()
            &&& asked[0] == memory
            &&& asked[admitted.len() as int] == after
            &&& forall|i: int|
                0 <= i < admitted.len() ==> {
                    &&& asks_for(#[trigger] requests[i], inv.outputs[i])
                    &&& call_ensures(
                        M::allocate,
                        (asked[i], requests[i]),
                        (Ok(admitted[i]), asked[i + 1]),
                    )
                }
        }),
    decreases admitted.len(),
{
    if admitted.len() == 0 {
        (seq![memory], seq![])
    } else {
        let last = admitted.len() - 1;
        let before = choose|before: M|
            {
                &&& admits(inv, memory, admitted.drop_last(), before)
                &&& #[trigger] allocates(before, inv.outputs[last], Ok(admitted[last]), after)
            };
        let (asked, requests) = lemma_admitted(inv, memory, admitted.drop_last(), before);
        let request = crate::memory::output_request(
            inv.outputs[last].byte_size->Ok_0,
            inv.outputs[last].affinity,
        );
        let r = choose|r: MemoryAllocationRequest|
            r@ == request && #[trigger] call_ensures(
                M::allocate,
                (before, r),
                (Ok(admitted[last]), after),
            );
        assert(inv.outputs[last].byte_size is Ok);
        let asked2 = asked.push(after);
        let requests2 = requests.push(r);
        assert forall|i: int| 0 <= i < admitted.len() implies {
            &&& asks_for(#[trigger] requests2[i], inv.outputs[i])
            &&& call_ensures(
                M::allocate,
                (asked2[i], requests2[i]),
                (Ok(admitted[i]), asked2[i + 1]),
            )
        } by {
            if i < last {
                assert(requests[i] == requests2[i]);
                assert(admitted.drop_last()[i] == admitted[i]);
            }
        }
        (asked2, requests2)
    }
}

/// The calls by which memory was released.
proof fn lemma_released<M: MemoryLedger>(
    inv: Invocation,
    memory: M,
    admitted: Seq<u64>,
    n: nat,
    after: M,
) -> (left: Seq<M>)
    requires
        n <= admitted.len(),
        settles_first(inv, memory, releases(admitted), n, after),
    ensures
        left.len() == n + 1,
        left[0] == memory,
        left[n as int] == after,
        forall|i: int|
            0 <= i < n ==> call_ensures(
                M::release,
                (left[i], admitted[i]),
                #[trigger] left[i + 1],
            ),
    decreases n,
{
    if n == 0 {
        seq![memory]
    } else {
        let before = choose|before: M|
            {
                &&& settles_first(inv, memory, releases(admitted), (n - 1) as nat, before)
                &&& #[trigger] settles(inv, before, releases(admitted)[n - 1], after)
            };
        let left = lemma_released(inv, memory, admitted, (n - 1) as nat, before);
        let left2 = left.push(after);
        assert forall|i: int| 0 <= i < n implies call_ensures(
            M::release,
            (left2[i], admitted[i]),
            #[trigger] left2[i + 1],
        ) by {
            if i < n - 1 {
                assert(left2[i + 1] == left[i + 1]);
            }
        }
        left2
    }
}

/// The call by which memory was denied.
proof fn lemma_denied<M: MemoryLedger>(
    inv: Invocation,
    memory: M,
    given: Seq<u64>,
    end: M,
    r: Outcome,
) -> (w: (M, MemoryAllocationRequest, M::Denial))
    requires
        denies(inv, memory, given, end, r),
        inv.outputs[given.len() as int].byte_size is Ok,
    ensures
        admits(inv, memory, given, w.0),
        asks_for(w.1, inv.outputs[given.len() as int]),
        call_ensures(M::allocate, (w.0, w.1), (Err(w.2), end)),
        r.error is Some,
        is_denied(w.0, inv.outputs[given.len() as int], end, r.error->Some_0.detail),
{
    let output = inv.outputs[given.len() as int];
    let (before, why) = choose|before: M, why: Seq<char>|
        {
            &&& admits(inv, memory, given, before)
            &&& #[trigger] allocates(before, output, Err(why), end)
            &&& r == crate::invocation::failure(
                inv.id,
                crate::admission::denied_fault(output.id, why),
            )
        };
    let request = crate::memory::output_request(output.byte_size->Ok_0, output.affinity);
    let denial = choose|denial: M::Denial| #[trigger]
        crate::memory::obtains(before, request, Err(denial), end)
            && crate::admission::describes::<M>(denial, why);
    assert(crate::memory::obtains(before, request, Err(denial), end));
    let q = choose|q: MemoryAllocationRequest|
        q@ == request && #[trigger] call_ensures(M::allocate, (before, q), (Err(denial), end));
    let told = choose|words: String|
        words@ == why && #[trigger] call_ensures(M::describe, (&denial,), words);
    assert(call_ensures(M::describe, (&denial,), told));
    (before, q, denial)
}

/// How an execution under a memory manager goes. For each output in turn memory
/// is asked for, until all have some, the size of one cannot be told, or memory
/// is denied. The invocation is executed only where all outputs have memory;
/// otherwise it fails and nothing changes but that a denial is observed. After a
/// success it is recorded where the first output is, in the memory that was
/// given for it. After a failure all memory that was given is given back, each
/// once, in the order in which it was given.
///
/// The memory that was given, the memory manager before and after each request,
/// the requests, and the memory manager before and after each settlement are
/// handed out.
pub proof fn law_admission_calls<A: Arithmetic, M: MemoryLedger>(
    ops: &A,
    inv: Invocation,
    refusal: Option<KernelFault>,
    browser: bool,
    x: ExecutorState,
    memory: M,
    x_after: ExecutorState,
    after: M,
    r: Outcome,
) -> (w: (Seq<u64>, Seq<M>, Seq<MemoryAllocationRequest>, Seq<M>))
    requires
        executes_admitted(ops, inv, refusal, browser, x, memory, x_after, after, r),
    ensures
        w.0.len() <= inv.outputs.len(),
        w.1.len() == w.0.len() + 1 && w.2.len() == w.0.len(),
        w.1[0] == memory,
        forall|i: int|
            0 <= i < w.0.len() ==> {
                &&& asks_for(#[trigger] w.2[i], inv.outputs[i])
                &&& call_ensures(M::allocate, (w.1[i], w.2[i]), (Ok(w.0[i]), w.1[i + 1]))
            },
        w.0.len() == inv.outputs.len() ==> {
            &&& executes(ops, inv, refusal, browser, x, x_after, r)
            &&& w.3[0] == w.1[w.0.len() as int]
        },
        w.0.len() < inv.outputs.len() ==> {
            &&& r.status == KernelResultStatus::Failed
            &&& r.invocation == inv.id
            &&& r.error is Some && r.error->Some_0.code == KernelErrorCode::KernelExecutionFailed
            &&& r.updated_resources.len() == 0
            &&& r.output_readiness.len() == 0
            &&& x_after.storage == x.storage
            &&& x_after.submitted == x.submitted
            &&& x_after.kernel_executions == x.kernel_executions
            &&& x_after.resource_allocations == x.resource_allocations
            &&& x_after.next_execution_ordinal == x.next_execution_ordinal
        },
        w.0.len() < inv.outputs.len() && inv.outputs[w.0.len() as int].byte_size is Err ==> {
            &&& x_after == x
            &&& w.3[0] == w.1[w.0.len() as int]
            &&& r.error->Some_0.detail == "cannot admit output "@
                + inv.outputs[w.0.len() as int].id + ": invalid tensor descriptor ("@
                + inv.outputs[w.0.len() as int].byte_size->Err_0 + ")"@
        },
        w.0.len() < inv.outputs.len() && inv.outputs[w.0.len() as int].byte_size is Ok ==> {
            &&& x_after.observations.len() == x.observations.len() + 1
            &&& x_after.observations.last().kind
                == KernelObservationKind::KernelMemoryFeasibilityFailed
            &&& x_after.observations.last().invocation == Some(inv.id)
            &&& x_after.observations.last().kernel == Some(kernel_key(inv.kernel))
            &&& x_after.observations.last().metadata.len() == 0
            &&& x_after.observations.drop_last() == x.observations
            &&& is_denied(
                w.1[w.0.len() as int],
                inv.outputs[w.0.len() as int],
                w.3[0],
                r.error->Some_0.detail,
            )
        },
        r.status == KernelResultStatus::Succeeded ==> {
            &&& w.0.len() == inv.outputs.len() && 0 < w.0.len()
            &&& w.3.len() == 2 && w.3[1] == after
            &&& is_located(w.3[0], inv.outputs[0], w.0[0], after)
        },
        r.status != KernelResultStatus::Succeeded ==> {
            &&& w.3.len() == w.0.len() + 1 && w.3[w.0.len() as int] == after
            &&& forall|i: int|
                0 <= i < w.0.len() ==> call_ensures(
                    M::release,
                    (w.3[i], w.0[i]),
                    #[trigger] w.3[i + 1],
                )
        },
{
    let (given, end) = choose|admitted: Seq<u64>, asked: M|
        {
            &&& #[trigger] comes_to(
                ops,
                inv,
                refusal,
                browser,
                x,
                memory,
                admitted,
                x_after,
                asked,
                r,
            )
            &&& settles_first(
                inv,
                asked,
                settlement(inv, admitted, r),
                settlement(inv, admitted, r).len(),
                after,
            )
        };
    let n = given.len() as int;
    let denied = if n < inv.outputs.len() && inv.outputs[n].byte_size is Ok {
        Some(lemma_denied(inv, memory, given, end, r))
    } else {
        None
    };
    let stopped = match denied {
        Some((before, request, denial)) => before,
        None => end,
    };
    let (asked, requests) = lemma_admitted(inv, memory, given, stopped);
    if r.status == KernelResultStatus::Succeeded {
        law_execution(ops, inv, refusal, browser, x, x_after, r);
        crate::admission::lemma_first_recorded(inv, given);
        let record = Settlement::RecordResidency { output: 0, allocation: given[0] };
        reveal_with_fuel(settles_first, 2);
        assert(settles(inv, end, record, after));
        assert(crate::admission::records_residency(
            end,
            crate::memory::output_residency(inv.outputs[0], given[0]),
            after,
        ));
        let residency = choose|residency: TensorResidency|
            residency@ == crate::memory::output_residency(inv.outputs[0], given[0])
                && #[trigger] call_ensures(M::record_residency, (end, residency), after);
        assert(is_located(end, inv.outputs[0], given[0], after));
        let left = seq![end, after];
        (given, asked, requests, left)
    } else {
        let left = lemma_released(inv, end, given, given.len(), after);
        if let Some((before, request, denial)) = denied {
            assert(asked[n] == before && left[0] == end);
            assert(is_denied(asked[n], inv.outputs[n], left[0], r.error->Some_0.detail));
            assert(x_after.observations.drop_last() =~= x.observations);
        }
        (given, asked, requests, left)
    }
}

/// What a session asks for next: while it waits, memory for the output after
/// those that have some; once the result is known, that the memory is settled,
/// step by step; and then nothing.
pub proof fn law_session_asks(inv: Invocation, s: Session)
    requires
        s.result is None ==> s.admitted.len() < inv.outputs.len()
            && inv.outputs[s.admitted.len() as int].byte_size is Ok,
    ensures
        ({
            let output = inv.outputs[s.admitted.len() as int];
            let action = next_action(inv, s);
            &&& s.result is None ==> {
                &&& action is Allocate
                &&& action->request.class == MemoryAllocationClass::Tensor
                &&& output.byte_size == Ok::<u64, Seq<char>>(action->request.size_bytes)
                &&& action->request.placement == Placement::ProviderOwnedOpaque(
                    REFERENCE_CPU_PROVIDER_NAME@,
                )
                &&& action->request.owner == Owner::Provider(REFERENCE_CPU_PROVIDER_NAME@)
                &&& action->request.affinity == Some(output.affinity)
            }
            &&& s.result is Some && s.done >= s.pending.len() ==> action is Finished
            &&& s.result is Some && s.done < s.pending.len() ==> match s.pending[s.done as int] {
                Settlement::Release { allocation } => action == (Action::Release { allocation }),
                Settlement::RecordResidency { output, allocation } => {
                    &&& action is RecordResidency
                    &&& action->residency.tensor == inv.outputs[output as int].id
                    &&& action->residency.placement == Placement::ProviderOwnedOpaque(
                        REFERENCE_CPU_PROVIDER_NAME@,
                    )
                    &&& action->residency.affinity == inv.outputs[output as int].affinity
                    &&& action->residency.allocation == allocation
                },
            }
        }),
{
}

/// A session that fails is to release all memory that it was given, each once,
/// in the order in which it was given.
pub proof fn law_failed_session(inv: Invocation, s: Session, r: Outcome)
    requires
        r.status != KernelResultStatus::Succeeded,
    ensures
        ({
            let after = settled(inv, s, r);
            &&& after.result == Some(r)
            &&& after.admitted == s.admitted
            &&& after.done == 0
            &&& after.pending.len() == s.admitted.len()
            &&& forall|i: int|
                0 <= i < s.admitted.len() ==> #[trigger] after.pending[i] == (Settlement::Release {
                    allocation: s.admitted[i],
                })
        }),
{
}

/// A submission is executed under the memory manager, and how it ended is kept
/// under its handle, where nothing else changes: the results of other handles
/// stay, and only the number of the next execution goes up.
///
/// The state before the result was kept, and the result, are handed out.
pub proof fn law_submission_kept<A: Arithmetic, M: MemoryLedger>(
    ops: &A,
    inv: Invocation,
    refusal: Option<KernelFault>,
    browser: bool,
    x: ExecutorState,
    memory: M,
    x_after: ExecutorState,
    after: M,
) -> (w: (ExecutorState, Outcome))
    requires
        submits_kernel(ops, inv, refusal, browser, x, memory, x_after, after),
    ensures
        ({
            let (executed, r) = w;
            let id = kernel_handle(x, inv).id;
            &&& executes_admitted(
                ops,
                inv,
                refusal,
                browser,
                numbering(x),
                memory,
                executed,
                after,
                r,
            )
            &&& x_after.kernel_executions.contains_key(id)
            &&& x_after.kernel_executions[id] == r
            &&& forall|other: Seq<char>|
                other != id ==> {
                    &&& #[trigger] x_after.kernel_executions.contains_key(other)
                        == x.kernel_executions.contains_key(other)
                    &&& x.kernel_executions.contains_key(other)
                        ==> x_after.kernel_executions[other] == x.kernel_executions[other]
                }
            &&& x_after.storage == executed.storage
            &&& x_after.observations == executed.observations
            &&& x_after.submitted == x.submitted
            &&& x_after.resource_allocations == x.resource_allocations
            &&& x_after.next_execution_ordinal as int == (x.next_execution_ordinal + 1)
                % 0x1_0000_0000_0000_0000
        }),
{
    let (executed, r) = choose|executed: ExecutorState, r: Outcome|
        {
            &&& #[trigger] executes_admitted(
                ops,
                inv,
                refusal,
                browser,
                numbering(x),
                memory,
                executed,
                after,
                r,
            )
            &&& x_after == recording(executed, kernel_handle(x, inv).id, r)
        };
    law_admitted_execution(ops, inv, refusal, browser, numbering(x), memory, executed, after, r);
    (executed, r)
}

} // verus!
