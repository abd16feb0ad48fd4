//! Execution under a memory manager: memory for every output is admitted
//! before the kernel is called, and is given back if the call fails.
//!
//! A session decides what to ask of the memory manager next. Whoever drives it
//! does what [`MemorySession::action`] says and hands back what came of it,
//! until the session is finished.

use vstd::prelude::*;

use crate::dispatch::invocation_ready;
use crate::error::{fault, KernelError, KernelErrorCode, KernelFault};
use crate::execution::ProviderExecutionHandle;
use crate::executor::{
    comes_to_run, completing, completing_kernel, dispatch_event, dispatch_observation, executes,
    kernel_handle, law_execution, law_execution_observed, law_handles_apart, next_ordinal,
    numbering, observing, recording, releasing, releasing_admitted, submitting, validated,
    writes_admitted, writing, ExecutorState, ReferenceCpuExecutor,
};
use crate::float::Arithmetic;
use crate::identity::REFERENCE_CPU_PROVIDER_NAME;
use crate::invocation::{
    failure, optional_fault, success, Invocation, KernelInvocation, KernelResult,
    KernelResultStatus, Outcome, Resource,
};
use crate::memory::{
    locate_output, obtains, output_admission, output_request, output_residency,
    MemoryAllocationClass, MemoryAllocationRequest, MemoryLedger, Owner, Request, Residency,
    TensorResidency,
};
use crate::observation::{KernelObservationKind, Observation};
use crate::tensor::Tensor;

verus! {

/// What is to be done with the memory of an output once the result is known.
#[derive(Clone, Copy, Debug, PartialEq, Eq, Structural)]
pub enum Settlement {
    /// The memory is to be released.
    Release {
        /// The memory.
        allocation: u64,
    },
    /// The memory is to be recorded as that of an output, by its index.
    RecordResidency {
        /// The index of the output.
        output: usize,
        /// The memory.
        allocation: u64,
    },
}

/// What is to be done next.
#[derive(Debug, PartialEq, Eq)]
pub enum MemoryAction {
    /// Memory is to be allocated for the next output.
    Allocate {
        /// What is asked for.
        request: MemoryAllocationRequest,
    },
    /// Memory is to be released.
    Release {
        /// The memory.
        allocation: u64,
    },
    /// It is to be recorded where an output is.
    RecordResidency {
        /// Where the output is.
        residency: TensorResidency,
    },
    /// Nothing: the result is there.
    Finished,
}

/// What a [`MemoryAction`] stands for.
pub enum Action {
    /// Memory is to be allocated for the next output.
    Allocate {
        /// What is asked for.
        request: Request,
    },
    /// Memory is to be released.
    Release {
        /// The memory.
        allocation: u64,
    },
    /// It is to be recorded where an output is.
    RecordResidency {
        /// Where the output is.
        residency: Residency,
    },
    /// Nothing.
    Finished,
}

impl View for MemoryAction {
    type V = Action;

    open spec fn view(&self) -> Action {
        match self {
            MemoryAction::Allocate { request } => Action::Allocate { request: request@ },
            MemoryAction::Release { allocation } => Action::Release { allocation: *allocation },
            MemoryAction::RecordResidency { residency } => Action::RecordResidency {
                residency: residency@,
            },
            MemoryAction::Finished => Action::Finished,
        }
    }
}

/// The execution of one invocation under a memory manager.
pub struct MemorySession {
    admitted: Vec<u64>,
    refusal: Option<KernelError>,
    result: Option<KernelResult>,
    pending: Vec<Settlement>,
    done: usize,
}

/// What a [`MemorySession`] stands for.
#[verifier::ext_equal]
pub struct Session {
    /// The memory of the first outputs, in order.
    pub admitted: Seq<u64>,
    /// Why the invocation is not valid, if it is not.
    pub refusal: Option<KernelFault>,
    /// The result, once it is known.
    pub result: Option<Outcome>,
    /// What is to be done with the memory, once the result is known.
    pub pending: Seq<Settlement>,
    /// How much of that is done.
    pub done: nat,
}

/// What an optional result stands for.
pub open spec fn optional_outcome(r: Option<KernelResult>) -> Option<Outcome> {
    match r {
        Some(x) => Some(x@),
        None => None,
    }
}

impl View for MemorySession {
    type V = Session;

    closed spec fn view(&self) -> Session {
        Session {
            admitted: self.admitted@,
            refusal: optional_fault(self.refusal),
            result: optional_outcome(self.result),
            pending: self.pending@,
            done: self.done as nat,
        }
    }
}

/// The failure of an output whose size cannot be told.
pub open spec fn unsized_fault(id: Seq<char>, why: Seq<char>) -> KernelFault {
    fault(
        KernelErrorCode::KernelExecutionFailed,
        "cannot admit output "@ + id + ": invalid tensor descriptor ("@ + why + ")"@,
    )
}

/// The failure of an output for which memory was denied.
pub open spec fn denied_fault(id: Seq<char>, why: Seq<char>) -> KernelFault {
    fault(
        KernelErrorCode::KernelExecutionFailed,
        "memory admission denied for output "@ + id + ": "@ + why,
    )
}

/// All memory is to be released, in the order in which it was admitted.
pub open spec fn releases(admitted: Seq<u64>) -> Seq<Settlement> {
    Seq::new(admitted.len(), |i: int| Settlement::Release { allocation: admitted[i] })
}

/// The first of `n` outputs with an identifier.
pub open spec fn first_output(outputs: Seq<Resource>, n: nat, id: Seq<char>) -> Option<usize>
    decreases n,
{
    if n == 0 {
        None
    } else if first_output(outputs, (n - 1) as nat, id) is Some {
        first_output(outputs, (n - 1) as nat, id)
    } else if outputs[n - 1].id == id {
        Some((n - 1) as usize)
    } else {
        None
    }
}

/// The memory of the tensors that were written is to be recorded: for each,
/// the memory of the first output with its identifier.
pub open spec fn records(
    outputs: Seq<Resource>,
    admitted: Seq<u64>,
    updated: Seq<Resource>,
) -> Seq<Settlement>
    decreases updated.len(),
{
    if updated.len() == 0 {
        Seq::empty()
    } else {
        let before = records(outputs, admitted, updated.drop_last());
        match first_output(outputs, admitted.len(), updated.last().id) {
            Some(i) => before.push(
                Settlement::RecordResidency { output: i, allocation: admitted[i as int] },
            ),
            None => before,
        }
    }
}

/// What is to be done with the memory, given the result: record it after a
/// success, release it otherwise.
pub open spec fn settlement(inv: Invocation, admitted: Seq<u64>, r: Outcome) -> Seq<Settlement> {
    if r.status == KernelResultStatus::Succeeded {
        records(inv.outputs, admitted, r.updated_resources)
    } else {
        releases(admitted)
    }
}

/// The session once the result is known.
pub open spec fn settled(inv: Invocation, s: Session, r: Outcome) -> Session {
    Session {
        admitted: s.admitted,
        refusal: None,
        result: Some(r),
        pending: settlement(inv, s.admitted, r),
        done: 0,
    }
}

/// The sizes of the first `n` outputs are known.
pub open spec fn sized(inv: Invocation, n: int) -> bool {
    forall|i: int| 0 <= i < n ==> (#[trigger] inv.outputs[i]).byte_size is Ok
}

/// A session waits for memory for an output whose size is known, or knows its
/// result.
pub open spec fn session_well_formed(inv: Invocation, s: Session) -> bool {
    match s.result {
        None => s.admitted.len() < inv.outputs.len() && sized(inv, s.admitted.len() as int + 1),
        Some(r) => {
            &&& s.pending == settlement(inv, s.admitted, r)
            &&& s.done <= s.pending.len()
            &&& of_outputs(inv, s.pending)
        },
    }
}

/// What is recorded is recorded of outputs.
pub open spec fn of_outputs(inv: Invocation, pending: Seq<Settlement>) -> bool {
    forall|i: int|
        0 <= i < pending.len() ==> (#[trigger] pending[i] matches Settlement::RecordResidency {
            output,
            ..
        } ==> output < inv.outputs.len())
}

/// The next step of the session calls the kernel: memory for all outputs is
/// there, the deadline has not passed, and the invocation is valid.
pub open spec fn calls_kernel(inv: Invocation, s: Session) -> bool {
    s.admitted.len() == inv.outputs.len() && comes_to_run(inv, s.refusal)
}

/// How a session goes on: it executes the invocation if memory for all outputs
/// is there, and fails if the size of the next output cannot be told.
pub open spec fn goes_on<A: Arithmetic>(
    ops: &A,
    inv: Invocation,
    browser: bool,
    s: Session,
    x: ExecutorState,
    after: Session,
    x_after: ExecutorState,
) -> bool {
    let next = s.admitted.len() as int;
    if next == inv.outputs.len() {
        exists|r: Outcome| #[trigger]
            executes(ops, inv, s.refusal, browser, x, x_after, r) && after == settled(inv, s, r)
    } else {
        &&& x_after == x
        &&& match inv.outputs[next].byte_size {
            Err(why) => after == settled(
                inv,
                s,
                failure(inv.id, unsized_fault(inv.outputs[next].id, why)),
            ),
            Ok(_) => after == s,
        }
    }
}

/// The session at its start.
pub open spec fn fresh(refusal: Option<KernelFault>) -> Session {
    Session {
        admitted: Seq::empty(),
        refusal,
        result: None,
        pending: Seq::empty(),
        done: 0,
    }
}

/// The session with memory for one more output.
pub open spec fn with_allocation(s: Session, allocation: u64) -> Session {
    Session { admitted: s.admitted.push(allocation), ..s }
}

/// How the memory of an output is to be settled.
pub open spec fn settling_action(inv: Invocation, s: Settlement) -> Action {
    match s {
        Settlement::Release { allocation } => Action::Release { allocation },
        Settlement::RecordResidency { output, allocation } => Action::RecordResidency {
            residency: output_residency(inv.outputs[output as int], allocation),
        },
    }
}

/// What is to be done next.
pub open spec fn next_action(inv: Invocation, s: Session) -> Action {
    if s.result is None {
        let next = s.admitted.len() as int;
        Action::Allocate {
            request: output_request(
                inv.outputs[next].byte_size->Ok_0,
                inv.outputs[next].affinity,
            ),
        }
    } else if s.done < s.pending.len() {
        settling_action(inv, s.pending[s.done as int])
    } else {
        Action::Finished
    }
}

impl MemorySession {
    /// Starts the execution of an invocation whose validity the runtime has
    /// found out.
    pub fn begin<A: Arithmetic>(
        executor: &mut ReferenceCpuExecutor,
        ops: &A,
        invocation: &KernelInvocation,
        validation: Result<(), KernelError>,
        browser: bool,
    ) -> (r: MemorySession)
        requires
            calls_kernel(invocation@, fresh(validated(validation))) ==> invocation_ready(
                ops,
                invocation@,
                old(executor)@.storage,
                browser,
            ),
        ensures
            goes_on(
                ops,
                invocation@,
                browser,
                fresh(validated(validation)),
                old(executor)@,
                r@,
                final(executor)@,
            ),
            session_well_formed(invocation@, r@),
    {
        let mut session = MemorySession {
            admitted: Vec::new(),
            refusal: match validation {
                Ok(()) => None,
                Err(e) => Some(e),
            },
            result: None,
            pending: Vec::new(),
            done: 0,
        };
        assert(session@ =~= fresh(validated(validation)));
        session.go_on(executor, ops, invocation, browser);
        session
    }

    /// Memory was allocated for the output that the session asked it for.
    pub fn allocated<A: Arithmetic>(
        &mut self,
        executor: &mut ReferenceCpuExecutor,
        ops: &A,
        invocation: &KernelInvocation,
        browser: bool,
        allocation: u64,
    )
        requires
            session_well_formed(invocation@, old(self)@),
            old(self)@.result is None,
            calls_kernel(invocation@, with_allocation(old(self)@, allocation)) ==> invocation_ready(
                ops,
                invocation@,
                old(executor)@.storage,
                browser,
            ),
        ensures
            goes_on(
                ops,
                invocation@,
                browser,
                with_allocation(old(self)@, allocation),
                old(executor)@,
                final(self)@,
                final(executor)@,
            ),
            session_well_formed(invocation@, final(self)@),
    {
        self.admitted.push(allocation);
        assert(self@ =~= with_allocation(old(self)@, allocation));
        self.go_on(executor, ops, invocation, browser);
    }

    /// Memory was denied to the output that the session asked it for, for the
    /// given reason.
    pub fn denied(
        &mut self,
        executor: &mut ReferenceCpuExecutor,
        invocation: &KernelInvocation,
        why: &str,
    )
        requires
            session_well_formed(invocation@, old(self)@),
            old(self)@.result is None,
        ensures
            final(executor)@ == observing(
                old(executor)@,
                dispatch_observation(
                    KernelObservationKind::KernelMemoryFeasibilityFailed,
                    invocation@,
                ),
            ),
            final(self)@ == settled(
                invocation@,
                old(self)@,
                failure(
                    invocation@.id,
                    denied_fault(
                        invocation@.outputs[old(self)@.admitted.len() as int].id,
                        why@,
                    ),
                ),
            ),
            session_well_formed(invocation@, final(self)@),
    {
        executor.observe(
            dispatch_event(KernelObservationKind::KernelMemoryFeasibilityFailed, invocation),
        );
        let output = &invocation.outputs[self.admitted.len()];
        assert(invocation@.outputs[self@.admitted.len() as int] == output@);
        let mut reason = "memory admission denied for output ".to_owned();
        reason.append(output.id.as_str());
        reason.append(": ");
        reason.append(why);
        let error = KernelError::new(KernelErrorCode::KernelExecutionFailed, reason);
        self.settle(invocation, KernelResult::failure(invocation.id.clone(), error));
    }

    /// What is to be done next.
    pub fn action(&self, invocation: &KernelInvocation) -> (r: MemoryAction)
        requires
            session_well_formed(invocation@, self@),
        ensures
            r@ == next_action(invocation@, self@),
    {
        if self.result.is_none() {
            let next: usize = self.admitted.len();
            let output = &invocation.outputs[next];
            assert(invocation@.outputs[next as int] == output@);
            if let Ok(size_bytes) = &output.byte_size {
                return MemoryAction::Allocate {
                    request: output_admission(*size_bytes, &output.affinity),
                };
            }
        }
        if self.done == self.pending.len() {
            return MemoryAction::Finished;
        }
        match self.pending[self.done] {
            Settlement::Release { allocation } => MemoryAction::Release { allocation },
            Settlement::RecordResidency { output, allocation } => {
                assert(invocation@.outputs[output as int] == invocation.outputs@[output as int]@);
                MemoryAction::RecordResidency {
                    residency: locate_output(&invocation.outputs[output], allocation),
                }
            },
        }
    }

    /// Whether the session waits for memory.
    pub fn waits(&self) -> (r: bool)
        ensures
            r == self@.result is None,
    {
        self.result.is_none()
    }

    /// Whether memory is left to settle.
    pub fn settles(&self) -> (r: bool)
        ensures
            r == (self@.done < self@.pending.len()),
    {
        self.done < self.pending.len()
    }

    /// The memory that the session asked to settle was settled.
    pub fn performed(&mut self, invocation: &KernelInvocation)
        requires
            session_well_formed(invocation@, old(self)@),
            old(self)@.result is Some,
            old(self)@.done < old(self)@.pending.len(),
        ensures
            final(self)@ == (Session { done: old(self)@.done + 1, ..old(self)@ }),
            session_well_formed(invocation@, final(self)@),
    {
        assert(self.done < self.pending.len());
        self.done = self.done + 1;
        assert(self@ =~= (Session { done: old(self)@.done + 1, ..old(self)@ }));
    }

    /// The result, if it is known.
    pub fn finish(self) -> (r: Option<KernelResult>)
        ensures
            optional_outcome(r) == self@.result,
    {
        self.result
    }

    fn go_on<A: Arithmetic>(
        &mut self,
        executor: &mut ReferenceCpuExecutor,
        ops: &A,
        invocation: &KernelInvocation,
        browser: bool,
    )
        requires
            old(self)@.result is None,
            old(self)@.admitted.len() <= invocation@.outputs.len(),
            sized(invocation@, old(self)@.admitted.len() as int),
            calls_kernel(invocation@, old(self)@) ==> invocation_ready(
                ops,
                invocation@,
                old(executor)@.storage,
                browser,
            ),
        ensures
            goes_on(
                ops,
                invocation@,
                browser,
                old(self)@,
                old(executor)@,
                final(self)@,
                final(executor)@,
            ),
            session_well_formed(invocation@, final(self)@),
    {
        let next: usize = self.admitted.len();
        if next == invocation.outputs.len() {
            let validation = match self.refusal.take() {
                Some(e) => Err(e),
                None => Ok(()),
            };
            let result = executor.execute_invocation(ops, invocation, validation, browser);
            let ghost r = result@;
            assert(executes(
                ops,
                invocation@,
                old(self)@.refusal,
                browser,
                old(executor)@,
                executor@,
                r,
            ));
            self.settle(invocation, result);
            assert(self@ =~= settled(invocation@, old(self)@, r));
            return;
        }
        let output = &invocation.outputs[next];
        assert(invocation@.outputs[next as int] == output@);
        if let Err(why) = &output.byte_size {
            let mut reason = "cannot admit output ".to_owned();
            reason.append(output.id.as_str());
            reason.append(": invalid tensor descriptor (");
            reason.append(why.as_str());
            reason.append(")");
            let error = KernelError::new(KernelErrorCode::KernelExecutionFailed, reason);
            self.settle(invocation, KernelResult::failure(invocation.id.clone(), error));
        }
    }

    fn settle(&mut self, invocation: &KernelInvocation, result: KernelResult)
        requires
            old(self)@.admitted.len() <= invocation@.outputs.len(),
        ensures
            final(self)@ == settled(invocation@, old(self)@, result@),
            session_well_formed(invocation@, final(self)@),
    {
        let mut pending: Vec<Settlement> = Vec::new();
        let mut i: usize = 0;
        if result.status == KernelResultStatus::Succeeded {
            assert(resources_of(result).take(0) =~= Seq::empty());
            while i < result.updated_resources.len()
                invariant
                    i <= result.updated_resources@.len(),
                    self.admitted@.len() <= invocation@.outputs.len(),
                    pending@ == records(
                        invocation@.outputs,
                        self.admitted@,
                        resources_of(result).take(i as int),
                    ),
                    of_outputs(invocation@, pending@),
                decreases result.updated_resources@.len() - i,
            {
                let found = find_output(
                    invocation,
                    self.admitted.len(),
                    &result.updated_resources[i].id,
                );
                proof {
                    let updated = resources_of(result);
                    assert(updated.take(i + 1).drop_last() =~= updated.take(i as int));
                    assert(updated.take(i + 1).last() == updated[i as int]);
                }
                if let Some(output) = found {
                    pending.push(
                        Settlement::RecordResidency { output, allocation: self.admitted[output] },
                    );
                }
                i += 1;
            }
            assert(resources_of(result).take(i as int) =~= result@.updated_resources);
        } else {
            while i < self.admitted.len()
                invariant
                    i <= self.admitted@.len(),
                    pending@ == releases(self.admitted@).take(i as int),
                decreases self.admitted@.len() - i,
            {
                pending.push(Settlement::Release { allocation: self.admitted[i] });
                assert(releases(self.admitted@).take(i + 1) =~= releases(self.admitted@).take(
                    i as int,
                ).push(releases(self.admitted@)[i as int]));
                i += 1;
            }
            assert(releases(self.admitted@).take(i as int) =~= releases(self.admitted@));
        }
        self.refusal = None;
        self.pending = pending;
        self.done = 0;
        self.result = Some(result);
        assert(self@ =~= settled(invocation@, old(self)@, result@));
    }
}

spec fn resources_of(r: KernelResult) -> Seq<Resource> {
    r@.updated_resources
}

/// The first of `n` outputs with an identifier.
fn find_output(invocation: &KernelInvocation, n: usize, id: &String) -> (r: Option<usize>)
    requires
        n <= invocation@.outputs.len(),
    ensures
        r == first_output(invocation@.outputs, n as nat, id@),
        r matches Some(i) ==> i < n,
{
    let mut i: usize = 0;
    while i < n
        invariant
            i <= n <= invocation@.outputs.len(),
            first_output(invocation@.outputs, i as nat, id@) is None,
        decreases n - i,
    {
        assert(invocation@.outputs[i as int] == invocation.outputs@[i as int]@);
        if invocation.outputs[i].id == *id {
            proof {
                lemma_first_output(invocation@.outputs, (i + 1) as nat, n as nat, id@);
            }
            return Some(i);
        }
        i += 1;
    }
    None
}

/// The first of some outputs is the first of any more.
proof fn lemma_first_output(outputs: Seq<Resource>, some: nat, more: nat, id: Seq<char>)
    requires
        some <= more,
        first_output(outputs, some, id) is Some,
    ensures
        first_output(outputs, more, id) == first_output(outputs, some, id),
    decreases more,
{
    if some < more {
        lemma_first_output(outputs, some, (more - 1) as nat, id);
    }
}

/// The memory manager is asked for memory for an output, and replies. A denial
/// is taken in words.
pub open spec fn allocates<M: MemoryLedger>(
    memory: M,
    output: Resource,
    reply: Result<u64, Seq<char>>,
    after: M,
) -> bool {
    let request = output_request(output.byte_size->Ok_0, output.affinity);
    match reply {
        Ok(allocation) => obtains(memory, request, Ok(allocation), after),
        Err(why) => exists|denial: M::Denial| #[trigger]
            obtains(memory, request, Err(denial), after) && describes::<M>(denial, why),
    }
}

/// The memory manager puts a denial in words.
pub open spec fn describes<M: MemoryLedger>(denial: M::Denial, why: Seq<char>) -> bool {
    exists|words: String| words@ == why && #[trigger] call_ensures(M::describe, (&denial,), words)
}

/// The memory manager is asked for memory for the first outputs, in order, and
/// gives it.
pub open spec fn admits<M: MemoryLedger>(
    inv: Invocation,
    memory: M,
    admitted: Seq<u64>,
    after: M,
) -> bool
    decreases admitted.len(),
{
    if admitted.len() == 0 {
        after == memory
    } else {
        let last = admitted.len() - 1;
        exists|before: M|
            {
                &&& admits(inv, memory, admitted.drop_last(), before)
                &&& #[trigger] allocates(before, inv.outputs[last], Ok(admitted[last]), after)
            }
    }
}

/// The memory manager is asked for memory for the output after the first ones,
/// denies it, and the execution fails for the reason that it gives.
pub open spec fn denies<M: MemoryLedger>(
    inv: Invocation,
    memory: M,
    admitted: Seq<u64>,
    after: M,
    r: Outcome,
) -> bool {
    let next = admitted.len() as int;
    exists|before: M, why: Seq<char>|
        {
            &&& admits(inv, memory, admitted, before)
            &&& #[trigger] allocates(before, inv.outputs[next], Err(why), after)
            &&& r == failure(inv.id, denied_fault(inv.outputs[next].id, why))
        }
}

/// The memory manager is asked to settle the memory of an output.
pub open spec fn settles<M: MemoryLedger>(
    inv: Invocation,
    memory: M,
    s: Settlement,
    after: M,
) -> bool {
    match s {
        Settlement::Release { allocation } => call_ensures(
            M::release,
            (memory, allocation),
            after,
        ),
        Settlement::RecordResidency { output, allocation } => records_residency(
            memory,
            output_residency(inv.outputs[output as int], allocation),
            after,
        ),
    }
}

/// The memory manager is asked to record where a tensor is.
pub open spec fn records_residency<M: MemoryLedger>(
    memory: M,
    residency: Residency,
    after: M,
) -> bool {
    exists|r: TensorResidency|
        r@ == residency && #[trigger] call_ensures(M::record_residency, (memory, r), after)
}

/// Memory for every output can be admitted: each has a size, and the memory
/// manager may give memory for all of them.
pub open spec fn admissible<M: MemoryLedger>(inv: Invocation, memory: M) -> bool {
    &&& sized(inv, inv.outputs.len() as int)
    &&& exists|admitted: Seq<u64>, after: M|
        admitted.len() == inv.outputs.len() && #[trigger] admits(inv, memory, admitted, after)
}

/// The memory manager is asked for the first `n` settlements, in order.
pub open spec fn settles_first<M: MemoryLedger>(
    inv: Invocation,
    memory: M,
    pending: Seq<Settlement>,
    n: nat,
    after: M,
) -> bool
    decreases n,
{
    if n == 0 {
        after == memory
    } else {
        exists|before: M|
            {
                &&& settles_first(inv, memory, pending, (n - 1) as nat, before)
                &&& #[trigger] settles(inv, before, pending[n - 1], after)
            }
    }
}

/// How an execution under a memory manager comes to its result, with the
/// memory of the first outputs admitted: as the execution does if memory for
/// every output is there; as a failure if the size of the next output cannot be
/// told, or memory is denied to it.
pub open spec fn comes_to<A: Arithmetic, M: MemoryLedger>(
    ops: &A,
    inv: Invocation,
    refusal: Option<KernelFault>,
    browser: bool,
    x: ExecutorState,
    memory: M,
    admitted: Seq<u64>,
    x_after: ExecutorState,
    after: M,
    r: Outcome,
) -> bool {
    let next = admitted.len() as int;
    &&& next <= inv.outputs.len()
    &&& sized(inv, next)
    &&& if next == inv.outputs.len() {
        &&& admits(inv, memory, admitted, after)
        &&& executes(ops, inv, refusal, browser, x, x_after, r)
    } else {
        match inv.outputs[next].byte_size {
            Err(why) => {
                &&& admits(inv, memory, admitted, after)
                &&& x_after == x
                &&& r == failure(inv.id, unsized_fault(inv.outputs[next].id, why))
            },
            Ok(_) => {
                &&& denies(inv, memory, admitted, after, r)
                &&& x_after == observing(
                    x,
                    dispatch_observation(KernelObservationKind::KernelMemoryFeasibilityFailed, inv),
                )
            },
        }
    }
}

/// What an execution under a memory manager does: it asks for the memory of the
/// outputs, comes to its result, and settles the memory as the result calls
/// for.
pub open spec fn executes_admitted<A: Arithmetic, M: MemoryLedger>(
    ops: &A,
    inv: Invocation,
    refusal: Option<KernelFault>,
    browser: bool,
    x: ExecutorState,
    memory: M,
    x_after: ExecutorState,
    after: M,
    r: Outcome,
) -> bool {
    exists|admitted: Seq<u64>, asked: M|
        {
            &&& #[trigger] comes_to(
                ops,
                inv,
                refusal,
                browser,
                x,
                memory,
                admitted,
                x_after,
                asked,
                r,
            )
            &&& settles_first(
                inv,
                asked,
                settlement(inv, admitted, r),
                settlement(inv, admitted, r).len(),
                after,
            )
        }
}

/// Where a session stands that is driven with a memory manager: memory was
/// admitted and nothing else has changed, or the result is known.
spec fn stands<A: Arithmetic, M: MemoryLedger>(
    ops: &A,
    inv: Invocation,
    refusal: Option<KernelFault>,
    browser: bool,
    x: ExecutorState,
    memory: M,
    s: Session,
    x_after: ExecutorState,
    after: M,
) -> bool {
    match s.result {
        None => x_after == x && s.refusal == refusal && admits(inv, memory, s.admitted, after),
        Some(r) => s.done == 0 && comes_to(
            ops,
            inv,
            refusal,
            browser,
            x,
            memory,
            s.admitted,
            x_after,
            after,
            r,
        ),
    }
}

impl ReferenceCpuExecutor {
    /// Executes an invocation whose validity the runtime has found out, under a
    /// memory manager: asks for the memory of every output before the kernel is
    /// called, gives all of it back if the execution fails, and records it if
    /// it succeeds. Gives the memory manager back with the result.
    pub fn execute_invocation_with_memory_manager<A: Arithmetic, M: MemoryLedger>(
        &mut self,
        ops: &A,
        invocation: &KernelInvocation,
        validation: Result<(), KernelError>,
        browser: bool,
        memory: M,
    ) -> (r: (KernelResult, M))
        requires
            admissible(invocation@, memory) && comes_to_run(
                invocation@,
                validated(validation),
            ) ==> invocation_ready(
                ops,
                invocation@,
                old(self)@.storage,
                browser,
            ),
        ensures
            executes_admitted(
                ops,
                invocation@,
                validated(validation),
                browser,
                old(self)@,
                memory,
                final(self)@,
                r.1,
                r.0@,
            ),
    {
        let ghost refusal = validated(validation);
        let ghost given = memory;
        assert(admits(invocation@, given, Seq::<u64>::empty(), memory));
        let mut session = MemorySession::begin(self, ops, invocation, validation, browser);
        let mut current: M = memory;
        while session.waits()
            invariant
                session_well_formed(invocation@, session@),
                stands(
                    ops,
                    invocation@,
                    refusal,
                    browser,
                    old(self)@,
                    given,
                    session@,
                    self@,
                    current,
                ),
                admissible(invocation@, given) && comes_to_run(
                    invocation@,
                    refusal,
                ) ==> invocation_ready(
                    ops,
                    invocation@,
                    old(self)@.storage,
                    browser,
                ),
            decreases
                    (if session@.result is None {
                        invocation@.outputs.len() - session@.admitted.len()
                    } else {
                        0
                    }),
        {
            if let MemoryAction::Allocate { request } = session.action(invocation) {
                let ghost before = session@;
                let ghost asked = current;
                let ghost output = invocation@.outputs[before.admitted.len() as int];
                let ghost wanted = output_request(output.byte_size->Ok_0, output.affinity);
                let (reply, next) = current.allocate(request);
                current = next;
                assert(obtains(asked, wanted, reply, current));
                match reply {
                    Ok(allocation) => {
                        proof {
                            let admitted = before.admitted.push(allocation);
                            let last = admitted.len() - 1;
                            assert(admitted.drop_last() =~= before.admitted);
                            assert(allocates(
                                asked,
                                invocation@.outputs[last],
                                Ok(admitted[last]),
                                current,
                            ));
                            assert(admits(invocation@, given, admitted, current));
                        }
                        session.allocated(self, ops, invocation, browser, allocation);
                    },
                    Err(denial) => {
                        let why = M::describe(&denial);
                        proof {
                            assert(describes::<M>(denial, why@));
                            assert(obtains(asked, wanted, Err(denial), current));
                            assert(allocates(asked, output, Err(why@), current));
                        }
                        session.denied(self, invocation, why.as_str());
                    },
                }
            }
        }
        let ghost asked = current;
        let ghost pending = session@.pending;
        while session.settles()
            invariant
                session_well_formed(invocation@, session@),
                session@.result is Some,
                session@.pending == pending,
                stands(
                    ops,
                    invocation@,
                    refusal,
                    browser,
                    old(self)@,
                    given,
                    Session { done: 0, ..session@ },
                    self@,
                    asked,
                ),
                settles_first(invocation@, asked, pending, session@.done, current),
            decreases pending.len() - session@.done,
        {
            let ghost before = current;
            match session.action(invocation) {
                MemoryAction::Release { allocation } => {
                    current = current.release(allocation);
                },
                MemoryAction::RecordResidency { residency } => {
                    current = current.record_residency(residency);
                    assert(records_residency(before, residency@, current));
                },
                _ => {},
            }
            assert(settles_first(invocation@, asked, pending, session@.done + 1, current)) by {
                assert(settles(invocation@, before, pending[session@.done + 1 - 1], current));
            }
            session.performed(invocation);
        }
        let result = session.finish();
        (result.unwrap(), current)
    }

    /// Submits an invocation: gives out a handle, executes the invocation under
    /// the memory manager, and keeps its result under the handle. Gives the
    /// memory manager back with the handle.
    pub fn submit_kernel_invocation<A: Arithmetic, M: MemoryLedger>(
        &mut self,
        ops: &A,
        invocation: &KernelInvocation,
        validation: Result<(), KernelError>,
        browser: bool,
        memory: M,
    ) -> (r: (ProviderExecutionHandle, M))
        requires
            admissible(invocation@, memory) && comes_to_run(
                invocation@,
                validated(validation),
            ) ==> invocation_ready(
                ops,
                invocation@,
                old(self)@.storage,
                browser,
            ),
        ensures
            r.0@ == kernel_handle(old(self)@, invocation@),
            submits_kernel(
                ops,
                invocation@,
                validated(validation),
                browser,
                old(self)@,
                memory,
                final(self)@,
                r.1,
            ),
    {
        let handle = self.next_kernel_handle(invocation);
        let (result, after) = self.execute_invocation_with_memory_manager(
            ops,
            invocation,
            validation,
            browser,
            memory,
        );
        self.record_kernel_result(&handle, result);
        (handle, after)
    }
}

/// What submitting an invocation does.
pub open spec fn submits_kernel<A: Arithmetic, M: MemoryLedger>(
    ops: &A,
    inv: Invocation,
    refusal: Option<KernelFault>,
    browser: bool,
    x: ExecutorState,
    memory: M,
    x_after: ExecutorState,
    after: M,
) -> bool {
    exists|executed: ExecutorState, r: Outcome|
        {
            &&& #[trigger] executes_admitted(
                ops,
                inv,
                refusal,
                browser,
                numbering(x),
                memory,
                executed,
                after,
                r,
            )
            &&& x_after == recording(executed, kernel_handle(x, inv).id, r)
        }
}

/// A submission is never without a result: it can be completed with the handle
/// that was given out, and gives how the execution ended. The handle names the
/// provider, no device, and the invocation as its plan.
pub proof fn law_submission_completes<A: Arithmetic, M: MemoryLedger>(
    ops: &A,
    inv: Invocation,
    refusal: Option<KernelFault>,
    browser: bool,
    x: ExecutorState,
    memory: M,
    x_after: ExecutorState,
    after: M,
)
    requires
        submits_kernel(ops, inv, refusal, browser, x, memory, x_after, after),
    ensures
        ({
            let handle = kernel_handle(x, inv);
            let id = handle.id;
            let r = x_after.kernel_executions[id];
            &&& handle.provider == REFERENCE_CPU_PROVIDER_NAME@
            &&& handle.device is None
            &&& handle.plan == inv.id
            &&& x_after.kernel_executions.contains_key(id)
            &&& r.invocation == inv.id
            &&& r.status != KernelResultStatus::Succeeded ==> x_after.storage == x.storage
            &&& x_after.next_execution_ordinal == next_ordinal(x.next_execution_ordinal)
        }),
{
    let (executed, r) = choose|executed: ExecutorState, r: Outcome|
        {
            &&& #[trigger] executes_admitted(
                ops,
                inv,
                refusal,
                browser,
                numbering(x),
                memory,
                executed,
                after,
                r,
            )
            &&& x_after == recording(executed, kernel_handle(x, inv).id, r)
        };
    law_admitted_execution(ops, inv, refusal, browser, numbering(x), memory, executed, after, r);
}

/// The memory of every output was admitted, the invocation was executed, and the
/// memory of its first output was recorded.
pub open spec fn admitted_and_recorded<A: Arithmetic, M: MemoryLedger>(
    ops: &A,
    inv: Invocation,
    refusal: Option<KernelFault>,
    browser: bool,
    x: ExecutorState,
    memory: M,
    x_after: ExecutorState,
    after: M,
    r: Outcome,
) -> bool {
    exists|admitted: Seq<u64>, asked: M|
        {
            &&& admitted.len() == inv.outputs.len()
            &&& #[trigger] admits(inv, memory, admitted, asked)
            &&& executes(ops, inv, refusal, browser, x, x_after, r)
            &&& settles(
                inv,
                asked,
                Settlement::RecordResidency { output: 0, allocation: admitted[0] },
                after,
            )
        }
}

/// All memory that was admitted is released, in order.
pub open spec fn admitted_and_released<M: MemoryLedger>(
    inv: Invocation,
    memory: M,
    after: M,
    r: Outcome,
) -> bool {
    exists|admitted: Seq<u64>, asked: M|
        {
            &&& admits(inv, memory, admitted, asked) || denies(inv, memory, admitted, asked, r)
            &&& #[trigger] settles_first(inv, asked, releases(admitted), admitted.len(), after)
        }
}

/// An execution under a memory manager that succeeds was called with memory
/// for every output admitted, writes its first output and no other, and has
/// the memory of that output recorded. One that does not succeed writes no
/// tensor, and all memory that was admitted for it is released.
pub proof fn law_admitted_execution<A: Arithmetic, M: MemoryLedger>(
    ops: &A,
    inv: Invocation,
    refusal: Option<KernelFault>,
    browser: bool,
    x: ExecutorState,
    memory: M,
    x_after: ExecutorState,
    after: M,
    r: Outcome,
)
    requires
        executes_admitted(ops, inv, refusal, browser, x, memory, x_after, after, r),
    ensures
        r.invocation == inv.id,
        r.status != KernelResultStatus::Succeeded ==> {
            &&& x_after.storage == x.storage
            &&& admitted_and_released(inv, memory, after, r)
        },
        r.status == KernelResultStatus::Succeeded ==> {
            &&& inv.outputs.len() > 0
            &&& r == success(inv.id, inv.outputs[0])
            &&& x_after.storage == x.storage.insert(
                inv.outputs[0].id,
                x_after.storage[inv.outputs[0].id],
            )
            &&& admitted_and_recorded(
                ops,
                inv,
                refusal,
                browser,
                x,
                memory,
                x_after,
                after,
                r,
            )
        },
        x_after == (ExecutorState {
            storage: x_after.storage,
            observations: x_after.observations,
            ..x
        }),
{
    let (admitted, asked) = choose|admitted: Seq<u64>, asked: M|
        {
            &&& #[trigger] comes_to(
                ops,
                inv,
                refusal,
                browser,
                x,
                memory,
                admitted,
                x_after,
                asked,
                r,
            )
            &&& settles_first(
                inv,
                asked,
                settlement(inv, admitted, r),
                settlement(inv, admitted, r).len(),
                after,
            )
        };
    if admitted.len() == inv.outputs.len() {
        law_execution(ops, inv, refusal, browser, x, x_after, r);
        law_execution_observed(ops, inv, refusal, browser, x, x_after, r);
    }
    if r.status == KernelResultStatus::Succeeded {
        lemma_first_recorded(inv, admitted);
        let record = Settlement::RecordResidency { output: 0, allocation: admitted[0] };
        reveal_with_fuel(settles_first, 2);
        assert(settles(inv, asked, record, after));
        assert(admits(inv, memory, admitted, asked));
    } else {
        assert(settlement(inv, admitted, r) == releases(admitted));
        assert(settles_first(inv, asked, releases(admitted), admitted.len(), after));
    }
}

/// After a success the memory of the first output is recorded.
pub(crate) proof fn lemma_first_recorded(inv: Invocation, admitted: Seq<u64>)
    requires
        inv.outputs.len() > 0,
        admitted.len() == inv.outputs.len(),
    ensures
        settlement(inv, admitted, success(inv.id, inv.outputs[0])) == seq![
            Settlement::RecordResidency { output: 0, allocation: admitted[0] },
        ],
{
    let updated = success(inv.id, inv.outputs[0]).updated_resources;
    assert(updated =~= seq![inv.outputs[0]]);
    assert(updated.drop_last() =~= Seq::empty());
    assert(records(inv.outputs, admitted, updated.drop_last()) =~= Seq::empty());
    reveal_with_fuel(first_output, 2);
    assert(first_output(inv.outputs, 1, inv.outputs[0].id) == Some(0usize));
    lemma_first_output(inv.outputs, 1, admitted.len(), inv.outputs[0].id);
    assert(settlement(inv, admitted, success(inv.id, inv.outputs[0])) =~= seq![
        Settlement::RecordResidency { output: 0, allocation: admitted[0] },
    ]);
}

/// No tensor is written before memory for every output was admitted: until
/// then the executor does not change.
pub proof fn law_admission_first<A: Arithmetic>(
    ops: &A,
    inv: Invocation,
    browser: bool,
    s: Session,
    x: ExecutorState,
    after: Session,
    x_after: ExecutorState,
)
    requires
        s.result is None,
        s.admitted.len() < inv.outputs.len(),
        goes_on(ops, inv, browser, s, x, after, x_after),
    ensures
        x_after == x,
        after.result matches Some(r) ==> r.status == KernelResultStatus::Failed,
{
}

/// Where the execution fails, all memory that was admitted is to be released,
/// and no tensor was written.
pub proof fn law_failure_releases<A: Arithmetic>(
    ops: &A,
    inv: Invocation,
    browser: bool,
    s: Session,
    x: ExecutorState,
    after: Session,
    x_after: ExecutorState,
)
    requires
        s.result is None,
        goes_on(ops, inv, browser, s, x, after, x_after),
    ensures
        after.admitted == s.admitted,
        after.result matches Some(r) ==> r.status != KernelResultStatus::Succeeded ==> {
            &&& after.pending == releases(s.admitted)
            &&& x_after.storage == x.storage
        },
{
    if s.admitted.len() == inv.outputs.len() {
        let r = choose|r: Outcome| #[trigger]
            executes(ops, inv, s.refusal, browser, x, x_after, r) && after == settled(inv, s, r);
        law_execution(ops, inv, s.refusal, browser, x, x_after, r);
    }
}

/// Where the execution succeeds, memory for every output was admitted, none of
/// it is released, and that of the output that was written is recorded.
pub proof fn law_success_records<A: Arithmetic>(
    ops: &A,
    inv: Invocation,
    browser: bool,
    s: Session,
    x: ExecutorState,
    after: Session,
    x_after: ExecutorState,
    r: Outcome,
)
    requires
        s.result is None,
        goes_on(ops, inv, browser, s, x, after, x_after),
        after.result == Some(r),
        r.status == KernelResultStatus::Succeeded,
    ensures
        s.admitted.len() == inv.outputs.len(),
        r == success(inv.id, inv.outputs[0]),
        after.pending == seq![
            Settlement::RecordResidency { output: 0, allocation: s.admitted[0] },
        ],
{
    if s.admitted.len() == inv.outputs.len() {
        let r2 = choose|r: Outcome| #[trigger]
            executes(ops, inv, s.refusal, browser, x, x_after, r) && after == settled(inv, s, r);
        law_execution(ops, inv, s.refusal, browser, x, x_after, r2);
        lemma_first_recorded(inv, s.admitted);
    }
}

/// Where memory is denied, the kernel is not called, and all memory that was
/// admitted before is to be released.
pub proof fn law_denial_releases(inv: Invocation, s: Session, why: Seq<char>)
    requires
        s.result is None,
        s.admitted.len() < inv.outputs.len(),
    ensures
        ({
            let id = inv.outputs[s.admitted.len() as int].id;
            let after = settled(inv, s, failure(inv.id, denied_fault(id, why)));
            &&& after.pending == releases(s.admitted)
            &&& after.pending.len() == s.admitted.len()
            &&& after.result->Some_0.status == KernelResultStatus::Failed
        }),
{
}

/// A session ends: each answer brings it closer to its result, and each
/// settlement to its end.
pub proof fn law_session_ends(inv: Invocation, s: Session, allocation: u64)
    requires
        session_well_formed(inv, s),
    ensures
        s.result is None ==> {
            &&& inv.outputs.len() - with_allocation(s, allocation).admitted.len()
                < inv.outputs.len() - s.admitted.len()
            &&& with_allocation(s, allocation).admitted.len() <= inv.outputs.len()
            &&& next_action(inv, s) is Allocate
        },
        s.result is Some ==> (next_action(inv, s) is Finished <==> s.done == s.pending.len()),
{
}

/// The ordinal after `k` more submissions; after the last comes the first.
pub open spec fn ordinal_after(n: u64, k: nat) -> u64 {
    ((n + k) % 0x1_0000_0000_0000_0000) as u64
}

/// How many submissions there are among the steps from `from` to before `to`.
pub open spec fn submission_count(
    submissions: Seq<Option<Invocation>>,
    from: int,
    to: int,
) -> nat
    decreases to - from,
{
    if to <= from {
        0
    } else {
        submission_count(submissions, from, to - 1) + (if submissions[to - 1] is Some {
            1nat
        } else {
            0
        })
    }
}

/// One step of an executor: the submission of an invocation, or anything that
/// leaves the ordinal of the next execution alone, as all that is not a
/// submission does.
pub open spec fn steps<A: Arithmetic, M: MemoryLedger>(
    ops: &A,
    x: ExecutorState,
    x_after: ExecutorState,
    submission: Option<Invocation>,
) -> bool {
    match submission {
        Some(inv) => submits_somehow::<A, M>(ops, x, x_after, inv),
        None => x_after.next_execution_ordinal == x.next_execution_ordinal,
    }
}

/// An invocation is submitted, with some validity and some memory manager.
pub open spec fn submits_somehow<A: Arithmetic, M: MemoryLedger>(
    ops: &A,
    x: ExecutorState,
    x_after: ExecutorState,
    inv: Invocation,
) -> bool {
    exists|refusal: Option<KernelFault>, browser: bool, memory: M, after: M| #[trigger]
        submits_kernel(ops, inv, refusal, browser, x, memory, x_after, after)
}

/// The states that one executor goes through, with the invocations that are
/// submitted on the way.
pub open spec fn history<A: Arithmetic, M: MemoryLedger>(
    ops: &A,
    states: Seq<ExecutorState>,
    submissions: Seq<Option<Invocation>>,
) -> bool {
    &&& states.len() == submissions.len() + 1
    &&& forall|i: int|
        0 <= i < submissions.len() ==> steps::<A, M>(
            ops,
            states[i],
            states[i + 1],
            #[trigger] submissions[i],
        )
}

/// Any two submissions on one executor have different handles, whatever their
/// invocations, unless all ordinals were given out between them.
pub proof fn law_submissions_apart<A: Arithmetic, M: MemoryLedger>(
    ops: &A,
    states: Seq<ExecutorState>,
    submissions: Seq<Option<Invocation>>,
    i: int,
    j: int,
)
    requires
        history::<A, M>(ops, states, submissions),
        0 <= i < j < submissions.len(),
        submissions[i] is Some,
        submissions[j] is Some,
        submission_count(submissions, i, j) <= u64::MAX,
    ensures
        kernel_handle(states[i], submissions[i]->Some_0).id != kernel_handle(
            states[j],
            submissions[j]->Some_0,
        ).id,
{
    lemma_ordinal_after::<A, M>(ops, states, submissions, i, j);
    lemma_counted(submissions, i, i + 1, j);
    let n = states[i].next_execution_ordinal;
    let k = submission_count(submissions, i, j);
    assert(1 <= k);
    assert(n + k < 0x1_0000_0000_0000_0000 || n + k - 0x1_0000_0000_0000_0000 < n);
    law_handles_apart(
        states[i],
        submissions[i]->Some_0,
        states[j],
        submissions[j]->Some_0,
    );
}

/// More steps hold at least as many submissions.
proof fn lemma_counted(submissions: Seq<Option<Invocation>>, from: int, some: int, more: int)
    requires
        from <= some <= more,
    ensures
        submission_count(submissions, from, some) <= submission_count(submissions, from, more),
        submissions[from] is Some ==> submission_count(submissions, from, from + 1) == 1,
    decreases more - some,
{
    reveal_with_fuel(submission_count, 2);
    if some < more {
        lemma_counted(submissions, from, some, more - 1);
    }
}

/// The ordinal counts the submissions.
proof fn lemma_ordinal_after<A: Arithmetic, M: MemoryLedger>(
    ops: &A,
    states: Seq<ExecutorState>,
    submissions: Seq<Option<Invocation>>,
    i: int,
    j: int,
)
    requires
        history::<A, M>(ops, states, submissions),
        0 <= i <= j <= submissions.len(),
    ensures
        states[j].next_execution_ordinal == ordinal_after(
            states[i].next_execution_ordinal,
            submission_count(submissions, i, j),
        ),
    decreases j - i,
{
    if i < j {
        lemma_ordinal_after::<A, M>(ops, states, submissions, i, j - 1);
        assert(steps::<A, M>(ops, states[j - 1], states[j], submissions[j - 1]));
        if let Some(inv) = submissions[j - 1] {
            let (refusal, browser, memory, after) = choose|
                refusal: Option<KernelFault>,
                browser: bool,
                memory: M,
                after: M,
            | #[trigger]
                submits_kernel(
                    ops,
                    inv,
                    refusal,
                    browser,
                    states[j - 1],
                    memory,
                    states[j],
                    after,
                );
            law_submission_completes(
                ops,
                inv,
                refusal,
                browser,
                states[j - 1],
                memory,
                states[j],
                after,
            );
        }
    }
}

/// Nothing but a submission changes the ordinal of the next execution.
pub proof fn law_ordinal_kept<A: Arithmetic, M: MemoryLedger>(
    ops: &A,
    x: ExecutorState,
    x_after: ExecutorState,
    inv: Invocation,
    refusal: Option<KernelFault>,
    browser: bool,
    r: Outcome,
    memory: M,
    after: M,
    id: Seq<char>,
    tensor: Tensor,
    class: MemoryAllocationClass,
    owner: Owner,
    written: Result<(), M::Denial>,
    o: Observation,
)
    ensures
        ({
            let n = x.next_execution_ordinal;
            &&& writing(x, id, tensor).next_execution_ordinal == n
            &&& releasing(x, id).next_execution_ordinal == n
            &&& releasing_admitted(x, id).next_execution_ordinal == n
            &&& observing(x, o).next_execution_ordinal == n
            &&& completing_kernel(x, id).next_execution_ordinal == n
            &&& submitting(x, id).next_execution_ordinal == n
            &&& completing(x, id).next_execution_ordinal == n
            &&& writes_admitted(x, memory, id, tensor, class, owner, x_after, after, written)
                ==> x_after.next_execution_ordinal == n
            &&& executes(ops, inv, refusal, browser, x, x_after, r)
                ==> x_after.next_execution_ordinal == n
            &&& executes_admitted(ops, inv, refusal, browser, x, memory, x_after, after, r)
                ==> x_after.next_execution_ordinal == n
        }),
{
    if executes(ops, inv, refusal, browser, x, x_after, r) {
        law_execution_observed(ops, inv, refusal, browser, x, x_after, r);
    }
    if executes_admitted(ops, inv, refusal, browser, x, memory, x_after, after, r) {
        law_admitted_execution(ops, inv, refusal, browser, x, memory, x_after, after, r);
    }
}

} // verus!
