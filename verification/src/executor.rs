//! The executor: tensors that only the provider sees, and the execution of
//! invocations on them.

use vstd::prelude::*;

use crate::affinity::{Affinity, ResourceAffinity};
use crate::dispatch::{
    call_gives, invocation_ready, is_ready, is_ready_however_rounded, law_call_once,
    law_prepared_once, prepare, prepared, prepares, ready_however_rounded, tells_ready, tensors, Call,
    KernelCall,
};
use crate::error::{
    fault, fault_of, kernel_error_id, reference_cpu_error_id, KernelError, KernelErrorCode,
    KernelFault, ReferenceCpuError,
};
use crate::execution::{
    execution_id, execution_id_text, law_execution_ids, no_execution, Handle, ProviderCancellationOutcome,
    ProviderExecutionError, ProviderExecutionHandle, ProviderExecutionPhase,
    ProviderExecutionResult, ProviderExecutionStatus, SchedulingState, NO_KERNEL_TO_COMPLETE,
    NO_SUBMISSION_TO_COMPLETE, NO_SUBMISSION_TO_OBSERVE,
};
use crate::fallback::{evaluate_fallback, fallback_refusal, FallbackPolicyContext};
use crate::float::{single_valued, Arithmetic};
use crate::identity::{kernel_key, Kernel, KernelId, REFERENCE_CPU_PROVIDER_NAME};
use crate::invocation::{
    failure, success, Invocation, KernelInvocation, KernelResult, KernelResultStatus, Outcome,
    TensorResourceDescriptor,
};
use crate::memory::{
    byte_countable, gives_back, obtains, tensor_admission, tensor_request, workspace_admission,
    workspace_request, MemoryAllocationClass, MemoryAllocationOwner, MemoryLedger, Owner,
    TensorValue,
};
use crate::observation::{
    observed, of_invocation, of_kernel, with_text, KernelObservation,
    KernelObservationKind, Observation,
};
use crate::table::Table;
use crate::tensor::{refused, HostTensor, Tensor};
use crate::text::{decimal, decimal_text};

verus! {

/// Executes invocations on tensors that only the provider sees. The runtime
/// knows the tensors by their identifiers.
pub struct ReferenceCpuExecutor {
    storage: Table<HostTensor>,
    observations: Vec<KernelObservation>,
    submitted: Table<()>,
    kernel_executions: Table<KernelResult>,
    resource_allocations: Table<u64>,
    next_execution_ordinal: u64,
}

/// What a [`ReferenceCpuExecutor`] stands for.
#[verifier::ext_equal]
pub struct ExecutorState {
    /// The tensors, by their identifiers.
    pub storage: Map<Seq<char>, Tensor>,
    /// What was observed, in order.
    pub observations: Seq<Observation>,
    /// The executions that were submitted and not yet completed.
    pub submitted: Set<Seq<char>>,
    /// The results of kernels that were submitted and not yet completed.
    pub kernel_executions: Map<Seq<char>, Outcome>,
    /// The memory that backs each tensor that was admitted.
    pub resource_allocations: Map<Seq<char>, u64>,
    /// The ordinal of the next execution of a kernel.
    pub next_execution_ordinal: u64,
}

/// What stored results stand for.
pub open spec fn outcomes(m: Map<Seq<char>, KernelResult>) -> Map<Seq<char>, Outcome> {
    m.map_values(|r: KernelResult| r@)
}

impl View for ReferenceCpuExecutor {
    type V = ExecutorState;

    closed spec fn view(&self) -> ExecutorState {
        ExecutorState {
            storage: tensors(self.storage@),
            observations: observed(self.observations@),
            submitted: self.submitted@.dom(),
            kernel_executions: outcomes(self.kernel_executions@),
            resource_allocations: self.resource_allocations@,
            next_execution_ordinal: self.next_execution_ordinal,
        }
    }
}

/// The state of an executor that has done nothing.
pub open spec fn initial_state() -> ExecutorState {
    ExecutorState {
        storage: Map::empty(),
        observations: Seq::empty(),
        submitted: Set::empty(),
        kernel_executions: Map::empty(),
        resource_allocations: Map::empty(),
        next_execution_ordinal: 0,
    }
}

/// The state after one more observation.
pub open spec fn observing(s: ExecutorState, o: Observation) -> ExecutorState {
    ExecutorState { observations: s.observations.push(o), ..s }
}

/// The state after a tensor was written.
pub open spec fn writing(s: ExecutorState, id: Seq<char>, tensor: Tensor) -> ExecutorState {
    ExecutorState { storage: s.storage.insert(id, tensor), ..s }
}

/// The state after a tensor was dropped.
pub open spec fn releasing(s: ExecutorState, id: Seq<char>) -> ExecutorState {
    ExecutorState { storage: s.storage.remove(id), ..s }
}

/// The state after the memory of a tensor was forgotten and the tensor dropped.
pub open spec fn releasing_admitted(s: ExecutorState, id: Seq<char>) -> ExecutorState {
    ExecutorState { resource_allocations: s.resource_allocations.remove(id), ..releasing(s, id) }
}

/// The state after a tensor was written into admitted memory.
pub open spec fn writing_admitted(
    s: ExecutorState,
    id: Seq<char>,
    tensor: Tensor,
    allocation: u64,
) -> ExecutorState {
    ExecutorState {
        resource_allocations: s.resource_allocations.insert(id, allocation),
        ..writing(s, id, tensor)
    }
}

/// The memory that backs a tensor, if it was admitted.
pub open spec fn allocation_of(s: ExecutorState, id: Seq<char>) -> Option<u64> {
    if s.resource_allocations.contains_key(id) {
        Some(s.resource_allocations[id])
    } else {
        None
    }
}

/// What writing a tensor under admission does: memory for it is asked for, and
/// where that is denied, nothing changes. Otherwise the tensor is written, and
/// the memory that backed the identifier before is released.
pub open spec fn writes_admitted<M: MemoryLedger>(
    s: ExecutorState,
    memory: M,
    id: Seq<char>,
    tensor: Tensor,
    class: MemoryAllocationClass,
    owner: Owner,
    s_after: ExecutorState,
    after: M,
    r: Result<(), M::Denial>,
) -> bool {
    exists|reply: Result<u64, M::Denial>, asked: M|
        {
            &&& #[trigger] obtains(memory, tensor_request(tensor, class, owner), reply, asked)
            &&& match reply {
                Ok(allocation) => {
                    &&& s_after == writing_admitted(s, id, tensor, allocation)
                    &&& gives_back(asked, allocation_of(s, id), after)
                    &&& r is Ok
                },
                Err(e) => s_after == s && after == asked && r == Err::<(), M::Denial>(e),
            }
        }
}

/// What an optional tensor stands for.
pub open spec fn optional_tensor(t: Option<HostTensor>) -> Option<Tensor> {
    match t {
        Some(x) => Some(x@),
        None => None,
    }
}

/// The tensor under an identifier.
pub open spec fn stored(s: ExecutorState, id: Seq<char>) -> Option<Tensor> {
    if s.storage.contains_key(id) {
        Some(s.storage[id])
    } else {
        None
    }
}

/// The outcome of a validation.
pub open spec fn validated(v: Result<(), KernelError>) -> Option<KernelFault> {
    match v {
        Ok(_) => None,
        Err(e) => Some(e@),
    }
}

/// Whether an invocation comes to call a kernel: its deadline has not passed,
/// and it was found valid.
pub open spec fn comes_to_run(inv: Invocation, refusal: Option<KernelFault>) -> bool {
    inv.deadline_millis != Some(0u64) && refusal is None
}

/// What an invocation does with the output of its kernel: it is written under
/// the identifier of the first output.
pub open spec fn stores(
    inv: Invocation,
    storage: Map<Seq<char>, Tensor>,
    out: Result<HostTensor, ReferenceCpuError>,
    after: Map<Seq<char>, Tensor>,
    r: Result<Outcome, KernelFault>,
) -> bool {
    match out {
        Err(e) => after == storage && r == Err::<Outcome, KernelFault>(fault_of(e@)),
        Ok(t) => if inv.outputs.len() == 0 {
            after == storage && r == Err::<Outcome, KernelFault>(
                fault(
                    KernelErrorCode::KernelExecutionFailed,
                    "missing output at index "@ + decimal(0),
                ),
            )
        } else {
            after == storage.insert(inv.outputs[0].id, t@) && r == Ok::<Outcome, KernelFault>(
                success(inv.id, inv.outputs[0]),
            )
        },
    }
}

/// What running an invocation gives: the kernel is called once, on the tensors
/// that are stored, or not at all.
pub open spec fn run_gives<A: Arithmetic>(
    ops: &A,
    inv: Invocation,
    browser: bool,
    storage: Map<Seq<char>, Tensor>,
    after: Map<Seq<char>, Tensor>,
    r: Result<Outcome, KernelFault>,
) -> bool {
    exists|call: Result<Call, KernelFault>|
        {
            &&& #[trigger] prepares(ops, inv, storage, browser, call)
            &&& match call {
                Err(f) => after == storage && r == Err::<Outcome, KernelFault>(f),
                Ok(c) => call_stores(ops, c, inv, storage, after, r),
            }
        }
}

/// What a prepared call gives.
pub open spec fn call_stores<A: Arithmetic>(
    ops: &A,
    call: Call,
    inv: Invocation,
    storage: Map<Seq<char>, Tensor>,
    after: Map<Seq<char>, Tensor>,
    r: Result<Outcome, KernelFault>,
) -> bool {
    exists|out: Result<HostTensor, ReferenceCpuError>| #[trigger]
        call_gives(ops, call, out) && stores(inv, storage, out, after, r)
}

/// The observation of a dispatch.
pub open spec fn dispatch_observation(kind: KernelObservationKind, inv: Invocation) -> Observation {
    of_invocation(kind, kernel_key(inv.kernel), inv.id)
}

/// The observation of the end of a dispatch.
pub open spec fn end_observation(inv: Invocation, r: Result<Outcome, KernelFault>) -> Observation {
    match r {
        Ok(_) => dispatch_observation(KernelObservationKind::KernelDispatchCompleted, inv),
        Err(f) => with_text(
            dispatch_observation(KernelObservationKind::KernelDispatchFailed, inv),
            "error"@,
            kernel_error_id(f.code),
        ),
    }
}

/// The outcome of a dispatch.
pub open spec fn end_outcome(inv: Invocation, r: Result<Outcome, KernelFault>) -> Outcome {
    match r {
        Ok(outcome) => outcome,
        Err(f) => failure(inv.id, f),
    }
}

/// The state at the end of a dispatch.
pub open spec fn end_state(
    s: ExecutorState,
    inv: Invocation,
    after: Map<Seq<char>, Tensor>,
    r: Result<Outcome, KernelFault>,
) -> ExecutorState {
    let started = observing(
        s,
        dispatch_observation(KernelObservationKind::KernelDispatchStarted, inv),
    );
    ExecutorState { storage: after, ..observing(started, end_observation(inv, r)) }
}

/// What executing an invocation does. Its start is observed, and then one end:
/// a deadline that has passed, a refusal, or what running it gives.
pub open spec fn executes<A: Arithmetic>(
    ops: &A,
    inv: Invocation,
    refusal: Option<KernelFault>,
    browser: bool,
    s: ExecutorState,
    after: ExecutorState,
    r: Outcome,
) -> bool {
    if inv.deadline_millis == Some(0u64) {
        let started = observing(
            s,
            dispatch_observation(KernelObservationKind::KernelDispatchStarted, inv),
        );
        &&& after == observing(
            started,
            dispatch_observation(KernelObservationKind::KernelTimeout, inv),
        )
        &&& r == failure(inv.id, fault(KernelErrorCode::KernelTimeout, Seq::empty()))
    } else {
        match refusal {
            Some(f) => {
                let end = Err::<Outcome, KernelFault>(f);
                after == end_state(s, inv, s.storage, end) && r == end_outcome(inv, end)
            },
            None => exists|storage: Map<Seq<char>, Tensor>, end: Result<Outcome, KernelFault>|
                {
                    &&& #[trigger] run_gives(ops, inv, browser, s.storage, storage, end)
                    &&& after == end_state(s, inv, storage, end)
                    &&& r == end_outcome(inv, end)
                },
        }
    }
}

/// The state after fallback was evaluated.
pub open spec fn fallback_state(
    s: ExecutorState,
    kernel: Kernel,
    affinity: Affinity,
    context: FallbackPolicyContext,
) -> ExecutorState {
    let considered = observing(
        s,
        of_kernel(KernelObservationKind::KernelFallbackConsidered, kernel_key(kernel)),
    );
    match fallback_refusal(affinity, context) {
        None => observing(
            considered,
            of_kernel(KernelObservationKind::KernelFallbackUsed, kernel_key(kernel)),
        ),
        Some(e) => observing(
            considered,
            with_text(
                of_kernel(KernelObservationKind::KernelFallbackFailed, kernel_key(kernel)),
                "error"@,
                reference_cpu_error_id(e.code),
            ),
        ),
    }
}

/// The next ordinal; after the last comes the first.
pub open spec fn next_ordinal(n: u64) -> u64 {
    if n == u64::MAX {
        0
    } else {
        (n + 1) as u64
    }
}

/// The handle of the next execution of a kernel.
pub open spec fn kernel_handle(s: ExecutorState, inv: Invocation) -> Handle {
    Handle {
        id: execution_id(inv.id, s.next_execution_ordinal),
        operation: next_ordinal(s.next_execution_ordinal),
        plan: inv.id,
        provider: REFERENCE_CPU_PROVIDER_NAME@,
        device: None,
    }
}

/// The state after the handle of an execution was given out.
pub open spec fn numbering(s: ExecutorState) -> ExecutorState {
    ExecutorState { next_execution_ordinal: next_ordinal(s.next_execution_ordinal), ..s }
}

/// The state after the result of a kernel was recorded.
pub open spec fn recording(s: ExecutorState, id: Seq<char>, r: Outcome) -> ExecutorState {
    ExecutorState { kernel_executions: s.kernel_executions.insert(id, r), ..s }
}

/// The state after the result of a kernel was handed out.
pub open spec fn completing_kernel(s: ExecutorState, id: Seq<char>) -> ExecutorState {
    ExecutorState { kernel_executions: s.kernel_executions.remove(id), ..s }
}

/// The state after an execution was submitted.
pub open spec fn submitting(s: ExecutorState, id: Seq<char>) -> ExecutorState {
    ExecutorState { submitted: s.submitted.insert(id), ..s }
}

/// The state after an execution was completed or released.
pub open spec fn completing(s: ExecutorState, id: Seq<char>) -> ExecutorState {
    ExecutorState { submitted: s.submitted.remove(id), ..s }
}

impl Default for ReferenceCpuExecutor {
    fn default() -> (r: ReferenceCpuExecutor)
        ensures
            r@ == initial_state(),
    {
        ReferenceCpuExecutor::new()
    }
}

impl ReferenceCpuExecutor {
    /// An executor that has done nothing.
    pub fn new() -> (r: ReferenceCpuExecutor)
        ensures
            r@ == initial_state(),
    {
        let r = ReferenceCpuExecutor {
            storage: Table::new(),
            observations: Vec::new(),
            submitted: Table::new(),
            kernel_executions: Table::new(),
            resource_allocations: Table::new(),
            next_execution_ordinal: 0,
        };
        assert(r@ =~= initial_state());
        r
    }

    /// Writes a tensor, without admission.
    pub fn write_tensor(&mut self, id: String, tensor: HostTensor)
        ensures
            final(self)@ == writing(old(self)@, id@, tensor@),
    {
        let _ = self.storage.insert(id, tensor);
        assert(self@ =~= writing(old(self)@, id@, tensor@));
    }

    /// A copy of a tensor.
    pub fn read_tensor(&self, id: &str) -> (r: Option<HostTensor>)
        ensures
            optional_tensor(r) == stored(self@, id@),
    {
        match self.storage.get(id) {
            Some(tensor) => Some(tensor.clone()),
            None => None,
        }
    }

    /// Drops a tensor, and says whether it was there.
    pub fn release_tensor(&mut self, id: &str) -> (r: bool)
        ensures
            final(self)@ == releasing(old(self)@, id@),
            r == stored(old(self)@, id@) is Some,
    {
        let r = self.storage.remove(id).is_some();
        assert(self@ =~= releasing(old(self)@, id@));
        r
    }

    /// Releases the memory of a tensor, if it was admitted, and drops the
    /// tensor. Says whether the tensor was there.
    pub fn release_admitted_tensor<M: MemoryLedger>(&mut self, memory: M, id: &str) -> (r: (
        bool,
        M,
    ))
        ensures
            final(self)@ == releasing_admitted(old(self)@, id@),
            r.0 == stored(old(self)@, id@) is Some,
            gives_back(memory, allocation_of(old(self)@, id@), r.1),
    {
        let after = match self.resource_allocations.remove(id) {
            Some(allocation) => memory.release(allocation),
            None => memory,
        };
        let present = self.storage.remove(id).is_some();
        assert(self@ =~= releasing_admitted(old(self)@, id@));
        (present, after)
    }

    /// Writes a tensor once memory was admitted for it, and releases the memory
    /// that it replaces. Where memory is denied, nothing changes.
    pub fn write_tensor_admitted<M: MemoryLedger>(
        &mut self,
        memory: M,
        id: String,
        tensor: HostTensor,
        class: MemoryAllocationClass,
        owner: MemoryAllocationOwner,
    ) -> (r: (Result<(), M::Denial>, M))
        requires
            byte_countable(tensor@),
        ensures
            writes_admitted(
                old(self)@,
                memory,
                id@,
                tensor@,
                class,
                owner@,
                final(self)@,
                r.1,
                r.0,
            ),
    {
        let ghost request = tensor_request(tensor@, class, owner@);
        let (reply, asked) = memory.allocate(tensor_admission(&tensor, class, owner));
        assert(obtains(memory, request, reply, asked));
        match reply {
            Ok(allocation) => {
                let previous = self.resource_allocations.insert(id.clone(), allocation);
                let after = match previous {
                    Some(previous) => asked.release(previous),
                    None => asked,
                };
                let _ = self.storage.insert(id, tensor);
                assert(self@ =~= writing_admitted(old(self)@, id@, tensor@, allocation));
                (Ok(()), after)
            },
            Err(e) => (Err(e), asked),
        }
    }

    /// A tensor as a value: its elements are always visible to the host.
    pub fn read_tensor_value(&self, id: &str) -> (r: Option<TensorValue>)
        ensures
            match stored(self@, id@) {
                Some(t) => r matches Some(TensorValue::Host(x)) && x@ == t,
                None => r is None,
            },
    {
        match self.read_tensor(id) {
            Some(tensor) => Some(TensorValue::Host(tensor)),
            None => None,
        }
    }

    /// Writes a value, without admission. A value without elements is not
    /// written.
    pub fn write_tensor_value(&mut self, id: String, value: TensorValue)
        ensures
            final(self)@ == (match value {
                TensorValue::Host(t) => writing(old(self)@, id@, t@),
                TensorValue::Opaque => old(self)@,
            }),
    {
        if let TensorValue::Host(tensor) = value {
            self.write_tensor(id, tensor);
        }
    }

    /// Writes a value once memory was admitted for it. A value without
    /// elements takes no memory and is not written.
    pub fn write_tensor_value_admitted<M: MemoryLedger>(
        &mut self,
        memory: M,
        id: String,
        value: TensorValue,
        class: MemoryAllocationClass,
        owner: MemoryAllocationOwner,
    ) -> (r: (Result<(), M::Denial>, M))
        requires
            value matches TensorValue::Host(t) ==> byte_countable(t@),
        ensures
            match value {
                TensorValue::Host(t) => writes_admitted(
                    old(self)@,
                    memory,
                    id@,
                    t@,
                    class,
                    owner@,
                    final(self)@,
                    r.1,
                    r.0,
                ),
                TensorValue::Opaque => final(self)@ == old(self)@ && r.1 == memory && r.0 is Ok,
            },
    {
        match value {
            TensorValue::Host(tensor) => self.write_tensor_admitted(
                memory,
                id,
                tensor,
                class,
                owner,
            ),
            TensorValue::Opaque => (Ok(()), memory),
        }
    }

    /// A copy of what was observed, in order.
    pub fn observations(&self) -> (r: Vec<KernelObservation>)
        ensures
            observed(r@) == self@.observations,
    {
        let r = self.observations.clone();
        assert(observed(r@) =~= observed(self.observations@));
        r
    }

    pub(crate) fn observe(&mut self, o: KernelObservation)
        ensures
            final(self)@ == observing(old(self)@, o@),
    {
        self.observations.push(o);
        assert(self@ =~= observing(old(self)@, o@));
    }

    /// Evaluates fallback, and observes that it was considered and what came
    /// of it.
    pub fn evaluate_fallback_observed(
        &mut self,
        kernel: &KernelId,
        affinity: &ResourceAffinity,
        context: &FallbackPolicyContext,
    ) -> (r: Result<(), ReferenceCpuError>)
        ensures
            refused(r, fallback_refusal(affinity@, *context)),
            final(self)@ == fallback_state(old(self)@, kernel@, affinity@, *context),
    {
        self.observe(
            KernelObservation::new(KernelObservationKind::KernelFallbackConsidered).with_kernel(
                kernel,
            ),
        );
        match evaluate_fallback(affinity, context) {
            Ok(()) => {
                self.observe(
                    KernelObservation::new(KernelObservationKind::KernelFallbackUsed).with_kernel(
                        kernel,
                    ),
                );
                Ok(())
            },
            Err(error) => {
                self.observe(
                    KernelObservation::new(
                        KernelObservationKind::KernelFallbackFailed,
                    ).with_kernel(kernel).with_redacted_metadata("error", error.id()),
                );
                Err(error)
            },
        }
    }

    /// Asks the memory manager for scratch space.
    pub fn allocate_workspace<M: MemoryLedger>(&self, memory: M, size_bytes: u64) -> (r: (
        Result<u64, M::Denial>,
        M,
    ))
        ensures
            obtains(memory, workspace_request(size_bytes), r.0, r.1),
    {
        memory.allocate(workspace_admission(size_bytes))
    }

    /// Whether an invocation can be run on the tensors that are stored, with its
    /// numeric attributes as they are rounded now.
    pub fn is_ready<A: Arithmetic>(
        &self,
        ops: &A,
        invocation: &KernelInvocation,
        browser: bool,
    ) -> (r: bool)
        ensures
            tells_ready(ops, invocation@, self@.storage, browser, r),
            ready_however_rounded(invocation@, self@.storage, browser) ==> r,
            single_valued(ops) ==> r == invocation_ready(ops, invocation@, self@.storage, browser),
    {
        is_ready(ops, invocation, &self.storage, browser)
    }

    /// Whether an invocation can be run on the tensors that are stored, whatever
    /// its numeric attributes are rounded to.
    pub fn is_ready_however_rounded(&self, invocation: &KernelInvocation, browser: bool) -> (r:
        bool)
        ensures
            r == ready_however_rounded(invocation@, self@.storage, browser),
    {
        is_ready_however_rounded(invocation, &self.storage, browser)
    }

    /// The call that an invocation asks for.
    pub fn prepare<A: Arithmetic>(
        &self,
        ops: &A,
        invocation: &KernelInvocation,
        browser: bool,
    ) -> (r: Result<KernelCall, KernelError>)
        ensures
            prepares(ops, invocation@, self@.storage, browser, prepared(r)),
    {
        prepare(ops, invocation, &self.storage, browser)
    }

    /// Writes the output of a kernel under the identifier of an output of the
    /// invocation.
    fn store_output(
        &mut self,
        invocation: &KernelInvocation,
        index: usize,
        tensor: HostTensor,
    ) -> (r: Result<TensorResourceDescriptor, KernelError>)
        ensures
            index < invocation@.outputs.len() ==> {
                &&& r matches Ok(x) && x@ == invocation@.outputs[index as int]
                &&& final(self)@ == writing(
                    old(self)@,
                    invocation@.outputs[index as int].id,
                    tensor@,
                )
            },
            index >= invocation@.outputs.len() ==> {
                &&& r matches Err(e) && e@ == fault(
                    KernelErrorCode::KernelExecutionFailed,
                    "missing output at index "@ + decimal(index as nat),
                )
                &&& final(self)@ == old(self)@
            },
    {
        if index >= invocation.outputs.len() {
            let mut reason = "missing output at index ".to_owned();
            reason.append(decimal_text(index as u64).as_str());
            return Err(KernelError::new(KernelErrorCode::KernelExecutionFailed, reason));
        }
        let output = &invocation.outputs[index];
        assert(invocation@.outputs[index as int] == output@);
        self.write_tensor(output.id.clone(), tensor);
        Ok(output.clone())
    }

    /// Runs an invocation: calls its kernel, and writes the output.
    fn run_invocation<A: Arithmetic>(
        &mut self,
        ops: &A,
        invocation: &KernelInvocation,
        browser: bool,
    ) -> (r: Result<KernelResult, KernelError>)
        requires
            invocation_ready(ops, invocation@, old(self)@.storage, browser),
        ensures
            ({
                let end = match r {
                    Ok(x) => Ok::<Outcome, KernelFault>(x@),
                    Err(e) => Err::<Outcome, KernelFault>(e@),
                };
                &&& run_gives(
                    ops,
                    invocation@,
                    browser,
                    old(self)@.storage,
                    final(self)@.storage,
                    end,
                )
                &&& final(self)@ == (ExecutorState {
                    storage: final(self)@.storage,
                    ..old(self)@
                })
            }),
    {
        let preparation = self.prepare(ops, invocation, browser);
        let ghost call = prepared(preparation);
        assert(prepares(ops, invocation@, self@.storage, browser, call));
        let kernel = match preparation {
            Ok(kernel) => kernel,
            Err(e) => {
                return Err(e);
            },
        };
        let out = kernel.run(ops);
        assert(call_gives(ops, kernel@, out));
        match out {
            Ok(tensor) => match self.store_output(invocation, 0, tensor) {
                Ok(output) => {
                    let r = KernelResult::success(invocation.id.clone(), output);
                    assert(call_stores(
                        ops,
                        kernel@,
                        invocation@,
                        old(self)@.storage,
                        self@.storage,
                        Ok::<Outcome, KernelFault>(r@),
                    ));
                    Ok(r)
                },
                Err(e) => {
                    assert(call_stores(
                        ops,
                        kernel@,
                        invocation@,
                        old(self)@.storage,
                        self@.storage,
                        Err::<Outcome, KernelFault>(e@),
                    ));
                    Err(e)
                },
            },
            Err(error) => {
                let e = KernelError::from_refusal(error);
                assert(call_stores(
                    ops,
                    kernel@,
                    invocation@,
                    old(self)@.storage,
                    self@.storage,
                    Err::<Outcome, KernelFault>(e@),
                ));
                Err(e)
            },
        }
    }

    /// Executes an invocation whose validity the runtime has found out: calls
    /// its kernel and writes its output, unless its deadline has passed or it
    /// is not valid.
    pub fn execute_invocation<A: Arithmetic>(
        &mut self,
        ops: &A,
        invocation: &KernelInvocation,
        validation: Result<(), KernelError>,
        browser: bool,
    ) -> (r: KernelResult)
        requires
            comes_to_run(invocation@, validated(validation)) ==> invocation_ready(
                ops,
                invocation@,
                old(self)@.storage,
                browser,
            ),
        ensures
            executes(
                ops,
                invocation@,
                validated(validation),
                browser,
                old(self)@,
                final(self)@,
                r@,
            ),
    {
        self.observe(
            dispatch_event(KernelObservationKind::KernelDispatchStarted, invocation),
        );
        if let Some(millis) = invocation.deadline_millis {
            if millis == 0 {
                self.observe(dispatch_event(KernelObservationKind::KernelTimeout, invocation));
                return KernelResult::failure(
                    invocation.id.clone(),
                    KernelError::new(KernelErrorCode::KernelTimeout, String::new()),
                );
            }
        }
        let ghost before = self@;
        let end = match validation {
            Ok(()) => self.run_invocation(ops, invocation, browser),
            Err(e) => Err(e),
        };
        let ghost storage = self@.storage;
        match end {
            Ok(result) => {
                self.observe(
                    dispatch_event(KernelObservationKind::KernelDispatchCompleted, invocation),
                );
                proof {
                    let end = Ok::<Outcome, KernelFault>(result@);
                    assert(run_gives(ops, invocation@, browser, before.storage, storage, end));
                    assert(self@ =~= end_state(old(self)@, invocation@, storage, end));
                }
                result
            },
            Err(error) => {
                self.observe(
                    dispatch_event(
                        KernelObservationKind::KernelDispatchFailed,
                        invocation,
                    ).with_redacted_metadata("error", error.id()),
                );
                proof {
                    let end = Err::<Outcome, KernelFault>(error@);
                    assert(self@ =~= end_state(old(self)@, invocation@, storage, end));
                    if validated(validation) is None {
                        assert(run_gives(ops, invocation@, browser, before.storage, storage, end));
                    }
                }
                KernelResult::failure(invocation.id.clone(), error)
            },
        }
    }

    /// Gives out the handle of the next execution of a kernel.
    pub(crate) fn next_kernel_handle(&mut self, invocation: &KernelInvocation) -> (r:
        ProviderExecutionHandle)
        ensures
            r@ == kernel_handle(old(self)@, invocation@),
            final(self)@ == numbering(old(self)@),
    {
        let ordinal: u64 = self.next_execution_ordinal;
        let next: u64 = if ordinal == u64::MAX {
            0
        } else {
            ordinal + 1
        };
        self.next_execution_ordinal = next;
        assert(self@ =~= numbering(old(self)@));
        ProviderExecutionHandle {
            id: execution_id_text(invocation.id.as_str(), ordinal),
            operation: next,
            plan: invocation.id.clone(),
            provider: REFERENCE_CPU_PROVIDER_NAME.to_owned(),
            device: None,
        }
    }

    /// Records the result of the execution with the given handle.
    pub(crate) fn record_kernel_result(&mut self, handle: &ProviderExecutionHandle, result: KernelResult)
        ensures
            final(self)@ == recording(old(self)@, handle@.id, result@),
    {
        let _ = self.kernel_executions.insert(handle.id.clone(), result);
        assert(self@ =~= recording(old(self)@, handle@.id, result@));
    }

    /// Hands out the result of the execution with the given handle, once.
    pub fn complete_kernel_invocation(&mut self, handle: &ProviderExecutionHandle) -> (r: Result<
        KernelResult,
        ProviderExecutionError,
    >)
        ensures
            final(self)@ == completing_kernel(old(self)@, handle@.id),
            if old(self)@.kernel_executions.contains_key(handle@.id) {
                r matches Ok(x) && x@ == old(self)@.kernel_executions[handle@.id]
            } else {
                r matches Err(e) && e@ == no_execution(
                    handle@,
                    ProviderExecutionPhase::Complete,
                    NO_KERNEL_TO_COMPLETE@,
                )
            },
    {
        let found = self.kernel_executions.remove(handle.id.as_str());
        assert(self@ =~= completing_kernel(old(self)@, handle@.id));
        match found {
            Some(result) => Ok(result),
            None => Err(
                ProviderExecutionError::no_execution(
                    handle,
                    ProviderExecutionPhase::Complete,
                    NO_KERNEL_TO_COMPLETE,
                ),
            ),
        }
    }

    /// Takes a submission.
    pub fn submit(&mut self, handle: &ProviderExecutionHandle) -> (r: Result<
        ProviderExecutionHandle,
        ProviderExecutionError,
    >)
        ensures
            final(self)@ == submitting(old(self)@, handle@.id),
            r matches Ok(x) && x@ == handle@,
    {
        let _ = self.submitted.insert(handle.id.clone(), ());
        assert(self@ =~= submitting(old(self)@, handle@.id));
        Ok(handle.clone())
    }

    /// Where a submission stands: a submission that was taken is completed.
    pub fn status(&self, handle: &ProviderExecutionHandle) -> (r: Result<
        ProviderExecutionStatus,
        ProviderExecutionError,
    >)
        ensures
            if self@.submitted.contains(handle@.id) {
                r matches Ok(x) && x.handle@ == handle@ && x.state == SchedulingState::Completed
            } else {
                r matches Err(e) && e@ == no_execution(
                    handle@,
                    ProviderExecutionPhase::Observe,
                    NO_SUBMISSION_TO_OBSERVE@,
                )
            },
    {
        if !self.submitted.contains(handle.id.as_str()) {
            return Err(
                ProviderExecutionError::no_execution(
                    handle,
                    ProviderExecutionPhase::Observe,
                    NO_SUBMISSION_TO_OBSERVE,
                ),
            );
        }
        Ok(
            ProviderExecutionStatus { handle: handle.clone(), state: SchedulingState::Completed },
        )
    }

    /// A submission cannot be cancelled.
    pub fn cancel(&self, handle: &ProviderExecutionHandle) -> (r: Result<
        ProviderCancellationOutcome,
        ProviderExecutionError,
    >)
        ensures
            r == Ok::<ProviderCancellationOutcome, ProviderExecutionError>(
                ProviderCancellationOutcome::Unsupported,
            ),
    {
        Ok(ProviderCancellationOutcome::Unsupported)
    }

    /// Completes a submission, once.
    pub fn complete(&mut self, handle: &ProviderExecutionHandle) -> (r: Result<
        ProviderExecutionResult,
        ProviderExecutionError,
    >)
        ensures
            final(self)@ == completing(old(self)@, handle@.id),
            if old(self)@.submitted.contains(handle@.id) {
                r matches Ok(x) && x.handle@ == handle@ && x.state == SchedulingState::Completed
                    && x.outputs@.len() == 0
            } else {
                r matches Err(e) && e@ == no_execution(
                    handle@,
                    ProviderExecutionPhase::Complete,
                    NO_SUBMISSION_TO_COMPLETE@,
                )
            },
    {
        let found = self.submitted.remove(handle.id.as_str());
        assert(self@ =~= completing(old(self)@, handle@.id));
        match found {
            Some(_) => Ok(
                ProviderExecutionResult {
                    handle: handle.clone(),
                    state: SchedulingState::Completed,
                    outputs: Vec::new(),
                },
            ),
            None => Err(
                ProviderExecutionError::no_execution(
                    handle,
                    ProviderExecutionPhase::Complete,
                    NO_SUBMISSION_TO_COMPLETE,
                ),
            ),
        }
    }

    /// Releases a submission, whether it was taken or not.
    pub fn release(&mut self, handle: &ProviderExecutionHandle) -> (r: Result<
        (),
        ProviderExecutionError,
    >)
        ensures
            final(self)@ == completing(old(self)@, handle@.id),
            r is Ok,
    {
        let _ = self.submitted.remove(handle.id.as_str());
        assert(self@ =~= completing(old(self)@, handle@.id));
        Ok(())
    }
}

/// An observation of the dispatch of an invocation.
pub(crate) fn dispatch_event(kind: KernelObservationKind, invocation: &KernelInvocation) -> (r:
    KernelObservation)
    ensures
        r@ == dispatch_observation(kind, invocation@),
{
    KernelObservation::new(kind).with_kernel(&invocation.kernel).with_invocation(
        invocation.id.clone(),
    )
}

/// A read gives back what the last write under the identifier wrote, and a
/// write changes no other tensor.
pub proof fn law_read_after_write(s: ExecutorState, id: Seq<char>, tensor: Tensor, other: Seq<char>)
    ensures
        stored(writing(s, id, tensor), id) == Some(tensor),
        other != id ==> stored(writing(s, id, tensor), other) == stored(s, other),
{
}

/// A tensor that was dropped is gone, dropping it again changes nothing, and
/// no other tensor changes.
pub proof fn law_release(s: ExecutorState, id: Seq<char>, other: Seq<char>)
    ensures
        stored(releasing(s, id), id) is None,
        releasing(releasing(s, id), id) == releasing(s, id),
        other != id ==> stored(releasing(s, id), other) == stored(s, other),
{
    assert(releasing(releasing(s, id), id) =~= releasing(s, id));
}

/// A tensor that was written under admission is read back, and is backed by the
/// memory that was admitted for it. Neither the tensors nor the memory under
/// other identifiers change. A write that is denied memory changes nothing.
pub proof fn law_admitted_write<M: MemoryLedger>(
    s: ExecutorState,
    memory: M,
    id: Seq<char>,
    tensor: Tensor,
    class: MemoryAllocationClass,
    owner: Owner,
    s_after: ExecutorState,
    after: M,
    r: Result<(), M::Denial>,
    other: Seq<char>,
)
    requires
        writes_admitted(s, memory, id, tensor, class, owner, s_after, after, r),
    ensures
        r is Err ==> s_after == s,
        r is Ok ==> {
            &&& stored(s_after, id) == Some(tensor)
            &&& exists|allocation: u64, asked: M|
                #[trigger] obtains(
                    memory,
                    tensor_request(tensor, class, owner),
                    Ok(allocation),
                    asked,
                ) && allocation_of(s_after, id) == Some(allocation)
            &&& other != id ==> stored(s_after, other) == stored(s, other) && allocation_of(
                s_after,
                other,
            ) == allocation_of(s, other)
        },
{
}

/// Writing a tensor again under admission releases the memory of the tensor
/// that it replaces.
pub proof fn law_admitted_rewrite<M: MemoryLedger>(
    s: ExecutorState,
    memory: M,
    id: Seq<char>,
    tensor: Tensor,
    class: MemoryAllocationClass,
    owner: Owner,
    s_after: ExecutorState,
    after: M,
    r: Result<(), M::Denial>,
)
    requires
        allocation_of(s, id) is Some,
        writes_admitted(s, memory, id, tensor, class, owner, s_after, after, r),
        r is Ok,
    ensures
        exists|asked: M|
            #[trigger] gives_back(asked, allocation_of(s, id), after) && exists|allocation: u64|
                #[trigger] obtains(
                    memory,
                    tensor_request(tensor, class, owner),
                    Ok(allocation),
                    asked,
                ),
{
}

/// Releasing an admitted tensor forgets its memory: a second release has
/// nothing to give back.
pub proof fn law_admitted_release(s: ExecutorState, id: Seq<char>, other: Seq<char>)
    ensures
        ({
            let after = releasing_admitted(s, id);
            &&& stored(after, id) is None
            &&& allocation_of(after, id) is None
            &&& other != id ==> stored(after, other) == stored(s, other) && allocation_of(
                after,
                other,
            ) == allocation_of(s, other)
        }),
{
}

/// An unadmitted write leaves the memory that backs tensors alone.
pub proof fn law_unadmitted_write(s: ExecutorState, id: Seq<char>, tensor: Tensor)
    ensures
        writing(s, id, tensor).resource_allocations == s.resource_allocations,
{
}

/// An execution either fails and leaves every tensor as it was, or succeeds
/// and writes its first output and no other tensor. It fails where it has an
/// error, and only there.
pub proof fn law_execution<A: Arithmetic>(
    ops: &A,
    inv: Invocation,
    refusal: Option<KernelFault>,
    browser: bool,
    s: ExecutorState,
    after: ExecutorState,
    r: Outcome,
)
    requires
        executes(ops, inv, refusal, browser, s, after, r),
    ensures
        r.invocation == inv.id,
        r.status == KernelResultStatus::Succeeded || r.status == KernelResultStatus::Failed,
        r.status == KernelResultStatus::Failed ==> {
            &&& after.storage == s.storage
            &&& r.error is Some
            &&& r.updated_resources.len() == 0
        },
        r.status == KernelResultStatus::Succeeded ==> {
            &&& inv.outputs.len() > 0
            &&& r == success(inv.id, inv.outputs[0])
            &&& after.storage.contains_key(inv.outputs[0].id)
            &&& after.storage == s.storage.insert(
                inv.outputs[0].id,
                after.storage[inv.outputs[0].id],
            )
        },
{
    if inv.deadline_millis != Some(0u64) && refusal is None {
        let (storage, end) = choose|
            storage: Map<Seq<char>, Tensor>,
            end: Result<Outcome, KernelFault>,
        |
            {
                &&& #[trigger] run_gives(ops, inv, browser, s.storage, storage, end)
                &&& after == end_state(s, inv, storage, end)
                &&& r == end_outcome(inv, end)
            };
        let call = choose|call: Result<Call, KernelFault>|
            {
                &&& #[trigger] prepares(ops, inv, s.storage, browser, call)
                &&& match call {
                    Err(f) => storage == s.storage && end == Err::<Outcome, KernelFault>(f),
                    Ok(c) => call_stores(ops, c, inv, s.storage, storage, end),
                }
            };
        if call is Ok {
            let out = choose|out: Result<HostTensor, ReferenceCpuError>| #[trigger]
                call_gives(ops, call->Ok_0, out) && stores(inv, s.storage, out, storage, end);
            if out is Ok && inv.outputs.len() > 0 {
                let id = inv.outputs[0].id;
                assert(storage[id] == out->Ok_0@);
                assert(after.storage == s.storage.insert(id, after.storage[id]));
            }
        }
    }
}

/// An execution is observed from start to end: its start comes first, then
/// exactly one end, which tells the result. Nothing else but the storage
/// changes.
pub proof fn law_execution_observed<A: Arithmetic>(
    ops: &A,
    inv: Invocation,
    refusal: Option<KernelFault>,
    browser: bool,
    s: ExecutorState,
    after: ExecutorState,
    r: Outcome,
)
    requires
        executes(ops, inv, refusal, browser, s, after, r),
    ensures
        ({
            let n = s.observations.len() as int;
            let start = after.observations[n];
            let end = after.observations[n + 1];
            &&& after.observations.len() == n + 2
            &&& s.observations.is_prefix_of(after.observations)
            &&& start == dispatch_observation(KernelObservationKind::KernelDispatchStarted, inv)
            &&& end.invocation == Some(inv.id)
            &&& end.kernel == Some(kernel_key(inv.kernel))
            &&& r.status == KernelResultStatus::Succeeded <==> end.kind
                == KernelObservationKind::KernelDispatchCompleted
            &&& inv.deadline_millis == Some(0u64) <==> end.kind
                == KernelObservationKind::KernelTimeout
            &&& after == (ExecutorState {
                storage: after.storage,
                observations: after.observations,
                ..s
            })
        }),
{
    law_execution(ops, inv, refusal, browser, s, after, r);
}

/// An invocation whose deadline has passed, or that is not valid, is refused
/// as it was found, whatever its kernel would give.
pub proof fn law_refused_execution<A: Arithmetic>(
    ops: &A,
    inv: Invocation,
    refusal: Option<KernelFault>,
    browser: bool,
    s: ExecutorState,
    after: ExecutorState,
    r: Outcome,
)
    requires
        executes(ops, inv, refusal, browser, s, after, r),
        !comes_to_run(inv, refusal),
    ensures
        after.storage == s.storage,
        r == failure(
            inv.id,
            if inv.deadline_millis == Some(0u64) {
                fault(KernelErrorCode::KernelTimeout, Seq::empty())
            } else {
                refusal->Some_0
            },
        ),
{
}

/// The result of a kernel is handed out under its handle, and only once.
pub proof fn law_kernel_completed_once(s: ExecutorState, id: Seq<char>, r: Outcome, other: Seq<char>)
    ensures
        ({
            let recorded = recording(s, id, r);
            let completed = completing_kernel(recorded, id);
            &&& recorded.kernel_executions.contains_key(id)
            &&& recorded.kernel_executions[id] == r
            &&& !completed.kernel_executions.contains_key(id)
            &&& other != id ==> (completed.kernel_executions.contains_key(other)
                <==> s.kernel_executions.contains_key(other))
        }),
{
}

/// A submission is completed only once, and none is completed that was not
/// submitted.
pub proof fn law_completed_once(s: ExecutorState, id: Seq<char>, other: Seq<char>)
    ensures
        submitting(s, id).submitted.contains(id),
        !completing(submitting(s, id), id).submitted.contains(id),
        !s.submitted.contains(id) ==> completing(submitting(s, id), id) == s,
        other != id ==> (completing(submitting(s, id), id).submitted.contains(other)
            <==> s.submitted.contains(other)),
        initial_state().submitted == Set::<Seq<char>>::empty(),
{
    if !s.submitted.contains(id) {
        assert(completing(submitting(s, id), id) =~= s);
    }
}

/// Handles that are given out under different ordinals are different, whatever
/// the invocations.
pub proof fn law_handles_apart(
    s: ExecutorState,
    inv: Invocation,
    s2: ExecutorState,
    inv2: Invocation,
)
    requires
        s.next_execution_ordinal != s2.next_execution_ordinal,
    ensures
        kernel_handle(s, inv).id != kernel_handle(s2, inv2).id,
        numbering(s).next_execution_ordinal != s.next_execution_ordinal,
{
    if kernel_handle(s, inv).id == kernel_handle(s2, inv2).id {
        law_execution_ids(
            inv.id,
            s.next_execution_ordinal,
            inv2.id,
            s2.next_execution_ordinal,
        );
    }
}

/// The use of fallback is never silent: that it was considered is observed,
/// and then whether it was used.
pub proof fn law_fallback_observed(
    s: ExecutorState,
    kernel: Kernel,
    affinity: Affinity,
    context: FallbackPolicyContext,
)
    ensures
        ({
            let after = fallback_state(s, kernel, affinity, context);
            let n = s.observations.len() as int;
            &&& after.observations.len() == n + 2
            &&& s.observations.is_prefix_of(after.observations)
            &&& after.observations[n].kind == KernelObservationKind::KernelFallbackConsidered
            &&& after.observations[n + 1].kind == (if fallback_refusal(affinity, context) is None {
                KernelObservationKind::KernelFallbackUsed
            } else {
                KernelObservationKind::KernelFallbackFailed
            })
            &&& after == (ExecutorState { observations: after.observations, ..s })
        }),
{
}

/// Running an invocation that fails writes no tensor.
pub proof fn law_failed_run<A: Arithmetic>(
    ops: &A,
    inv: Invocation,
    browser: bool,
    storage: Map<Seq<char>, Tensor>,
    after: Map<Seq<char>, Tensor>,
    r: Result<Outcome, KernelFault>,
)
    requires
        run_gives(ops, inv, browser, storage, after, r),
        r is Err,
    ensures
        after == storage,
{
}

/// Under an arithmetic with one result for the same operands, running an
/// invocation has one result.
pub proof fn law_run_once<A: Arithmetic>(
    ops: &A,
    inv: Invocation,
    browser: bool,
    storage: Map<Seq<char>, Tensor>,
    after: Map<Seq<char>, Tensor>,
    r: Result<Outcome, KernelFault>,
    after2: Map<Seq<char>, Tensor>,
    r2: Result<Outcome, KernelFault>,
)
    requires
        single_valued(ops),
        run_gives(ops, inv, browser, storage, after, r),
        run_gives(ops, inv, browser, storage, after2, r2),
    ensures
        after == after2,
        r == r2,
{
    let call = choose|call: Result<Call, KernelFault>|
        {
            &&& #[trigger] prepares(ops, inv, storage, browser, call)
            &&& match call {
                Err(f) => after == storage && r == Err::<Outcome, KernelFault>(f),
                Ok(c) => call_stores(ops, c, inv, storage, after, r),
            }
        };
    let call2 = choose|call: Result<Call, KernelFault>|
        {
            &&& #[trigger] prepares(ops, inv, storage, browser, call)
            &&& match call {
                Err(f) => after2 == storage && r2 == Err::<Outcome, KernelFault>(f),
                Ok(c) => call_stores(ops, c, inv, storage, after2, r2),
            }
        };
    law_prepared_once(ops, inv, storage, browser, call, call2);
    if call is Ok {
        let out = choose|out: Result<HostTensor, ReferenceCpuError>| #[trigger]
            call_gives(ops, call->Ok_0, out) && stores(inv, storage, out, after, r);
        let out2 = choose|out: Result<HostTensor, ReferenceCpuError>| #[trigger]
            call_gives(ops, call->Ok_0, out) && stores(inv, storage, out, after2, r2);
        law_call_once(ops, call->Ok_0, out, out2);
    }
}

/// Under an arithmetic with one result for the same operands, the same
/// invocation in the same state is executed in one way.
pub proof fn law_execution_once<A: Arithmetic>(
    ops: &A,
    inv: Invocation,
    refusal: Option<KernelFault>,
    browser: bool,
    s: ExecutorState,
    after: ExecutorState,
    r: Outcome,
    after2: ExecutorState,
    r2: Outcome,
)
    requires
        single_valued(ops),
        executes(ops, inv, refusal, browser, s, after, r),
        executes(ops, inv, refusal, browser, s, after2, r2),
    ensures
        after == after2,
        r == r2,
{
    if inv.deadline_millis != Some(0u64) && refusal is None {
        let (storage, end) = choose|
            storage: Map<Seq<char>, Tensor>,
            end: Result<Outcome, KernelFault>,
        |
            {
                &&& #[trigger] run_gives(ops, inv, browser, s.storage, storage, end)
                &&& after == end_state(s, inv, storage, end)
                &&& r == end_outcome(inv, end)
            };
        let (storage2, end2) = choose|
            storage: Map<Seq<char>, Tensor>,
            end: Result<Outcome, KernelFault>,
        |
            {
                &&& #[trigger] run_gives(ops, inv, browser, s.storage, storage, end)
                &&& after2 == end_state(s, inv, storage, end)
                &&& r2 == end_outcome(inv, end)
            };
        law_run_once(ops, inv, browser, s.storage, storage, end, storage2, end2);
    }
}

} // verus!
