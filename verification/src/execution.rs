//! Handles, states and errors of execution, as the runtime sees them.

use vstd::prelude::*;

use crate::error::optional_text;
use crate::identity::REFERENCE_CPU_PROVIDER_NAME;
use crate::invocation::TensorResourceDescriptor;
use crate::observation::optional_clone;
use crate::text::{decimal, decimal_text, lemma_decimal_digits, lemma_decimal_injective};

verus! {

/// What a submission is known by.
#[derive(Debug, PartialEq, Eq)]
pub struct ProviderExecutionHandle {
    /// The identifier of the execution.
    pub id: String,
    /// The operation of the scheduler.
    pub operation: u64,
    /// The plan.
    pub plan: String,
    /// The provider.
    pub provider: String,
    /// The device, if one is named.
    pub device: Option<String>,
}

/// What a [`ProviderExecutionHandle`] stands for.
pub struct Handle {
    /// The identifier of the execution.
    pub id: Seq<char>,
    /// The operation of the scheduler.
    pub operation: u64,
    /// The plan.
    pub plan: Seq<char>,
    /// The provider.
    pub provider: Seq<char>,
    /// The device, if one is named.
    pub device: Option<Seq<char>>,
}

impl View for ProviderExecutionHandle {
    type V = Handle;

    open spec fn view(&self) -> Handle {
        Handle {
            id: self.id@,
            operation: self.operation,
            plan: self.plan@,
            provider: self.provider@,
            device: optional_text(self.device),
        }
    }
}

impl Clone for ProviderExecutionHandle {
    fn clone(&self) -> (r: ProviderExecutionHandle)
        ensures
            r@ == self@,
    {
        ProviderExecutionHandle {
            id: self.id.clone(),
            operation: self.operation,
            plan: self.plan.clone(),
            provider: self.provider.clone(),
            device: optional_clone(&self.device),
        }
    }
}

/// The identifier of the execution of an invocation.
pub open spec fn execution_id(label: Seq<char>, ordinal: u64) -> Seq<char> {
    REFERENCE_CPU_PROVIDER_NAME@ + ":"@ + label + ":"@ + decimal(ordinal as nat)
}

/// Writes the identifier of the execution of an invocation.
pub fn execution_id_text(label: &str, ordinal: u64) -> (r: String)
    ensures
        r@ == execution_id(label@, ordinal),
{
    let mut r = REFERENCE_CPU_PROVIDER_NAME.to_owned();
    r.append(":");
    r.append(label);
    r.append(":");
    r.append(decimal_text(ordinal).as_str());
    r
}

/// Executions with different ordinals, or of different invocations, have
/// different identifiers.
pub proof fn law_execution_ids(label: Seq<char>, ordinal: u64, label2: Seq<char>, ordinal2: u64)
    requires
        execution_id(label, ordinal) == execution_id(label2, ordinal2),
    ensures
        ordinal == ordinal2,
        label == label2,
{
    reveal_strlit(":");
    let head = REFERENCE_CPU_PROVIDER_NAME@ + ":"@;
    let x = execution_id(label, ordinal);
    let d = decimal(ordinal as nat);
    let d2 = decimal(ordinal2 as nat);
    let n = x.len() - d.len();
    let n2 = x.len() - d2.len();
    assert(x.subrange(n as int, x.len() as int) =~= d);
    assert(execution_id(label2, ordinal2).subrange(n2 as int, x.len() as int) =~= d2);
    assert(x[n - 1] == ':');
    assert(execution_id(label2, ordinal2)[n2 - 1] == ':');
    if n < n2 {
        assert(d[n2 - 1 - n] == x[n2 - 1]);
        lemma_decimal_digits(ordinal as nat, n2 - 1 - n);
    } else if n2 < n {
        assert(d2[n - 1 - n2] == x[n - 1]);
        lemma_decimal_digits(ordinal2 as nat, n - 1 - n2);
    }
    lemma_decimal_injective(ordinal as nat, ordinal2 as nat);
    assert(x.subrange(head.len() as int, n - 1) =~= label);
    assert(execution_id(label2, ordinal2).subrange(head.len() as int, n2 - 1) =~= label2);
}

/// Where an operation stands.
#[derive(Clone, Copy, Debug, PartialEq, Eq, Structural)]
pub enum SchedulingState {
    /// Taken.
    Accepted,
    /// In a queue.
    Queued,
    /// Ready to start.
    Ready,
    /// Handed to a provider.
    Submitted,
    /// At work.
    Running,
    /// Done.
    Completed,
    /// Cancelled.
    Cancelled,
    /// Failed.
    Failed,
    /// Interrupted.
    Interrupted,
}

/// What became of a wish to cancel.
#[derive(Clone, Copy, Debug, PartialEq, Eq, Structural)]
pub enum ProviderCancellationOutcome {
    /// It was taken.
    Accepted,
    /// The provider does not cancel.
    Unsupported,
    /// The operation had ended.
    AlreadyTerminal(SchedulingState),
}

/// What an execution was at when it went wrong.
#[derive(Clone, Copy, Debug, PartialEq, Eq, Structural)]
pub enum ProviderExecutionPhase {
    /// Preparation.
    Prepare,
    /// Submission.
    Submit,
    /// Observation.
    Observe,
    /// Cancellation.
    Cancel,
    /// Completion.
    Complete,
    /// Release.
    Release,
}

/// What went wrong with an execution.
#[derive(Clone, Copy, Debug, PartialEq, Eq, Structural)]
pub enum ProviderExecutionErrorCode {
    /// The provider does not do that.
    UnsupportedOperation,
    /// It could not be submitted.
    SubmissionFailed,
    /// It could not be executed.
    ExecutionFailed,
}

/// An error of execution.
#[derive(Debug, PartialEq, Eq)]
pub struct ProviderExecutionError {
    /// What went wrong.
    pub code: ProviderExecutionErrorCode,
    /// What it was at.
    pub phase: ProviderExecutionPhase,
    /// The provider.
    pub provider: String,
    /// The device, if one is named.
    pub device: Option<String>,
    /// What went wrong, in words.
    pub message: String,
}

/// What a [`ProviderExecutionError`] stands for.
pub struct ExecutionFault {
    /// What went wrong.
    pub code: ProviderExecutionErrorCode,
    /// What it was at.
    pub phase: ProviderExecutionPhase,
    /// The provider.
    pub provider: Seq<char>,
    /// The device, if one is named.
    pub device: Option<Seq<char>>,
    /// What went wrong, in words.
    pub message: Seq<char>,
}

impl View for ProviderExecutionError {
    type V = ExecutionFault;

    open spec fn view(&self) -> ExecutionFault {
        ExecutionFault {
            code: self.code,
            phase: self.phase,
            provider: self.provider@,
            device: optional_text(self.device),
            message: self.message@,
        }
    }
}

/// The error for a handle that stands for nothing.
pub open spec fn no_execution(
    handle: Handle,
    phase: ProviderExecutionPhase,
    message: Seq<char>,
) -> ExecutionFault {
    ExecutionFault {
        code: ProviderExecutionErrorCode::ExecutionFailed,
        phase,
        provider: handle.provider,
        device: handle.device,
        message,
    }
}

/// The message for the status of a handle that stands for nothing.
pub const NO_SUBMISSION_TO_OBSERVE: &'static str =
    "no submission is associated with this handle: it was never submitted, or has already been completed and released";

/// The message for the completion of a handle that stands for nothing.
pub const NO_SUBMISSION_TO_COMPLETE: &'static str =
    "no submission is associated with this handle: it was never submitted, or has already been completed once";

/// The message for the completion of a kernel with a handle that stands for
/// nothing.
pub const NO_KERNEL_TO_COMPLETE: &'static str =
    "no Kernel execution is associated with this handle: it was never submitted through submit_kernel_invocation, or has already been completed once";

impl ProviderExecutionError {
    /// The error for a handle that stands for nothing.
    pub fn no_execution(
        handle: &ProviderExecutionHandle,
        phase: ProviderExecutionPhase,
        message: &str,
    ) -> (r: ProviderExecutionError)
        ensures
            r@ == no_execution(handle@, phase, message@),
    {
        ProviderExecutionError {
            code: ProviderExecutionErrorCode::ExecutionFailed,
            phase,
            provider: handle.provider.clone(),
            device: optional_clone(&handle.device),
            message: message.to_owned(),
        }
    }
}

/// Where an execution stands.
#[derive(Debug, PartialEq, Eq)]
pub struct ProviderExecutionStatus {
    /// The execution.
    pub handle: ProviderExecutionHandle,
    /// Where it stands.
    pub state: SchedulingState,
}

/// How an execution ended.
#[derive(Debug, PartialEq, Eq)]
pub struct ProviderExecutionResult {
    /// The execution.
    pub handle: ProviderExecutionHandle,
    /// How it ended.
    pub state: SchedulingState,
    /// What it wrote.
    pub outputs: Vec<TensorResourceDescriptor>,
}

} // verus!
