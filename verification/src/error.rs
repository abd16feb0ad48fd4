//! The two error models: refusals of the numeric kernels, and errors of the
//! kernel contract that they are reported as.

use vstd::prelude::*;

verus! {

/// Why the provider refuses.
#[derive(Clone, Copy, Debug, PartialEq, Eq, Structural)]
pub enum ReferenceCpuErrorCode {
    /// The provider is not available.
    ProviderUnavailable,
    /// Policy disables the provider.
    ProviderDisabledByPolicy,
    /// The device is not available.
    DeviceUnavailable,
    /// No such kernel.
    KernelNotFound,
    /// An element type other than single precision.
    DTypeUnsupported,
    /// A layout other than contiguous.
    LayoutUnsupported,
    /// Shapes, ranks or parameters that a kernel does not take.
    ShapeUnsupported,
    /// A memory class other than host memory.
    MemoryClassUnsupported,
    /// No workspace.
    WorkspaceUnavailable,
    /// A kernel could not compute its output.
    ExecutionFailed,
    /// Deterministic execution is not available.
    DeterministicModeUnsupported,
    /// The precision is not available.
    PrecisionUnsupported,
    /// A conformance check failed.
    ConformanceFailed,
    /// Fallback to this provider is denied.
    FallbackDenied,
    /// A feature that a browser does not offer.
    BrowserFeatureUnsupported,
    /// An internal error.
    Internal,
}

/// The stable identifier of a code.
pub open spec fn reference_cpu_error_id(code: ReferenceCpuErrorCode) -> Seq<char> {
    match code {
        ReferenceCpuErrorCode::ProviderUnavailable => "reference-cpu-provider-unavailable"@,
        ReferenceCpuErrorCode::ProviderDisabledByPolicy => "reference-cpu-provider-disabled-by-policy"@,
        ReferenceCpuErrorCode::DeviceUnavailable => "reference-cpu-device-unavailable"@,
        ReferenceCpuErrorCode::KernelNotFound => "reference-cpu-kernel-not-found"@,
        ReferenceCpuErrorCode::DTypeUnsupported => "reference-cpu-dtype-unsupported"@,
        ReferenceCpuErrorCode::LayoutUnsupported => "reference-cpu-layout-unsupported"@,
        ReferenceCpuErrorCode::ShapeUnsupported => "reference-cpu-shape-unsupported"@,
        ReferenceCpuErrorCode::MemoryClassUnsupported => "reference-cpu-memory-class-unsupported"@,
        ReferenceCpuErrorCode::WorkspaceUnavailable => "reference-cpu-workspace-unavailable"@,
        ReferenceCpuErrorCode::ExecutionFailed => "reference-cpu-execution-failed"@,
        ReferenceCpuErrorCode::DeterministicModeUnsupported => "reference-cpu-deterministic-mode-unsupported"@,
        ReferenceCpuErrorCode::PrecisionUnsupported => "reference-cpu-precision-unsupported"@,
        ReferenceCpuErrorCode::ConformanceFailed => "reference-cpu-conformance-failed"@,
        ReferenceCpuErrorCode::FallbackDenied => "reference-cpu-fallback-denied"@,
        ReferenceCpuErrorCode::BrowserFeatureUnsupported => "reference-cpu-browser-feature-unsupported"@,
        ReferenceCpuErrorCode::Internal => "internal-reference-cpu"@,
    }
}

impl ReferenceCpuErrorCode {
    /// The stable identifier of the code.
    pub fn id(self) -> (r: &'static str)
        ensures
            r@ == reference_cpu_error_id(self),
    {
        match self {
            ReferenceCpuErrorCode::ProviderUnavailable => "reference-cpu-provider-unavailable",
            ReferenceCpuErrorCode::ProviderDisabledByPolicy => "reference-cpu-provider-disabled-by-policy",
            ReferenceCpuErrorCode::DeviceUnavailable => "reference-cpu-device-unavailable",
            ReferenceCpuErrorCode::KernelNotFound => "reference-cpu-kernel-not-found",
            ReferenceCpuErrorCode::DTypeUnsupported => "reference-cpu-dtype-unsupported",
            ReferenceCpuErrorCode::LayoutUnsupported => "reference-cpu-layout-unsupported",
            ReferenceCpuErrorCode::ShapeUnsupported => "reference-cpu-shape-unsupported",
            ReferenceCpuErrorCode::MemoryClassUnsupported => "reference-cpu-memory-class-unsupported",
            ReferenceCpuErrorCode::WorkspaceUnavailable => "reference-cpu-workspace-unavailable",
            ReferenceCpuErrorCode::ExecutionFailed => "reference-cpu-execution-failed",
            ReferenceCpuErrorCode::DeterministicModeUnsupported => "reference-cpu-deterministic-mode-unsupported",
            ReferenceCpuErrorCode::PrecisionUnsupported => "reference-cpu-precision-unsupported",
            ReferenceCpuErrorCode::ConformanceFailed => "reference-cpu-conformance-failed",
            ReferenceCpuErrorCode::FallbackDenied => "reference-cpu-fallback-denied",
            ReferenceCpuErrorCode::BrowserFeatureUnsupported => "reference-cpu-browser-feature-unsupported",
            ReferenceCpuErrorCode::Internal => "internal-reference-cpu",
        }
    }
}

/// A refusal: its code, and its reason in words.
#[derive(Debug, PartialEq, Eq)]
pub struct ReferenceCpuError {
    /// The code.
    pub code: ReferenceCpuErrorCode,
    /// The reason in words.
    pub reason: String,
}

/// What a [`ReferenceCpuError`] stands for.
pub struct Refusal {
    /// The code.
    pub code: ReferenceCpuErrorCode,
    /// The reason in words.
    pub reason: Seq<char>,
}

impl View for ReferenceCpuError {
    type V = Refusal;

    open spec fn view(&self) -> Refusal {
        Refusal { code: self.code, reason: self.reason@ }
    }
}

/// A refusal with the code for shapes.
pub open spec fn shape_refusal(reason: Seq<char>) -> Refusal {
    Refusal { code: ReferenceCpuErrorCode::ShapeUnsupported, reason }
}

impl ReferenceCpuError {
    /// A refusal with a code and a reason.
    pub fn new(code: ReferenceCpuErrorCode, reason: String) -> (r: ReferenceCpuError)
        ensures
            r@ == (Refusal { code, reason: reason@ }),
    {
        ReferenceCpuError { code, reason }
    }

    /// A refusal with the code for shapes.
    pub fn shape(reason: String) -> (r: ReferenceCpuError)
        ensures
            r@ == shape_refusal(reason@),
    {
        ReferenceCpuError { code: ReferenceCpuErrorCode::ShapeUnsupported, reason }
    }

    /// The stable identifier of the code.
    pub fn id(&self) -> (r: &'static str)
        ensures
            r@ == reference_cpu_error_id(self.code),
    {
        self.code.id()
    }

    /// The identifier and the reason, as one line.
    pub fn message(&self) -> (r: String)
        ensures
            r@ == refusal_message(self@),
    {
        let mut s = self.id().to_owned();
        s.append(": ");
        s.append(self.reason.as_str());
        s
    }
}

/// The identifier and the reason of a refusal, as one line.
pub open spec fn refusal_message(e: Refusal) -> Seq<char> {
    reference_cpu_error_id(e.code) + ": "@ + e.reason
}

/// Which error of the kernel contract it is.
#[derive(Clone, Copy, Debug, PartialEq, Eq, Structural)]
pub enum KernelErrorCode {
    /// `kernel-not-found`
    KernelNotFound,
    /// `kernel-version-unsupported`
    KernelVersionUnsupported,
    /// `kernel-operator-mismatch`
    KernelOperatorMismatch,
    /// `kernel-attribute-unsupported`
    KernelAttributeUnsupported,
    /// `kernel-shape-unsupported`
    KernelShapeUnsupported,
    /// `kernel-dtype-unsupported`
    KernelDTypeUnsupported,
    /// `kernel-layout-unsupported`
    KernelLayoutUnsupported,
    /// `kernel-memory-class-unsupported`
    KernelMemoryClassUnsupported,
    /// `kernel-workspace-unavailable`
    KernelWorkspaceUnavailable,
    /// `kernel-aliasing-unsupported`
    KernelAliasingUnsupported,
    /// `kernel-resource-affinity-conflict`
    KernelResourceAffinityConflict,
    /// `kernel-device-unsupported`
    KernelDeviceUnsupported,
    /// `kernel-provider-unavailable`
    KernelProviderUnavailable,
    /// `kernel-provider-not-ready`
    KernelProviderNotReady,
    /// `kernel-provider-saturated`
    KernelProviderSaturated,
    /// `kernel-execution-failed`
    KernelExecutionFailed,
    /// `kernel-out-of-device-memory`
    KernelOutOfDeviceMemory,
    /// `kernel-cancellation-unsupported`
    KernelCancellationUnsupported,
    /// `kernel-cancelled`
    KernelCancelled,
    /// `kernel-timeout`
    KernelTimeout,
    /// `kernel-determinism-unsupported`
    KernelDeterminismUnsupported,
    /// `kernel-precision-unsupported`
    KernelPrecisionUnsupported,
    /// `kernel-conformance-failed`
    KernelConformanceFailed,
    /// `kernel-browser-feature-unsupported`
    KernelBrowserFeatureUnsupported,
    /// `internal-kernel`
    InternalKernel,
}

/// The stable identifier of a code.
pub open spec fn kernel_error_id(code: KernelErrorCode) -> Seq<char> {
    match code {
        KernelErrorCode::KernelNotFound => "kernel-not-found"@,
        KernelErrorCode::KernelVersionUnsupported => "kernel-version-unsupported"@,
        KernelErrorCode::KernelOperatorMismatch => "kernel-operator-mismatch"@,
        KernelErrorCode::KernelAttributeUnsupported => "kernel-attribute-unsupported"@,
        KernelErrorCode::KernelShapeUnsupported => "kernel-shape-unsupported"@,
        KernelErrorCode::KernelDTypeUnsupported => "kernel-dtype-unsupported"@,
        KernelErrorCode::KernelLayoutUnsupported => "kernel-layout-unsupported"@,
        KernelErrorCode::KernelMemoryClassUnsupported => "kernel-memory-class-unsupported"@,
        KernelErrorCode::KernelWorkspaceUnavailable => "kernel-workspace-unavailable"@,
        KernelErrorCode::KernelAliasingUnsupported => "kernel-aliasing-unsupported"@,
        KernelErrorCode::KernelResourceAffinityConflict => "kernel-resource-affinity-conflict"@,
        KernelErrorCode::KernelDeviceUnsupported => "kernel-device-unsupported"@,
        KernelErrorCode::KernelProviderUnavailable => "kernel-provider-unavailable"@,
        KernelErrorCode::KernelProviderNotReady => "kernel-provider-not-ready"@,
        KernelErrorCode::KernelProviderSaturated => "kernel-provider-saturated"@,
        KernelErrorCode::KernelExecutionFailed => "kernel-execution-failed"@,
        KernelErrorCode::KernelOutOfDeviceMemory => "kernel-out-of-device-memory"@,
        KernelErrorCode::KernelCancellationUnsupported => "kernel-cancellation-unsupported"@,
        KernelErrorCode::KernelCancelled => "kernel-cancelled"@,
        KernelErrorCode::KernelTimeout => "kernel-timeout"@,
        KernelErrorCode::KernelDeterminismUnsupported => "kernel-determinism-unsupported"@,
        KernelErrorCode::KernelPrecisionUnsupported => "kernel-precision-unsupported"@,
        KernelErrorCode::KernelConformanceFailed => "kernel-conformance-failed"@,
        KernelErrorCode::KernelBrowserFeatureUnsupported => "kernel-browser-feature-unsupported"@,
        KernelErrorCode::InternalKernel => "internal-kernel"@,
    }
}

impl KernelErrorCode {
    /// The stable identifier of the code.
    pub fn id(self) -> (r: &'static str)
        ensures
            r@ == kernel_error_id(self),
    {
        match self {
            KernelErrorCode::KernelNotFound => "kernel-not-found",
            KernelErrorCode::KernelVersionUnsupported => "kernel-version-unsupported",
            KernelErrorCode::KernelOperatorMismatch => "kernel-operator-mismatch",
            KernelErrorCode::KernelAttributeUnsupported => "kernel-attribute-unsupported",
            KernelErrorCode::KernelShapeUnsupported => "kernel-shape-unsupported",
            KernelErrorCode::KernelDTypeUnsupported => "kernel-dtype-unsupported",
            KernelErrorCode::KernelLayoutUnsupported => "kernel-layout-unsupported",
            KernelErrorCode::KernelMemoryClassUnsupported => "kernel-memory-class-unsupported",
            KernelErrorCode::KernelWorkspaceUnavailable => "kernel-workspace-unavailable",
            KernelErrorCode::KernelAliasingUnsupported => "kernel-aliasing-unsupported",
            KernelErrorCode::KernelResourceAffinityConflict => "kernel-resource-affinity-conflict",
            KernelErrorCode::KernelDeviceUnsupported => "kernel-device-unsupported",
            KernelErrorCode::KernelProviderUnavailable => "kernel-provider-unavailable",
            KernelErrorCode::KernelProviderNotReady => "kernel-provider-not-ready",
            KernelErrorCode::KernelProviderSaturated => "kernel-provider-saturated",
            KernelErrorCode::KernelExecutionFailed => "kernel-execution-failed",
            KernelErrorCode::KernelOutOfDeviceMemory => "kernel-out-of-device-memory",
            KernelErrorCode::KernelCancellationUnsupported => "kernel-cancellation-unsupported",
            KernelErrorCode::KernelCancelled => "kernel-cancelled",
            KernelErrorCode::KernelTimeout => "kernel-timeout",
            KernelErrorCode::KernelDeterminismUnsupported => "kernel-determinism-unsupported",
            KernelErrorCode::KernelPrecisionUnsupported => "kernel-precision-unsupported",
            KernelErrorCode::KernelConformanceFailed => "kernel-conformance-failed",
            KernelErrorCode::KernelBrowserFeatureUnsupported => "kernel-browser-feature-unsupported",
            KernelErrorCode::InternalKernel => "internal-kernel",
        }
    }
}

/// An error of the kernel contract.
#[derive(Debug, PartialEq, Eq)]
pub struct KernelError {
    /// Which error it is.
    pub code: KernelErrorCode,
    /// The text that it carries; empty where it carries none.
    pub detail: String,
    /// What was found, where an operator was expected and another found.
    pub found: Option<String>,
}

/// What a [`KernelError`] stands for.
pub struct KernelFault {
    /// Which error it is.
    pub code: KernelErrorCode,
    /// The text that it carries.
    pub detail: Seq<char>,
    /// What was found instead.
    pub found: Option<Seq<char>>,
}

/// What an optional text stands for.
pub open spec fn optional_text(s: Option<String>) -> Option<Seq<char>> {
    match s {
        Some(text) => Some(text@),
        None => None,
    }
}

impl View for KernelError {
    type V = KernelFault;

    open spec fn view(&self) -> KernelFault {
        KernelFault { code: self.code, detail: self.detail@, found: optional_text(self.found) }
    }
}

/// An error with a text.
pub open spec fn fault(code: KernelErrorCode, detail: Seq<char>) -> KernelFault {
    KernelFault { code, detail, found: None }
}

/// The error that a refusal of a kernel is reported as.
pub open spec fn fault_of(e: Refusal) -> KernelFault {
    match e.code {
        ReferenceCpuErrorCode::DTypeUnsupported => fault(
            KernelErrorCode::KernelDTypeUnsupported,
            e.reason,
        ),
        ReferenceCpuErrorCode::LayoutUnsupported => fault(
            KernelErrorCode::KernelLayoutUnsupported,
            e.reason,
        ),
        ReferenceCpuErrorCode::ShapeUnsupported => fault(
            KernelErrorCode::KernelShapeUnsupported,
            e.reason,
        ),
        ReferenceCpuErrorCode::MemoryClassUnsupported => fault(
            KernelErrorCode::KernelMemoryClassUnsupported,
            e.reason,
        ),
        ReferenceCpuErrorCode::WorkspaceUnavailable => fault(
            KernelErrorCode::KernelWorkspaceUnavailable,
            Seq::empty(),
        ),
        ReferenceCpuErrorCode::KernelNotFound => fault(KernelErrorCode::KernelNotFound, e.reason),
        ReferenceCpuErrorCode::DeviceUnavailable => fault(
            KernelErrorCode::KernelDeviceUnsupported,
            e.reason,
        ),
        ReferenceCpuErrorCode::ProviderUnavailable
        | ReferenceCpuErrorCode::ProviderDisabledByPolicy => fault(
            KernelErrorCode::KernelProviderUnavailable,
            e.reason,
        ),
        ReferenceCpuErrorCode::DeterministicModeUnsupported => fault(
            KernelErrorCode::KernelDeterminismUnsupported,
            Seq::empty(),
        ),
        ReferenceCpuErrorCode::PrecisionUnsupported => fault(
            KernelErrorCode::KernelPrecisionUnsupported,
            Seq::empty(),
        ),
        ReferenceCpuErrorCode::ConformanceFailed => fault(
            KernelErrorCode::KernelConformanceFailed,
            e.reason,
        ),
        ReferenceCpuErrorCode::BrowserFeatureUnsupported => fault(
            KernelErrorCode::KernelBrowserFeatureUnsupported,
            e.reason,
        ),
        ReferenceCpuErrorCode::FallbackDenied | ReferenceCpuErrorCode::ExecutionFailed
        | ReferenceCpuErrorCode::Internal => fault(
            KernelErrorCode::KernelExecutionFailed,
            e.reason,
        ),
    }
}

impl KernelError {
    /// An error with a text.
    pub fn new(code: KernelErrorCode, detail: String) -> (r: KernelError)
        ensures
            r@ == fault(code, detail@),
    {
        KernelError { code, detail, found: None }
    }

    /// The stable identifier of the code.
    pub fn id(&self) -> (r: &'static str)
        ensures
            r@ == kernel_error_id(self.code),
    {
        self.code.id()
    }

    /// The error that a refusal of a kernel is reported as.
    pub fn from_refusal(error: ReferenceCpuError) -> (r: KernelError)
        ensures
            r@ == fault_of(error@),
    {
        let reason = error.reason;
        match error.code {
            ReferenceCpuErrorCode::DTypeUnsupported => KernelError::new(
                KernelErrorCode::KernelDTypeUnsupported,
                reason,
            ),
            ReferenceCpuErrorCode::LayoutUnsupported => KernelError::new(
                KernelErrorCode::KernelLayoutUnsupported,
                reason,
            ),
            ReferenceCpuErrorCode::ShapeUnsupported => KernelError::new(
                KernelErrorCode::KernelShapeUnsupported,
                reason,
            ),
            ReferenceCpuErrorCode::MemoryClassUnsupported => KernelError::new(
                KernelErrorCode::KernelMemoryClassUnsupported,
                reason,
            ),
            ReferenceCpuErrorCode::WorkspaceUnavailable => KernelError::new(
                KernelErrorCode::KernelWorkspaceUnavailable,
                String::new(),
            ),
            ReferenceCpuErrorCode::KernelNotFound => KernelError::new(
                KernelErrorCode::KernelNotFound,
                reason,
            ),
            ReferenceCpuErrorCode::DeviceUnavailable => KernelError::new(
                KernelErrorCode::KernelDeviceUnsupported,
                reason,
            ),
            ReferenceCpuErrorCode::ProviderUnavailable
            | ReferenceCpuErrorCode::ProviderDisabledByPolicy => KernelError::new(
                KernelErrorCode::KernelProviderUnavailable,
                reason,
            ),
            ReferenceCpuErrorCode::DeterministicModeUnsupported => KernelError::new(
                KernelErrorCode::KernelDeterminismUnsupported,
                String::new(),
            ),
            ReferenceCpuErrorCode::PrecisionUnsupported => KernelError::new(
                KernelErrorCode::KernelPrecisionUnsupported,
                String::new(),
            ),
            ReferenceCpuErrorCode::ConformanceFailed => KernelError::new(
                KernelErrorCode::KernelConformanceFailed,
                reason,
            ),
            ReferenceCpuErrorCode::BrowserFeatureUnsupported => KernelError::new(
                KernelErrorCode::KernelBrowserFeatureUnsupported,
                reason,
            ),
            ReferenceCpuErrorCode::FallbackDenied | ReferenceCpuErrorCode::ExecutionFailed
            | ReferenceCpuErrorCode::Internal => KernelError::new(
                KernelErrorCode::KernelExecutionFailed,
                reason,
            ),
        }
    }
}

} // verus!
