//! What is told of an error: its name, and what becomes of its words.

use vstd::prelude::*;

use crate::error::{
    fault_of, kernel_error_id, reference_cpu_error_id, KernelErrorCode, ReferenceCpuErrorCode,
    Refusal,
};

verus! {

/// No two codes have the same name.
pub proof fn law_refusals_named_apart(a: ReferenceCpuErrorCode, b: ReferenceCpuErrorCode)
    ensures
        reference_cpu_error_id(a) == reference_cpu_error_id(b) <==> a == b,
{
    reveal_strlit("reference-cpu-provider-unavailable");
    reveal_strlit("reference-cpu-provider-disabled-by-policy");
    reveal_strlit("reference-cpu-device-unavailable");
    reveal_strlit("reference-cpu-kernel-not-found");
    reveal_strlit("reference-cpu-dtype-unsupported");
    reveal_strlit("reference-cpu-layout-unsupported");
    reveal_strlit("reference-cpu-shape-unsupported");
    reveal_strlit("reference-cpu-memory-class-unsupported");
    reveal_strlit("reference-cpu-workspace-unavailable");
    reveal_strlit("reference-cpu-execution-failed");
    reveal_strlit("reference-cpu-deterministic-mode-unsupported");
    reveal_strlit("reference-cpu-precision-unsupported");
    reveal_strlit("reference-cpu-conformance-failed");
    reveal_strlit("reference-cpu-fallback-denied");
    reveal_strlit("reference-cpu-browser-feature-unsupported");
    reveal_strlit("internal-reference-cpu");
    if reference_cpu_error_id(a) == reference_cpu_error_id(b) {
        assert(reference_cpu_error_id(a).len() == reference_cpu_error_id(b).len());
        assert(reference_cpu_error_id(a)[14] == reference_cpu_error_id(b)[14]);
        assert(a == b);
    }
}

/// No two codes of the kernel contract have the same name.
pub proof fn law_faults_named_apart(a: KernelErrorCode, b: KernelErrorCode)
    ensures
        kernel_error_id(a) == kernel_error_id(b) <==> a == b,
{
    reveal_strlit("kernel-not-found");
    reveal_strlit("kernel-version-unsupported");
    reveal_strlit("kernel-operator-mismatch");
    reveal_strlit("kernel-attribute-unsupported");
    reveal_strlit("kernel-shape-unsupported");
    reveal_strlit("kernel-dtype-unsupported");
    reveal_strlit("kernel-layout-unsupported");
    reveal_strlit("kernel-memory-class-unsupported");
    reveal_strlit("kernel-workspace-unavailable");
    reveal_strlit("kernel-aliasing-unsupported");
    reveal_strlit("kernel-resource-affinity-conflict");
    reveal_strlit("kernel-device-unsupported");
    reveal_strlit("kernel-provider-unavailable");
    reveal_strlit("kernel-provider-not-ready");
    reveal_strlit("kernel-provider-saturated");
    reveal_strlit("kernel-execution-failed");
    reveal_strlit("kernel-out-of-device-memory");
    reveal_strlit("kernel-cancellation-unsupported");
    reveal_strlit("kernel-cancelled");
    reveal_strlit("kernel-timeout");
    reveal_strlit("kernel-determinism-unsupported");
    reveal_strlit("kernel-precision-unsupported");
    reveal_strlit("kernel-conformance-failed");
    reveal_strlit("kernel-browser-feature-unsupported");
    reveal_strlit("internal-kernel");
    if kernel_error_id(a) == kernel_error_id(b) {
        assert(kernel_error_id(a).len() == kernel_error_id(b).len());
        assert(kernel_error_id(a)[7] == kernel_error_id(b)[7]);
        assert(kernel_error_id(a)[16] == kernel_error_id(b)[16]);
        assert(a == b);
    }
}

/// A refusal is reported under the name that the kernel contract has for the same
/// thing, with the same words. Three are reported without words: there is nothing
/// to say of them but their name.
pub proof fn law_refusal_reported(e: Refusal)
    ensures
        ({
            let f = fault_of(e);
            let name = reference_cpu_error_id(e.code);
            let told = kernel_error_id(f.code);
            let wordless = e.code == ReferenceCpuErrorCode::WorkspaceUnavailable || e.code
                == ReferenceCpuErrorCode::DeterministicModeUnsupported || e.code
                == ReferenceCpuErrorCode::PrecisionUnsupported;
            &&& f.found is None
            &&& !wordless ==> f.detail == e.reason
            &&& wordless ==> f.detail.len() == 0
            &&& name == "reference-cpu-kernel-not-found"@ ==> told == "kernel-not-found"@
            &&& name == "reference-cpu-device-unavailable"@ ==> told == "kernel-device-unsupported"@
            &&& name == "reference-cpu-deterministic-mode-unsupported"@ ==> told
                == "kernel-determinism-unsupported"@
            &&& name == "reference-cpu-provider-disabled-by-policy"@ ==> told
                == "kernel-provider-unavailable"@
            &&& name == "reference-cpu-fallback-denied"@ || name == "internal-reference-cpu"@
                ==> told == "kernel-execution-failed"@
            &&& name != "reference-cpu-kernel-not-found"@ && name
                != "reference-cpu-device-unavailable"@ && name
                != "reference-cpu-deterministic-mode-unsupported"@ && name
                != "reference-cpu-provider-disabled-by-policy"@ && name
                != "reference-cpu-fallback-denied"@ && name != "internal-reference-cpu"@ ==> {
                // The two names differ in what they begin with alone.
                &&& name.take(14) == "reference-cpu-"@
                &&& told == "kernel-"@ + name.skip(14)
            }
        }),
{
    law_refusals_named_apart(e.code, ReferenceCpuErrorCode::KernelNotFound);
    law_refusals_named_apart(e.code, ReferenceCpuErrorCode::DeviceUnavailable);
    law_refusals_named_apart(e.code, ReferenceCpuErrorCode::DeterministicModeUnsupported);
    law_refusals_named_apart(e.code, ReferenceCpuErrorCode::ProviderDisabledByPolicy);
    law_refusals_named_apart(e.code, ReferenceCpuErrorCode::FallbackDenied);
    law_refusals_named_apart(e.code, ReferenceCpuErrorCode::Internal);
    reveal_strlit("reference-cpu-");
    reveal_strlit("kernel-");
    match e.code {
        ReferenceCpuErrorCode::DTypeUnsupported => {
            reveal_strlit("reference-cpu-dtype-unsupported");
            reveal_strlit("kernel-dtype-unsupported");
            assert("reference-cpu-dtype-unsupported"@.take(14) =~= "reference-cpu-"@);
            assert("kernel-dtype-unsupported"@ =~= "kernel-"@
                + "reference-cpu-dtype-unsupported"@.skip(14));
        },
        ReferenceCpuErrorCode::LayoutUnsupported => {
            reveal_strlit("reference-cpu-layout-unsupported");
            reveal_strlit("kernel-layout-unsupported");
            assert("reference-cpu-layout-unsupported"@.take(14) =~= "reference-cpu-"@);
            assert("kernel-layout-unsupported"@ =~= "kernel-"@
                + "reference-cpu-layout-unsupported"@.skip(14));
        },
        ReferenceCpuErrorCode::ShapeUnsupported => {
            reveal_strlit("reference-cpu-shape-unsupported");
            reveal_strlit("kernel-shape-unsupported");
            assert("reference-cpu-shape-unsupported"@.take(14) =~= "reference-cpu-"@);
            assert("kernel-shape-unsupported"@ =~= "kernel-"@
                + "reference-cpu-shape-unsupported"@.skip(14));
        },
        ReferenceCpuErrorCode::MemoryClassUnsupported => {
            reveal_strlit("reference-cpu-memory-class-unsupported");
            reveal_strlit("kernel-memory-class-unsupported");
            assert("reference-cpu-memory-class-unsupported"@.take(14) =~= "reference-cpu-"@);
            assert("kernel-memory-class-unsupported"@ =~= "kernel-"@
                + "reference-cpu-memory-class-unsupported"@.skip(14));
        },
        ReferenceCpuErrorCode::WorkspaceUnavailable => {
            reveal_strlit("reference-cpu-workspace-unavailable");
            reveal_strlit("kernel-workspace-unavailable");
            assert("reference-cpu-workspace-unavailable"@.take(14) =~= "reference-cpu-"@);
            assert("kernel-workspace-unavailable"@ =~= "kernel-"@
                + "reference-cpu-workspace-unavailable"@.skip(14));
        },
        ReferenceCpuErrorCode::ProviderUnavailable => {
            reveal_strlit("reference-cpu-provider-unavailable");
            reveal_strlit("kernel-provider-unavailable");
            assert("reference-cpu-provider-unavailable"@.take(14) =~= "reference-cpu-"@);
            assert("kernel-provider-unavailable"@ =~= "kernel-"@
                + "reference-cpu-provider-unavailable"@.skip(14));
        },
        ReferenceCpuErrorCode::ExecutionFailed => {
            reveal_strlit("reference-cpu-execution-failed");
            reveal_strlit("kernel-execution-failed");
            assert("reference-cpu-execution-failed"@.take(14) =~= "reference-cpu-"@);
            assert("kernel-execution-failed"@ =~= "kernel-"@
                + "reference-cpu-execution-failed"@.skip(14));
        },
        ReferenceCpuErrorCode::PrecisionUnsupported => {
            reveal_strlit("reference-cpu-precision-unsupported");
            reveal_strlit("kernel-precision-unsupported");
            assert("reference-cpu-precision-unsupported"@.take(14) =~= "reference-cpu-"@);
            assert("kernel-precision-unsupported"@ =~= "kernel-"@
                + "reference-cpu-precision-unsupported"@.skip(14));
        },
        ReferenceCpuErrorCode::ConformanceFailed => {
            reveal_strlit("reference-cpu-conformance-failed");
            reveal_strlit("kernel-conformance-failed");
            assert("reference-cpu-conformance-failed"@.take(14) =~= "reference-cpu-"@);
            assert("kernel-conformance-failed"@ =~= "kernel-"@
                + "reference-cpu-conformance-failed"@.skip(14));
        },
        ReferenceCpuErrorCode::BrowserFeatureUnsupported => {
            reveal_strlit("reference-cpu-browser-feature-unsupported");
            reveal_strlit("kernel-browser-feature-unsupported");
            assert("reference-cpu-browser-feature-unsupported"@.take(14) =~= "reference-cpu-"@);
            assert("kernel-browser-feature-unsupported"@ =~= "kernel-"@
                + "reference-cpu-browser-feature-unsupported"@.skip(14));
        },
        _ => {},
    }
}

} // verus!
