//! What calls promise of what is told of the provider: what it advertises, how it
//! stands, and what is observed and reported.

use vstd::prelude::*;

use crate::catalogue::{
    advertised, catalogue, kernel_advertisements, reference_cpu_kernel_advertisements,
    KernelAdvertisement,
};
use crate::conformance::{
    close, reports, ReferenceCpuConformanceReport, TensorResourceFacts,
};
use crate::conformance_laws::differs_by;
use crate::device::{
    host_device, reference_cpu_device, DeviceDescriptor, ProviderMetadata, ProviderPressureLevel,
    SimdFeatures,
};
use crate::error::{
    fault_of, reference_cpu_error_id, KernelError, KernelErrorCode, ReferenceCpuError,
    ReferenceCpuErrorCode,
};
use crate::executor::ReferenceCpuExecutor;
use crate::float::Arithmetic;
use crate::identity::{
    kernel_key, KernelId, OperatorFamily, OperatorId, ReferenceCpuFeatureFlags,
    REFERENCE_CPU_PROVIDER_NAME,
};
use crate::invocation::{KernelResult, KernelResultStatus, TensorResourceDescriptor};
use crate::observation::{KernelObservation, KernelObservationKind};
use crate::provider::{HostFacts, ProviderHealth, ReferenceCpuProvider};
use crate::table::Table;
use crate::text::decimal;

verus! {

/// A provider starts with an executor that holds nothing, at low pressure, on the
/// device that the host is, with the features that are asked for, or with
/// attention and rotation.
pub proof fn law_provider_made(
    features: ReferenceCpuFeatureFlags,
    host: HostFacts,
    r: ReferenceCpuProvider,
)
    requires
        call_ensures(ReferenceCpuProvider::with_features, (features, host), r) || {
            &&& call_ensures(ReferenceCpuProvider::new, (host,), r)
            &&& features.attention && features.rope && !features.quantization
        },
    ensures
        r@.features == features,
        r@.pressure == ProviderPressureLevel::Low,
        r@.executor.storage == Map::<Seq<char>, crate::tensor::Tensor>::empty(),
        r@.executor.observations.len() == 0,
        r@.executor.next_execution_ordinal == 0,
        r@.device.architecture == host.architecture@,
        r@.metadata.name == REFERENCE_CPU_PROVIDER_NAME@,
        r@.metadata.version == "0.1.0"@,
        r@.metadata.vendor == "magnetar"@,
        r@.metadata.api_version == 1,
{
}

/// What a provider tells of itself is how it stands. Its health does not depend on
/// that: it is always available.
pub proof fn law_provider_told(
    p: &ReferenceCpuProvider,
    changed: &mut ReferenceCpuProvider,
    features: ReferenceCpuFeatureFlags,
    executor: &ReferenceCpuExecutor,
    pressure: ProviderPressureLevel,
    health: ProviderHealth,
)
    ensures
        call_ensures(ReferenceCpuProvider::features, (p,), features) ==> features == p@.features,
        call_ensures(ReferenceCpuProvider::executor, (p,), executor) ==> executor@ == p@.executor,
        call_ensures(ReferenceCpuProvider::pressure, (p,), pressure) ==> pressure == p@.pressure,
        call_ensures(ReferenceCpuProvider::health, (p,), health) ==> health
            == ProviderHealth::Available,
        call_ensures(ReferenceCpuProvider::report_pressure, (changed, pressure), ()) ==> {
            &&& final(changed)@.pressure == pressure
            &&& final(changed)@.executor == old(changed)@.executor
            &&& final(changed)@.features == old(changed)@.features
            &&& final(changed)@.device == old(changed)@.device
            &&& final(changed)@.metadata == old(changed)@.metadata
        },
        call_ensures(ReferenceCpuProvider::initialize, (changed,), ()) ==> {
            &&& final(changed)@.executor.observations.len() == old(
                changed,
            )@.executor.observations.len() + 2
            &&& final(changed)@.executor.storage == old(changed)@.executor.storage
            &&& final(changed)@.pressure == old(changed)@.pressure
            &&& final(changed)@.features == old(changed)@.features
        },
{
}

/// A provider advertises what its features offer, as the catalogue has it, and
/// nothing that they do not: each entry of the catalogue is advertised exactly
/// where it is offered.
pub proof fn law_advertised_called(
    p: &ReferenceCpuProvider,
    features: &ReferenceCpuFeatureFlags,
    r: Vec<KernelAdvertisement>,
)
    requires
        call_ensures(ReferenceCpuProvider::kernel_advertisements, (p,), r) || call_ensures(
            kernel_advertisements,
            (features,),
            r,
        ) || call_ensures(reference_cpu_kernel_advertisements, (), r),
        p@.features == *features,
        call_ensures(reference_cpu_kernel_advertisements, (), r) ==> features.attention
            && features.rope,
    ensures
        features.rope && features.attention ==> advertised(r@) == catalogue(),
        features.rope && !features.attention ==> advertised(r@) == catalogue().take(4)
            + catalogue().skip(5),
        !features.rope && features.attention ==> advertised(r@) == catalogue().take(3)
            + catalogue().skip(4),
        !features.rope && !features.attention ==> advertised(r@) == catalogue().take(3)
            + catalogue().skip(5),
{
    crate::catalogue::law_features_take_away(*features);
}

/// Two rows of numbers are told close exactly where they are as long as each other
/// and no two of their elements are off; a report is conformant exactly where all
/// its checks are passed, and is observed once.
pub proof fn law_conformance_called<A: Arithmetic>(
    e: &mut ReferenceCpuExecutor,
    ops: &A,
    a: &Vec<u32>,
    b: &Vec<u32>,
    is_close: bool,
    facts: &TensorResourceFacts,
    report: ReferenceCpuConformanceReport,
    conformant: bool,
)
    ensures
        call_ensures(close::<A>, (ops, a, b), is_close) ==> {
            &&& is_close ==> a@.len() == b@.len()
            &&& is_close ==> forall|i: int|
                0 <= i < a@.len() ==> differs_by(ops, #[trigger] a@[i], b@[i], true)
            &&& !is_close && a@.len() == b@.len() ==> exists|i: int|
                0 <= i < a@.len() && differs_by(ops, #[trigger] a@[i], b@[i], false)
        },
        call_ensures(ReferenceCpuConformanceReport::is_conformant, (&report,), conformant)
            ==> conformant == (forall|i: int|
            0 <= i < report.checks@.len() ==> (#[trigger] report.checks@[i]).passed),
        call_ensures(
            ReferenceCpuExecutor::run_conformance_checks::<A>,
            (e, ops, facts),
            report,
        ) ==> {
            &&& reports(ops, *facts, report)
            &&& final(e)@.observations.len() == old(e)@.observations.len() + 1
            &&& final(e)@.observations.last().kind == KernelObservationKind::KernelConformanceResult
            &&& final(e)@.storage == old(e)@.storage
            &&& final(e)@.submitted == old(e)@.submitted
            &&& final(e)@.kernel_executions == old(e)@.kernel_executions
        },
{
    if call_ensures(close::<A>, (ops, a, b), is_close) {
        crate::conformance_laws::law_close(ops, a@, b@, is_close);
    }
}

/// A refusal keeps its code and its words, and is told as the name of the code
/// and the words after it; as an error of the kernel contract it is what that says
/// of it.
pub proof fn law_errors_called(
    code: ReferenceCpuErrorCode,
    reason: String,
    e: ReferenceCpuError,
    r: ReferenceCpuError,
    told: String,
    kernel_code: KernelErrorCode,
    f: KernelError,
)
    ensures
        call_ensures(ReferenceCpuError::new, (code, reason), r) ==> r.code == code && r.reason@
            == reason@,
        call_ensures(ReferenceCpuError::shape, (reason,), r) ==> r.code
            == ReferenceCpuErrorCode::ShapeUnsupported && r.reason@ == reason@,
        call_ensures(ReferenceCpuError::message, (&e,), told) ==> told@ == reference_cpu_error_id(
            e.code,
        ) + ": "@ + e.reason@,
        call_ensures(KernelError::new, (kernel_code, reason), f) ==> f.code == kernel_code
            && f.detail@ == reason@ && f.found is None,
        call_ensures(KernelError::from_refusal, (e,), f) ==> f@ == fault_of(e@),
{
}

/// An observation keeps its kind and whatever is added to it, each in its place;
/// texts are added at the end.
pub proof fn law_observations_called(
    kind: KernelObservationKind,
    o: KernelObservation,
    kernel: &KernelId,
    invocation: String,
    key: &str,
    value: &str,
    r: KernelObservation,
)
    ensures
        call_ensures(KernelObservation::new, (kind,), r) ==> {
            &&& r@.kind == kind
            &&& r@.kernel is None && r@.invocation is None && r@.metadata.len() == 0
        },
        call_ensures(KernelObservation::with_kernel, (o, kernel), r) ==> {
            &&& r@.kernel == Some(kernel_key(kernel@))
            &&& r@.kind == o@.kind && r@.invocation == o@.invocation && r@.metadata == o@.metadata
        },
        call_ensures(KernelObservation::with_invocation, (o, invocation), r) ==> {
            &&& r@.invocation == Some(invocation@)
            &&& r@.kind == o@.kind && r@.kernel == o@.kernel && r@.metadata == o@.metadata
        },
        call_ensures(KernelObservation::with_redacted_metadata, (o, key, value), r) ==> {
            &&& r@.metadata == o@.metadata.push((key@, value@))
            &&& r@.kind == o@.kind && r@.kernel == o@.kernel && r@.invocation == o@.invocation
        },
{
}

/// A result of success names the invocation and the one output, which is ready; a
/// result of failure names the invocation and the error, and no output.
pub proof fn law_results_called(
    invocation: String,
    output: TensorResourceDescriptor,
    error: KernelError,
    r: KernelResult,
)
    ensures
        call_ensures(KernelResult::success, (invocation, output), r) ==> {
            &&& r@.invocation == invocation@
            &&& r@.status == KernelResultStatus::Succeeded
            &&& r@.output_readiness == seq![(output@.id, true)]
            &&& r@.updated_resources == seq![output@]
            &&& r@.error is None
        },
        call_ensures(KernelResult::failure, (invocation, error), r) ==> {
            &&& r@.invocation == invocation@
            &&& r@.status == KernelResultStatus::Failed
            &&& r@.output_readiness.len() == 0 && r@.updated_resources.len() == 0
            &&& r@.error == Some(error@)
        },
{
}

/// An operator and a kernel are named as they are said to be, in their first
/// version; the key of a kernel is made of both.
pub proof fn law_names_called(
    name: &str,
    version: u32,
    family: OperatorFamily,
    operator: OperatorId,
    kernel: KernelId,
    key: String,
)
    ensures
        call_ensures(OperatorId::magnetar, (name, version, family), operator) ==> {
            &&& operator@.namespace == "magnetar:operator"@
            &&& operator@.name == name@
            &&& operator@.version == version
            &&& operator@.family == family
        },
        call_ensures(
            crate::identity::reference_cpu_kernel_id,
            (operator, name),
            kernel,
        ) ==> {
            &&& kernel@.provider == "magnetar:provider/reference-cpu"@
            &&& kernel@.name == name@
            &&& kernel@.operator == operator@
            &&& kernel@.version.major == 1 && kernel@.version.minor == 0 && kernel@.version.patch
                == 0
        },
        call_ensures(KernelId::stable_key, (&kernel,), key) ==> key@ == kernel@.provider + ":"@
            + kernel@.name + "@"@ + decimal(kernel@.version.major as nat) + "."@ + decimal(
            kernel@.version.minor as nat,
        ) + "."@ + decimal(kernel@.version.patch as nat) + ":"@ + kernel@.operator.namespace + "/"@
            + kernel@.operator.name + "@"@ + decimal(kernel@.operator.version as nat),
{
    crate::identity::law_kernel_key(kernel@);
}

/// A table gives back what was last put under a key, and nothing of what was
/// removed; what is under other keys stays.
pub proof fn law_table_called<V>(
    t: &mut Table<V>,
    after: &Table<V>,
    key: String,
    value: V,
    word: &str,
    before: Option<V>,
    other: &str,
    r: Option<&V>,
)
    requires
        after@ == final(t)@,
        call_ensures(Table::<V>::get, (after, other), r),
    ensures
        call_ensures(Table::<V>::insert, (t, key, value), before) ==> {
            &&& other@ == key@ ==> r is Some && *r->Some_0 == value
            &&& other@ != key@ ==> (r is Some <==> old(t)@.contains_key(other@))
            &&& other@ != key@ && r is Some ==> *r->Some_0 == old(t)@[other@]
            &&& before is Some <==> old(t)@.contains_key(key@)
            &&& before is Some ==> before->Some_0 == old(t)@[key@]
        },
        call_ensures(Table::<V>::remove, (t, word), before) ==> {
            &&& other@ == word@ ==> r is None
            &&& other@ != word@ ==> (r is Some <==> old(t)@.contains_key(other@))
            &&& other@ != word@ && r is Some ==> *r->Some_0 == old(t)@[other@]
            &&& before is Some <==> old(t)@.contains_key(word@)
            &&& before is Some ==> before->Some_0 == old(t)@[word@]
        },
{
}

/// The device that is told is the host that it was made of.
pub proof fn law_device_called(
    architecture: String,
    parallelism: Option<u64>,
    simd: &SimdFeatures,
    d: DeviceDescriptor,
    p: &ReferenceCpuProvider,
    told: &DeviceDescriptor,
    about: &ProviderMetadata,
)
    ensures
        call_ensures(reference_cpu_device, (architecture, parallelism, simd), d) ==> {
            &&& d@.architecture == architecture@
            &&& d@.compute_units as int == match parallelism {
                Some(n) => n as int % 0x1_0000_0000,
                None => 1,
            }
            &&& d@ == host_device(architecture@, parallelism, *simd)
        },
        call_ensures(ReferenceCpuProvider::device, (p,), told) ==> told@ == p@.device,
        call_ensures(ReferenceCpuProvider::metadata, (p,), about) ==> about@ == p@.metadata,
{
    crate::device::law_device(architecture@, parallelism, *simd);
}

} // verus!
