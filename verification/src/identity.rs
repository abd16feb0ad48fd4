//! Who the provider is, and how its kernels are identified.

use vstd::prelude::*;

use crate::error::optional_text;
use crate::text::{decimal, decimal_text};

verus! {

/// The stable, package-qualified name of the provider.
pub const REFERENCE_CPU_PROVIDER_NAME: &'static str = "magnetar:provider/reference-cpu";

/// The version of the provider.
pub const REFERENCE_CPU_PROVIDER_VERSION: &'static str = "0.1.0";

/// The vendor of the provider.
pub const REFERENCE_CPU_PROVIDER_VENDOR: &'static str = "magnetar";

/// The device of the provider.
pub const REFERENCE_CPU_DEVICE_ID: &'static str = "reference-cpu:host:0";

/// The profile that the kernels conform to.
pub const REFERENCE_CPU_CONFORMANCE_PROFILE: &'static str = "reference-cpu-conformance-v1";

/// The family that the kernels belong to.
pub const REFERENCE_CPU_KERNEL_FAMILY: KernelImplementationFamily =
    KernelImplementationFamily::CpuScalar;

/// The provider is part of the runtime, and never loaded as a library.
pub const REFERENCE_CPU_BUILT_IN: bool = true;

/// The version of the interface between the runtime and its providers.
pub const PROVIDER_API_VERSION: u32 = 1;

/// The first and the last version of the interface that the provider takes.
pub const REFERENCE_CPU_SUPPORTED_RUNTIME_VERSION_RANGE: (u32, u32) = (1, 1);

/// Where the portable operators are named.
pub const OPERATOR_NAMESPACE: &'static str = "magnetar:operator";

/// Which optional kernels are turned on. There is no default: who registers
/// the provider decides.
#[derive(Clone, Copy, Debug, PartialEq, Eq, Structural)]
pub struct ReferenceCpuFeatureFlags {
    /// Attention is advertised.
    pub attention: bool,
    /// Rotary position embedding is advertised.
    pub rope: bool,
    /// Quantized formats.
    pub quantization: bool,
}

impl ReferenceCpuFeatureFlags {
    /// The correctness baseline: attention and rotary position embedding, but
    /// no quantized formats.
    pub fn baseline() -> (r: ReferenceCpuFeatureFlags)
        ensures
            r == (ReferenceCpuFeatureFlags { attention: true, rope: true, quantization: false }),
    {
        ReferenceCpuFeatureFlags { attention: true, rope: true, quantization: false }
    }
}

/// How a kernel is implemented.
#[derive(Clone, Copy, Debug, PartialEq, Eq, Structural)]
pub enum KernelImplementationFamily {
    /// One element at a time on a processor.
    CpuScalar,
    /// Several elements at a time on a processor.
    CpuVector,
    /// CUDA.
    Cuda,
    /// Metal.
    Metal,
    /// OpenVINO.
    OpenVino,
    /// QNN.
    Qnn,
    /// WebAssembly.
    Wasm,
    /// WebGPU.
    WebGpu,
    /// Fused by a provider.
    ProviderFused,
    /// A stand-in for tests.
    TestFixture,
}

/// What kind of operator it is.
#[derive(Clone, Copy, Debug, PartialEq, Eq, Structural)]
pub enum OperatorFamily {
    /// On tensors in general.
    Tensor,
    /// Products of matrices.
    LinearAlgebra,
    /// Normalisation.
    Normalization,
    /// Encoding of positions.
    PositionEncoding,
    /// Attention.
    Attention,
    /// Activation.
    Activation,
    /// Quantisation.
    Quantization,
    /// Layouts.
    Layout,
    /// Support for sampling.
    SamplingSupport,
    /// Control.
    Control,
}

/// A version in three numbers.
#[derive(Clone, Copy, Debug, PartialEq, Eq, Structural)]
pub struct CapabilityVersion {
    /// The first number.
    pub major: u64,
    /// The second number.
    pub minor: u64,
    /// The third number.
    pub patch: u64,
}

/// The numbers of a version, separated by dots.
pub open spec fn version_text(v: CapabilityVersion) -> Seq<char> {
    decimal(v.major as nat) + "."@ + decimal(v.minor as nat) + "."@ + decimal(v.patch as nat)
}

/// A portable operator.
#[derive(Debug, PartialEq, Eq)]
pub struct OperatorId {
    /// Where it is named.
    pub namespace: String,
    /// Its name there.
    pub name: String,
    /// Its version.
    pub version: u32,
    /// What kind of operator it is.
    pub family: OperatorFamily,
}

/// What an [`OperatorId`] stands for.
pub struct Operator {
    /// Where it is named.
    pub namespace: Seq<char>,
    /// Its name there.
    pub name: Seq<char>,
    /// Its version.
    pub version: u32,
    /// What kind of operator it is.
    pub family: OperatorFamily,
}

impl View for OperatorId {
    type V = Operator;

    open spec fn view(&self) -> Operator {
        Operator {
            namespace: self.namespace@,
            name: self.name@,
            version: self.version,
            family: self.family,
        }
    }
}

/// How an operator is written.
pub open spec fn operator_text(o: Operator) -> Seq<char> {
    o.namespace + "/"@ + o.name + "@"@ + decimal(o.version as nat)
}

impl Clone for OperatorId {
    fn clone(&self) -> (r: OperatorId)
        ensures
            r@ == self@,
    {
        OperatorId {
            namespace: self.namespace.clone(),
            name: self.name.clone(),
            version: self.version,
            family: self.family,
        }
    }
}

impl OperatorId {
    /// An operator of the common namespace.
    pub fn magnetar(name: &str, version: u32, family: OperatorFamily) -> (r: OperatorId)
        ensures
            r@ == (Operator { namespace: OPERATOR_NAMESPACE@, name: name@, version, family }),
    {
        OperatorId {
            namespace: OPERATOR_NAMESPACE.to_owned(),
            name: name.to_owned(),
            version,
            family,
        }
    }
}

/// A kernel: an implementation of an operator by a provider.
#[derive(Debug, PartialEq, Eq)]
pub struct KernelId {
    /// The provider.
    pub provider: String,
    /// The name of the kernel.
    pub name: String,
    /// The version of the kernel.
    pub version: CapabilityVersion,
    /// The operator that it implements.
    pub operator: OperatorId,
    /// The first and the last version of the operator that it implements.
    pub operator_versions: (u32, u32),
    /// How it is implemented.
    pub family: KernelImplementationFamily,
    /// The profile that it conforms to.
    pub conformance_profile: Option<String>,
}

/// What a [`KernelId`] stands for.
pub struct Kernel {
    /// The provider.
    pub provider: Seq<char>,
    /// The name of the kernel.
    pub name: Seq<char>,
    /// The version of the kernel.
    pub version: CapabilityVersion,
    /// The operator that it implements.
    pub operator: Operator,
    /// The first and the last version of the operator that it implements.
    pub operator_versions: (u32, u32),
    /// How it is implemented.
    pub family: KernelImplementationFamily,
    /// The profile that it conforms to.
    pub conformance_profile: Option<Seq<char>>,
}

impl View for KernelId {
    type V = Kernel;

    open spec fn view(&self) -> Kernel {
        Kernel {
            provider: self.provider@,
            name: self.name@,
            version: self.version,
            operator: self.operator@,
            operator_versions: self.operator_versions,
            family: self.family,
            conformance_profile: optional_text(self.conformance_profile),
        }
    }
}

/// The key under which a kernel is reported.
pub open spec fn kernel_key(k: Kernel) -> Seq<char> {
    k.provider + ":"@ + k.name + "@"@ + version_text(k.version) + ":"@ + operator_text(k.operator)
}

impl Clone for KernelId {
    fn clone(&self) -> (r: KernelId)
        ensures
            r@ == self@,
    {
        KernelId {
            provider: self.provider.clone(),
            name: self.name.clone(),
            version: self.version,
            operator: self.operator.clone(),
            operator_versions: self.operator_versions,
            family: self.family,
            conformance_profile: match &self.conformance_profile {
                Some(profile) => Some(profile.clone()),
                None => None,
            },
        }
    }
}

impl KernelId {
    /// The key under which the kernel is reported.
    pub fn stable_key(&self) -> (r: String)
        ensures
            r@ == kernel_key(self@),
    {
        let mut r = self.provider.clone();
        r.append(":");
        r.append(self.name.as_str());
        r.append("@");
        let mut version = decimal_text(self.version.major);
        version.append(".");
        version.append(decimal_text(self.version.minor).as_str());
        version.append(".");
        version.append(decimal_text(self.version.patch).as_str());
        r.append(version.as_str());
        r.append(":");
        let mut operator = self.operator.namespace.clone();
        operator.append("/");
        operator.append(self.operator.name.as_str());
        operator.append("@");
        operator.append(decimal_text(self.operator.version as u64).as_str());
        r.append(operator.as_str());
        r
    }
}

/// A kernel of this provider.
pub open spec fn reference_cpu_kernel(operator: Operator, name: Seq<char>) -> Kernel {
    Kernel {
        provider: REFERENCE_CPU_PROVIDER_NAME@,
        name,
        version: CapabilityVersion { major: 1, minor: 0, patch: 0 },
        operator,
        operator_versions: (1, 1),
        family: REFERENCE_CPU_KERNEL_FAMILY,
        conformance_profile: Some(REFERENCE_CPU_CONFORMANCE_PROFILE@),
    }
}

/// The identity of a kernel of this provider.
pub fn reference_cpu_kernel_id(operator: OperatorId, name: &str) -> (r: KernelId)
    ensures
        r@ == reference_cpu_kernel(operator@, name@),
{
    KernelId {
        provider: REFERENCE_CPU_PROVIDER_NAME.to_owned(),
        name: name.to_owned(),
        version: CapabilityVersion { major: 1, minor: 0, patch: 0 },
        operator,
        operator_versions: (1, 1),
        family: REFERENCE_CPU_KERNEL_FAMILY,
        conformance_profile: Some(REFERENCE_CPU_CONFORMANCE_PROFILE.to_owned()),
    }
}

/// The key of a kernel names the provider, the kernel with its version, and the
/// operator with its version, in this order.
pub proof fn law_kernel_key(k: Kernel)
    ensures
        kernel_key(k) == k.provider + ":"@ + k.name + "@"@ + decimal(k.version.major as nat) + "."@
            + decimal(k.version.minor as nat) + "."@ + decimal(k.version.patch as nat) + ":"@
            + k.operator.namespace + "/"@ + k.operator.name + "@"@ + decimal(
            k.operator.version as nat,
        ),
{
    assert(kernel_key(k) =~= k.provider + ":"@ + k.name + "@"@ + decimal(k.version.major as nat)
        + "."@ + decimal(k.version.minor as nat) + "."@ + decimal(k.version.patch as nat) + ":"@
        + k.operator.namespace + "/"@ + k.operator.name + "@"@ + decimal(
        k.operator.version as nat,
    ));
}

} // verus!
