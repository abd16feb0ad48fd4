//! What the provider says of itself and of the host that it runs on.

use vstd::prelude::*;

use crate::catalogue::{texts, KernelMemoryClass};
use crate::identity::{
    PROVIDER_API_VERSION, REFERENCE_CPU_DEVICE_ID, REFERENCE_CPU_PROVIDER_NAME,
    REFERENCE_CPU_PROVIDER_VENDOR, REFERENCE_CPU_PROVIDER_VERSION,
};
use crate::kernels::conversion::{ComputeDType, TensorLayoutKind};

verus! {

/// How loaded a provider is.
#[derive(Clone, Copy, Debug, PartialEq, Eq, Structural)]
pub enum ProviderPressureLevel {
    /// Not known.
    Unknown,
    /// Hardly.
    Low,
    /// Somewhat.
    Moderate,
    /// Much.
    High,
    /// It takes no more.
    Saturated,
}

/// What kind of device it is.
#[derive(Clone, Copy, Debug, PartialEq, Eq, Structural)]
pub enum DeviceType {
    /// A processor.
    Cpu,
    /// A graphics processor.
    Gpu,
    /// A neural processor.
    Npu,
    /// A tensor processor.
    Tpu,
    /// Something else.
    Other,
}

/// What the provider says of itself.
#[derive(Debug, PartialEq, Eq)]
pub struct ProviderMetadata {
    /// Its name.
    pub name: String,
    /// Its version.
    pub version: String,
    /// Its vendor.
    pub vendor: String,
    /// The version of the interface that it is written for.
    pub api_version: u32,
    /// What it is, in words.
    pub description: String,
}

/// What a [`ProviderMetadata`] stands for.
pub struct About {
    /// Its name.
    pub name: Seq<char>,
    /// Its version.
    pub version: Seq<char>,
    /// Its vendor.
    pub vendor: Seq<char>,
    /// The version of the interface that it is written for.
    pub api_version: u32,
    /// What it is, in words.
    pub description: Seq<char>,
}

impl View for ProviderMetadata {
    type V = About;

    open spec fn view(&self) -> About {
        About {
            name: self.name@,
            version: self.version@,
            vendor: self.vendor@,
            api_version: self.api_version,
            description: self.description@,
        }
    }
}

/// What the provider says of itself, in words.
pub const REFERENCE_CPU_DESCRIPTION: &'static str =
    "Correctness-first, host-memory reference implementation of portable Operators";

/// What the provider says of itself.
pub open spec fn reference_cpu_about() -> About {
    About {
        name: REFERENCE_CPU_PROVIDER_NAME@,
        version: REFERENCE_CPU_PROVIDER_VERSION@,
        vendor: REFERENCE_CPU_PROVIDER_VENDOR@,
        api_version: PROVIDER_API_VERSION,
        description: REFERENCE_CPU_DESCRIPTION@,
    }
}

/// What the provider says of itself.
pub fn reference_cpu_provider_metadata() -> (r: ProviderMetadata)
    ensures
        r@ == reference_cpu_about(),
{
    ProviderMetadata {
        name: REFERENCE_CPU_PROVIDER_NAME.to_owned(),
        version: REFERENCE_CPU_PROVIDER_VERSION.to_owned(),
        vendor: REFERENCE_CPU_PROVIDER_VENDOR.to_owned(),
        api_version: PROVIDER_API_VERSION,
        description: REFERENCE_CPU_DESCRIPTION.to_owned(),
    }
}

/// Which vector instructions the host has. On a host of another architecture
/// none of them is there.
#[derive(Clone, Copy, Debug, PartialEq, Eq, Structural)]
pub struct SimdFeatures {
    /// SSE 4.2.
    pub sse42: bool,
    /// AVX 2.
    pub avx2: bool,
    /// Fused multiply and add.
    pub fma: bool,
}

/// The identifiers of some vector instructions.
pub open spec fn simd_capabilities(f: SimdFeatures) -> Seq<Seq<char>> {
    (if f.sse42 {
        seq!["magnetar:cpu-feature/sse4.2"@]
    } else {
        seq![]
    }) + (if f.avx2 {
        seq!["magnetar:cpu-feature/avx2"@]
    } else {
        seq![]
    }) + (if f.fma {
        seq!["magnetar:cpu-feature/fma"@]
    } else {
        seq![]
    })
}

/// The identifiers of the vector instructions that the host has.
pub fn detected_simd_capabilities(f: &SimdFeatures) -> (r: Vec<String>)
    ensures
        texts(r@) == simd_capabilities(*f),
{
    let mut r: Vec<String> = Vec::new();
    if f.sse42 {
        r.push("magnetar:cpu-feature/sse4.2".to_owned());
    }
    if f.avx2 {
        r.push("magnetar:cpu-feature/avx2".to_owned());
    }
    if f.fma {
        r.push("magnetar:cpu-feature/fma".to_owned());
    }
    assert(texts(r@) =~= simd_capabilities(*f));
    r
}

/// A device that kernels run on.
#[derive(Debug, PartialEq, Eq)]
pub struct DeviceDescriptor {
    /// Its identifier.
    pub id: String,
    /// Its name.
    pub name: String,
    /// What kind of device it is.
    pub device_type: DeviceType,
    /// Its vendor.
    pub vendor: String,
    /// Its architecture.
    pub architecture: String,
    /// How much memory it has; zero where that is not stated.
    pub memory_capacity: u64,
    /// How many kernels it can run at once.
    pub compute_units: u32,
    /// What else it can do.
    pub execution_capabilities: Vec<String>,
    /// The element types that it takes.
    pub dtype_support: Vec<ComputeDType>,
    /// The layouts that it takes.
    pub layout_support: Vec<TensorLayoutKind>,
    /// Where its tensors live.
    pub memory_class_support: Vec<KernelMemoryClass>,
    /// At most how many kernels at once.
    pub max_concurrent_operations: Option<u32>,
    /// At most how many bytes of scratch space.
    pub max_workspace_bytes: Option<u64>,
    /// How loaded it is.
    pub pressure: ProviderPressureLevel,
    /// The provider that it belongs to.
    pub provider: String,
}

/// What a [`DeviceDescriptor`] stands for.
pub struct Device {
    /// Its identifier.
    pub id: Seq<char>,
    /// Its name.
    pub name: Seq<char>,
    /// What kind of device it is.
    pub device_type: DeviceType,
    /// Its vendor.
    pub vendor: Seq<char>,
    /// Its architecture.
    pub architecture: Seq<char>,
    /// How much memory it has; zero where that is not stated.
    pub memory_capacity: u64,
    /// How many kernels it can run at once.
    pub compute_units: u32,
    /// What else it can do.
    pub execution_capabilities: Seq<Seq<char>>,
    /// The element types that it takes.
    pub dtype_support: Seq<ComputeDType>,
    /// The layouts that it takes.
    pub layout_support: Seq<TensorLayoutKind>,
    /// Where its tensors live.
    pub memory_class_support: Seq<KernelMemoryClass>,
    /// At most how many kernels at once.
    pub max_concurrent_operations: Option<u32>,
    /// At most how many bytes of scratch space.
    pub max_workspace_bytes: Option<u64>,
    /// How loaded it is.
    pub pressure: ProviderPressureLevel,
    /// The provider that it belongs to.
    pub provider: Seq<char>,
}

impl View for DeviceDescriptor {
    type V = Device;

    open spec fn view(&self) -> Device {
        Device {
            id: self.id@,
            name: self.name@,
            device_type: self.device_type,
            vendor: self.vendor@,
            architecture: self.architecture@,
            memory_capacity: self.memory_capacity,
            compute_units: self.compute_units,
            execution_capabilities: texts(self.execution_capabilities@),
            dtype_support: self.dtype_support@,
            layout_support: self.layout_support@,
            memory_class_support: self.memory_class_support@,
            max_concurrent_operations: self.max_concurrent_operations,
            max_workspace_bytes: self.max_workspace_bytes,
            pressure: self.pressure,
            provider: self.provider@,
        }
    }
}

/// How many kernels a host can run at once: as many as it says, in 32 bits,
/// or one.
pub open spec fn units(parallelism: Option<u64>) -> u32 {
    match parallelism {
        Some(n) => n as u32,
        None => 1,
    }
}

/// The host as the device of the provider.
pub open spec fn host_device(
    architecture: Seq<char>,
    parallelism: Option<u64>,
    simd: SimdFeatures,
) -> Device {
    Device {
        id: REFERENCE_CPU_DEVICE_ID@,
        name: "Reference CPU"@,
        device_type: DeviceType::Cpu,
        vendor: REFERENCE_CPU_PROVIDER_VENDOR@,
        architecture,
        memory_capacity: 0,
        compute_units: units(parallelism),
        execution_capabilities: simd_capabilities(simd),
        dtype_support: seq![ComputeDType::Float32],
        layout_support: seq![TensorLayoutKind::Contiguous],
        memory_class_support: seq![KernelMemoryClass::Host],
        max_concurrent_operations: Some(units(parallelism)),
        max_workspace_bytes: Some(0x10_0000),
        pressure: ProviderPressureLevel::Low,
        provider: REFERENCE_CPU_PROVIDER_NAME@,
    }
}

/// The host as the device of the provider.
pub fn reference_cpu_device(
    architecture: String,
    parallelism: Option<u64>,
    simd: &SimdFeatures,
) -> (r: DeviceDescriptor)
    ensures
        r@ == host_device(architecture@, parallelism, *simd),
{
    let compute_units: u32 = match parallelism {
        Some(n) => #[verifier::truncate] (n as u32),
        None => 1,
    };
    let r = DeviceDescriptor {
        id: REFERENCE_CPU_DEVICE_ID.to_owned(),
        name: "Reference CPU".to_owned(),
        device_type: DeviceType::Cpu,
        vendor: REFERENCE_CPU_PROVIDER_VENDOR.to_owned(),
        architecture,
        memory_capacity: 0,
        compute_units,
        execution_capabilities: detected_simd_capabilities(simd),
        dtype_support: vec![ComputeDType::Float32],
        layout_support: vec![TensorLayoutKind::Contiguous],
        memory_class_support: vec![KernelMemoryClass::Host],
        max_concurrent_operations: Some(compute_units),
        max_workspace_bytes: Some(0x10_0000),
        pressure: ProviderPressureLevel::Low,
        provider: REFERENCE_CPU_PROVIDER_NAME.to_owned(),
    };
    proof {
        let expected = host_device(architecture@, parallelism, *simd);
        assert(r@.dtype_support =~= expected.dtype_support);
        assert(r@.layout_support =~= expected.layout_support);
        assert(r@.memory_class_support =~= expected.memory_class_support);
    }
    r
}

/// The device runs as many kernels at once as the host says that it can, in 32
/// bits, and one where it does not say. It has the architecture of the host, and
/// of the vector instructions it names those that the host has, and no other. It
/// holds single precision, contiguous, in the host, with scratch space of one
/// mebibyte.
pub proof fn law_device(architecture: Seq<char>, parallelism: Option<u64>, simd: SimdFeatures)
    ensures
        ({
            let d = host_device(architecture, parallelism, simd);
            &&& d.architecture == architecture
            &&& parallelism is None ==> d.compute_units == 1
            &&& parallelism matches Some(n) ==> d.compute_units as int == n as int % 0x1_0000_0000
            &&& d.max_concurrent_operations == Some(d.compute_units)
            &&& d.execution_capabilities.contains("magnetar:cpu-feature/sse4.2"@) == simd.sse42
            &&& d.execution_capabilities.contains("magnetar:cpu-feature/avx2"@) == simd.avx2
            &&& d.execution_capabilities.contains("magnetar:cpu-feature/fma"@) == simd.fma
            &&& d.execution_capabilities.len() == (if simd.sse42 {
                1int
            } else {
                0
            }) + (if simd.avx2 {
                1int
            } else {
                0
            }) + (if simd.fma {
                1int
            } else {
                0
            })
            &&& d.provider == REFERENCE_CPU_PROVIDER_NAME@
            &&& d.device_type == DeviceType::Cpu
            &&& d.id == "reference-cpu:host:0"@
            &&& d.name == "Reference CPU"@
            &&& d.vendor == "magnetar"@
            &&& d.memory_capacity == 0
            &&& d.dtype_support == seq![ComputeDType::Float32]
            &&& d.layout_support == seq![TensorLayoutKind::Contiguous]
            &&& d.memory_class_support == seq![KernelMemoryClass::Host]
            &&& d.max_workspace_bytes == Some(1_048_576u64)
            &&& d.pressure == ProviderPressureLevel::Low
        }),
{
    if let Some(n) = parallelism {
        assert(n as u32 == n % 0x1_0000_0000) by (bit_vector);
    }
    reveal_strlit("magnetar:cpu-feature/sse4.2");
    reveal_strlit("magnetar:cpu-feature/avx2");
    reveal_strlit("magnetar:cpu-feature/fma");
    let (sse42, avx2, fma) = (
        "magnetar:cpu-feature/sse4.2"@,
        "magnetar:cpu-feature/avx2"@,
        "magnetar:cpu-feature/fma"@,
    );
    assert(sse42.len() == 27 && avx2.len() == 25 && fma.len() == 24);
    let s = simd_capabilities(simd);
    if simd.sse42 {
        assert(s[0] == sse42);
    }
    if simd.avx2 {
        assert(s[if simd.sse42 {
            1
        } else {
            0
        }] == avx2);
    }
    if simd.fma {
        assert(s[s.len() - 1] == fma);
    }
}

} // verus!
