//! The reference CPU provider: a correctness-first baseline for portable
//! operators, in host memory.
//!
//! It is not meant to be fast. It says what the right result of an operator is,
//! so that faster providers can be held against it.
//!
//! # Elements
//!
//! Tensors hold single-precision numbers, contiguous and row-major. A number is
//! held as its 32 bits: what the bits alone decide is decided in [`float`], and
//! what needs rounding is done by an [`Arithmetic`] that the caller supplies.
//! What a kernel gives is stated as which operation is applied to which
//! elements, in which order, so it holds for any rounding. Where each operation
//! has one result for the same operands (`float::single_valued`), so has each
//! kernel.
//!
//! # Kernels
//!
//! The numeric kernels are in [`kernels`]: matrix product, embedding lookup,
//! root-mean-square normalisation, rotary position embedding, softmax,
//! attention (causal or not, with grouped query heads and a sliding window),
//! activations, sums and products. Any other element type or layout is refused,
//! never converted silently. Quantized formats and paged caches are not
//! implemented, and not advertised.
//!
//! # Execution
//!
//! [`ReferenceCpuExecutor`] keeps the tensors, which the runtime knows by their
//! identifiers, and executes invocations on them. Under a memory manager,
//! memory for every output is admitted before the kernel is called, and given
//! back if the execution fails ([`admission`]). [`ReferenceCpuProvider`]
//! advertises the kernels and the device.
//!
//! # Laws
//!
//! What holds of the operations together is proved beside them, in the modules
//! named after them. The laws on numbers hold for any rounding of the caller's,
//! or say how close a result is where each operation rounds as it must
//! ([`reals`]).

pub mod admission;
pub mod admission_laws;
pub mod affinity;
pub mod call_laws;
pub mod catalogue;
pub mod conformance;
pub mod conformance_laws;
pub mod device;
pub mod dispatch;
pub mod dispatch_laws;
pub mod error;
pub mod error_laws;
pub mod execution;
pub mod executor;
pub mod executor_laws;
pub mod fallback;
pub mod float;
pub mod float_laws;
pub mod identity;
pub mod invocation;
pub mod kernels;
pub mod memory;
pub mod memory_laws;
pub mod observation;
pub mod provider;
pub mod provider_laws;
pub mod reals;
pub mod reduce;
pub mod table;
pub mod tensor;
pub mod text;
pub mod view_laws;

pub use admission::{MemoryAction, MemorySession};
pub use affinity::{ArtifactBinding, CapabilityBinding, FallbackClass, ResourceAffinity};
pub use catalogue::{
    reference_cpu_kernel_advertisements, KernelAdvertisement, KernelCancellationSupport,
    KernelKvCacheMetadata, KernelMemoryClass, KernelWorkspaceRequirements,
};
pub use conformance::{
    ReferenceCpuConformanceCheck, ReferenceCpuConformanceReport, TensorResourceFacts,
};
pub use device::{
    reference_cpu_device, reference_cpu_provider_metadata, DeviceDescriptor, DeviceType,
    ProviderMetadata, ProviderPressureLevel, SimdFeatures,
};
pub use dispatch::KernelCall;
pub use error::{KernelError, KernelErrorCode, ReferenceCpuError, ReferenceCpuErrorCode};
pub use execution::{
    ProviderCancellationOutcome, ProviderExecutionError, ProviderExecutionErrorCode,
    ProviderExecutionHandle, ProviderExecutionPhase, ProviderExecutionResult,
    ProviderExecutionStatus, SchedulingState,
};
pub use executor::ReferenceCpuExecutor;
pub use fallback::{evaluate_fallback, FallbackPolicyContext};
pub use float::Arithmetic;
pub use identity::{
    CapabilityVersion, KernelId, KernelImplementationFamily, OperatorFamily, OperatorId,
    ReferenceCpuFeatureFlags, REFERENCE_CPU_BUILT_IN, REFERENCE_CPU_CONFORMANCE_PROFILE,
    REFERENCE_CPU_DEVICE_ID, REFERENCE_CPU_KERNEL_FAMILY, REFERENCE_CPU_PROVIDER_NAME,
    REFERENCE_CPU_PROVIDER_VENDOR, REFERENCE_CPU_PROVIDER_VERSION,
    REFERENCE_CPU_SUPPORTED_RUNTIME_VERSION_RANGE,
};
pub use invocation::{
    KernelInvocation, KernelResult, KernelResultStatus, OperatorAttributeValue, Readiness,
    TensorResourceDescriptor,
};
pub use kernels::attention::attention;
pub use kernels::conversion::{
    dequantize_placeholder, dtype_conversion, layout_conversion, quantize_placeholder,
    ComputeDType, TensorLayoutKind,
};
pub use kernels::elementwise::{add, gelu, mul, residual_add, silu};
pub use kernels::embedding::embedding_lookup;
pub use kernels::matmul::matmul;
pub use kernels::rmsnorm::rmsnorm;
pub use kernels::rope::rope;
pub use kernels::softmax::softmax_rows;
pub use memory::{
    MemoryAllocationClass, MemoryAllocationOwner, MemoryAllocationRequest, MemoryLedger,
    MemoryPlacement, TensorResidency, TensorValue,
};
pub use observation::{KernelObservation, KernelObservationKind, Metadata};
pub use provider::{HostFacts, ProviderHealth, ReferenceCpuProvider};
pub use table::Table;
pub use tensor::HostTensor;
