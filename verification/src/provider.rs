//! The provider: what it says of itself, its device, its kernels, and its
//! executor.

use vstd::prelude::*;

use crate::catalogue::{
    advertised, catalogue, kernel_advertisements, offered_of, KernelAdvertisement,
};
use crate::device::{
    host_device, reference_cpu_about, reference_cpu_device, reference_cpu_provider_metadata, About,
    Device, DeviceDescriptor, ProviderMetadata, ProviderPressureLevel, SimdFeatures,
};
use crate::executor::{initial_state, observing, ExecutorState, ReferenceCpuExecutor};
use crate::identity::{
    ReferenceCpuFeatureFlags, REFERENCE_CPU_DEVICE_ID, REFERENCE_CPU_PROVIDER_NAME,
};
use crate::observation::{observation, with_text, KernelObservation, KernelObservationKind};

verus! {

/// How a provider is.
#[derive(Clone, Copy, Debug, PartialEq, Eq, Structural)]
pub enum ProviderHealth {
    /// Not known.
    Unknown,
    /// Starting.
    Initializing,
    /// Well.
    Available,
    /// Not so well.
    Degraded,
    /// It takes no more.
    Saturated,
    /// Stopping.
    Draining,
    /// Gone.
    Unavailable,
    /// Interrupted.
    Interrupted,
}

/// What is known of the host.
#[derive(Debug, PartialEq, Eq)]
pub struct HostFacts {
    /// Its architecture.
    pub architecture: String,
    /// How many things it can do at once, where it says so.
    pub parallelism: Option<u64>,
    /// Which vector instructions it has.
    pub simd: SimdFeatures,
}

/// The provider.
pub struct ReferenceCpuProvider {
    metadata: ProviderMetadata,
    device: DeviceDescriptor,
    executor: ReferenceCpuExecutor,
    features: ReferenceCpuFeatureFlags,
    pressure: ProviderPressureLevel,
}

/// What a [`ReferenceCpuProvider`] stands for.
pub struct ProviderState {
    /// The state of its executor.
    pub executor: ExecutorState,
    /// Which optional kernels are turned on.
    pub features: ReferenceCpuFeatureFlags,
    /// How loaded it is said to be.
    pub pressure: ProviderPressureLevel,
    /// What it says of itself.
    pub metadata: About,
    /// Its device.
    pub device: Device,
}

impl View for ReferenceCpuProvider {
    type V = ProviderState;

    closed spec fn view(&self) -> ProviderState {
        ProviderState {
            executor: self.executor@,
            features: self.features,
            pressure: self.pressure,
            metadata: self.metadata@,
            device: self.device@,
        }
    }
}

/// The provider at its start, on a host.
pub open spec fn initial_provider(
    features: ReferenceCpuFeatureFlags,
    host: HostFacts,
) -> ProviderState {
    ProviderState {
        executor: initial_state(),
        features,
        pressure: ProviderPressureLevel::Low,
        metadata: reference_cpu_about(),
        device: host_device(host.architecture@, host.parallelism, host.simd),
    }
}

/// The executor after the provider was initialised.
pub open spec fn initialised(s: ExecutorState) -> ExecutorState {
    observing(
        observing(
            s,
            with_text(
                observation(KernelObservationKind::ProviderRegistered),
                "provider"@,
                REFERENCE_CPU_PROVIDER_NAME@,
            ),
        ),
        with_text(
            observation(KernelObservationKind::DeviceDetected),
            "device"@,
            REFERENCE_CPU_DEVICE_ID@,
        ),
    )
}

impl ReferenceCpuProvider {
    /// A provider with the baseline features.
    pub fn new(host: HostFacts) -> (r: ReferenceCpuProvider)
        ensures
            r@ == initial_provider(
                ReferenceCpuFeatureFlags { attention: true, rope: true, quantization: false },
                host,
            ),
    {
        ReferenceCpuProvider::with_features(ReferenceCpuFeatureFlags::baseline(), host)
    }

    /// A provider with the given features.
    pub fn with_features(features: ReferenceCpuFeatureFlags, host: HostFacts) -> (r:
        ReferenceCpuProvider)
        ensures
            r@ == initial_provider(features, host),
    {
        ReferenceCpuProvider {
            metadata: reference_cpu_provider_metadata(),
            device: reference_cpu_device(host.architecture, host.parallelism, &host.simd),
            executor: ReferenceCpuExecutor::new(),
            features,
            pressure: ProviderPressureLevel::Low,
        }
    }

    /// Which optional kernels are turned on.
    pub fn features(&self) -> (r: ReferenceCpuFeatureFlags)
        ensures
            r == self@.features,
    {
        self.features
    }

    /// The executor.
    pub fn executor(&self) -> (r: &ReferenceCpuExecutor)
        ensures
            r@ == self@.executor,
    {
        &self.executor
    }

    /// The executor, to be worked with.
    pub fn executor_mut(&mut self) -> (r: &mut ReferenceCpuExecutor)
        ensures
            r@ == old(self)@.executor,
            final(self)@ == (ProviderState { executor: final(r)@, ..old(self)@ }),
    {
        &mut self.executor
    }

    /// Says how loaded the provider is. It has no queue, so whoever sees the
    /// load says so.
    pub fn report_pressure(&mut self, level: ProviderPressureLevel)
        ensures
            final(self)@ == (ProviderState { pressure: level, ..old(self)@ }),
    {
        self.pressure = level;
    }

    /// How loaded the provider is said to be.
    pub fn pressure(&self) -> (r: ProviderPressureLevel)
        ensures
            r == self@.pressure,
    {
        self.pressure
    }

    /// The provider is always well.
    pub fn health(&self) -> (r: ProviderHealth)
        ensures
            r == ProviderHealth::Available,
    {
        ProviderHealth::Available
    }

    /// What the provider says of itself.
    pub fn metadata(&self) -> (r: &ProviderMetadata)
        ensures
            r@ == self@.metadata,
    {
        &self.metadata
    }

    /// The device of the provider.
    pub fn device(&self) -> (r: &DeviceDescriptor)
        ensures
            r@ == self@.device,
    {
        &self.device
    }

    /// The kernels that the provider advertises: all that it implements, but
    /// for those that are turned off.
    pub fn kernel_advertisements(&self) -> (r: Vec<KernelAdvertisement>)
        ensures
            advertised(r@) == offered_of(catalogue(), self@.features),
    {
        kernel_advertisements(&self.features)
    }

    /// Observes that the provider was registered, and its device found.
    pub fn initialize(&mut self)
        ensures
            final(self)@ == (ProviderState {
                executor: initialised(old(self)@.executor),
                ..old(self)@
            }),
    {
        self.executor.observe(
            KernelObservation::new(
                KernelObservationKind::ProviderRegistered,
            ).with_redacted_metadata("provider", REFERENCE_CPU_PROVIDER_NAME),
        );
        self.executor.observe(
            KernelObservation::new(
                KernelObservationKind::DeviceDetected,
            ).with_redacted_metadata("device", REFERENCE_CPU_DEVICE_ID),
        );
    }
}

} // verus!
