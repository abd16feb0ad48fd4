//! What the provider asks of the memory manager of the runtime.

use vstd::prelude::*;

use crate::affinity::{optional_affinity, Affinity, ResourceAffinity};
use crate::identity::REFERENCE_CPU_PROVIDER_NAME;
use crate::invocation::{Resource, TensorResourceDescriptor};
use crate::tensor::{HostTensor, Tensor};

verus! {

/// What memory is for.
#[derive(Clone, Copy, Debug, PartialEq, Eq, Structural)]
pub enum MemoryAllocationClass {
    /// A tensor.
    Tensor,
    /// A model.
    ModelArtifact,
    /// A tokenizer.
    TokenizerArtifact,
    /// An adapter.
    AdapterArtifact,
    /// Quantisation data.
    QuantizationArtifact,
    /// A cache of keys and values.
    KvCache,
    /// A cache of prefixes.
    PrefixCache,
    /// Scratch space.
    TemporaryWorkspace,
    /// A transfer.
    TransferStaging,
    /// Host memory that stays in place.
    HostPinned,
    /// The linear memory of a browser.
    BrowserLinearMemory,
    /// The runtime itself.
    RuntimeInternal,
}

/// Where memory is.
#[derive(Debug, PartialEq, Eq)]
pub enum MemoryPlacement {
    /// In the host.
    HostOrdinary,
    /// With the named provider, which alone sees it.
    ProviderOwnedOpaque(String),
}

/// Who owns memory.
#[derive(Debug, PartialEq, Eq)]
pub enum MemoryAllocationOwner {
    /// The runtime.
    Runtime,
    /// The named provider.
    Provider(String),
    /// The named device.
    Device(String),
    /// The runtime of components.
    ComponentRuntime,
    /// The named artifact.
    InferenceArtifact(String),
    /// The named session.
    Session(String),
}

/// A request for memory.
#[derive(Debug, PartialEq, Eq)]
pub struct MemoryAllocationRequest {
    /// What it is for.
    pub class: MemoryAllocationClass,
    /// How many bytes.
    pub size_bytes: u64,
    /// Where.
    pub placement: MemoryPlacement,
    /// Who owns it.
    pub owner: MemoryAllocationOwner,
    /// What the resource that it is for is bound to, where that is said.
    pub affinity: Option<ResourceAffinity>,
}

/// Where a tensor is.
#[derive(Debug, PartialEq, Eq)]
pub struct TensorResidency {
    /// The identifier of the tensor.
    pub tensor: String,
    /// Where its memory is.
    pub placement: MemoryPlacement,
    /// What it is bound to.
    pub affinity: ResourceAffinity,
    /// Its memory.
    pub allocation: u64,
}

/// Where memory is, with names as sequences.
pub enum Placement {
    /// In the host.
    HostOrdinary,
    /// With the named provider.
    ProviderOwnedOpaque(Seq<char>),
}

/// Who owns memory, with names as sequences.
pub enum Owner {
    /// The runtime.
    Runtime,
    /// The named provider.
    Provider(Seq<char>),
    /// The named device.
    Device(Seq<char>),
    /// The runtime of components.
    ComponentRuntime,
    /// The named artifact.
    InferenceArtifact(Seq<char>),
    /// The named session.
    Session(Seq<char>),
}

/// What a [`MemoryAllocationRequest`] stands for.
pub struct Request {
    /// What it is for.
    pub class: MemoryAllocationClass,
    /// How many bytes.
    pub size_bytes: u64,
    /// Where.
    pub placement: Placement,
    /// Who owns it.
    pub owner: Owner,
    /// What the resource that it is for is bound to, where that is said.
    pub affinity: Option<Affinity>,
}

/// What a [`TensorResidency`] stands for.
pub struct Residency {
    /// The identifier of the tensor.
    pub tensor: Seq<char>,
    /// Where its memory is.
    pub placement: Placement,
    /// What it is bound to.
    pub affinity: Affinity,
    /// Its memory.
    pub allocation: u64,
}

impl View for MemoryPlacement {
    type V = Placement;

    open spec fn view(&self) -> Placement {
        match self {
            MemoryPlacement::HostOrdinary => Placement::HostOrdinary,
            MemoryPlacement::ProviderOwnedOpaque(name) => Placement::ProviderOwnedOpaque(name@),
        }
    }
}

impl View for MemoryAllocationOwner {
    type V = Owner;

    open spec fn view(&self) -> Owner {
        match self {
            MemoryAllocationOwner::Runtime => Owner::Runtime,
            MemoryAllocationOwner::Provider(name) => Owner::Provider(name@),
            MemoryAllocationOwner::Device(name) => Owner::Device(name@),
            MemoryAllocationOwner::ComponentRuntime => Owner::ComponentRuntime,
            MemoryAllocationOwner::InferenceArtifact(name) => Owner::InferenceArtifact(name@),
            MemoryAllocationOwner::Session(name) => Owner::Session(name@),
        }
    }
}

impl View for MemoryAllocationRequest {
    type V = Request;

    open spec fn view(&self) -> Request {
        Request {
            class: self.class,
            size_bytes: self.size_bytes,
            placement: self.placement@,
            owner: self.owner@,
            affinity: optional_affinity(self.affinity),
        }
    }
}

impl View for TensorResidency {
    type V = Residency;

    open spec fn view(&self) -> Residency {
        Residency {
            tensor: self.tensor@,
            placement: self.placement@,
            affinity: self.affinity@,
            allocation: self.allocation,
        }
    }
}

/// A value of a tensor: the elements, or the word that they are elsewhere.
#[derive(Debug, PartialEq, Eq)]
pub enum TensorValue {
    /// The elements are visible to the host.
    Host(HostTensor),
    /// The elements are not visible to the host.
    Opaque,
}

/// The memory that a tensor takes with this provider: four bytes for each
/// element.
pub open spec fn tensor_request(
    tensor: Tensor,
    class: MemoryAllocationClass,
    owner: Owner,
) -> Request {
    Request {
        class,
        size_bytes: (tensor.data.len() * 4) as u64,
        placement: Placement::ProviderOwnedOpaque(REFERENCE_CPU_PROVIDER_NAME@),
        owner,
        affinity: None,
    }
}

/// The bytes of a tensor can be counted in 64 bits.
pub open spec fn byte_countable(tensor: Tensor) -> bool {
    tensor.data.len() * 4 <= u64::MAX
}

/// The memory that is asked for before a tensor is written.
pub(crate) fn tensor_admission(
    tensor: &HostTensor,
    class: MemoryAllocationClass,
    owner: MemoryAllocationOwner,
) -> (r: MemoryAllocationRequest)
    requires
        byte_countable(tensor@),
    ensures
        r@ == tensor_request(tensor@, class, owner@),
{
    MemoryAllocationRequest {
        class,
        size_bytes: tensor.data.len() as u64 * 4,
        placement: MemoryPlacement::ProviderOwnedOpaque(REFERENCE_CPU_PROVIDER_NAME.to_owned()),
        owner,
        affinity: None,
    }
}

/// Where outputs are: with the provider.
pub open spec fn output_placement() -> Placement {
    Placement::ProviderOwnedOpaque(REFERENCE_CPU_PROVIDER_NAME@)
}

/// Where outputs are.
pub(crate) fn place_output() -> (r: MemoryPlacement)
    ensures
        r@ == output_placement(),
{
    MemoryPlacement::ProviderOwnedOpaque(REFERENCE_CPU_PROVIDER_NAME.to_owned())
}

/// The memory of an output of the given size: it is with the provider, owned by
/// it, and bound to what the output is bound to.
pub open spec fn output_request(size_bytes: u64, affinity: Affinity) -> Request {
    Request {
        class: MemoryAllocationClass::Tensor,
        size_bytes,
        placement: output_placement(),
        owner: Owner::Provider(REFERENCE_CPU_PROVIDER_NAME@),
        affinity: Some(affinity),
    }
}

/// The memory that is asked for before an output is computed.
pub(crate) fn output_admission(size_bytes: u64, affinity: &ResourceAffinity) -> (r:
    MemoryAllocationRequest)
    ensures
        r@ == output_request(size_bytes, affinity@),
{
    MemoryAllocationRequest {
        class: MemoryAllocationClass::Tensor,
        size_bytes,
        placement: place_output(),
        owner: MemoryAllocationOwner::Provider(REFERENCE_CPU_PROVIDER_NAME.to_owned()),
        affinity: Some(affinity.clone()),
    }
}

/// Where an output is: with the provider, in the given memory, and bound to what
/// it is bound to.
pub open spec fn output_residency(output: Resource, allocation: u64) -> Residency {
    Residency {
        tensor: output.id,
        placement: output_placement(),
        affinity: output.affinity,
        allocation,
    }
}

/// Where an output is.
pub(crate) fn locate_output(output: &TensorResourceDescriptor, allocation: u64) -> (r:
    TensorResidency)
    ensures
        r@ == output_residency(output@, allocation),
{
    TensorResidency {
        tensor: output.id.clone(),
        placement: place_output(),
        affinity: output.affinity.clone(),
        allocation,
    }
}

/// Scratch space in the host, owned by the provider.
pub open spec fn workspace_request(size_bytes: u64) -> Request {
    Request {
        class: MemoryAllocationClass::TemporaryWorkspace,
        size_bytes,
        placement: Placement::HostOrdinary,
        owner: Owner::Provider(REFERENCE_CPU_PROVIDER_NAME@),
        affinity: None,
    }
}

/// The memory that is asked for as scratch space.
pub(crate) fn workspace_admission(size_bytes: u64) -> (r: MemoryAllocationRequest)
    ensures
        r@ == workspace_request(size_bytes),
{
    MemoryAllocationRequest {
        class: MemoryAllocationClass::TemporaryWorkspace,
        size_bytes,
        placement: MemoryPlacement::HostOrdinary,
        owner: MemoryAllocationOwner::Provider(REFERENCE_CPU_PROVIDER_NAME.to_owned()),
        affinity: None,
    }
}

/// The memory manager of the runtime, as far as this provider needs it. Each
/// method takes it as it is, and gives it back as it is afterwards.
///
/// No method carries a contract: whether memory is there is for the runtime to
/// say.
pub trait MemoryLedger: Sized {
    /// Why memory is denied.
    type Denial;

    /// Allocates memory.
    fn allocate(self, request: MemoryAllocationRequest) -> (Result<u64, Self::Denial>, Self);

    /// A denial in words.
    fn describe(denial: &Self::Denial) -> String;

    /// Releases memory.
    fn release(self, allocation: u64) -> Self;

    /// Records where a tensor is.
    fn record_residency(self, residency: TensorResidency) -> Self;
}

/// The memory manager is asked for memory, and replies.
pub open spec fn obtains<M: MemoryLedger>(
    memory: M,
    request: Request,
    reply: Result<u64, M::Denial>,
    after: M,
) -> bool {
    exists|r: MemoryAllocationRequest|
        r@ == request && #[trigger] call_ensures(M::allocate, (memory, r), (reply, after))
}

/// The memory manager is asked to release memory, if there is any to release.
pub open spec fn gives_back<M: MemoryLedger>(
    memory: M,
    allocation: Option<u64>,
    after: M,
) -> bool {
    match allocation {
        Some(a) => call_ensures(M::release, (memory, a), after),
        None => after == memory,
    }
}

/// What is asked of the memory manager: four bytes for each element of a tensor
/// that is written, for what and for whom the writer says; scratch space in the
/// host, owned by the provider, of the size that is wanted. All but scratch space
/// is with the provider.
pub proof fn law_requests(
    tensor: Tensor,
    class: MemoryAllocationClass,
    owner: Owner,
    size_bytes: u64,
)
    requires
        tensor.data.len() * 4 <= u64::MAX,
    ensures
        byte_countable(tensor),
        ({
            let request = tensor_request(tensor, class, owner);
            let scratch = workspace_request(size_bytes);
            let provider = REFERENCE_CPU_PROVIDER_NAME@;
            &&& request.size_bytes == 4 * tensor.data.len()
            &&& request.class == class
            &&& request.owner == owner
            &&& request.placement == Placement::ProviderOwnedOpaque(provider)
            &&& request.affinity is None
            &&& scratch.size_bytes == size_bytes
            &&& scratch.class == MemoryAllocationClass::TemporaryWorkspace
            &&& scratch.owner == Owner::Provider(provider)
            &&& scratch.placement == Placement::HostOrdinary
            &&& scratch.affinity is None
        }),
{
}

} // verus!
