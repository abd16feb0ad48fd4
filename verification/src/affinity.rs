//! What a resource is bound to.

use vstd::prelude::*;

use crate::error::optional_text;
use crate::identity::CapabilityVersion;

verus! {

/// How far a resource may move from the provider that owns it.
#[derive(Clone, Copy, Debug, PartialEq, Eq, Structural)]
pub enum FallbackClass {
    /// It may move without notice.
    Transparent,
    /// It may move if the work starts over.
    Restartable,
    /// It may not move.
    ProviderPinned,
}

/// The implementation of a capability that a resource is bound to.
#[derive(Debug, PartialEq, Eq)]
pub struct CapabilityBinding {
    /// The capability.
    pub id: String,
    /// The version of its implementation.
    pub version: CapabilityVersion,
}

/// An artifact that a resource is bound to.
#[derive(Debug, PartialEq, Eq)]
pub struct ArtifactBinding {
    /// What the artifact is to the resource.
    pub role: String,
    /// The fingerprint of its content.
    pub fingerprint: String,
}

/// What a resource is bound to.
#[derive(Debug, PartialEq, Eq)]
pub struct ResourceAffinity {
    /// The provider that owns it.
    pub provider: Option<String>,
    /// The device that it is on.
    pub device: Option<String>,
    /// The implementations of capabilities that it is bound to.
    pub capabilities: Vec<CapabilityBinding>,
    /// The artifacts that it is bound to.
    pub artifacts: Vec<ArtifactBinding>,
    /// The context that it is executed in.
    pub execution_context: Option<u64>,
    /// The group of resources that it is in.
    pub group: Option<u64>,
    /// How far it may move.
    pub fallback: FallbackClass,
}

/// What a [`ResourceAffinity`] stands for.
#[verifier::ext_equal]
pub struct Affinity {
    /// The provider that owns the resource.
    pub provider: Option<Seq<char>>,
    /// The device that it is on.
    pub device: Option<Seq<char>>,
    /// The implementations of capabilities that it is bound to.
    pub capabilities: Seq<(Seq<char>, CapabilityVersion)>,
    /// The artifacts that it is bound to.
    pub artifacts: Seq<(Seq<char>, Seq<char>)>,
    /// The context that it is executed in.
    pub execution_context: Option<u64>,
    /// The group of resources that it is in.
    pub group: Option<u64>,
    /// How far it may move.
    pub fallback: FallbackClass,
}

impl View for CapabilityBinding {
    type V = (Seq<char>, CapabilityVersion);

    open spec fn view(&self) -> (Seq<char>, CapabilityVersion) {
        (self.id@, self.version)
    }
}

impl View for ArtifactBinding {
    type V = (Seq<char>, Seq<char>);

    open spec fn view(&self) -> (Seq<char>, Seq<char>) {
        (self.role@, self.fingerprint@)
    }
}

/// What some implementations of capabilities stand for.
pub open spec fn capability_bindings(s: Seq<CapabilityBinding>) -> Seq<
    (Seq<char>, CapabilityVersion),
> {
    Seq::new(s.len(), |i: int| s[i]@)
}

/// What some artifacts stand for.
pub open spec fn artifact_bindings(s: Seq<ArtifactBinding>) -> Seq<(Seq<char>, Seq<char>)> {
    Seq::new(s.len(), |i: int| s[i]@)
}

impl View for ResourceAffinity {
    type V = Affinity;

    open spec fn view(&self) -> Affinity {
        Affinity {
            provider: optional_text(self.provider),
            device: optional_text(self.device),
            capabilities: capability_bindings(self.capabilities@),
            artifacts: artifact_bindings(self.artifacts@),
            execution_context: self.execution_context,
            group: self.group,
            fallback: self.fallback,
        }
    }
}

/// What an optional affinity stands for.
pub open spec fn optional_affinity(a: Option<ResourceAffinity>) -> Option<Affinity> {
    match a {
        Some(x) => Some(x@),
        None => None,
    }
}

impl Clone for CapabilityBinding {
    fn clone(&self) -> (r: CapabilityBinding)
        ensures
            r@ == self@,
    {
        CapabilityBinding { id: self.id.clone(), version: self.version }
    }
}

impl Clone for ArtifactBinding {
    fn clone(&self) -> (r: ArtifactBinding)
        ensures
            r@ == self@,
    {
        ArtifactBinding { role: self.role.clone(), fingerprint: self.fingerprint.clone() }
    }
}

fn copy_text(text: &Option<String>) -> (r: Option<String>)
    ensures
        optional_text(r) == optional_text(*text),
{
    match text {
        Some(x) => Some(x.clone()),
        None => None,
    }
}

impl Clone for ResourceAffinity {
    fn clone(&self) -> (r: ResourceAffinity)
        ensures
            r@ == self@,
    {
        let r = ResourceAffinity {
            provider: copy_text(&self.provider),
            device: copy_text(&self.device),
            capabilities: self.capabilities.clone(),
            artifacts: self.artifacts.clone(),
            execution_context: self.execution_context,
            group: self.group,
            fallback: self.fallback,
        };
        assert(r@.capabilities =~= self@.capabilities);
        assert(r@.artifacts =~= self@.artifacts);
        r
    }
}

/// What a resource is bound to that is bound to nothing.
pub open spec fn unbound(fallback: FallbackClass) -> Affinity {
    Affinity {
        provider: None,
        device: None,
        capabilities: Seq::empty(),
        artifacts: Seq::empty(),
        execution_context: None,
        group: None,
        fallback,
    }
}

impl ResourceAffinity {
    /// An affinity with the given class that is bound to nothing.
    pub fn new(fallback: FallbackClass) -> (r: ResourceAffinity)
        ensures
            r@ == unbound(fallback),
    {
        let r = ResourceAffinity {
            provider: None,
            device: None,
            capabilities: Vec::new(),
            artifacts: Vec::new(),
            execution_context: None,
            group: None,
            fallback,
        };
        assert(r@ =~= unbound(fallback));
        r
    }
}

} // verus!
