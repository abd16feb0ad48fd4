//! What the provider reports of its work.

use vstd::prelude::*;

use crate::error::optional_text;
use crate::identity::{kernel_key, KernelId};

verus! {

/// What has happened.
#[derive(Clone, Copy, Debug, PartialEq, Eq, Structural)]
pub enum KernelObservationKind {
    /// The provider was registered.
    ProviderRegistered,
    /// A device was found.
    DeviceDetected,
    /// The dispatch of a kernel has started.
    KernelDispatchStarted,
    /// The dispatch of a kernel has succeeded.
    KernelDispatchCompleted,
    /// The dispatch of a kernel has failed.
    KernelDispatchFailed,
    /// Memory for an output was denied.
    KernelMemoryFeasibilityFailed,
    /// The deadline had passed before the start.
    KernelTimeout,
    /// Fallback was considered.
    KernelFallbackConsidered,
    /// Fallback was permitted.
    KernelFallbackUsed,
    /// Fallback was denied.
    KernelFallbackFailed,
    /// The conformance checks were run.
    KernelConformanceResult,
}

/// A named text of an observation.
#[derive(Debug, PartialEq, Eq)]
pub struct Metadata {
    /// The name.
    pub key: String,
    /// The text.
    pub value: String,
}

impl Clone for Metadata {
    fn clone(&self) -> (r: Metadata)
        ensures
            r.key@ == self.key@,
            r.value@ == self.value@,
    {
        Metadata { key: self.key.clone(), value: self.value.clone() }
    }
}

/// One observation.
#[derive(Debug, PartialEq, Eq)]
pub struct KernelObservation {
    /// What has happened.
    pub kind: KernelObservationKind,
    /// The key of the kernel that it is about.
    pub kernel: Option<String>,
    /// The invocation that it is about.
    pub invocation: Option<String>,
    /// What else is known of it.
    pub redacted_metadata: Vec<Metadata>,
}

/// What a [`KernelObservation`] stands for.
pub struct Observation {
    /// What has happened.
    pub kind: KernelObservationKind,
    /// The key of the kernel that it is about.
    pub kernel: Option<Seq<char>>,
    /// The invocation that it is about.
    pub invocation: Option<Seq<char>>,
    /// What else is known of it: names and texts.
    pub metadata: Seq<(Seq<char>, Seq<char>)>,
}

/// What named texts stand for.
pub open spec fn named_texts(s: Seq<Metadata>) -> Seq<(Seq<char>, Seq<char>)> {
    Seq::new(s.len(), |i: int| (s[i].key@, s[i].value@))
}

impl View for KernelObservation {
    type V = Observation;

    open spec fn view(&self) -> Observation {
        Observation {
            kind: self.kind,
            kernel: optional_text(self.kernel),
            invocation: optional_text(self.invocation),
            metadata: named_texts(self.redacted_metadata@),
        }
    }
}

/// What some observations stand for.
pub open spec fn observed(s: Seq<KernelObservation>) -> Seq<Observation> {
    Seq::new(s.len(), |i: int| s[i]@)
}

/// A copy of an optional text.
pub(crate) fn optional_clone(s: &Option<String>) -> (r: Option<String>)
    ensures
        optional_text(r) == optional_text(*s),
{
    match s {
        Some(text) => Some(text.clone()),
        None => None,
    }
}

impl Clone for KernelObservation {
    fn clone(&self) -> (r: KernelObservation)
        ensures
            r@ == self@,
    {
        let r = KernelObservation {
            kind: self.kind,
            kernel: optional_clone(&self.kernel),
            invocation: optional_clone(&self.invocation),
            redacted_metadata: self.redacted_metadata.clone(),
        };
        assert(r@.metadata =~= self@.metadata);
        r
    }
}

/// An observation of which only the kind is known.
pub open spec fn observation(kind: KernelObservationKind) -> Observation {
    Observation { kind, kernel: None, invocation: None, metadata: Seq::empty() }
}

/// An observation of a kernel.
pub open spec fn of_kernel(kind: KernelObservationKind, key: Seq<char>) -> Observation {
    Observation { kernel: Some(key), ..observation(kind) }
}

/// An observation of an invocation of a kernel.
pub open spec fn of_invocation(
    kind: KernelObservationKind,
    key: Seq<char>,
    invocation: Seq<char>,
) -> Observation {
    Observation { invocation: Some(invocation), ..of_kernel(kind, key) }
}

/// An observation with one more named text.
pub open spec fn with_text(o: Observation, key: Seq<char>, value: Seq<char>) -> Observation {
    Observation { metadata: o.metadata.push((key, value)), ..o }
}

impl KernelObservation {
    /// An observation of which only the kind is known.
    pub fn new(kind: KernelObservationKind) -> (r: KernelObservation)
        ensures
            r@ == observation(kind),
    {
        let r = KernelObservation {
            kind,
            kernel: None,
            invocation: None,
            redacted_metadata: Vec::new(),
        };
        assert(r@.metadata =~= Seq::empty());
        r
    }

    /// The same observation, of a kernel.
    pub fn with_kernel(self, kernel: &KernelId) -> (r: KernelObservation)
        ensures
            r@ == (Observation { kernel: Some(kernel_key(kernel@)), ..self@ }),
    {
        KernelObservation { kernel: Some(kernel.stable_key()), ..self }
    }

    /// The same observation, of an invocation.
    pub fn with_invocation(self, invocation: String) -> (r: KernelObservation)
        ensures
            r@ == (Observation { invocation: Some(invocation@), ..self@ }),
    {
        KernelObservation { invocation: Some(invocation), ..self }
    }

    /// The same observation, with one more named text.
    pub fn with_redacted_metadata(self, key: &str, value: &str) -> (r: KernelObservation)
        ensures
            r@ == with_text(self@, key@, value@),
    {
        let mut metadata = self.redacted_metadata;
        metadata.push(Metadata { key: key.to_owned(), value: value.to_owned() });
        let r = KernelObservation {
            kind: self.kind,
            kernel: self.kernel,
            invocation: self.invocation,
            redacted_metadata: metadata,
        };
        assert(r@.metadata =~= with_text(self@, key@, value@).metadata);
        r
    }
}

} // verus!
