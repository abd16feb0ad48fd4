//! Whether the provider may stand in for another.

use vstd::prelude::*;

use crate::affinity::{Affinity, FallbackClass, ResourceAffinity};
use crate::error::{ReferenceCpuError, ReferenceCpuErrorCode, Refusal};
use crate::tensor::refused;

verus! {

/// What policy says of one candidate resource.
#[derive(Clone, Copy, Debug, PartialEq, Eq, Structural)]
pub struct FallbackPolicyContext {
    /// Fallback is permitted at all.
    pub policy_allows_fallback: bool,
    /// Fallback would convert the element type.
    pub dtype_conversion_required: bool,
    /// Converting the element type is permitted.
    pub dtype_conversion_allowed: bool,
    /// Fallback would convert the layout.
    pub layout_conversion_required: bool,
    /// Converting the layout is permitted.
    pub layout_conversion_allowed: bool,
}

impl FallbackPolicyContext {
    /// The strictest policy: no conversion is required, and none permitted.
    pub fn new(policy_allows_fallback: bool) -> (r: FallbackPolicyContext)
        ensures
            r == (FallbackPolicyContext {
                policy_allows_fallback,
                dtype_conversion_required: false,
                dtype_conversion_allowed: false,
                layout_conversion_required: false,
                layout_conversion_allowed: false,
            }),
    {
        FallbackPolicyContext {
            policy_allows_fallback,
            dtype_conversion_required: false,
            dtype_conversion_allowed: false,
            layout_conversion_required: false,
            layout_conversion_allowed: false,
        }
    }

    /// The same policy, with what it says of element types.
    pub fn with_dtype_conversion(self, required: bool, allowed: bool) -> (r: FallbackPolicyContext)
        ensures
            r == (FallbackPolicyContext {
                dtype_conversion_required: required,
                dtype_conversion_allowed: allowed,
                ..self
            }),
    {
        FallbackPolicyContext {
            dtype_conversion_required: required,
            dtype_conversion_allowed: allowed,
            ..self
        }
    }

    /// The same policy, with what it says of layouts.
    pub fn with_layout_conversion(self, required: bool, allowed: bool) -> (r: FallbackPolicyContext)
        ensures
            r == (FallbackPolicyContext {
                layout_conversion_required: required,
                layout_conversion_allowed: allowed,
                ..self
            }),
    {
        FallbackPolicyContext {
            layout_conversion_required: required,
            layout_conversion_allowed: allowed,
            ..self
        }
    }
}

/// A denial of fallback.
pub open spec fn denial(reason: Seq<char>) -> Refusal {
    Refusal { code: ReferenceCpuErrorCode::FallbackDenied, reason }
}

/// Why fallback is denied, if it is.
pub open spec fn fallback_refusal(
    affinity: Affinity,
    context: FallbackPolicyContext,
) -> Option<Refusal> {
    if !context.policy_allows_fallback {
        Some(denial("Runtime policy does not permit Reference CPU fallback"@))
    } else if affinity.fallback == FallbackClass::ProviderPinned {
        Some(denial("Resource Affinity forbids host movement"@))
    } else if context.dtype_conversion_required && !context.dtype_conversion_allowed {
        Some(denial("fallback would require a dtype conversion that policy forbids"@))
    } else if context.layout_conversion_required && !context.layout_conversion_allowed {
        Some(denial("fallback would require a layout conversion that policy forbids"@))
    } else {
        None
    }
}

/// Whether fallback is permitted for a resource.
pub fn evaluate_fallback(affinity: &ResourceAffinity, context: &FallbackPolicyContext) -> (r:
    Result<(), ReferenceCpuError>)
    ensures
        refused(r, fallback_refusal(affinity@, *context)),
{
    if !context.policy_allows_fallback {
        return Err(denied("Runtime policy does not permit Reference CPU fallback"));
    }
    if affinity.fallback == FallbackClass::ProviderPinned {
        return Err(denied("Resource Affinity forbids host movement"));
    }
    if context.dtype_conversion_required && !context.dtype_conversion_allowed {
        return Err(denied("fallback would require a dtype conversion that policy forbids"));
    }
    if context.layout_conversion_required && !context.layout_conversion_allowed {
        return Err(denied("fallback would require a layout conversion that policy forbids"));
    }
    Ok(())
}

fn denied(reason: &str) -> (r: ReferenceCpuError)
    ensures
        r@ == denial(reason@),
{
    ReferenceCpuError::new(ReferenceCpuErrorCode::FallbackDenied, reason.to_owned())
}

/// Fallback is permitted exactly where policy permits it, the resource may
/// move, and each conversion that it would take is permitted.
pub proof fn law_fallback(affinity: Affinity, context: FallbackPolicyContext)
    ensures
        fallback_refusal(affinity, context) is None <==> {
            &&& context.policy_allows_fallback
            &&& affinity.fallback != FallbackClass::ProviderPinned
            &&& context.dtype_conversion_required ==> context.dtype_conversion_allowed
            &&& context.layout_conversion_required ==> context.layout_conversion_allowed
        },
        fallback_refusal(affinity, context) matches Some(e) ==> e.code
            == ReferenceCpuErrorCode::FallbackDenied,
{
}

/// A resource that may not move is always denied, whatever policy says.
pub proof fn law_pinned_denied(affinity: Affinity, context: FallbackPolicyContext)
    requires
        affinity.fallback == FallbackClass::ProviderPinned,
    ensures
        fallback_refusal(affinity, context) is Some,
{
}

/// A denial gives the first reason that there is: policy, then where the resource
/// may be, then the element type, then the layout.
pub proof fn law_denial_reason(affinity: Affinity, context: FallbackPolicyContext)
    ensures
        ({
            let r = fallback_refusal(affinity, context);
            let pinned = affinity.fallback == FallbackClass::ProviderPinned;
            let dtype = context.dtype_conversion_required && !context.dtype_conversion_allowed;
            let layout = context.layout_conversion_required && !context.layout_conversion_allowed;
            &&& !context.policy_allows_fallback ==> r is Some && r->Some_0.reason
                == "Runtime policy does not permit Reference CPU fallback"@
            &&& context.policy_allows_fallback && pinned ==> r is Some && r->Some_0.reason
                == "Resource Affinity forbids host movement"@
            &&& context.policy_allows_fallback && !pinned && dtype ==> r is Some
                && r->Some_0.reason
                == "fallback would require a dtype conversion that policy forbids"@
            &&& context.policy_allows_fallback && !pinned && !dtype && layout ==> r is Some
                && r->Some_0.reason
                == "fallback would require a layout conversion that policy forbids"@
        }),
{
}

} // verus!
