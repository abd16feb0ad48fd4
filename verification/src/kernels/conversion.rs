//! Conversions between element types and between layouts: only the identity is
//! carried out, everything else is refused.

use vstd::prelude::*;

use crate::error::{ReferenceCpuError, ReferenceCpuErrorCode, Refusal};
use crate::tensor::{refused, HostTensor};

verus! {

/// A portable element type.
#[derive(Clone, Copy, Debug, PartialEq, Eq, Structural)]
pub enum ComputeDType {
    /// Truth values.
    Boolean,
    /// Unsigned 8-bit integers.
    UInt8,
    /// Signed 8-bit integers.
    SInt8,
    /// Unsigned 16-bit integers.
    UInt16,
    /// Signed 16-bit integers.
    SInt16,
    /// Unsigned 32-bit integers.
    UInt32,
    /// Signed 32-bit integers.
    SInt32,
    /// Unsigned 64-bit integers.
    UInt64,
    /// Signed 64-bit integers.
    SInt64,
    /// Half precision.
    Float16,
    /// Half precision with the exponent of single precision.
    BrainFloat16,
    /// Single precision.
    Float32,
    /// Double precision.
    Float64,
}

/// The name of an element type.
pub open spec fn dtype_name(x: ComputeDType) -> Seq<char> {
    match x {
        ComputeDType::Boolean => "Boolean"@,
        ComputeDType::UInt8 => "UInt8"@,
        ComputeDType::SInt8 => "SInt8"@,
        ComputeDType::UInt16 => "UInt16"@,
        ComputeDType::SInt16 => "SInt16"@,
        ComputeDType::UInt32 => "UInt32"@,
        ComputeDType::SInt32 => "SInt32"@,
        ComputeDType::UInt64 => "UInt64"@,
        ComputeDType::SInt64 => "SInt64"@,
        ComputeDType::Float16 => "Float16"@,
        ComputeDType::BrainFloat16 => "BrainFloat16"@,
        ComputeDType::Float32 => "Float32"@,
        ComputeDType::Float64 => "Float64"@,
    }
}

impl ComputeDType {
    /// The name of an element type.
    pub fn name(self) -> (r: &'static str)
        ensures
            r@ == dtype_name(self),
    {
        match self {
            ComputeDType::Boolean => "Boolean",
            ComputeDType::UInt8 => "UInt8",
            ComputeDType::SInt8 => "SInt8",
            ComputeDType::UInt16 => "UInt16",
            ComputeDType::SInt16 => "SInt16",
            ComputeDType::UInt32 => "UInt32",
            ComputeDType::SInt32 => "SInt32",
            ComputeDType::UInt64 => "UInt64",
            ComputeDType::SInt64 => "SInt64",
            ComputeDType::Float16 => "Float16",
            ComputeDType::BrainFloat16 => "BrainFloat16",
            ComputeDType::Float32 => "Float32",
            ComputeDType::Float64 => "Float64",
        }
    }
}

/// How the elements of a tensor are laid out.
#[derive(Clone, Copy, Debug, PartialEq, Eq, Structural)]
pub enum TensorLayoutKind {
    /// Row-major, without gaps.
    Contiguous,
    /// Row-major, with a stride for each dimension.
    Strided,
    /// In blocks.
    Blocked,
    /// In pages.
    Paged,
    /// Known to the provider alone.
    ProviderOpaque,
    /// Quantized values, packed.
    QuantizedPacked,
    /// Arranged for attention.
    AttentionSpecific,
    /// Arranged for a browser.
    BrowserCompatible,
}

/// The name of a layout.
pub open spec fn layout_name(x: TensorLayoutKind) -> Seq<char> {
    match x {
        TensorLayoutKind::Contiguous => "Contiguous"@,
        TensorLayoutKind::Strided => "Strided"@,
        TensorLayoutKind::Blocked => "Blocked"@,
        TensorLayoutKind::Paged => "Paged"@,
        TensorLayoutKind::ProviderOpaque => "ProviderOpaque"@,
        TensorLayoutKind::QuantizedPacked => "QuantizedPacked"@,
        TensorLayoutKind::AttentionSpecific => "AttentionSpecific"@,
        TensorLayoutKind::BrowserCompatible => "BrowserCompatible"@,
    }
}

impl TensorLayoutKind {
    /// The name of a layout.
    pub fn name(self) -> (r: &'static str)
        ensures
            r@ == layout_name(self),
    {
        match self {
            TensorLayoutKind::Contiguous => "Contiguous",
            TensorLayoutKind::Strided => "Strided",
            TensorLayoutKind::Blocked => "Blocked",
            TensorLayoutKind::Paged => "Paged",
            TensorLayoutKind::ProviderOpaque => "ProviderOpaque",
            TensorLayoutKind::QuantizedPacked => "QuantizedPacked",
            TensorLayoutKind::AttentionSpecific => "AttentionSpecific",
            TensorLayoutKind::BrowserCompatible => "BrowserCompatible",
        }
    }
}

/// Why a conversion between element types is refused, if it is.
pub open spec fn dtype_conversion_refusal(from: ComputeDType, to: ComputeDType) -> Option<Refusal> {
    if from != ComputeDType::Float32 || to != ComputeDType::Float32 {
        Some(
            Refusal {
                code: ReferenceCpuErrorCode::DTypeUnsupported,
                reason: "Reference CPU only supports explicit f32; requested "@ + dtype_name(from)
                    + " -> "@ + dtype_name(to),
            },
        )
    } else {
        None
    }
}

/// Why a conversion between layouts is refused, if it is.
pub open spec fn layout_conversion_refusal(
    from: TensorLayoutKind,
    to: TensorLayoutKind,
) -> Option<Refusal> {
    if from == TensorLayoutKind::Contiguous && to == TensorLayoutKind::Contiguous {
        None
    } else if to == TensorLayoutKind::Strided || from == TensorLayoutKind::Strided {
        Some(
            Refusal {
                code: ReferenceCpuErrorCode::LayoutUnsupported,
                reason: "strided layout conversion is a defined placeholder, not yet implemented (requested "@
                    + layout_name(from) + " -> "@ + layout_name(to) + ")"@,
            },
        )
    } else {
        Some(
            Refusal {
                code: ReferenceCpuErrorCode::LayoutUnsupported,
                reason: "Reference CPU only supports contiguous layout; requested "@ + layout_name(
                    from,
                ) + " -> "@ + layout_name(to),
            },
        )
    }
}

/// The refusal of quantized formats.
pub open spec fn quantization_refusal() -> Refusal {
    Refusal {
        code: ReferenceCpuErrorCode::DTypeUnsupported,
        reason: "Reference CPU has no quantized kernel implementation"@,
    }
}

/// Converts between element types: single precision to itself, and nothing
/// else.
pub fn dtype_conversion(input: &HostTensor, from: ComputeDType, to: ComputeDType) -> (r: Result<
    HostTensor,
    ReferenceCpuError,
>)
    ensures
        refused(r, dtype_conversion_refusal(from, to)),
        r matches Ok(t) ==> t@ == input@,
{
    if from != ComputeDType::Float32 || to != ComputeDType::Float32 {
        let mut reason = "Reference CPU only supports explicit f32; requested ".to_owned();
        reason.append(from.name());
        reason.append(" -> ");
        reason.append(to.name());
        return Err(ReferenceCpuError::new(ReferenceCpuErrorCode::DTypeUnsupported, reason));
    }
    Ok(input.clone())
}

/// Converts between layouts: contiguous to itself, and nothing else.
pub fn layout_conversion(
    input: &HostTensor,
    from: TensorLayoutKind,
    to: TensorLayoutKind,
) -> (r: Result<HostTensor, ReferenceCpuError>)
    ensures
        refused(r, layout_conversion_refusal(from, to)),
        r matches Ok(t) ==> t@ == input@,
{
    if from == TensorLayoutKind::Contiguous && to == TensorLayoutKind::Contiguous {
        return Ok(input.clone());
    }
    if to == TensorLayoutKind::Strided || from == TensorLayoutKind::Strided {
        let mut reason =
            "strided layout conversion is a defined placeholder, not yet implemented (requested ".to_owned();
        reason.append(from.name());
        reason.append(" -> ");
        reason.append(to.name());
        reason.append(")");
        return Err(ReferenceCpuError::new(ReferenceCpuErrorCode::LayoutUnsupported, reason));
    }
    let mut reason = "Reference CPU only supports contiguous layout; requested ".to_owned();
    reason.append(from.name());
    reason.append(" -> ");
    reason.append(to.name());
    Err(ReferenceCpuError::new(ReferenceCpuErrorCode::LayoutUnsupported, reason))
}

/// The refusal of a quantized input.
pub fn dequantize_placeholder() -> (r: ReferenceCpuError)
    ensures
        r@ == quantization_refusal(),
{
    ReferenceCpuError::new(
        ReferenceCpuErrorCode::DTypeUnsupported,
        "Reference CPU has no quantized kernel implementation".to_owned(),
    )
}

/// The refusal of a quantized output.
pub fn quantize_placeholder() -> (r: ReferenceCpuError)
    ensures
        r@ == quantization_refusal(),
{
    ReferenceCpuError::new(
        ReferenceCpuErrorCode::DTypeUnsupported,
        "Reference CPU has no quantized kernel implementation".to_owned(),
    )
}

/// No conversion is silent: whatever is not the identity on single precision
/// or on the contiguous layout is refused.
pub proof fn law_conversions_explicit(
    from: ComputeDType,
    to: ComputeDType,
    source: TensorLayoutKind,
    target: TensorLayoutKind,
)
    ensures
        dtype_conversion_refusal(from, to) is None <==> from == ComputeDType::Float32 && to == from,
        layout_conversion_refusal(source, target) is None <==> source
            == TensorLayoutKind::Contiguous && target == source,
        layout_conversion_refusal(source, target) matches Some(e) ==> e.code
            == ReferenceCpuErrorCode::LayoutUnsupported,
        dtype_conversion_refusal(from, to) matches Some(e) ==> e.code
            == ReferenceCpuErrorCode::DTypeUnsupported,
{
}

} // verus!
