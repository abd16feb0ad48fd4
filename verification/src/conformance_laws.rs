//! What a conformance report promises: a check is passed where the kernel gave
//! what it must, within the tolerance, and only there.

use vstd::prelude::*;

use crate::conformance::{
    all_close, checks_call, compares, judged, matrix4, normalised, report_observation, reports,
    row2, vector1, vector2, ReferenceCpuConformanceCheck, ReferenceCpuConformanceReport,
    TensorResourceFacts, EIGHT, ELEVEN, FIFTEEN, FIFTY, FIVE, FORTY_THREE, FOUR, NINETEEN, SEVEN,
    SIX, TEN, THREE, TWELVE_AND_A_HALF, TWENTY, TWENTY_TWO,
};
use crate::dispatch::{call_gives, Call, DEFAULT_EPSILON, DEFAULT_ROPE_BASE};
use crate::error::{reference_cpu_error_id, ReferenceCpuError};
use crate::float::{divides, multiplies, roots, subtracts, Arithmetic, HALF, ONE, TWO, ZERO};
use crate::kernels::attention::{attention_gives, AttentionParams};
use crate::kernels::elementwise::{add_gives, mul_gives, silu_gives};
use crate::kernels::embedding::embedding_gives;
use crate::kernels::matmul::matmul_gives;
use crate::kernels::rmsnorm::rmsnorm_gives;
use crate::kernels::rope::{rope_gives, RopeParams};
use crate::kernels::softmax::softmax_gives;
use crate::observation::KernelObservationKind;
use crate::tensor::{HostTensor, Tensor};
use crate::text::decimal;

verus! {

/// The difference of two numbers, taken once, is less than one ten thousandth
/// without its sign, or is not.
pub open spec fn differs_by<A: Arithmetic>(ops: &A, x: u32, y: u32, little: bool) -> bool {
    exists|d: u32| #[trigger]
        subtracts(ops, x, y, d) && (d as int % 0x8000_0000 < 0x38D1_B717) == little
}

/// Two rows of numbers are told close exactly by their lengths and the
/// differences of all their elements: where they are, they are as long as each
/// other and no element is off; where they are not, an element is off, or the
/// lengths are.
pub proof fn law_close<A: Arithmetic>(ops: &A, a: Seq<u32>, b: Seq<u32>, r: bool)
    requires
        compares(ops, a, b, r),
    ensures
        r ==> a.len() == b.len(),
        r ==> forall|i: int| 0 <= i < a.len() ==> differs_by(ops, #[trigger] a[i], b[i], true),
        !r && a.len() == b.len() ==> exists|i: int|
            0 <= i < a.len() && differs_by(ops, #[trigger] a[i], b[i], false),
{
    if r {
        let differences = choose|differences: Seq<u32>| #[trigger]
            all_close(ops, a, b, differences);
        assert forall|i: int| 0 <= i < a.len() implies differs_by(
            ops,
            #[trigger] a[i],
            b[i],
            true,
        ) by {
            assert(subtracts(ops, a[i], b[i], differences[i]));
        }
    } else if a.len() == b.len() {
        let (i, d) = choose|i: int, difference: u32|
            0 <= i < a.len() && #[trigger] subtracts(ops, a[i], b[i], difference)
                && !crate::conformance::tolerable(difference);
        assert(subtracts(ops, a[i], b[i], d));
        assert(differs_by(ops, a[i], b[i], false));
    }
}

/// A check tells what came of a call: it is passed where there is an output, as
/// long as what is expected and nowhere off it, and carries words only where the
/// call was refused: under which name, and why.
pub open spec fn tells<A: Arithmetic>(
    ops: &A,
    out: Result<HostTensor, ReferenceCpuError>,
    expected: Seq<u32>,
    check: ReferenceCpuConformanceCheck,
) -> bool {
    &&& check.detail is Some <==> out is Err
    &&& out is Err ==> check.detail->Some_0@ == reference_cpu_error_id(out->Err_0.code) + ": "@
        + out->Err_0.reason@
    &&& check.passed ==> {
        &&& out is Ok
        &&& out->Ok_0@.data.len() == expected.len()
        &&& forall|i: int|
            0 <= i < expected.len() ==> differs_by(
                ops,
                #[trigger] out->Ok_0@.data[i],
                expected[i],
                true,
            )
    }
    &&& !check.passed && out is Ok && out->Ok_0@.data.len() == expected.len() ==> exists|i: int|
        0 <= i < expected.len() && differs_by(
            ops,
            #[trigger] out->Ok_0@.data[i],
            expected[i],
            false,
        )
}

/// What a check of a call tells.
proof fn lemma_told<A: Arithmetic>(
    ops: &A,
    name: Seq<char>,
    call: Call,
    expected: Seq<u32>,
    check: ReferenceCpuConformanceCheck,
) -> (out: Result<HostTensor, ReferenceCpuError>)
    requires
        checks_call(ops, name, call, expected, check),
    ensures
        call_gives(ops, call, out),
        tells(ops, out, expected, check),
{
    reveal(checks_call);
    let out = choose|out: Result<HostTensor, ReferenceCpuError>| #[trigger]
        call_gives(ops, call, out) && judged(ops, out, expected, check);
    if let Ok(t) = out {
        law_close(ops, t@.data, expected, check.passed);
    }
    out
}

/// One and two, three and four, times five and six, seven and eight, are nineteen
/// and twenty-two, forty-three and fifty.
///
/// The check of this tells what the kernel gave, which is handed out.
pub proof fn law_matmul_checked<A: Arithmetic>(
    ops: &A,
    f: TensorResourceFacts,
    report: ReferenceCpuConformanceReport,
) -> (out: Result<HostTensor, ReferenceCpuError>)
    requires
        reports(ops, f, report),
    ensures
        report.checks@.len() == 13,
        matmul_gives(
            ops,
            (Tensor {
                shape: seq![2u64, 2u64],
                data: seq![0x3F80_0000u32, 0x4000_0000u32, 0x4040_0000u32, 0x4080_0000u32],
            }),
            (Tensor {
                shape: seq![2u64, 2u64],
                data: seq![0x40A0_0000u32, 0x40C0_0000u32, 0x40E0_0000u32, 0x4100_0000u32],
            }),
            false,
            false,
            out,
        ),
        tells(
            ops,
            out,
            seq![0x4198_0000u32, 0x41B0_0000u32, 0x422C_0000u32, 0x4248_0000u32],
            report.checks@[0],
        ),
{
    lemma_told(
        ops,
        "matmul-known-output"@,
        Call::Matmul {
            a: matrix4(ONE, TWO, THREE, FOUR),
            b: matrix4(FIVE, SIX, SEVEN, EIGHT),
            transpose_a: false,
            transpose_b: false,
        },
        seq![NINETEEN, TWENTY_TWO, FORTY_THREE, FIFTY],
        report.checks@[0],
    )
}

/// Token id one selects the second row of a table.
///
/// The check of this tells what the kernel gave, which is handed out.
pub proof fn law_embedding_checked<A: Arithmetic>(
    ops: &A,
    f: TensorResourceFacts,
    report: ReferenceCpuConformanceReport,
) -> (out: Result<HostTensor, ReferenceCpuError>)
    requires
        reports(ops, f, report),
    ensures
        report.checks@.len() == 13,
        embedding_gives(
            ops,
            (Tensor {
                shape: seq![2u64, 2u64],
                data: seq![0x3F80_0000u32, 0x4000_0000u32, 0x4040_0000u32, 0x4080_0000u32],
            }),
            (Tensor { shape: seq![1u64], data: seq![0x3F80_0000u32] }),
            out,
        ),
        tells(ops, out, seq![0x4040_0000u32, 0x4080_0000u32], report.checks@[1]),
{
    lemma_told(
        ops,
        "embedding-known-output"@,
        Call::Embedding { table: matrix4(ONE, TWO, THREE, FOUR), ids: vector1(ONE) },
        seq![THREE, FOUR],
        report.checks@[1],
    )
}

/// A pair at position zero stays as it is.
///
/// The check of this tells what the kernel gave, which is handed out.
pub proof fn law_rope_checked<A: Arithmetic>(
    ops: &A,
    f: TensorResourceFacts,
    report: ReferenceCpuConformanceReport,
) -> (out: Result<HostTensor, ReferenceCpuError>)
    requires
        reports(ops, f, report),
    ensures
        report.checks@.len() == 13,
        rope_gives(
            ops,
            (Tensor { shape: seq![1u64, 2u64], data: seq![0x3F80_0000u32, 0u32] }),
            (RopeParams {
                base: 0x461C_4000u32,
                scale: 0x3F80_0000u32,
                dimension: 2,
                position_offset: 0,
            }),
            out,
        ),
        tells(ops, out, seq![0x3F80_0000u32, 0u32], report.checks@[3]),
{
    lemma_told(
        ops,
        "rope-baseline-known-output"@,
        Call::Rope {
            input: row2(ONE, ZERO),
            rotation: RopeParams {
                base: DEFAULT_ROPE_BASE,
                scale: ONE,
                dimension: 2,
                position_offset: 0,
            },
        },
        seq![ONE, ZERO],
        report.checks@[3],
    )
}

/// A single token gives its own value.
///
/// The check of this tells what the kernel gave, which is handed out.
pub proof fn law_attention_checked<A: Arithmetic>(
    ops: &A,
    f: TensorResourceFacts,
    report: ReferenceCpuConformanceReport,
) -> (out: Result<HostTensor, ReferenceCpuError>)
    requires
        reports(ops, f, report),
    ensures
        report.checks@.len() == 13,
        attention_gives(
            ops,
            (Tensor { shape: seq![1u64, 2u64], data: seq![0x3F80_0000u32, 0u32] }),
            (Tensor { shape: seq![1u64, 2u64], data: seq![0x3F80_0000u32, 0u32] }),
            (Tensor { shape: seq![1u64, 2u64], data: seq![0x40A0_0000u32, 0x40C0_0000u32] }),
            (AttentionParams {
                head_count: 1,
                head_dimension: 2,
                kv_head_count: None,
                window_size: None,
                causal: true,
            }),
            out,
        ),
        tells(ops, out, seq![0x40A0_0000u32, 0x40C0_0000u32], report.checks@[4]),
{
    lemma_told(
        ops,
        "attention-single-token-known-output"@,
        Call::Attention {
            q: row2(ONE, ZERO),
            k: row2(ONE, ZERO),
            v: row2(FIVE, SIX),
            params: AttentionParams {
                head_count: 1,
                head_dimension: 2,
                kv_head_count: None,
                window_size: None,
                causal: true,
            },
        },
        seq![FIVE, SIX],
        report.checks@[4],
    )
}

/// Two equal elements are one half each.
///
/// The check of this tells what the kernel gave, which is handed out.
pub proof fn law_softmax_checked<A: Arithmetic>(
    ops: &A,
    f: TensorResourceFacts,
    report: ReferenceCpuConformanceReport,
) -> (out: Result<HostTensor, ReferenceCpuError>)
    requires
        reports(ops, f, report),
    ensures
        report.checks@.len() == 13,
        softmax_gives(ops, (Tensor { shape: seq![1u64, 2u64], data: seq![0u32, 0u32] }), out),
        tells(ops, out, seq![0x3F00_0000u32, 0x3F00_0000u32], report.checks@[5]),
{
    lemma_told(
        ops,
        "softmax-uniform-input"@,
        Call::Softmax { input: row2(ZERO, ZERO) },
        seq![HALF, HALF],
        report.checks@[5],
    )
}

/// SiLU of zero is zero.
///
/// The check of this tells what the kernel gave, which is handed out.
pub proof fn law_silu_checked<A: Arithmetic>(
    ops: &A,
    f: TensorResourceFacts,
    report: ReferenceCpuConformanceReport,
) -> (out: Result<HostTensor, ReferenceCpuError>)
    requires
        reports(ops, f, report),
    ensures
        report.checks@.len() == 13,
        out is Ok,
        silu_gives(ops, (Tensor { shape: seq![1u64], data: seq![0u32] }), out->Ok_0@),
        tells(ops, out, seq![0u32], report.checks@[6]),
{
    lemma_told(
        ops,
        "silu-zero-input"@,
        Call::Silu { input: vector1(ZERO) },
        seq![ZERO],
        report.checks@[6],
    )
}

/// One and two, and three and four, add up to four and six.
///
/// The check of this tells what the kernel gave, which is handed out.
pub proof fn law_add_checked<A: Arithmetic>(
    ops: &A,
    f: TensorResourceFacts,
    report: ReferenceCpuConformanceReport,
) -> (out: Result<HostTensor, ReferenceCpuError>)
    requires
        reports(ops, f, report),
    ensures
        report.checks@.len() == 13,
        add_gives(
            ops,
            (Tensor { shape: seq![2u64], data: seq![0x3F80_0000u32, 0x4000_0000u32] }),
            (Tensor { shape: seq![2u64], data: seq![0x4040_0000u32, 0x4080_0000u32] }),
            out,
        ),
        tells(ops, out, seq![0x4080_0000u32, 0x40C0_0000u32], report.checks@[7]),
{
    lemma_told(
        ops,
        "add-known-output"@,
        Call::Add { a: vector2(ONE, TWO), b: vector2(THREE, FOUR) },
        seq![FOUR, SIX],
        report.checks@[7],
    )
}

/// Two and three, times four and five, are eight and fifteen.
///
/// The check of this tells what the kernel gave, which is handed out.
pub proof fn law_mul_checked<A: Arithmetic>(
    ops: &A,
    f: TensorResourceFacts,
    report: ReferenceCpuConformanceReport,
) -> (out: Result<HostTensor, ReferenceCpuError>)
    requires
        reports(ops, f, report),
    ensures
        report.checks@.len() == 13,
        mul_gives(
            ops,
            (Tensor { shape: seq![2u64], data: seq![0x4000_0000u32, 0x4040_0000u32] }),
            (Tensor { shape: seq![2u64], data: seq![0x4080_0000u32, 0x40A0_0000u32] }),
            out,
        ),
        tells(ops, out, seq![0x4100_0000u32, 0x4170_0000u32], report.checks@[8]),
{
    lemma_told(
        ops,
        "mul-known-output"@,
        Call::Mul { a: vector2(TWO, THREE), b: vector2(FOUR, FIVE) },
        seq![EIGHT, FIFTEEN],
        report.checks@[8],
    )
}

/// One and two, and ten and twenty, add up to eleven and twenty-two.
///
/// The check of this tells what the kernel gave, which is handed out.
pub proof fn law_residual_add_checked<A: Arithmetic>(
    ops: &A,
    f: TensorResourceFacts,
    report: ReferenceCpuConformanceReport,
) -> (out: Result<HostTensor, ReferenceCpuError>)
    requires
        reports(ops, f, report),
    ensures
        report.checks@.len() == 13,
        add_gives(
            ops,
            (Tensor { shape: seq![2u64], data: seq![0x3F80_0000u32, 0x4000_0000u32] }),
            (Tensor { shape: seq![2u64], data: seq![0x4120_0000u32, 0x41A0_0000u32] }),
            out,
        ),
        tells(ops, out, seq![0x4130_0000u32, 0x41B0_0000u32], report.checks@[9]),
{
    lemma_told(
        ops,
        "residual-add-known-output"@,
        Call::ResidualAdd { input: vector2(ONE, TWO), residual: vector2(TEN, TWENTY) },
        seq![ELEVEN, TWENTY_TWO],
        report.checks@[9],
    )
}

/// A conversion of single precision to itself changes nothing.
///
/// The check of this tells what the kernel gave, which is handed out.
pub proof fn law_dtype_conversion_checked<A: Arithmetic>(
    ops: &A,
    f: TensorResourceFacts,
    report: ReferenceCpuConformanceReport,
) -> (out: Result<HostTensor, ReferenceCpuError>)
    requires
        reports(ops, f, report),
    ensures
        report.checks@.len() == 13,
        (out is Ok && out->Ok_0@ == (Tensor { shape: seq![1u64], data: seq![0x3F80_0000u32] })),
        tells(ops, out, seq![0x3F80_0000u32], report.checks@[10]),
{
    lemma_told(
        ops,
        "dtype-conversion-f32-explicit"@,
        Call::DTypeConversion { input: vector1(ONE) },
        seq![ONE],
        report.checks@[10],
    )
}

/// A conversion of the contiguous layout to itself changes nothing.
///
/// The check of this tells what the kernel gave, which is handed out.
pub proof fn law_layout_conversion_checked<A: Arithmetic>(
    ops: &A,
    f: TensorResourceFacts,
    report: ReferenceCpuConformanceReport,
) -> (out: Result<HostTensor, ReferenceCpuError>)
    requires
        reports(ops, f, report),
    ensures
        report.checks@.len() == 13,
        (out is Ok && out->Ok_0@ == (Tensor { shape: seq![1u64], data: seq![0x3F80_0000u32] })),
        tells(ops, out, seq![0x3F80_0000u32], report.checks@[11]),
{
    lemma_told(
        ops,
        "layout-conversion-contiguous-explicit"@,
        Call::LayoutConversion { input: vector1(ONE) },
        seq![ONE],
        report.checks@[11],
    )
}

/// Three and four are normalised to three and four over the root of twelve and a
/// half.
///
/// The check of this tells what the kernel gave, which is handed out, with the
/// root, one over it, and the two numbers.
pub proof fn law_rmsnorm_checked<A: Arithmetic>(
    ops: &A,
    f: TensorResourceFacts,
    report: ReferenceCpuConformanceReport,
) -> (w: (Result<HostTensor, ReferenceCpuError>, (u32, u32, u32, u32)))
    requires
        reports(ops, f, report),
    ensures
        ({
            let (out, (root, scale, a, b)) = w;
            &&& rmsnorm_gives(
                ops,
                (Tensor { shape: seq![1u64, 2u64], data: seq![0x4040_0000u32, 0x4080_0000u32] }),
                (Tensor { shape: seq![2u64], data: seq![0x3F80_0000u32, 0x3F80_0000u32] }),
                0x3586_37BD,
                out,
            )
            &&& roots(ops, 0x4148_0000, root)
            &&& divides(ops, 0x3F80_0000, root, scale)
            &&& multiplies(ops, 0x4040_0000, scale, a)
            &&& multiplies(ops, 0x4080_0000, scale, b)
            &&& tells(ops, out, seq![a, b], report.checks@[2])
        }),
{
    let call = Call::RmsNorm {
        input: row2(THREE, FOUR),
        weight: vector2(ONE, ONE),
        epsilon: DEFAULT_EPSILON,
    };
    let (a, b) = choose|a: u32, b: u32| #[trigger]
        normalised(ops, a, b) && checks_call(
            ops,
            "rmsnorm-known-output"@,
            call,
            seq![a, b],
            report.checks@[2],
        );
    let (root, scale) = choose|root: u32, scale: u32|
        {
            &&& #[trigger] roots(ops, TWELVE_AND_A_HALF, root)
            &&& #[trigger] divides(ops, ONE, root, scale)
            &&& multiplies(ops, THREE, scale, a)
            &&& multiplies(ops, FOUR, scale, b)
        };
    let out = lemma_told(ops, "rmsnorm-known-output"@, call, seq![a, b], report.checks@[2]);
    (out, (root, scale, a, b))
}

/// The last check is passed where all that is known of the treatment of tensors
/// holds, and carries words only where something does not.
pub proof fn law_facts_checked<A: Arithmetic>(
    ops: &A,
    f: TensorResourceFacts,
    report: ReferenceCpuConformanceReport,
)
    requires
        reports(ops, f, report),
    ensures
        report.checks@[12].passed == (f.descriptor_valid && f.host_visible && f.lifecycle_ok
            && f.ready),
        report.checks@[12].detail is Some <==> !report.checks@[12].passed,
        !report.checks@[12].passed ==> {
            let told = |b: bool|
                if b {
                    "true"@
                } else {
                    "false"@
                };
            report.checks@[12].detail->Some_0@ == "descriptor_valid="@ + told(f.descriptor_valid)
                + " host_visible="@ + told(f.host_visible) + " lifecycle_ok="@ + told(
                f.lifecycle_ok,
            ) + " ready="@ + told(f.ready)
        },
{
}

/// A report is of the profile of the reference and has thirteen checks, each
/// under its name, in this order.
pub proof fn law_checks_named<A: Arithmetic>(
    ops: &A,
    f: TensorResourceFacts,
    report: ReferenceCpuConformanceReport,
)
    requires
        reports(ops, f, report),
    ensures
        ({
            let c = report.checks@;
            &&& report.profile@ == "reference-cpu-conformance-v1"@
            &&& c.len() == 13
            &&& c[0].name@ == "matmul-known-output"@
            &&& c[1].name@ == "embedding-known-output"@
            &&& c[2].name@ == "rmsnorm-known-output"@
            &&& c[3].name@ == "rope-baseline-known-output"@
            &&& c[4].name@ == "attention-single-token-known-output"@
            &&& c[5].name@ == "softmax-uniform-input"@
            &&& c[6].name@ == "silu-zero-input"@
            &&& c[7].name@ == "add-known-output"@
            &&& c[8].name@ == "mul-known-output"@
            &&& c[9].name@ == "residual-add-known-output"@
            &&& c[10].name@ == "dtype-conversion-f32-explicit"@
            &&& c[11].name@ == "layout-conversion-contiguous-explicit"@
            &&& c[12].name@ == "tensor-resource-metadata-and-readiness"@
        }),
{
    reveal(checks_call);
}

/// A report is observed with its profile, whether every check was passed, and how
/// many checks there were.
pub proof fn law_report_observed(report: ReferenceCpuConformanceReport)
    ensures
        ({
            let o = report_observation(report);
            let passed = forall|i: int|
                0 <= i < report.checks@.len() ==> (#[trigger] report.checks@[i]).passed;
            &&& o.kind == KernelObservationKind::KernelConformanceResult
            &&& o.kernel is None && o.invocation is None
            &&& o.metadata == seq![
                ("profile"@, report.profile@),
                ("passed"@, if passed {
                    "true"@
                } else {
                    "false"@
                }),
                ("checks"@, decimal(report.checks@.len())),
            ]
        }),
{
    assert(report_observation(report).metadata =~= seq![
        ("profile"@, report.profile@),
        ("passed"@, crate::text::truth(crate::conformance::all_passed(report.checks@))),
        ("checks"@, decimal(report.checks@.len())),
    ]);
}

} // verus!
