//! The checks by which the provider shows that its kernels are right: known
//! inputs, and the outputs that they must have.

use vstd::arithmetic::power2::{lemma2_to64, lemma_pow2_adds};
use vstd::prelude::*;

use crate::dispatch::{
    call_gives, call_ready, law_call_once, Call, KernelCall, DEFAULT_EPSILON, DEFAULT_ROPE_BASE,
};
use crate::error::{optional_text, refusal_message, ReferenceCpuError};
use crate::executor::{observing, ReferenceCpuExecutor};
use crate::float::{
    absolute, absolute_of, below, denotes, divides, is_below, lemma_denotes_unique, multiplies,
    roots, single_valued, subtracts, whole, whole_value, Arithmetic, HALF, ONE, TWO, ZERO,
};
use crate::identity::REFERENCE_CPU_CONFORMANCE_PROFILE;
use crate::kernels::attention::AttentionParams;
use crate::kernels::rope::RopeParams;
use crate::observation::{
    observation, with_text, KernelObservation, KernelObservationKind, Observation,
};
use crate::tensor::{HostTensor, Tensor};
use crate::text::{decimal, decimal_text, truth, truth_text};

verus! {

/// Three.
pub const THREE: u32 = 0x4040_0000;

/// Four.
pub const FOUR: u32 = 0x4080_0000;

/// Five.
pub const FIVE: u32 = 0x40A0_0000;

/// Six.
pub const SIX: u32 = 0x40C0_0000;

/// Seven.
pub const SEVEN: u32 = 0x40E0_0000;

/// Eight.
pub const EIGHT: u32 = 0x4100_0000;

/// Ten.
pub const TEN: u32 = 0x4120_0000;

/// Eleven.
pub const ELEVEN: u32 = 0x4130_0000;

/// Fifteen.
pub const FIFTEEN: u32 = 0x4170_0000;

/// Nineteen.
pub const NINETEEN: u32 = 0x4198_0000;

/// Twenty.
pub const TWENTY: u32 = 0x41A0_0000;

/// Twenty-two.
pub const TWENTY_TWO: u32 = 0x41B0_0000;

/// Forty-three.
pub const FORTY_THREE: u32 = 0x422C_0000;

/// Fifty.
pub const FIFTY: u32 = 0x4248_0000;

/// Twelve and a half.
pub const TWELVE_AND_A_HALF: u32 = 0x4148_0000;

/// How far an output may be from what is expected: less than one ten
/// thousandth.
pub const CONFORMANCE_TOLERANCE: u32 = 0x38D1_B717;

/// One check.
#[derive(Clone, Debug, PartialEq, Eq)]
pub struct ReferenceCpuConformanceCheck {
    /// The name of the check.
    pub name: &'static str,
    /// The kernel passed it.
    pub passed: bool,
    /// What went wrong, where there is something to say.
    pub detail: Option<String>,
}

/// The outcome of all checks.
#[derive(Clone, Debug, PartialEq, Eq)]
pub struct ReferenceCpuConformanceReport {
    /// The profile that was checked.
    pub profile: &'static str,
    /// The checks, in order.
    pub checks: Vec<ReferenceCpuConformanceCheck>,
}

/// All checks were passed.
pub open spec fn all_passed(checks: Seq<ReferenceCpuConformanceCheck>) -> bool {
    forall|i: int| 0 <= i < checks.len() ==> (#[trigger] checks[i]).passed
}

impl ReferenceCpuConformanceReport {
    /// Whether all checks were passed.
    pub fn is_conformant(&self) -> (r: bool)
        ensures
            r == all_passed(self.checks@),
            r <==> forall|i: int| 0 <= i < self.checks@.len() ==> (#[trigger] self.checks@[i]).passed,
    {
        let mut i: usize = 0;
        while i < self.checks.len()
            invariant
                i <= self.checks@.len(),
                forall|j: int| 0 <= j < i ==> (#[trigger] self.checks@[j]).passed,
            decreases self.checks@.len() - i,
        {
            if !self.checks[i].passed {
                return false;
            }
            i += 1;
        }
        true
    }
}

/// A difference is within the tolerance.
pub open spec fn tolerable(difference: u32) -> bool {
    below(absolute(difference), CONFORMANCE_TOLERANCE)
}

/// `r` tells whether two sequences are as long as each other and each element
/// of one is close to that of the other.
pub open spec fn compares<A: Arithmetic>(ops: &A, a: Seq<u32>, b: Seq<u32>, r: bool) -> bool {
    if a.len() != b.len() {
        !r
    } else if r {
        exists|differences: Seq<u32>| #[trigger] all_close(ops, a, b, differences)
    } else {
        exists|i: int, difference: u32|
            0 <= i < a.len() && #[trigger] subtracts(ops, a[i], b[i], difference) && !tolerable(
                difference,
            )
    }
}

/// The differences of the elements of two sequences are all within the
/// tolerance.
pub open spec fn all_close<A: Arithmetic>(
    ops: &A,
    a: Seq<u32>,
    b: Seq<u32>,
    differences: Seq<u32>,
) -> bool {
    &&& differences.len() == a.len()
    &&& forall|i: int|
        0 <= i < a.len() ==> subtracts(ops, a[i], b[i], #[trigger] differences[i]) && tolerable(
            differences[i],
        )
}

/// Whether two sequences are close to each other.
pub fn close<A: Arithmetic>(ops: &A, a: &Vec<u32>, b: &Vec<u32>) -> (r: bool)
    ensures
        compares(ops, a@, b@, r),
{
    if a.len() != b.len() {
        return false;
    }
    let ghost mut differences: Seq<u32> = Seq::empty();
    let mut i: usize = 0;
    while i < a.len()
        invariant
            i <= a@.len(),
            a@.len() == b@.len(),
            differences.len() == i,
            forall|j: int|
                0 <= j < i ==> subtracts(ops, a@[j], b@[j], #[trigger] differences[j])
                    && tolerable(differences[j]),
        decreases a@.len() - i,
    {
        let difference: u32 = ops.sub(a[i], b[i]);
        assert(subtracts(ops, a@[i as int], b@[i as int], difference));
        if !is_below(absolute_of(difference), CONFORMANCE_TOLERANCE) {
            return false;
        }
        proof {
            differences = differences.push(difference);
        }
        i += 1;
    }
    assert(all_close(ops, a@, b@, differences));
    true
}

/// What the outcome of a call means for a check: it is passed by an output that
/// is close to what is expected.
pub open spec fn judged<A: Arithmetic>(
    ops: &A,
    out: Result<HostTensor, ReferenceCpuError>,
    expected: Seq<u32>,
    check: ReferenceCpuConformanceCheck,
) -> bool {
    match out {
        Ok(t) => compares(ops, t@.data, expected, check.passed) && check.detail is None,
        Err(e) => !check.passed && optional_text(check.detail) == Some(refusal_message(e@)),
    }
}

/// What a check of a call gives.
#[verifier::opaque]
pub open spec fn checks_call<A: Arithmetic>(
    ops: &A,
    name: Seq<char>,
    call: Call,
    expected: Seq<u32>,
    check: ReferenceCpuConformanceCheck,
) -> bool {
    &&& check.name@ == name
    &&& exists|out: Result<HostTensor, ReferenceCpuError>| #[trigger]
        call_gives(ops, call, out) && judged(ops, out, expected, check)
}

/// Checks the output of a call.
fn check_call<A: Arithmetic>(
    ops: &A,
    name: &'static str,
    call: KernelCall,
    expected: Vec<u32>,
) -> (r: ReferenceCpuConformanceCheck)
    requires
        call_ready(call@),
    ensures
        checks_call(ops, name@, call@, expected@, r),
{
    let out = call.run(ops);
    reveal(checks_call);
    assert(call_gives(ops, call@, out));
    match out {
        Ok(tensor) => {
            let passed = close(ops, &tensor.data, &expected);
            let r = ReferenceCpuConformanceCheck { name, passed, detail: None };
            assert(judged(ops, out, expected@, r));
            r
        },
        Err(error) => {
            let r = ReferenceCpuConformanceCheck {
                name,
                passed: false,
                detail: Some(error.message()),
            };
            assert(judged(ops, out, expected@, r));
            r
        },
    }
}

/// A vector of one element.
pub open spec fn vector1(a: u32) -> Tensor {
    Tensor { shape: seq![1], data: seq![a] }
}

/// A vector of two elements.
pub open spec fn vector2(a: u32, b: u32) -> Tensor {
    Tensor { shape: seq![2], data: seq![a, b] }
}

/// A matrix of one row.
pub open spec fn row2(a: u32, b: u32) -> Tensor {
    Tensor { shape: seq![1, 2], data: seq![a, b] }
}

/// A matrix of two rows.
pub open spec fn matrix4(a: u32, b: u32, c: u32, d: u32) -> Tensor {
    Tensor { shape: seq![2, 2], data: seq![a, b, c, d] }
}

fn vector1_of(a: u32) -> (r: HostTensor)
    ensures
        r@ == vector1(a),
{
    let r = HostTensor { shape: vec![1], data: vec![a] };
    assert(r@ =~= vector1(a));
    r
}

fn vector2_of(a: u32, b: u32) -> (r: HostTensor)
    ensures
        r@ == vector2(a, b),
{
    let r = HostTensor { shape: vec![2], data: vec![a, b] };
    assert(r@ =~= vector2(a, b));
    r
}

fn row2_of(a: u32, b: u32) -> (r: HostTensor)
    ensures
        r@ == row2(a, b),
{
    let r = HostTensor { shape: vec![1, 2], data: vec![a, b] };
    assert(r@ =~= row2(a, b));
    r
}

fn matrix4_of(a: u32, b: u32, c: u32, d: u32) -> (r: HostTensor)
    ensures
        r@ == matrix4(a, b, c, d),
{
    let r = HostTensor { shape: vec![2, 2], data: vec![a, b, c, d] };
    assert(r@ =~= matrix4(a, b, c, d));
    r
}

/// What is known of how the runtime treats a tensor of this provider.
#[derive(Clone, Copy, Debug, PartialEq, Eq, Structural)]
pub struct TensorResourceFacts {
    /// A descriptor of a contiguous tensor of single precision is valid.
    pub descriptor_valid: bool,
    /// A tensor in host memory is visible to the host.
    pub host_visible: bool,
    /// A tensor can be declared, planned, allocated and made ready.
    pub lifecycle_ok: bool,
    /// A tensor that was made ready is usable.
    pub ready: bool,
}

/// All facts hold.
pub open spec fn all_facts(f: TensorResourceFacts) -> bool {
    f.descriptor_valid && f.host_visible && f.lifecycle_ok && f.ready
}

/// The facts in words.
pub open spec fn fact_words(f: TensorResourceFacts) -> Seq<char> {
    "descriptor_valid="@ + truth(f.descriptor_valid) + " host_visible="@ + truth(f.host_visible)
        + " lifecycle_ok="@ + truth(f.lifecycle_ok) + " ready="@ + truth(f.ready)
}

/// What the check of the treatment of tensors gives.
pub open spec fn checks_facts(f: TensorResourceFacts, check: ReferenceCpuConformanceCheck) -> bool {
    &&& check.name@ == "tensor-resource-metadata-and-readiness"@
    &&& check.passed == all_facts(f)
    &&& optional_text(check.detail) == (if all_facts(f) {
        None
    } else {
        Some(fact_words(f))
    })
}

/// Checks how the runtime treats a tensor of this provider.
pub fn reference_cpu_tensor_resource_conformance_check(f: &TensorResourceFacts) -> (r:
    ReferenceCpuConformanceCheck)
    ensures
        checks_facts(*f, r),
{
    let passed = f.descriptor_valid && f.host_visible && f.lifecycle_ok && f.ready;
    let detail = if passed {
        None
    } else {
        let mut words = "descriptor_valid=".to_owned();
        words.append(truth_text(f.descriptor_valid).as_str());
        words.append(" host_visible=");
        words.append(truth_text(f.host_visible).as_str());
        words.append(" lifecycle_ok=");
        words.append(truth_text(f.lifecycle_ok).as_str());
        words.append(" ready=");
        words.append(truth_text(f.ready).as_str());
        Some(words)
    };
    ReferenceCpuConformanceCheck {
        name: "tensor-resource-metadata-and-readiness",
        passed,
        detail,
    }
}

/// `a` and `b` are three and four over the root of twelve and a half: what
/// normalisation of three and four must give.
pub open spec fn normalised<A: Arithmetic>(ops: &A, a: u32, b: u32) -> bool {
    exists|root: u32, scale: u32|
        {
            &&& #[trigger] roots(ops, TWELVE_AND_A_HALF, root)
            &&& #[trigger] divides(ops, ONE, root, scale)
            &&& multiplies(ops, THREE, scale, a)
            &&& multiplies(ops, FOUR, scale, b)
        }
}

/// What the checks give: one for each kernel, on an input whose output is
/// known, and one for how the runtime treats tensors.
pub open spec fn reports<A: Arithmetic>(
    ops: &A,
    f: TensorResourceFacts,
    report: ReferenceCpuConformanceReport,
) -> bool {
    let checks = report.checks@;
    &&& report.profile@ == REFERENCE_CPU_CONFORMANCE_PROFILE@
    &&& checks.len() == 13
    &&& checks_call(
        ops,
        "matmul-known-output"@,
        Call::Matmul {
            a: matrix4(ONE, TWO, THREE, FOUR),
            b: matrix4(FIVE, SIX, SEVEN, EIGHT),
            transpose_a: false,
            transpose_b: false,
        },
        seq![NINETEEN, TWENTY_TWO, FORTY_THREE, FIFTY],
        checks[0],
    )
    &&& checks_call(
        ops,
        "embedding-known-output"@,
        Call::Embedding {
            table: matrix4(ONE, TWO, THREE, FOUR),
            ids: vector1(ONE),
        },
        seq![THREE, FOUR],
        checks[1],
    )
    &&& exists|a: u32, b: u32| #[trigger]
        normalised(ops, a, b) && checks_call(
            ops,
            "rmsnorm-known-output"@,
            Call::RmsNorm {
                input: row2(THREE, FOUR),
                weight: vector2(ONE, ONE),
                epsilon: DEFAULT_EPSILON,
            },
            seq![a, b],
            checks[2],
        )
    &&& checks_call(
        ops,
        "rope-baseline-known-output"@,
        Call::Rope {
            input: row2(ONE, ZERO),
            rotation: RopeParams {
                base: DEFAULT_ROPE_BASE,
                scale: ONE,
                dimension: 2,
                position_offset: 0,
            },
        },
        seq![ONE, ZERO],
        checks[3],
    )
    &&& checks_call(
        ops,
        "attention-single-token-known-output"@,
        Call::Attention {
            q: row2(ONE, ZERO),
            k: row2(ONE, ZERO),
            v: row2(FIVE, SIX),
            params: AttentionParams {
                head_count: 1,
                head_dimension: 2,
                kv_head_count: None,
                window_size: None,
                causal: true,
            },
        },
        seq![FIVE, SIX],
        checks[4],
    )
    &&& checks_call(
        ops,
        "softmax-uniform-input"@,
        Call::Softmax {
            input: row2(ZERO, ZERO),
        },
        seq![HALF, HALF],
        checks[5],
    )
    &&& checks_call(
        ops,
        "silu-zero-input"@,
        Call::Silu {
            input: vector1(ZERO),
        },
        seq![ZERO],
        checks[6],
    )
    &&& checks_call(
        ops,
        "add-known-output"@,
        Call::Add {
            a: vector2(ONE, TWO),
            b: vector2(THREE, FOUR),
        },
        seq![FOUR, SIX],
        checks[7],
    )
    &&& checks_call(
        ops,
        "mul-known-output"@,
        Call::Mul {
            a: vector2(TWO, THREE),
            b: vector2(FOUR, FIVE),
        },
        seq![EIGHT, FIFTEEN],
        checks[8],
    )
    &&& checks_call(
        ops,
        "residual-add-known-output"@,
        Call::ResidualAdd {
            input: vector2(ONE, TWO),
            residual: vector2(TEN, TWENTY),
        },
        seq![ELEVEN, TWENTY_TWO],
        checks[9],
    )
    &&& checks_call(
        ops,
        "dtype-conversion-f32-explicit"@,
        Call::DTypeConversion {
            input: vector1(ONE),
        },
        seq![ONE],
        checks[10],
    )
    &&& checks_call(
        ops,
        "layout-conversion-contiguous-explicit"@,
        Call::LayoutConversion {
            input: vector1(ONE),
        },
        seq![ONE],
        checks[11],
    )
    &&& checks_facts(f, checks[12])
}

/// The observation of a report.
pub open spec fn report_observation(report: ReferenceCpuConformanceReport) -> Observation {
    with_text(
        with_text(
            with_text(
                observation(KernelObservationKind::KernelConformanceResult),
                "profile"@,
                report.profile@,
            ),
            "passed"@,
            truth(all_passed(report.checks@)),
        ),
        "checks"@,
        decimal(report.checks@.len()),
    )
}

/// One is the natural number one.
proof fn lemma_one_whole()
    ensures
        whole(ONE),
        whole_value(ONE) == 1,
{
    lemma_pow2_adds(23, 127);
    lemma2_to64();
    assert(denotes(ONE, 1));
    let n = choose|n: nat| denotes(ONE, n);
    lemma_denotes_unique(ONE, 1, n);
}

fn check_matmul<A: Arithmetic>(ops: &A) -> (r: ReferenceCpuConformanceCheck)
    ensures
        checks_call(
            ops,
            "matmul-known-output"@,
            Call::Matmul {
                a: matrix4(ONE, TWO, THREE, FOUR),
                b: matrix4(FIVE, SIX, SEVEN, EIGHT),
                transpose_a: false,
                transpose_b: false,
            },
            seq![NINETEEN, TWENTY_TWO, FORTY_THREE, FIFTY],
            r,
        ),
{
    let expected: Vec<u32> = vec![NINETEEN, TWENTY_TWO, FORTY_THREE, FIFTY];
    assert(expected@ =~= seq![NINETEEN, TWENTY_TWO, FORTY_THREE, FIFTY]);
    proof {
        let square = matrix4(ONE, TWO, THREE, FOUR);
        assert(square.shape[0] * square.shape[1] == 4) by (nonlinear_arith)
            requires
                square.shape[0] == 2,
                square.shape[1] == 2,
        ;
    }
    check_call(
        ops,
        "matmul-known-output",
        KernelCall::Matmul {
            a: matrix4_of(ONE, TWO, THREE, FOUR),
            b: matrix4_of(FIVE, SIX, SEVEN, EIGHT),
            transpose_a: false,
            transpose_b: false,
        },
        expected,
    )
}

fn check_embedding<A: Arithmetic>(ops: &A) -> (r: ReferenceCpuConformanceCheck)
    ensures
        checks_call(
            ops,
            "embedding-known-output"@,
            Call::Embedding {
                table: matrix4(ONE, TWO, THREE, FOUR),
                ids: vector1(ONE),
            },
            seq![THREE, FOUR],
            r,
        ),
{
    let expected: Vec<u32> = vec![THREE, FOUR];
    assert(expected@ =~= seq![THREE, FOUR]);
    proof {
        lemma_one_whole();
        let table = matrix4(ONE, TWO, THREE, FOUR);
        assert forall|i: int| 0 <= i < vector1(ONE).data.len() implies (whole_value(
            #[trigger] vector1(ONE).data[i],
        ) + 1) * table.shape[1] <= table.data.len() by {
            assert(vector1(ONE).data[i] == ONE);
            assert((1 + 1) * table.shape[1] == 4) by (nonlinear_arith)
                requires
                    table.shape[1] == 2,
            ;
        }
    }
    check_call(
        ops,
        "embedding-known-output",
        KernelCall::Embedding {
            table: matrix4_of(ONE, TWO, THREE, FOUR),
            ids: vector1_of(ONE),
        },
        expected,
    )
}

fn check_rmsnorm<A: Arithmetic>(ops: &A) -> (r: ReferenceCpuConformanceCheck)
    ensures
        exists|a: u32, b: u32| #[trigger]
            normalised(ops, a, b) && checks_call(
                ops,
                "rmsnorm-known-output"@,
                Call::RmsNorm {
                    input: row2(THREE, FOUR),
                    weight: vector2(ONE, ONE),
                    epsilon: DEFAULT_EPSILON,
                },
                seq![a, b],
                r,
            ),
{
    let root: u32 = ops.sqrt(TWELVE_AND_A_HALF);
    let scale: u32 = ops.div(ONE, root);
    let a: u32 = ops.mul(THREE, scale);
    let b: u32 = ops.mul(FOUR, scale);
    assert(normalised(ops, a, b)) by {
        assert(roots(ops, TWELVE_AND_A_HALF, root));
        assert(divides(ops, ONE, root, scale));
    }
    let expected: Vec<u32> = vec![a, b];
    assert(expected@ =~= seq![a, b]);
    check_call(
        ops,
        "rmsnorm-known-output",
        KernelCall::RmsNorm {
            input: row2_of(THREE, FOUR),
            weight: vector2_of(ONE, ONE),
            epsilon: DEFAULT_EPSILON,
        },
        expected,
    )
}

fn check_rope<A: Arithmetic>(ops: &A) -> (r: ReferenceCpuConformanceCheck)
    ensures
        checks_call(
            ops,
            "rope-baseline-known-output"@,
            Call::Rope {
                input: row2(ONE, ZERO),
                rotation: RopeParams {
                    base: DEFAULT_ROPE_BASE,
                    scale: ONE,
                    dimension: 2,
                    position_offset: 0,
                },
            },
            seq![ONE, ZERO],
            r,
        ),
{
    let expected: Vec<u32> = vec![ONE, ZERO];
    assert(expected@ =~= seq![ONE, ZERO]);
    check_call(
        ops,
        "rope-baseline-known-output",
        KernelCall::Rope {
            input: row2_of(ONE, ZERO),
            base: DEFAULT_ROPE_BASE,
            scale: ONE,
            dimension: 2,
            position_offset: 0,
        },
        expected,
    )
}

fn check_attention<A: Arithmetic>(ops: &A) -> (r: ReferenceCpuConformanceCheck)
    ensures
        checks_call(
            ops,
            "attention-single-token-known-output"@,
            Call::Attention {
                q: row2(ONE, ZERO),
                k: row2(ONE, ZERO),
                v: row2(FIVE, SIX),
                params: AttentionParams {
                    head_count: 1,
                    head_dimension: 2,
                    kv_head_count: None,
                    window_size: None,
                    causal: true,
                },
            },
            seq![FIVE, SIX],
            r,
        ),
{
    let expected: Vec<u32> = vec![FIVE, SIX];
    assert(expected@ =~= seq![FIVE, SIX]);
    check_call(
        ops,
        "attention-single-token-known-output",
        KernelCall::Attention {
            q: row2_of(ONE, ZERO),
            k: row2_of(ONE, ZERO),
            v: row2_of(FIVE, SIX),
            head_count: 1,
            head_dimension: 2,
            kv_head_count: None,
            window_size: None,
            causal: true,
        },
        expected,
    )
}

fn check_softmax<A: Arithmetic>(ops: &A) -> (r: ReferenceCpuConformanceCheck)
    ensures
        checks_call(
            ops,
            "softmax-uniform-input"@,
            Call::Softmax {
                input: row2(ZERO, ZERO),
            },
            seq![HALF, HALF],
            r,
        ),
{
    let expected: Vec<u32> = vec![HALF, HALF];
    assert(expected@ =~= seq![HALF, HALF]);
    check_call(
        ops,
        "softmax-uniform-input",
        KernelCall::Softmax {
            input: row2_of(ZERO, ZERO),
        },
        expected,
    )
}

fn check_silu<A: Arithmetic>(ops: &A) -> (r: ReferenceCpuConformanceCheck)
    ensures
        checks_call(
            ops,
            "silu-zero-input"@,
            Call::Silu {
                input: vector1(ZERO),
            },
            seq![ZERO],
            r,
        ),
{
    let expected: Vec<u32> = vec![ZERO];
    assert(expected@ =~= seq![ZERO]);
    check_call(
        ops,
        "silu-zero-input",
        KernelCall::Silu {
            input: vector1_of(ZERO),
        },
        expected,
    )
}

fn check_add<A: Arithmetic>(ops: &A) -> (r: ReferenceCpuConformanceCheck)
    ensures
        checks_call(
            ops,
            "add-known-output"@,
            Call::Add {
                a: vector2(ONE, TWO),
                b: vector2(THREE, FOUR),
            },
            seq![FOUR, SIX],
            r,
        ),
{
    let expected: Vec<u32> = vec![FOUR, SIX];
    assert(expected@ =~= seq![FOUR, SIX]);
    check_call(
        ops,
        "add-known-output",
        KernelCall::Add {
            a: vector2_of(ONE, TWO),
            b: vector2_of(THREE, FOUR),
        },
        expected,
    )
}

fn check_mul<A: Arithmetic>(ops: &A) -> (r: ReferenceCpuConformanceCheck)
    ensures
        checks_call(
            ops,
            "mul-known-output"@,
            Call::Mul {
                a: vector2(TWO, THREE),
                b: vector2(FOUR, FIVE),
            },
            seq![EIGHT, FIFTEEN],
            r,
        ),
{
    let expected: Vec<u32> = vec![EIGHT, FIFTEEN];
    assert(expected@ =~= seq![EIGHT, FIFTEEN]);
    check_call(
        ops,
        "mul-known-output",
        KernelCall::Mul {
            a: vector2_of(TWO, THREE),
            b: vector2_of(FOUR, FIVE),
        },
        expected,
    )
}

fn check_residual_add<A: Arithmetic>(ops: &A) -> (r: ReferenceCpuConformanceCheck)
    ensures
        checks_call(
            ops,
            "residual-add-known-output"@,
            Call::ResidualAdd {
                input: vector2(ONE, TWO),
                residual: vector2(TEN, TWENTY),
            },
            seq![ELEVEN, TWENTY_TWO],
            r,
        ),
{
    let expected: Vec<u32> = vec![ELEVEN, TWENTY_TWO];
    assert(expected@ =~= seq![ELEVEN, TWENTY_TWO]);
    check_call(
        ops,
        "residual-add-known-output",
        KernelCall::ResidualAdd {
            input: vector2_of(ONE, TWO),
            residual: vector2_of(TEN, TWENTY),
        },
        expected,
    )
}

fn check_dtype_conversion<A: Arithmetic>(ops: &A) -> (r: ReferenceCpuConformanceCheck)
    ensures
        checks_call(
            ops,
            "dtype-conversion-f32-explicit"@,
            Call::DTypeConversion {
                input: vector1(ONE),
            },
            seq![ONE],
            r,
        ),
{
    let expected: Vec<u32> = vec![ONE];
    assert(expected@ =~= seq![ONE]);
    check_call(
        ops,
        "dtype-conversion-f32-explicit",
        KernelCall::DTypeConversion {
            input: vector1_of(ONE),
        },
        expected,
    )
}

fn check_layout_conversion<A: Arithmetic>(ops: &A) -> (r: ReferenceCpuConformanceCheck)
    ensures
        checks_call(
            ops,
            "layout-conversion-contiguous-explicit"@,
            Call::LayoutConversion {
                input: vector1(ONE),
            },
            seq![ONE],
            r,
        ),
{
    let expected: Vec<u32> = vec![ONE];
    assert(expected@ =~= seq![ONE]);
    check_call(
        ops,
        "layout-conversion-contiguous-explicit",
        KernelCall::LayoutConversion {
            input: vector1_of(ONE),
        },
        expected,
    )
}

/// Checks every kernel on an input whose output is known.
fn check_kernels<A: Arithmetic>(ops: &A, f: &TensorResourceFacts) -> (r:
    ReferenceCpuConformanceReport)
    ensures
        reports(ops, *f, r),
{
    ReferenceCpuConformanceReport {
        profile: REFERENCE_CPU_CONFORMANCE_PROFILE,
        checks: vec![
            check_matmul(ops),
            check_embedding(ops),
            check_rmsnorm(ops),
            check_rope(ops),
            check_attention(ops),
            check_softmax(ops),
            check_silu(ops),
            check_add(ops),
            check_mul(ops),
            check_residual_add(ops),
            check_dtype_conversion(ops),
            check_layout_conversion(ops),
            reference_cpu_tensor_resource_conformance_check(f),
        ],
    }
}

impl ReferenceCpuExecutor {
    /// Checks every kernel, and observes the outcome.
    pub fn run_conformance_checks<A: Arithmetic>(
        &mut self,
        ops: &A,
        facts: &TensorResourceFacts,
    ) -> (r: ReferenceCpuConformanceReport)
        ensures
            reports(ops, *facts, r),
            final(self)@ == observing(old(self)@, report_observation(r)),
    {
        let report = check_kernels(ops, facts);
        let passed = truth_text(report.is_conformant());
        let count = decimal_text(report.checks.len() as u64);
        self.observe(
            KernelObservation::new(
                KernelObservationKind::KernelConformanceResult,
            ).with_redacted_metadata("profile", report.profile).with_redacted_metadata(
                "passed",
                passed.as_str(),
            ).with_redacted_metadata("checks", count.as_str()),
        );
        report
    }
}

/// Two checks say the same.
pub open spec fn same_check(
    c: ReferenceCpuConformanceCheck,
    c2: ReferenceCpuConformanceCheck,
) -> bool {
    &&& c.name@ == c2.name@
    &&& c.passed == c2.passed
    &&& optional_text(c.detail) == optional_text(c2.detail)
}

/// Two reports say the same.
pub open spec fn same_report(
    r: ReferenceCpuConformanceReport,
    r2: ReferenceCpuConformanceReport,
) -> bool {
    &&& r.profile@ == r2.profile@
    &&& r.checks@.len() == r2.checks@.len()
    &&& forall|i: int| 0 <= i < r.checks@.len() ==> same_check(#[trigger] r.checks@[i], r2.checks@[i])
}

/// There is one outcome of a comparison.
proof fn lemma_compared_once<A: Arithmetic>(ops: &A, a: Seq<u32>, b: Seq<u32>, r: bool, r2: bool)
    requires
        single_valued(ops),
        compares(ops, a, b, r),
        compares(ops, a, b, r2),
    ensures
        r == r2,
{
    if a.len() == b.len() && r != r2 {
        let differences = choose|differences: Seq<u32>| #[trigger]
            all_close(ops, a, b, differences);
        let (i, difference) = choose|i: int, difference: u32|
            0 <= i < a.len() && #[trigger] subtracts(ops, a[i], b[i], difference) && !tolerable(
                difference,
            );
        assert(subtracts(ops, a[i], b[i], differences[i]) && tolerable(differences[i]));
    }
}

/// There is one outcome of a check.
proof fn lemma_checked_once<A: Arithmetic>(
    ops: &A,
    name: Seq<char>,
    call: Call,
    expected: Seq<u32>,
    c: ReferenceCpuConformanceCheck,
    c2: ReferenceCpuConformanceCheck,
)
    requires
        single_valued(ops),
        checks_call(ops, name, call, expected, c),
        checks_call(ops, name, call, expected, c2),
    ensures
        same_check(c, c2),
{
    reveal(checks_call);
    let out = choose|out: Result<HostTensor, ReferenceCpuError>| #[trigger]
        call_gives(ops, call, out) && judged(ops, out, expected, c);
    let out2 = choose|out: Result<HostTensor, ReferenceCpuError>| #[trigger]
        call_gives(ops, call, out) && judged(ops, out, expected, c2);
    law_call_once(ops, call, out, out2);
    if out is Ok {
        lemma_compared_once(ops, out->Ok_0@.data, expected, c.passed, c2.passed);
    }
}

/// Under an arithmetic with one result for the same operands, the checks give
/// the same report each time.
pub proof fn law_report_once<A: Arithmetic>(
    ops: &A,
    f: TensorResourceFacts,
    r: ReferenceCpuConformanceReport,
    r2: ReferenceCpuConformanceReport,
)
    requires
        single_valued(ops),
        reports(ops, f, r),
        reports(ops, f, r2),
    ensures
        same_report(r, r2),
        report_observation(r) == report_observation(r2),
{
    assert forall|
        name: Seq<char>,
        call: Call,
        expected: Seq<u32>,
        c: ReferenceCpuConformanceCheck,
        c2: ReferenceCpuConformanceCheck,
    | #[trigger]
        checks_call(ops, name, call, expected, c) && #[trigger] checks_call(
            ops,
            name,
            call,
            expected,
            c2,
        ) implies same_check(c, c2) by {
        lemma_checked_once(ops, name, call, expected, c, c2);
    }
    lemma_normalised_once(ops);
    let checks = r.checks@;
    let checks2 = r2.checks@;
    assert(same_check(checks[0], checks2[0]));
    assert(same_check(checks[1], checks2[1]));
    assert(same_check(checks[2], checks2[2]));
    assert(same_check(checks[3], checks2[3]));
    assert(same_check(checks[4], checks2[4]));
    assert(same_check(checks[5], checks2[5]));
    assert(same_check(checks[6], checks2[6]));
    assert(same_check(checks[7], checks2[7]));
    assert(same_check(checks[8], checks2[8]));
    assert(same_check(checks[9], checks2[9]));
    assert(same_check(checks[10], checks2[10]));
    assert(same_check(checks[11], checks2[11]));
    assert(same_check(checks[12], checks2[12]));
    assert(all_passed(checks) == all_passed(checks2)) by {
        assert forall|i: int| 0 <= i < checks.len() implies (#[trigger] checks[i]).passed
            == checks2[i].passed by {
            assert(same_check(checks[i], checks2[i]));
        }
        if all_passed(checks) {
            assert forall|i: int| 0 <= i < checks2.len() implies (#[trigger] checks2[i]).passed by {
                assert(checks[i].passed);
            }
        }
    }
}

/// There is one pair of numbers that normalisation must give.
proof fn lemma_normalised_once<A: Arithmetic>(ops: &A)
    requires
        single_valued(ops),
    ensures
        forall|a: u32, b: u32, a2: u32, b2: u32| #[trigger]
            normalised(ops, a, b) && #[trigger] normalised(ops, a2, b2) ==> a == a2 && b == b2,
{
}

} // verus!
