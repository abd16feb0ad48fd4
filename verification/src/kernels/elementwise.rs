//! Kernels that work element by element: activations, sums and products.

use vstd::prelude::*;

use crate::error::{ReferenceCpuError, Refusal};
use crate::float::{
    adds, divides, exponentiates, multiplies, negated, negated_of, single_valued, tanhs, Arithmetic,
    HALF, ONE,
};
use crate::tensor::{
    mismatch_refusal, refused, same_result, same_shape, well_formed, HostTensor, Tensor,
};

verus! {

/// The square root of two over pi, in single precision.
pub const SQRT_2_OVER_PI: u32 = 0x3F4C_422A;

/// The weight of the cube in the approximation of GELU.
pub const GELU_CUBE_WEIGHT: u32 = 0x3D37_2713;

/// `r` is `x * (1 / (1 + exp(-x)))`.
pub open spec fn silu_value<A: Arithmetic>(ops: &A, x: u32, r: u32) -> bool {
    exists|e: u32, sum: u32, gate: u32|
        {
            &&& exponentiates(ops, negated(x), e)
            &&& #[trigger] adds(ops, ONE, e, sum)
            &&& #[trigger] divides(ops, ONE, sum, gate)
            &&& multiplies(ops, x, gate, r)
        }
}

/// `r` is `0.044715 * x * x * x`, from the left.
pub open spec fn gelu_cube<A: Arithmetic>(ops: &A, x: u32, r: u32) -> bool {
    exists|first: u32, second: u32|
        {
            &&& #[trigger] multiplies(ops, GELU_CUBE_WEIGHT, x, first)
            &&& #[trigger] multiplies(ops, first, x, second)
            &&& multiplies(ops, second, x, r)
        }
}

/// `r` is `1 + tanh(sqrt(2 / pi) * (x + 0.044715 * x * x * x))`.
pub open spec fn gelu_gate<A: Arithmetic>(ops: &A, x: u32, r: u32) -> bool {
    exists|cube: u32, inner: u32, scaled: u32, t: u32|
        {
            &&& gelu_cube(ops, x, cube)
            &&& #[trigger] adds(ops, x, cube, inner)
            &&& #[trigger] multiplies(ops, SQRT_2_OVER_PI, inner, scaled)
            &&& #[trigger] tanhs(ops, scaled, t)
            &&& adds(ops, ONE, t, r)
        }
}

/// `r` is `0.5 * x` times its gate.
pub open spec fn gelu_value<A: Arithmetic>(ops: &A, x: u32, r: u32) -> bool {
    exists|half: u32, gate: u32|
        {
            &&& multiplies(ops, HALF, x, half)
            &&& gelu_gate(ops, x, gate)
            &&& #[trigger] multiplies(ops, half, gate, r)
        }
}

/// What SiLU gives.
pub open spec fn silu_gives<A: Arithmetic>(ops: &A, input: Tensor, out: Tensor) -> bool {
    &&& out.shape == input.shape
    &&& out.data.len() == input.data.len()
    &&& forall|i: int|
        0 <= i < input.data.len() ==> silu_value(ops, input.data[i], #[trigger] out.data[i])
}

/// What GELU gives.
pub open spec fn gelu_gives<A: Arithmetic>(ops: &A, input: Tensor, out: Tensor) -> bool {
    &&& out.shape == input.shape
    &&& out.data.len() == input.data.len()
    &&& forall|i: int|
        0 <= i < input.data.len() ==> gelu_value(ops, input.data[i], #[trigger] out.data[i])
}

/// How many elements two sequences have in pairs.
pub open spec fn paired(a: Seq<u32>, b: Seq<u32>) -> nat {
    if a.len() <= b.len() {
        a.len()
    } else {
        b.len()
    }
}

/// Why two tensors cannot be taken element by element, if they cannot.
pub open spec fn pair_refusal(a: Tensor, b: Tensor) -> Option<Refusal> {
    mismatch_refusal(a.shape, b.shape)
}

/// What addition gives.
pub open spec fn add_gives<A: Arithmetic>(
    ops: &A,
    a: Tensor,
    b: Tensor,
    r: Result<HostTensor, ReferenceCpuError>,
) -> bool {
    &&& refused(r, pair_refusal(a, b))
    &&& r matches Ok(t) ==> {
        &&& t@.shape == a.shape
        &&& t@.data.len() == paired(a.data, b.data)
        &&& forall|i: int|
            0 <= i < t@.data.len() ==> adds(ops, a.data[i], b.data[i], #[trigger] t@.data[i])
    }
}

/// What multiplication gives.
pub open spec fn mul_gives<A: Arithmetic>(
    ops: &A,
    a: Tensor,
    b: Tensor,
    r: Result<HostTensor, ReferenceCpuError>,
) -> bool {
    &&& refused(r, pair_refusal(a, b))
    &&& r matches Ok(t) ==> {
        &&& t@.shape == a.shape
        &&& t@.data.len() == paired(a.data, b.data)
        &&& forall|i: int|
            0 <= i < t@.data.len() ==> multiplies(ops, a.data[i], b.data[i], #[trigger] t@.data[i])
    }
}

/// SiLU of each element: `x * sigmoid(x)`.
pub fn silu<A: Arithmetic>(ops: &A, input: &HostTensor) -> (r: HostTensor)
    ensures
        silu_gives(ops, input@, r@),
{
    let mut data: Vec<u32> = Vec::new();
    let mut i: usize = 0;
    while i < input.data.len()
        invariant
            i <= input@.data.len(),
            data@.len() == i,
            forall|j: int| 0 <= j < i ==> silu_value(ops, input@.data[j], #[trigger] data@[j]),
        decreases input@.data.len() - i,
    {
        let x: u32 = input.data[i];
        let e: u32 = ops.exp(negated_of(x));
        let sum: u32 = ops.add(ONE, e);
        let gate: u32 = ops.div(ONE, sum);
        let value: u32 = ops.mul(x, gate);
        proof {
            assert(adds(ops, ONE, e, sum));
            assert(divides(ops, ONE, sum, gate));
            assert(silu_value(ops, x, value));
        }
        data.push(value);
        i += 1;
    }
    HostTensor { shape: input.shape.clone(), data }
}

/// GELU of each element, by the tanh approximation.
pub fn gelu<A: Arithmetic>(ops: &A, input: &HostTensor) -> (r: HostTensor)
    ensures
        gelu_gives(ops, input@, r@),
{
    let mut data: Vec<u32> = Vec::new();
    let mut i: usize = 0;
    while i < input.data.len()
        invariant
            i <= input@.data.len(),
            data@.len() == i,
            forall|j: int| 0 <= j < i ==> gelu_value(ops, input@.data[j], #[trigger] data@[j]),
        decreases input@.data.len() - i,
    {
        let x: u32 = input.data[i];
        let half: u32 = ops.mul(HALF, x);
        let first: u32 = ops.mul(GELU_CUBE_WEIGHT, x);
        let second: u32 = ops.mul(first, x);
        let cube: u32 = ops.mul(second, x);
        let inner: u32 = ops.add(x, cube);
        let scaled: u32 = ops.mul(SQRT_2_OVER_PI, inner);
        let t: u32 = ops.tanh(scaled);
        let gate: u32 = ops.add(ONE, t);
        let value: u32 = ops.mul(half, gate);
        proof {
            assert(multiplies(ops, GELU_CUBE_WEIGHT, x, first));
            assert(multiplies(ops, first, x, second));
            assert(gelu_cube(ops, x, cube));
            assert(adds(ops, x, cube, inner));
            assert(multiplies(ops, SQRT_2_OVER_PI, inner, scaled));
            assert(tanhs(ops, scaled, t));
            assert(gelu_gate(ops, x, gate));
            assert(multiplies(ops, half, gate, value));
            assert(gelu_value(ops, x, value));
        }
        data.push(value);
        i += 1;
    }
    HostTensor { shape: input.shape.clone(), data }
}

/// The sum of two tensors of one shape, element by element.
pub fn add<A: Arithmetic>(ops: &A, a: &HostTensor, b: &HostTensor) -> (r: Result<
    HostTensor,
    ReferenceCpuError,
>)
    ensures
        add_gives(ops, a@, b@, r),
{
    if let Err(e) = same_shape(a, b) {
        return Err(e);
    }
    let mut data: Vec<u32> = Vec::new();
    let mut i: usize = 0;
    while i < a.data.len() && i < b.data.len()
        invariant
            i <= paired(a@.data, b@.data),
            data@.len() == i,
            forall|j: int| 0 <= j < i ==> adds(ops, a@.data[j], b@.data[j], #[trigger] data@[j]),
        decreases a@.data.len() - i,
    {
        let sum: u32 = ops.add(a.data[i], b.data[i]);
        assert(adds(ops, a@.data[i as int], b@.data[i as int], sum));
        data.push(sum);
        i += 1;
    }
    Ok(HostTensor { shape: a.shape.clone(), data })
}

/// The product of two tensors of one shape, element by element.
pub fn mul<A: Arithmetic>(ops: &A, a: &HostTensor, b: &HostTensor) -> (r: Result<
    HostTensor,
    ReferenceCpuError,
>)
    ensures
        mul_gives(ops, a@, b@, r),
{
    if let Err(e) = same_shape(a, b) {
        return Err(e);
    }
    let mut data: Vec<u32> = Vec::new();
    let mut i: usize = 0;
    while i < a.data.len() && i < b.data.len()
        invariant
            i <= paired(a@.data, b@.data),
            data@.len() == i,
            forall|j: int|
                0 <= j < i ==> multiplies(ops, a@.data[j], b@.data[j], #[trigger] data@[j]),
        decreases a@.data.len() - i,
    {
        let product: u32 = ops.mul(a.data[i], b.data[i]);
        assert(multiplies(ops, a@.data[i as int], b@.data[i as int], product));
        data.push(product);
        i += 1;
    }
    Ok(HostTensor { shape: a.shape.clone(), data })
}

/// A residual connection: the sum of the input and the residual.
pub fn residual_add<A: Arithmetic>(ops: &A, input: &HostTensor, residual: &HostTensor) -> (r:
    Result<HostTensor, ReferenceCpuError>)
    ensures
        add_gives(ops, input@, residual@, r),
{
    self::add(ops, input, residual)
}

/// Sums and products of well-formed tensors are well-formed.
pub proof fn law_pairs_well_formed<A: Arithmetic>(
    ops: &A,
    a: Tensor,
    b: Tensor,
    r: Result<HostTensor, ReferenceCpuError>,
)
    requires
        well_formed(a),
        well_formed(b),
        add_gives(ops, a, b, r) || mul_gives(ops, a, b, r),
    ensures
        r matches Ok(t) ==> well_formed(t@),
{
}

/// An activation of a well-formed tensor is well-formed.
pub proof fn law_activation_well_formed<A: Arithmetic>(ops: &A, input: Tensor, out: Tensor)
    requires
        well_formed(input),
        silu_gives(ops, input, out) || gelu_gives(ops, input, out),
    ensures
        well_formed(out),
{
}

/// There is one SiLU of a number.
proof fn lemma_silu_once<A: Arithmetic>(ops: &A, x: u32, r: u32, r2: u32)
    requires
        single_valued(ops),
        silu_value(ops, x, r),
        silu_value(ops, x, r2),
    ensures
        r == r2,
{
}

/// There is one GELU of a number.
proof fn lemma_gelu_once<A: Arithmetic>(ops: &A, x: u32, r: u32, r2: u32)
    requires
        single_valued(ops),
        gelu_value(ops, x, r),
        gelu_value(ops, x, r2),
    ensures
        r == r2,
{
    assert(forall|c: u32, c2: u32|
        #[trigger] gelu_cube(ops, x, c) && #[trigger] gelu_cube(ops, x, c2) ==> c == c2);
    assert(forall|g: u32, g2: u32|
        #[trigger] gelu_gate(ops, x, g) && #[trigger] gelu_gate(ops, x, g2) ==> g == g2);
}

/// Under an arithmetic with one result for the same operands, an activation has
/// one result.
pub proof fn law_activation_once<A: Arithmetic>(ops: &A, input: Tensor, out: Tensor, out2: Tensor)
    requires
        single_valued(ops),
    ensures
        silu_gives(ops, input, out) && silu_gives(ops, input, out2) ==> out == out2,
        gelu_gives(ops, input, out) && gelu_gives(ops, input, out2) ==> out == out2,
{
    if silu_gives(ops, input, out) && silu_gives(ops, input, out2) {
        assert forall|i: int| 0 <= i < out.data.len() implies out.data[i] == out2.data[i] by {
            lemma_silu_once(ops, input.data[i], out.data[i], out2.data[i]);
        }
        assert(out =~= out2);
    }
    if gelu_gives(ops, input, out) && gelu_gives(ops, input, out2) {
        assert forall|i: int| 0 <= i < out.data.len() implies out.data[i] == out2.data[i] by {
            lemma_gelu_once(ops, input.data[i], out.data[i], out2.data[i]);
        }
        assert(out =~= out2);
    }
}

/// Under an arithmetic with one result for the same operands, a sum or a
/// product of two tensors has one result.
pub proof fn law_pairs_once<A: Arithmetic>(
    ops: &A,
    a: Tensor,
    b: Tensor,
    r: Result<HostTensor, ReferenceCpuError>,
    r2: Result<HostTensor, ReferenceCpuError>,
)
    requires
        single_valued(ops),
    ensures
        add_gives(ops, a, b, r) && add_gives(ops, a, b, r2) ==> same_result(r, r2),
        mul_gives(ops, a, b, r) && mul_gives(ops, a, b, r2) ==> same_result(r, r2),
{
    if r is Ok && r2 is Ok {
        let t = r->Ok_0@;
        let t2 = r2->Ok_0@;
        if add_gives(ops, a, b, r) && add_gives(ops, a, b, r2) {
            assert forall|i: int| 0 <= i < t.data.len() implies t.data[i] == t2.data[i] by {
                assert(adds(ops, a.data[i], b.data[i], t.data[i]));
                assert(adds(ops, a.data[i], b.data[i], t2.data[i]));
            }
            assert(t =~= t2);
        }
        if mul_gives(ops, a, b, r) && mul_gives(ops, a, b, r2) {
            assert forall|i: int| 0 <= i < t.data.len() implies t.data[i] == t2.data[i] by {
                assert(multiplies(ops, a.data[i], b.data[i], t.data[i]));
                assert(multiplies(ops, a.data[i], b.data[i], t2.data[i]));
            }
            assert(t =~= t2);
        }
    }
}

} // verus!
