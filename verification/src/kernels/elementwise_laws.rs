//! What activations, sums and products promise of an element: it is made of the
//! elements at its own place.

use vstd::prelude::*;

use crate::error::ReferenceCpuError;
use crate::float::{adds, divides, exponentiates, multiplies, tanhs, Arithmetic};
use crate::kernels::elementwise::{
    add_gives, gelu_cube, gelu_gate, gelu_gives, gelu_value, mul_gives, silu_gives, silu_value,
};
use crate::tensor::{HostTensor, Tensor};

verus! {

/// How an element of SiLU comes about: the element times one over one plus the
/// exponential of the element with the other sign.
///
/// The exponential, one plus it, and one over that are handed out.
pub proof fn law_silu_element<A: Arithmetic>(ops: &A, input: Tensor, out: Tensor, i: int) -> (w: (
    u32,
    u32,
    u32,
))
    requires
        silu_gives(ops, input, out),
        0 <= i < input.data.len(),
    ensures
        ({
            let (e, sum, gate) = w;
            let x = input.data[i];
            let opposite = if x < 0x8000_0000 {
                x + 0x8000_0000
            } else {
                x - 0x8000_0000
            };
            &&& out.shape == input.shape
            &&& out.data.len() == input.data.len()
            &&& exponentiates(ops, opposite as u32, e)
            &&& adds(ops, 0x3F80_0000, e, sum)
            &&& divides(ops, 0x3F80_0000, sum, gate)
            &&& multiplies(ops, x, gate, out.data[i])
        }),
{
    let x = input.data[i];
    assert(silu_value(ops, x, out.data[i]));
    let (e, sum, gate) = choose|e: u32, sum: u32, gate: u32|
        {
            &&& exponentiates(ops, crate::float::negated(x), e)
            &&& #[trigger] adds(ops, crate::float::ONE, e, sum)
            &&& #[trigger] divides(ops, crate::float::ONE, sum, gate)
            &&& multiplies(ops, x, gate, out.data[i])
        };
    (e, sum, gate)
}

/// The numbers that an element of GELU goes by.
pub struct GeluSteps {
    /// Half the element.
    pub half: u32,
    /// The weight of the cube times the element.
    pub first: u32,
    /// That times the element.
    pub second: u32,
    /// That times the element.
    pub cube: u32,
    /// The element and the weighted cube.
    pub inner: u32,
    /// That times the root of two over pi.
    pub scaled: u32,
    /// The hyperbolic tangent of that.
    pub tanh: u32,
    /// One plus that.
    pub gate: u32,
}

/// How an element of GELU comes about: half the element times one plus the
/// hyperbolic tangent of the root of two over pi times the sum of the element
/// and 0.044715 times its cube.
pub proof fn law_gelu_element<A: Arithmetic>(ops: &A, input: Tensor, out: Tensor, i: int) -> (w:
    GeluSteps)
    requires
        gelu_gives(ops, input, out),
        0 <= i < input.data.len(),
    ensures
        ({
            let x = input.data[i];
            &&& out.shape == input.shape
            &&& out.data.len() == input.data.len()
            &&& multiplies(ops, 0x3F00_0000, x, w.half)
            &&& multiplies(ops, 0x3D37_2713, x, w.first)
            &&& multiplies(ops, w.first, x, w.second)
            &&& multiplies(ops, w.second, x, w.cube)
            &&& adds(ops, x, w.cube, w.inner)
            &&& multiplies(ops, 0x3F4C_422A, w.inner, w.scaled)
            &&& tanhs(ops, w.scaled, w.tanh)
            &&& adds(ops, 0x3F80_0000, w.tanh, w.gate)
            &&& multiplies(ops, w.half, w.gate, out.data[i])
        }),
{
    let x = input.data[i];
    let r = out.data[i];
    assert(gelu_value(ops, x, r));
    let (half, gate) = choose|half: u32, gate: u32|
        {
            &&& multiplies(ops, crate::float::HALF, x, half)
            &&& gelu_gate(ops, x, gate)
            &&& #[trigger] multiplies(ops, half, gate, r)
        };
    let (cube, inner, scaled, tanh) = choose|cube: u32, inner: u32, scaled: u32, t: u32|
        {
            &&& gelu_cube(ops, x, cube)
            &&& #[trigger] adds(ops, x, cube, inner)
            &&& #[trigger] multiplies(
                ops,
                crate::kernels::elementwise::SQRT_2_OVER_PI,
                inner,
                scaled,
            )
            &&& #[trigger] tanhs(ops, scaled, t)
            &&& adds(ops, crate::float::ONE, t, gate)
        };
    let (first, second) = choose|first: u32, second: u32|
        {
            &&& #[trigger] multiplies(
                ops,
                crate::kernels::elementwise::GELU_CUBE_WEIGHT,
                x,
                first,
            )
            &&& #[trigger] multiplies(ops, first, x, second)
            &&& multiplies(ops, second, x, cube)
        };
    GeluSteps { half, first, second, cube, inner, scaled, tanh, gate }
}

/// Tensors are added and multiplied exactly where their shapes are the same, and
/// then element by element: an element is the sum, or the product, of the two
/// at its place, the first operand first.
pub proof fn law_pairs_elements<A: Arithmetic>(
    ops: &A,
    a: Tensor,
    b: Tensor,
    sum: Result<HostTensor, ReferenceCpuError>,
    product: Result<HostTensor, ReferenceCpuError>,
)
    requires
        add_gives(ops, a, b, sum),
        mul_gives(ops, a, b, product),
    ensures
        sum is Ok <==> a.shape == b.shape,
        product is Ok <==> a.shape == b.shape,
        sum matches Ok(t) ==> {
            &&& t@.shape == a.shape
            &&& t@.data.len() == if a.data.len() < b.data.len() {
                a.data.len()
            } else {
                b.data.len()
            }
            &&& forall|i: int|
                0 <= i < t@.data.len() ==> adds(ops, a.data[i], b.data[i], #[trigger] t@.data[i])
        },
        product matches Ok(t) ==> {
            &&& t@.shape == a.shape
            &&& t@.data.len() == if a.data.len() < b.data.len() {
                a.data.len()
            } else {
                b.data.len()
            }
            &&& forall|i: int|
                0 <= i < t@.data.len() ==> multiplies(
                    ops,
                    a.data[i],
                    b.data[i],
                    #[trigger] t@.data[i],
                )
        },
{
}

} // verus!
