//! What rotation promises of a pair: the angle of its position and of its own
//! frequency, the length that it had, and no say for anything else in the row.

use vstd::prelude::*;

use crate::error::ReferenceCpuError;
use crate::float::{
    adds, converts, divides, finite, multiplies, powers, sines, single_valued, subtracts,
    Arithmetic, NEG_TWO,
};
use crate::kernels::rope::{
    crosses_down, crosses_up, frequencies, positions, rope_gives, rope_pair, rope_row, rotates,
    RopeParams,
};
use crate::reals::{exact, held};
use crate::tensor::{at, well_formed, HostTensor, Tensor};

verus! {

/// The numbers that the rotation of a pair goes by.
pub struct Rotation {
    /// The position of the row, as a number.
    pub count: u32,
    /// The position, scaled.
    pub position: u32,
    /// The index of the pair, as a number.
    pub index: u32,
    /// Minus two times the index.
    pub doubled: u32,
    /// The dimension, as a number.
    pub width: u32,
    /// The exponent of the base.
    pub exponent: u32,
    /// The frequency.
    pub frequency: u32,
    /// The angle.
    pub angle: u32,
    /// The sine of the angle.
    pub sin: u32,
    /// The cosine of the angle.
    pub cos: u32,
    /// The even element times the cosine.
    pub even_cos: u32,
    /// The odd element times the sine.
    pub odd_sin: u32,
    /// The even element times the sine.
    pub even_sin: u32,
    /// The odd element times the cosine.
    pub odd_cos: u32,
}

/// How a pair comes about: the frequency of pair `i` is the base to the power of
/// `-2 * i / dimension`, the angle is that times the scaled position of the row,
/// which is the offset and the index of the row, and the pair is turned by the
/// angle.
///
/// Turning keeps the length: where the products, the difference and the sum are
/// numbers that some bits stand for, and the squares of the sine and the cosine
/// add up to one, the squares of the new pair add up to what those of the pair
/// did.
pub proof fn law_rope_pair<A: Arithmetic>(
    ops: &A,
    input: Tensor,
    p: RopeParams,
    r: HostTensor,
    row: int,
    pair: int,
) -> (w: Rotation)
    requires
        rope_gives(ops, input, p, Ok(r)),
        0 <= row < input.shape[0],
        p.position_offset + row <= u64::MAX,
        0 <= pair,
        2 * pair < p.dimension,
    ensures
        ({
            let cols = input.shape[1] as int;
            let even = input.data[row * cols + 2 * pair];
            let odd = input.data[row * cols + 2 * pair + 1];
            let new_even = r@.data[row * cols + 2 * pair];
            let new_odd = r@.data[row * cols + 2 * pair + 1];
            &&& r@.shape == input.shape
            &&& r@.data.len() == input.data.len()
            &&& converts(ops, (p.position_offset + row) as u64, w.count)
            &&& multiplies(ops, w.count, p.scale, w.position)
            &&& converts(ops, pair as u64, w.index)
            &&& multiplies(ops, NEG_TWO, w.index, w.doubled)
            &&& converts(ops, p.dimension, w.width)
            &&& divides(ops, w.doubled, w.width, w.exponent)
            &&& powers(ops, p.base, w.exponent, w.frequency)
            &&& multiplies(ops, w.position, w.frequency, w.angle)
            &&& sines(ops, w.angle, w.sin, w.cos)
            &&& multiplies(ops, even, w.cos, w.even_cos)
            &&& multiplies(ops, odd, w.sin, w.odd_sin)
            &&& subtracts(ops, w.even_cos, w.odd_sin, new_even)
            &&& multiplies(ops, even, w.sin, w.even_sin)
            &&& multiplies(ops, odd, w.cos, w.odd_cos)
            &&& adds(ops, w.even_sin, w.odd_cos, new_odd)
            &&& forall|value: spec_fn(u32) -> real|
                {
                    let (a, b, s, c) = (value(even), value(odd), value(w.sin), value(w.cos));
                    &&& #[trigger] exact(ops, value)
                    &&& finite(even) && finite(odd) && finite(w.sin) && finite(w.cos)
                    &&& held(value, a * c) && held(value, b * s) && held(value, a * s) && held(
                        value,
                        b * c,
                    )
                    &&& held(value, a * c - b * s) && held(value, a * s + b * c)
                    &&& s * s + c * c == 1real
                } ==> value(new_even) * value(new_even) + value(new_odd) * value(new_odd) == value(
                    even,
                ) * value(even) + value(odd) * value(odd)
        }),
{
    let cols = input.shape[1] as int;
    let even = input.data[row * cols + 2 * pair];
    let odd = input.data[row * cols + 2 * pair + 1];
    let new_even = r@.data[row * cols + 2 * pair];
    let new_odd = r@.data[row * cols + 2 * pair + 1];
    assert(rope_row(ops, input.data, cols, p, row, r@.data));
    let position = choose|position: u32|
        {
            &&& #[trigger] positions(ops, (p.position_offset + row) as u64, p.scale, position)
            &&& forall|pair: int|
                0 <= pair < p.dimension as int / 2 ==> #[trigger] rope_pair(
                    ops,
                    input.data,
                    cols,
                    p,
                    position,
                    row,
                    pair,
                    r@.data,
                )
        };
    let count = choose|count: u32|
        converts(ops, (p.position_offset + row) as u64, count) && #[trigger] multiplies(
            ops,
            count,
            p.scale,
            position,
        );
    assert(rope_pair(ops, input.data, cols, p, position, row, pair, r@.data));
    assert(at(input.data, cols, row, 2 * pair) == even);
    assert(at(input.data, cols, row, 2 * pair + 1) == odd);
    assert(at(r@.data, cols, row, 2 * pair) == new_even);
    assert(at(r@.data, cols, row, 2 * pair + 1) == new_odd);
    assert(rotates(
        ops,
        p.base,
        p.dimension,
        position,
        pair as u64,
        even,
        odd,
        new_even,
        new_odd,
    ));
    let (frequency, angle, sin, cos) = choose|frequency: u32, angle: u32, sin: u32, cos: u32|
        {
            &&& frequencies(ops, p.base, pair as u64, p.dimension, frequency)
            &&& #[trigger] multiplies(ops, position, frequency, angle)
            &&& #[trigger] sines(ops, angle, sin, cos)
            &&& crosses_down(ops, even, cos, odd, sin, new_even)
            &&& crosses_up(ops, even, sin, odd, cos, new_odd)
        };
    let (index, doubled, width, exponent) = choose|
        index: u32,
        doubled: u32,
        width: u32,
        exponent: u32,
    |
        {
            &&& converts(ops, pair as u64, index)
            &&& #[trigger] multiplies(ops, NEG_TWO, index, doubled)
            &&& converts(ops, p.dimension, width)
            &&& #[trigger] divides(ops, doubled, width, exponent)
            &&& powers(ops, p.base, exponent, frequency)
        };
    let (even_cos, odd_sin) = choose|ab: u32, cd: u32|
        {
            &&& multiplies(ops, even, cos, ab)
            &&& multiplies(ops, odd, sin, cd)
            &&& #[trigger] subtracts(ops, ab, cd, new_even)
        };
    let (even_sin, odd_cos) = choose|ab: u32, cd: u32|
        {
            &&& multiplies(ops, even, sin, ab)
            &&& multiplies(ops, odd, cos, cd)
            &&& #[trigger] adds(ops, ab, cd, new_odd)
        };
    assert forall|value: spec_fn(u32) -> real|
        {
            let (a, b, s, c) = (value(even), value(odd), value(sin), value(cos));
            &&& #[trigger] exact(ops, value)
            &&& finite(even) && finite(odd) && finite(sin) && finite(cos)
            &&& held(value, a * c) && held(value, b * s) && held(value, a * s) && held(value, b * c)
            &&& held(value, a * c - b * s) && held(value, a * s + b * c)
            &&& s * s + c * c == 1real
        } implies value(new_even) * value(new_even) + value(new_odd) * value(new_odd) == value(even)
        * value(even) + value(odd) * value(odd) by {
        let (a, b, s, c) = (value(even), value(odd), value(sin), value(cos));
        let (x, y) = (value(new_even), value(new_odd));
        assert(x == a * c - b * s && y == a * s + b * c);
        lemma_turn(a, b, s, c, x, y);
    }
    Rotation {
        count,
        position,
        index,
        doubled,
        width,
        exponent,
        frequency,
        angle,
        sin,
        cos,
        even_cos,
        odd_sin,
        even_sin,
        odd_cos,
    }
}

/// Turning a pair keeps its length.
proof fn lemma_turn(a: real, b: real, s: real, c: real, x: real, y: real)
    requires
        x == a * c - b * s,
        y == a * s + b * c,
        s * s + c * c == 1real,
    ensures
        x * x + y * y == a * a + b * b,
{
    let (p, q, m, n) = (a * c, b * s, a * s, b * c);
    lemma_square_of_difference(p, q);
    lemma_square_of_sum(m, n);
    lemma_four(a, c, b, s);
    lemma_four(a, s, b, c);
    lemma_four(a, c, a, c);
    lemma_four(b, s, b, s);
    lemma_four(a, s, a, s);
    lemma_four(b, c, b, c);
    assert(c * s == s * c) by (nonlinear_arith);
    lemma_part(a * a, s * s, c * c);
    lemma_part(b * b, s * s, c * c);
}

proof fn lemma_square_of_difference(p: real, q: real)
    ensures
        (p - q) * (p - q) == p * p - 2real * (p * q) + q * q,
{
    assert((p - q) * (p - q) == p * p - 2real * (p * q) + q * q) by (nonlinear_arith);
}

proof fn lemma_square_of_sum(p: real, q: real)
    ensures
        (p + q) * (p + q) == p * p + 2real * (p * q) + q * q,
{
    assert((p + q) * (p + q) == p * p + 2real * (p * q) + q * q) by (nonlinear_arith);
}

proof fn lemma_four(a: real, b: real, c: real, d: real)
    ensures
        (a * b) * (c * d) == (a * c) * (b * d),
{
    assert((a * b) * (c * d) == (a * c) * (b * d)) by (nonlinear_arith);
}

proof fn lemma_part(z: real, p: real, q: real)
    requires
        p + q == 1real,
    ensures
        z * p + z * q == z,
{
    assert(z * p + z * q == z * (p + q)) by (nonlinear_arith);
}

/// What follows the first `dimension` elements of a row stays as it is.
pub proof fn law_rope_tail<A: Arithmetic>(
    ops: &A,
    input: Tensor,
    p: RopeParams,
    r: HostTensor,
    row: int,
    col: int,
)
    requires
        rope_gives(ops, input, p, Ok(r)),
        0 <= row < input.shape[0],
        p.dimension <= col < input.shape[1],
    ensures
        r@.data[row * input.shape[1] + col] == input.data[row * input.shape[1] + col],
{
    let cols = input.shape[1] as int;
    assert(at(r@.data, cols, row, col) == at(input.data, cols, row, col));
}

/// The rotated part of a row depends on its elements and on the position of the
/// row, not on what follows it nor on the other rows: under an arithmetic with
/// one result for the same operands, rows that begin alike, at one position,
/// are rotated alike, however wide they are and wherever they stand.
pub proof fn law_rope_part_alone<A: Arithmetic>(
    ops: &A,
    input: Tensor,
    p: RopeParams,
    r: HostTensor,
    row: int,
    input2: Tensor,
    p2: RopeParams,
    r2: HostTensor,
    row2: int,
)
    requires
        single_valued(ops),
        rope_gives(ops, input, p, Ok(r)),
        rope_gives(ops, input2, p2, Ok(r2)),
        0 <= row < input.shape[0],
        0 <= row2 < input2.shape[0],
        p2.base == p.base,
        p2.scale == p.scale,
        p2.dimension == p.dimension,
        p2.position_offset + row2 == p.position_offset + row <= u64::MAX,
        forall|col: int|
            0 <= col < p.dimension ==> #[trigger] input.data[row * input.shape[1] + col]
                == input2.data[row2 * input2.shape[1] + col],
    ensures
        forall|col: int|
            0 <= col < p.dimension ==> #[trigger] r@.data[row * input.shape[1] + col]
                == r2@.data[row2 * input2.shape[1] + col],
{
    let cols = input.shape[1] as int;
    let cols2 = input2.shape[1] as int;
    assert forall|col: int| 0 <= col < p.dimension implies #[trigger] r@.data[row * cols + col]
        == r2@.data[row2 * cols2 + col] by {
        let pair = col / 2;
        let w = law_rope_pair(ops, input, p, r, row, pair);
        let w2 = law_rope_pair(ops, input2, p2, r2, row2, pair);
        assert(input.data[row * cols + 2 * pair] == input2.data[row2 * cols2 + 2 * pair]);
        assert(input.data[row * cols + (2 * pair + 1)] == input2.data[row2 * cols2 + (2 * pair
            + 1)]);
        assert(w.count == w2.count && w.position == w2.position);
        assert(w.index == w2.index && w.doubled == w2.doubled && w.width == w2.width);
        assert(w.exponent == w2.exponent && w.frequency == w2.frequency);
        assert(w.angle == w2.angle);
        assert(w.sin == w2.sin && w.cos == w2.cos);
        assert(col == 2 * pair || col == 2 * pair + 1);
    }
}

/// Rotation is taken exactly where the input is a matrix, the dimension is
/// positive, even and at most the width of a row, and the base and the scale are
/// finite and positive.
pub proof fn law_rope_taken<A: Arithmetic>(
    ops: &A,
    input: Tensor,
    p: RopeParams,
    r: Result<HostTensor, ReferenceCpuError>,
)
    requires
        well_formed(input),
        rope_gives(ops, input, p, r),
    ensures
        r is Ok <==> {
            &&& input.shape.len() == 2
            &&& 0 < p.dimension <= input.shape[1]
            &&& p.dimension % 2 == 0
            &&& 0 < p.base < 0x7F80_0000
            &&& 0 < p.scale < 0x7F80_0000
        },
{
}

} // verus!
