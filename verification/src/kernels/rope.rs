//! Rotary position embedding.

use vstd::prelude::*;

use crate::error::{shape_refusal, ReferenceCpuError, Refusal};
use crate::float::{
    adds, converts, divides, finite, is_finite, is_positive, multiplies, positive, powers,
    sines, single_valued, subtracts, Arithmetic, NEG_TWO,
};
use crate::tensor::{
    at, lemma_at_bounds, lemma_matrix_count, lemma_rows_make_matrix, matrix_rows, product_within,
    rank_refusal, refused, same_result, tensor_refusal, well_formed, HostTensor, Tensor,
};
use crate::text::{decimal, decimal_text};

verus! {

/// The parameters of rotary position embedding.
#[derive(Clone, Copy, Debug, PartialEq, Eq)]
pub struct RopeParams {
    /// The base of the frequencies.
    pub base: u32,
    /// What a position is multiplied by.
    pub scale: u32,
    /// How many elements at the start of a row are rotated.
    pub dimension: u64,
    /// The position of the first row.
    pub position_offset: u64,
}

/// Why rotation refuses its parameters, if it does.
pub open spec fn rope_parameter_refusal(input: Seq<u64>, p: RopeParams) -> Option<Refusal> {
    if rank_refusal(input) is Some {
        rank_refusal(input)
    } else if p.dimension == 0 || p.dimension % 2 != 0 || p.dimension > input[1] {
        Some(
            shape_refusal(
                "RoPE dimension "@ + decimal(p.dimension as nat)
                    + " must be positive, even, and at most the row width "@ + decimal(
                    input[1] as nat,
                ),
            ),
        )
    } else if !finite(p.base) || !positive(p.base) {
        Some(shape_refusal("RoPE base must be finite and positive"@))
    } else if !finite(p.scale) || !positive(p.scale) {
        Some(shape_refusal("RoPE scale must be finite and positive"@))
    } else {
        None
    }
}

/// Why rotation refuses, if it does.
pub open spec fn rope_refusal(input: Tensor, p: RopeParams) -> Option<Refusal> {
    if rope_parameter_refusal(input.shape, p) is Some {
        rope_parameter_refusal(input.shape, p)
    } else {
        tensor_refusal(input.shape, input.data.len())
    }
}

/// The elements that are rotated are there, and the host can count up to the
/// last position.
pub open spec fn rope_ready(input: Tensor, p: RopeParams) -> bool {
    rope_parameter_refusal(input.shape, p) is None && input.shape[0] > 0 ==> {
        &&& (input.shape[0] - 1) * input.shape[1] + p.dimension <= input.data.len()
        &&& p.position_offset + input.shape[0] - 1 <= usize::MAX
    }
}

/// `r` is the position of a row, scaled.
pub open spec fn positions<A: Arithmetic>(ops: &A, position: u64, scale: u32, r: u32) -> bool {
    exists|count: u32| converts(ops, position, count) && #[trigger] multiplies(ops, count, scale, r)
}

/// `r` is the frequency of a pair: the base to the power of
/// `-2 * pair / dimension`.
pub open spec fn frequencies<A: Arithmetic>(
    ops: &A,
    base: u32,
    pair: u64,
    dimension: u64,
    r: u32,
) -> bool {
    exists|index: u32, doubled: u32, width: u32, exponent: u32|
        {
            &&& converts(ops, pair, index)
            &&& #[trigger] multiplies(ops, NEG_TWO, index, doubled)
            &&& converts(ops, dimension, width)
            &&& #[trigger] divides(ops, doubled, width, exponent)
            &&& powers(ops, base, exponent, r)
        }
}

/// `r` is `a * b - c * d`.
pub open spec fn crosses_down<A: Arithmetic>(ops: &A, a: u32, b: u32, c: u32, d: u32, r: u32) -> bool {
    exists|ab: u32, cd: u32|
        {
            &&& multiplies(ops, a, b, ab)
            &&& multiplies(ops, c, d, cd)
            &&& #[trigger] subtracts(ops, ab, cd, r)
        }
}

/// `r` is `a * b + c * d`.
pub open spec fn crosses_up<A: Arithmetic>(ops: &A, a: u32, b: u32, c: u32, d: u32, r: u32) -> bool {
    exists|ab: u32, cd: u32|
        {
            &&& multiplies(ops, a, b, ab)
            &&& multiplies(ops, c, d, cd)
            &&& #[trigger] adds(ops, ab, cd, r)
        }
}

/// A pair of elements is rotated by the angle of a position and a frequency.
pub open spec fn rotates<A: Arithmetic>(
    ops: &A,
    base: u32,
    dimension: u64,
    position: u32,
    pair: u64,
    even: u32,
    odd: u32,
    new_even: u32,
    new_odd: u32,
) -> bool {
    exists|frequency: u32, angle: u32, sin: u32, cos: u32|
        {
            &&& frequencies(ops, base, pair, dimension, frequency)
            &&& #[trigger] multiplies(ops, position, frequency, angle)
            &&& #[trigger] sines(ops, angle, sin, cos)
            &&& crosses_down(ops, even, cos, odd, sin, new_even)
            &&& crosses_up(ops, even, sin, odd, cos, new_odd)
        }
}

/// A pair of a row is rotated.
pub open spec fn rope_pair<A: Arithmetic>(
    ops: &A,
    input: Seq<u32>,
    cols: int,
    p: RopeParams,
    position: u32,
    row: int,
    pair: int,
    out: Seq<u32>,
) -> bool {
    rotates(
        ops,
        p.base,
        p.dimension,
        position,
        pair as u64,
        at(input, cols, row, 2 * pair),
        at(input, cols, row, 2 * pair + 1),
        at(out, cols, row, 2 * pair),
        at(out, cols, row, 2 * pair + 1),
    )
}

/// The consecutive pairs within the first `dimension` elements of a row are
/// rotated, by the position of the row.
pub open spec fn rope_row<A: Arithmetic>(
    ops: &A,
    input: Seq<u32>,
    cols: int,
    p: RopeParams,
    row: int,
    out: Seq<u32>,
) -> bool {
    exists|position: u32|
        {
            &&& #[trigger] positions(ops, (p.position_offset + row) as u64, p.scale, position)
            &&& forall|pair: int|
                0 <= pair < p.dimension as int / 2 ==> #[trigger] rope_pair(
                    ops,
                    input,
                    cols,
                    p,
                    position,
                    row,
                    pair,
                    out,
                )
        }
}

/// `out` holds the rotated rows, and every other element as it was.
pub open spec fn rope_output<A: Arithmetic>(
    ops: &A,
    input: Tensor,
    p: RopeParams,
    out: Seq<u32>,
) -> bool {
    let rows = input.shape[0] as int;
    let cols = input.shape[1] as int;
    &&& out.len() == input.data.len()
    &&& forall|row: int| 0 <= row < rows ==> #[trigger] rope_row(ops, input.data, cols, p, row, out)
    &&& forall|row: int, col: int|
        0 <= row < rows && p.dimension <= col < cols ==> #[trigger] at(out, cols, row, col) == at(
            input.data,
            cols,
            row,
            col,
        )
}

/// What rotation gives.
pub open spec fn rope_gives<A: Arithmetic>(
    ops: &A,
    input: Tensor,
    p: RopeParams,
    r: Result<HostTensor, ReferenceCpuError>,
) -> bool {
    &&& refused(r, rope_refusal(input, p))
    &&& r matches Ok(t) ==> {
        &&& t@.shape == input.shape
        &&& rope_output(ops, input, p, t@.data)
        &&& well_formed(t@)
    }
}

/// A rotated row depends on its own elements alone.
proof fn lemma_row_same<A: Arithmetic>(
    ops: &A,
    input: Seq<u32>,
    input2: Seq<u32>,
    cols: int,
    p: RopeParams,
    p2: RopeParams,
    row: int,
    row2: int,
    out: Seq<u32>,
    out2: Seq<u32>,
)
    requires
        rope_row(ops, input, cols, p, row, out),
        p2.base == p.base,
        p2.scale == p.scale,
        p2.dimension == p.dimension,
        p2.position_offset + row2 == p.position_offset + row,
        forall|col: int|
            0 <= col < p.dimension ==> #[trigger] at(input, cols, row, col) == at(
                input2,
                cols,
                row2,
                col,
            ),
        forall|col: int|
            0 <= col < p.dimension ==> #[trigger] at(out, cols, row, col) == at(
                out2,
                cols,
                row2,
                col,
            ),
    ensures
        rope_row(ops, input2, cols, p2, row2, out2),
{
    let position = choose|position: u32|
        {
            &&& #[trigger] positions(ops, (p.position_offset + row) as u64, p.scale, position)
            &&& forall|pair: int|
                0 <= pair < p.dimension as int / 2 ==> #[trigger] rope_pair(
                    ops,
                    input,
                    cols,
                    p,
                    position,
                    row,
                    pair,
                    out,
                )
        };
    assert(positions(ops, (p2.position_offset + row2) as u64, p2.scale, position));
    assert forall|pair: int| 0 <= pair < p2.dimension as int / 2 implies #[trigger] rope_pair(
        ops,
        input2,
        cols,
        p2,
        position,
        row2,
        pair,
        out2,
    ) by {
        assert(rope_pair(ops, input, cols, p, position, row, pair, out));
        assert(at(input, cols, row, 2 * pair) == at(input2, cols, row2, 2 * pair));
        assert(at(input, cols, row, 2 * pair + 1) == at(input2, cols, row2, 2 * pair + 1));
        assert(at(out, cols, row, 2 * pair) == at(out2, cols, row2, 2 * pair));
        assert(at(out, cols, row, 2 * pair + 1) == at(out2, cols, row2, 2 * pair + 1));
    }
}

/// Rotates one pair by the angle of a position and a frequency.
fn rotate<A: Arithmetic>(
    ops: &A,
    base: u32,
    dimension: u64,
    position: u32,
    pair: u64,
    even: u32,
    odd: u32,
) -> (r: (u32, u32))
    ensures
        rotates(ops, base, dimension, position, pair, even, odd, r.0, r.1),
{
    let index: u32 = ops.from_integer(pair);
    let doubled: u32 = ops.mul(NEG_TWO, index);
    let width: u32 = ops.from_integer(dimension);
    let exponent: u32 = ops.div(doubled, width);
    let frequency: u32 = ops.powf(base, exponent);
    let angle: u32 = ops.mul(position, frequency);
    let (sin, cos): (u32, u32) = ops.sin_cos(angle);
    let even_cos: u32 = ops.mul(even, cos);
    let odd_sin: u32 = ops.mul(odd, sin);
    let new_even: u32 = ops.sub(even_cos, odd_sin);
    let even_sin: u32 = ops.mul(even, sin);
    let odd_cos: u32 = ops.mul(odd, cos);
    let new_odd: u32 = ops.add(even_sin, odd_cos);
    proof {
        assert(multiplies(ops, NEG_TWO, index, doubled));
        assert(divides(ops, doubled, width, exponent));
        assert(frequencies(ops, base, pair, dimension, frequency));
        assert(multiplies(ops, position, frequency, angle));
        assert(sines(ops, angle, sin, cos));
        assert(subtracts(ops, even_cos, odd_sin, new_even));
        assert(crosses_down(ops, even, cos, odd, sin, new_even));
        assert(adds(ops, even_sin, odd_cos, new_odd));
        assert(crosses_up(ops, even, sin, odd, cos, new_odd));
    }
    (new_even, new_odd)
}

/// Rotates the consecutive pairs within the first `dimension` elements of each
/// row. The position of row `r` is `position_offset + r`.
pub fn rope<A: Arithmetic>(
    ops: &A,
    input: &HostTensor,
    base: u32,
    scale: u32,
    dimension: u64,
    position_offset: u64,
) -> (r: Result<HostTensor, ReferenceCpuError>)
    requires
        rope_ready(input@, (RopeParams { base, scale, dimension, position_offset })),
    ensures
        rope_gives(ops, input@, (RopeParams { base, scale, dimension, position_offset }), r),
{
    let ghost p = RopeParams { base, scale, dimension, position_offset };
    let (rows, cols) = match input.rows_cols() {
        Ok(dims) => dims,
        Err(e) => {
            return Err(e);
        },
    };
    if dimension == 0 || dimension % 2 != 0 || dimension > cols {
        let mut reason = "RoPE dimension ".to_owned();
        reason.append(decimal_text(dimension).as_str());
        reason.append(" must be positive, even, and at most the row width ");
        reason.append(decimal_text(cols).as_str());
        return Err(ReferenceCpuError::shape(reason));
    }
    if !is_finite(base) || !is_positive(base) {
        return Err(ReferenceCpuError::shape("RoPE base must be finite and positive".to_owned()));
    }
    if !is_finite(scale) || !is_positive(scale) {
        return Err(ReferenceCpuError::shape("RoPE scale must be finite and positive".to_owned()));
    }
    let mut out: Vec<u32> = input.data.clone();
    let half: u64 = dimension / 2;
    let mut row: u64 = 0;
    assert(0 * cols == 0) by (nonlinear_arith);
    assert(out@ =~= input@.data);
    assert(input.data@.len() == input.data.len());
    while row < rows
        invariant
            row <= rows,
            rows == input@.shape[0],
            cols == input@.shape[1],
            p == (RopeParams { base, scale, dimension, position_offset }),
            rope_parameter_refusal(input@.shape, p) is None,
            rope_ready(input@, p),
            half == dimension / 2,
            input@.data.len() <= usize::MAX,
            out@.len() == input@.data.len(),
            forall|i: int| row * cols <= i < out@.len() ==> #[trigger] out@[i] == input@.data[i],
            forall|r: int|
                0 <= r < row ==> #[trigger] rope_row(ops, input@.data, cols as int, p, r, out@),
            forall|r: int, col: int|
                0 <= r < row && dimension <= col < cols && r * cols + col < out@.len()
                    ==> #[trigger] at(out@, cols as int, r, col) == at(
                    input@.data,
                    cols as int,
                    r,
                    col,
                ),
        decreases rows - row,
    {
        proof {
            lemma_at_bounds(rows as int, cols as int, row as int, 0);
            assert(row * cols <= (rows - 1) * cols) by (nonlinear_arith)
                requires
                    row <= rows - 1,
            ;
            if row > 0 {
                assert(cols <= row * cols && row <= row * cols) by (nonlinear_arith)
                    requires
                        1 <= row,
                        1 <= cols,
                ;
            }
        }
        let row_start: usize = if row == 0 {
            0
        } else {
            row as usize * cols as usize
        };
        let count: u32 = ops.from_integer(position_offset + row);
        let position: u32 = ops.mul(count, scale);
        assert(multiplies(ops, count, scale, position));
        assert(positions(ops, (p.position_offset + row) as u64, scale, position));
        let ghost before = out@;
        let mut pair: u64 = 0;
        while pair < half
            invariant
                row < rows,
                pair <= half,
                0 < cols,
                p == (RopeParams { base, scale, dimension, position_offset }),
                half == dimension / 2,
                dimension % 2 == 0,
                dimension <= cols,
                row_start == row * cols,
                row_start + dimension <= out@.len(),
                out@.len() == input@.data.len(),
                before.len() == out@.len(),
                input@.data.len() <= usize::MAX,
                forall|i: int| 0 <= i < row_start ==> #[trigger] out@[i] == before[i],
                forall|i: int|
                    row_start + 2 * pair <= i < out@.len() ==> #[trigger] out@[i] == input@.data[i],
                forall|j: int|
                    0 <= j < pair ==> #[trigger] rope_pair(
                        ops,
                        input@.data,
                        cols as int,
                        p,
                        position,
                        row as int,
                        j,
                        out@,
                    ),
            decreases half - pair,
        {
            let even_index: usize = row_start + 2 * pair as usize;
            let even: u32 = input.data[even_index];
            let odd: u32 = input.data[even_index + 1];
            let (new_even, new_odd): (u32, u32) = rotate(
                ops,
                base,
                dimension,
                position,
                pair,
                even,
                odd,
            );
            let ghost shorter = out@;
            out.set(even_index, new_even);
            out.set(even_index + 1, new_odd);
            proof {
                assert forall|j: int| 0 <= j < pair + 1 implies #[trigger] rope_pair(
                    ops,
                    input@.data,
                    cols as int,
                    p,
                    position,
                    row as int,
                    j,
                    out@,
                ) by {
                    if j < pair {
                        assert(rope_pair(
                            ops,
                            input@.data,
                            cols as int,
                            p,
                            position,
                            row as int,
                            j,
                            shorter,
                        ));
                    }
                }
            }
            pair += 1;
        }
        proof {
            assert(rope_row(ops, input@.data, cols as int, p, row as int, out@));
            assert forall|r: int| 0 <= r < row + 1 implies #[trigger] rope_row(
                ops,
                input@.data,
                cols as int,
                p,
                r,
                out@,
            ) by {
                if r < row {
                    assert forall|col: int| 0 <= col < dimension implies #[trigger] at(
                        before,
                        cols as int,
                        r,
                        col,
                    ) == at(out@, cols as int, r, col) by {
                        lemma_at_bounds(row as int, cols as int, r, col);
                    }
                    lemma_row_same(
                        ops,
                        input@.data,
                        input@.data,
                        cols as int,
                        p,
                        p,
                        r,
                        r,
                        before,
                        out@,
                    );
                }
            }
            assert forall|r: int, col: int|
                0 <= r < row + 1 && dimension <= col < cols && r * cols + col
                    < out@.len() implies #[trigger] at(out@, cols as int, r, col) == at(
                input@.data,
                cols as int,
                r,
                col,
            ) by {
                lemma_at_bounds(row + 1, cols as int, r, col);
                if r < row {
                    lemma_at_bounds(row as int, cols as int, r, col);
                    assert(at(before, cols as int, r, col) == at(out@, cols as int, r, col));
                }
            }
        }
        row += 1;
    }
    let ghost rotated = out@;
    let r = HostTensor::new(input.shape.clone(), out);
    proof {
        if r is Ok {
            lemma_matrix_count(input@.shape);
            assert forall|row: int, col: int|
                0 <= row < rows && dimension <= col < cols implies #[trigger] at(
                rotated,
                cols as int,
                row,
                col,
            ) == at(input@.data, cols as int, row, col) by {
                lemma_at_bounds(rows as int, cols as int, row, col);
            }
        }
    }
    r
}

/// Whether the elements that are rotated are there, and the host can count up
/// to the last position.
pub fn rope_is_ready(
    input: &HostTensor,
    base: u32,
    scale: u32,
    dimension: u64,
    position_offset: u64,
) -> (r: bool)
    ensures
        r == rope_ready(input@, (RopeParams { base, scale, dimension, position_offset })),
{
    if input.shape.len() != 2 {
        return true;
    }
    let rows: u64 = input.shape[0];
    let cols: u64 = input.shape[1];
    if dimension == 0 || dimension % 2 != 0 || dimension > cols {
        return true;
    }
    if !is_finite(base) || !is_positive(base) || !is_finite(scale) || !is_positive(scale) {
        return true;
    }
    if rows == 0 {
        return true;
    }
    if !product_within(rows - 1, cols, input.data.len()) {
        return false;
    }
    let last: u64 = (rows - 1) * cols;
    if dimension > input.data.len() as u64 - last {
        return false;
    }
    match position_offset.checked_add(rows - 1) {
        Some(position) => position <= usize::MAX as u64,
        None => false,
    }
}

/// Incremental decoding: some rows are rotated as those rows alone are, from
/// the position of the first of them.
pub proof fn law_rope_incremental<A: Arithmetic>(
    ops: &A,
    input: Tensor,
    p: RopeParams,
    out: Seq<u32>,
    from: int,
    to: int,
)
    requires
        well_formed(input),
        rope_parameter_refusal(input.shape, p) is None,
        rope_output(ops, input, p, out),
        0 <= from <= to <= input.shape[0],
        p.position_offset + from <= u64::MAX,
    ensures
        rope_output(
            ops,
            matrix_rows(input, from, to),
            (RopeParams { position_offset: (p.position_offset + from) as u64, ..p }),
            out.subrange(from * input.shape[1], to * input.shape[1]),
        ),
{
    let cols = input.shape[1] as int;
    let some = matrix_rows(input, from, to);
    let some_p = RopeParams { position_offset: (p.position_offset + from) as u64, ..p };
    let some_out = out.subrange(from * cols, to * cols);
    lemma_matrix_count(input.shape);
    assert(0 <= from * cols <= to * cols <= input.shape[0] * cols) by (nonlinear_arith)
        requires
            0 <= from <= to <= input.shape[0],
            0 <= cols,
    ;
    assert((to - from) * cols == to * cols - from * cols) by (nonlinear_arith);
    assert forall|row: int, col: int| 0 <= row < to - from && 0 <= col < cols implies #[trigger] at(
        some_out,
        cols,
        row,
        col,
    ) == at(out, cols, from + row, col) && at(some.data, cols, row, col) == at(
        input.data,
        cols,
        from + row,
        col,
    ) by {
        lemma_at_bounds(to - from, cols, row, col);
        assert((from + row) * cols == from * cols + row * cols) by (nonlinear_arith);
    }
    assert forall|row: int| 0 <= row < to - from implies #[trigger] rope_row(
        ops,
        some.data,
        cols,
        some_p,
        row,
        some_out,
    ) by {
        assert(rope_row(ops, input.data, cols, p, from + row, out));
        assert forall|col: int| 0 <= col < p.dimension implies #[trigger] at(
            input.data,
            cols,
            from + row,
            col,
        ) == at(some.data, cols, row, col) by {
            assert(at(some_out, cols, row, col) == at(out, cols, from + row, col));
        }
        assert forall|col: int| 0 <= col < p.dimension implies #[trigger] at(
            out,
            cols,
            from + row,
            col,
        ) == at(some_out, cols, row, col) by {
            assert(at(some_out, cols, row, col) == at(out, cols, from + row, col));
        }
        lemma_row_same(
            ops,
            input.data,
            some.data,
            cols,
            p,
            some_p,
            from + row,
            row,
            out,
            some_out,
        );
    }
    assert forall|row: int, col: int|
        0 <= row < to - from && p.dimension <= col < cols implies #[trigger] at(
        some_out,
        cols,
        row,
        col,
    ) == at(some.data, cols, row, col) by {
        assert(at(some_out, cols, row, col) == at(out, cols, from + row, col));
        lemma_at_bounds(input.shape[0] as int, cols, from + row, col);
        assert(at(out, cols, from + row, col) == at(input.data, cols, from + row, col));
    }
}

/// There is one rotated pair.
proof fn lemma_rotates_once<A: Arithmetic>(
    ops: &A,
    base: u32,
    dimension: u64,
    position: u32,
    pair: u64,
    even: u32,
    odd: u32,
    new_even: u32,
    new_odd: u32,
    new_even2: u32,
    new_odd2: u32,
)
    requires
        single_valued(ops),
        rotates(ops, base, dimension, position, pair, even, odd, new_even, new_odd),
        rotates(ops, base, dimension, position, pair, even, odd, new_even2, new_odd2),
    ensures
        new_even == new_even2,
        new_odd == new_odd2,
{
    let (frequency, angle, sin, cos) = choose|frequency: u32, angle: u32, sin: u32, cos: u32|
        {
            &&& frequencies(ops, base, pair, dimension, frequency)
            &&& #[trigger] multiplies(ops, position, frequency, angle)
            &&& #[trigger] sines(ops, angle, sin, cos)
            &&& crosses_down(ops, even, cos, odd, sin, new_even)
            &&& crosses_up(ops, even, sin, odd, cos, new_odd)
        };
    let (frequency2, angle2, sin2, cos2) = choose|frequency: u32, angle: u32, sin: u32, cos: u32|
        {
            &&& frequencies(ops, base, pair, dimension, frequency)
            &&& #[trigger] multiplies(ops, position, frequency, angle)
            &&& #[trigger] sines(ops, angle, sin, cos)
            &&& crosses_down(ops, even, cos, odd, sin, new_even2)
            &&& crosses_up(ops, even, sin, odd, cos, new_odd2)
        };
    assert(frequency == frequency2);
    assert(angle == angle2);
    assert(sin == sin2 && cos == cos2);
}

/// There is one rotated row.
proof fn lemma_row_once<A: Arithmetic>(
    ops: &A,
    input: Seq<u32>,
    cols: int,
    p: RopeParams,
    row: int,
    out: Seq<u32>,
    out2: Seq<u32>,
    col: int,
)
    requires
        single_valued(ops),
        rope_row(ops, input, cols, p, row, out),
        rope_row(ops, input, cols, p, row, out2),
        p.dimension % 2 == 0,
        0 <= col < p.dimension,
    ensures
        at(out, cols, row, col) == at(out2, cols, row, col),
{
    let position = choose|position: u32|
        {
            &&& #[trigger] positions(ops, (p.position_offset + row) as u64, p.scale, position)
            &&& forall|pair: int|
                0 <= pair < p.dimension as int / 2 ==> #[trigger] rope_pair(
                    ops,
                    input,
                    cols,
                    p,
                    position,
                    row,
                    pair,
                    out,
                )
        };
    let position2 = choose|position: u32|
        {
            &&& #[trigger] positions(ops, (p.position_offset + row) as u64, p.scale, position)
            &&& forall|pair: int|
                0 <= pair < p.dimension as int / 2 ==> #[trigger] rope_pair(
                    ops,
                    input,
                    cols,
                    p,
                    position,
                    row,
                    pair,
                    out2,
                )
        };
    assert(position == position2);
    let pair = col / 2;
    assert(rope_pair(ops, input, cols, p, position, row, pair, out));
    assert(rope_pair(ops, input, cols, p, position, row, pair, out2));
    lemma_rotates_once(
        ops,
        p.base,
        p.dimension,
        position,
        pair as u64,
        at(input, cols, row, 2 * pair),
        at(input, cols, row, 2 * pair + 1),
        at(out, cols, row, 2 * pair),
        at(out, cols, row, 2 * pair + 1),
        at(out2, cols, row, 2 * pair),
        at(out2, cols, row, 2 * pair + 1),
    );
    assert(col == 2 * pair || col == 2 * pair + 1);
}

/// There is one rotated matrix.
proof fn lemma_output_once<A: Arithmetic>(
    ops: &A,
    input: Tensor,
    p: RopeParams,
    out: Seq<u32>,
    out2: Seq<u32>,
)
    requires
        single_valued(ops),
        well_formed(input),
        rope_parameter_refusal(input.shape, p) is None,
        rope_output(ops, input, p, out),
        rope_output(ops, input, p, out2),
    ensures
        out == out2,
{
    let rows = input.shape[0] as int;
    let cols = input.shape[1] as int;
    lemma_matrix_count(input.shape);
    assert forall|row: int, col: int| 0 <= row < rows && 0 <= col < cols implies #[trigger] at(
        out,
        cols,
        row,
        col,
    ) == at(out2, cols, row, col) by {
        assert(rope_row(ops, input.data, cols, p, row, out));
        assert(rope_row(ops, input.data, cols, p, row, out2));
        if col < p.dimension {
            lemma_row_once(ops, input.data, cols, p, row, out, out2, col);
        }
    }
    lemma_rows_make_matrix(out, out2, rows, cols);
}

/// Under an arithmetic with one result for the same operands, rotation has one
/// result.
pub proof fn law_rope_once<A: Arithmetic>(
    ops: &A,
    input: Tensor,
    p: RopeParams,
    r: Result<HostTensor, ReferenceCpuError>,
    r2: Result<HostTensor, ReferenceCpuError>,
)
    requires
        single_valued(ops),
        rope_gives(ops, input, p, r),
        rope_gives(ops, input, p, r2),
    ensures
        same_result(r, r2),
{
    if r is Ok {
        lemma_output_once(ops, input, p, r->Ok_0@.data, r2->Ok_0@.data);
    }
}

/// Incremental decoding: under an arithmetic with one result for the same
/// operands, some rows alone, from the position of the first of them, give the
/// rows that they have in the whole.
pub proof fn law_rope_decode<A: Arithmetic>(
    ops: &A,
    input: Tensor,
    p: RopeParams,
    r: HostTensor,
    from: int,
    to: int,
    s: Result<HostTensor, ReferenceCpuError>,
)
    requires
        single_valued(ops),
        rope_gives(ops, input, p, Ok(r)),
        0 <= from <= to <= input.shape[0],
        p.position_offset + from <= u64::MAX,
        rope_gives(
            ops,
            matrix_rows(input, from, to),
            (RopeParams { position_offset: (p.position_offset + from) as u64, ..p }),
            s,
        ),
    ensures
        s matches Ok(t) && t@ == matrix_rows(r@, from, to),
{
    let cols = input.shape[1] as int;
    let some = matrix_rows(input, from, to);
    let some_p = RopeParams { position_offset: (p.position_offset + from) as u64, ..p };
    let some_out = r@.data.subrange(from * cols, to * cols);
    lemma_matrix_count(input.shape);
    lemma_matrix_count(some.shape);
    assert(0 <= from * cols <= to * cols <= input.shape[0] * cols) by (nonlinear_arith)
        requires
            0 <= from <= to <= input.shape[0],
            0 <= cols,
    ;
    assert((to - from) * cols == to * cols - from * cols) by (nonlinear_arith);
    assert(well_formed(some));
    law_rope_incremental(ops, input, p, r@.data, from, to);
    lemma_output_once(ops, some, some_p, some_out, s->Ok_0@.data);
    assert(s->Ok_0@.shape =~= matrix_rows(r@, from, to).shape);
}

} // verus!
