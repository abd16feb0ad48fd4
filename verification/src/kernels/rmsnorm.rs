//! Root-mean-square normalisation of rows.

use vstd::prelude::*;

use crate::error::{shape_refusal, ReferenceCpuError, Refusal};
use crate::float::{
    adds, converts, divides, is_positive, multiplies, positive, roots, single_valued, Arithmetic,
    ONE,
};
use crate::reduce::{dot, dot_of, lemma_dot_once};
use crate::tensor::{
    at, lemma_at_bounds, lemma_rows_make_matrix, refused, same_extents, same_result,
    tensor_refusal, well_formed, HostTensor, Tensor,
};
use crate::text::{bracketed, bracketed_text, decimal, decimal_text};

verus! {

/// How many rows the elements make, where a row has `cols` elements.
pub open spec fn row_count(input: Tensor, cols: u64) -> u64 {
    (input.data.len() as int / cols as int) as u64
}

/// One weight for each column, shared by all rows.
pub open spec fn weight_per_column(weight: Seq<u64>, cols: u64) -> bool {
    weight == seq![cols] || weight == seq![1u64, cols]
}

/// One weight for each element.
pub open spec fn weight_per_element(input: Tensor, weight: Seq<u64>, cols: u64) -> bool {
    weight == input.shape || weight == seq![row_count(input, cols), cols]
}

/// Why normalisation refuses its parameters, if it does.
pub open spec fn rmsnorm_parameter_refusal(
    input: Tensor,
    weight: Seq<u64>,
    epsilon: u32,
) -> Option<Refusal> {
    let cols = input.shape.last();
    let rows = row_count(input, cols);
    if input.shape.len() == 0 {
        Some(shape_refusal("RMSNorm expects at least one dimension"@))
    } else if cols == 0 {
        Some(shape_refusal("RMSNorm hidden dimension must be non-zero"@))
    } else if input.data.len() as int % cols as int != 0 {
        Some(
            shape_refusal(
                "RMSNorm data length "@ + decimal(input.data.len())
                    + " is not divisible by hidden dimension "@ + decimal(cols as nat),
            ),
        )
    } else if !weight_per_column(weight, cols) && !weight_per_element(input, weight, cols) {
        Some(
            shape_refusal(
                "RMSNorm weight shape must be ["@ + decimal(cols as nat) + "], [1, "@ + decimal(
                    cols as nat,
                ) + "], input shape "@ + bracketed(input.shape) + ", or ["@ + decimal(rows as nat)
                    + ", "@ + decimal(cols as nat) + "], got "@ + bracketed(weight),
            ),
        )
    } else if !positive(epsilon) {
        Some(shape_refusal("RMSNorm epsilon must be positive"@))
    } else {
        None
    }
}

/// Why normalisation refuses, if it does.
pub open spec fn rmsnorm_refusal(input: Tensor, weight: Seq<u64>, epsilon: u32) -> Option<Refusal> {
    if rmsnorm_parameter_refusal(input, weight, epsilon) is Some {
        rmsnorm_parameter_refusal(input, weight, epsilon)
    } else {
        tensor_refusal(input.shape, input.data.len())
    }
}

/// How far apart the weights of two rows are.
pub open spec fn weight_stride(weight: Seq<u64>, cols: u64) -> int {
    if weight_per_column(weight, cols) {
        0
    } else {
        cols as int
    }
}

/// The weights that normalisation reads are there.
pub open spec fn rmsnorm_ready(input: Tensor, weight: Tensor, epsilon: u32) -> bool {
    let cols = input.shape.last();
    rmsnorm_parameter_refusal(input, weight.shape, epsilon) is None && input.data.len() > 0 ==> {
        if weight_per_column(weight.shape, cols) {
            cols <= weight.data.len()
        } else {
            input.data.len() <= weight.data.len()
        }
    }
}

/// `scale` is one over the root of the mean square of a row plus epsilon.
pub open spec fn rms_scales<A: Arithmetic>(
    ops: &A,
    x: Seq<u32>,
    base: int,
    cols: u64,
    epsilon: u32,
    scale: u32,
) -> bool {
    exists|squares: u32, width: u32, mean: u32, shifted: u32, root: u32|
        {
            &&& dot(ops, x, base, 1, x, base, 1, cols as nat, squares)
            &&& converts(ops, cols, width)
            &&& #[trigger] divides(ops, squares, width, mean)
            &&& #[trigger] adds(ops, mean, epsilon, shifted)
            &&& #[trigger] roots(ops, shifted, root)
            &&& divides(ops, ONE, root, scale)
        }
}

/// `r` is `x * scale * weight`, from the left.
pub open spec fn scales_by<A: Arithmetic>(ops: &A, x: u32, scale: u32, weight: u32, r: u32) -> bool {
    exists|scaled: u32|
        multiplies(ops, x, scale, scaled) && #[trigger] multiplies(ops, scaled, weight, r)
}

/// The row `row` of `out` is the normalised row, weighted.
pub open spec fn rms_row<A: Arithmetic>(
    ops: &A,
    input: Tensor,
    weight: Tensor,
    epsilon: u32,
    row: int,
    out: Seq<u32>,
) -> bool {
    let cols = input.shape.last();
    let stride = weight_stride(weight.shape, cols);
    exists|scale: u32|
        {
            &&& #[trigger] rms_scales(ops, input.data, row * cols, cols, epsilon, scale)
            &&& forall|col: int|
                0 <= col < cols ==> scales_by(
                    ops,
                    at(input.data, cols as int, row, col),
                    scale,
                    weight.data[row * stride + col],
                    #[trigger] at(out, cols as int, row, col),
                )
        }
}

/// What normalisation gives.
pub open spec fn rmsnorm_gives<A: Arithmetic>(
    ops: &A,
    input: Tensor,
    weight: Tensor,
    epsilon: u32,
    r: Result<HostTensor, ReferenceCpuError>,
) -> bool {
    &&& refused(r, rmsnorm_refusal(input, weight.shape, epsilon))
    &&& r matches Ok(t) ==> {
        &&& t@.shape == input.shape
        &&& t@.data.len() == input.data.len()
        &&& forall|row: int|
            0 <= row < row_count(input, input.shape.last()) ==> #[trigger] rms_row(
                ops,
                input,
                weight,
                epsilon,
                row,
                t@.data,
            )
        &&& well_formed(t@)
    }
}

/// A normalised row does not depend on what follows it.
proof fn lemma_row_kept<A: Arithmetic>(
    ops: &A,
    input: Tensor,
    weight: Tensor,
    epsilon: u32,
    row: int,
    before: Seq<u32>,
    after: Seq<u32>,
)
    requires
        rms_row(ops, input, weight, epsilon, row, before),
        before.is_prefix_of(after),
        0 <= row,
        (row + 1) * input.shape.last() <= before.len(),
    ensures
        rms_row(ops, input, weight, epsilon, row, after),
{
    let cols = input.shape.last();
    let stride = weight_stride(weight.shape, cols);
    let scale = choose|scale: u32|
        {
            &&& #[trigger] rms_scales(ops, input.data, row * cols, cols, epsilon, scale)
            &&& forall|col: int|
                0 <= col < cols ==> scales_by(
                    ops,
                    at(input.data, cols as int, row, col),
                    scale,
                    weight.data[row * stride + col],
                    #[trigger] at(before, cols as int, row, col),
                )
        };
    assert forall|col: int| 0 <= col < cols implies scales_by(
        ops,
        at(input.data, cols as int, row, col),
        scale,
        weight.data[row * stride + col],
        #[trigger] at(after, cols as int, row, col),
    ) by {
        lemma_at_bounds(row + 1, cols as int, row, col);
        assert(at(after, cols as int, row, col) == at(before, cols as int, row, col));
    }
    assert(rms_scales(ops, input.data, row * cols, cols, epsilon, scale));
}

/// Scales each row by one over the root of its mean square plus `epsilon`, and
/// multiplies it by the weights.
pub fn rmsnorm<A: Arithmetic>(
    ops: &A,
    input: &HostTensor,
    weight: &HostTensor,
    epsilon: u32,
) -> (r: Result<HostTensor, ReferenceCpuError>)
    requires
        rmsnorm_ready(input@, weight@, epsilon),
    ensures
        rmsnorm_gives(ops, input@, weight@, epsilon, r),
{
    if input.shape.len() == 0 {
        return Err(ReferenceCpuError::shape("RMSNorm expects at least one dimension".to_owned()));
    }
    let cols: u64 = input.shape[input.shape.len() - 1];
    if cols == 0 {
        return Err(
            ReferenceCpuError::shape("RMSNorm hidden dimension must be non-zero".to_owned()),
        );
    }
    let len: u64 = input.data.len() as u64;
    if len % cols != 0 {
        let mut reason = "RMSNorm data length ".to_owned();
        reason.append(decimal_text(len).as_str());
        reason.append(" is not divisible by hidden dimension ");
        reason.append(decimal_text(cols).as_str());
        return Err(ReferenceCpuError::shape(reason));
    }
    let rows: u64 = len / cols;
    assert(rows == row_count(input@, cols));
    let column_weights: Vec<u64> = vec![cols];
    let row_weights: Vec<u64> = vec![1, cols];
    let matrix_weights: Vec<u64> = vec![rows, cols];
    proof {
        assert(column_weights@ =~= seq![cols]);
        assert(row_weights@ =~= seq![1u64, cols]);
        assert(matrix_weights@ =~= seq![rows, cols]);
    }
    let stride: u64 = if same_extents(&weight.shape, &column_weights) || same_extents(
        &weight.shape,
        &row_weights,
    ) {
        0
    } else if same_extents(&weight.shape, &input.shape) || same_extents(
        &weight.shape,
        &matrix_weights,
    ) {
        cols
    } else {
        let mut reason = "RMSNorm weight shape must be [".to_owned();
        reason.append(decimal_text(cols).as_str());
        reason.append("], [1, ");
        reason.append(decimal_text(cols).as_str());
        reason.append("], input shape ");
        reason.append(bracketed_text(&input.shape).as_str());
        reason.append(", or [");
        reason.append(decimal_text(rows).as_str());
        reason.append(", ");
        reason.append(decimal_text(cols).as_str());
        reason.append("], got ");
        reason.append(bracketed_text(&weight.shape).as_str());
        return Err(ReferenceCpuError::shape(reason));
    };
    if !is_positive(epsilon) {
        return Err(ReferenceCpuError::shape("RMSNorm epsilon must be positive".to_owned()));
    }
    let mut out: Vec<u32> = Vec::new();
    let mut row: u64 = 0;
    proof {
        vstd::arithmetic::div_mod::lemma_fundamental_div_mod(len as int, cols as int);
        assert(cols * rows == rows * cols) by (nonlinear_arith);
        assert(0 * cols == 0) by (nonlinear_arith);
    }
    while row < rows
        invariant
            row <= rows,
            0 < cols,
            cols == input@.shape.last(),
            rows == row_count(input@, cols),
            rows * cols == input@.data.len(),
            input@.data.len() <= usize::MAX,
            rmsnorm_parameter_refusal(input@, weight@.shape, epsilon) is None,
            rmsnorm_ready(input@, weight@, epsilon),
            stride == weight_stride(weight@.shape, cols),
            out@.len() == row * cols,
            forall|i: int|
                0 <= i < row ==> #[trigger] rms_row(ops, input@, weight@, epsilon, i, out@),
        decreases rows - row,
    {
        proof {
            lemma_at_bounds(rows as int, cols as int, row as int, 0);
            assert(cols <= rows * cols) by (nonlinear_arith)
                requires
                    1 <= rows,
                    0 < cols,
            ;
            assert(rows <= rows * cols) by (nonlinear_arith)
                requires
                    0 < cols,
            ;
            assert(row * 0 == 0) by (nonlinear_arith);
            assert(weight.data@.len() == weight.data.len());
        }
        let width: usize = cols as usize;
        let base: usize = row as usize * width;
        let weight_base: usize = row as usize * stride as usize;
        let squares: u32 = dot_of(ops, &input.data, base, 1, &input.data, base, 1, width);
        let count: u32 = ops.from_integer(cols);
        let mean: u32 = ops.div(squares, count);
        let shifted: u32 = ops.add(mean, epsilon);
        let root: u32 = ops.sqrt(shifted);
        let scale: u32 = ops.div(ONE, root);
        assert(rms_scales(ops, input@.data, row * cols, cols, epsilon, scale)) by {
            assert(divides(ops, squares, count, mean));
            assert(adds(ops, mean, epsilon, shifted));
            assert(roots(ops, shifted, root));
        }
        let ghost before = out@;
        let mut col: usize = 0;
        while col < width
            invariant
                row < rows,
                col <= width,
                width == cols,
                base == row * cols,
                base + width <= input@.data.len(),
                weight_base == row * stride,
                weight_base + width <= weight@.data.len(),
                weight@.data.len() <= usize::MAX,
                input@.data.len() <= usize::MAX,
                before.len() == row * cols,
                out@.len() == before.len() + col,
                before.is_prefix_of(out@),
                forall|c: int|
                    0 <= c < col ==> scales_by(
                        ops,
                        at(input@.data, cols as int, row as int, c),
                        scale,
                        weight@.data[row * stride + c],
                        #[trigger] at(out@, cols as int, row as int, c),
                    ),
            decreases width - col,
        {
            let scaled: u32 = ops.mul(input.data[base + col], scale);
            let value: u32 = ops.mul(scaled, weight.data[weight_base + col]);
            assert(multiplies(ops, scaled, weight@.data[weight_base + col], value));
            let ghost shorter = out@;
            out.push(value);
            proof {
                assert forall|c: int| 0 <= c < col + 1 implies scales_by(
                    ops,
                    at(input@.data, cols as int, row as int, c),
                    scale,
                    weight@.data[row * stride + c],
                    #[trigger] at(out@, cols as int, row as int, c),
                ) by {
                    if c < col {
                        assert(at(out@, cols as int, row as int, c) == at(
                            shorter,
                            cols as int,
                            row as int,
                            c,
                        ));
                    }
                }
            }
            col += 1;
        }
        proof {
            assert forall|i: int| 0 <= i < row + 1 implies #[trigger] rms_row(
                ops,
                input@,
                weight@,
                epsilon,
                i,
                out@,
            ) by {
                if i < row {
                    lemma_at_bounds(row as int, cols as int, i, 0);
                    lemma_row_kept(ops, input@, weight@, epsilon, i, before, out@);
                }
            }
        }
        row += 1;
    }
    HostTensor::new(input.shape.clone(), out)
}

/// Whether the weights that normalisation reads are there.
pub fn rmsnorm_is_ready(input: &HostTensor, weight: &HostTensor, epsilon: u32) -> (r: bool)
    ensures
        r == rmsnorm_ready(input@, weight@, epsilon),
{
    if input.shape.len() == 0 || input.data.len() == 0 || !is_positive(epsilon) {
        return true;
    }
    let cols: u64 = input.shape[input.shape.len() - 1];
    let len: u64 = input.data.len() as u64;
    if cols == 0 || len % cols != 0 {
        return true;
    }
    let rows: u64 = len / cols;
    assert(rows == row_count(input@, cols));
    let column_weights: Vec<u64> = vec![cols];
    let row_weights: Vec<u64> = vec![1, cols];
    let matrix_weights: Vec<u64> = vec![rows, cols];
    proof {
        assert(column_weights@ =~= seq![cols]);
        assert(row_weights@ =~= seq![1u64, cols]);
        assert(matrix_weights@ =~= seq![rows, cols]);
    }
    if same_extents(&weight.shape, &column_weights) || same_extents(&weight.shape, &row_weights) {
        cols <= weight.data.len() as u64
    } else if same_extents(&weight.shape, &input.shape) || same_extents(
        &weight.shape,
        &matrix_weights,
    ) {
        input.data.len() <= weight.data.len()
    } else {
        true
    }
}

/// There is one scale of a row.
proof fn lemma_scale_once<A: Arithmetic>(
    ops: &A,
    x: Seq<u32>,
    base: int,
    cols: u64,
    epsilon: u32,
    scale: u32,
    scale2: u32,
)
    requires
        single_valued(ops),
        rms_scales(ops, x, base, cols, epsilon, scale),
        rms_scales(ops, x, base, cols, epsilon, scale2),
    ensures
        scale == scale2,
{
    let (squares, width, mean, shifted, root) = choose|
        squares: u32,
        width: u32,
        mean: u32,
        shifted: u32,
        root: u32,
    |
        {
            &&& dot(ops, x, base, 1, x, base, 1, cols as nat, squares)
            &&& converts(ops, cols, width)
            &&& #[trigger] divides(ops, squares, width, mean)
            &&& #[trigger] adds(ops, mean, epsilon, shifted)
            &&& #[trigger] roots(ops, shifted, root)
            &&& divides(ops, ONE, root, scale)
        };
    let (squares2, width2, mean2, shifted2, root2) = choose|
        squares: u32,
        width: u32,
        mean: u32,
        shifted: u32,
        root: u32,
    |
        {
            &&& dot(ops, x, base, 1, x, base, 1, cols as nat, squares)
            &&& converts(ops, cols, width)
            &&& #[trigger] divides(ops, squares, width, mean)
            &&& #[trigger] adds(ops, mean, epsilon, shifted)
            &&& #[trigger] roots(ops, shifted, root)
            &&& divides(ops, ONE, root, scale2)
        };
    lemma_dot_once(ops, x, base, 1, x, base, 1, cols as nat, squares, squares2);
    assert(width == width2);
    assert(mean == mean2);
    assert(shifted == shifted2);
    assert(root == root2);
}

/// There is one normalised row.
proof fn lemma_row_once<A: Arithmetic>(
    ops: &A,
    input: Tensor,
    weight: Tensor,
    epsilon: u32,
    row: int,
    out: Seq<u32>,
    out2: Seq<u32>,
    col: int,
)
    requires
        single_valued(ops),
        rms_row(ops, input, weight, epsilon, row, out),
        rms_row(ops, input, weight, epsilon, row, out2),
        0 <= col < input.shape.last(),
    ensures
        at(out, input.shape.last() as int, row, col) == at(
            out2,
            input.shape.last() as int,
            row,
            col,
        ),
{
    let cols = input.shape.last();
    let stride = weight_stride(weight.shape, cols);
    let scale = choose|scale: u32|
        {
            &&& #[trigger] rms_scales(ops, input.data, row * cols, cols, epsilon, scale)
            &&& forall|col: int|
                0 <= col < cols ==> scales_by(
                    ops,
                    at(input.data, cols as int, row, col),
                    scale,
                    weight.data[row * stride + col],
                    #[trigger] at(out, cols as int, row, col),
                )
        };
    let scale2 = choose|scale: u32|
        {
            &&& #[trigger] rms_scales(ops, input.data, row * cols, cols, epsilon, scale)
            &&& forall|col: int|
                0 <= col < cols ==> scales_by(
                    ops,
                    at(input.data, cols as int, row, col),
                    scale,
                    weight.data[row * stride + col],
                    #[trigger] at(out2, cols as int, row, col),
                )
        };
    lemma_scale_once(ops, input.data, row * cols, cols, epsilon, scale, scale2);
    let x = at(input.data, cols as int, row, col);
    let w = weight.data[row * stride + col];
    assert(scales_by(ops, x, scale, w, at(out, cols as int, row, col)));
    assert(scales_by(ops, x, scale, w, at(out2, cols as int, row, col)));
}

/// Under an arithmetic with one result for the same operands, normalisation has
/// one result.
pub proof fn law_rmsnorm_once<A: Arithmetic>(
    ops: &A,
    input: Tensor,
    weight: Tensor,
    epsilon: u32,
    r: Result<HostTensor, ReferenceCpuError>,
    r2: Result<HostTensor, ReferenceCpuError>,
)
    requires
        single_valued(ops),
        rmsnorm_gives(ops, input, weight, epsilon, r),
        rmsnorm_gives(ops, input, weight, epsilon, r2),
    ensures
        same_result(r, r2),
{
    if r is Ok {
        let out = r->Ok_0@.data;
        let out2 = r2->Ok_0@.data;
        let cols = input.shape.last() as int;
        let rows = input.data.len() as int / cols;
        vstd::arithmetic::div_mod::lemma_fundamental_div_mod(input.data.len() as int, cols);
        assert(cols * rows == rows * cols) by (nonlinear_arith);
        assert(0 <= rows <= rows * cols) by (nonlinear_arith)
            requires
                1 <= cols,
                0 <= rows * cols,
        ;
        assert forall|row: int, col: int| 0 <= row < rows && 0 <= col < cols implies #[trigger] at(
            out,
            cols,
            row,
            col,
        ) == at(out2, cols, row, col) by {
            assert(rms_row(ops, input, weight, epsilon, row, out));
            assert(rms_row(ops, input, weight, epsilon, row, out2));
            lemma_row_once(ops, input, weight, epsilon, row, out, out2, col);
        }
        lemma_rows_make_matrix(out, out2, rows, cols);
    }
}

} // verus!
