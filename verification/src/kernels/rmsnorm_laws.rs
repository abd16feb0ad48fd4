//! What normalisation promises of a row: its own mean square, its own weights,
//! and no other row.

use vstd::prelude::*;

use crate::error::ReferenceCpuError;
use crate::float::{
    adds, converts, divides, finite, multiplies, roots, single_valued, Arithmetic, ONE, ZERO,
};
use crate::kernels::rmsnorm::{
    rms_row, rms_scales, rmsnorm_gives, row_count, scales_by, weight_stride,
};
use crate::reals::{lemma_inverse_root, most, rounds};
use crate::reduce::{dot, lemma_dot_once, lemma_dot_same};
use crate::tensor::{at, well_formed, HostTensor, Tensor};

verus! {

/// The products that a sum of products adds, and its partial sums from zero to
/// the whole.
pub proof fn lemma_partial_products<A: Arithmetic>(
    ops: &A,
    x: Seq<u32>,
    x0: int,
    xs: int,
    y: Seq<u32>,
    y0: int,
    ys: int,
    n: nat,
    r: u32,
) -> (w: (Seq<u32>, Seq<u32>))
    requires
        dot(ops, x, x0, xs, y, y0, ys, n, r),
    ensures
        ({
            let (products, sums) = w;
            &&& products.len() == n && sums.len() == n + 1
            &&& sums[0] == ZERO
            &&& sums[n as int] == r
            &&& forall|i: int|
                0 <= i < n ==> {
                    &&& multiplies(ops, x[x0 + i * xs], y[y0 + i * ys], #[trigger] products[i])
                    &&& adds(ops, sums[i], products[i], sums[i + 1])
                }
        }),
    decreases n,
{
    if n == 0 {
        (seq![], seq![ZERO])
    } else {
        let (sum, product) = choose|sum: u32, product: u32|
            {
                &&& dot(ops, x, x0, xs, y, y0, ys, (n - 1) as nat, sum)
                &&& multiplies(ops, x[x0 + (n - 1) * xs], y[y0 + (n - 1) * ys], product)
                &&& #[trigger] adds(ops, sum, product, r)
            };
        let (before, sums_before) = lemma_partial_products(
            ops,
            x,
            x0,
            xs,
            y,
            y0,
            ys,
            (n - 1) as nat,
            sum,
        );
        let products = before.push(product);
        let sums = sums_before.push(r);
        assert forall|i: int| 0 <= i < n implies {
            &&& multiplies(ops, x[x0 + i * xs], y[y0 + i * ys], #[trigger] products[i])
            &&& adds(ops, sums[i], products[i], sums[i + 1])
        } by {
            if i < n - 1 {
                assert(before[i] == products[i]);
            }
        }
        (products, sums)
    }
}

/// How a row comes about: the squares of its own elements are added from the
/// left, all of them, and divided by how many there are; epsilon is added, the
/// root taken, and each element multiplied by one over the root and then by its
/// weight. The weights are one for each column, or one for each element.
///
/// So what the elements are multiplied by is, by itself and by the mean square
/// with epsilon, one, up to rounding.
///
/// The squares, their partial sums, the width, the mean, the mean and epsilon,
/// the root, one over it and the scaled elements are handed out.
pub proof fn law_rmsnorm_row<A: Arithmetic>(
    ops: &A,
    input: Tensor,
    weight: Tensor,
    epsilon: u32,
    r: HostTensor,
    row: int,
) -> (w: (Seq<u32>, Seq<u32>, (u32, u32, u32, u32, u32), Seq<u32>))
    requires
        rmsnorm_gives(ops, input, weight, epsilon, Ok(r)),
        0 <= row,
        (row + 1) * input.shape.last() <= input.data.len(),
    ensures
        ({
            let (squares, sums, (width, mean, shifted, root, scale), scaled) = w;
            let cols = input.shape.last() as int;
            let x = |col: int| input.data[row * cols + col];
            let per_column = weight.shape == seq![cols as u64] || weight.shape == seq![
                1u64,
                cols as u64,
            ];
            &&& r@.shape == input.shape
            &&& r@.data.len() == input.data.len()
            &&& 0 < cols
            &&& squares.len() == cols && sums.len() == cols + 1 && scaled.len() == cols
            &&& sums[0] == ZERO
            &&& converts(ops, cols as u64, width)
            &&& divides(ops, sums[cols], width, mean)
            &&& adds(ops, mean, epsilon, shifted)
            &&& roots(ops, shifted, root)
            &&& divides(ops, ONE, root, scale)
            &&& forall|col: int|
                0 <= col < cols ==> {
                    &&& multiplies(ops, #[trigger] x(col), x(col), squares[col])
                    &&& adds(ops, sums[col], squares[col], sums[col + 1])
                    &&& multiplies(ops, x(col), scale, scaled[col])
                    &&& multiplies(
                        ops,
                        scaled[col],
                        if per_column {
                            weight.data[col]
                        } else {
                            weight.data[row * cols + col]
                        },
                        r@.data[row * cols + col],
                    )
                }
            &&& forall|value: spec_fn(u32) -> real, unit: real, least: real|
                {
                    &&& #[trigger] rounds(ops, value, unit, least)
                    &&& finite(shifted)
                    &&& 0real < value(shifted)
                    &&& 1real <= (1real - unit) * (1real - unit) * value(shifted) * most() * most()
                } ==> {
                    let s = value(scale);
                    let off = unit + least * value(root);
                    &&& s * s * value(shifted) * ((1real - unit) * (1real - unit)) <= (1real + off)
                        * (1real + off)
                    &&& off <= 1real ==> (1real - off) * (1real - off) <= s * s * value(shifted) * (
                    (1real + unit) * (1real + unit))
                }
        }),
{
    let cols = input.shape.last() as int;
    let c = input.shape.last();
    let stride = weight_stride(weight.shape, c);
    lemma_row_there(input, row);
    assert(rms_row(ops, input, weight, epsilon, row, r@.data));
    let scale = choose|scale: u32|
        {
            &&& #[trigger] rms_scales(ops, input.data, row * c, c, epsilon, scale)
            &&& forall|col: int|
                0 <= col < c ==> scales_by(
                    ops,
                    at(input.data, c as int, row, col),
                    scale,
                    weight.data[row * stride + col],
                    #[trigger] at(r@.data, c as int, row, col),
                )
        };
    let (total, width, mean, shifted, root) = choose|
        squares: u32,
        width: u32,
        mean: u32,
        shifted: u32,
        root: u32,
    |
        {
            &&& dot(ops, input.data, row * c, 1, input.data, row * c, 1, c as nat, squares)
            &&& converts(ops, c, width)
            &&& #[trigger] divides(ops, squares, width, mean)
            &&& #[trigger] adds(ops, mean, epsilon, shifted)
            &&& #[trigger] roots(ops, shifted, root)
            &&& divides(ops, ONE, root, scale)
        };
    let (squares, sums) = lemma_partial_products(
        ops,
        input.data,
        row * cols,
        1,
        input.data,
        row * cols,
        1,
        cols as nat,
        total,
    );
    let weights = |col: int| weight.data[row * stride + col];
    let scaled = Seq::new(
        cols as nat,
        |col: int|
            choose|s: u32|
                multiplies(ops, at(input.data, cols, row, col), scale, s) && #[trigger] multiplies(
                    ops,
                    s,
                    weights(col),
                    at(r@.data, cols, row, col),
                ),
    );
    assert forall|col: int| 0 <= col < cols implies {
        let x = #[trigger] input.data[row * cols + col];
        &&& multiplies(ops, x, x, squares[col])
        &&& adds(ops, sums[col], squares[col], sums[col + 1])
        &&& multiplies(ops, x, scale, scaled[col])
        &&& multiplies(ops, scaled[col], weights(col), r@.data[row * cols + col])
    } by {
        assert(input.data[row * cols + col * 1] == input.data[row * cols + col]);
        assert(multiplies(
            ops,
            input.data[row * cols + col * 1],
            input.data[row * cols + col * 1],
            squares[col],
        ));
        assert(scales_by(
            ops,
            at(input.data, cols, row, col),
            scale,
            weights(col),
            at(r@.data, cols, row, col),
        ));
    }
    assert(row * 0 == 0) by (nonlinear_arith);
    assert forall|value: spec_fn(u32) -> real, unit: real, least: real|
        {
            &&& #[trigger] rounds(ops, value, unit, least)
            &&& finite(shifted)
            &&& 0real < value(shifted)
            &&& 1real <= (1real - unit) * (1real - unit) * value(shifted) * most() * most()
        } implies {
        let s = value(scale);
        let off = unit + least * value(root);
        &&& s * s * value(shifted) * ((1real - unit) * (1real - unit)) <= (1real + off) * (1real
            + off)
        &&& off <= 1real ==> (1real - off) * (1real - off) <= s * s * value(shifted) * ((1real
            + unit) * (1real + unit))
    } by {
        lemma_inverse_root(ops, value, unit, least, shifted, root, scale);
    }
    (squares, sums, (width, mean, shifted, root, scale), scaled)
}

/// A row that is there is counted.
proof fn lemma_row_there(input: Tensor, row: int)
    requires
        0 < input.shape.last(),
        0 <= row,
        (row + 1) * input.shape.last() <= input.data.len(),
        input.data.len() <= u64::MAX,
    ensures
        row < row_count(input, input.shape.last()),
{
    let cols = input.shape.last() as int;
    let len = input.data.len() as int;
    vstd::arithmetic::div_mod::lemma_fundamental_div_mod(len, cols);
    assert(row < len / cols) by (nonlinear_arith)
        requires
            len == cols * (len / cols) + len % cols,
            0 <= len % cols < cols,
            (row + 1) * cols <= len,
            0 < cols,
    ;
    assert(len / cols <= len) by (nonlinear_arith)
        requires
            len == cols * (len / cols) + len % cols,
            0 <= len % cols,
            1 <= cols,
            0 <= len,
    ;
}

/// Each row is normalised by its own elements and weights, and by nothing else:
/// under an arithmetic with one result for the same operands, rows with equal
/// elements and weights give equal rows, in whatever tensor and place they
/// stand, and whether the weights are given once or for each row.
pub proof fn law_rmsnorm_row_alone<A: Arithmetic>(
    ops: &A,
    input: Tensor,
    weight: Tensor,
    r: HostTensor,
    row: int,
    input2: Tensor,
    weight2: Tensor,
    r2: HostTensor,
    row2: int,
    epsilon: u32,
)
    requires
        single_valued(ops),
        rmsnorm_gives(ops, input, weight, epsilon, Ok(r)),
        rmsnorm_gives(ops, input2, weight2, epsilon, Ok(r2)),
        0 <= row,
        0 <= row2,
        (row + 1) * input.shape.last() <= input.data.len(),
        (row2 + 1) * input2.shape.last() <= input2.data.len(),
        input2.shape.last() == input.shape.last(),
        ({
            let cols = input.shape.last() as int;
            let once = |shape: Seq<u64>| shape == seq![cols as u64] || shape == seq![
                1u64,
                cols as u64,
            ];
            let base = if once(weight.shape) {
                0
            } else {
                row * cols
            };
            let base2 = if once(weight2.shape) {
                0
            } else {
                row2 * cols
            };
            forall|col: int|
                0 <= col < cols ==> {
                    &&& #[trigger] input.data[row * cols + col] == input2.data[row2 * cols + col]
                    &&& weight.data[base + col] == weight2.data[base2 + col]
                }
        }),
    ensures
        forall|col: int|
            0 <= col < input.shape.last() ==> #[trigger] r@.data[row * input.shape.last() + col]
                == r2@.data[row2 * input.shape.last() + col],
{
    let cols = input.shape.last() as int;
    let c = input.shape.last();
    let stride = weight_stride(weight.shape, c);
    let stride2 = weight_stride(weight2.shape, c);
    assert(row * 0 == 0 && row2 * 0 == 0) by (nonlinear_arith);
    lemma_row_there(input, row);
    lemma_row_there(input2, row2);
    assert(rms_row(ops, input, weight, epsilon, row, r@.data));
    assert(rms_row(ops, input2, weight2, epsilon, row2, r2@.data));
    let scale = choose|scale: u32|
        {
            &&& #[trigger] rms_scales(ops, input.data, row * c, c, epsilon, scale)
            &&& forall|col: int|
                0 <= col < c ==> scales_by(
                    ops,
                    at(input.data, c as int, row, col),
                    scale,
                    weight.data[row * stride + col],
                    #[trigger] at(r@.data, c as int, row, col),
                )
        };
    let scale2 = choose|scale: u32|
        {
            &&& #[trigger] rms_scales(ops, input2.data, row2 * c, c, epsilon, scale)
            &&& forall|col: int|
                0 <= col < c ==> scales_by(
                    ops,
                    at(input2.data, c as int, row2, col),
                    scale,
                    weight2.data[row2 * stride2 + col],
                    #[trigger] at(r2@.data, c as int, row2, col),
                )
        };
    let (squares, width, mean, shifted, root) = choose|
        squares: u32,
        width: u32,
        mean: u32,
        shifted: u32,
        root: u32,
    |
        {
            &&& dot(ops, input.data, row * c, 1, input.data, row * c, 1, c as nat, squares)
            &&& converts(ops, c, width)
            &&& #[trigger] divides(ops, squares, width, mean)
            &&& #[trigger] adds(ops, mean, epsilon, shifted)
            &&& #[trigger] roots(ops, shifted, root)
            &&& divides(ops, ONE, root, scale)
        };
    let (squares2, width2, mean2, shifted2, root2) = choose|
        squares: u32,
        width: u32,
        mean: u32,
        shifted: u32,
        root: u32,
    |
        {
            &&& dot(ops, input2.data, row2 * c, 1, input2.data, row2 * c, 1, c as nat, squares)
            &&& converts(ops, c, width)
            &&& #[trigger] divides(ops, squares, width, mean)
            &&& #[trigger] adds(ops, mean, epsilon, shifted)
            &&& #[trigger] roots(ops, shifted, root)
            &&& divides(ops, ONE, root, scale2)
        };
    let x0 = row * cols;
    let x20 = row2 * cols;
    assert forall|i: int| 0 <= i < cols implies input.data[#[trigger] (x0 + i * 1)]
        == input2.data[x20 + i * 1] by {
        assert(input.data[row * cols + i] == input2.data[row2 * cols + i]);
    }
    lemma_dot_same(
        ops,
        input.data,
        x0,
        1,
        input2.data,
        x20,
        1,
        input.data,
        x0,
        1,
        input2.data,
        x20,
        1,
        cols as nat,
        squares,
    );
    lemma_dot_once(ops, input2.data, x20, 1, input2.data, x20, 1, cols as nat, squares, squares2);
    assert(width == width2);
    assert(mean == mean2);
    assert(shifted == shifted2);
    assert(root == root2);
    assert(scale == scale2);
    assert forall|col: int| 0 <= col < cols implies #[trigger] r@.data[row * cols + col]
        == r2@.data[row2 * cols + col] by {
        let x = input.data[row * cols + col];
        assert(x == input2.data[row2 * cols + col]);
        let w = weight.data[row * stride + col];
        assert(w == weight2.data[row2 * stride2 + col]);
        assert(at(r@.data, cols, row, col) == r@.data[row * cols + col]);
        assert(at(r2@.data, cols, row2, col) == r2@.data[row2 * cols + col]);
        assert(scales_by(ops, x, scale, w, at(r@.data, cols, row, col)));
        assert(scales_by(ops, x, scale, w, at(r2@.data, cols, row2, col)));
    }
}

/// Normalisation is taken exactly where a row is not empty, the elements make
/// whole rows, there is one weight for each column or for each element, and
/// epsilon is positive.
pub proof fn law_rmsnorm_taken<A: Arithmetic>(
    ops: &A,
    input: Tensor,
    weight: Tensor,
    epsilon: u32,
    r: Result<HostTensor, ReferenceCpuError>,
)
    requires
        well_formed(input),
        rmsnorm_gives(ops, input, weight, epsilon, r),
    ensures
        r is Ok <==> {
            let cols = input.shape.last();
            &&& 0 < input.shape.len()
            &&& 0 < cols
            &&& input.data.len() as int % cols as int == 0
            &&& {
                ||| weight.shape == seq![cols]
                ||| weight.shape == seq![1u64, cols]
                ||| weight.shape == input.shape
                ||| weight.shape == seq![(input.data.len() as int / cols as int) as u64, cols]
            }
            &&& 0 < epsilon <= 0x7F80_0000
        },
{
}

} // verus!
