//! What a matrix product promises of an element: the products of its row and
//! its column, all of them, from the left.

use vstd::prelude::*;

use crate::error::ReferenceCpuError;
use crate::float::{adds, finite, multiplies, Arithmetic, ZERO};
use crate::kernels::matmul::{matmul_cell, matmul_gives};
use crate::kernels::rmsnorm_laws::lemma_partial_products;
use crate::reals::{exact, held, lemma_exact_products, product_series};
use crate::tensor::{at, HostTensor, Tensor};

verus! {

/// How an element comes about: row `row` of the first matrix and column `col` of
/// the second are multiplied element by element, and the products are added to
/// zero from the left. A transposed matrix is read with row and column swapped.
///
/// So where the products and the partial sums are numbers that some bits stand
/// for, the element is the sum of the products.
///
/// The products and their partial sums are handed out.
pub proof fn law_matmul_element<A: Arithmetic>(
    ops: &A,
    a: Tensor,
    b: Tensor,
    transpose_a: bool,
    transpose_b: bool,
    r: HostTensor,
    row: int,
    col: int,
) -> (w: (Seq<u32>, Seq<u32>))
    requires
        matmul_gives(ops, a, b, transpose_a, transpose_b, Ok(r)),
        0 <= row < if transpose_a {
            a.shape[1]
        } else {
            a.shape[0]
        },
        0 <= col < if transpose_b {
            b.shape[0]
        } else {
            b.shape[1]
        },
    ensures
        ({
            let (products, sums) = w;
            let (m, k) = if transpose_a {
                (a.shape[1], a.shape[0])
            } else {
                (a.shape[0], a.shape[1])
            };
            let n = if transpose_b {
                b.shape[0]
            } else {
                b.shape[1]
            };
            let left = |i: int|
                a.data[if transpose_a {
                    i * a.shape[1] + row
                } else {
                    row * a.shape[1] + i
                }];
            let right = |i: int|
                b.data[if transpose_b {
                    col * b.shape[1] + i
                } else {
                    i * b.shape[1] + col
                }];
            &&& r@.shape == seq![m, n]
            &&& r@.data.len() == m * n
            &&& products.len() == k && sums.len() == k + 1
            &&& sums[0] == ZERO
            &&& sums[k as int] == r@.data[row * n + col]
            &&& forall|i: int|
                0 <= i < k ==> {
                    &&& multiplies(ops, left(i), right(i), #[trigger] products[i])
                    &&& adds(ops, sums[i], products[i], sums[i + 1])
                }
            &&& forall|value: spec_fn(u32) -> real|
                {
                    &&& #[trigger] exact(ops, value)
                    &&& forall|i: int|
                        0 <= i < k ==> {
                            &&& finite(#[trigger] left(i)) && finite(right(i))
                            &&& held(value, value(left(i)) * value(right(i)))
                        }
                    &&& forall|i: nat|
                        i <= k ==> held(value, #[trigger] product_series(value, left, right, i))
                } ==> value(r@.data[row * n + col]) == product_series(
                    value,
                    left,
                    right,
                    k as nat,
                )
        }),
{
    let k = if transpose_a {
        a.shape[0]
    } else {
        a.shape[1]
    };
    let n = if transpose_b {
        b.shape[0]
    } else {
        b.shape[1]
    };
    let left = |i: int|
        a.data[if transpose_a {
            i * a.shape[1] + row
        } else {
            row * a.shape[1] + i
        }];
    let right = |i: int|
        b.data[if transpose_b {
            col * b.shape[1] + i
        } else {
            i * b.shape[1] + col
        }];
    let r_element = at(r@.data, n as int, row, col);
    assert(matmul_cell(ops, a, b, transpose_a, transpose_b, row, col, k as nat, r_element));
    let (ra, ca) = if transpose_a {
        (1, a.shape[1] as int)
    } else {
        (a.shape[1] as int, 1)
    };
    let (rb, cb) = if transpose_b {
        (1, b.shape[1] as int)
    } else {
        (b.shape[1] as int, 1)
    };
    let (products, sums) = lemma_partial_products(
        ops,
        a.data,
        row * ra,
        ca,
        b.data,
        col * cb,
        rb,
        k as nat,
        r_element,
    );
    assert forall|i: int| 0 <= i < k implies {
        &&& multiplies(ops, left(i), right(i), #[trigger] products[i])
        &&& adds(ops, sums[i], products[i], sums[i + 1])
    } by {
        assert(row * 1 == row && col * 1 == col && i * 1 == i) by (nonlinear_arith);
        assert(a.data[row * ra + i * ca] == left(i));
        assert(b.data[col * cb + i * rb] == right(i));
    }
    assert forall|value: spec_fn(u32) -> real|
        {
            &&& #[trigger] exact(ops, value)
            &&& forall|i: int|
                0 <= i < k ==> {
                    &&& finite(#[trigger] left(i)) && finite(right(i))
                    &&& held(value, value(left(i)) * value(right(i)))
                }
            &&& forall|i: nat|
                i <= k ==> held(value, #[trigger] product_series(value, left, right, i))
        } implies value(r_element) == product_series(value, left, right, k as nat) by {
        lemma_exact_products(ops, value, left, right, products, sums, k as nat);
    }
    (products, sums)
}

/// A product is taken exactly where both operands are matrices and a row of the
/// first is as long as a column of the second.
pub proof fn law_matmul_taken<A: Arithmetic>(
    ops: &A,
    a: Tensor,
    b: Tensor,
    transpose_a: bool,
    transpose_b: bool,
    r: Result<HostTensor, ReferenceCpuError>,
)
    requires
        matmul_gives(ops, a, b, transpose_a, transpose_b, r),
    ensures
        r is Ok <==> {
            &&& a.shape.len() == 2
            &&& b.shape.len() == 2
            &&& a.shape[if transpose_a {
                0
            } else {
                1
            }] == b.shape[if transpose_b {
                1
            } else {
                0
            }]
        },
{
}

} // verus!
