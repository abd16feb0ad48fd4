//! Matrix product, with either operand taken as its transpose.

use vstd::prelude::*;

use crate::error::{shape_refusal, ReferenceCpuError, Refusal};
use crate::float::{
    adds, commutative, nan, propagates_nan, single_valued, sums_settled, Arithmetic, ZERO,
};
use crate::reduce::{dot, lemma_dot_once, lemma_dot_same, lemma_dot_swapped};
use crate::tensor::{
    at, lemma_at_bounds, lemma_matrix_count, lemma_rows_make_matrix, product_within, rank_refusal,
    refused, same_result, well_formed, HostTensor, Tensor,
};
use crate::text::{decimal, decimal_text};

verus! {

/// The rows of a matrix, or of its transpose.
pub open spec fn logical_rows(shape: Seq<u64>, transposed: bool) -> u64 {
    if transposed {
        shape[1]
    } else {
        shape[0]
    }
}

/// The columns of a matrix, or of its transpose.
pub open spec fn logical_cols(shape: Seq<u64>, transposed: bool) -> u64 {
    if transposed {
        shape[0]
    } else {
        shape[1]
    }
}

/// How far apart two rows of a matrix, or of its transpose, are stored.
pub open spec fn row_stride(shape: Seq<u64>, transposed: bool) -> int {
    if transposed {
        1
    } else {
        shape[1] as int
    }
}

/// How far apart two columns of a matrix, or of its transpose, are stored.
pub open spec fn col_stride(shape: Seq<u64>, transposed: bool) -> int {
    if transposed {
        shape[1] as int
    } else {
        1
    }
}

/// Why a matrix product is refused, if it is.
pub open spec fn matmul_refusal(
    a: Seq<u64>,
    b: Seq<u64>,
    transpose_a: bool,
    transpose_b: bool,
) -> Option<Refusal> {
    if rank_refusal(a) is Some {
        rank_refusal(a)
    } else if rank_refusal(b) is Some {
        rank_refusal(b)
    } else if logical_cols(a, transpose_a) != logical_rows(b, transpose_b) {
        Some(
            shape_refusal(
                "matmul inner dimension mismatch: "@ + decimal(logical_cols(a, transpose_a) as nat)
                    + " vs "@ + decimal(logical_rows(b, transpose_b) as nat),
            ),
        )
    } else {
        None
    }
}

/// The host can address the product, and the elements that it is made of are
/// there.
pub open spec fn matmul_ready(a: Tensor, b: Tensor, transpose_a: bool, transpose_b: bool) -> bool {
    matmul_refusal(a.shape, b.shape, transpose_a, transpose_b) is None ==> {
        let m = logical_rows(a.shape, transpose_a);
        let k = logical_cols(a.shape, transpose_a);
        let n = logical_cols(b.shape, transpose_b);
        &&& m <= usize::MAX && k <= usize::MAX && n <= usize::MAX
        &&& m * n <= usize::MAX
        &&& m * k <= a.data.len()
        &&& m > 0 ==> k * n <= b.data.len()
    }
}

/// `r` is the sum of the first `inner` products of a row and a column.
pub open spec fn matmul_cell<A: Arithmetic>(
    ops: &A,
    a: Tensor,
    b: Tensor,
    transpose_a: bool,
    transpose_b: bool,
    row: int,
    col: int,
    inner: nat,
    r: u32,
) -> bool {
    dot(
        ops,
        a.data,
        row * row_stride(a.shape, transpose_a),
        col_stride(a.shape, transpose_a),
        b.data,
        col * col_stride(b.shape, transpose_b),
        row_stride(b.shape, transpose_b),
        inner,
        r,
    )
}

/// What a matrix product gives: each element is the sum, from the left, of the
/// products of a row and a column. No product is left out, whatever its factors.
pub open spec fn matmul_gives<A: Arithmetic>(
    ops: &A,
    a: Tensor,
    b: Tensor,
    transpose_a: bool,
    transpose_b: bool,
    r: Result<HostTensor, ReferenceCpuError>,
) -> bool {
    let m = logical_rows(a.shape, transpose_a);
    let k = logical_cols(a.shape, transpose_a);
    let n = logical_cols(b.shape, transpose_b);
    &&& refused(r, matmul_refusal(a.shape, b.shape, transpose_a, transpose_b))
    &&& r matches Ok(t) ==> {
        &&& t@.shape == seq![m, n]
        &&& t@.data.len() == m * n
        &&& matmul_rows(ops, a, b, transpose_a, transpose_b, m as int, t@.data)
        &&& well_formed(t@)
    }
}

/// The first `rows` rows hold the product.
pub open spec fn matmul_rows<A: Arithmetic>(
    ops: &A,
    a: Tensor,
    b: Tensor,
    transpose_a: bool,
    transpose_b: bool,
    rows: int,
    out: Seq<u32>,
) -> bool {
    let k = logical_cols(a.shape, transpose_a);
    let n = logical_cols(b.shape, transpose_b);
    forall|row: int, col: int|
        0 <= row < rows && 0 <= col < n ==> matmul_cell(
            ops,
            a,
            b,
            transpose_a,
            transpose_b,
            row,
            col,
            k as nat,
            #[trigger] at(out, n as int, row, col),
        )
}

/// A position in a matrix, or in its transpose, is within the elements.
proof fn lemma_stored(shape: Seq<u64>, transposed: bool, row: int, col: int)
    requires
        shape.len() == 2,
        0 <= row < logical_rows(shape, transposed),
        0 <= col < logical_cols(shape, transposed),
    ensures
        0 <= row * row_stride(shape, transposed),
        0 <= col * col_stride(shape, transposed),
        row * row_stride(shape, transposed) + col * col_stride(shape, transposed) < logical_rows(
            shape,
            transposed,
        ) * logical_cols(shape, transposed),
{
    let rows = shape[0] as int;
    let cols = shape[1] as int;
    if transposed {
        lemma_at_bounds(rows, cols, col, row);
        assert(rows * cols == cols * rows) by (nonlinear_arith);
    } else {
        lemma_at_bounds(rows, cols, row, col);
    }
}

/// The matrix product `a @ b`, where either operand may be taken as its
/// transpose.
pub fn matmul<A: Arithmetic>(
    ops: &A,
    a: &HostTensor,
    b: &HostTensor,
    transpose_a: bool,
    transpose_b: bool,
) -> (r: Result<HostTensor, ReferenceCpuError>)
    requires
        matmul_ready(a@, b@, transpose_a, transpose_b),
    ensures
        matmul_gives(ops, a@, b@, transpose_a, transpose_b, r),
{
    let (a_rows, a_cols) = match a.rows_cols() {
        Ok(dims) => dims,
        Err(e) => {
            return Err(e);
        },
    };
    let (b_rows, b_cols) = match b.rows_cols() {
        Ok(dims) => dims,
        Err(e) => {
            return Err(e);
        },
    };
    let (m, k) = if transpose_a {
        (a_cols, a_rows)
    } else {
        (a_rows, a_cols)
    };
    let (k2, n) = if transpose_b {
        (b_cols, b_rows)
    } else {
        (b_rows, b_cols)
    };
    if k != k2 {
        let mut reason = "matmul inner dimension mismatch: ".to_owned();
        reason.append(decimal_text(k).as_str());
        reason.append(" vs ");
        reason.append(decimal_text(k2).as_str());
        return Err(ReferenceCpuError::shape(reason));
    }
    let (rows, inners, cols): (usize, usize, usize) = (m as usize, k as usize, n as usize);
    // A transpose of a row-major matrix swaps the two strides.
    let (a_row_stride, a_inner_stride): (usize, usize) = if transpose_a {
        (1, a_cols as usize)
    } else {
        (a_cols as usize, 1)
    };
    let (b_inner_stride, b_col_stride): (usize, usize) = if transpose_b {
        (1, b_cols as usize)
    } else {
        (b_cols as usize, 1)
    };
    let mut out: Vec<u32> = Vec::new();
    let mut row: usize = 0;
    assert(0 * cols == 0) by (nonlinear_arith);
    assert(a.data@.len() == a.data.len() && b.data@.len() == b.data.len());
    while row < rows
        invariant
            row <= rows,
            rows == m,
            inners == k,
            cols == n,
            matmul_refusal(a@.shape, b@.shape, transpose_a, transpose_b) is None,
            m == logical_rows(a@.shape, transpose_a),
            k == logical_cols(a@.shape, transpose_a),
            n == logical_cols(b@.shape, transpose_b),
            a_row_stride == row_stride(a@.shape, transpose_a),
            a_inner_stride == col_stride(a@.shape, transpose_a),
            b_inner_stride == row_stride(b@.shape, transpose_b),
            b_col_stride == col_stride(b@.shape, transpose_b),
            m * k <= a@.data.len() <= usize::MAX,
            m > 0 ==> k * n <= b@.data.len(),
            b@.data.len() <= usize::MAX,
            out@.len() == row * cols,
            matmul_rows(ops, a@, b@, transpose_a, transpose_b, row as int, out@),
        decreases rows - row,
    {
        let mut sums: Vec<u32> = Vec::new();
        let mut filled: usize = 0;
        while filled < cols
            invariant
                filled <= cols,
                sums@.len() == filled,
                forall|c: int| 0 <= c < filled ==> sums@[c] == ZERO,
            decreases cols - filled,
        {
            sums.push(ZERO);
            filled += 1;
        }
        let mut inner: usize = 0;
        // Row by row of `b`: each pass adds one product to every sum of the row.
        while inner < inners
            invariant
                row < rows,
                inner <= inners,
                rows == m,
                inners == k,
                cols == n,
                matmul_refusal(a@.shape, b@.shape, transpose_a, transpose_b) is None,
                m == logical_rows(a@.shape, transpose_a),
                k == logical_cols(a@.shape, transpose_a),
                n == logical_cols(b@.shape, transpose_b),
                a_row_stride == row_stride(a@.shape, transpose_a),
                a_inner_stride == col_stride(a@.shape, transpose_a),
                b_inner_stride == row_stride(b@.shape, transpose_b),
                b_col_stride == col_stride(b@.shape, transpose_b),
                m * k <= a@.data.len() <= usize::MAX,
                k * n <= b@.data.len() <= usize::MAX,
                sums@.len() == cols,
                forall|c: int|
                    0 <= c < cols ==> matmul_cell(
                        ops,
                        a@,
                        b@,
                        transpose_a,
                        transpose_b,
                        row as int,
                        c,
                        inner as nat,
                        #[trigger] sums@[c],
                    ),
            decreases inners - inner,
        {
            proof {
                lemma_stored(a@.shape, transpose_a, row as int, inner as int);
            }
            let a_value: u32 = a.data[row * a_row_stride + inner * a_inner_stride];
            let mut col: usize = 0;
            while col < cols
                invariant
                    row < rows,
                    inner < inners,
                    col <= cols,
                    inners == k,
                    cols == n,
                    matmul_refusal(a@.shape, b@.shape, transpose_a, transpose_b) is None,
                    k == logical_cols(a@.shape, transpose_a),
                    n == logical_cols(b@.shape, transpose_b),
                    a_row_stride == row_stride(a@.shape, transpose_a),
                    a_inner_stride == col_stride(a@.shape, transpose_a),
                    b_inner_stride == row_stride(b@.shape, transpose_b),
                    b_col_stride == col_stride(b@.shape, transpose_b),
                    k * n <= b@.data.len() <= usize::MAX,
                    a_value == a@.data[row * a_row_stride + inner * a_inner_stride],
                    sums@.len() == cols,
                    forall|c: int|
                        0 <= c < col ==> matmul_cell(
                            ops,
                            a@,
                            b@,
                            transpose_a,
                            transpose_b,
                            row as int,
                            c,
                            (inner + 1) as nat,
                            #[trigger] sums@[c],
                        ),
                    forall|c: int|
                        col <= c < cols ==> matmul_cell(
                            ops,
                            a@,
                            b@,
                            transpose_a,
                            transpose_b,
                            row as int,
                            c,
                            inner as nat,
                            #[trigger] sums@[c],
                        ),
                decreases cols - col,
            {
                proof {
                    lemma_stored(b@.shape, transpose_b, inner as int, col as int);
                }
                let before: u32 = sums[col];
                let product: u32 = ops.mul(
                    a_value,
                    b.data[inner * b_inner_stride + col * b_col_stride],
                );
                let sum: u32 = ops.add(before, product);
                proof {
                    assert(adds(ops, before, product, sum));
                    assert(col * b_col_stride + inner * b_inner_stride == inner * b_inner_stride
                        + col * b_col_stride);
                    assert(matmul_cell(
                        ops,
                        a@,
                        b@,
                        transpose_a,
                        transpose_b,
                        row as int,
                        col as int,
                        inner as nat,
                        before,
                    ));
                }
                sums.set(col, sum);
                col += 1;
            }
            inner += 1;
        }
        let ghost before = out@;
        let ghost added = sums@;
        out.append(&mut sums);
        proof {
            assert(out@ =~= before + added);
            assert(row * cols + cols == (row + 1) * cols) by (nonlinear_arith);
            assert forall|i: int, c: int| 0 <= i < row + 1 && 0 <= c < n implies matmul_cell(
                ops,
                a@,
                b@,
                transpose_a,
                transpose_b,
                i,
                c,
                k as nat,
                #[trigger] at(out@, n as int, i, c),
            ) by {
                if i < row {
                    lemma_at_bounds(row as int, n as int, i, c);
                    assert(at(out@, n as int, i, c) == at(before, n as int, i, c));
                } else {
                    assert(at(out@, n as int, i, c) == added[c]);
                }
            }
        }
        row += 1;
    }
    let shape: Vec<u64> = vec![m, n];
    proof {
        assert(shape@ =~= seq![m, n]);
        lemma_matrix_count(shape@);
        assert(out@.len() == out.len());
    }
    HostTensor::new(shape, out)
}

/// Whether the elements of a product are there, and the host can address it.
pub fn matmul_is_ready(
    a: &HostTensor,
    b: &HostTensor,
    transpose_a: bool,
    transpose_b: bool,
) -> (r: bool)
    ensures
        r == matmul_ready(a@, b@, transpose_a, transpose_b),
{
    if a.shape.len() != 2 || b.shape.len() != 2 {
        return true;
    }
    let (m, k): (u64, u64) = if transpose_a {
        (a.shape[1], a.shape[0])
    } else {
        (a.shape[0], a.shape[1])
    };
    let (k2, n): (u64, u64) = if transpose_b {
        (b.shape[1], b.shape[0])
    } else {
        (b.shape[0], b.shape[1])
    };
    if k != k2 {
        return true;
    }
    let most: u64 = usize::MAX as u64;
    m <= most && k <= most && n <= most && product_within(m, n, usize::MAX) && product_within(
        m,
        k,
        a.data.len(),
    ) && (m == 0 || product_within(k, n, b.data.len()))
}

/// One matrix is the transpose of the other.
pub open spec fn transposes(a: Tensor, b: Tensor) -> bool {
    &&& a.shape.len() == 2
    &&& b.shape == seq![a.shape[1], a.shape[0]]
    &&& forall|row: int, col: int|
        0 <= row < a.shape[0] && 0 <= col < a.shape[1] ==> #[trigger] at(
            a.data,
            a.shape[1] as int,
            row,
            col,
        ) == at(b.data, a.shape[0] as int, col, row)
}

/// The element of a matrix, or of its transpose.
spec fn element(t: Tensor, transposed: bool, row: int, col: int) -> u32 {
    t.data[row * row_stride(t.shape, transposed) + col * col_stride(t.shape, transposed)]
}

proof fn lemma_element_transposed(a: Tensor, b: Tensor, transposed: bool, row: int, col: int)
    requires
        transposes(a, b),
        0 <= row < logical_rows(a.shape, transposed),
        0 <= col < logical_cols(a.shape, transposed),
    ensures
        element(a, transposed, row, col) == element(b, !transposed, row, col),
{
    if transposed {
        assert(at(a.data, a.shape[1] as int, col, row) == at(b.data, a.shape[0] as int, row, col));
    } else {
        assert(at(a.data, a.shape[1] as int, row, col) == at(b.data, a.shape[0] as int, col, row));
    }
}

/// Taking a matrix as its transpose gives what its transpose gives: the first
/// operand.
pub proof fn law_transpose_first<A: Arithmetic>(
    ops: &A,
    a: Tensor,
    a2: Tensor,
    b: Tensor,
    transpose_a: bool,
    transpose_b: bool,
    r: Result<HostTensor, ReferenceCpuError>,
)
    requires
        transposes(a, a2),
        matmul_gives(ops, a, b, transpose_a, transpose_b, r),
    ensures
        matmul_gives(ops, a2, b, !transpose_a, transpose_b, r),
{
    if let Ok(t) = r {
        let m = logical_rows(a.shape, transpose_a) as int;
        let k = logical_cols(a.shape, transpose_a);
        let n = logical_cols(b.shape, transpose_b) as int;
        assert forall|row: int, col: int| 0 <= row < m && 0 <= col < n implies matmul_cell(
            ops,
            a2,
            b,
            !transpose_a,
            transpose_b,
            row,
            col,
            k as nat,
            #[trigger] at(t@.data, n, row, col),
        ) by {
            let x0 = row * row_stride(a.shape, transpose_a);
            let xs = col_stride(a.shape, transpose_a);
            let x20 = row * row_stride(a2.shape, !transpose_a);
            let x2s = col_stride(a2.shape, !transpose_a);
            assert forall|i: int| 0 <= i < k implies a.data[#[trigger] (x0 + i * xs)]
                == a2.data[x20 + i * x2s] by {
                lemma_element_transposed(a, a2, transpose_a, row, i);
            }
            let y0 = col * col_stride(b.shape, transpose_b);
            let ys = row_stride(b.shape, transpose_b);
            lemma_dot_same(
                ops,
                a.data,
                x0,
                xs,
                a2.data,
                x20,
                x2s,
                b.data,
                y0,
                ys,
                b.data,
                y0,
                ys,
                k as nat,
                at(t@.data, n, row, col),
            );
        }
    }
}

/// Taking a matrix as its transpose gives what its transpose gives: the second
/// operand.
pub proof fn law_transpose_second<A: Arithmetic>(
    ops: &A,
    a: Tensor,
    b: Tensor,
    b2: Tensor,
    transpose_a: bool,
    transpose_b: bool,
    r: Result<HostTensor, ReferenceCpuError>,
)
    requires
        transposes(b, b2),
        matmul_gives(ops, a, b, transpose_a, transpose_b, r),
    ensures
        matmul_gives(ops, a, b2, transpose_a, !transpose_b, r),
{
    if let Ok(t) = r {
        let m = logical_rows(a.shape, transpose_a) as int;
        let k = logical_cols(a.shape, transpose_a);
        let n = logical_cols(b.shape, transpose_b) as int;
        assert forall|row: int, col: int| 0 <= row < m && 0 <= col < n implies matmul_cell(
            ops,
            a,
            b2,
            transpose_a,
            !transpose_b,
            row,
            col,
            k as nat,
            #[trigger] at(t@.data, n, row, col),
        ) by {
            let x0 = row * row_stride(a.shape, transpose_a);
            let xs = col_stride(a.shape, transpose_a);
            let y0 = col * col_stride(b.shape, transpose_b);
            let ys = row_stride(b.shape, transpose_b);
            let y20 = col * col_stride(b2.shape, !transpose_b);
            let y2s = row_stride(b2.shape, !transpose_b);
            assert forall|i: int| 0 <= i < k implies b.data[#[trigger] (y0 + i * ys)]
                == b2.data[y20 + i * y2s] by {
                lemma_element_transposed(b, b2, transpose_b, i, col);
            }
            lemma_dot_same(
                ops,
                a.data,
                x0,
                xs,
                a.data,
                x0,
                xs,
                b.data,
                y0,
                ys,
                b2.data,
                y20,
                y2s,
                k as nat,
                at(t@.data, n, row, col),
            );
        }
    }
}

/// Under an arithmetic with one result for the same operands, a matrix product
/// has one result.
pub proof fn law_matmul_once<A: Arithmetic>(
    ops: &A,
    a: Tensor,
    b: Tensor,
    transpose_a: bool,
    transpose_b: bool,
    r: Result<HostTensor, ReferenceCpuError>,
    r2: Result<HostTensor, ReferenceCpuError>,
)
    requires
        single_valued(ops),
        matmul_gives(ops, a, b, transpose_a, transpose_b, r),
        matmul_gives(ops, a, b, transpose_a, transpose_b, r2),
    ensures
        same_result(r, r2),
{
    if r is Ok {
        let t = r->Ok_0@;
        let t2 = r2->Ok_0@;
        let m = logical_rows(a.shape, transpose_a) as int;
        let n = logical_cols(b.shape, transpose_b) as int;
        assert forall|row: int, col: int| 0 <= row < m && 0 <= col < n implies #[trigger] at(
            t.data,
            n,
            row,
            col,
        ) == at(t2.data, n, row, col) by {
            lemma_cell_once(
                ops,
                a,
                b,
                transpose_a,
                transpose_b,
                row,
                col,
                at(t.data, n, row, col),
                at(t2.data, n, row, col),
            );
        }
        lemma_rows_make_matrix(t.data, t2.data, m, n);
    }
}

/// There is one sum of products of a row and a column.
proof fn lemma_cell_once<A: Arithmetic>(
    ops: &A,
    a: Tensor,
    b: Tensor,
    transpose_a: bool,
    transpose_b: bool,
    row: int,
    col: int,
    r: u32,
    r2: u32,
)
    requires
        single_valued(ops),
        matmul_cell(
            ops,
            a,
            b,
            transpose_a,
            transpose_b,
            row,
            col,
            logical_cols(a.shape, transpose_a) as nat,
            r,
        ),
        matmul_cell(
            ops,
            a,
            b,
            transpose_a,
            transpose_b,
            row,
            col,
            logical_cols(a.shape, transpose_a) as nat,
            r2,
        ),
    ensures
        r == r2,
{
    lemma_dot_once(
        ops,
        a.data,
        row * row_stride(a.shape, transpose_a),
        col_stride(a.shape, transpose_a),
        b.data,
        col * col_stride(b.shape, transpose_b),
        row_stride(b.shape, transpose_b),
        logical_cols(a.shape, transpose_a) as nat,
        r,
        r2,
    );
}

/// The product of the transposes in reverse order is the transpose of the
/// product, up to the bits of elements that are not numbers.
///
/// This holds of an arithmetic with one sum of the same summands, in which a
/// product does not depend on the order of its factors and what is not a number
/// stays so; a sum or product that is not a number may have any bits.
pub proof fn law_transposed_product<A: Arithmetic>(
    ops: &A,
    a: Tensor,
    b: Tensor,
    transpose_a: bool,
    transpose_b: bool,
    r: HostTensor,
    s: Result<HostTensor, ReferenceCpuError>,
)
    requires
        commutative(ops),
        sums_settled(ops),
        propagates_nan(ops),
        matmul_gives(ops, a, b, transpose_a, transpose_b, Ok(r)),
        matmul_gives(ops, b, a, !transpose_b, !transpose_a, s),
    ensures
        s matches Ok(t) && t@.shape == seq![r@.shape[1], r@.shape[0]],
        forall|row: int, col: int|
            0 <= row < r@.shape[0] && 0 <= col < r@.shape[1] && !nan(
                #[trigger] at(r@.data, r@.shape[1] as int, row, col),
            ) ==> at(s->Ok_0@.data, r@.shape[0] as int, col, row) == at(
                r@.data,
                r@.shape[1] as int,
                row,
                col,
            ),
        forall|row: int, col: int|
            0 <= row < r@.shape[0] && 0 <= col < r@.shape[1] && nan(
                #[trigger] at(r@.data, r@.shape[1] as int, row, col),
            ) ==> nan(at(s->Ok_0@.data, r@.shape[0] as int, col, row)),
{
    let m = logical_rows(a.shape, transpose_a) as int;
    let k = logical_cols(a.shape, transpose_a);
    let n = logical_cols(b.shape, transpose_b) as int;
    assert(matmul_refusal(b.shape, a.shape, !transpose_b, !transpose_a) is None);
    let t = s->Ok_0@;
    assert forall|row: int, col: int| 0 <= row < m && 0 <= col < n implies {
        let x = #[trigger] at(r@.data, n, row, col);
        let y = at(t.data, m, col, row);
        x == y || nan(x) && nan(y)
    } by {
        let x = at(r@.data, n, row, col);
        let y = at(t.data, m, col, row);
        let x0 = row * row_stride(a.shape, transpose_a);
        let xs = col_stride(a.shape, transpose_a);
        let y0 = col * col_stride(b.shape, transpose_b);
        let ys = row_stride(b.shape, transpose_b);
        assert(matmul_cell(ops, a, b, transpose_a, transpose_b, row, col, k as nat, x));
        assert(matmul_cell(ops, b, a, !transpose_b, !transpose_a, col, row, k as nat, y));
        if !nan(x) {
            lemma_dot_swapped(ops, a.data, x0, xs, b.data, y0, ys, k as nat, x, y);
        } else if !nan(y) {
            lemma_dot_swapped(ops, b.data, y0, ys, a.data, x0, xs, k as nat, y, x);
        }
    }
    assert(t.shape =~= seq![r@.shape[1], r@.shape[0]]);
}

} // verus!
