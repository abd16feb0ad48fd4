//! Softmax of rows.

use vstd::prelude::*;

use crate::error::{ReferenceCpuError, ReferenceCpuErrorCode, Refusal};
use crate::float::{
    divides, exponentiates, finite, is_finite, largest, largest_of, law_largest_finite,
    single_valued, Arithmetic,
};
use crate::kernels::attention::lifts;
use crate::reduce::{lemma_total_once, total, total_of};
use crate::tensor::{
    at, lemma_at_bounds, lemma_matrix_count, lemma_rows_make_matrix, product_within, rank_refusal,
    refused, same_result, tensor_refusal, well_formed, HostTensor, Tensor,
};
use crate::text::{decimal, decimal_text};

verus! {

/// A row of a row-major matrix.
pub open spec fn row_slice(data: Seq<u32>, cols: int, row: int) -> Seq<u32> {
    data.subrange(row * cols, (row + 1) * cols)
}

/// The largest element of a row.
pub open spec fn row_largest(data: Seq<u32>, cols: int, row: int) -> u32 {
    largest(row_slice(data, cols, row), row_slice(data, cols, row).len())
}

/// Why softmax refuses one of the first `rows` rows: the first whose largest
/// element is not finite.
pub open spec fn softmax_row_refusal(data: Seq<u32>, cols: int, rows: nat) -> Option<Refusal>
    decreases rows,
{
    if rows == 0 {
        None
    } else if softmax_row_refusal(data, cols, (rows - 1) as nat) is Some {
        softmax_row_refusal(data, cols, (rows - 1) as nat)
    } else if !finite(row_largest(data, cols, rows - 1)) {
        Some(
            Refusal {
                code: ReferenceCpuErrorCode::ExecutionFailed,
                reason: "softmax row "@ + decimal((rows - 1) as nat)
                    + " has no finite entry to normalize"@,
            },
        )
    } else {
        None
    }
}

/// Why softmax refuses, if it does.
pub open spec fn softmax_refusal(input: Tensor) -> Option<Refusal> {
    if rank_refusal(input.shape) is Some {
        rank_refusal(input.shape)
    } else if softmax_row_refusal(
        input.data,
        input.shape[1] as int,
        input.shape[0] as nat,
    ) is Some {
        softmax_row_refusal(input.data, input.shape[1] as int, input.shape[0] as nat)
    } else {
        tensor_refusal(input.shape, input.data.len())
    }
}

/// The rows up to the first that is refused are there.
pub open spec fn softmax_ready(input: Tensor) -> bool {
    rank_refusal(input.shape) is None ==> forall|row: nat|
        row < input.shape[0] && #[trigger] softmax_row_refusal(
            input.data,
            input.shape[1] as int,
            row,
        ) is None ==> (row + 1) * input.shape[1] <= input.data.len()
}

/// The row `row` of `out` is the softmax of the row, by way of the given
/// exponentials and their sum.
pub open spec fn softmax_row_by<A: Arithmetic>(
    ops: &A,
    data: Seq<u32>,
    cols: int,
    row: int,
    lifted: Seq<u32>,
    sum: u32,
    out: Seq<u32>,
) -> bool {
    &&& lifted.len() == cols
    &&& forall|col: int|
        0 <= col < cols ==> lifts(
            ops,
            at(data, cols, row, col),
            row_largest(data, cols, row),
            #[trigger] lifted[col],
        )
    &&& total(ops, lifted, lifted.len(), sum)
    &&& forall|col: int|
        0 <= col < cols ==> divides(ops, lifted[col], sum, #[trigger] at(out, cols, row, col))
}

/// The row `row` of `out` is the softmax of the row: the exponentials of how
/// far each element is from the largest, divided by their sum.
pub open spec fn softmax_row<A: Arithmetic>(
    ops: &A,
    data: Seq<u32>,
    cols: int,
    row: int,
    out: Seq<u32>,
) -> bool {
    exists|lifted: Seq<u32>, sum: u32| #[trigger]
        softmax_row_by(ops, data, cols, row, lifted, sum, out)
}

/// What softmax gives.
pub open spec fn softmax_gives<A: Arithmetic>(
    ops: &A,
    input: Tensor,
    r: Result<HostTensor, ReferenceCpuError>,
) -> bool {
    &&& refused(r, softmax_refusal(input))
    &&& r matches Ok(t) ==> {
        &&& t@.shape == input.shape
        &&& t@.data.len() == input.data.len()
        &&& forall|row: int|
            0 <= row < input.shape[0] ==> #[trigger] softmax_row(
                ops,
                input.data,
                input.shape[1] as int,
                row,
                t@.data,
            )
        &&& well_formed(t@)
    }
}

/// A row of the output does not depend on what follows it.
proof fn lemma_row_kept<A: Arithmetic>(
    ops: &A,
    data: Seq<u32>,
    cols: int,
    row: int,
    before: Seq<u32>,
    after: Seq<u32>,
)
    requires
        softmax_row(ops, data, cols, row, before),
        before.is_prefix_of(after),
        0 <= row,
        0 < cols,
        (row + 1) * cols <= before.len(),
    ensures
        softmax_row(ops, data, cols, row, after),
{
    let (lifted, sum) = choose|lifted: Seq<u32>, sum: u32| #[trigger]
        softmax_row_by(ops, data, cols, row, lifted, sum, before);
    assert forall|col: int| 0 <= col < cols implies divides(
        ops,
        lifted[col],
        sum,
        #[trigger] at(after, cols, row, col),
    ) by {
        lemma_at_bounds(row + 1, cols, row, col);
        assert(at(after, cols, row, col) == at(before, cols, row, col));
    }
    assert(softmax_row_by(ops, data, cols, row, lifted, sum, after));
}

/// A refusal of some rows is the refusal of any more rows.
proof fn lemma_refusal_kept(data: Seq<u32>, cols: int, some: nat, more: nat)
    requires
        some <= more,
        softmax_row_refusal(data, cols, some) is Some,
    ensures
        softmax_row_refusal(data, cols, more) == softmax_row_refusal(data, cols, some),
    decreases more,
{
    if some < more {
        lemma_refusal_kept(data, cols, some, (more - 1) as nat);
    }
}

/// Softmax of each row, taken from the largest element of the row.
pub fn softmax_rows<A: Arithmetic>(ops: &A, input: &HostTensor) -> (r: Result<
    HostTensor,
    ReferenceCpuError,
>)
    requires
        softmax_ready(input@),
    ensures
        softmax_gives(ops, input@, r),
{
    let (rows, cols) = match input.rows_cols() {
        Ok(dims) => dims,
        Err(e) => {
            return Err(e);
        },
    };
    let mut out: Vec<u32> = Vec::new();
    let mut row: u64 = 0;
    assert(0 * cols == 0) by (nonlinear_arith);
    assert(input.data@.len() == input.data.len());
    while row < rows
        invariant
            row <= rows,
            rank_refusal(input@.shape) is None,
            rows == input@.shape[0],
            cols == input@.shape[1],
            softmax_ready(input@),
            input@.data.len() <= usize::MAX,
            softmax_row_refusal(input@.data, cols as int, row as nat) is None,
            out@.len() == row * cols,
            out@.len() <= input@.data.len(),
            row > 0 ==> cols > 0,
            forall|i: int|
                0 <= i < row ==> #[trigger] softmax_row(ops, input@.data, cols as int, i, out@),
        decreases rows - row,
    {
        proof {
            assert((row as nat + 1) * cols <= input@.data.len());
            assert((row + 1) * cols == row * cols + cols) by (nonlinear_arith);
            assert(0 <= row * cols) by (nonlinear_arith)
                requires
                    0 <= row,
                    0 <= cols,
            ;
        }
        let width: usize = cols as usize;
        let base: usize = out.len();
        let slice = row_of(&input.data, base, width);
        assert(slice@ =~= row_slice(input@.data, cols as int, row as int));
        let max: u32 = largest_of(&slice);
        if !is_finite(max) {
            let mut reason = "softmax row ".to_owned();
            reason.append(decimal_text(row).as_str());
            reason.append(" has no finite entry to normalize");
            proof {
                lemma_refusal_kept(input@.data, cols as int, (row + 1) as nat, rows as nat);
            }
            return Err(ReferenceCpuError::new(ReferenceCpuErrorCode::ExecutionFailed, reason));
        }
        let mut lifted: Vec<u32> = Vec::new();
        let mut col: usize = 0;
        while col < width
            invariant
                col <= width,
                width == cols,
                slice@ == row_slice(input@.data, cols as int, row as int),
                slice@.len() == width,
                base == row * cols,
                (row + 1) * cols == row * cols + cols,
                base + width <= input@.data.len(),
                max == row_largest(input@.data, cols as int, row as int),
                lifted@.len() == col,
                forall|c: int|
                    0 <= c < col ==> lifts(
                        ops,
                        at(input@.data, cols as int, row as int, c),
                        max,
                        #[trigger] lifted@[c],
                    ),
            decreases width - col,
        {
            let difference: u32 = ops.sub(slice[col], max);
            let value: u32 = ops.exp(difference);
            assert(slice@[col as int] == at(input@.data, cols as int, row as int, col as int));
            assert(exponentiates(ops, difference, value));
            lifted.push(value);
            col += 1;
        }
        let sum: u32 = total_of(ops, &lifted);
        let ghost before = out@;
        col = 0;
        while col < width
            invariant
                col <= width,
                width == cols,
                lifted@.len() == width,
                before.len() == row * cols,
                out@.len() == before.len() + col,
                before.is_prefix_of(out@),
                forall|c: int|
                    0 <= c < col ==> divides(
                        ops,
                        lifted@[c],
                        sum,
                        #[trigger] at(out@, cols as int, row as int, c),
                    ),
            decreases width - col,
        {
            let value: u32 = ops.div(lifted[col], sum);
            let ghost shorter = out@;
            out.push(value);
            proof {
                assert forall|c: int| 0 <= c < col + 1 implies divides(
                    ops,
                    lifted@[c],
                    sum,
                    #[trigger] at(out@, cols as int, row as int, c),
                ) by {
                    if c < col {
                        assert(at(out@, cols as int, row as int, c) == at(
                            shorter,
                            cols as int,
                            row as int,
                            c,
                        ));
                    }
                }
            }
            col += 1;
        }
        proof {
            assert(softmax_row_by(
                ops,
                input@.data,
                cols as int,
                row as int,
                lifted@,
                sum,
                out@,
            ));
            if cols == 0 {
                assert(slice@.len() == 0);
                assert(max == largest(slice@, 0));
            }
            assert forall|i: int| 0 <= i < row + 1 implies #[trigger] softmax_row(
                ops,
                input@.data,
                cols as int,
                i,
                out@,
            ) by {
                if i < row {
                    lemma_at_bounds(row as int, cols as int, i, 0);
                    lemma_row_kept(ops, input@.data, cols as int, i, before, out@);
                }
            }
        }
        row += 1;
    }
    while out.len() < input.data.len()
        invariant
            rank_refusal(input@.shape) is None,
            rows == input@.shape[0],
            cols == input@.shape[1],
            rows > 0 ==> cols > 0,
            rows * cols <= out@.len() <= input@.data.len(),
            forall|i: int|
                0 <= i < rows ==> #[trigger] softmax_row(ops, input@.data, cols as int, i, out@),
        decreases input@.data.len() - out@.len(),
    {
        let ghost before = out@;
        out.push(0);
        proof {
            assert forall|i: int| 0 <= i < rows implies #[trigger] softmax_row(
                ops,
                input@.data,
                cols as int,
                i,
                out@,
            ) by {
                lemma_at_bounds(rows as int, cols as int, i, 0);
                lemma_row_kept(ops, input@.data, cols as int, i, before, out@);
            }
        }
    }
    HostTensor::new(input.shape.clone(), out)
}

/// Whether the rows up to the first that is refused are there.
pub fn softmax_is_ready(input: &HostTensor) -> (r: bool)
    ensures
        r == softmax_ready(input@),
{
    if input.shape.len() != 2 {
        return true;
    }
    let rows: u64 = input.shape[0];
    let cols: u64 = input.shape[1];
    let mut row: u64 = 0;
    assert(0 * cols == 0) by (nonlinear_arith);
    assert(input.data@.len() == input.data.len());
    while row < rows
        invariant
            row <= rows,
            rank_refusal(input@.shape) is None,
            rows == input@.shape[0],
            cols == input@.shape[1],
            input@.data.len() <= usize::MAX,
            softmax_row_refusal(input@.data, cols as int, row as nat) is None,
            row * cols <= input@.data.len(),
            forall|i: nat| i < row ==> #[trigger] ((i + 1) * cols) <= input@.data.len(),
        decreases rows - row,
    {
        if !product_within(row + 1, cols, input.data.len()) {
            assert((row as nat + 1) * cols > input@.data.len());
            return false;
        }
        proof {
            assert((row + 1) * cols == row * cols + cols) by (nonlinear_arith);
            assert(0 <= row * cols) by (nonlinear_arith);
            assert(cols > 0 ==> row <= row * cols) by (nonlinear_arith);
        }
        if cols == 0 {
            proof {
                let s = row_slice(input@.data, 0, row as int);
                assert(row * 0 == 0 && (row + 1) * 0 == 0) by (nonlinear_arith);
                assert(s.len() == 0);
                assert(!finite(row_largest(input@.data, 0, row as int)));
                lemma_later_refused(input@.data, cols as int, row as nat);
            }
            return true;
        }
        let base: usize = row as usize * cols as usize;
        let slice = row_of(&input.data, base, cols as usize);
        assert(slice@ =~= row_slice(input@.data, cols as int, row as int));
        if !is_finite(largest_of(&slice)) {
            proof {
                lemma_later_refused(input@.data, cols as int, row as nat);
            }
            return true;
        }
        row += 1;
    }
    true
}

/// Once a row is refused, so is every prefix that holds it.
proof fn lemma_later_refused(data: Seq<u32>, cols: int, row: nat)
    requires
        softmax_row_refusal(data, cols, row) is None,
        !finite(row_largest(data, cols, row as int)),
    ensures
        forall|more: nat| row < more ==> #[trigger] softmax_row_refusal(data, cols, more) is Some,
{
    assert(softmax_row_refusal(data, cols, row + 1) is Some);
    assert forall|more: nat| row < more implies #[trigger] softmax_row_refusal(
        data,
        cols,
        more,
    ) is Some by {
        lemma_refusal_kept(data, cols, row + 1, more);
    }
}

/// Some elements that follow each other.
fn row_of(data: &Vec<u32>, base: usize, width: usize) -> (r: Vec<u32>)
    requires
        base + width <= data@.len(),
    ensures
        r@ == data@.subrange(base as int, base + width),
{
    let mut r: Vec<u32> = Vec::new();
    let mut col: usize = 0;
    assert(data@.len() == data.len());
    while col < width
        invariant
            col <= width,
            base + width <= data@.len() <= usize::MAX,
            r@ == data@.subrange(base as int, base + col),
        decreases width - col,
    {
        r.push(data[base + col]);
        assert(data@.subrange(base as int, base + col).push(data@[base + col]) =~= data@.subrange(
            base as int,
            base + (col + 1),
        ));
        col += 1;
    }
    r
}

/// A row with a finite element and no plus infinity.
pub open spec fn normalizable(s: Seq<u32>) -> bool {
    &&& exists|i: int| 0 <= i < s.len() && finite(#[trigger] s[i])
    &&& forall|i: int| 0 <= i < s.len() ==> #[trigger] s[i] != 0x7F80_0000
}

/// Softmax takes exactly the matrices each row of which has a finite element
/// and no plus infinity.
pub proof fn law_softmax_refusal(input: Tensor)
    requires
        well_formed(input),
        rank_refusal(input.shape) is None,
    ensures
        softmax_refusal(input) is None <==> forall|row: int|
            0 <= row < input.shape[0] ==> normalizable(
                #[trigger] row_slice(input.data, input.shape[1] as int, row),
            ),
{
    let cols = input.shape[1] as int;
    lemma_row_refusal(input.data, cols, input.shape[0] as nat);
    assert forall|row: int| finite(#[trigger] row_largest(input.data, cols, row)) <==> normalizable(
        row_slice(input.data, cols, row),
    ) by {
        law_largest_finite(row_slice(input.data, cols, row));
    }
    if softmax_refusal(input) is None {
        assert forall|row: int| 0 <= row < input.shape[0] implies normalizable(
            #[trigger] row_slice(input.data, cols, row),
        ) by {
            assert(finite(row_largest(input.data, cols, row)));
        }
    } else {
        let row = choose|row: int|
            0 <= row < input.shape[0] && !finite(#[trigger] row_largest(input.data, cols, row));
        assert(!normalizable(row_slice(input.data, cols, row)));
    }
}

pub(crate) proof fn lemma_row_refusal(data: Seq<u32>, cols: int, rows: nat)
    ensures
        softmax_row_refusal(data, cols, rows) is None <==> forall|row: int|
            0 <= row < rows ==> finite(#[trigger] row_largest(data, cols, row)),
    decreases rows,
{
    if rows > 0 {
        lemma_row_refusal(data, cols, (rows - 1) as nat);
        if softmax_row_refusal(data, cols, (rows - 1) as nat) is None {
            if softmax_row_refusal(data, cols, rows) is Some {
                assert(!finite(row_largest(data, cols, rows - 1)));
            }
        }
    }
}

/// There is one softmax of a row.
proof fn lemma_row_once<A: Arithmetic>(
    ops: &A,
    data: Seq<u32>,
    cols: int,
    row: int,
    out: Seq<u32>,
    out2: Seq<u32>,
    col: int,
)
    requires
        single_valued(ops),
        softmax_row(ops, data, cols, row, out),
        softmax_row(ops, data, cols, row, out2),
        0 <= col < cols,
    ensures
        at(out, cols, row, col) == at(out2, cols, row, col),
{
    let (lifted, sum) = choose|lifted: Seq<u32>, sum: u32| #[trigger]
        softmax_row_by(ops, data, cols, row, lifted, sum, out);
    let (lifted2, sum2) = choose|lifted: Seq<u32>, sum: u32| #[trigger]
        softmax_row_by(ops, data, cols, row, lifted, sum, out2);
    let max = row_largest(data, cols, row);
    assert forall|i: int| 0 <= i < cols implies lifted[i] == lifted2[i] by {
        assert(lifts(ops, at(data, cols, row, i), max, lifted[i]));
        assert(lifts(ops, at(data, cols, row, i), max, lifted2[i]));
    }
    assert(lifted =~= lifted2);
    lemma_total_once(ops, lifted, lifted.len(), sum, sum2);
    assert(divides(ops, lifted[col], sum, at(out, cols, row, col)));
    assert(divides(ops, lifted[col], sum, at(out2, cols, row, col)));
}

/// Under an arithmetic with one result for the same operands, softmax has one
/// result.
pub proof fn law_softmax_once<A: Arithmetic>(
    ops: &A,
    input: Tensor,
    r: Result<HostTensor, ReferenceCpuError>,
    r2: Result<HostTensor, ReferenceCpuError>,
)
    requires
        single_valued(ops),
        softmax_gives(ops, input, r),
        softmax_gives(ops, input, r2),
    ensures
        same_result(r, r2),
{
    if r is Ok {
        let out = r->Ok_0@.data;
        let out2 = r2->Ok_0@.data;
        let rows = input.shape[0] as int;
        let cols = input.shape[1] as int;
        lemma_matrix_count(input.shape);
        assert forall|row: int, col: int| 0 <= row < rows && 0 <= col < cols implies #[trigger] at(
            out,
            cols,
            row,
            col,
        ) == at(out2, cols, row, col) by {
            assert(softmax_row(ops, input.data, cols, row, out));
            assert(softmax_row(ops, input.data, cols, row, out2));
            lemma_row_once(ops, input.data, cols, row, out, out2, col);
        }
        lemma_rows_make_matrix(out, out2, rows, cols);
    }
}

} // verus!
