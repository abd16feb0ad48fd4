//! What softmax promises of a row: every element has its say in the divisor,
//! the row adds up to one, and no other row matters.

use vstd::prelude::*;

use crate::error::{ReferenceCpuError, ReferenceCpuErrorCode, Refusal};
use crate::float::{
    adds, below, divides, exponentiates, finite, largest, nan, single_valued, subtracts, Arithmetic,
    NEG_INFINITY, ZERO,
};
use crate::kernels::attention::lifts;
use crate::kernels::softmax::{
    law_softmax_refusal, normalizable, row_largest, row_slice, softmax_gives, softmax_refusal,
    softmax_row, softmax_row_by, softmax_row_refusal,
};
use crate::reals::{
    lemma_raised, lemma_rounded_quotients, lemma_rounded_sum, most, raised, rounds, series, size,
};
use crate::reduce::{lemma_total_once, total};
use crate::tensor::{at, lemma_at_bounds, lemma_matrix_count, well_formed, HostTensor, Tensor};
use crate::text::decimal;

verus! {

/// The partial sums of some elements, from zero to the whole.
pub proof fn lemma_partial_sums<A: Arithmetic>(ops: &A, terms: Seq<u32>, n: nat, r: u32) -> (sums:
    Seq<u32>)
    requires
        total(ops, terms, n, r),
    ensures
        sums.len() == n + 1,
        sums[0] == ZERO,
        forall|i: int| 0 <= i < n ==> adds(ops, sums[i], terms[i], #[trigger] sums[i + 1]),
        sums[n as int] == r,
    decreases n,
{
    if n == 0 {
        seq![ZERO]
    } else {
        let sum = choose|sum: u32|
            total(ops, terms, (n - 1) as nat, sum) && #[trigger] adds(ops, sum, terms[n - 1], r);
        let before = lemma_partial_sums(ops, terms, (n - 1) as nat, sum);
        let sums = before.push(r);
        assert forall|i: int| 0 <= i < n implies adds(
            ops,
            sums[i],
            terms[i],
            #[trigger] sums[i + 1],
        ) by {
            if i < n - 1 {
                assert(adds(ops, before[i], terms[i], before[i + 1]));
            }
        }
        sums
    }
}

/// The largest of some numbers is one of them, unless it is minus infinity, and
/// none is larger.
pub proof fn lemma_largest_is_one(s: Seq<u32>, n: nat) -> (top: int)
    requires
        n <= s.len(),
    ensures
        !nan(largest(s, n)),
        largest(s, n) != NEG_INFINITY ==> 0 <= top < n && s[top] == largest(s, n),
        forall|i: int| 0 <= i < n ==> !below(largest(s, n), #[trigger] s[i]),
    decreases n,
{
    if n == 0 {
        0
    } else {
        let top = lemma_largest_is_one(s, (n - 1) as nat);
        let before = largest(s, (n - 1) as nat);
        if below(before, s[n - 1]) {
            n - 1
        } else {
            top
        }
    }
}

/// How a row comes about: each element is lowered by the largest of the row and
/// raised to an exponential, the exponentials are added from the left, all of
/// them, and each is divided by the sum.
///
/// The place of the largest element, the differences, the exponentials and
/// their partial sums are handed out.
pub proof fn law_softmax_row<A: Arithmetic>(ops: &A, input: Tensor, r: HostTensor, row: int) -> (w:
    (int, Seq<u32>, Seq<u32>, Seq<u32>))
    requires
        softmax_gives(ops, input, Ok(r)),
        0 <= row < input.shape[0],
    ensures
        ({
            let (top, lowered, lifted, sums) = w;
            let cols = input.shape[1] as int;
            let x = |col: int| input.data[row * cols + col];
            &&& r@.shape == input.shape
            &&& r@.data.len() == input.shape[0] * input.shape[1]
            &&& 0 <= top < cols
            &&& finite(x(top))
            &&& lowered.len() == cols && lifted.len() == cols && sums.len() == cols + 1
            &&& sums[0] == ZERO
            &&& forall|col: int|
                0 <= col < cols ==> {
                    &&& !below(x(top), #[trigger] x(col))
                    &&& subtracts(ops, x(col), x(top), lowered[col])
                    &&& exponentiates(ops, lowered[col], lifted[col])
                    &&& adds(ops, sums[col], lifted[col], sums[col + 1])
                    &&& divides(ops, lifted[col], sums[cols], r@.data[row * cols + col])
                }
        }),
{
    let cols = input.shape[1] as int;
    let data = input.data;
    lemma_matrix_count(input.shape);
    assert(softmax_row(ops, data, cols, row, r@.data));
    let (lifted, sum) = choose|lifted: Seq<u32>, sum: u32| #[trigger]
        softmax_row_by(ops, data, cols, row, lifted, sum, r@.data);
    let max = row_largest(data, cols, row);
    let slice = row_slice(data, cols, row);
    law_softmax_refusal(input);
    crate::float::law_largest_finite(slice);
    assert(finite(max));
    assert((row + 1) * cols == row * cols + cols) by (nonlinear_arith);
    assert((row + 1) * cols <= input.shape[0] * cols && 0 <= row * cols) by (nonlinear_arith)
        requires
            0 <= row,
            row + 1 <= input.shape[0],
            0 <= cols,
    ;
    assert(slice.len() == cols);
    let top = lemma_largest_is_one(slice, slice.len());
    let sums = lemma_partial_sums(ops, lifted, lifted.len(), sum);
    let lowered = Seq::new(
        cols as nat,
        |col: int|
            choose|d: u32|
                subtracts(ops, at(data, cols, row, col), max, d) && #[trigger] exponentiates(
                    ops,
                    d,
                    lifted[col],
                ),
    );
    assert(slice[top] == data[row * cols + top]);
    assert forall|col: int| 0 <= col < cols implies {
        let x = #[trigger] data[row * cols + col];
        &&& !below(max, x)
        &&& subtracts(ops, x, max, lowered[col])
        &&& exponentiates(ops, lowered[col], lifted[col])
        &&& adds(ops, sums[col], lifted[col], sums[col + 1])
        &&& divides(ops, lifted[col], sums[cols], r@.data[row * cols + col])
    } by {
        assert(slice[col] == data[row * cols + col]);
        assert(lifts(ops, at(data, cols, row, col), max, lifted[col]));
        assert(divides(ops, lifted[col], sum, at(r@.data, cols, row, col)));
    }
    (top, lowered, lifted, sums)
}

/// A row adds up to one, up to rounding, and so whatever its width: where the
/// elements are finite and of moderate size, the sum of the row is one within
/// what the additions and the divisions round.
///
/// With no rounding at all the sum is one.
pub proof fn law_softmax_adds_up<A: Arithmetic>(
    ops: &A,
    input: Tensor,
    r: HostTensor,
    row: int,
    value: spec_fn(u32) -> real,
    unit: real,
    least: real,
)
    requires
        softmax_gives(ops, input, Ok(r)),
        0 <= row < input.shape[0],
        rounds(ops, value, unit, least),
        forall|col: int|
            0 <= col < input.shape[1] ==> {
                let x = #[trigger] input.data[row * input.shape[1] + col];
                finite(x) && 2real * size(value(x)) <= most()
            },
        input.shape[1] as int as real * raised(1real + unit, input.shape[1] as nat) <= most(),
        1real <= raised(1real - unit, input.shape[1] as nat) * most(),
    ensures
        ({
            let cols = input.shape[1] as nat;
            let sum = series(|col: int| value(r@.data[row * cols + col]), cols);
            let lost = cols as int as real * least;
            &&& 1real - unit <= (sum + lost) * raised(1real + unit, cols)
            &&& (sum - lost) * raised(1real - unit, cols) <= 1real + unit
            &&& unit == 0real && least == 0real ==> sum == 1real
        }),
{
    let cols = input.shape[1] as int;
    let n = cols as nat;
    let (top, lowered, lifted, sums) = law_softmax_row(ops, input, r, row);
    let x = |col: int| input.data[row * cols + col];
    let max = x(top);
    assert(max == input.data[row * cols + top]);
    assert forall|col: int| 0 <= col < cols implies {
        &&& finite(#[trigger] lifted[col])
        &&& 0real <= value(lifted[col]) <= 1real
        &&& col == top ==> value(lifted[col]) == 1real
    } by {
        let y = input.data[row * cols + col];
        assert(y == x(col));
        assert(!below(max, y));
        assert(subtracts(ops, y, max, lowered[col]));
        assert(exponentiates(ops, lowered[col], lifted[col]));
        let z = value(y) - value(max);
        assert(z <= 0real);
        assert(size(z) <= most());
        assert(size(value(lowered[col]) - z) <= unit * size(z));
        assert(value(lowered[col]) <= 0real) by (nonlinear_arith)
            requires
                z <= 0real,
                value(lowered[col]) - z <= unit * (-z),
                unit < 1real,
        ;
        if col == top {
            assert(unit * 0real == 0real);
        }
    }
    assert forall|i: int| 0 <= i < n implies adds(
        ops,
        sums[i],
        lifted[i],
        #[trigger] sums[i + 1],
    ) by {
        let y = x(i);
        assert(!below(max, x(i)));
    }
    lemma_rounded_sum(ops, value, unit, least, lifted, sums, n);
    lemma_raised(unit, n);
    let terms = |i: int| value(lifted[i]);
    let outs = |col: int| value(r@.data[row * n + col]);
    let s = value(sums[cols]);
    let t = series(terms, n);
    let a = raised(1real + unit, n);
    let b = raised(1real - unit, n);
    lemma_series_holds_term(terms, n, top);
    assert(1real <= t);
    assert(b <= b * t) by (nonlinear_arith)
        requires
            0real < b,
            1real <= t,
    ;
    assert forall|i: int| 0 <= i < n implies size(#[trigger] outs(i) - terms(i) / s) <= unit * (
    terms(i) / s) + least by {
        assert(!below(max, x(i)));
        assert(divides(ops, lifted[i], sums[cols], r@.data[row * cols + i]));
        let e = value(lifted[i]);
        assert(0real <= e / s) by (nonlinear_arith)
            requires
                0real <= e,
                0real < s,
        ;
        assert(e / s <= most()) by (nonlinear_arith)
            requires
                0real <= e <= 1real,
                b <= s,
                0real < b,
                1real <= b * most(),
        ;
    }
    lemma_rounded_quotients(terms, outs, s, unit, least, n);
    let q = t / s;
    assert(q * s == t) by (nonlinear_arith)
        requires
            q == t / s,
            0real < s,
    ;
    let sum = series(outs, n);
    let lost = n as int as real * least;
    assert(0real <= q) by (nonlinear_arith)
        requires
            q * s == t,
            0real < s,
            1real <= t,
    ;
    assert(1real <= q * a) by (nonlinear_arith)
        requires
            q * s == t,
            s <= a * t,
            1real <= t,
            0real < s,
            0real <= q,
            1real <= a,
    ;
    assert(q * b <= 1real) by (nonlinear_arith)
        requires
            q * s == t,
            b * t <= s,
            1real <= t,
            0real < s,
            0real <= q,
            0real < b,
    ;
    assert(1real - unit <= (sum + lost) * a) by (nonlinear_arith)
        requires
            q - sum <= unit * q + lost,
            1real <= q * a,
            unit < 1real,
            1real <= a,
    ;
    assert((sum - lost) * b <= 1real + unit) by (nonlinear_arith)
        requires
            sum - q <= unit * q + lost,
            q * b <= 1real,
            0real <= unit,
            0real < b,
    ;
    if unit == 0real && least == 0real {
        lemma_one_raised(n);
        assert(lost == 0real) by (nonlinear_arith)
            requires
                lost == n as int as real * least,
                least == 0real,
        ;
    }
    assert(outs =~= |col: int| value(r@.data[row * n + col]));
}

/// One, however often multiplied by itself, is one.
proof fn lemma_one_raised(n: nat)
    ensures
        raised(1real, n) == 1real,
        raised(1real + 0real, n) == 1real,
        raised(1real - 0real, n) == 1real,
    decreases n,
{
    if n > 0 {
        lemma_one_raised((n - 1) as nat);
    }
}

/// A sum of numbers that are not negative is at least each of them.
proof fn lemma_series_holds_term(f: spec_fn(int) -> real, n: nat, i: int)
    requires
        0 <= i < n,
        forall|j: int| 0 <= j < n ==> 0real <= #[trigger] f(j),
    ensures
        f(i) <= series(f, n),
    decreases n,
{
    lemma_series_positive(f, (n - 1) as nat);
    if i < n - 1 {
        lemma_series_holds_term(f, (n - 1) as nat, i);
    }
}

proof fn lemma_series_positive(f: spec_fn(int) -> real, n: nat)
    requires
        forall|j: int| 0 <= j < n ==> 0real <= #[trigger] f(j),
    ensures
        0real <= series(f, n),
    decreases n,
{
    if n > 0 {
        lemma_series_positive(f, (n - 1) as nat);
    }
}

/// A row of the output depends on that row of the input, and on nothing else:
/// under an arithmetic with one result for the same operands, equal rows give
/// equal rows, in whatever matrix and place they stand.
pub proof fn law_softmax_row_alone<A: Arithmetic>(
    ops: &A,
    input: Tensor,
    r: HostTensor,
    row: int,
    input2: Tensor,
    r2: HostTensor,
    row2: int,
)
    requires
        single_valued(ops),
        softmax_gives(ops, input, Ok(r)),
        softmax_gives(ops, input2, Ok(r2)),
        0 <= row < input.shape[0],
        0 <= row2 < input2.shape[0],
        input2.shape[1] == input.shape[1],
        forall|col: int|
            0 <= col < input.shape[1] ==> #[trigger] input.data[row * input.shape[1] + col]
                == input2.data[row2 * input.shape[1] + col],
    ensures
        forall|col: int|
            0 <= col < input.shape[1] ==> #[trigger] r@.data[row * input.shape[1] + col]
                == r2@.data[row2 * input.shape[1] + col],
{
    let cols = input.shape[1] as int;
    assert(softmax_row(ops, input.data, cols, row, r@.data));
    assert(softmax_row(ops, input2.data, cols, row2, r2@.data));
    let (lifted, sum) = choose|lifted: Seq<u32>, sum: u32| #[trigger]
        softmax_row_by(ops, input.data, cols, row, lifted, sum, r@.data);
    let (lifted2, sum2) = choose|lifted: Seq<u32>, sum: u32| #[trigger]
        softmax_row_by(ops, input2.data, cols, row2, lifted, sum, r2@.data);
    lemma_matrix_count(input.shape);
    lemma_matrix_count(input2.shape);
    let slice = row_slice(input.data, cols, row);
    let slice2 = row_slice(input2.data, cols, row2);
    if cols > 0 {
        lemma_at_bounds(input.shape[0] as int, cols, row, 0);
        lemma_at_bounds(input2.shape[0] as int, cols, row2, 0);
    }
    assert forall|col: int| 0 <= col < cols implies slice[col] == slice2[col] by {
        assert(input.data[row * cols + col] == input2.data[row2 * cols + col]);
    }
    if cols > 0 {
        assert(slice =~= slice2);
        let max = row_largest(input.data, cols, row);
        assert forall|i: int| 0 <= i < cols implies lifted[i] == lifted2[i] by {
            assert(input.data[row * cols + i] == input2.data[row2 * cols + i]);
            assert(lifts(ops, at(input.data, cols, row, i), max, lifted[i]));
            assert(lifts(ops, at(input2.data, cols, row2, i), max, lifted2[i]));
        }
        assert(lifted =~= lifted2);
        lemma_total_once(ops, lifted, lifted.len(), sum, sum2);
        assert forall|col: int| 0 <= col < cols implies #[trigger] r@.data[row * cols + col]
            == r2@.data[row2 * cols + col] by {
            assert(divides(ops, lifted[col], sum, at(r@.data, cols, row, col)));
            assert(divides(ops, lifted[col], sum, at(r2@.data, cols, row2, col)));
        }
    }
}

/// A row with a finite element and no plus infinity.
pub open spec fn sound_row(data: Seq<u32>, cols: int, row: int) -> bool {
    &&& exists|col: int| 0 <= col < cols && finite(data[#[trigger] (row * cols + col)])
    &&& forall|col: int| 0 <= col < cols ==> data[#[trigger] (row * cols + col)] != 0x7F80_0000
}

/// Softmax is taken exactly where the input is a matrix, and each row has a finite
/// element and no plus infinity.
pub proof fn law_softmax_taken<A: Arithmetic>(
    ops: &A,
    input: Tensor,
    r: Result<HostTensor, ReferenceCpuError>,
)
    requires
        well_formed(input),
        softmax_gives(ops, input, r),
    ensures
        r is Ok <==> {
            &&& input.shape.len() == 2
            &&& forall|row: int|
                0 <= row < input.shape[0] ==> #[trigger] sound_row(
                    input.data,
                    input.shape[1] as int,
                    row,
                )
        },
{
    if input.shape.len() == 2 {
        law_softmax_refusal(input);
        lemma_matrix_count(input.shape);
        let cols = input.shape[1] as int;
        assert forall|row: int| 0 <= row < input.shape[0] implies #[trigger] sound_row(
            input.data,
            cols,
            row,
        ) == normalizable(row_slice(input.data, cols, row)) by {
            lemma_sound_row(input, row);
        }
        if softmax_refusal(input) is None {
            assert forall|row: int| 0 <= row < input.shape[0] implies #[trigger] sound_row(
                input.data,
                cols,
                row,
            ) by {
                assert(normalizable(row_slice(input.data, cols, row)));
            }
        } else {
            let row = choose|row: int|
                0 <= row < input.shape[0] && !normalizable(
                    #[trigger] row_slice(input.data, cols, row),
                );
            assert(!sound_row(input.data, cols, row));
        }
    }
}

proof fn lemma_sound_row(input: Tensor, row: int)
    requires
        well_formed(input),
        input.shape.len() == 2,
        0 <= row < input.shape[0],
    ensures
        sound_row(input.data, input.shape[1] as int, row) == normalizable(
            row_slice(input.data, input.shape[1] as int, row),
        ),
{
    let cols = input.shape[1] as int;
    let data = input.data;
    let s = row_slice(data, cols, row);
    lemma_matrix_count(input.shape);
    assert((row + 1) * cols == row * cols + cols) by (nonlinear_arith);
    assert((row + 1) * cols <= input.shape[0] * cols && 0 <= row * cols) by (nonlinear_arith)
        requires
            0 <= row,
            row + 1 <= input.shape[0],
            0 <= cols,
    ;
    assert(s.len() == cols);
    assert forall|col: int| 0 <= col < cols implies #[trigger] s[col] == data[row * cols + col] by {
    }
    if normalizable(s) {
        let i = choose|i: int| 0 <= i < s.len() && finite(#[trigger] s[i]);
        assert(finite(data[row * cols + i]));
        assert forall|col: int| 0 <= col < cols implies data[#[trigger] (row * cols + col)]
            != 0x7F80_0000 by {
            assert(s[col] != 0x7F80_0000);
        }
    }
    if sound_row(data, cols, row) {
        let i = choose|col: int| 0 <= col < cols && finite(data[#[trigger] (row * cols + col)]);
        assert(finite(s[i]));
        assert forall|i: int| 0 <= i < s.len() implies #[trigger] s[i] != 0x7F80_0000 by {
            assert(data[row * cols + i] != 0x7F80_0000);
        }
    }
}

/// A refusal of a matrix names the first row that has no finite element, or has
/// plus infinity, which is handed out.
pub proof fn law_softmax_names_row<A: Arithmetic>(
    ops: &A,
    input: Tensor,
    r: Result<HostTensor, ReferenceCpuError>,
) -> (row: int)
    requires
        well_formed(input),
        input.shape.len() == 2,
        softmax_gives(ops, input, r),
        r is Err,
    ensures
        0 <= row < input.shape[0],
        !sound_row(input.data, input.shape[1] as int, row),
        forall|earlier: int|
            0 <= earlier < row ==> #[trigger] sound_row(
                input.data,
                input.shape[1] as int,
                earlier,
            ),
        r->Err_0@.code == ReferenceCpuErrorCode::ExecutionFailed,
        r->Err_0@.reason == "softmax row "@ + decimal(row as nat)
            + " has no finite entry to normalize"@,
{
    lemma_first_unsound(input, input.shape[0] as nat)
}

proof fn lemma_first_unsound(input: Tensor, rows: nat) -> (row: int)
    requires
        well_formed(input),
        input.shape.len() == 2,
        rows <= input.shape[0],
        softmax_row_refusal(input.data, input.shape[1] as int, rows) is Some,
    ensures
        0 <= row < rows,
        !sound_row(input.data, input.shape[1] as int, row),
        forall|earlier: int|
            0 <= earlier < row ==> #[trigger] sound_row(
                input.data,
                input.shape[1] as int,
                earlier,
            ),
        softmax_row_refusal(input.data, input.shape[1] as int, rows) == Some(
            Refusal {
                code: ReferenceCpuErrorCode::ExecutionFailed,
                reason: "softmax row "@ + decimal(row as nat)
                    + " has no finite entry to normalize"@,
            },
        ),
    decreases rows,
{
    let cols = input.shape[1] as int;
    if softmax_row_refusal(input.data, cols, (rows - 1) as nat) is Some {
        lemma_first_unsound(input, (rows - 1) as nat)
    } else {
        let row = rows - 1;
        lemma_sound_row(input, row);
        crate::float::law_largest_finite(row_slice(input.data, cols, row));
        crate::kernels::softmax::lemma_row_refusal(input.data, cols, (rows - 1) as nat);
        assert forall|earlier: int| 0 <= earlier < row implies #[trigger] sound_row(
            input.data,
            cols,
            earlier,
        ) by {
            lemma_sound_row(input, earlier);
            crate::float::law_largest_finite(row_slice(input.data, cols, earlier));
            assert(finite(row_largest(input.data, cols, earlier)));
        }
        row
    }
}

} // verus!
