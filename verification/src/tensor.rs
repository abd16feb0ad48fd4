//! Host tensors: a shape, and the elements in row-major order.

use vstd::prelude::*;

use crate::error::{shape_refusal, ReferenceCpuError, Refusal};
use crate::text::{bracketed, bracketed_text, decimal, decimal_text};

verus! {

/// A host-visible tensor of single-precision elements, each given by its bits.
#[derive(Debug, PartialEq, Eq)]
pub struct HostTensor {
    /// The extent of each dimension.
    pub shape: Vec<u64>,
    /// The elements, in row-major order.
    pub data: Vec<u32>,
}

/// What a [`HostTensor`] stands for.
#[verifier::ext_equal]
pub struct Tensor {
    /// The extent of each dimension.
    pub shape: Seq<u64>,
    /// The elements, in row-major order.
    pub data: Seq<u32>,
}

impl View for HostTensor {
    type V = Tensor;

    open spec fn view(&self) -> Tensor {
        Tensor { shape: self.shape@, data: self.data@ }
    }
}

/// The product of the first `n` extents.
pub open spec fn extent_product(shape: Seq<u64>, n: nat) -> nat
    decreases n,
{
    if n == 0 {
        1
    } else {
        extent_product(shape, (n - 1) as nat) * shape[n - 1] as nat
    }
}

/// How many elements a shape calls for.
pub open spec fn element_count(shape: Seq<u64>) -> nat {
    extent_product(shape, shape.len())
}

/// Whether the element count can be worked out extent by extent in 64 bits,
/// and the host can address that many elements.
pub open spec fn countable(shape: Seq<u64>) -> bool {
    &&& forall|n: nat| n <= shape.len() ==> #[trigger] extent_product(shape, n) <= u64::MAX
    &&& element_count(shape) <= usize::MAX
}

/// A tensor whose shape calls for as many elements as it holds.
pub open spec fn well_formed(t: Tensor) -> bool {
    countable(t.shape) && element_count(t.shape) == t.data.len()
}

/// Why no tensor of a shape can be made of `len` elements, if none can.
pub open spec fn tensor_refusal(shape: Seq<u64>, len: nat) -> Option<Refusal> {
    if !countable(shape) {
        Some(
            shape_refusal(
                "shape "@ + bracketed(shape)
                    + " element count overflows the host address space"@,
            ),
        )
    } else if element_count(shape) != len {
        Some(
            shape_refusal(
                "shape "@ + bracketed(shape) + " expects "@ + decimal(element_count(shape))
                    + " elements, got "@ + decimal(len),
            ),
        )
    } else {
        None
    }
}

/// Why a shape is not that of a matrix, if it is not.
pub open spec fn rank_refusal(shape: Seq<u64>) -> Option<Refusal> {
    if shape.len() != 2 {
        Some(shape_refusal("expected rank-2 tensor, got shape "@ + bracketed(shape)))
    } else {
        None
    }
}

/// Why two shapes are not the same, if they are not.
pub open spec fn mismatch_refusal(a: Seq<u64>, b: Seq<u64>) -> Option<Refusal> {
    if a != b {
        Some(shape_refusal("shape mismatch: "@ + bracketed(a) + " vs "@ + bracketed(b)))
    } else {
        None
    }
}

/// A result is a refusal exactly where one is due, and that one.
pub open spec fn refused<T>(r: Result<T, ReferenceCpuError>, due: Option<Refusal>) -> bool {
    match due {
        Some(e) => r matches Err(x) && x@ == e,
        None => r is Ok,
    }
}

/// Two results are the same: the same tensor, or the same refusal.
pub open spec fn same_result(
    r: Result<HostTensor, ReferenceCpuError>,
    s: Result<HostTensor, ReferenceCpuError>,
) -> bool {
    match (r, s) {
        (Ok(t), Ok(u)) => t@ == u@,
        (Err(e), Err(f)) => e@ == f@,
        _ => false,
    }
}

/// The element of a row-major matrix with `cols` columns.
pub open spec fn at(data: Seq<u32>, cols: int, row: int, col: int) -> u32 {
    data[row * cols + col]
}

/// The rows of a matrix from `from` to before `to`.
pub open spec fn matrix_rows(t: Tensor, from: int, to: int) -> Tensor {
    Tensor {
        shape: seq![(to - from) as u64, t.shape[1]],
        data: t.data.subrange(from * t.shape[1], to * t.shape[1]),
    }
}

impl Clone for HostTensor {
    fn clone(&self) -> (r: HostTensor)
        ensures
            r@ == self@,
    {
        HostTensor { shape: self.shape.clone(), data: self.data.clone() }
    }
}

impl HostTensor {
    /// A tensor of a shape, made of the elements in row-major order.
    pub fn new(shape: Vec<u64>, data: Vec<u32>) -> (r: Result<HostTensor, ReferenceCpuError>)
        ensures
            refused(r, tensor_refusal(shape@, data@.len())),
            r matches Ok(t) ==> t@ == (Tensor { shape: shape@, data: data@ }) && well_formed(t@),
    {
        match count_elements(&shape) {
            None => {
                let mut reason = "shape ".to_owned();
                reason.append(bracketed_text(&shape).as_str());
                reason.append(" element count overflows the host address space");
                Err(ReferenceCpuError::shape(reason))
            },
            Some(expected) => {
                if expected != data.len() {
                    let mut reason = "shape ".to_owned();
                    reason.append(bracketed_text(&shape).as_str());
                    reason.append(" expects ");
                    reason.append(decimal_text(expected as u64).as_str());
                    reason.append(" elements, got ");
                    reason.append(decimal_text(data.len() as u64).as_str());
                    Err(ReferenceCpuError::shape(reason))
                } else {
                    Ok(HostTensor { shape, data })
                }
            },
        }
    }

    /// The rows and columns of a matrix.
    pub fn rows_cols(&self) -> (r: Result<(u64, u64), ReferenceCpuError>)
        ensures
            refused(r, rank_refusal(self@.shape)),
            r matches Ok((rows, cols)) ==> rows == self@.shape[0] && cols == self@.shape[1],
    {
        if self.shape.len() != 2 {
            let mut reason = "expected rank-2 tensor, got shape ".to_owned();
            reason.append(bracketed_text(&self.shape).as_str());
            return Err(ReferenceCpuError::shape(reason));
        }
        Ok((self.shape[0], self.shape[1]))
    }
}

/// How many elements a shape calls for, where the host can address them.
fn count_elements(shape: &Vec<u64>) -> (r: Option<usize>)
    ensures
        r is Some <==> countable(shape@),
        r matches Some(n) ==> n == element_count(shape@),
{
    let mut count: u64 = 1;
    let mut i: usize = 0;
    while i < shape.len()
        invariant
            i <= shape@.len(),
            count == extent_product(shape@, i as nat),
            forall|n: nat| n <= i ==> #[trigger] extent_product(shape@, n) <= u64::MAX,
        decreases shape@.len() - i,
    {
        match count.checked_mul(shape[i]) {
            None => {
                assert(extent_product(shape@, (i + 1) as nat) > u64::MAX);
                return None;
            },
            Some(product) => {
                count = product;
            },
        }
        assert(count == extent_product(shape@, (i + 1) as nat));
        i += 1;
    }
    if count > usize::MAX as u64 {
        return None;
    }
    Some(count as usize)
}

/// Whether a product is at most a bound.
pub(crate) fn product_within(x: u64, y: u64, bound: usize) -> (r: bool)
    ensures
        r == (x * y <= bound),
{
    match x.checked_mul(y) {
        Some(product) => product <= bound as u64,
        None => false,
    }
}

/// Whether two lists of extents are the same.
pub(crate) fn same_extents(a: &Vec<u64>, b: &Vec<u64>) -> (r: bool)
    ensures
        r == (a@ == b@),
{
    if a.len() != b.len() {
        return false;
    }
    let mut i: usize = 0;
    while i < a.len()
        invariant
            i <= a@.len(),
            a@.len() == b@.len(),
            forall|j: int| 0 <= j < i ==> a@[j] == b@[j],
        decreases a@.len() - i,
    {
        if a[i] != b[i] {
            return false;
        }
        i += 1;
    }
    assert(a@ =~= b@);
    true
}

/// Refuses two tensors of different shapes.
pub(crate) fn same_shape(a: &HostTensor, b: &HostTensor) -> (r: Result<(), ReferenceCpuError>)
    ensures
        refused(r, mismatch_refusal(a@.shape, b@.shape)),
{
    if !same_extents(&a.shape, &b.shape) {
        let mut reason = "shape mismatch: ".to_owned();
        reason.append(bracketed_text(&a.shape).as_str());
        reason.append(" vs ");
        reason.append(bracketed_text(&b.shape).as_str());
        return Err(ReferenceCpuError::shape(reason));
    }
    Ok(())
}

/// A position in a matrix is within its elements.
pub proof fn lemma_at_bounds(rows: int, cols: int, row: int, col: int)
    requires
        0 <= row < rows,
        0 <= col < cols,
    ensures
        0 <= row * cols,
        row * cols + cols == (row + 1) * cols,
        row * cols + col < (row + 1) * cols <= rows * cols,
{
    assert(row * cols + cols == (row + 1) * cols) by (nonlinear_arith);
    assert((row + 1) * cols <= rows * cols) by (nonlinear_arith)
        requires
            row + 1 <= rows,
            0 <= cols,
    ;
    assert(0 <= row * cols) by (nonlinear_arith)
        requires
            0 <= row,
            0 <= cols,
    ;
}

/// The element count of a matrix is rows times columns.
pub proof fn lemma_matrix_count(shape: Seq<u64>)
    requires
        shape.len() == 2,
    ensures
        element_count(shape) == shape[0] as nat * shape[1] as nat,
        shape[0] as nat * shape[1] as nat <= usize::MAX ==> countable(shape),
{
    reveal_with_fuel(extent_product, 3);
    assert(1 * shape[0] as nat == shape[0] as nat);
    assert forall|n: nat|
        n <= shape.len() && shape[0] as nat * shape[1] as nat <= usize::MAX implies #[trigger]
        extent_product(shape, n) <= u64::MAX by {
        if n == 0 {
        } else if n == 1 {
            assert(extent_product(shape, 1) == extent_product(shape, 0) * shape[0] as nat);
        } else {
            assert(n == 2);
        }
    }
}

/// Where the rows are the same, the matrix is.
pub proof fn lemma_rows_make_matrix(out: Seq<u32>, out2: Seq<u32>, rows: int, width: int)
    requires
        0 <= rows,
        0 <= width,
        out.len() == rows * width,
        out2.len() == rows * width,
        forall|row: int, j: int|
            0 <= row < rows && 0 <= j < width ==> #[trigger] at(out, width, row, j) == at(
                out2,
                width,
                row,
                j,
            ),
    ensures
        out == out2,
{
    assert forall|x: int| 0 <= x < out.len() implies out[x] == out2[x] by {
        assert(0 < width) by (nonlinear_arith)
            requires
                0 < rows * width,
                0 <= width,
        ;
        let row = x / width;
        let j = x % width;
        vstd::arithmetic::div_mod::lemma_fundamental_div_mod(x, width);
        assert(row * width == width * row) by (nonlinear_arith);
        assert(0 <= row < rows) by (nonlinear_arith)
            requires
                x == width * row + j,
                0 <= j < width,
                0 <= x < rows * width,
        ;
        assert(at(out, width, row, j) == at(out2, width, row, j));
    }
    assert(out =~= out2);
}

/// The extents multiplied with each other.
pub open spec fn multiplied(shape: Seq<u64>) -> int {
    shape.fold_left(1int, |product: int, extent: u64| product * extent)
}

/// The product of the first extents is those extents multiplied with each other.
pub(crate) proof fn lemma_multiplied(shape: Seq<u64>, n: nat)
    requires
        n <= shape.len(),
    ensures
        extent_product(shape, n) == multiplied(shape.take(n as int)),
    decreases n,
{
    if n > 0 {
        lemma_multiplied(shape, (n - 1) as nat);
        let s = shape.take(n as int);
        assert(s.drop_last() =~= shape.take(n - 1));
        assert(s.last() == shape[n - 1]);
    }
}

/// A tensor is made exactly of as many elements as its extents multiplied with
/// each other, where no product of its first extents takes more than 64 bits.
pub proof fn law_tensor_taken(shape: Seq<u64>, len: nat)
    requires
        len <= usize::MAX,
    ensures
        tensor_refusal(shape, len) is None <==> {
            &&& multiplied(shape) == len
            &&& forall|n: int|
                0 <= n <= shape.len() ==> multiplied(#[trigger] shape.take(n)) <= u64::MAX
        },
{
    lemma_multiplied(shape, shape.len());
    assert(shape.take(shape.len() as int) =~= shape);
    assert forall|n: nat| n <= shape.len() implies #[trigger] extent_product(shape, n)
        == multiplied(shape.take(n as int)) by {
        lemma_multiplied(shape, n);
    }
    if tensor_refusal(shape, len) is None {
        assert forall|n: int| 0 <= n <= shape.len() implies multiplied(#[trigger] shape.take(n))
            <= u64::MAX by {
            assert(extent_product(shape, n as nat) <= u64::MAX);
        }
    } else if multiplied(shape) == len && forall|n: int|
        0 <= n <= shape.len() ==> multiplied(#[trigger] shape.take(n)) <= u64::MAX {
        assert forall|n: nat| n <= shape.len() implies #[trigger] extent_product(shape, n)
            <= u64::MAX by {
            assert(multiplied(shape.take(n as int)) <= u64::MAX);
        }
    }
}

} // verus!
