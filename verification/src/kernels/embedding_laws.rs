//! What lookup promises: token id `n` selects row `n`, and no other id selects
//! any.

use vstd::arithmetic::power2::pow2;
use vstd::prelude::*;

use crate::error::{ReferenceCpuError, ReferenceCpuErrorCode};
use crate::float::{denotes, displays, lemma_denotes_unique, whole, whole_value, Arithmetic};
use crate::kernels::embedding::{embedding_gives, first_fault, token_fault};
use crate::tensor::{at, HostTensor, Tensor};
use crate::text::decimal;

verus! {

/// The bits are those of the natural number `n`: no sign but that of a zero, and
/// the fraction with its leading one, times two to the power of the exponent, is
/// the number times two to the power of 150.
pub open spec fn counts_to(bits: u32, n: nat) -> bool {
    let exponent = bits as nat / 0x80_0000;
    let fraction = bits as nat % 0x80_0000;
    ||| n == 0 && (bits == 0 || bits == 0x8000_0000)
    ||| 0 < exponent < 255 && n * pow2(150) == (0x80_0000 + fraction) * pow2(exponent)
}

/// The bits are those of the number of a row of a table with `rows` rows.
pub open spec fn names_row(bits: u32, rows: u64) -> bool {
    exists|n: nat| n < rows && #[trigger] counts_to(bits, n)
}

/// The two ways to say that bits are those of a natural number agree.
proof fn lemma_counts(bits: u32, n: nat)
    ensures
        counts_to(bits, n) <==> denotes(bits, n),
{
    vstd::arithmetic::power2::lemma_pow2_pos(150);
    vstd::arithmetic::power2::lemma_pow2_pos(1);
    let m = crate::float::magnitude(bits);
    if denotes(bits, n) {
        if m < 0x80_0000 {
            lemma_small(bits, n, m);
        }
    } else if counts_to(bits, n) {
        assert(0 * pow2(150) == 0 * pow2(1)) by (nonlinear_arith);
    }
}

/// A number below the least normal one is a natural number only if it is zero.
proof fn lemma_small(bits: u32, n: nat, m: nat)
    requires
        denotes(bits, n),
        m == crate::float::magnitude(bits),
        m < 0x80_0000,
    ensures
        n == 0,
        m == 0,
{
    vstd::arithmetic::power2::lemma2_to64();
    vstd::arithmetic::power2::lemma_pow2_adds(24, 126);
    vstd::arithmetic::power2::lemma_pow2_pos(126);
    let big = pow2(150);
    assert(big >= pow2(24)) by (nonlinear_arith)
        requires
            big == pow2(24) * pow2(126),
            pow2(126) >= 1,
            pow2(24) >= 0,
    ;
    assert(n * big == m * 2);
    if n > 0 {
        assert(big <= n * big) by (nonlinear_arith)
            requires
                n >= 1,
                big >= 0,
        ;
        assert(false);
    }
    assert(0 * big == 0) by (nonlinear_arith);
}

/// Each token id selects the row of its number: row `i` of the output is row `n`
/// of the table, where the bits of id `i` are those of `n`.
pub proof fn law_embedding_row<A: Arithmetic>(
    ops: &A,
    table: Tensor,
    ids: Tensor,
    r: HostTensor,
    i: int,
    n: nat,
)
    requires
        embedding_gives(ops, table, ids, Ok(r)),
        0 <= i < ids.data.len(),
        counts_to(ids.data[i], n),
    ensures
        n < table.shape[0],
        r@.shape == seq![ids.data.len() as u64, table.shape[1]],
        r@.data.len() == ids.data.len() * table.shape[1],
        forall|col: int|
            0 <= col < table.shape[1] ==> #[trigger] r@.data[i * table.shape[1] + col]
                == table.data[n * table.shape[1] + col],
{
    let id = ids.data[i];
    let dim = table.shape[1] as int;
    lemma_counts(id, n);
    lemma_denotes_unique(id, n, choose|m: nat| denotes(id, m));
    lemma_no_fault(ids.data, table.shape[0], ids.data.len(), i);
    assert forall|col: int| 0 <= col < dim implies #[trigger] r@.data[i * dim + col]
        == table.data[n * dim + col] by {
        assert(at(r@.data, dim, i, col) == at(table.data, dim, whole_value(id) as int, col));
    }
}

/// Where no id is faulty, none is.
proof fn lemma_no_fault(ids: Seq<u32>, vocab: u64, n: nat, i: int)
    requires
        first_fault(ids, vocab, n) is None,
        0 <= i < n,
    ensures
        token_fault(ids[i], vocab) is None,
    decreases n,
{
    if i < n - 1 {
        lemma_no_fault(ids, vocab, (n - 1) as nat, i);
    }
}

proof fn lemma_all_sound(ids: Seq<u32>, vocab: u64, n: nat)
    requires
        forall|i: int| 0 <= i < n ==> token_fault(#[trigger] ids[i], vocab) is None,
    ensures
        first_fault(ids, vocab, n) is None,
    decreases n,
{
    if n > 0 {
        lemma_all_sound(ids, vocab, (n - 1) as nat);
        assert(token_fault(ids[n - 1], vocab) is None);
    }
}

/// A lookup is taken exactly where the table is a matrix and each token id is
/// the number of one of its rows.
pub proof fn law_embedding_taken<A: Arithmetic>(
    ops: &A,
    table: Tensor,
    ids: Tensor,
    r: Result<HostTensor, ReferenceCpuError>,
)
    requires
        embedding_gives(ops, table, ids, r),
    ensures
        r is Ok <==> {
            &&& table.shape.len() == 2
            &&& forall|i: int|
                0 <= i < ids.data.len() ==> names_row(#[trigger] ids.data[i], table.shape[0])
        },
{
    let vocab = table.shape[0];
    if table.shape.len() == 2 {
        if r is Ok {
            assert forall|i: int| 0 <= i < ids.data.len() implies names_row(
                #[trigger] ids.data[i],
                vocab,
            ) by {
                lemma_no_fault(ids.data, vocab, ids.data.len(), i);
                let id = ids.data[i];
                assert(whole(id));
                let n = choose|n: nat| denotes(id, n);
                lemma_counts(id, n);
                assert(n < vocab && counts_to(id, n));
            }
        } else if forall|i: int|
            0 <= i < ids.data.len() ==> names_row(#[trigger] ids.data[i], vocab) {
            assert forall|i: int| 0 <= i < ids.data.len() implies token_fault(
                #[trigger] ids.data[i],
                vocab,
            ) is None by {
                let id = ids.data[i];
                let n = choose|n: nat| n < vocab && #[trigger] counts_to(id, n);
                lemma_counts(id, n);
                lemma_denotes_unique(id, n, choose|m: nat| denotes(id, m));
            }
            lemma_all_sound(ids.data, vocab, ids.data.len());
        }
    }
}

/// A refusal of token ids names the first that selects no row, which is handed
/// out: as one that is no natural number, or as one that is too large.
pub proof fn law_embedding_names_id<A: Arithmetic>(
    ops: &A,
    table: Tensor,
    ids: Tensor,
    r: Result<HostTensor, ReferenceCpuError>,
) -> (i: int)
    requires
        embedding_gives(ops, table, ids, r),
        table.shape.len() == 2,
        r is Err,
    ensures
        0 <= i < ids.data.len(),
        !names_row(ids.data[i], table.shape[0]),
        forall|earlier: int|
            0 <= earlier < i ==> names_row(#[trigger] ids.data[earlier], table.shape[0]),
        r->Err_0@.code == ReferenceCpuErrorCode::ShapeUnsupported,
        (forall|n: nat| !#[trigger] counts_to(ids.data[i], n)) ==> exists|text: String| #[trigger]
            displays(ops, ids.data[i], text) && r->Err_0@.reason == "token id "@ + text@
                + " is not a non-negative integer"@,
        forall|n: nat| #[trigger]
            counts_to(ids.data[i], n) ==> r->Err_0@.reason == "token id "@ + decimal(
                if n > u64::MAX {
                    u64::MAX as nat
                } else {
                    n
                },
            ) + " exceeds vocabulary size "@ + decimal(table.shape[0] as nat),
{
    let vocab = table.shape[0];
    let i = lemma_first_fault(ids.data, vocab, ids.data.len());
    let id = ids.data[i];
    assert forall|n: nat| #[trigger] counts_to(id, n) implies denotes(id, n) && n
        == (choose|m: nat| denotes(id, m)) by {
        lemma_counts(id, n);
        lemma_denotes_unique(id, n, choose|m: nat| denotes(id, m));
    }
    if whole(id) {
        let n = choose|m: nat| denotes(id, m);
        lemma_counts(id, n);
        assert(counts_to(id, n));
    }
    i
}

/// The first token id that is faulty.
proof fn lemma_first_fault(ids: Seq<u32>, vocab: u64, n: nat) -> (i: int)
    requires
        first_fault(ids, vocab, n) is Some,
        n <= ids.len(),
    ensures
        0 <= i < n,
        first_fault(ids, vocab, n) == token_fault(ids[i], vocab),
        !names_row(ids[i], vocab),
        forall|earlier: int| 0 <= earlier < i ==> names_row(#[trigger] ids[earlier], vocab),
    decreases n,
{
    if first_fault(ids, vocab, (n - 1) as nat) is Some {
        lemma_first_fault(ids, vocab, (n - 1) as nat)
    } else {
        let i = n - 1;
        assert forall|earlier: int| 0 <= earlier < i implies names_row(
            #[trigger] ids[earlier],
            vocab,
        ) by {
            lemma_no_fault(ids, vocab, (n - 1) as nat, earlier);
            lemma_named(ids[earlier], vocab);
        }
        lemma_named(ids[i], vocab);
        i
    }
}

/// A token id names a row exactly where it is not faulty.
proof fn lemma_named(id: u32, vocab: u64)
    ensures
        names_row(id, vocab) <==> token_fault(id, vocab) is None,
{
    if token_fault(id, vocab) is None {
        let n = choose|n: nat| denotes(id, n);
        lemma_counts(id, n);
        assert(n < vocab && counts_to(id, n));
    }
    if names_row(id, vocab) {
        let n = choose|n: nat| n < vocab && #[trigger] counts_to(id, n);
        lemma_counts(id, n);
        lemma_denotes_unique(id, n, choose|m: nat| denotes(id, m));
    }
}

} // verus!
