//! Embedding lookup: token ids select rows of a table.

use vstd::prelude::*;

use crate::error::{shape_refusal, ReferenceCpuError};
use crate::float::{displays, single_valued, whole, whole_of, whole_value, Arithmetic};
use crate::tensor::{
    at, lemma_at_bounds, lemma_matrix_count, lemma_rows_make_matrix, product_within, rank_refusal,
    refused, same_result, well_formed, HostTensor, Tensor,
};
use crate::text::{decimal, decimal_text};

verus! {

/// Why a token id selects no row.
pub enum TokenFault {
    /// It is no natural number.
    NotWhole(u32),
    /// It is past the last row.
    Unknown(u64),
}

/// Why a token id selects no row of a table of `vocab` rows, if it does not.
pub open spec fn token_fault(raw: u32, vocab: u64) -> Option<TokenFault> {
    if !whole(raw) {
        Some(TokenFault::NotWhole(raw))
    } else if whole_value(raw) >= vocab {
        Some(TokenFault::Unknown(whole_value(raw)))
    } else {
        None
    }
}

/// What is wrong with the first of `n` token ids that selects no row.
pub open spec fn first_fault(ids: Seq<u32>, vocab: u64, n: nat) -> Option<TokenFault>
    decreases n,
{
    if n == 0 {
        None
    } else if first_fault(ids, vocab, (n - 1) as nat) is Some {
        first_fault(ids, vocab, (n - 1) as nat)
    } else {
        token_fault(ids[n - 1], vocab)
    }
}

/// The refusal of a token id that is no natural number, in words.
pub open spec fn not_whole_words<A: Arithmetic>(ops: &A, raw: u32, e: ReferenceCpuError) -> bool {
    exists|text: String| #[trigger]
        displays(ops, raw, text) && e@ == shape_refusal(
            "token id "@ + text@ + " is not a non-negative integer"@,
        )
}

/// The refusal of a token id, in words.
pub open spec fn fault_words<A: Arithmetic>(
    ops: &A,
    f: TokenFault,
    vocab: u64,
    e: ReferenceCpuError,
) -> bool {
    match f {
        TokenFault::NotWhole(raw) => not_whole_words(ops, raw, e),
        TokenFault::Unknown(id) => e@ == shape_refusal(
            "token id "@ + decimal(id as nat) + " exceeds vocabulary size "@ + decimal(
                vocab as nat,
            ),
        ),
    }
}

/// The rows that are selected before any refusal are there.
pub open spec fn embedding_ready(table: Tensor, ids: Tensor) -> bool {
    rank_refusal(table.shape) is None ==> forall|i: int|
        0 <= i < ids.data.len() && first_fault(
            ids.data,
            table.shape[0],
            (i + 1) as nat,
        ) is None ==> (whole_value(#[trigger] ids.data[i]) + 1) * table.shape[1]
            <= table.data.len()
}

/// `out` holds the selected rows, in the order of the token ids.
pub open spec fn embedding_output(table: Tensor, ids: Tensor, out: Tensor) -> bool {
    let dim = table.shape[1];
    &&& out.shape == seq![ids.data.len() as u64, dim]
    &&& out.data.len() == ids.data.len() * dim
    &&& forall|i: int, col: int|
        0 <= i < ids.data.len() && 0 <= col < dim ==> #[trigger] at(out.data, dim as int, i, col)
            == at(table.data, dim as int, whole_value(ids.data[i]) as int, col)
}

/// What lookup gives.
pub open spec fn embedding_gives<A: Arithmetic>(
    ops: &A,
    table: Tensor,
    ids: Tensor,
    r: Result<HostTensor, ReferenceCpuError>,
) -> bool {
    if rank_refusal(table.shape) is Some {
        refused(r, rank_refusal(table.shape))
    } else {
        match first_fault(ids.data, table.shape[0], ids.data.len()) {
            Some(f) => r matches Err(e) && fault_words(ops, f, table.shape[0], e),
            None => r matches Ok(t) && embedding_output(table, ids, t@) && well_formed(t@),
        }
    }
}

/// The first fault of some token ids is the first fault of any more.
proof fn lemma_fault_kept(ids: Seq<u32>, vocab: u64, some: nat, more: nat)
    requires
        some <= more,
        first_fault(ids, vocab, some) is Some,
    ensures
        first_fault(ids, vocab, more) == first_fault(ids, vocab, some),
    decreases more,
{
    if some < more {
        lemma_fault_kept(ids, vocab, some, (more - 1) as nat);
    }
}

/// Copies the rows of `table` that the ids select, one after the other.
pub fn embedding_lookup<A: Arithmetic>(ops: &A, table: &HostTensor, ids: &HostTensor) -> (r: Result<
    HostTensor,
    ReferenceCpuError,
>)
    requires
        embedding_ready(table@, ids@),
    ensures
        embedding_gives(ops, table@, ids@, r),
{
    let (vocab, dim) = match table.rows_cols() {
        Ok(dims) => dims,
        Err(e) => {
            return Err(e);
        },
    };
    let mut out: Vec<u32> = Vec::new();
    let mut i: usize = 0;
    assert(0 * dim == 0) by (nonlinear_arith);
    while i < ids.data.len()
        invariant
            i <= ids@.data.len(),
            rank_refusal(table@.shape) is None,
            vocab == table@.shape[0],
            dim == table@.shape[1],
            embedding_ready(table@, ids@),
            first_fault(ids@.data, vocab, i as nat) is None,
            out@.len() == i * dim,
            forall|j: int, col: int|
                0 <= j < i && 0 <= col < dim ==> #[trigger] at(out@, dim as int, j, col) == at(
                    table@.data,
                    dim as int,
                    whole_value(ids@.data[j]) as int,
                    col,
                ),
        decreases ids@.data.len() - i,
    {
        let raw: u32 = ids.data[i];
        let id: u64 = match whole_of(raw) {
            None => {
                let shown = ops.display(raw);
                let mut reason = "token id ".to_owned();
                reason.append(shown.as_str());
                reason.append(" is not a non-negative integer");
                let error = ReferenceCpuError::shape(reason);
                proof {
                    assert(displays(ops, raw, shown));
                    assert(error@ == shape_refusal(
                        "token id "@ + shown@ + " is not a non-negative integer"@,
                    ));
                    assert(not_whole_words(ops, raw, error));
                    lemma_fault_kept(ids@.data, vocab, (i + 1) as nat, ids@.data.len());
                }
                return Err(error);
            },
            Some(id) => id,
        };
        if id >= vocab {
            let mut reason = "token id ".to_owned();
            reason.append(decimal_text(id).as_str());
            reason.append(" exceeds vocabulary size ");
            reason.append(decimal_text(vocab).as_str());
            proof {
                lemma_fault_kept(ids@.data, vocab, (i + 1) as nat, ids@.data.len());
            }
            return Err(ReferenceCpuError::shape(reason));
        }
        proof {
            assert(first_fault(ids@.data, vocab, (i + 1) as nat) is None);
            assert((whole_value(ids@.data[i as int]) + 1) * dim <= table@.data.len());
            assert(table.data@.len() == table.data.len());
            assert((id + 1) * dim == id * dim + dim) by (nonlinear_arith);
            assert(0 <= id * dim) by (nonlinear_arith);
            assert((i + 1) * dim == i * dim + dim) by (nonlinear_arith);
            assert(dim == 0 ==> i * dim == 0) by (nonlinear_arith);
        }
        let ghost before = out@;
        let mut col: u64 = 0;
        while col < dim
            invariant
                i < ids@.data.len(),
                col <= dim,
                id * dim + dim <= table@.data.len(),
                0 <= id * dim,
                table@.data.len() <= usize::MAX,
                before.len() == i * dim,
                out@.len() == before.len() + col,
                before.is_prefix_of(out@),
                forall|c: int|
                    0 <= c < col ==> #[trigger] at(out@, dim as int, i as int, c) == at(
                        table@.data,
                        dim as int,
                        id as int,
                        c,
                    ),
            decreases dim - col,
        {
            let ghost shorter = out@;
            proof {
                assert(id <= id * dim) by (nonlinear_arith)
                    requires
                        0 < dim,
                ;
            }
            out.push(table.data[id as usize * dim as usize + col as usize]);
            proof {
                assert forall|c: int| 0 <= c < col + 1 implies #[trigger] at(
                    out@,
                    dim as int,
                    i as int,
                    c,
                ) == at(table@.data, dim as int, id as int, c) by {
                    if c < col {
                        assert(at(out@, dim as int, i as int, c) == at(
                            shorter,
                            dim as int,
                            i as int,
                            c,
                        ));
                    }
                }
            }
            col += 1;
        }
        proof {
            assert forall|j: int, c: int| 0 <= j < i + 1 && 0 <= c < dim implies #[trigger] at(
                out@,
                dim as int,
                j,
                c,
            ) == at(table@.data, dim as int, whole_value(ids@.data[j]) as int, c) by {
                if j < i {
                    lemma_at_bounds(i as int, dim as int, j, c);
                    assert(at(out@, dim as int, j, c) == at(before, dim as int, j, c));
                }
            }
        }
        i += 1;
    }
    let shape: Vec<u64> = vec![ids.data.len() as u64, dim];
    proof {
        assert(shape@ =~= seq![ids@.data.len() as u64, dim]);
        assert(out@.len() == out.len());
        lemma_matrix_count(shape@);
    }
    HostTensor::new(shape, out)
}

/// Whether the rows that are selected before any refusal are there.
pub fn embedding_is_ready(table: &HostTensor, ids: &HostTensor) -> (r: bool)
    ensures
        r == embedding_ready(table@, ids@),
{
    if table.shape.len() != 2 {
        return true;
    }
    let vocab: u64 = table.shape[0];
    let dim: u64 = table.shape[1];
    let mut i: usize = 0;
    while i < ids.data.len()
        invariant
            i <= ids@.data.len(),
            rank_refusal(table@.shape) is None,
            vocab == table@.shape[0],
            dim == table@.shape[1],
            first_fault(ids@.data, vocab, i as nat) is None,
            forall|j: int|
                0 <= j < i ==> (whole_value(#[trigger] ids@.data[j]) + 1) * dim
                    <= table@.data.len(),
        decreases ids@.data.len() - i,
    {
        let found = whole_of(ids.data[i]);
        let faulty = match found {
            Some(id) => id >= vocab,
            None => true,
        };
        if faulty {
            proof {
                assert forall|j: int|
                    i <= j < ids@.data.len() implies #[trigger] first_fault(
                    ids@.data,
                    vocab,
                    (j + 1) as nat,
                ) is Some by {
                    assert(first_fault(ids@.data, vocab, (i + 1) as nat) is Some);
                    lemma_fault_kept(ids@.data, vocab, (i + 1) as nat, (j + 1) as nat);
                }
            }
            return true;
        }
        if let Some(id) = found {
            if !product_within(id + 1, dim, table.data.len()) {
                proof {
                    assert(first_fault(ids@.data, vocab, (i + 1) as nat) is None);
                    assert((whole_value(ids@.data[i as int]) + 1) * dim > table@.data.len());
                }
                return false;
            }
        }
        i += 1;
    }
    true
}

/// Under an arithmetic that writes a number in one way, lookup has one result.
pub proof fn law_embedding_once<A: Arithmetic>(
    ops: &A,
    table: Tensor,
    ids: Tensor,
    r: Result<HostTensor, ReferenceCpuError>,
    r2: Result<HostTensor, ReferenceCpuError>,
)
    requires
        single_valued(ops),
        embedding_gives(ops, table, ids, r),
        embedding_gives(ops, table, ids, r2),
    ensures
        same_result(r, r2),
{
    if r is Ok {
        let t = r->Ok_0@;
        let t2 = r2->Ok_0@;
        lemma_rows_make_matrix(
            t.data,
            t2.data,
            ids.data.len() as int,
            table.shape[1] as int,
        );
    }
}

} // verus!
