//! Cutting a sheet's data rows into the chunks that are inserted one
//! statement at a time.

use vstd::prelude::*;
use vstd::seq_lib::lemma_flatten_concat;

verus! {

/// The number of rows that one insertion carries at most.
pub const CHUNK_ROWS: usize = 1000;

/// Where the chunk that starts at row `start` ends, among `total` rows.
pub open spec fn chunk_end(start: int, total: int) -> int {
    if start + CHUNK_ROWS < total {
        start + CHUNK_ROWS
    } else {
        total
    }
}

/// The chunks of `rows` from row `start` on: full chunks in row order, then
/// what is left, if anything.
pub open spec fn chunks<T>(rows: Seq<T>, start: int) -> Seq<Seq<T>>
    decreases rows.len() - start,
{
    if 0 <= start < rows.len() {
        seq![rows.subrange(start, chunk_end(start, rows.len() as int))] + chunks(
            rows,
            chunk_end(start, rows.len() as int),
        )
    } else {
        Seq::empty()
    }
}

/// Computes where the chunk that starts at row `start` ends.
pub fn next_chunk_end(start: usize, total: usize) -> (end: usize)
    ensures
        end == chunk_end(start as int, total as int),
{
    if start < total && total - start > CHUNK_ROWS {
        start + CHUNK_ROWS
    } else {
        total
    }
}

/// The chunks hold every row from `start` on exactly once, in row order.
pub proof fn lemma_chunks_cover<T>(rows: Seq<T>, start: int)
    requires
        0 <= start <= rows.len(),
    ensures
        chunks(rows, start).flatten() == rows.skip(start),
    decreases rows.len() - start,
{
    if start < rows.len() {
        let end = chunk_end(start, rows.len() as int);
        let first = seq![rows.subrange(start, end)];
        lemma_chunks_cover(rows, end);
        lemma_flatten_concat(first, chunks(rows, end));
        first.lemma_flatten_one_element();
        assert(rows.subrange(start, end) + rows.skip(end) =~= rows.skip(start));
    } else {
        assert(rows.skip(start) =~= Seq::<T>::empty());
    }
}

/// No chunk is empty, none is longer than [`CHUNK_ROWS`], and only the last
/// may be shorter.
pub proof fn lemma_chunk_sizes<T>(rows: Seq<T>, start: int, k: int)
    requires
        0 <= start,
        0 <= k < chunks(rows, start).len(),
    ensures
        1 <= chunks(rows, start)[k].len() <= CHUNK_ROWS,
        k + 1 < chunks(rows, start).len() ==> chunks(rows, start)[k].len() == CHUNK_ROWS,
    decreases k,
{
    let end = chunk_end(start, rows.len() as int);
    if k > 0 {
        lemma_chunk_sizes(rows, end, k - 1);
    } else if 1 < chunks(rows, start).len() {
        assert(chunks(rows, end).len() > 0);
    }
}

/// A sheet without data rows has no chunk.
pub proof fn lemma_no_rows_no_chunks<T>(rows: Seq<T>)
    requires
        rows.len() == 0,
    ensures
        chunks(rows, 0) == Seq::<Seq<T>>::empty(),
{
}

} // verus!
