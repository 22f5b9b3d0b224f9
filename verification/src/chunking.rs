//! Splitting a batch of records into pieces that each fit one datagram.

use vstd::prelude::*;
use vstd::arithmetic::div_mod::lemma_fundamental_div_mod;
use vstd::arithmetic::mul::{lemma_mul_inequality, lemma_mul_is_distributive_add};

verus! {

/// The number of chunks that `count` records give at `per_chunk` records a
/// chunk: `count / per_chunk`, rounded up.
pub open spec fn chunk_count(count: nat, per_chunk: nat) -> nat {
    if count % per_chunk == 0 {
        count / per_chunk
    } else {
        count / per_chunk + 1
    }
}

/// Where chunk `index` starts.
pub open spec fn chunk_start(per_chunk: nat, index: nat) -> nat {
    index * per_chunk
}

/// Where chunk `index` ends: a full chunk later, or where the records end.
pub open spec fn chunk_end(count: nat, per_chunk: nat, index: nat) -> nat {
    if index * per_chunk + per_chunk <= count {
        index * per_chunk + per_chunk
    } else {
        count
    }
}

/// Chunk `index` of `records`.
pub open spec fn chunk_at<T>(records: Seq<T>, per_chunk: nat, index: nat) -> Seq<T> {
    records.subrange(
        chunk_start(per_chunk, index) as int,
        chunk_end(records.len(), per_chunk, index) as int,
    )
}

/// The first `chunks` chunks of `records`, one after the other.
pub open spec fn chunks_joined<T>(records: Seq<T>, per_chunk: nat, chunks: nat) -> Seq<T>
    decreases chunks,
{
    if chunks == 0 {
        Seq::empty()
    } else {
        chunks_joined(records, per_chunk, (chunks - 1) as nat) + chunk_at(
            records,
            per_chunk,
            (chunks - 1) as nat,
        )
    }
}

/// Every chunk starts inside the records, holds at least one record and at
/// most `per_chunk`, and the chunk after it starts where it ends.
pub proof fn lemma_chunk_bounds(count: nat, per_chunk: nat, index: nat)
    requires
        per_chunk > 0,
        index < chunk_count(count, per_chunk),
    ensures
        chunk_start(per_chunk, index) < chunk_end(count, per_chunk, index) <= count,
        chunk_end(count, per_chunk, index) - chunk_start(per_chunk, index) <= per_chunk,
        index + 1 < chunk_count(count, per_chunk) ==> chunk_end(count, per_chunk, index)
            == chunk_start(per_chunk, index + 1),
        index + 1 == chunk_count(count, per_chunk) ==> chunk_end(count, per_chunk, index) == count,
{
    let whole = count / per_chunk;
    lemma_fundamental_div_mod(count as int, per_chunk as int);
    assert(count == per_chunk * whole + count % per_chunk);
    assert(index <= whole);
    lemma_mul_inequality(index as int, whole as int, per_chunk as int);
    assert(index * per_chunk <= whole * per_chunk);
    assert(whole * per_chunk == per_chunk * whole) by (nonlinear_arith);
    lemma_mul_is_distributive_add(per_chunk as int, index as int, 1);
    assert((index + 1) * per_chunk == index * per_chunk + per_chunk) by (nonlinear_arith);
    if index < whole {
        lemma_mul_inequality((index + 1) as int, whole as int, per_chunk as int);
        assert((index + 1) * per_chunk <= whole * per_chunk);
        if index + 1 == chunk_count(count, per_chunk) {
            assert(count % per_chunk == 0);
            assert(index + 1 == whole);
        }
    } else {
        assert(index == whole);
        assert(count % per_chunk != 0);
    }
}

/// Chunking loses nothing and adds nothing: the chunks, one after the other,
/// are the records again, in their order.
pub proof fn lemma_chunks_cover<T>(records: Seq<T>, per_chunk: nat)
    requires
        per_chunk > 0,
    ensures
        chunks_joined(records, per_chunk, chunk_count(records.len(), per_chunk)) == records,
{
    let total = chunk_count(records.len(), per_chunk);
    lemma_chunks_prefix(records, per_chunk, total);
    if total > 0 {
        lemma_chunk_bounds(records.len(), per_chunk, (total - 1) as nat);
        assert(records.subrange(0, records.len() as int) =~= records);
    } else {
        lemma_fundamental_div_mod(records.len() as int, per_chunk as int);
        assert(records.len() == 0) by (nonlinear_arith)
            requires
                records.len() == per_chunk * (records.len() / per_chunk) + records.len()
                    % per_chunk,
                records.len() % per_chunk == 0,
                records.len() / per_chunk == 0,
        ;
        assert(records =~= Seq::<T>::empty());
    }
}

/// The first chunks, one after the other, are the records up to where the
/// last of them ends.
pub proof fn lemma_chunks_prefix<T>(records: Seq<T>, per_chunk: nat, chunks: nat)
    requires
        per_chunk > 0,
        chunks <= chunk_count(records.len(), per_chunk),
    ensures
        chunks == 0 ==> chunks_joined(records, per_chunk, chunks) == Seq::<T>::empty(),
        chunks > 0 ==> chunks_joined(records, per_chunk, chunks) == records.subrange(
            0,
            chunk_end(records.len(), per_chunk, (chunks - 1) as nat) as int,
        ),
    decreases chunks,
{
    if chunks > 0 {
        let last = (chunks - 1) as nat;
        lemma_chunks_prefix(records, per_chunk, last);
        lemma_chunk_bounds(records.len(), per_chunk, last);
        if last > 0 {
            lemma_chunk_bounds(records.len(), per_chunk, (last - 1) as nat);
        } else {
            assert(chunk_start(per_chunk, 0) == 0) by (nonlinear_arith);
        }
        assert(chunks_joined(records, per_chunk, chunks) =~= records.subrange(
            0,
            chunk_end(records.len(), per_chunk, last) as int,
        ));
    }
}

/// The number of chunks that `count` records give.
pub fn count_chunks(count: usize, per_chunk: usize) -> (chunks: usize)
    requires
        per_chunk > 0,
    ensures
        chunks == chunk_count(count as nat, per_chunk as nat),
{
    if count % per_chunk == 0 {
        count / per_chunk
    } else {
        proof {
            let whole = (count / per_chunk) as int;
            lemma_fundamental_div_mod(count as int, per_chunk as int);
            assert(whole <= per_chunk * whole) by (nonlinear_arith)
                requires
                    whole >= 0,
                    per_chunk >= 1,
            ;
        }
        count / per_chunk + 1
    }
}

/// A copy of chunk `index` of `records`.
pub fn copy_chunk<T: Copy>(records: &Vec<T>, per_chunk: usize, index: usize) -> (chunk: Vec<T>)
    requires
        per_chunk > 0,
        index < chunk_count(records@.len(), per_chunk as nat),
    ensures
        chunk@ == chunk_at(records@, per_chunk as nat, index as nat),
        1 <= chunk@.len() <= per_chunk,
{
    let count: usize = records.len();
    proof {
        lemma_chunk_bounds(count as nat, per_chunk as nat, index as nat);
        assert(index * per_chunk == chunk_start(per_chunk as nat, index as nat));
    }
    let start: usize = index * per_chunk;
    let end: usize = if count - start >= per_chunk {
        start + per_chunk
    } else {
        count
    };
    let mut chunk: Vec<T> = Vec::new();
    let mut at: usize = start;
    while at < end
        invariant
            start <= at <= end <= records.len(),
            chunk@ == records@.subrange(start as int, at as int),
        decreases end - at,
    {
        chunk.push(records[at]);
        at = at + 1;
        assert(chunk@ =~= records@.subrange(start as int, at as int));
    }
    chunk
}

} // verus!
