//! Partitioning a discovered hash batch into fixed-size fetch chunks.
//!
//! A batch of K hashes is split into `ceil(K / 10)` chunks of at most 10
//! hashes each; every hash lands in exactly one chunk, in batch order.

use vstd::prelude::*;
use crate::ids::BlockHash;

verus! {

/// How many hashes one fetch request carries at most.
pub const FETCH_CHUNK_SIZE: usize = 10;

/// How many fetch chunks a batch of `k` hashes produces: `ceil(k / 10)`.
pub open spec fn chunk_count(k: int) -> int {
    (k + FETCH_CHUNK_SIZE - 1) / (FETCH_CHUNK_SIZE as int)
}

/// The `j`-th chunk of a batch: hashes `10*j` up to `10*j + 10`, clipped to
/// the batch's end.
pub open spec fn chunk_slice(s: Seq<BlockHash>, j: int) -> Seq<BlockHash> {
    s.subrange(
        FETCH_CHUNK_SIZE * j,
        if FETCH_CHUNK_SIZE * j + FETCH_CHUNK_SIZE <= s.len() {
            FETCH_CHUNK_SIZE * j + FETCH_CHUNK_SIZE
        } else {
            s.len() as int
        },
    )
}

/// The concatenation of a sequence of chunks, in order.
pub open spec fn concat_chunks(cs: Seq<Seq<BlockHash>>) -> Seq<BlockHash>
    decreases cs.len(),
{
    if cs.len() == 0 {
        Seq::empty()
    } else {
        concat_chunks(cs.drop_last()) + cs.last()
    }
}

/// Bounds on where a chunk starts and ends inside its batch.
proof fn lemma_chunk_bounds(n: int, j: int)
    requires
        0 <= n,
        0 <= j < chunk_count(n),
    ensures
        FETCH_CHUNK_SIZE * j < n,
        j < chunk_count(n) - 1 ==> FETCH_CHUNK_SIZE * j + FETCH_CHUNK_SIZE <= n,
{
    vstd::arithmetic::div_mod::lemma_fundamental_div_mod(n + 9, 10);
}

/// Law: chunks that each equal their slice of the batch, taken together,
/// cover a prefix of the batch exactly once and in order.
pub proof fn lemma_chunks_cover_prefix(cs: Seq<Seq<BlockHash>>, s: Seq<BlockHash>)
    requires
        cs.len() <= chunk_count(s.len() as int),
        forall|j: int| 0 <= j < cs.len() ==> #[trigger] cs[j] == chunk_slice(s, j),
    ensures
        concat_chunks(cs) == s.subrange(
            0,
            if FETCH_CHUNK_SIZE * cs.len() <= s.len() {
                FETCH_CHUNK_SIZE * cs.len() as int
            } else {
                s.len() as int
            },
        ),
    decreases cs.len(),
{
    let n = s.len() as int;
    if cs.len() == 0 {
        assert(concat_chunks(cs) =~= s.subrange(0, 0));
    } else {
        let m = cs.len() - 1;
        lemma_chunks_cover_prefix(cs.drop_last(), s);
        lemma_chunk_bounds(n, m);
        let mid = FETCH_CHUNK_SIZE * m;
        let end = if FETCH_CHUNK_SIZE * cs.len() <= n {
            FETCH_CHUNK_SIZE * cs.len() as int
        } else {
            n
        };
        assert(concat_chunks(cs.drop_last()) == s.subrange(0, mid));
        assert(cs.last() == chunk_slice(s, m));
        assert(s.subrange(0, mid) + s.subrange(mid, end) =~= s.subrange(0, end));
    }
}

/// Law: a full set of chunks covers the whole batch exactly once.
pub proof fn lemma_chunks_cover_all(cs: Seq<Seq<BlockHash>>, s: Seq<BlockHash>)
    requires
        cs.len() == chunk_count(s.len() as int),
        forall|j: int| 0 <= j < cs.len() ==> #[trigger] cs[j] == chunk_slice(s, j),
    ensures
        concat_chunks(cs) == s,
{
    let n = s.len() as int;
    lemma_chunks_cover_prefix(cs, s);
    vstd::arithmetic::div_mod::lemma_fundamental_div_mod(n + 9, 10);
    assert(s.subrange(0, n) =~= s);
}

/// Split a batch of hashes into fetch chunks: `ceil(len / 10)` of them,
/// where chunk `j` is exactly the batch's `j`-th slice of ten (the last one
/// possibly shorter, never empty).
pub fn chunk_hashes(hashes: &Vec<BlockHash>) -> (chunks: Vec<Vec<BlockHash>>)
    ensures
        chunks@.len() == chunk_count(hashes@.len() as int),
        forall|j: int| 0 <= j < chunks@.len() ==> #[trigger] chunks@[j]@ == chunk_slice(
            hashes@,
            j,
        ),
        forall|j: int|
            0 <= j < chunks@.len() ==> 1 <= #[trigger] chunks@[j]@.len() <= FETCH_CHUNK_SIZE,
        forall|j: int|
            0 <= j < chunks@.len() - 1 ==> #[trigger] chunks@[j]@.len() == FETCH_CHUNK_SIZE,
{
    let n = hashes.len();
    let mut chunks: Vec<Vec<BlockHash>> = Vec::new();
    let mut i: usize = 0;
    #[verifier::loop_isolation(false)]
    while i < n
        invariant
            i <= n,
            i < n ==> i == FETCH_CHUNK_SIZE * chunks@.len(),
            i == FETCH_CHUNK_SIZE * chunks@.len() || (i == n && chunks@.len() == chunk_count(
                n as int,
            )),
            forall|j: int| 0 <= j < chunks@.len() ==> #[trigger] chunks@[j]@ == chunk_slice(
                hashes@,
                j,
            ),
        decreases n - i,
    {
        let end = if n - i > FETCH_CHUNK_SIZE {
            i + FETCH_CHUNK_SIZE
        } else {
            n
        };
        let mut chunk: Vec<BlockHash> = Vec::new();
        let mut k = i;
        #[verifier::loop_isolation(false)]
        while k < end
            invariant
                i <= k <= end <= n,
                chunk@ == hashes@.subrange(i as int, k as int),
            decreases end - k,
        {
            proof {
                assert(hashes@.subrange(i as int, k as int).push(hashes@[k as int])
                    =~= hashes@.subrange(i as int, k + 1));
            }
            chunk.push(hashes[k]);
            k = k + 1;
        }
        proof {
            let m = chunks@.len() as int;
            assert(chunk@ =~= chunk_slice(hashes@, m));
            if end == n {
                vstd::arithmetic::div_mod::lemma_fundamental_div_mod(n as int + 9, 10);
            }
        }
        chunks.push(chunk);
        i = end;
    }
    proof {
        if i == FETCH_CHUNK_SIZE * chunks@.len() && chunks@.len() != chunk_count(n as int) {
            vstd::arithmetic::div_mod::lemma_fundamental_div_mod(n as int + 9, 10);
        }
        assert forall|j: int| 0 <= j < chunks@.len() implies 1 <= #[trigger] chunks@[j]@.len()
            <= FETCH_CHUNK_SIZE by {
            lemma_chunk_bounds(n as int, j);
        }
        assert forall|j: int| 0 <= j < chunks@.len() - 1 implies #[trigger] chunks@[j]@.len()
            == FETCH_CHUNK_SIZE by {
            lemma_chunk_bounds(n as int, j);
        }
    }
    chunks
}

} // verus!
