//! Partitioning of the wordlist into one chunk per worker.

use vstd::prelude::*;
use vstd::arithmetic::div_mod::lemma_fundamental_div_mod;

verus! {

/// The chunk size a scan uses: the wordlist length divided by the worker
/// count, rounded up, so that no more chunks than workers are needed.
pub open spec fn spec_chunk_size(word_count: nat, worker_count: nat) -> nat
    recommends
        worker_count >= 1,
{
    if word_count % worker_count == 0 {
        word_count / worker_count
    } else {
        word_count / worker_count + 1
    }
}

/// The words of all chunks, joined back into one sequence in chunk order.
pub open spec fn spec_joined(chunks: Seq<Vec<String>>) -> Seq<String> {
    chunks.map_values(|c: Vec<String>| c@).flatten()
}

/// Splits `words` into contiguous chunks of `spec_chunk_size` words each,
/// the last chunk possibly shorter. The chunks cover the whole wordlist in
/// order: their concatenation is exactly the input sequence, so no word is
/// dropped and none is probed twice. A zero worker count or an empty
/// wordlist yields no chunks (a no-op scan).
pub fn partition(words: &Vec<String>, worker_count: usize) -> (chunks: Vec<Vec<String>>)
    ensures
        chunks@.len() <= worker_count,
        worker_count == 0 ==> chunks@.len() == 0,
        worker_count >= 1 ==> spec_joined(chunks@) == words@,
        forall|i: int| 0 <= i < chunks@.len() ==> 1 <= #[trigger] chunks@[i]@.len()
            <= spec_chunk_size(words@.len() as nat, worker_count as nat),
        forall|i: int| 0 <= i < chunks@.len() - 1 ==> #[trigger] chunks@[i]@.len()
            == spec_chunk_size(words@.len() as nat, worker_count as nat),
{
    broadcast use vstd::seq_lib::group_seq_properties;
    broadcast use Seq::<_>::group_seq_flatten;

    let mut chunks: Vec<Vec<String>> = Vec::new();
    if worker_count == 0 || words.len() == 0 {
        proof {
            if worker_count >= 1 {
                assert(spec_joined(chunks@) =~= words@);
            }
        }
        return chunks;
    }
    let n = words.len();
    proof {
        lemma_fundamental_div_mod(n as int, worker_count as int);
    }
    let chunk_size;
    if n % worker_count == 0 {
        chunk_size = n / worker_count;
        proof {
            assert(chunk_size >= 1) by (nonlinear_arith)
                requires
                    n as int == worker_count * chunk_size,
                    n >= 1,
                    worker_count >= 1;
        }
    } else {
        proof {
            assert(n / worker_count < n) by (nonlinear_arith)
                requires
                    n as int == worker_count * (n as int / worker_count as int) + (
                    n as int % worker_count as int),
                    1 <= (n as int % worker_count as int),
                    (n as int % worker_count as int) < worker_count as int,
                    n >= 1;
        }
        chunk_size = n / worker_count + 1;
    }
    proof {
        assert(n <= worker_count * chunk_size) by (nonlinear_arith)
            requires
                worker_count >= 1,
                n as int == worker_count * (n as int / worker_count as int) + (
                n as int % worker_count as int),
                chunk_size == spec_chunk_size(n as nat, worker_count as nat),
                0 <= (n as int % worker_count as int),
                (n as int % worker_count as int) < worker_count as int;
    }
    let mut start: usize = 0;
    proof {
        assert(chunks@.len() * chunk_size == 0) by (nonlinear_arith)
            requires
                chunks@.len() == 0;
    }
    while start < n
        invariant
            n == words@.len(),
            1 <= worker_count,
            1 <= chunk_size == spec_chunk_size(n as nat, worker_count as nat),
            n <= worker_count * chunk_size,
            start <= n,
            if chunks@.len() * chunk_size <= n {
                start == chunks@.len() * chunk_size
            } else {
                start == n
            },
            chunks@.len() == 0 || (chunks@.len() - 1) * chunk_size < n,
            spec_joined(chunks@) == words@.take(start as int),
            forall|i: int| 0 <= i < chunks@.len() ==> 1 <= #[trigger] chunks@[i]@.len()
                <= chunk_size,
            forall|i: int| 0 <= i < chunks@.len() ==> (#[trigger] chunks@[i]@.len()
                == chunk_size || (i == chunks@.len() - 1 && start == n)),
        decreases n - start,
    {
        let end = if n - start < chunk_size {
            n
        } else {
            start + chunk_size
        };
        let mut chunk: Vec<String> = Vec::new();
        let mut j = start;
        while j < end
            invariant
                start <= j <= end <= n,
                n == words@.len(),
                chunk@ == words@.subrange(start as int, j as int),
            decreases end - j,
        {
            chunk.push(words[j].clone());
            proof {
                assert(chunk@ =~= words@.subrange(start as int, j as int + 1));
            }
            j += 1;
        }
        let ghost old_chunks = chunks;
        chunks.push(chunk);
        proof {
            assert(chunk@.len() == end - start);
            assert(chunks@.map_values(|c: Vec<String>| c@) =~= old_chunks@.map_values(
                |c: Vec<String>| c@,
            ).push(chunk@));
            assert(words@.take(end as int) =~= words@.take(start as int) + words@.subrange(
                start as int,
                end as int,
            ));
            old_chunks@.map_values(|c: Vec<String>| c@).lemma_flatten_push(chunk@);
            assert(spec_joined(chunks@) =~= words@.take(end as int));
            assert(forall|i: int| 0 <= i < old_chunks@.len() ==> chunks@[i] == old_chunks@[i]);
            assert(chunks@.len() * chunk_size == start + chunk_size) by (nonlinear_arith)
                requires
                    start == (chunks@.len() - 1) * chunk_size;
        }
        start = end;
    }
    proof {
        assert(spec_joined(chunks@) =~= words@);
        assert(chunks@.len() <= worker_count) by (nonlinear_arith)
            requires
                (chunks@.len() - 1) * chunk_size < n,
                n <= worker_count * chunk_size,
                chunk_size >= 1,
                chunks@.len() >= 1;
    }
    chunks
}

} // verus!
