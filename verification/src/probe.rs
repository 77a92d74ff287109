//! Probe tasks: one URL to request per word and extension.

use vstd::prelude::*;
use vstd::string::StringExecFns;
use vstd::arithmetic::div_mod::lemma_fundamental_div_mod_converse;

verus! {

/// One probe to issue: the word and extension it combines and the full
/// URL built from them.
#[derive(Clone, Debug)]
pub struct ProbeTask {
    pub word: String,
    pub extension: String,
    pub url: String,
}

/// The URL a probe requests: the base URL, a slash, the word, and the
/// extension (which is empty or starts with a dot).
pub open spec fn spec_url(base: Seq<char>, word: Seq<char>, extension: Seq<char>) -> Seq<char> {
    base + seq!['/'] + word + extension
}

/// Builds the URL for one word and extension.
pub fn build_url(base_url: &str, word: &str, extension: &str) -> (url: String)
    ensures
        url@ == spec_url(base_url@, word@, extension@),
{
    let mut url = base_url.to_owned();
    url.append("/");
    url.append(word);
    url.append(extension);
    proof {
        reveal_strlit("/");
        assert(url@ =~= spec_url(base_url@, word@, extension@));
    }
    url
}

/// All probes for one chunk, in the order a worker issues them: word by
/// word in chunk order, with the extension varying fastest. Task `k`
/// pairs word `k / extension_count` with extension `k % extension_count`.
pub fn probe_tasks(base_url: &str, chunk: &Vec<String>, extensions: &Vec<String>) -> (tasks: Vec<
    ProbeTask,
>)
    ensures
        tasks@.len() == chunk@.len() * extensions@.len(),
        forall|k: int| 0 <= k < tasks@.len() ==> #[trigger] tasks@[k].word == chunk@[k / (
        extensions@.len() as int)],
        forall|k: int| 0 <= k < tasks@.len() ==> #[trigger] tasks@[k].extension == extensions@[k
            % (extensions@.len() as int)],
        forall|k: int| 0 <= k < tasks@.len() ==> #[trigger] tasks@[k].url@ == spec_url(
            base_url@,
            chunk@[k / (extensions@.len() as int)]@,
            extensions@[k % (extensions@.len() as int)]@,
        ),
{
    let extension_count = extensions.len();
    let mut tasks: Vec<ProbeTask> = Vec::new();
    let mut i: usize = 0;
    proof {
        assert(0int * extension_count as int == 0) by (nonlinear_arith);
    }
    while i < chunk.len()
        invariant
            extension_count == extensions@.len(),
            i <= chunk@.len(),
            tasks@.len() == i * extension_count,
            forall|k: int| 0 <= k < tasks@.len() ==> #[trigger] tasks@[k].word == chunk@[k / (
            extension_count as int)],
            forall|k: int| 0 <= k < tasks@.len() ==> #[trigger] tasks@[k].extension
                == extensions@[k % (extension_count as int)],
            forall|k: int| 0 <= k < tasks@.len() ==> #[trigger] tasks@[k].url@ == spec_url(
                base_url@,
                chunk@[k / (extension_count as int)]@,
                extensions@[k % (extension_count as int)]@,
            ),
        decreases chunk@.len() - i,
    {
        let mut j: usize = 0;
        while j < extension_count
            invariant
                extension_count == extensions@.len(),
                i < chunk@.len(),
                j <= extension_count,
                tasks@.len() == i * extension_count + j,
                forall|k: int| 0 <= k < tasks@.len() ==> #[trigger] tasks@[k].word == chunk@[k / (
                extension_count as int)],
                forall|k: int| 0 <= k < tasks@.len() ==> #[trigger] tasks@[k].extension
                    == extensions@[k % (extension_count as int)],
                forall|k: int| 0 <= k < tasks@.len() ==> #[trigger] tasks@[k].url@ == spec_url(
                    base_url@,
                    chunk@[k / (extension_count as int)]@,
                    extensions@[k % (extension_count as int)]@,
                ),
            decreases extension_count - j,
        {
            let url = build_url(base_url, chunk[i].as_str(), extensions[j].as_str());
            tasks.push(
                ProbeTask { word: chunk[i].clone(), extension: extensions[j].clone(), url },
            );
            proof {
                lemma_fundamental_div_mod_converse(
                    (i * extension_count + j) as int,
                    extension_count as int,
                    i as int,
                    j as int,
                );
            }
            j += 1;
        }
        proof {
            assert((i + 1) * extension_count as int == i * extension_count + extension_count)
                by (nonlinear_arith);
        }
        i += 1;
    }
    tasks
}

/// The number of probes the chunks give rise to: each word of each chunk
/// is paired with every extension.
pub open spec fn spec_task_total(chunks: Seq<Seq<String>>, extension_count: nat) -> nat
    decreases chunks.len(),
{
    if chunks.len() == 0 {
        0
    } else {
        chunks.first().len() * extension_count + spec_task_total(
            chunks.drop_first(),
            extension_count,
        )
    }
}

/// Coverage: when the chunks join back to the original wordlist, the
/// probes of all chunks together number exactly the wordlist length times
/// the extension count — partitioning skips no word.
pub proof fn lemma_probe_coverage(
    chunks: Seq<Seq<String>>,
    words: Seq<String>,
    extension_count: nat,
)
    requires
        chunks.flatten() == words,
    ensures
        spec_task_total(chunks, extension_count) == words.len() * extension_count,
    decreases chunks.len(),
{
    if chunks.len() == 0 {
        assert(words.len() == 0);
        assert(words.len() * extension_count == 0) by (nonlinear_arith)
            requires
                words.len() == 0;
    } else {
        lemma_probe_coverage(chunks.drop_first(), chunks.drop_first().flatten(), extension_count);
        assert(words.len() == chunks.first().len() + chunks.drop_first().flatten().len());
        assert((chunks.first().len() + chunks.drop_first().flatten().len()) * extension_count
            == chunks.first().len() * extension_count + chunks.drop_first().flatten().len()
            * extension_count) by (nonlinear_arith);
    }
}

} // verus!
