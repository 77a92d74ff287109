//! The immutable scan configuration shared read-only by all workers.

use vstd::prelude::*;
use vstd::string::StringExecFns;

verus! {

/// Why a configuration could not be built.
#[derive(Clone, Copy, Debug, PartialEq, Eq, Structural)]
pub enum ConfigError {
    /// The worker count must be a positive integer.
    InvalidWorkerCount,
}

/// Everything a worker needs to know about the scan: the base URL, the
/// extension list (unique, always holding the empty extension), how many
/// workers share the wordlist, and the filters that hide a response.
#[derive(Clone, Debug)]
pub struct TargetSpec {
    pub base_url: String,
    pub extensions: Vec<String>,
    pub worker_count: usize,
    pub hidden_status_codes: Vec<u16>,
    pub hidden_length: Option<usize>,
    pub output_path: Option<String>,
}

/// An extension as it appears in a URL: the raw name with a leading dot.
pub open spec fn spec_dotted(extension: Seq<char>) -> Seq<char> {
    seq!['.'] + extension
}

/// The input sequence with every repeated element removed, keeping the
/// first occurrence of each and the relative order of what stays.
pub open spec fn spec_dedup(items: Seq<Seq<char>>) -> Seq<Seq<char>>
    decreases items.len(),
{
    if items.len() == 0 {
        Seq::empty()
    } else if spec_dedup(items.drop_last()).contains(items.last()) {
        spec_dedup(items.drop_last())
    } else {
        spec_dedup(items.drop_last()).push(items.last())
    }
}

/// The extension list a scan runs with: each configured extension with a
/// leading dot, then the empty extension, with duplicates removed.
pub open spec fn spec_extension_list(raw: Seq<Seq<char>>) -> Seq<Seq<char>> {
    spec_dedup(raw.map_values(|e: Seq<char>| spec_dotted(e)).push(Seq::<char>::empty()))
}

proof fn lemma_dedup_contains(items: Seq<Seq<char>>, x: Seq<char>)
    ensures
        spec_dedup(items).contains(x) <==> items.contains(x),
    decreases items.len(),
{
    broadcast use vstd::seq_lib::lemma_seq_contains_after_push;

    if items.len() > 0 {
        lemma_dedup_contains(items.drop_last(), x);
        assert(items.contains(x) <==> items.drop_last().contains(x) || x == items.last()) by {
            if items.contains(x) {
                let i = choose|i: int| 0 <= i < items.len() && items[i] == x;
                if i < items.len() - 1 {
                    assert(items.drop_last()[i] == x);
                }
            }
            if items.drop_last().contains(x) {
                let i = choose|i: int|
                    0 <= i < items.drop_last().len() && items.drop_last()[i] == x;
                assert(items[i] == x);
            }
            if x == items.last() {
                assert(items[items.len() - 1] == x);
            }
        }
    }
}

proof fn lemma_dedup_no_dup(items: Seq<Seq<char>>)
    ensures
        forall|i: int, j: int|
            0 <= i < j < spec_dedup(items).len() ==> spec_dedup(items)[i] != spec_dedup(items)[j],
    decreases items.len(),
{
    if items.len() > 0 {
        lemma_dedup_no_dup(items.drop_last());
        let rest = spec_dedup(items.drop_last());
        if !rest.contains(items.last()) {
            assert(forall|i: int| 0 <= i < rest.len() ==> rest[i] != items.last());
        }
    }
}

impl TargetSpec {
    /// The internal invariant: a positive worker count and an extension
    /// list without repeats that holds the empty extension.
    pub open spec fn well_formed(self) -> bool {
        &&& self.worker_count >= 1
        &&& self.extensions.deep_view().contains(Seq::<char>::empty())
        &&& forall|i: int, j: int|
            0 <= i < j < self.extensions.deep_view().len()
                ==> self.extensions.deep_view()[i] != self.extensions.deep_view()[j]
    }

    /// Builds the scan configuration. Each raw extension gets a leading
    /// dot, the empty extension is appended so the bare word is always
    /// probed, and duplicates are dropped. A zero worker count is the one
    /// rejected input.
    pub fn new(
        base_url: String,
        raw_extensions: Vec<String>,
        worker_count: usize,
        hidden_status_codes: Vec<u16>,
        hidden_length: Option<usize>,
        output_path: Option<String>,
    ) -> (result: Result<TargetSpec, ConfigError>)
        ensures
            worker_count == 0 <==> result == Err::<TargetSpec, ConfigError>(
                ConfigError::InvalidWorkerCount,
            ),
            worker_count >= 1 ==> (result matches Ok(t) && {
                &&& t.base_url == base_url
                &&& t.extensions.deep_view() == spec_extension_list(raw_extensions.deep_view())
                &&& t.worker_count == worker_count
                &&& t.hidden_status_codes == hidden_status_codes
                &&& t.hidden_length == hidden_length
                &&& t.output_path == output_path
                &&& t.well_formed()
            }),
    {
        if worker_count == 0 {
            return Err(ConfigError::InvalidWorkerCount);
        }
        let ghost mapped = raw_extensions.deep_view().map_values(|e: Seq<char>| spec_dotted(e));
        let mut extensions: Vec<String> = Vec::new();
        let mut k: usize = 0;
        while k < raw_extensions.len()
            invariant
                k <= raw_extensions@.len(),
                mapped == raw_extensions.deep_view().map_values(|e: Seq<char>| spec_dotted(e)),
                extensions.deep_view() == spec_dedup(mapped.take(k as int)),
            decreases raw_extensions@.len() - k,
        {
            let mut dotted = ".".to_owned();
            dotted.append(raw_extensions[k].as_str());
            proof {
                reveal_strlit(".");
                assert(dotted@ =~= spec_dotted(raw_extensions.deep_view()[k as int]));
                assert(mapped.take(k as int + 1).drop_last() =~= mapped.take(k as int));
                assert(mapped.take(k as int + 1).last() == dotted@);
            }
            if !contains_string(&extensions, &dotted) {
                extensions.push(dotted);
                proof {
                    assert(extensions.deep_view() =~= spec_dedup(mapped.take(k as int + 1)));
                }
            } else {
                proof {
                    assert(extensions.deep_view() =~= spec_dedup(mapped.take(k as int + 1)));
                }
            }
            k += 1;
        }
        let empty = String::new();
        proof {
            assert(mapped.take(raw_extensions@.len() as int) =~= mapped);
            assert(mapped.push(Seq::<char>::empty()).drop_last() =~= mapped);
        }
        if !contains_string(&extensions, &empty) {
            extensions.push(empty);
        }
        proof {
            assert(extensions.deep_view() =~= spec_extension_list(raw_extensions.deep_view()));
            lemma_dedup_contains(
                mapped.push(Seq::<char>::empty()),
                Seq::<char>::empty(),
            );
            assert(mapped.push(Seq::<char>::empty()).contains(Seq::<char>::empty())) by {
                assert(mapped.push(Seq::<char>::empty()).last() == Seq::<char>::empty());
            }
            lemma_dedup_no_dup(mapped.push(Seq::<char>::empty()));
        }
        Ok(TargetSpec {
            base_url,
            extensions,
            worker_count,
            hidden_status_codes,
            hidden_length,
            output_path,
        })
    }
}

/// Whether some element of `items` has the same characters as `needle`.
fn contains_string(items: &Vec<String>, needle: &String) -> (found: bool)
    ensures
        found == items.deep_view().contains(needle@),
{
    let mut j: usize = 0;
    while j < items.len()
        invariant
            j <= items@.len(),
            forall|i: int| 0 <= i < j ==> items.deep_view()[i] != needle@,
        decreases items@.len() - j,
    {
        if items[j] == *needle {
            assert(items.deep_view()[j as int] == needle@);
            return true;
        }
        j += 1;
    }
    false
}

} // verus!
