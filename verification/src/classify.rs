//! Classification of probe results as interesting or hidden.

use vstd::prelude::*;
use crate::config::TargetSpec;
use crate::probe::ProbeTask;

verus! {

/// What one successful probe observed: the word and extension that were
/// combined, the URL that was requested, the status code the server
/// answered with, and the response body's length in bytes.
#[derive(Clone, Debug, PartialEq, Eq)]
pub struct ProbeResult {
    pub word: String,
    pub extension: String,
    pub url: String,
    pub status_code: u16,
    pub body_length: usize,
}

/// What the scanner does with one probe: report it or suppress it.
#[derive(Clone, Debug, PartialEq, Eq)]
pub enum Verdict {
    /// The result passed every filter and is reported.
    Interesting(ProbeResult),
    /// The result matched a filter, or the probe failed, and is dropped.
    Hidden,
}

/// Whether a response with this status code and body length is hidden:
/// either filter alone suffices to suppress it.
pub open spec fn spec_hidden(
    status_code: u16,
    body_length: usize,
    hidden_status_codes: Seq<u16>,
    hidden_length: Option<usize>,
) -> bool {
    hidden_status_codes.contains(status_code) || (hidden_length matches Some(l) && body_length
        == l)
}

/// The verdict for one successful probe under a given configuration.
pub open spec fn spec_classify(result: ProbeResult, target: TargetSpec) -> Verdict {
    if spec_hidden(
        result.status_code,
        result.body_length,
        target.hidden_status_codes@,
        target.hidden_length,
    ) {
        Verdict::Hidden
    } else {
        Verdict::Interesting(result)
    }
}

/// Whether `status_code` is one of the configured hidden status codes.
fn status_is_hidden(hidden_status_codes: &Vec<u16>, status_code: u16) -> (hidden: bool)
    ensures
        hidden == hidden_status_codes@.contains(status_code),
{
    let mut i: usize = 0;
    while i < hidden_status_codes.len()
        invariant
            i <= hidden_status_codes@.len(),
            forall|k: int| 0 <= k < i ==> hidden_status_codes@[k] != status_code,
        decreases hidden_status_codes@.len() - i,
    {
        if hidden_status_codes[i] == status_code {
            assert(hidden_status_codes@.contains(status_code));
            return true;
        }
        i += 1;
    }
    false
}

/// Decides whether one probe result is reported or suppressed. A pure
/// decision: the verdict is a function of the result and the
/// configuration alone, so identical inputs always classify identically.
pub fn classify(result: ProbeResult, target: &TargetSpec) -> (verdict: Verdict)
    ensures
        verdict == spec_classify(result, *target),
{
    if status_is_hidden(&target.hidden_status_codes, result.status_code) {
        return Verdict::Hidden;
    }
    match target.hidden_length {
        Some(hidden_length) => {
            if result.body_length == hidden_length {
                Verdict::Hidden
            } else {
                Verdict::Interesting(result)
            }
        },
        None => Verdict::Interesting(result),
    }
}

/// The verdict for one probe, failed or not: a probe whose request failed
/// is always hidden, a successful one is classified by the filters.
pub open spec fn spec_classify_outcome(
    task: ProbeTask,
    response: Option<(u16, usize)>,
    target: TargetSpec,
) -> Verdict {
    match response {
        None => Verdict::Hidden,
        Some(r) => spec_classify(
            ProbeResult {
                word: task.word,
                extension: task.extension,
                url: task.url,
                status_code: r.0,
                body_length: r.1,
            },
            target,
        ),
    }
}

/// Turns what came back for one probe task into a verdict. `response`
/// holds the status code and body length of a completed request, or
/// `None` when the request failed at the transport level: a failed probe
/// is silently dropped and never aborts the scan.
pub fn classify_outcome(task: ProbeTask, response: Option<(u16, usize)>, target: &TargetSpec) -> (
    verdict: Verdict)
    ensures
        verdict == spec_classify_outcome(task, response, *target),
{
    match response {
        None => Verdict::Hidden,
        Some(r) => classify(
            ProbeResult {
                word: task.word,
                extension: task.extension,
                url: task.url,
                status_code: r.0,
                body_length: r.1,
            },
            target,
        ),
    }
}

/// How many of a sequence of probe results the filters let through.
pub open spec fn spec_interesting_count(
    results: Seq<ProbeResult>,
    hidden_status_codes: Seq<u16>,
    hidden_length: Option<usize>,
) -> nat
    decreases results.len(),
{
    if results.len() == 0 {
        0
    } else {
        (if spec_hidden(
            results.first().status_code,
            results.first().body_length,
            hidden_status_codes,
            hidden_length,
        ) {
            0nat
        } else {
            1nat
        }) + spec_interesting_count(results.drop_first(), hidden_status_codes, hidden_length)
    }
}

/// Hide-set monotonicity: widening the set of hidden status codes never
/// increases the number of reported results for a fixed probe sequence.
pub proof fn lemma_hide_set_monotonic(
    results: Seq<ProbeResult>,
    narrow_codes: Seq<u16>,
    wide_codes: Seq<u16>,
    hidden_length: Option<usize>,
)
    requires
        forall|c: u16| narrow_codes.contains(c) ==> wide_codes.contains(c),
    ensures
        spec_interesting_count(results, wide_codes, hidden_length) <= spec_interesting_count(
            results,
            narrow_codes,
            hidden_length,
        ),
    decreases results.len(),
{
    if results.len() > 0 {
        lemma_hide_set_monotonic(results.drop_first(), narrow_codes, wide_codes, hidden_length);
    }
}

} // verus!
