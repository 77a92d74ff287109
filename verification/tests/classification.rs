use dirprobe::classify::{classify, classify_outcome, ProbeResult, Verdict};
use dirprobe::config::TargetSpec;
use dirprobe::probe::ProbeTask;

fn spec_with(hidden_status_codes: Vec<u16>, hidden_length: Option<usize>) -> TargetSpec {
    TargetSpec::new(
        "http://example.test".to_string(),
        Vec::new(),
        1,
        hidden_status_codes,
        hidden_length,
        None,
    )
    .unwrap()
}

fn result_with(status_code: u16, body_length: usize) -> ProbeResult {
    ProbeResult {
        word: "admin".to_string(),
        extension: ".php".to_string(),
        url: "http://example.test/admin.php".to_string(),
        status_code,
        body_length,
    }
}

#[test]
fn unfiltered_result_is_interesting() {
    let target = spec_with(Vec::new(), None);
    let result = result_with(200, 10);
    let verdict = classify(result.clone(), &target);
    assert_eq!(verdict, Verdict::Interesting(result));
}

#[test]
fn hidden_status_code_suppresses() {
    let target = spec_with(vec![404, 500], None);
    assert_eq!(classify(result_with(404, 10), &target), Verdict::Hidden);
    assert_eq!(classify(result_with(500, 10), &target), Verdict::Hidden);
    let ok = result_with(200, 10);
    assert_eq!(classify(ok.clone(), &target), Verdict::Interesting(ok));
}

#[test]
fn hidden_length_suppresses() {
    let target = spec_with(Vec::new(), Some(512));
    assert_eq!(classify(result_with(200, 512), &target), Verdict::Hidden);
    let other = result_with(200, 511);
    assert_eq!(classify(other.clone(), &target), Verdict::Interesting(other));
}

#[test]
fn either_filter_alone_suppresses() {
    let target = spec_with(vec![404], Some(512));
    assert_eq!(classify(result_with(404, 100), &target), Verdict::Hidden);
    assert_eq!(classify(result_with(200, 512), &target), Verdict::Hidden);
    let ok = result_with(200, 100);
    assert_eq!(classify(ok.clone(), &target), Verdict::Interesting(ok));
}

#[test]
fn classification_is_deterministic() {
    let target = spec_with(vec![403], Some(7));
    for (status, length) in [(200u16, 7usize), (403, 3), (301, 44), (200, 8)] {
        let first = classify(result_with(status, length), &target);
        let second = classify(result_with(status, length), &target);
        assert_eq!(first, second);
    }
}

#[test]
fn failed_probe_is_hidden() {
    let target = spec_with(Vec::new(), None);
    let task = ProbeTask {
        word: "admin".to_string(),
        extension: ".php".to_string(),
        url: "http://example.test/admin.php".to_string(),
    };
    assert_eq!(classify_outcome(task, None, &target), Verdict::Hidden);
}

#[test]
fn successful_outcome_is_classified_by_the_filters() {
    let target = spec_with(vec![404], None);
    let task = ProbeTask {
        word: "admin".to_string(),
        extension: ".php".to_string(),
        url: "http://example.test/admin.php".to_string(),
    };
    assert_eq!(classify_outcome(task.clone(), Some((404, 9)), &target), Verdict::Hidden);
    let verdict = classify_outcome(task.clone(), Some((200, 9)), &target);
    assert_eq!(
        verdict,
        Verdict::Interesting(ProbeResult {
            word: task.word,
            extension: task.extension,
            url: task.url,
            status_code: 200,
            body_length: 9,
        })
    );
}

fn count_interesting(responses: &[(u16, usize)], target: &TargetSpec) -> usize {
    responses
        .iter()
        .filter(|(status, length)| {
            matches!(classify(result_with(*status, *length), target), Verdict::Interesting(_))
        })
        .count()
}

#[test]
fn widening_the_hide_set_never_reports_more() {
    let responses = [(200u16, 10usize), (404, 3), (200, 512), (301, 7), (500, 1)];
    let narrow = spec_with(vec![404], None);
    let wide = spec_with(vec![404, 200], None);
    let narrow_count = count_interesting(&responses, &narrow);
    let wide_count = count_interesting(&responses, &wide);
    assert!(wide_count <= narrow_count);
    assert_eq!(narrow_count, 4);
    assert_eq!(wide_count, 2);
}
