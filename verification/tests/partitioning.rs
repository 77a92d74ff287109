use dirprobe::partition::partition;

fn word_vec(words: &[&str]) -> Vec<String> {
    words.iter().map(|w| w.to_string()).collect()
}

#[test]
fn splits_five_words_over_two_workers() {
    let words = word_vec(&["a", "b", "c", "d", "e"]);
    let chunks = partition(&words, 2);
    assert_eq!(chunks.len(), 2);
    assert_eq!(chunks[0], word_vec(&["a", "b", "c"]));
    assert_eq!(chunks[1], word_vec(&["d", "e"]));
}

#[test]
fn splits_evenly_when_counts_divide() {
    let words = word_vec(&["a", "b", "c", "d"]);
    let chunks = partition(&words, 2);
    assert_eq!(chunks.len(), 2);
    assert_eq!(chunks[0], word_vec(&["a", "b"]));
    assert_eq!(chunks[1], word_vec(&["c", "d"]));
}

#[test]
fn single_worker_gets_everything() {
    let words = word_vec(&["a", "b", "c"]);
    let chunks = partition(&words, 1);
    assert_eq!(chunks.len(), 1);
    assert_eq!(chunks[0], words);
}

#[test]
fn more_workers_than_words_gives_one_word_chunks() {
    let words = word_vec(&["a", "b", "c"]);
    let chunks = partition(&words, 10);
    assert_eq!(chunks.len(), 3);
    for (i, chunk) in chunks.iter().enumerate() {
        assert_eq!(chunk.len(), 1);
        assert_eq!(chunk[0], words[i]);
    }
}

#[test]
fn empty_wordlist_gives_no_chunks() {
    let words: Vec<String> = Vec::new();
    let chunks = partition(&words, 4);
    assert!(chunks.is_empty());
}

#[test]
fn zero_workers_gives_no_chunks() {
    let words = word_vec(&["a", "b"]);
    let chunks = partition(&words, 0);
    assert!(chunks.is_empty());
}

#[test]
fn chunks_join_back_to_the_wordlist() {
    let words = word_vec(&["a", "b", "c", "d", "e", "f", "g"]);
    for workers in 1..=9usize {
        let chunks = partition(&words, workers);
        assert!(chunks.len() <= workers);
        let joined: Vec<String> = chunks.into_iter().flatten().collect();
        assert_eq!(joined, words);
    }
}
