use history_launcher::ActivateOutcome;
use history_launcher::ChromeHistorys;
use history_launcher::HistoryEntry;
use history_launcher::Response;

fn store(pairs: &[(&str, &str)]) -> ChromeHistorys {
    let mut records: Vec<HistoryEntry> = Vec::new();
    for (title, url) in pairs {
        records.push(HistoryEntry::new(String::from(*title), String::from(*url)));
    }
    ChromeHistorys::new(records)
}

fn append_names(events: &[Response]) -> Vec<String> {
    let mut names: Vec<String> = Vec::new();
    for ev in events {
        if let Response::Append { name, .. } = ev {
            names.push(name.clone());
        }
    }
    names
}

fn finished_count(events: &[Response]) -> usize {
    events.iter().filter(|e| matches!(e, Response::Finished)).count()
}

#[test]
fn trigger_name() {
    let engine = store(&[]);
    assert_eq!(engine.name(), "ch");
}

#[test]
fn contiguous_substring_outranks_scattered_and_no_match_is_excluded() {
    // "rust" is a contiguous substring of the first and third title, not a
    // subsequence of the second at all: exactly two results, store order.
    let mut engine = store(&[
        ("Rust Programming", "https://rust-lang.org"),
        ("Random blog", "https://example.com"),
        ("Rustaceans unite", "https://example.org"),
    ]);
    let events = engine.search("ch rust");
    assert_eq!(events.len(), 3);
    assert_eq!(
        append_names(&events),
        vec![String::from("Rust Programming"), String::from("Rustaceans unite")]
    );
    match &events[0] {
        Response::Append { id, name, description } => {
            assert_eq!(*id, 0);
            assert_eq!(name, "Rust Programming");
            assert_eq!(description, "https://rust-lang.org");
        }
        other => panic!("expected an append, got {:?}", other),
    }
    match &events[1] {
        Response::Append { id, name, description } => {
            assert_eq!(*id, 1);
            assert_eq!(name, "Rustaceans unite");
            assert_eq!(description, "https://example.org");
        }
        other => panic!("expected an append, got {:?}", other),
    }
    assert_eq!(events[2], Response::Finished);
}

#[test]
fn matching_is_case_insensitive() {
    let mut engine = store(&[("RUST PROGRAMMING", "https://rust-lang.org")]);
    let events = engine.search("ch rust");
    assert_eq!(
        append_names(&events),
        vec![String::from("RUST PROGRAMMING")]
    );
}

#[test]
fn at_most_eight_appends_and_one_trailing_finished() {
    let pairs: Vec<(String, String)> = (0..12)
        .map(|i| (format!("entry number {}", i), format!("https://example.com/{}", i)))
        .collect();
    let borrowed: Vec<(&str, &str)> = pairs.iter().map(|(t, u)| (t.as_str(), u.as_str())).collect();
    let mut engine = store(&borrowed);
    let events = engine.search("ch entry");
    assert_eq!(events.len(), 9);
    assert_eq!(append_names(&events).len(), 8);
    assert_eq!(finished_count(&events), 1);
    assert_eq!(events.last(), Some(&Response::Finished));
}

#[test]
fn non_trigger_inputs_finish_immediately() {
    let mut engine = store(&[("Rust Programming", "https://rust-lang.org")]);
    for query in ["rust", "", "chx rust", " ch rust", "ch", "c h rust", "CH rust"] {
        let events = engine.search(query);
        assert_eq!(events, vec![Response::Finished], "query: {:?}", query);
    }
}

#[test]
fn equal_scores_keep_store_order() {
    let mut engine = store(&[
        ("duplicate title", "https://example.com/first"),
        ("duplicate title", "https://example.com/second"),
    ]);
    let events = engine.search("ch duplicate");
    let mut descriptions: Vec<String> = Vec::new();
    for ev in &events {
        if let Response::Append { description, .. } = ev {
            descriptions.push(description.clone());
        }
    }
    assert_eq!(
        descriptions,
        vec![
            String::from("https://example.com/first"),
            String::from("https://example.com/second"),
        ]
    );
}

#[test]
fn contiguous_match_scores_at_least_scattered_match() {
    // The query appears contiguously in the first title and only scattered
    // (r..u..s..t) in the second: the contiguous match ranks first.
    let mut engine = store(&[
        ("rust handbook", "https://example.com/contiguous"),
        ("rapid unit sorting tool", "https://example.com/scattered"),
    ]);
    let events = engine.search("ch rust");
    assert_eq!(
        append_names(&events),
        vec![
            String::from("rust handbook"),
            String::from("rapid unit sorting tool"),
        ]
    );
}

#[test]
fn rerunning_a_query_is_idempotent() {
    let mut engine = store(&[
        ("Rust Programming", "https://rust-lang.org"),
        ("Random blog", "https://example.com"),
        ("Rustaceans unite", "https://example.org"),
    ]);
    let first = engine.search("ch ru");
    let second = engine.search("ch ru");
    assert_eq!(first, second);
}

#[test]
fn activation_resolves_against_the_last_view() {
    let mut engine = store(&[
        ("Rust Programming", "https://rust-lang.org"),
        ("Random blog", "https://example.com"),
        ("Rustaceans unite", "https://example.org"),
    ]);
    engine.search("ch rust");
    // View position 1 is "Rustaceans unite" (store index 2), not store index 1.
    let ActivateOutcome { events, target } = engine.activate(1);
    assert_eq!(events, vec![Response::Close]);
    assert_eq!(target, Some(String::from("https://example.org")));
}

#[test]
fn activation_out_of_range_emits_nothing() {
    let mut engine = store(&[
        ("Rust Programming", "https://rust-lang.org"),
        ("Random blog", "https://example.com"),
    ]);
    engine.search("ch rust");
    let ActivateOutcome { events, target } = engine.activate(5);
    assert!(events.is_empty());
    assert_eq!(target, None);
}

#[test]
fn activation_before_any_query_emits_nothing() {
    let engine = store(&[("Rust Programming", "https://rust-lang.org")]);
    let ActivateOutcome { events, target } = engine.activate(0);
    assert!(events.is_empty());
    assert_eq!(target, None);
}

#[test]
fn non_trigger_query_clears_the_view() {
    let mut engine = store(&[("Rust Programming", "https://rust-lang.org")]);
    engine.search("ch rust");
    engine.search("something else");
    let ActivateOutcome { events, target } = engine.activate(0);
    assert!(events.is_empty());
    assert_eq!(target, None);
}

#[test]
fn empty_store_always_finishes_with_no_appends() {
    let mut engine = store(&[]);
    for query in ["ch rust", "ch ", "anything", ""] {
        let events = engine.search(query);
        assert_eq!(events, vec![Response::Finished], "query: {:?}", query);
    }
}

#[test]
fn no_subsequence_match_yields_no_appends() {
    let mut engine = store(&[("abc", "https://example.com")]);
    let events = engine.search("ch xyz");
    assert_eq!(events, vec![Response::Finished]);
}

#[test]
fn trigger_with_empty_text_still_terminates_once() {
    let mut engine = store(&[
        ("Rust Programming", "https://rust-lang.org"),
        ("Random blog", "https://example.com"),
    ]);
    let events = engine.search("ch ");
    assert_eq!(finished_count(&events), 1);
    assert_eq!(events.last(), Some(&Response::Finished));
    assert!(append_names(&events).len() <= 8);
}

#[test]
fn record_accessors_round_trip() {
    let entry = HistoryEntry::new(String::from("a title"), String::from("https://example.com"));
    assert_eq!(entry.title(), "a title");
    assert_eq!(entry.url(), "https://example.com");
}
