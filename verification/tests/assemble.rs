use rgsearch::assemble;
use rgsearch::search_outcome;
use rgsearch::sort_results;
use rgsearch::DecodeError;
use rgsearch::SearchError;
use rgsearch::SearchResult;

fn match_line(path: &str, line_number: u64, text: &str) -> String {
    format!(
        "{{\"type\":\"match\",\"data\":{{\"path\":{{\"text\":\"{}\"}},\"line_number\":{},\"lines\":{{\"text\":\"{}\"}}}}}}",
        path, line_number, text
    )
}

fn context_line(path: &str, line_number: u64, text: &str) -> String {
    format!(
        "{{\"type\":\"context\",\"data\":{{\"path\":{{\"text\":\"{}\"}},\"line_number\":{},\"lines\":{{\"text\":\"{}\"}}}}}}",
        path, line_number, text
    )
}

fn record(path: &str, line_number: u64, content: &str, is_match: bool) -> SearchResult {
    SearchResult {
        path: String::from(path),
        line_number,
        content: String::from(content),
        is_match,
    }
}

#[test]
fn match_and_context_are_ordered_by_line_number() {
    let raw = format!(
        "{}\n{}\n",
        match_line("a.txt", 5, "hello"),
        context_line("a.txt", 4, "intro")
    );
    let rs = assemble(raw.as_bytes()).unwrap();
    assert_eq!(
        rs,
        vec![record("a.txt", 4, "intro", false), record("a.txt", 5, "hello", true)]
    );
}

#[test]
fn malformed_line_between_two_valid_ones_is_dropped() {
    let raw = format!(
        "{}\nthis is not an event\n{}\n",
        match_line("a.txt", 1, "one"),
        match_line("a.txt", 2, "two")
    );
    let rs = assemble(raw.as_bytes()).unwrap();
    assert_eq!(
        rs,
        vec![record("a.txt", 1, "one", true), record("a.txt", 2, "two", true)]
    );
}

#[test]
fn output_with_only_other_event_kinds_is_empty_success() {
    let raw = "{\"type\":\"begin\",\"data\":{\"path\":{\"text\":\"a.txt\"}}}\n\
               {\"type\":\"summary\",\"data\":{\"elapsed_total\":{\"secs\":0}}}\n\
               {\"type\":\"end\",\"data\":{\"path\":{\"text\":\"a.txt\"}}}\n";
    let rs = assemble(raw.as_bytes()).unwrap();
    assert!(rs.is_empty());
}

#[test]
fn empty_output_is_empty_success() {
    let rs = assemble(b"").unwrap();
    assert!(rs.is_empty());
}

#[test]
fn blank_separator_lines_are_inert() {
    let raw = format!("\n\n{}\n\n{}\n\n", match_line("a.txt", 2, "x"), match_line("a.txt", 1, "y"));
    let rs = assemble(raw.as_bytes()).unwrap();
    assert_eq!(rs, vec![record("a.txt", 1, "y", true), record("a.txt", 2, "x", true)]);
}

#[test]
fn invalid_encoding_is_a_decode_error() {
    let raw: Vec<u8> = vec![0xff, 0xfe, 0x41];
    assert_eq!(assemble(&raw).unwrap_err(), DecodeError::InvalidEncoding);
}

#[test]
fn event_with_missing_field_is_dropped() {
    // no line_number on the first event; wrong shape on the second
    let raw = "{\"type\":\"match\",\"data\":{\"path\":{\"text\":\"a.txt\"},\"lines\":{\"text\":\"x\"}}}\n\
               {\"type\":\"match\",\"data\":{\"path\":{\"text\":\"a.txt\"},\"line_number\":\"five\",\"lines\":{\"text\":\"x\"}}}\n";
    let rs = assemble(raw.as_bytes()).unwrap();
    assert!(rs.is_empty());
}

#[test]
fn records_are_grouped_by_path_then_line() {
    let raw = format!(
        "{}\n{}\n{}\n{}\n",
        match_line("b.txt", 1, "b1"),
        context_line("a.txt", 9, "a9"),
        match_line("a.txt", 2, "a2"),
        context_line("b.txt", 3, "b3")
    );
    let rs = assemble(raw.as_bytes()).unwrap();
    assert_eq!(
        rs,
        vec![
            record("a.txt", 2, "a2", true),
            record("a.txt", 9, "a9", false),
            record("b.txt", 1, "b1", true),
            record("b.txt", 3, "b3", false),
        ]
    );
}

#[test]
fn equal_path_and_line_keep_arrival_order() {
    // a line that is both a match and another match's context arrives twice
    let raw = format!(
        "{}\n{}\n",
        context_line("a.txt", 7, "dual"),
        match_line("a.txt", 7, "dual")
    );
    let rs = assemble(raw.as_bytes()).unwrap();
    assert_eq!(
        rs,
        vec![record("a.txt", 7, "dual", false), record("a.txt", 7, "dual", true)]
    );
}

#[test]
fn resorting_a_sorted_sequence_is_identity() {
    let raw = format!(
        "{}\n{}\n{}\n",
        match_line("b.txt", 2, "m"),
        context_line("a.txt", 7, "dual"),
        match_line("a.txt", 7, "dual")
    );
    let sorted_once = assemble(raw.as_bytes()).unwrap();
    let sorted_twice = sort_results(sorted_once.clone());
    assert_eq!(sorted_once, sorted_twice);
}

#[test]
fn sort_results_is_stable_on_ties() {
    let v = vec![
        record("a.txt", 1, "first arrival", true),
        record("a.txt", 1, "second arrival", false),
    ];
    let sorted = sort_results(v.clone());
    assert_eq!(sorted, v);
}

#[test]
fn event_with_zero_line_number_is_dropped() {
    let raw = format!("{}\n", match_line("a.txt", 0, "x"));
    let rs = assemble(raw.as_bytes()).unwrap();
    assert!(rs.is_empty());
}

#[test]
fn spawn_failure_is_fatal() {
    assert_eq!(search_outcome(None).unwrap_err(), SearchError::ProcessSpawnFailed);
}

#[test]
fn captured_output_is_assembled_whatever_the_exit_meant() {
    let raw = format!("{}\n", match_line("a.txt", 3, "hit"));
    let rs = search_outcome(Some(raw.into_bytes())).unwrap();
    assert_eq!(rs, vec![record("a.txt", 3, "hit", true)]);
}

#[test]
fn captured_non_text_output_is_a_decode_failure() {
    let r = search_outcome(Some(vec![0xc3, 0x28]));
    assert_eq!(r.unwrap_err(), SearchError::OutputDecodeFailed);
}

#[test]
fn no_matches_means_empty_success() {
    let rs = search_outcome(Some(Vec::new())).unwrap();
    assert!(rs.is_empty());
}
