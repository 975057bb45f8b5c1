use warehouse::sync::data_payloads;

#[test]
fn data_lines_give_their_payloads() {
    let chunk = "event: update\ndata: [1]\r\n\ndata: [2]\nid: 4\ndata: [3]";
    assert_eq!(data_payloads(chunk), vec!["[1]", "[2]", "[3]"]);
}

#[test]
fn payloads_match_std_lines() {
    let chunk = "data: a\r\ndata: b\rdata: c\n\ndata:d\n data: e\ndata: \n";
    let expected: Vec<String> = chunk
        .lines()
        .filter_map(|l| l.strip_prefix("data: "))
        .map(|s| s.to_string())
        .collect();
    assert_eq!(data_payloads(chunk), expected);
    assert_eq!(data_payloads(chunk), vec!["a", "b\rdata: c", ""]);
}

#[test]
fn a_chunk_without_data_lines_gives_nothing() {
    assert!(data_payloads("").is_empty());
    assert!(data_payloads(": keep-alive\n\n").is_empty());
    assert_eq!(data_payloads("data: x\r"), vec!["x\r"]);
}

#[test]
fn a_final_line_ending_changes_nothing() {
    for chunk in ["data: x", "a\ndata: [1]", "data: a\r\ndata: b"] {
        assert_eq!(data_payloads(chunk), data_payloads(&format!("{chunk}\n")));
    }
}

#[test]
fn every_payload_comes_from_a_data_line() {
    let chunk = "data: one\nretry: 5\ndata: two\r\n";
    for p in data_payloads(chunk) {
        assert!(chunk.lines().any(|l| l == format!("data: {p}")));
    }
}
