use todo_tui::codec::{parse_lines, serialize_lines, ParseError};

fn strings(v: &[&str]) -> Vec<String> {
    v.iter().map(|s| s.to_string()).collect()
}

#[test]
fn serialize_prefixes_each_line() {
    let lines = serialize_lines(&strings(&["buy milk", "call home"]), &strings(&["done one"]));
    assert_eq!(
        lines,
        strings(&["TODO: buy milk", "TODO: call home", "DONE: done one"])
    );
}

#[test]
fn serialize_done_only() {
    let lines = serialize_lines(&strings(&[]), &strings(&["buy milk"]));
    assert_eq!(lines, strings(&["DONE: buy milk"]));
}

#[test]
fn parse_empty_file_gives_empty_lists() {
    let (todos, dones) = parse_lines(&strings(&[])).unwrap();
    assert!(todos.is_empty());
    assert!(dones.is_empty());
}

#[test]
fn parse_interleaved_keeps_order() {
    let (todos, dones) =
        parse_lines(&strings(&["DONE: x", "TODO: a", "DONE: y", "TODO: b"])).unwrap();
    assert_eq!(todos, strings(&["a", "b"]));
    assert_eq!(dones, strings(&["x", "y"]));
}

#[test]
fn parse_rejects_malformed_line() {
    let r = parse_lines(&strings(&["nonsense"]));
    assert_eq!(r.unwrap_err(), ParseError::MalformedLine(0));
}

#[test]
fn parse_reports_first_malformed_line() {
    let r = parse_lines(&strings(&["TODO: ok", "DONE: ok", "TOD0: broken"]));
    assert_eq!(r.unwrap_err(), ParseError::MalformedLine(2));
}

#[test]
fn round_trip_plain() {
    let todos = strings(&["buy milk", "call home"]);
    let dones = strings(&["water plants"]);
    let (t2, d2) = parse_lines(&serialize_lines(&todos, &dones)).unwrap();
    assert_eq!(t2, todos);
    assert_eq!(d2, dones);
}

#[test]
fn round_trip_unicode_and_spaces() {
    let todos = strings(&["caf\u{e9} \u{65e5}\u{672c}\u{8a9e}", "  leading spaces", ""]);
    let dones = strings(&["tricky TODO: inside", "DONE: also inside", "trailing  "]);
    let (t2, d2) = parse_lines(&serialize_lines(&todos, &dones)).unwrap();
    assert_eq!(t2, todos);
    assert_eq!(d2, dones);
}

#[test]
fn round_trip_empty_document() {
    let (t2, d2) = parse_lines(&serialize_lines(&strings(&[]), &strings(&[]))).unwrap();
    assert!(t2.is_empty());
    assert!(d2.is_empty());
}
