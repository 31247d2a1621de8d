use todo_tui::split_to_fit;

fn rejoin(first: &str, rest: &[&str]) -> String {
    let mut s = String::from(first);
    for part in rest {
        s.push_str(part);
    }
    s
}

#[test]
fn empty_string_fits() {
    let (first, rest) = split_to_fit("", 5);
    assert_eq!(first, "");
    assert!(rest.is_empty());
}

#[test]
fn exactly_at_width() {
    let (first, rest) = split_to_fit("abcde", 5);
    assert_eq!(first, "abcde");
    assert!(rest.is_empty());
}

#[test]
fn one_over_width() {
    let (first, rest) = split_to_fit("abcdef", 5);
    assert_eq!(first, "abcde");
    assert_eq!(rest, vec!["f"]);
}

#[test]
fn long_line_many_segments() {
    let (first, rest) = split_to_fit("abcdefghij", 3);
    assert_eq!(first, "abc");
    assert_eq!(rest, vec!["def", "ghi", "j"]);
}

#[test]
fn wide_characters_take_two_columns() {
    // Each CJK character is two columns wide, so only two fit in five.
    let (first, rest) = split_to_fit("\u{65e5}\u{672c}\u{8a9e}", 5);
    assert_eq!(first, "\u{65e5}\u{672c}");
    assert_eq!(rest, vec!["\u{8a9e}"]);
}

#[test]
fn wide_character_forced_through_narrow_budget() {
    // A two-column character in a one-column budget still makes a
    // one-character segment, so splitting always makes progress.
    let (first, rest) = split_to_fit("\u{65e5}\u{672c}\u{8a9e}", 1);
    assert_eq!(first, "\u{65e5}");
    assert_eq!(rest, vec!["\u{672c}", "\u{8a9e}"]);
}

#[test]
fn zero_width_character_rides_along() {
    // A zero-width space adds no columns, so it stays in the first
    // segment even at width one.
    let (first, rest) = split_to_fit("a\u{200b}b", 1);
    assert_eq!(first, "a\u{200b}");
    assert_eq!(rest, vec!["b"]);
}

#[test]
fn zero_budget_forces_single_characters() {
    let (first, rest) = split_to_fit("abc", 0);
    assert_eq!(first, "a");
    assert_eq!(rest, vec!["b", "c"]);
}

#[test]
fn concatenation_reproduces_input() {
    let inputs = [
        "",
        "hello world",
        "a\u{200b}b",
        "\u{65e5}\u{672c}\u{8a9e} mixed width \u{ff21}\u{ff22}",
        "exactly-ten",
    ];
    for s in inputs {
        for w in 0..12 {
            let (first, rest) = split_to_fit(s, w);
            assert_eq!(rejoin(first, &rest), s, "w={}", w);
        }
    }
}
