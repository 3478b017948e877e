use tap::trim::trim_trailing_whitespace;

fn trim_str(s: &str) -> String {
    let chars: Vec<char> = s.chars().collect();
    trim_trailing_whitespace(&chars).into_iter().collect()
}

#[test]
fn test_trim_whitespace() {
    assert_eq!(trim_str("  Line with spaces  \nAnother line \t "), "  Line with spaces\nAnother line");
}

#[test]
fn trim_keeps_leading_whitespace() {
    assert_eq!(trim_str("  indented\t \n\tkept"), "  indented\n\tkept");
}

#[test]
fn trim_empty_and_blank_input() {
    assert_eq!(trim_str(""), "");
    assert_eq!(trim_str("   \t "), "");
    assert_eq!(trim_str("\n"), "");
}

#[test]
fn trim_drops_final_newline() {
    assert_eq!(trim_str("a\nb\n"), "a\nb");
    assert_eq!(trim_str("a\n"), "a");
}

#[test]
fn trim_keeps_inner_empty_lines() {
    assert_eq!(trim_str("a\n\nb"), "a\n\nb");
    assert_eq!(trim_str("a \n \nb"), "a\n\nb");
}

#[test]
fn trim_strips_carriage_returns() {
    assert_eq!(trim_str("one\r\ntwo \r\n"), "one\ntwo");
}

#[test]
fn trim_strips_unicode_whitespace() {
    assert_eq!(trim_str("a\u{a0}\nb\u{2003}\u{202f} "), "a\nb");
    assert_eq!(trim_str("keep\u{a0}inner \u{1680}\n"), "keep\u{a0}inner");
}

#[test]
fn trim_is_idempotent_on_a_sample() {
    let once = trim_str("  Line with spaces  \nAnother line \t ");
    assert_eq!(trim_str(&once), once);
}
