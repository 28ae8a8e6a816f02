use admiral::text::trim_line_endings;

#[test]
fn trailing_newline_is_stripped() {
    assert_eq!(trim_line_endings("87%\n"), "87%");
}

#[test]
fn carriage_returns_are_stripped() {
    assert_eq!(trim_line_endings("up\r\n"), "up");
    assert_eq!(trim_line_endings("up\n\n\r"), "up");
    assert_eq!(trim_line_endings("up\r"), "up");
}

#[test]
fn inner_line_breaks_stay() {
    assert_eq!(trim_line_endings("a\nb\r\nc\n"), "a\nb\r\nc");
}

#[test]
fn spaces_and_tabs_stay() {
    assert_eq!(trim_line_endings(" a \n"), " a ");
    assert_eq!(trim_line_endings("\ta\t"), "\ta\t");
}

#[test]
fn only_line_endings_give_empty_text() {
    assert_eq!(trim_line_endings("\n\r\n"), "");
    assert_eq!(trim_line_endings(""), "");
}

#[test]
fn text_beyond_ascii_is_kept() {
    assert_eq!(trim_line_endings("\u{2665} 21\u{b0}C\r\n"), "\u{2665} 21\u{b0}C");
    assert_eq!(trim_line_endings("21\u{b0}\n\u{2665}"), "21\u{b0}\n\u{2665}");
}

#[test]
fn trimming_twice_changes_nothing() {
    let once = trim_line_endings("\r\nload 0.42\n");
    assert_eq!(trim_line_endings(&once), once);
}

#[test]
fn leading_line_endings_stay() {
    assert_eq!(trim_line_endings("\nA\n"), "\nA");
    assert_eq!(trim_line_endings("\r\n\rup\n\n\r"), "\r\n\rup");
    assert_eq!(trim_line_endings("\n\nA"), "\n\nA");
}
