use apk_downloader::parse_csv_text;

#[test]
fn column_two_in_order() {
    let rows = "a,1\nb,2\nc,3";
    assert_eq!(parse_csv_text(rows, 2), vec!["1", "2", "3"]);
}

#[test]
fn column_one_in_order() {
    let rows = "a,1\nb,2\nc,3";
    assert_eq!(parse_csv_text(rows, 1), vec!["a", "b", "c"]);
}

#[test]
fn extraction_is_deterministic() {
    let rows = "a,1\nb,2\nc,3";
    let first = parse_csv_text(rows, 2);
    let second = parse_csv_text(rows, 2);
    assert_eq!(first, second);
}

#[test]
fn trailing_blank_line_excluded() {
    assert_eq!(parse_csv_text("com.foo.bar,1000\ncom.baz.qux,500\n", 1), vec![
        "com.foo.bar",
        "com.baz.qux",
    ]);
}

#[test]
fn whitespace_only_line_excluded() {
    assert_eq!(parse_csv_text("a,1\n   \nb,2", 1), vec!["a", "b"]);
}

#[test]
fn empty_line_excluded() {
    assert_eq!(parse_csv_text("a\n\nb", 1), vec!["a", "b"]);
}

#[test]
fn short_line_excluded() {
    assert_eq!(parse_csv_text("a,1\nonlyone\nb,2", 2), vec!["1", "2"]);
}

#[test]
fn empty_text_yields_nothing() {
    assert_eq!(parse_csv_text("", 1), Vec::<String>::new());
}

#[test]
fn single_column_file() {
    assert_eq!(parse_csv_text("com.foo\ncom.bar\n", 1), vec!["com.foo", "com.bar"]);
}

#[test]
fn values_are_trimmed() {
    assert_eq!(parse_csv_text("  a , 1 \r\n b ,2", 1), vec!["a", "b"]);
    assert_eq!(parse_csv_text("a, 1 \nb, 2", 2), vec!["1", "2"]);
}

#[test]
fn carriage_return_line_endings() {
    assert_eq!(parse_csv_text("a,1\r\nb,2\r\n", 1), vec!["a", "b"]);
}

#[test]
fn third_column() {
    assert_eq!(parse_csv_text("x,y,z\np,q,r", 3), vec!["z", "r"]);
}

#[test]
fn empty_middle_field_kept() {
    assert_eq!(parse_csv_text("a,,c", 2), vec![""]);
}
