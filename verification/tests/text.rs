use psl::js_error::{parse_field, parse_fields, ContainerAttrs, Field};
use psl::span::Span;
use psl::text::{
    concat3, concat5, concat7, decimal_len, decimal_string, push_padded_decimal, starts_with,
    str_eq, width_of, SourceText,
};

#[test]
fn decimal_numbers() {
    assert_eq!(decimal_string(0), "0");
    assert_eq!(decimal_string(9), "9");
    assert_eq!(decimal_string(10), "10");
    assert_eq!(decimal_string(1234567890), "1234567890");
    assert_eq!(decimal_string(u64::MAX), "18446744073709551615");
    assert_eq!(decimal_len(0), 1);
    assert_eq!(decimal_len(99), 2);
    assert_eq!(decimal_len(100), 3);
    assert_eq!(decimal_len(u64::MAX), 20);
    let mut out = String::from("[");
    push_padded_decimal(&mut out, 7, 3, '0');
    push_padded_decimal(&mut out, 1234, 3, ' ');
    push_padded_decimal(&mut out, 5, 0, 'x');
    assert_eq!(out, "[00712345");
}

#[test]
fn strings_are_compared_by_their_characters() {
    assert!(str_eq("", ""));
    assert!(str_eq("provider", "provider"));
    assert!(!str_eq("provider", "provide"));
    assert!(!str_eq("provider", "provideR"));
    assert!(str_eq("h\u{e9}", "h\u{e9}"));
    assert!(!str_eq("h\u{e9}", "he"));
    assert!(starts_with("postgres://x", "postgres://"));
    assert!(starts_with("abc", ""));
    assert!(starts_with("abc", "abc"));
    assert!(!starts_with("ab", "abc"));
    assert!(!starts_with("\u{e9}abc", "e"));
    assert!(starts_with("\u{e9}abc", "\u{e9}a"));
    assert_eq!(concat3("a", "", "c"), "ac");
    assert_eq!(concat5("1", "2", "3", "4", "5"), "12345");
    assert_eq!(concat7("1", "2", "3", "4", "5", "6", "7"), "1234567");
}

#[test]
fn characters_are_measured_in_bytes() {
    assert_eq!(width_of('a'), 1);
    assert_eq!(width_of('\u{7f}'), 1);
    assert_eq!(width_of('\u{80}'), 2);
    assert_eq!(width_of('\u{7ff}'), 2);
    assert_eq!(width_of('\u{800}'), 3);
    assert_eq!(width_of('\u{ffff}'), 3);
    assert_eq!(width_of('\u{10000}'), 4);
    for c in ['a', '\u{e9}', '\u{20ac}', '\u{1f600}'] {
        assert_eq!(width_of(c), c.len_utf8());
    }
    let text = "a\u{e9}\u{20ac}\u{1f600}z";
    let source = SourceText::new(text);
    assert_eq!(source.len(), 5);
    assert_eq!(source.offsets, vec![0, 1, 3, 6, 10, 11]);
    assert_eq!(source.offset(5), text.len());
    assert_eq!(source.span(1, 3), Span::new(1, 6));
    assert_eq!(source.slice(2, 4), "\u{20ac}\u{1f600}");
    assert_eq!(source.char_index(0), 0);
    assert_eq!(source.char_index(2), 1);
    assert_eq!(source.char_index(3), 2);
    assert_eq!(source.char_index(10), 4);
    assert_eq!(source.char_index(11), 5);
    assert_eq!(source.char_index(99), 5);
    let empty = SourceText::new("");
    assert_eq!(empty.len(), 0);
    assert_eq!(empty.offsets, vec![0]);
}

#[test]
fn lines_of_a_text() {
    let source = SourceText::new("ab\n\ncd");
    assert_eq!(source.line_start_of(0), 0);
    assert_eq!(source.line_start_of(2), 0);
    assert_eq!(source.line_start_of(3), 3);
    assert_eq!(source.line_start_of(6), 4);
    assert_eq!(source.line_stop_of(0), 2);
    assert_eq!(source.line_stop_of(3), 3);
    assert_eq!(source.line_stop_of(4), 6);
    assert_eq!(source.newlines_before_index(2), 0);
    assert_eq!(source.newlines_before_index(3), 1);
    assert_eq!(source.newlines_before_index(6), 2);
}

#[test]
fn message_field_of_an_error_object() {
    assert_eq!(ContainerAttrs::new(None).message_field(), "message");
    assert_eq!(ContainerAttrs::default().message_field(), "message");
    assert_eq!(
        ContainerAttrs::new(Some("some_message".to_string())).message_field(),
        "some_message"
    );
}

#[test]
fn properties_of_an_error_object() {
    let field = |rust: Option<&str>, js: &str, skipped: bool, phantom: bool| Field {
        rust_name: rust.map(|n| n.to_string()),
        js_name: js.to_string(),
        skipped,
        phantom,
    };
    let fields = vec![
        field(Some("code"), "code", false, false),
        field(Some("some_message"), "someMessage", false, false),
        field(Some("hidden"), "hidden", true, false),
        field(None, "0", false, false),
        field(Some("marker"), "marker", false, true),
        field(Some("some_number"), "someNumber", false, false),
    ];
    assert_eq!(
        parse_fields(&fields, "some_message"),
        vec![
            ("code".to_string(), "code".to_string()),
            ("some_number".to_string(), "someNumber".to_string()),
        ]
    );
    assert_eq!(parse_fields(&fields, "message").len(), 3);
    assert_eq!(parse_fields(&Vec::new(), "message"), Vec::new());
    assert_eq!(parse_field(&fields[3]), None);
    assert_eq!(
        parse_field(&fields[1]),
        Some(("some_message".to_string(), "someMessage".to_string()))
    );
}
