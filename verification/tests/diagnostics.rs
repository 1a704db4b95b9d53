use interp::error::{format_diagnostic, runtime_error, show, syntax_error, Diagnostic, ErrorKind};
use interp::text::decimal_string;

#[test]
fn decimal_numerals() {
    assert_eq!(decimal_string(0), "0");
    assert_eq!(decimal_string(7), "7");
    assert_eq!(decimal_string(10), "10");
    assert_eq!(decimal_string(1234567890), "1234567890");
    assert_eq!(decimal_string(usize::MAX), usize::MAX.to_string());
}

#[test]
fn diagnostic_line_is_built_around_the_tag() {
    assert_eq!(format_diagnostic("Tag", 12, "went wrong"), "\nTag [line 12]: went wrong.");
    assert_eq!(format_diagnostic("", 0, ""), "\n [line 0]: .");
}

#[test]
fn tag_is_bold_red_where_colours_are_on() {
    colored::control::set_override(true);
    assert_eq!(
        syntax_error(&3, "Unterminated string"),
        "\n\u{1b}[1;31mSyntaxError\u{1b}[0m [line 3]: Unterminated string."
    );
    assert_eq!(
        runtime_error(&4, "Expected number"),
        "\n\u{1b}[1;31mRuntimeError\u{1b}[0m [line 4]: Expected number."
    );
    assert_eq!(
        interp::syntax_error(&3, "x"),
        "\n\u{1b}[1;31mSyntaxError\u{1b}[0m [line 3]: x."
    );
    assert_eq!(
        interp::runtime_error(&3, "x"),
        "\n\u{1b}[1;31mRuntimeError\u{1b}[0m [line 3]: x."
    );
}

#[test]
fn tag_is_plain_where_colours_are_off() {
    colored::control::set_override(false);
    assert_eq!(syntax_error(&3, "Unterminated string"), "\nSyntaxError [line 3]: Unterminated string.");
    assert_eq!(runtime_error(&4, "Expected number"), "\nRuntimeError [line 4]: Expected number.");
    assert_eq!(show(ErrorKind::Runtime, 1, "m"), "\nRuntimeError [line 1]: m.");
    let d = Diagnostic::syntax(9, "Unclosed block".to_string());
    assert_eq!(d.to_string(), "\nSyntaxError [line 9]: Unclosed block.");
    let d = Diagnostic::runtime(2, "Division by zero is not allowed".to_string());
    assert_eq!(d.to_string(), "\nRuntimeError [line 2]: Division by zero is not allowed.");
}
