use gofi::gdbus::{
    activate_window, decimal_string, extract_json_from_gdbus, gdbus_args, gdbus_payload_defined,
    list_windows,
};

#[test]
fn test_extract_json_from_gdbus() {
    let input = "('[{\"id\": 1, \"title\": \"Term\"}]',)";
    let output = extract_json_from_gdbus(input);
    assert_eq!(output, "[{\"id\": 1, \"title\": \"Term\"}]");

    let input_no_comma = "('[{\"id\": 1}]')";
    let output_no_comma = extract_json_from_gdbus(input_no_comma);
    assert_eq!(output_no_comma, "[{\"id\": 1}]");

    let input_raw = "[{\"id\": 1}]";
    let output_raw = extract_json_from_gdbus(input_raw);
    assert_eq!(output_raw, "[{\"id\": 1}]");

    let input_escaped_quote = "('[{\"title\": \"\\\"Quoted\\\"\"}]',)";
    let output_escaped = extract_json_from_gdbus(input_escaped_quote);
    assert_eq!(output_escaped, "[{\"title\": \"\"Quoted\"\"}]");
}

#[test]
fn extract_trims_white_space_around_the_tuple() {
    let input = "  \n('[1, 2]',)\n\t";
    assert_eq!(extract_json_from_gdbus(input), "[1, 2]");
}

#[test]
fn extract_falls_back_to_outer_brackets() {
    let input = "(<'[{\"a\": [1]}]'>,)";
    assert_eq!(extract_json_from_gdbus(input), "[{\"a\": [1]}]");
}

#[test]
fn extract_without_brackets_returns_trimmed_text() {
    assert_eq!(extract_json_from_gdbus("  hello  "), "hello");
    assert_eq!(extract_json_from_gdbus("[ no end"), "[ no end");
    assert_eq!(extract_json_from_gdbus(""), "");
}

#[test]
fn extract_unescapes_quotes_then_backslashes() {
    // \\" is a backslash escape followed by a quote escape's quote.
    let input = "('a\\\\b \\\"c\\\" \\\\\\\\',)";
    assert_eq!(extract_json_from_gdbus(input), "a\\b \"c\" \\\\");
}

#[test]
fn extract_adjacent_brackets() {
    // The last ']' just before the first '[' gives an empty span.
    assert_eq!(extract_json_from_gdbus("x][y"), "");
}

#[test]
fn payload_defined_on_ordinary_and_overlapping_outputs() {
    assert!(gdbus_payload_defined("('[]',)"));
    assert!(gdbus_payload_defined("('')"));
    assert!(gdbus_payload_defined("plain text"));
    assert!(!gdbus_payload_defined("(',)"));
    assert!(!gdbus_payload_defined(" (') "));
    assert!(!gdbus_payload_defined("]ab["));
}

#[test]
fn list_and_activate_calls() {
    let list = list_windows();
    assert_eq!(list.method, "org.gnome.Shell.Extensions.Windows.List");
    assert!(list.arg.is_none());

    let activate = activate_window(123456789);
    assert_eq!(activate.method, "org.gnome.Shell.Extensions.Windows.Activate");
    assert_eq!(activate.arg.as_deref(), Some("123456789"));
}

#[test]
fn decimal_matches_to_string() {
    for n in [0i64, 7, 10, -1, -10, 2147483647, i64::MAX, i64::MIN] {
        assert_eq!(decimal_string(n), n.to_string());
    }
}

#[test]
fn gdbus_command_line() {
    let args = gdbus_args(&activate_window(42));
    assert_eq!(
        args,
        vec![
            "call",
            "--session",
            "--dest",
            "org.gnome.Shell",
            "--object-path",
            "/org/gnome/Shell/Extensions/Windows",
            "--method",
            "org.gnome.Shell.Extensions.Windows.Activate",
            "42",
        ]
    );
    let args = gdbus_args(&list_windows());
    assert_eq!(args.len(), 8);
    assert_eq!(args[7], "org.gnome.Shell.Extensions.Windows.List");
}
