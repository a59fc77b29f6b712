use grimnir::args::{normalize_method, parse_header_line, parse_output_spec, OutputFormat};

#[test]
fn header_line_splits_at_first_colon_and_trims() {
    let (k, v) = parse_header_line("X-Api-Key:  SECRET-REDACTED  ").unwrap();
    assert_eq!(k, "X-Api-Key");
    assert_eq!(v, "SECRET-REDACTED");
}

#[test]
fn header_value_may_contain_colons() {
    let (k, v) = parse_header_line("Referer: http://h:8080/a").unwrap();
    assert_eq!(k, "Referer");
    assert_eq!(v, "http://h:8080/a");
}

#[test]
fn header_line_without_colon_is_malformed() {
    assert!(parse_header_line("NoColonHere").is_none());
}

#[test]
fn methods_are_uppercased_and_validated() {
    assert_eq!(normalize_method("get"), ("GET".to_string(), false));
    assert_eq!(normalize_method("Post"), ("POST".to_string(), false));
    assert_eq!(normalize_method("HEAD"), ("HEAD".to_string(), false));
    assert_eq!(normalize_method("put"), ("PUT".to_string(), false));
}

#[test]
fn unsupported_method_falls_back_to_get_with_a_warning() {
    assert_eq!(normalize_method("DELETE"), ("GET".to_string(), true));
    assert_eq!(normalize_method(""), ("GET".to_string(), true));
}

#[test]
fn output_formats_resolve_once() {
    assert_eq!(parse_output_spec("terminal"), (OutputFormat::Terminal, None, false));
    assert_eq!(parse_output_spec("JSON"), (OutputFormat::Json, None, false));
    assert_eq!(
        parse_output_spec("pretty-json:out.json"),
        (OutputFormat::PrettyJson, Some("out.json".to_string()), false),
    );
}

#[test]
fn output_path_may_be_empty() {
    assert_eq!(parse_output_spec("json:"), (OutputFormat::Json, Some(String::new()), false));
}

#[test]
fn unknown_format_falls_back_to_terminal_with_a_warning() {
    assert_eq!(parse_output_spec("yaml"), (OutputFormat::Terminal, None, true));
    let (fmt, path, unknown) = parse_output_spec("xml:report.xml");
    assert_eq!(fmt, OutputFormat::Terminal);
    assert_eq!(path, Some("report.xml".to_string()));
    assert!(unknown);
}
