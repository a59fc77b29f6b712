use grimnir::probe::{infer_content_type, normalize_headers, normalize_response};

fn pairs(raw: &[(&str, &str)]) -> Vec<(String, String)> {
    raw.iter().map(|(k, v)| (k.to_string(), v.to_string())).collect()
}

#[test]
fn header_keys_are_lowercased() {
    let h = normalize_headers(&pairs(&[("Server", "nginx"), ("X-Powered-By", "PHP")]));
    assert_eq!(
        h,
        vec![
            ("server".to_string(), "nginx".to_string()),
            ("x-powered-by".to_string(), "PHP".to_string()),
        ]
    );
}

#[test]
fn duplicate_header_keys_keep_last_value() {
    let h = normalize_headers(&pairs(&[("Server", "one"), ("SERVER", "two"), ("server", "three")]));
    assert_eq!(h, vec![("server".to_string(), "three".to_string())]);
}

#[test]
fn header_lookup_finds_normalized_key() {
    let r = normalize_response("u".to_string(), 200, &pairs(&[("Server", "nginx/1.18")]), "");
    assert_eq!(r.header("server").map(|s| s.as_str()), Some("nginx/1.18"));
    assert!(r.header("missing").is_none());
}

#[test]
fn title_is_extracted_from_body() {
    let r = normalize_response(
        "u".to_string(),
        200,
        &Vec::new(),
        "<html><head><title>Admin Panel</title></head></html>",
    );
    assert_eq!(r.title.as_deref(), Some("Admin Panel"));
}

#[test]
fn title_search_is_lazy() {
    let r = normalize_response("u".to_string(), 200, &Vec::new(), "<title>a</title><title>b</title>");
    assert_eq!(r.title.as_deref(), Some("a"));
}

#[test]
fn title_does_not_cross_line_breaks() {
    let r = normalize_response(
        "u".to_string(),
        200,
        &Vec::new(),
        "<title>a\nb</title><title>c</title>",
    );
    assert_eq!(r.title.as_deref(), Some("c"));
}

#[test]
fn missing_title_is_absent() {
    let r = normalize_response("u".to_string(), 200, &Vec::new(), "<html>no title here</html>");
    assert!(r.title.is_none());
}

#[test]
fn snippet_holds_first_1024_characters() {
    let body: String = "x".repeat(2000);
    let r = normalize_response("u".to_string(), 200, &Vec::new(), &body);
    assert_eq!(r.body_snippet.as_ref().map(|s| s.chars().count()), Some(1024));
}

#[test]
fn short_body_is_kept_whole_and_empty_body_has_no_snippet() {
    let r = normalize_response("u".to_string(), 200, &Vec::new(), "short");
    assert_eq!(r.body_snippet.as_deref(), Some("short"));
    let r2 = normalize_response("u".to_string(), 200, &Vec::new(), "");
    assert!(r2.body_snippet.is_none());
}

#[test]
fn content_type_is_sniffed_from_body_shape() {
    assert_eq!(infer_content_type("{\"a\":1}"), "application/json");
    assert_eq!(infer_content_type("[1,2]"), "application/json");
    assert_eq!(infer_content_type("a=b&c=d"), "application/x-www-form-urlencoded");
    assert_eq!(infer_content_type("plain words"), "text/plain");
    assert_eq!(infer_content_type(""), "text/plain");
}
