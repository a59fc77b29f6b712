use grimnir::filter::{should_drop, FilterRules};
use grimnir::probe::normalize_response;

fn result_with_title(status: u16, title_body: &str) -> grimnir::probe::ProbeResult {
    normalize_response("http://h/x".to_string(), status, &Vec::new(), title_body)
}

#[test]
fn excluded_status_is_dropped() {
    let rules = FilterRules::new(vec![404, 500], vec![]);
    let r = result_with_title(404, "");
    assert!(should_drop(&r, &rules));
    let kept = result_with_title(200, "");
    assert!(!should_drop(&kept, &rules));
}

#[test]
fn size_filter_drops_below_any_threshold() {
    // The size proxy is the title's byte length; "abc" is 3 bytes.
    let rules = FilterRules::new(vec![], vec![2, 10]);
    let r = result_with_title(200, "<title>abc</title>");
    assert!(should_drop(&r, &rules));
    let rules_small = FilterRules::new(vec![], vec![2]);
    assert!(!should_drop(&r, &rules_small));
}

#[test]
fn missing_title_counts_as_size_zero() {
    let rules = FilterRules::new(vec![], vec![1]);
    let r = result_with_title(200, "");
    assert!(should_drop(&r, &rules));
}

#[test]
fn regex_on_title_drops_regardless_of_status() {
    let mut rules = FilterRules::new(vec![], vec![]);
    assert!(rules.add_pattern("error").is_none());
    let r200 = result_with_title(200, "<title>500 error</title>");
    let r500 = result_with_title(500, "<title>500 error</title>");
    assert!(should_drop(&r200, &rules));
    assert!(should_drop(&r500, &rules));
    let clean = result_with_title(200, "<title>welcome</title>");
    assert!(!should_drop(&clean, &rules));
}

#[test]
fn regex_matches_url_body_and_server_header() {
    let mut rules = FilterRules::new(vec![], vec![]);
    assert!(rules.add_pattern("^http://h/secret$").is_none());
    let by_url = normalize_response("http://h/secret".to_string(), 200, &Vec::new(), "");
    assert!(should_drop(&by_url, &rules));

    let mut by_body_rules = FilterRules::new(vec![], vec![]);
    assert!(by_body_rules.add_pattern("forbidden").is_none());
    let by_body = result_with_title(200, "this page is forbidden");
    assert!(should_drop(&by_body, &by_body_rules));

    let mut by_server_rules = FilterRules::new(vec![], vec![]);
    assert!(by_server_rules.add_pattern("nginx").is_none());
    let headers = vec![("Server".to_string(), "nginx/1.18".to_string())];
    let by_server = normalize_response("http://h/a".to_string(), 200, &headers, "");
    assert!(should_drop(&by_server, &by_server_rules));
}

#[test]
fn invalid_pattern_is_reported_and_skipped() {
    let mut rules = FilterRules::new(vec![], vec![]);
    let err = rules.add_pattern("(unclosed");
    assert!(err.is_some());
    // The broken pattern filters nothing.
    let r = result_with_title(200, "<title>(unclosed</title>");
    assert!(!should_drop(&r, &rules));
}

#[test]
fn no_rules_keep_everything() {
    let rules = FilterRules::new(vec![], vec![]);
    let r = result_with_title(404, "<title>error</title>");
    assert!(!should_drop(&r, &rules));
}

#[test]
fn filter_is_deterministic() {
    let mut rules = FilterRules::new(vec![403], vec![]);
    assert!(rules.add_pattern("err").is_none());
    let r = result_with_title(403, "<title>err page</title>");
    let first = should_drop(&r, &rules);
    let second = should_drop(&r, &rules);
    assert_eq!(first, second);
    assert!(first);
}
