use grimnir::filter::FilterRules;
use grimnir::json::render_json_report;
use grimnir::pipeline::{process_result, EnrichedResult};
use grimnir::probe::normalize_response;
use grimnir::report::render_text_report;
use grimnir::tech::TechRules;

fn enriched(
    url: &str,
    status: u16,
    headers: &[(&str, &str)],
    body: &str,
    ai: bool,
    tech: bool,
) -> EnrichedResult {
    let pairs: Vec<(String, String)> =
        headers.iter().map(|(k, v)| (k.to_string(), v.to_string())).collect();
    let result = normalize_response(url.to_string(), status, &pairs, body);
    let rules = FilterRules::new(vec![], vec![]);
    let tech_rules = TechRules::new().unwrap();
    process_result(result, &rules, &tech_rules, ai, tech, None, None).unwrap()
}

#[test]
fn text_report_lists_every_field_it_has() {
    let e = enriched(
        "http://h/admin",
        200,
        &[("Server", "nginx/1.18")],
        "<title>Admin Panel</title>",
        true,
        true,
    );
    let text = render_text_report(&vec![e]);
    assert_eq!(
        text,
        "URL: http://h/admin\nStatus: 200\nTitle: Admin Panel\nServer: nginx/1.18\n\
         AI Score: 0.80\nInsights: Successful response; Potential sensitive page\n\
         Detected Tech: Nginx\n---\n"
    );
}

#[test]
fn text_report_omits_absent_fields() {
    let e = enriched("http://h/x", 404, &[], "", false, false);
    let text = render_text_report(&vec![e]);
    assert_eq!(text, "URL: http://h/x\nStatus: 404\n---\n");
}

#[test]
fn text_report_concatenates_blocks_in_order() {
    let a = enriched("http://h/a", 200, &[], "", false, false);
    let b = enriched("http://h/b", 301, &[], "", false, false);
    let text = render_text_report(&vec![a, b]);
    assert_eq!(text, "URL: http://h/a\nStatus: 200\n---\nURL: http://h/b\nStatus: 301\n---\n");
}

#[test]
fn json_report_round_trips_with_fields_preserved() {
    let e = enriched(
        "http://h/one",
        200,
        &[("Server", "nginx/1.18"), ("X-Powered-By", "PHP")],
        "<title>Admin Panel</title>",
        true,
        true,
    );
    let json = render_json_report(&vec![e], false);
    let parsed: serde_json::Value = serde_json::from_str(&json).unwrap();
    let arr = parsed.as_array().unwrap();
    assert_eq!(arr.len(), 1);
    let obj = &arr[0];
    assert_eq!(obj["url"].as_str(), Some("http://h/one"));
    assert_eq!(obj["status"].as_u64(), Some(200));
    assert_eq!(obj["headers"]["server"].as_str(), Some("nginx/1.18"));
    assert_eq!(obj["headers"]["x-powered-by"].as_str(), Some("PHP"));
    assert_eq!(obj["headers"].as_object().unwrap().len(), 2);
    assert_eq!(obj["title"].as_str(), Some("Admin Panel"));
    assert_eq!(obj["ai_score"].as_f64(), Some(0.8));
    assert_eq!(
        obj["ai_insights"].as_str(),
        Some("Successful response; Potential sensitive page")
    );
    let tech: Vec<&str> =
        obj["detected_tech"].as_array().unwrap().iter().map(|v| v.as_str().unwrap()).collect();
    assert_eq!(tech, vec!["Nginx", "PHP"]);
}

#[test]
fn disabled_enrichments_serialize_as_null() {
    let e = enriched("http://h/x", 404, &[], "", false, false);
    let json = render_json_report(&vec![e], false);
    let parsed: serde_json::Value = serde_json::from_str(&json).unwrap();
    let obj = &parsed.as_array().unwrap()[0];
    assert!(obj["title"].is_null());
    assert!(obj["ai_score"].is_null());
    assert!(obj["ai_insights"].is_null());
    assert!(obj["detected_tech"].is_null());
}

#[test]
fn special_characters_survive_the_json_escape() {
    let tricky = "<title>quote \" backslash \\ tab \t newline \n done</title>";
    let e = enriched("http://h/\"q\"", 200, &[], tricky, false, false);
    let json = render_json_report(&vec![e], false);
    let parsed: serde_json::Value = serde_json::from_str(&json).unwrap();
    let obj = &parsed.as_array().unwrap()[0];
    assert_eq!(obj["url"].as_str(), Some("http://h/\"q\""));
    // The title stops at the newline-free lazy match, so it is absent here;
    // the body snippet is not serialized, but the URL shows the escape work.
    assert!(obj["title"].is_null());
}

#[test]
fn escaped_title_round_trips_exactly() {
    let body = "<title>a \"b\" c\\d\u{1}e</title>";
    let e = enriched("http://h/t", 200, &[], body, false, false);
    let json = render_json_report(&vec![e], false);
    let parsed: serde_json::Value = serde_json::from_str(&json).unwrap();
    let obj = &parsed.as_array().unwrap()[0];
    assert_eq!(obj["title"].as_str(), Some("a \"b\" c\\d\u{1}e"));
}

#[test]
fn pretty_json_parses_to_the_same_value() {
    let e = enriched("http://h/p", 200, &[("Server", "Apache")], "", true, true);
    let compact = render_json_report(&vec![e], false);
    let e2 = enriched("http://h/p", 200, &[("Server", "Apache")], "", true, true);
    let pretty = render_json_report(&vec![e2], true);
    let a: serde_json::Value = serde_json::from_str(&compact).unwrap();
    let b: serde_json::Value = serde_json::from_str(&pretty).unwrap();
    assert_eq!(a, b);
    assert!(pretty.contains('\n'));
}

#[test]
fn empty_report_is_an_empty_array() {
    let none: Vec<EnrichedResult> = Vec::new();
    assert_eq!(render_json_report(&none, false), "[]");
    assert_eq!(render_json_report(&none, true), "[]");
    assert_eq!(render_text_report(&none), "");
}

#[test]
fn score_number_has_two_decimals() {
    let e = enriched("http://h/s", 200, &[], "", true, false);
    let json = render_json_report(&vec![e], false);
    assert!(json.contains("\"ai_score\":0.50"));
}
