use grimnir::expand::expand_targets;
use grimnir::filter::FilterRules;
use grimnir::pipeline::{process_result, EnrichedResult};
use grimnir::probe::normalize_response;
use grimnir::tech::TechRules;

// A mock transport: the canned status and body for each expanded URL.
fn mock_send(url: &str) -> (u16, Vec<(String, String)>, String) {
    if url == "http://h/admin" {
        (200, Vec::new(), "<title>Admin Panel</title>".to_string())
    } else {
        (404, Vec::new(), String::new())
    }
}

#[test]
fn status_filter_and_scoring_keep_one_enriched_result() {
    let words = vec!["admin".to_string(), "login".to_string()];
    let targets = expand_targets("http://h/FUZZ", &None, &words);
    let rules = FilterRules::new(vec![404], vec![]);
    let tech_rules = TechRules::new().unwrap();

    let mut kept: Vec<EnrichedResult> = Vec::new();
    for t in &targets {
        let (status, headers, body) = mock_send(&t.url);
        let result = normalize_response(t.url.clone(), status, &headers, &body);
        if let Some(e) = process_result(result, &rules, &tech_rules, true, false, None, None) {
            kept.push(e);
        }
    }

    assert_eq!(kept.len(), 1);
    assert_eq!(kept[0].result.url, "http://h/admin");
    let analysis = kept[0].analysis.as_ref().unwrap();
    assert!(analysis.score_centi >= 80);
    assert!(kept[0].detected_tech.is_none());
}

#[test]
fn dropped_results_never_reach_enrichment() {
    let rules = FilterRules::new(vec![500], vec![]);
    let tech_rules = TechRules::new().unwrap();
    let result = normalize_response("http://h/x".to_string(), 500, &Vec::new(), "");
    let out = process_result(result, &rules, &tech_rules, true, true, None, None);
    assert!(out.is_none());
}

#[test]
fn enrichment_stages_follow_their_switches() {
    let rules = FilterRules::new(vec![], vec![]);
    let tech_rules = TechRules::new().unwrap();
    let headers = vec![("Server".to_string(), "nginx/1.18".to_string())];
    let result = normalize_response("http://h/a".to_string(), 200, &headers, "");
    let e = process_result(result, &rules, &tech_rules, false, true, None, None).unwrap();
    assert!(e.analysis.is_none());
    assert_eq!(e.detected_tech.as_ref().unwrap(), &vec!["Nginx".to_string()]);
}
