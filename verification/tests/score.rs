use grimnir::probe::normalize_response;
use grimnir::score::{analyze, SentimentReading};

fn response(status: u16, headers: &[(&str, &str)], body: &str) -> grimnir::probe::ProbeResult {
    let pairs: Vec<(String, String)> =
        headers.iter().map(|(k, v)| (k.to_string(), v.to_string())).collect();
    normalize_response("http://h/x".to_string(), status, &pairs, body)
}

#[test]
fn success_and_sensitive_title_reach_eighty() {
    let r = response(200, &[], "<title>Admin Panel</title>");
    let a = analyze(&r, None, None);
    assert_eq!(a.score_centi, 80);
    assert_eq!(
        a.insights,
        vec!["Successful response".to_string(), "Potential sensitive page".to_string()]
    );
}

#[test]
fn interesting_server_adds_twenty() {
    let r = response(200, &[("Server", "Apache/2.4")], "");
    let a = analyze(&r, None, None);
    assert_eq!(a.score_centi, 70);
    assert_eq!(
        a.insights,
        vec!["Successful response".to_string(), "Interesting server: Apache/2.4".to_string()]
    );
}

#[test]
fn server_check_is_case_sensitive() {
    // "nginx" in lower case is not one of the scorer's server names.
    let r = response(200, &[("Server", "nginx/1.18")], "");
    let a = analyze(&r, None, None);
    assert_eq!(a.score_centi, 50);
}

#[test]
fn login_in_title_is_sensitive_whatever_the_case() {
    let r = response(404, &[], "<title>LOGIN page</title>");
    let a = analyze(&r, None, None);
    assert_eq!(a.score_centi, 30);
    assert_eq!(a.insights, vec!["Potential sensitive page".to_string()]);
}

#[test]
fn all_positive_contributions_reach_the_maximum() {
    let r = response(200, &[("Server", "Nginx")], "<title>admin login</title>");
    let a = analyze(&r, None, None);
    assert_eq!(a.score_centi, 100);
}

#[test]
fn negative_title_sentiment_subtracts_when_confident() {
    let r = response(200, &[], "<title>bad things</title>");
    let reading = SentimentReading { negative: true, confidence_centi: 85 };
    let a = analyze(&r, Some(reading), None);
    assert_eq!(a.score_centi, 30);
    assert_eq!(
        a.insights,
        vec![
            "Successful response".to_string(),
            "Negative sentiment in title (score: 0.85)".to_string(),
        ]
    );
}

#[test]
fn weak_sentiment_is_ignored() {
    let r = response(200, &[], "<title>meh</title>");
    let reading = SentimentReading { negative: true, confidence_centi: 70 };
    let a = analyze(&r, Some(reading), None);
    assert_eq!(a.score_centi, 50);
    assert_eq!(a.insights, vec!["Successful response".to_string()]);
}

#[test]
fn score_is_clamped_at_zero() {
    // No positive contribution, both sentiment readings firing: raw is -30.
    let r = response(404, &[], "<title>terrible</title>");
    let title_reading = SentimentReading { negative: true, confidence_centi: 95 };
    let body_reading = SentimentReading { negative: true, confidence_centi: 90 };
    let a = analyze(&r, Some(title_reading), Some(body_reading));
    assert_eq!(a.score_centi, 0);
    assert_eq!(a.insights.len(), 2);
}

#[test]
fn body_sentiment_has_a_higher_bar() {
    let r = response(200, &[], "<title>t</title>");
    let body_reading = SentimentReading { negative: true, confidence_centi: 80 };
    let a = analyze(&r, None, Some(body_reading));
    // 0.80 is not above the 0.80 body threshold.
    assert_eq!(a.score_centi, 50);
    let stronger = SentimentReading { negative: true, confidence_centi: 81 };
    let b = analyze(&r, None, Some(stronger));
    assert_eq!(b.score_centi, 40);
    assert_eq!(b.insights[1], "Negative sentiment in body snippet (score: 0.81)");
}

#[test]
fn absent_capability_changes_nothing() {
    let r = response(200, &[], "<title>awful horrid page</title>");
    let a = analyze(&r, None, None);
    assert_eq!(a.score_centi, 50);
}

#[test]
fn scorer_is_deterministic() {
    let r = response(200, &[("Server", "IIS/10")], "<title>admin</title>");
    let reading = SentimentReading { negative: true, confidence_centi: 99 };
    let a = analyze(&r, Some(reading), None);
    let b = analyze(&r, Some(reading), None);
    assert_eq!(a.score_centi, b.score_centi);
    assert_eq!(a.insights, b.insights);
}
