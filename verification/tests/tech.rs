use grimnir::probe::normalize_response;
use grimnir::tech::{fingerprint, TechRules};

fn response(headers: &[(&str, &str)], body: &str) -> grimnir::probe::ProbeResult {
    let pairs: Vec<(String, String)> =
        headers.iter().map(|(k, v)| (k.to_string(), v.to_string())).collect();
    normalize_response("http://h/x".to_string(), 200, &pairs, body)
}

#[test]
fn nginx_server_header_is_detected() {
    let rules = TechRules::new().unwrap();
    let r = response(&[("Server", "nginx/1.18")], "");
    assert_eq!(fingerprint(&rules, &r), vec!["Nginx".to_string()]);
}

#[test]
fn server_chain_names_at_most_one() {
    let rules = TechRules::new().unwrap();
    let r = response(&[("Server", "Apache on nginx")], "");
    assert_eq!(fingerprint(&rules, &r), vec!["Apache".to_string()]);
    let iis = response(&[("Server", "Microsoft-IIS/10.0")], "");
    assert_eq!(fingerprint(&rules, &iis), vec!["Microsoft IIS".to_string()]);
}

#[test]
fn powered_by_and_cookies() {
    let rules = TechRules::new().unwrap();
    let php = response(&[("X-Powered-By", "PHP/8.1")], "");
    assert_eq!(fingerprint(&rules, &php), vec!["PHP".to_string()]);
    let express = response(&[("X-Powered-By", "Express")], "");
    assert_eq!(fingerprint(&rules, &express), vec!["Node.js/Express".to_string()]);
    let laravel = response(&[("Set-Cookie", "laravel_session=abc")], "");
    assert_eq!(fingerprint(&rules, &laravel), vec!["Laravel".to_string()]);
    let django = response(&[("Set-Cookie", "csrftoken=xyz")], "");
    assert_eq!(fingerprint(&rules, &django), vec!["Django".to_string()]);
}

#[test]
fn presence_headers_are_detected() {
    let rules = TechRules::new().unwrap();
    let cf = response(&[("CF-Ray", "abc")], "");
    assert_eq!(fingerprint(&rules, &cf), vec!["Cloudflare".to_string()]);
    let aws = response(&[("x-amz-request-id", "1")], "");
    assert_eq!(fingerprint(&rules, &aws), vec!["AWS".to_string()]);
    let shopify = response(&[("X-Shopify-Stage", "production")], "");
    assert_eq!(fingerprint(&rules, &shopify), vec!["Shopify".to_string()]);
}

#[test]
fn title_and_body_signatures() {
    let rules = TechRules::new().unwrap();
    let wp = response(&[], "<title>My WordPress Site</title>");
    assert_eq!(fingerprint(&rules, &wp), vec!["WordPress".to_string()]);
    let drupal = response(&[], "<title>Powered by DRUPAL</title>");
    assert_eq!(fingerprint(&rules, &drupal), vec!["Drupal".to_string()]);
    let react = response(&[], "<script src=\"react-dom.min.js\"></script>");
    assert_eq!(fingerprint(&rules, &react), vec!["React".to_string()]);
    let joomla = response(&[], "index.php?option=com_content&view=article");
    assert_eq!(fingerprint(&rules, &joomla), vec!["Joomla".to_string()]);
}

#[test]
fn wordpress_from_title_and_body_appears_once() {
    let rules = TechRules::new().unwrap();
    let r = response(&[], "<title>wordpress</title> visit wp-login to continue");
    assert_eq!(fingerprint(&rules, &r), vec!["WordPress".to_string()]);
}

#[test]
fn nothing_detected_is_an_empty_list() {
    let rules = TechRules::new().unwrap();
    let r = response(&[("Server", "plain")], "hello");
    assert_eq!(fingerprint(&rules, &r), Vec::<String>::new());
}

#[test]
fn many_signals_come_out_sorted_and_unique() {
    let rules = TechRules::new().unwrap();
    let r = response(
        &[
            ("Server", "nginx"),
            ("X-Powered-By", "PHP"),
            ("CF-Ray", "1"),
            ("x-amz-id-2", "2"),
            ("X-Shopify-Stage", "s"),
            ("Set-Cookie", "laravel_session=1; csrftoken=2"),
        ],
        "<title>wordpress drupal</title> react-dom joomla wp-admin",
    );
    let labels = fingerprint(&rules, &r);
    let expected: Vec<String> = vec![
        "AWS",
        "Cloudflare",
        "Django",
        "Drupal",
        "Joomla",
        "Laravel",
        "Nginx",
        "PHP",
        "React",
        "Shopify",
        "WordPress",
    ]
        .into_iter()
        .map(|s| s.to_string())
        .collect();
    assert_eq!(labels, expected);
    let mut sorted = labels.clone();
    sorted.sort();
    sorted.dedup();
    assert_eq!(labels, sorted);
}
