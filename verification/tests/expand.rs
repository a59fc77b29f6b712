use grimnir::expand::{expand_targets, generate_urls, replace_placeholder};

#[test]
fn one_url_per_word_in_order() {
    let words = vec!["admin".to_string(), "login".to_string()];
    let urls = generate_urls("http://h/FUZZ", &words);
    assert_eq!(urls, vec!["http://h/admin".to_string(), "http://h/login".to_string()]);
}

#[test]
fn every_occurrence_is_substituted() {
    assert_eq!(replace_placeholder("http://FUZZ.example/FUZZ?q=FUZZ", "x"), "http://x.example/x?q=x");
}

#[test]
fn template_without_placeholder_is_unchanged() {
    assert_eq!(replace_placeholder("http://example.com/static", "word"), "http://example.com/static");
}

#[test]
fn empty_wordlist_yields_no_targets() {
    let words: Vec<String> = vec![];
    let targets = expand_targets("http://h/FUZZ", &None, &words);
    assert_eq!(targets.len(), 0);
}

#[test]
fn repeated_words_yield_repeated_targets() {
    let words = vec!["a".to_string(), "a".to_string()];
    let targets = expand_targets("http://h/FUZZ", &None, &words);
    assert_eq!(targets.len(), 2);
    assert_eq!(targets[0].url, "http://h/a");
    assert_eq!(targets[1].url, "http://h/a");
}

#[test]
fn body_template_is_substituted_too() {
    let words = vec!["tok".to_string()];
    let body = Some("user=FUZZ&mode=FUZZ".to_string());
    let targets = expand_targets("http://h/FUZZ", &body, &words);
    assert_eq!(targets[0].url, "http://h/tok");
    assert_eq!(targets[0].body.as_deref(), Some("user=tok&mode=tok"));
}

#[test]
fn no_body_template_means_no_body() {
    let words = vec!["w".to_string()];
    let targets = expand_targets("http://h/FUZZ", &None, &words);
    assert!(targets[0].body.is_none());
}

#[test]
fn overlapping_text_replaces_leftmost_nonoverlapping() {
    // The scan is left to right over non-overlapping occurrences.
    assert_eq!(replace_placeholder("FUZFUZZZ", "-"), "FUZ-Z");
}
