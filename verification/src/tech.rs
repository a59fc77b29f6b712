//! The technology fingerprinter: maps a kept probe result to a sorted,
//! duplicate-free set of technology labels via independent signature rules
//! over headers, title and body snippet.

use vstd::prelude::*;

use crate::patterns::{compile_pattern, regex_compiles, regex_is_match, regex_match, regex_pattern};
use crate::probe::ProbeResult;
use crate::text::{
    chars_of,
    contains_chars,
    lemma_lex_lt_irreflexive,
    lemma_lex_lt_transitive,
    lex_lt,
    spec_contains,
    strictly_sorted,
};

verus! {

/// The compiled title and body signature patterns, built once at startup.
pub struct TechRules {
    pub wp_title: regex::Regex,
    pub drupal_title: regex::Regex,
    pub react_body: regex::Regex,
    pub joomla_body: regex::Regex,
    pub wp_body: regex::Regex,
}

impl TechRules {
    /// Each compiled rule carries exactly the signature pattern of the
    /// design.
    pub open spec fn wf(&self) -> bool {
        &&& regex_pattern(self.wp_title) == "(?i)wordpress|wp-content"@
        &&& regex_pattern(self.drupal_title) == "(?i)drupal"@
        &&& regex_pattern(self.react_body) == "(?i)react-dom"@
        &&& regex_pattern(self.joomla_body) == "(?i)joomla|com_content"@
        &&& regex_pattern(self.wp_body) == "(?i)wp-admin|wp-login"@
    }

    /// Compiles the signature patterns: this succeeds exactly when all five
    /// fixed patterns compile, which in practice is always.
    pub fn new() -> (r: Option<TechRules>)
        ensures
            r is Some <==> (regex_compiles("(?i)wordpress|wp-content"@) && regex_compiles(
                "(?i)drupal"@,
            ) && regex_compiles("(?i)react-dom"@) && regex_compiles("(?i)joomla|com_content"@)
                && regex_compiles("(?i)wp-admin|wp-login"@)),
            r matches Some(t) ==> t.wf(),
    {
        let wp_title = match compile_pattern("(?i)wordpress|wp-content") {
            Ok(re) => re,
            Err(_) => {
                return None;
            },
        };
        let drupal_title = match compile_pattern("(?i)drupal") {
            Ok(re) => re,
            Err(_) => {
                return None;
            },
        };
        let react_body = match compile_pattern("(?i)react-dom") {
            Ok(re) => re,
            Err(_) => {
                return None;
            },
        };
        let joomla_body = match compile_pattern("(?i)joomla|com_content") {
            Ok(re) => re,
            Err(_) => {
                return None;
            },
        };
        let wp_body = match compile_pattern("(?i)wp-admin|wp-login") {
            Ok(re) => re,
            Err(_) => {
                return None;
            },
        };
        Some(TechRules { wp_title, drupal_title, react_body, joomla_body, wp_body })
    }
}

/// The number of signature labels.
pub open spec fn label_count() -> int {
    14
}

/// The technology labels, in their sorted order.
pub open spec fn label(n: int) -> Seq<char> {
    if n == 0 {
        "AWS"@
    } else if n == 1 {
        "Apache"@
    } else if n == 2 {
        "Cloudflare"@
    } else if n == 3 {
        "Django"@
    } else if n == 4 {
        "Drupal"@
    } else if n == 5 {
        "Joomla"@
    } else if n == 6 {
        "Laravel"@
    } else if n == 7 {
        "Microsoft IIS"@
    } else if n == 8 {
        "Nginx"@
    } else if n == 9 {
        "Node.js/Express"@
    } else if n == 10 {
        "PHP"@
    } else if n == 11 {
        "React"@
    } else if n == 12 {
        "Shopify"@
    } else {
        "WordPress"@
    }
}

/// Whether signature rule `n` detects its technology on this result. The
/// server and x-powered-by rules are first-match chains: each names at most
/// one technology. Opaque: callers reason through `DetectFlags::matches`.
#[verifier::opaque]
pub open spec fn spec_detects(r: &ProbeResult, n: int) -> bool {
    let server = r.spec_header("server"@);
    let powered = r.spec_header("x-powered-by"@);
    let cookie = r.spec_header("set-cookie"@);
    let apache = server matches Some(v) && spec_contains(v, "Apache"@);
    let nginx = server matches Some(v) && !spec_contains(v, "Apache"@) && spec_contains(
        v,
        "nginx"@,
    );
    let php = powered matches Some(p) && spec_contains(p, "PHP"@);
    let express = powered matches Some(p) && !spec_contains(p, "PHP"@) && spec_contains(
        p,
        "Express"@,
    );
    if n == 0 {
        // AWS
        r.spec_header("x-amz-id-2"@) is Some || r.spec_header("x-amz-request-id"@) is Some
    } else if n == 1 {
        // Apache
        apache
    } else if n == 2 {
        // Cloudflare
        r.spec_header("cf-ray"@) is Some || r.spec_header("cf-cache-status"@) is Some
    } else if n == 3 {
        // Django: the powered-by chain, or the csrftoken cookie
        ||| (powered matches Some(p) && !spec_contains(p, "PHP"@) && !spec_contains(p, "Express"@)
            && spec_contains(p, "Django"@))
        ||| (cookie matches Some(c) && spec_contains(c, "csrftoken"@))
    } else if n == 4 {
        // Drupal
        r.title matches Some(t) && regex_match("(?i)drupal"@, t@)
    } else if n == 5 {
        // Joomla
        r.body_snippet matches Some(b) && regex_match("(?i)joomla|com_content"@, b@)
    } else if n == 6 {
        // Laravel
        cookie matches Some(c) && spec_contains(c, "laravel_session"@)
    } else if n == 7 {
        // Microsoft IIS
        server matches Some(v) && !spec_contains(v, "Apache"@) && !spec_contains(v, "nginx"@)
            && spec_contains(v, "IIS"@)
    } else if n == 8 {
        // Nginx
        nginx
    } else if n == 9 {
        // Node.js/Express
        express
    } else if n == 10 {
        // PHP
        php
    } else if n == 11 {
        // React
        r.body_snippet matches Some(b) && regex_match("(?i)react-dom"@, b@)
    } else if n == 12 {
        // Shopify
        r.spec_header("x-shopify-stage"@) is Some
    } else {
        // WordPress: the title signature or the body signature
        ||| (r.title matches Some(t) && regex_match("(?i)wordpress|wp-content"@, t@))
        ||| (r.body_snippet matches Some(b) && regex_match("(?i)wp-admin|wp-login"@, b@))
    }
}

/// The labels of the first `n` rules that fire, in label order.
pub open spec fn spec_fp_upto(r: &ProbeResult, n: int) -> Seq<Seq<char>>
    decreases n,
{
    if n <= 0 {
        Seq::empty()
    } else if spec_detects(r, n - 1) {
        spec_fp_upto(r, n - 1).push(label(n - 1))
    } else {
        spec_fp_upto(r, n - 1)
    }
}

/// The fingerprint: the labels of every signature rule that fires.
pub open spec fn spec_fingerprint(r: &ProbeResult) -> Seq<Seq<char>> {
    spec_fp_upto(r, label_count())
}

/// Adjacent labels are in strict lexicographic order.
proof fn lemma_labels_adjacent(n: int)
    requires
        0 <= n < 13,
    ensures
        lex_lt(label(n), label(n + 1)),
{
    reveal_strlit("AWS");
    reveal_strlit("Apache");
    reveal_strlit("Cloudflare");
    reveal_strlit("Django");
    reveal_strlit("Drupal");
    reveal_strlit("Joomla");
    reveal_strlit("Laravel");
    reveal_strlit("Microsoft IIS");
    reveal_strlit("Nginx");
    reveal_strlit("Node.js/Express");
    reveal_strlit("PHP");
    reveal_strlit("React");
    reveal_strlit("Shopify");
    reveal_strlit("WordPress");
    reveal_with_fuel(lex_lt, 4);
    if n == 0 {
        assert(lex_lt(label(0), label(1)));
    } else if n == 1 {
        assert(lex_lt(label(1), label(2)));
    } else if n == 2 {
        assert(lex_lt(label(2), label(3)));
    } else if n == 3 {
        assert(lex_lt(label(3), label(4)));
    } else if n == 4 {
        assert(lex_lt(label(4), label(5)));
    } else if n == 5 {
        assert(lex_lt(label(5), label(6)));
    } else if n == 6 {
        assert(lex_lt(label(6), label(7)));
    } else if n == 7 {
        assert(lex_lt(label(7), label(8)));
    } else if n == 8 {
        assert(lex_lt(label(8), label(9)));
    } else if n == 9 {
        assert(lex_lt(label(9), label(10)));
    } else if n == 10 {
        assert(lex_lt(label(10), label(11)));
    } else if n == 11 {
        assert(lex_lt(label(11), label(12)));
    } else {
        assert(lex_lt(label(12), label(13)));
    }
}

/// Any two labels are in strict lexicographic order.
proof fn lemma_label_order(i: int, j: int)
    requires
        0 <= i < j < label_count(),
    ensures
        lex_lt(label(i), label(j)),
    decreases j - i,
{
    if j == i + 1 {
        lemma_labels_adjacent(i);
    } else {
        lemma_label_order(i, j - 1);
        lemma_labels_adjacent(j - 1);
        lemma_lex_lt_transitive(label(i), label(j - 1), label(j));
    }
}

/// The fingerprint is strictly sorted: in alphabetical order and free of
/// duplicates, whatever the input.
pub proof fn lemma_fingerprint_sorted(r: &ProbeResult)
    ensures
        strictly_sorted(spec_fingerprint(r)),
        forall|i: int, j: int|
            0 <= i < j < spec_fingerprint(r).len() ==> spec_fingerprint(r)[i]
                != spec_fingerprint(r)[j],
{
    lemma_fp_upto_sorted(r, label_count());
    let fp = spec_fingerprint(r);
    assert forall|i: int, j: int| 0 <= i < j < fp.len() implies fp[i] != fp[j] by {
        assert(lex_lt(fp[i], fp[j]));
        if fp[i] == fp[j] {
            lemma_lex_lt_irreflexive(fp[i]);
        }
    }
}

/// Sortedness of every fingerprint prefix.
proof fn lemma_fp_upto_sorted(r: &ProbeResult, n: int)
    requires
        0 <= n <= label_count(),
    ensures
        strictly_sorted(spec_fp_upto(r, n)),
        forall|e: int, l: int|
            0 <= e < spec_fp_upto(r, n).len() && n <= l < label_count() ==> lex_lt(
                #[trigger] spec_fp_upto(r, n)[e],
                #[trigger] label(l),
            ),
    decreases n,
{
    if n > 0 {
        lemma_fp_upto_sorted(r, n - 1);
        let prev = spec_fp_upto(r, n - 1);
        let cur = spec_fp_upto(r, n);
        assert forall|a: int, b: int| 0 <= a < b < cur.len() implies lex_lt(cur[a], cur[b]) by {
            if b < prev.len() {
                assert(cur[a] == prev[a] && cur[b] == prev[b]);
            } else {
                assert(cur[a] == prev[a] && cur[b] == label(n - 1));
                assert(lex_lt(prev[a], label(n - 1)));
            }
        }
        assert forall|e: int, l: int|
            0 <= e < cur.len() && n <= l < label_count() implies lex_lt(
            #[trigger] cur[e],
            #[trigger] label(l),
        ) by {
            if e < prev.len() {
                assert(cur[e] == prev[e]);
                assert(lex_lt(prev[e], label(l)));
            } else {
                assert(cur[e] == label(n - 1));
                lemma_label_order(n - 1, l);
            }
        }
    }
}

/// Appends one label.
fn push_label(out: &mut Vec<String>, s: &str)
    ensures
        final(out).deep_view() == old(out).deep_view().push(s@),
{
    out.push(s.to_owned());
    proof {
        assert(out.deep_view() =~= old(out).deep_view().push(s@));
    }
}

/// The outcome of every signature rule on one result.
pub struct DetectFlags {
    pub aws: bool,
    pub apache: bool,
    pub cloudflare: bool,
    pub django: bool,
    pub drupal: bool,
    pub joomla: bool,
    pub laravel: bool,
    pub iis: bool,
    pub nginx: bool,
    pub express: bool,
    pub php: bool,
    pub react: bool,
    pub shopify: bool,
    pub wordpress: bool,
}

impl DetectFlags {
    /// Each flag records exactly whether its rule fires on `r`.
    pub open spec fn matches(&self, r: &ProbeResult) -> bool {
        &&& self.aws == spec_detects(r, 0)
        &&& self.apache == spec_detects(r, 1)
        &&& self.cloudflare == spec_detects(r, 2)
        &&& self.django == spec_detects(r, 3)
        &&& self.drupal == spec_detects(r, 4)
        &&& self.joomla == spec_detects(r, 5)
        &&& self.laravel == spec_detects(r, 6)
        &&& self.iis == spec_detects(r, 7)
        &&& self.nginx == spec_detects(r, 8)
        &&& self.express == spec_detects(r, 9)
        &&& self.php == spec_detects(r, 10)
        &&& self.react == spec_detects(r, 11)
        &&& self.shopify == spec_detects(r, 12)
        &&& self.wordpress == spec_detects(r, 13)
    }
}

/// Fingerprints one kept result: the sorted, duplicate-free labels of every
/// signature rule that fires.
#[verifier::rlimit(100)]
pub fn fingerprint(rules: &TechRules, r: &ProbeResult) -> (v: Vec<String>)
    requires
        rules.wf(),
    ensures
        v.deep_view() == spec_fingerprint(r),
        strictly_sorted(v.deep_view()),
{
    let f = detect(rules, r);
    let mut out: Vec<String> = Vec::new();
    proof {
        assert(out.deep_view() =~= spec_fp_upto(r, 0));
    }
    if f.aws {
        push_label(&mut out, "AWS");
    }
    assert(out.deep_view() == spec_fp_upto(r, 1));
    if f.apache {
        push_label(&mut out, "Apache");
    }
    assert(out.deep_view() == spec_fp_upto(r, 2));
    if f.cloudflare {
        push_label(&mut out, "Cloudflare");
    }
    assert(out.deep_view() == spec_fp_upto(r, 3));
    if f.django {
        push_label(&mut out, "Django");
    }
    assert(out.deep_view() == spec_fp_upto(r, 4));
    if f.drupal {
        push_label(&mut out, "Drupal");
    }
    assert(out.deep_view() == spec_fp_upto(r, 5));
    if f.joomla {
        push_label(&mut out, "Joomla");
    }
    assert(out.deep_view() == spec_fp_upto(r, 6));
    if f.laravel {
        push_label(&mut out, "Laravel");
    }
    assert(out.deep_view() == spec_fp_upto(r, 7));
    if f.iis {
        push_label(&mut out, "Microsoft IIS");
    }
    assert(out.deep_view() == spec_fp_upto(r, 8));
    if f.nginx {
        push_label(&mut out, "Nginx");
    }
    assert(out.deep_view() == spec_fp_upto(r, 9));
    if f.express {
        push_label(&mut out, "Node.js/Express");
    }
    assert(out.deep_view() == spec_fp_upto(r, 10));
    if f.php {
        push_label(&mut out, "PHP");
    }
    assert(out.deep_view() == spec_fp_upto(r, 11));
    if f.react {
        push_label(&mut out, "React");
    }
    assert(out.deep_view() == spec_fp_upto(r, 12));
    if f.shopify {
        push_label(&mut out, "Shopify");
    }
    assert(out.deep_view() == spec_fp_upto(r, 13));
    if f.wordpress {
        push_label(&mut out, "WordPress");
    }
    assert(out.deep_view() == spec_fp_upto(r, 14));
    proof {
        lemma_fingerprint_sorted(r);
    }
    out
}

/// Evaluates every signature rule on one result.
fn detect(rules: &TechRules, r: &ProbeResult) -> (f: DetectFlags)
    requires
        rules.wf(),
    ensures
        f.matches(r),
{
    proof {
        reveal(spec_detects);
        reveal_strlit("Apache");
        reveal_strlit("nginx");
        reveal_strlit("IIS");
        reveal_strlit("PHP");
        reveal_strlit("Express");
        reveal_strlit("Django");
        reveal_strlit("csrftoken");
        reveal_strlit("laravel_session");
    }
    let server = r.header("server");
    let mut apache = false;
    let mut nginx = false;
    let mut iis = false;
    if let Some(v) = server {
        let vc = chars_of(v.as_str());
        apache = contains_chars(&vc, &chars_of("Apache"));
        if !apache {
            nginx = contains_chars(&vc, &chars_of("nginx"));
            if !nginx {
                iis = contains_chars(&vc, &chars_of("IIS"));
            }
        }
    }
    let powered = r.header("x-powered-by");
    let mut php = false;
    let mut express = false;
    let mut django_powered = false;
    if let Some(p) = powered {
        let pc = chars_of(p.as_str());
        php = contains_chars(&pc, &chars_of("PHP"));
        if !php {
            express = contains_chars(&pc, &chars_of("Express"));
            if !express {
                django_powered = contains_chars(&pc, &chars_of("Django"));
            }
        }
    }
    let cookie = r.header("set-cookie");
    let mut laravel = false;
    let mut csrf = false;
    if let Some(c) = cookie {
        let cc = chars_of(c.as_str());
        laravel = contains_chars(&cc, &chars_of("laravel_session"));
        csrf = contains_chars(&cc, &chars_of("csrftoken"));
    }
    let cloudflare = r.header("cf-ray").is_some() || r.header("cf-cache-status").is_some();
    let aws = r.header("x-amz-id-2").is_some() || r.header("x-amz-request-id").is_some();
    let shopify = r.header("x-shopify-stage").is_some();
    let mut wp_title_hit = false;
    let mut drupal_hit = false;
    if let Some(t) = &r.title {
        wp_title_hit = regex_is_match(&rules.wp_title, t.as_str());
        drupal_hit = regex_is_match(&rules.drupal_title, t.as_str());
    }
    let mut react_hit = false;
    let mut joomla_hit = false;
    let mut wp_body_hit = false;
    if let Some(b) = &r.body_snippet {
        react_hit = regex_is_match(&rules.react_body, b.as_str());
        joomla_hit = regex_is_match(&rules.joomla_body, b.as_str());
        wp_body_hit = regex_is_match(&rules.wp_body, b.as_str());
    }
    DetectFlags {
        aws,
        apache,
        cloudflare,
        django: django_powered || csrf,
        drupal: drupal_hit,
        joomla: joomla_hit,
        laravel,
        iis,
        nginx,
        express,
        php,
        react: react_hit,
        shopify,
        wordpress: wp_title_hit || wp_body_hit,
    }
}

} // verus!
