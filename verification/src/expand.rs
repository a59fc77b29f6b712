//! Target expansion: substituting each wordlist entry into the URL template
//! (and the optional body template) to obtain the ordered list of probe
//! targets.

use vstd::prelude::*;

use crate::text::{chars_of, contains_at, matches_at, spec_contains, string_from_chars};

verus! {

/// The literal token that each wordlist entry replaces.
pub open spec fn placeholder() -> Seq<char> {
    "FUZZ"@
}

/// `s` with every occurrence of `pat` replaced by `sub`, scanning left to
/// right over non-overlapping occurrences; the meaning of `str::replace`.
pub open spec fn spec_replace(s: Seq<char>, pat: Seq<char>, sub: Seq<char>) -> Seq<char>
    decreases s.len(),
{
    if pat.len() == 0 {
        s
    } else if s.len() < pat.len() {
        s
    } else if s.take(pat.len() as int) == pat {
        sub + spec_replace(s.skip(pat.len() as int), pat, sub)
    } else {
        s.take(1) + spec_replace(s.skip(1), pat, sub)
    }
}

/// A string without any occurrence of the pattern is left unchanged by
/// substitution: expansion substitutes placeholder occurrences and nothing
/// else.
pub proof fn lemma_replace_no_occurrence(s: Seq<char>, pat: Seq<char>, sub: Seq<char>)
    requires
        !spec_contains(s, pat),
    ensures
        spec_replace(s, pat, sub) == s,
    decreases s.len(),
{
    if pat.len() == 0 {
        assert(s.subrange(0, 0) =~= pat);
        assert(contains_at(s, 0, pat));
    } else if s.len() < pat.len() {
    } else {
        if s.take(pat.len() as int) == pat {
            assert(s.subrange(0, pat.len() as int) == s.take(pat.len() as int));
            assert(contains_at(s, 0, pat));
        }
        assert forall|i: int| !contains_at(s.skip(1), i, pat) by {
            if contains_at(s.skip(1), i, pat) {
                assert(s.subrange(i + 1, i + 1 + pat.len()) =~= s.skip(1).subrange(
                    i,
                    i + pat.len(),
                ));
                assert(contains_at(s, i + 1, pat));
            }
        }
        lemma_replace_no_occurrence(s.skip(1), pat, sub);
        assert(s.take(1) + s.skip(1) =~= s);
    }
}

/// `s` with every occurrence of `pat` replaced by `sub`.
pub fn replace_chars(s: &Vec<char>, pat: &Vec<char>, sub: &Vec<char>) -> (r: Vec<char>)
    requires
        pat.len() > 0,
    ensures
        r@ == spec_replace(s@, pat@, sub@),
{
    let mut out: Vec<char> = Vec::new();
    let mut i: usize = 0;
    proof {
        assert(s@.skip(0) =~= s@);
        assert(out@ + spec_replace(s@, pat@, sub@) =~= spec_replace(s@, pat@, sub@));
    }
    while i < s.len()
        invariant
            1 <= pat.len(),
            i <= s.len(),
            spec_replace(s@, pat@, sub@) == out@ + spec_replace(s@.skip(i as int), pat@, sub@),
        decreases s.len() - i,
    {
        let ghost rest = s@.skip(i as int);
        let ghost prefix = out@;
        if matches_at(s, i, pat) {
            proof {
                assert(rest.take(pat@.len() as int) =~= s@.subrange(i as int, i + pat@.len()));
                assert(rest.skip(pat@.len() as int) =~= s@.skip(i + pat@.len()));
            }
            let mut j: usize = 0;
            while j < sub.len()
                invariant
                    j <= sub.len(),
                    out@ == prefix + sub@.take(j as int),
                decreases sub.len() - j,
            {
                out.push(sub[j]);
                assert(out@ =~= prefix + sub@.take(j + 1));
                j = j + 1;
            }
            proof {
                assert(out@ =~= prefix + sub@);
                assert(spec_replace(rest, pat@, sub@) == sub@ + spec_replace(
                    s@.skip(i + pat@.len()),
                    pat@,
                    sub@,
                ));
                assert(prefix + (sub@ + spec_replace(s@.skip(i + pat@.len()), pat@, sub@)) =~= (
                prefix + sub@) + spec_replace(s@.skip(i + pat@.len()), pat@, sub@));
            }
            i = i + pat.len();
        } else {
            proof {
                if rest.len() >= pat@.len() && rest.take(pat@.len() as int) == pat@ {
                    assert(rest.take(pat@.len() as int) =~= s@.subrange(
                        i as int,
                        i + pat@.len(),
                    ));
                    assert(contains_at(s@, i as int, pat@));
                }
                assert(rest.take(1) =~= seq![s@[i as int]]);
                assert(rest.skip(1) =~= s@.skip(i + 1));
            }
            out.push(s[i]);
            proof {
                assert(spec_replace(rest, pat@, sub@) == rest.take(1) + spec_replace(
                    s@.skip(i + 1),
                    pat@,
                    sub@,
                ));
                assert(out@ =~= prefix + rest.take(1));
                assert(prefix + (rest.take(1) + spec_replace(s@.skip(i + 1), pat@, sub@)) =~= (
                prefix + rest.take(1)) + spec_replace(s@.skip(i + 1), pat@, sub@));
            }
            i = i + 1;
        }
    }
    proof {
        assert(s@.skip(i as int) =~= Seq::<char>::empty());
        assert(spec_replace(Seq::<char>::empty(), pat@, sub@) == Seq::<char>::empty());
        assert(out@ + Seq::<char>::empty() =~= out@);
    }
    out
}

/// One probe target: the fuzzed URL and, where a body template was supplied,
/// the fuzzed request body.
pub struct Target {
    pub url: String,
    pub body: Option<String>,
}

/// The template with every placeholder occurrence replaced by `word`.
pub fn replace_placeholder(template: &str, word: &str) -> (r: String)
    ensures
        r@ == spec_replace(template@, placeholder(), word@),
{
    proof {
        reveal_strlit("FUZZ");
    }
    let pat = chars_of("FUZZ");
    let s = chars_of(template);
    let sub = chars_of(word);
    let out = replace_chars(&s, &pat, &sub);
    string_from_chars(&out)
}

/// The fuzzed URLs, one per word, in wordlist order.
pub fn generate_urls(base_url: &str, words: &[String]) -> (r: Vec<String>)
    ensures
        r@.len() == words@.len(),
        forall|k: int|
            0 <= k < words@.len() ==> r@[k]@ == spec_replace(
                base_url@,
                placeholder(),
                words@[k]@,
            ),
{
    let mut out: Vec<String> = Vec::new();
    let mut i: usize = 0;
    while i < words.len()
        invariant
            i <= words@.len(),
            out@.len() == i,
            forall|k: int|
                0 <= k < i ==> out@[k]@ == spec_replace(base_url@, placeholder(), words@[k]@),
        decreases words@.len() - i,
    {
        out.push(replace_placeholder(base_url, words[i].as_str()));
        i = i + 1;
    }
    out
}

/// Expands the wordlist into targets: one target per word, in order, with
/// the placeholder substituted into the URL template and, if present, into
/// the body template. No deduplication: repeated words yield repeated
/// targets.
pub fn expand_targets(template: &str, body_template: &Option<String>, words: &[String]) -> (r: Vec<
    Target,
>)
    ensures
        r@.len() == words@.len(),
        forall|k: int|
            0 <= k < words@.len() ==> (#[trigger] r@[k]).url@ == spec_replace(
                template@,
                placeholder(),
                words@[k]@,
            ),
        forall|k: int|
            0 <= k < words@.len() ==> ((#[trigger] r@[k]).body matches Some(b) ==> (
            body_template matches Some(t) && b@ == spec_replace(t@, placeholder(), words@[k]@))),
        forall|k: int|
            0 <= k < words@.len() ==> ((#[trigger] r@[k]).body is None <==> body_template is None),
{
    let mut out: Vec<Target> = Vec::new();
    let mut i: usize = 0;
    while i < words.len()
        invariant
            i <= words@.len(),
            out@.len() == i,
            forall|k: int|
                0 <= k < i ==> (#[trigger] out@[k]).url@ == spec_replace(
                    template@,
                    placeholder(),
                    words@[k]@,
                ),
            forall|k: int|
                0 <= k < i ==> ((#[trigger] out@[k]).body matches Some(b) ==> (
                body_template matches Some(t) && b@ == spec_replace(
                    t@,
                    placeholder(),
                    words@[k]@,
                ))),
            forall|k: int|
                0 <= k < i ==> ((#[trigger] out@[k]).body is None <==> body_template is None),
        decreases words@.len() - i,
    {
        let url = replace_placeholder(template, words[i].as_str());
        let body = match body_template {
            Some(t) => Some(replace_placeholder(t.as_str(), words[i].as_str())),
            None => None,
        };
        out.push(Target { url, body });
        i = i + 1;
    }
    out
}

} // verus!
