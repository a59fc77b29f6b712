//! The filter: a pure predicate that decides, before enrichment, whether a
//! probe result is dropped.

use vstd::prelude::*;

use crate::patterns::{compile_pattern, regex_compiles, regex_is_match, regex_match, regex_pattern};
use crate::probe::ProbeResult;
use crate::text::string_from_chars;

verus! {

/// The filter rules, supplied once at startup and read-only thereafter.
/// Each rule is independently optional; an empty list switches its rule
/// off.
pub struct FilterRules {
    /// Drop a result whose status is one of these.
    pub status_exclude: Vec<u16>,
    /// Drop a result whose size proxy is below any of these.
    pub size_thresholds: Vec<usize>,
    /// Drop a result any of these matches, on any searched field.
    pub regex_excludes: Vec<regex::Regex>,
}

impl FilterRules {
    /// The pattern strings of the compiled exclusion regexes, in order.
    pub open spec fn patterns(&self) -> Seq<Seq<char>> {
        self.regex_excludes@.map_values(|re: regex::Regex| regex_pattern(re))
    }

    /// Rules with no compiled patterns yet.
    pub fn new(status_exclude: Vec<u16>, size_thresholds: Vec<usize>) -> (r: FilterRules)
        ensures
            r.status_exclude == status_exclude,
            r.size_thresholds == size_thresholds,
            r.patterns() =~= Seq::<Seq<char>>::empty(),
    {
        FilterRules { status_exclude, size_thresholds, regex_excludes: Vec::new() }
    }

    /// Compiles one exclusion pattern and appends it: this succeeds exactly
    /// when the pattern compiles. An invalid pattern changes nothing and
    /// hands back the compile error's text, for the shell to warn about: a
    /// malformed argument is skipped, never fatal.
    pub fn add_pattern(&mut self, pat: &str) -> (r: Option<String>)
        ensures
            final(self).status_exclude == old(self).status_exclude,
            final(self).size_thresholds == old(self).size_thresholds,
            r is None <==> regex_compiles(pat@),
            r is None ==> final(self).patterns() =~= old(self).patterns().push(pat@),
            r is Some ==> final(self).patterns() =~= old(self).patterns(),
    {
        match compile_pattern(pat) {
            Ok(re) => {
                self.regex_excludes.push(re);
                proof {
                    assert(self.patterns() =~= old(self).patterns().push(pat@));
                }
                None
            },
            Err(msg) => Some(msg),
        }
    }
}

/// The filter's size proxy for a result: the byte length of its title, zero
/// when it has none. A deliberate stand-in for the true body length; size
/// thresholds are documented against it.
pub open spec fn spec_size_proxy(r: &ProbeResult) -> nat {
    match r.title {
        Some(t) => vstd::utf8::encode_utf8(t@).len(),
        None => 0,
    }
}

/// One exclusion pattern hits a result when it matches its URL, title, body
/// snippet, or server header.
pub open spec fn spec_pattern_hits(r: &ProbeResult, pat: Seq<char>) -> bool {
    ||| regex_match(pat, r.url@)
    ||| (r.title matches Some(t) && regex_match(pat, t@))
    ||| (r.body_snippet matches Some(b) && regex_match(pat, b@))
    ||| (r.spec_header("server"@) matches Some(v) && regex_match(pat, v))
}

/// The filter predicate: a result is dropped when its status is excluded,
/// or its size proxy is below any configured threshold, or any exclusion
/// pattern hits any searched field.
pub open spec fn spec_should_drop(r: &ProbeResult, statuses: Seq<u16>, sizes: Seq<usize>, pats: Seq<
    Seq<char>,
>) -> bool {
    ||| statuses.contains(r.status)
    ||| (exists|k: int| 0 <= k < sizes.len() && spec_size_proxy(r) < sizes[k])
    ||| (exists|p: int| 0 <= p < pats.len() && spec_pattern_hits(r, #[trigger] pats[p]))
}

/// Decides whether a result is dropped before enrichment. Pure: the answer
/// is a function of the result and the rules alone.
pub fn should_drop(r: &ProbeResult, rules: &FilterRules) -> (drop: bool)
    ensures
        drop == spec_should_drop(r, rules.status_exclude@, rules.size_thresholds@, rules.patterns()),
{
    let mut i: usize = 0;
    while i < rules.status_exclude.len()
        invariant
            i <= rules.status_exclude@.len(),
            forall|k: int| 0 <= k < i ==> rules.status_exclude@[k] != r.status,
        decreases rules.status_exclude@.len() - i,
    {
        if rules.status_exclude[i] == r.status {
            return true;
        }
        i = i + 1;
    }
    let size_proxy: usize = match &r.title {
        Some(t) => t.as_str().as_bytes().len(),
        None => 0,
    };
    let mut i: usize = 0;
    while i < rules.size_thresholds.len()
        invariant
            size_proxy == spec_size_proxy(r),
            i <= rules.size_thresholds@.len(),
            forall|k: int| 0 <= k < i ==> spec_size_proxy(r) >= rules.size_thresholds@[k],
        decreases rules.size_thresholds@.len() - i,
    {
        if size_proxy < rules.size_thresholds[i] {
            return true;
        }
        i = i + 1;
    }
    let server = r.header("server");
    let mut i: usize = 0;
    while i < rules.regex_excludes.len()
        invariant
            server matches Some(v) ==> r.spec_header("server"@) == Some(v@),
            server is None ==> r.spec_header("server"@) is None,
            i <= rules.patterns().len(),
            forall|p: int| 0 <= p < i ==> !spec_pattern_hits(r, #[trigger] rules.patterns()[p]),
        decreases rules.regex_excludes@.len() - i,
    {
        let re = &rules.regex_excludes[i];
        proof {
            assert(rules.patterns()[i as int] == regex_pattern(rules.regex_excludes@[i as int]));
        }
        if regex_is_match(re, r.url.as_str()) {
            return true;
        }
        if let Some(t) = &r.title {
            if regex_is_match(re, t.as_str()) {
                return true;
            }
        }
        if let Some(b) = &r.body_snippet {
            if regex_is_match(re, b.as_str()) {
                return true;
            }
        }
        if let Some(v) = server {
            if regex_is_match(re, v.as_str()) {
                return true;
            }
        }
        i = i + 1;
    }
    false
}

} // verus!
