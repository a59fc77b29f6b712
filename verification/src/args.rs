//! Normalization of startup arguments that carry structure: custom header
//! lines, the HTTP method, and the output-format token. Reading the command
//! line itself is the shell's job; these functions decide what each raw
//! string means.

use vstd::prelude::*;

use crate::text::{
    ascii_upper,
    chars_eq,
    chars_of,
    find_char,
    lower_chars,
    ascii_lower,
    spec_trim,
    string_from_chars,
    trim_chars,
    upper_chars,
};

verus! {

/// Parses one custom header argument of the form `Key: Value`: the name
/// before the first colon and the value after it, both trimmed. A line
/// without a colon is malformed and yields nothing, for the shell to warn
/// about and skip.
pub fn parse_header_line(line: &str) -> (r: Option<(String, String)>)
    ensures
        match r {
            Some(kv) => exists|i: int|
                {
                    &&& 0 <= i < line@.len()
                    &&& #[trigger] line@[i] == ':'
                    &&& forall|k: int| 0 <= k < i ==> line@[k] != ':'
                    &&& kv.0@ == spec_trim(line@.take(i))
                    &&& kv.1@ == spec_trim(line@.skip(i + 1))
                },
            None => forall|k: int| 0 <= k < line@.len() ==> line@[k] != ':',
        },
{
    let chars = chars_of(line);
    let n = chars.len();
    match find_char(&chars, ':') {
        Some(i) => {
            assert(i < n);
            let mut key: Vec<char> = Vec::new();
            let mut k: usize = 0;
            while k < i
                invariant
                    i < chars@.len(),
                    k <= i,
                    key@ =~= chars@.take(i as int).take(k as int),
                decreases i - k,
            {
                key.push(chars[k]);
                assert(key@ =~= chars@.take(i as int).take(k + 1));
                k = k + 1;
            }
            proof {
                assert(key@ =~= chars@.take(i as int));
            }
            let mut value: Vec<char> = Vec::new();
            let mut k: usize = i + 1;
            while k < chars.len()
                invariant
                    i < chars@.len(),
                    i + 1 <= k <= chars@.len(),
                    value@ =~= chars@.subrange(i + 1, k as int),
                decreases chars@.len() - k,
            {
                value.push(chars[k]);
                assert(value@ =~= chars@.subrange(i + 1, k + 1));
                k = k + 1;
            }
            proof {
                assert(value@ =~= chars@.skip(i + 1));
            }
            let key_s = string_from_chars(&trim_chars(&key));
            let value_s = string_from_chars(&trim_chars(&value));
            Some((key_s, value_s))
        },
        None => None,
    }
}

/// Is this upper-cased method one the prober supports?
pub open spec fn method_supported(u: Seq<char>) -> bool {
    u == "GET"@ || u == "POST"@ || u == "HEAD"@ || u == "PUT"@
}

/// Upper-cases the method argument and validates it. An unsupported method
/// falls back to GET; the second component says so, for the shell to warn,
/// never an error.
pub fn normalize_method(method: &str) -> (r: (String, bool))
    ensures
        method_supported(upper_chars(method@)) ==> r.0@ == upper_chars(method@) && r.1 == false,
        !method_supported(upper_chars(method@)) ==> r.0@ == "GET"@ && r.1 == true,
{
    let upper = ascii_upper(&chars_of(method));
    if chars_eq(&upper, &chars_of("GET")) || chars_eq(&upper, &chars_of("POST")) || chars_eq(
        &upper,
        &chars_of("HEAD"),
    ) || chars_eq(&upper, &chars_of("PUT")) {
        (string_from_chars(&upper), false)
    } else {
        ("GET".to_owned(), true)
    }
}

/// The output destination, resolved once at startup.
#[derive(Debug, PartialEq, Eq, Structural)]
pub enum OutputFormat {
    Terminal,
    Json,
    PrettyJson,
}

/// The format token before the first colon of the output argument,
/// lower-cased; the whole argument when it has no colon.
pub open spec fn format_token(s: Seq<char>) -> Seq<char> {
    if exists|i: int| 0 <= i < s.len() && s[i] == ':' {
        let i = choose|i: int| 0 <= i < s.len() && #[trigger] s[i] == ':' && (forall|k: int|
            0 <= k < i ==> s[k] != ':');
        lower_chars(s.take(i))
    } else {
        lower_chars(s)
    }
}

/// Parses the output argument `format[:path]`. The path, if present, is
/// kept verbatim (it may be empty: the shell then invents a file name). An
/// unrecognized format token falls back to terminal output; the last
/// component says so, for the shell to warn, never an error.
pub fn parse_output_spec(s: &str) -> (r: (OutputFormat, Option<String>, bool))
    ensures
        ({
            let tok = format_token(s@);
            &&& (tok == "terminal"@ ==> r.0 == OutputFormat::Terminal && r.2 == false)
            &&& (tok == "json"@ ==> r.0 == OutputFormat::Json && r.2 == false)
            &&& (tok == "pretty-json"@ ==> r.0 == OutputFormat::PrettyJson && r.2 == false)
            &&& (tok != "terminal"@ && tok != "json"@ && tok != "pretty-json"@ ==> r.0
                == OutputFormat::Terminal && r.2 == true)
        }),
        match r.1 {
            Some(p) => exists|i: int|
                {
                    &&& 0 <= i < s@.len()
                    &&& #[trigger] s@[i] == ':'
                    &&& forall|k: int| 0 <= k < i ==> s@[k] != ':'
                    &&& p@ == s@.skip(i + 1)
                },
            None => forall|k: int| 0 <= k < s@.len() ==> s@[k] != ':',
        },
{
    let chars = chars_of(s);
    let n = chars.len();
    let mut token: Vec<char>;
    let mut path: Option<String> = None;
    match find_char(&chars, ':') {
        Some(i) => {
            assert(i < n);
            let mut tok: Vec<char> = Vec::new();
            let mut k: usize = 0;
            while k < i
                invariant
                    i < chars@.len(),
                    k <= i,
                    tok@ =~= chars@.take(i as int).take(k as int),
                decreases i - k,
            {
                tok.push(chars[k]);
                assert(tok@ =~= chars@.take(i as int).take(k + 1));
                k = k + 1;
            }
            proof {
                assert(tok@ =~= chars@.take(i as int));
            }
            let mut rest: Vec<char> = Vec::new();
            let mut k: usize = i + 1;
            while k < chars.len()
                invariant
                    i < chars@.len(),
                    i + 1 <= k <= chars@.len(),
                    rest@ =~= chars@.subrange(i + 1, k as int),
                decreases chars@.len() - k,
            {
                rest.push(chars[k]);
                assert(rest@ =~= chars@.subrange(i + 1, k + 1));
                k = k + 1;
            }
            proof {
                assert(rest@ =~= chars@.skip(i + 1));
            }
            path = Some(string_from_chars(&rest));
            token = ascii_lower(&tok);
            proof {
                let j = choose|j: int|
                    0 <= j < s@.len() && #[trigger] s@[j] == ':' && (forall|k: int|
                        0 <= k < j ==> s@[k] != ':');
                assert(j == i as int);
                assert(token@ == format_token(s@));
            }
        },
        None => {
            token = ascii_lower(&chars);
            proof {
                assert(token@ == format_token(s@));
            }
        },
    }
    proof {
        reveal_strlit("terminal");
        reveal_strlit("json");
        reveal_strlit("pretty-json");
    }
    let fmt: OutputFormat;
    let mut unknown = false;
    if chars_eq(&token, &chars_of("terminal")) {
        fmt = OutputFormat::Terminal;
    } else if chars_eq(&token, &chars_of("json")) {
        fmt = OutputFormat::Json;
    } else if chars_eq(&token, &chars_of("pretty-json")) {
        fmt = OutputFormat::PrettyJson;
    } else {
        fmt = OutputFormat::Terminal;
        unknown = true;
    }
    (fmt, path, unknown)
}

} // verus!
