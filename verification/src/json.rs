//! The JSON report: a flat array of result objects, emitted with the
//! library's own verified string escaping.
//!
//! Escaping covers exactly what JSON demands: the quote, the backslash, and
//! control characters (the latter as `\u00XX`); everything else passes
//! through. The escape has a proved inverse, so no information is lost on
//! the way into a JSON document.

use vstd::prelude::*;

use crate::pipeline::EnrichedResult;
use crate::report::{append_chars, append_joined, append_str, spec_join};
use crate::text::{centi_chars, chars_of, dec_chars, format_centi, push_dec, string_from_chars};

verus! {

/// The hexadecimal digit character for a value below 16.
pub open spec fn hex_char(d: int) -> char {
    if d < 10 {
        crate::text::digit_char(d)
    } else if d == 10 {
        'a'
    } else if d == 11 {
        'b'
    } else if d == 12 {
        'c'
    } else if d == 13 {
        'd'
    } else if d == 14 {
        'e'
    } else {
        'f'
    }
}

/// The value of a hexadecimal digit character; 16 for anything else.
pub open spec fn hex_val(c: char) -> int {
    if c == '0' {
        0
    } else if c == '1' {
        1
    } else if c == '2' {
        2
    } else if c == '3' {
        3
    } else if c == '4' {
        4
    } else if c == '5' {
        5
    } else if c == '6' {
        6
    } else if c == '7' {
        7
    } else if c == '8' {
        8
    } else if c == '9' {
        9
    } else if c == 'a' {
        10
    } else if c == 'b' {
        11
    } else if c == 'c' {
        12
    } else if c == 'd' {
        13
    } else if c == 'e' {
        14
    } else if c == 'f' {
        15
    } else {
        16
    }
}

/// How one character is written inside a JSON string.
pub open spec fn esc_char(c: char) -> Seq<char> {
    if c == '"' {
        seq!['\\', '"']
    } else if c == '\\' {
        seq!['\\', '\\']
    } else if (c as u32) < 32 {
        seq!['\\', 'u', '0', '0', hex_char((c as u32 / 16) as int), hex_char((c as u32 % 16) as int)]
    } else {
        seq![c]
    }
}

/// A string's characters, escaped for JSON.
pub open spec fn spec_escape(s: Seq<char>) -> Seq<char>
    decreases s.len(),
{
    if s.len() == 0 {
        Seq::empty()
    } else {
        esc_char(s[0]) + spec_escape(s.drop_first())
    }
}

/// Escaping one more character appends its escape.
proof fn lemma_escape_snoc(s: Seq<char>, c: char)
    ensures
        spec_escape(s.push(c)) == spec_escape(s) + esc_char(c),
    decreases s.len(),
{
    if s.len() == 0 {
        assert(s.push(c)[0] == c);
        assert(s.push(c).drop_first() =~= Seq::<char>::empty());
        assert(spec_escape(Seq::<char>::empty()) =~= Seq::<char>::empty());
        assert(spec_escape(s.push(c)) =~= Seq::empty() + esc_char(c));
        assert(spec_escape(s.push(c)) =~= spec_escape(s) + esc_char(c));
    } else {
        lemma_escape_snoc(s.drop_first(), c);
        assert(s.push(c)[0] == s[0]);
        assert(s.push(c).drop_first() =~= s.drop_first().push(c));
        assert(esc_char(s[0]) + (spec_escape(s.drop_first()) + esc_char(c)) =~= (esc_char(s[0])
            + spec_escape(s.drop_first())) + esc_char(c));
    }
}

/// The inverse reading of an escaped string: the original characters, or
/// nothing where the text is not a valid escape of anything.
pub open spec fn spec_unescape(t: Seq<char>) -> Option<Seq<char>>
    decreases t.len(),
{
    if t.len() == 0 {
        Some(Seq::empty())
    } else if t[0] == '\\' {
        if t.len() < 2 {
            None
        } else if t[1] == '"' || t[1] == '\\' {
            match spec_unescape(t.skip(2)) {
                Some(r) => Some(seq![t[1]] + r),
                None => None,
            }
        } else if t[1] == 'u' {
            if t.len() < 6 || t[2] != '0' || t[3] != '0' || hex_val(t[4]) >= 16 || hex_val(t[5])
                >= 16 || hex_val(t[4]) * 16 + hex_val(t[5]) >= 32 {
                None
            } else {
                match spec_unescape(t.skip(6)) {
                    Some(r) => Some(
                        seq![(((hex_val(t[4]) * 16 + hex_val(t[5])) as u32) as char)] + r,
                    ),
                    None => None,
                }
            }
        } else {
            None
        }
    } else if t[0] == '"' || (t[0] as u32) < 32 {
        None
    } else {
        match spec_unescape(t.skip(1)) {
            Some(r) => Some(seq![t[0]] + r),
            None => None,
        }
    }
}

/// Reading back an escape of a hex digit gives the digit.
proof fn lemma_hex_roundtrip(d: int)
    requires
        0 <= d < 16,
    ensures
        hex_val(hex_char(d)) == d,
{
}

/// The escape has an inverse: unescaping an escaped string gives the
/// original back, for every string. Escaping loses nothing.
pub proof fn lemma_unescape_escape(s: Seq<char>)
    ensures
        spec_unescape(spec_escape(s)) == Some(s),
    decreases s.len(),
{
    if s.len() == 0 {
        assert(spec_escape(s) =~= Seq::<char>::empty());
    } else {
        let c = s[0];
        let rest = s.drop_first();
        lemma_unescape_escape(rest);
        let t = spec_escape(s);
        assert(t == esc_char(c) + spec_escape(rest));
        if c == '"' || c == '\\' {
            assert(t[0] == '\\' && t[1] == c);
            assert(t.skip(2) =~= spec_escape(rest));
            assert(seq![c] + rest =~= s);
        } else if (c as u32) < 32 {
            let hi = (c as u32 / 16) as int;
            let lo = (c as u32 % 16) as int;
            lemma_hex_roundtrip(hi);
            lemma_hex_roundtrip(lo);
            assert(t[0] == '\\' && t[1] == 'u' && t[2] == '0' && t[3] == '0');
            assert(t[4] == hex_char(hi) && t[5] == hex_char(lo));
            assert(hex_val(t[4]) * 16 + hex_val(t[5]) == (c as u32) as int);
            assert(((hex_val(t[4]) * 16 + hex_val(t[5])) as u32) == c as u32);
            vstd::utf8::char_u32_cast(c, c as u32);
            assert((((hex_val(t[4]) * 16 + hex_val(t[5])) as u32) as char) == c);
            assert(t.skip(6) =~= spec_escape(rest));
            assert(seq![c] + rest =~= s);
        } else {
            assert(t[0] == c);
            assert(t.skip(1) =~= spec_escape(rest));
            assert(seq![c] + rest =~= s);
        }
    }
}

/// A JSON string literal: the escaped characters between quotes.
pub open spec fn json_string(s: Seq<char>) -> Seq<char> {
    "\""@ + spec_escape(s) + "\""@
}

/// JSON string literals are injective: distinct strings never collide in
/// the emitted document, so every string field reads back exactly.
pub proof fn lemma_json_string_injective(a: Seq<char>, b: Seq<char>)
    requires
        json_string(a) == json_string(b),
    ensures
        a == b,
{
    reveal_strlit("\"");
    let ja = json_string(a);
    let jb = json_string(b);
    assert(spec_escape(a) =~= ja.subrange(1, ja.len() - 1));
    assert(spec_escape(b) =~= jb.subrange(1, jb.len() - 1));
    lemma_unescape_escape(a);
    lemma_unescape_escape(b);
}

/// Appends the escape of every character of `s`.
fn append_escaped(out: &mut Vec<char>, s: &str)
    ensures
        final(out)@ == old(out)@ + spec_escape(s@),
{
    let v = chars_of(s);
    let mut i: usize = 0;
    proof {
        assert(out@ + spec_escape(v@.take(0)) =~= out@);
    }
    while i < v.len()
        invariant
            i <= v@.len(),
            v@ == s@,
            out@ == old(out)@ + spec_escape(v@.take(i as int)),
        decreases v@.len() - i,
    {
        let c = v[i];
        let ghost prefix = v@.take(i as int);
        proof {
            lemma_escape_snoc(prefix, c);
            assert(prefix.push(c) =~= v@.take(i + 1));
            assert((old(out)@ + spec_escape(prefix)) + esc_char(c) =~= old(out)@ + (spec_escape(
                prefix,
            ) + esc_char(c)));
        }
        if c == '"' {
            out.push('\\');
            out.push('"');
            proof {
                assert(out@ =~= old(out)@ + spec_escape(v@.take(i + 1)));
            }
        } else if c == '\\' {
            out.push('\\');
            out.push('\\');
            proof {
                assert(out@ =~= old(out)@ + spec_escape(v@.take(i + 1)));
            }
        } else if (c as u32) < 32 {
            out.push('\\');
            out.push('u');
            out.push('0');
            out.push('0');
            let code: u32 = c as u32;
            out.push(hex_digit_char(code / 16));
            out.push(hex_digit_char(code % 16));
            proof {
                assert(out@ =~= old(out)@ + spec_escape(v@.take(i + 1)));
            }
        } else {
            out.push(c);
            proof {
                assert(out@ =~= old(out)@ + spec_escape(v@.take(i + 1)));
            }
        }
        i = i + 1;
    }
    proof {
        assert(v@.take(v@.len() as int) =~= v@);
    }
}

/// The hexadecimal digit character of a value below 16.
fn hex_digit_char(d: u32) -> (r: char)
    requires
        d < 16,
    ensures
        r == hex_char(d as int),
{
    if d == 0 {
        '0'
    } else if d == 1 {
        '1'
    } else if d == 2 {
        '2'
    } else if d == 3 {
        '3'
    } else if d == 4 {
        '4'
    } else if d == 5 {
        '5'
    } else if d == 6 {
        '6'
    } else if d == 7 {
        '7'
    } else if d == 8 {
        '8'
    } else if d == 9 {
        '9'
    } else if d == 10 {
        'a'
    } else if d == 11 {
        'b'
    } else if d == 12 {
        'c'
    } else if d == 13 {
        'd'
    } else if d == 14 {
        'e'
    } else {
        'f'
    }
}

/// Appends a JSON string literal.
fn append_json_string(out: &mut Vec<char>, s: &str)
    ensures
        final(out)@ == old(out)@ + json_string(s@),
{
    let ghost at_entry = out@;
    append_str(out, "\"");
    append_escaped(out, s);
    append_str(out, "\"");
    proof {
        assert(out@ =~= at_entry + json_string(s@));
    }
}

/// One header pair as a JSON object member.
pub open spec fn json_header_pair(p: (Seq<char>, Seq<char>)) -> Seq<char> {
    json_string(p.0) + ":"@ + json_string(p.1)
}

/// The headers map as a JSON object, in stored (first-seen) key order.
pub open spec fn json_headers(h: Seq<(Seq<char>, Seq<char>)>) -> Seq<char> {
    "{"@ + spec_join(h.map_values(|p: (Seq<char>, Seq<char>)| json_header_pair(p)), ","@) + "}"@
}

/// A JSON array of strings.
pub open spec fn json_string_array(items: Seq<Seq<char>>) -> Seq<char> {
    "["@ + spec_join(items.map_values(|s: Seq<char>| json_string(s)), ","@) + "]"@
}

/// Appends the headers as a JSON object.
fn append_json_headers(out: &mut Vec<char>, headers: &Vec<(String, String)>)
    ensures
        final(out)@ == old(out)@ + json_headers(headers.deep_view()),
{
    let ghost mapped = headers.deep_view().map_values(
        |p: (Seq<char>, Seq<char>)| json_header_pair(p),
    );
    append_str(out, "{");
    let ghost opened = out@;
    let mut i: usize = 0;
    proof {
        assert(opened + spec_join(mapped.take(0), ","@) =~= opened);
    }
    while i < headers.len()
        invariant
            i <= headers@.len(),
            mapped == headers.deep_view().map_values(
                |p: (Seq<char>, Seq<char>)| json_header_pair(p),
            ),
            mapped.len() == headers@.len(),
            out@ == opened + spec_join(mapped.take(i as int), ","@),
        decreases headers@.len() - i,
    {
        if i > 0 {
            append_str(out, ",");
        }
        let mut pair: Vec<char> = Vec::new();
        append_json_string(&mut pair, headers[i].0.as_str());
        append_str(&mut pair, ":");
        append_json_string(&mut pair, headers[i].1.as_str());
        proof {
            assert(headers.deep_view()[i as int] == (
                headers@[i as int].0@,
                headers@[i as int].1@,
            ));
            assert(pair@ =~= json_header_pair(headers.deep_view()[i as int]));
            assert(mapped[i as int] == json_header_pair(headers.deep_view()[i as int]));
        }
        append_chars(out, &pair);
        proof {
            assert(mapped.take(i + 1).last() == mapped[i as int]);
            assert(mapped.take(i + 1).drop_last() =~= mapped.take(i as int));
            if i == 0 {
                assert(spec_join(mapped.take(1), ","@) == mapped[0]);
                assert(out@ =~= opened + spec_join(mapped.take(1), ","@));
            } else {
                assert(out@ =~= opened + spec_join(mapped.take(i + 1), ","@));
            }
        }
        i = i + 1;
    }
    proof {
        assert(mapped.take(mapped.len() as int) =~= mapped);
    }
    append_str(out, "}");
    proof {
        assert(out@ =~= old(out)@ + json_headers(headers.deep_view()));
    }
}

/// Appends a JSON array of strings.
fn append_json_array(out: &mut Vec<char>, items: &Vec<String>)
    ensures
        final(out)@ == old(out)@ + json_string_array(items.deep_view()),
{
    let ghost mapped = items.deep_view().map_values(|s: Seq<char>| json_string(s));
    append_str(out, "[");
    let ghost opened = out@;
    let mut i: usize = 0;
    proof {
        assert(opened + spec_join(mapped.take(0), ","@) =~= opened);
    }
    while i < items.len()
        invariant
            i <= items@.len(),
            mapped == items.deep_view().map_values(|s: Seq<char>| json_string(s)),
            mapped.len() == items@.len(),
            out@ == opened + spec_join(mapped.take(i as int), ","@),
        decreases items@.len() - i,
    {
        if i > 0 {
            append_str(out, ",");
        }
        let mut item: Vec<char> = Vec::new();
        append_json_string(&mut item, items[i].as_str());
        proof {
            assert(item@ =~= json_string(items.deep_view()[i as int]));
            assert(mapped[i as int] == json_string(items.deep_view()[i as int]));
        }
        append_chars(out, &item);
        proof {
            assert(mapped.take(i + 1).last() == mapped[i as int]);
            assert(mapped.take(i + 1).drop_last() =~= mapped.take(i as int));
            if i == 0 {
                assert(spec_join(mapped.take(1), ","@) == mapped[0]);
                assert(out@ =~= opened + spec_join(mapped.take(1), ","@));
            } else {
                assert(out@ =~= opened + spec_join(mapped.take(i + 1), ","@));
            }
        }
        i = i + 1;
    }
    proof {
        assert(mapped.take(mapped.len() as int) =~= mapped);
    }
    append_str(out, "]");
    proof {
        assert(out@ =~= old(out)@ + json_string_array(items.deep_view()));
    }
}

/// One result as a JSON object: always the same seven members, with `null`
/// standing for an absent title or a disabled enrichment.
pub open spec fn json_result(e: EnrichedResult) -> Seq<char> {
    let title_part = match e.result.title {
        Some(t) => json_string(t@),
        None => "null"@,
    };
    let score_part = match e.analysis {
        Some(a) => centi_chars(a.score_centi as int),
        None => "null"@,
    };
    let insights_part = match e.analysis {
        Some(a) => json_string(spec_join(a.insights.deep_view(), "; "@)),
        None => "null"@,
    };
    let tech_part = match e.detected_tech {
        Some(v) => json_string_array(v.deep_view()),
        None => "null"@,
    };
    "{\"url\":"@ + json_string(e.result.url@) + ",\"status\":"@ + dec_chars(
        e.result.status as int,
    ) + ",\"headers\":"@ + json_headers(e.result.headers.deep_view()) + ",\"title\":"@ + title_part
        + ",\"ai_score\":"@ + score_part + ",\"ai_insights\":"@ + insights_part
        + ",\"detected_tech\":"@ + tech_part + "}"@
}

/// Appends one result object.
fn append_json_result(out: &mut Vec<char>, e: &EnrichedResult)
    ensures
        final(out)@ == old(out)@ + json_result(*e),
{
    let title_part: Vec<char> = match &e.result.title {
        Some(t) => {
            let mut p: Vec<char> = Vec::new();
            append_json_string(&mut p, t.as_str());
            proof {
                assert(p@ =~= json_string(e.result.title->Some_0@));
            }
            p
        },
        None => chars_of("null"),
    };
    let score_part: Vec<char> = match &e.analysis {
        Some(a) => format_centi(a.score_centi),
        None => chars_of("null"),
    };
    let insights_part: Vec<char> = match &e.analysis {
        Some(a) => {
            let mut joined: Vec<char> = Vec::new();
            append_joined(&mut joined, &a.insights, "; ");
            proof {
                assert(joined@ =~= spec_join(a.insights.deep_view(), "; "@));
            }
            let joined_s = string_from_chars(&joined);
            let mut p: Vec<char> = Vec::new();
            append_json_string(&mut p, joined_s.as_str());
            proof {
                assert(p@ =~= json_string(spec_join(a.insights.deep_view(), "; "@)));
            }
            p
        },
        None => chars_of("null"),
    };
    let tech_part: Vec<char> = match &e.detected_tech {
        Some(v) => {
            let mut p: Vec<char> = Vec::new();
            append_json_array(&mut p, v);
            proof {
                assert(p@ =~= json_string_array(e.detected_tech->Some_0.deep_view()));
            }
            p
        },
        None => chars_of("null"),
    };
    let mut obj = chars_of("{\"url\":");
    append_json_string(&mut obj, e.result.url.as_str());
    append_str(&mut obj, ",\"status\":");
    push_dec(e.result.status, &mut obj);
    append_str(&mut obj, ",\"headers\":");
    append_json_headers(&mut obj, &e.result.headers);
    append_str(&mut obj, ",\"title\":");
    append_chars(&mut obj, &title_part);
    append_str(&mut obj, ",\"ai_score\":");
    append_chars(&mut obj, &score_part);
    append_str(&mut obj, ",\"ai_insights\":");
    append_chars(&mut obj, &insights_part);
    append_str(&mut obj, ",\"detected_tech\":");
    append_chars(&mut obj, &tech_part);
    append_str(&mut obj, "}");
    append_chars(out, &obj);
}

/// The JSON report: a flat array of result objects.
pub open spec fn spec_json_report(results: Seq<EnrichedResult>) -> Seq<char> {
    "["@ + spec_join(results.map_values(|e: EnrichedResult| json_result(e)), ","@) + "]"@
}

/// The pretty JSON report: the same array with one result object per line.
pub open spec fn spec_pretty_json_report(results: Seq<EnrichedResult>) -> Seq<char> {
    if results.len() == 0 {
        "[]"@
    } else {
        "[\n"@ + spec_join(results.map_values(|e: EnrichedResult| json_result(e)), ",\n"@)
            + "\n]"@
    }
}

/// Renders the JSON report: compact, or with one result object per line.
#[verifier::rlimit(50)]
pub fn render_json_report(results: &Vec<EnrichedResult>, pretty: bool) -> (r: String)
    ensures
        pretty ==> r@ == spec_pretty_json_report(results@),
        !pretty ==> r@ == spec_json_report(results@),
{
    let ghost mapped = results@.map_values(|e: EnrichedResult| json_result(e));
    if pretty && results.len() == 0 {
        return "[]".to_owned();
    }
    let mut out: Vec<char>;
    if pretty {
        out = chars_of("[\n");
    } else {
        out = chars_of("[");
    }
    let ghost opened = out@;
    let mut i: usize = 0;
    proof {
        assert(opened + spec_join(mapped.take(0), ",\n"@) =~= opened);
        assert(opened + spec_join(mapped.take(0), ","@) =~= opened);
    }
    while i < results.len()
        invariant
            i <= results@.len(),
            mapped == results@.map_values(|e: EnrichedResult| json_result(e)),
            mapped.len() == results@.len(),
            pretty ==> out@ == opened + spec_join(mapped.take(i as int), ",\n"@),
            !pretty ==> out@ == opened + spec_join(mapped.take(i as int), ","@),
        decreases results@.len() - i,
    {
        if i > 0 {
            if pretty {
                append_str(&mut out, ",\n");
            } else {
                append_str(&mut out, ",");
            }
        }
        append_json_result(&mut out, &results[i]);
        proof {
            assert(mapped.take(i + 1).last() == mapped[i as int]);
            assert(mapped.take(i + 1).drop_last() =~= mapped.take(i as int));
            if i == 0 {
                assert(spec_join(mapped.take(1), ",\n"@) == mapped[0]);
                assert(spec_join(mapped.take(1), ","@) == mapped[0]);
                if pretty {
                    assert(out@ =~= opened + spec_join(mapped.take(1), ",\n"@));
                } else {
                    assert(out@ =~= opened + spec_join(mapped.take(1), ","@));
                }
            } else {
                if pretty {
                    assert(out@ =~= opened + spec_join(mapped.take(i + 1), ",\n"@));
                } else {
                    assert(out@ =~= opened + spec_join(mapped.take(i + 1), ","@));
                }
            }
        }
        i = i + 1;
    }
    proof {
        assert(mapped.take(mapped.len() as int) =~= mapped);
    }
    if pretty {
        append_str(&mut out, "\n]");
        proof {
            assert(out@ =~= spec_pretty_json_report(results@));
        }
    } else {
        append_str(&mut out, "]");
        proof {
            assert(out@ =~= spec_json_report(results@));
        }
    }
    string_from_chars(&out)
}

} // verus!

