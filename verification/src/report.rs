//! The aggregator's renderers: the line-oriented text report (for the
//! terminal and for plain-text files) and the JSON report, with its own
//! verified string escaping.

use vstd::prelude::*;

use crate::pipeline::EnrichedResult;
use crate::probe::lookup;
use crate::text::{centi_chars, chars_of, dec_chars, digit, push_dec, string_from_chars};

verus! {

/// Appends a character vector.
pub fn append_chars(out: &mut Vec<char>, s: &Vec<char>)
    ensures
        final(out)@ == old(out)@ + s@,
{
    let mut i: usize = 0;
    while i < s.len()
        invariant
            i <= s@.len(),
            out@ =~= old(out)@ + s@.take(i as int),
        decreases s@.len() - i,
    {
        out.push(s[i]);
        assert(out@ =~= old(out)@ + s@.take(i + 1));
        i = i + 1;
    }
    proof {
        assert(old(out)@ + s@.take(s@.len() as int) =~= old(out)@ + s@);
    }
}

/// Appends the characters of a string slice.
pub fn append_str(out: &mut Vec<char>, s: &str)
    ensures
        final(out)@ == old(out)@ + s@,
{
    let v = chars_of(s);
    append_chars(out, &v);
}

/// The parts joined by the separator, in order.
pub open spec fn spec_join(parts: Seq<Seq<char>>, sep: Seq<char>) -> Seq<char>
    decreases parts.len(),
{
    if parts.len() == 0 {
        Seq::empty()
    } else if parts.len() == 1 {
        parts[0]
    } else {
        spec_join(parts.drop_last(), sep) + sep + parts.last()
    }
}

/// Appends the given strings joined by the separator.
pub fn append_joined(out: &mut Vec<char>, parts: &Vec<String>, sep: &str)
    ensures
        final(out)@ == old(out)@ + spec_join(parts.deep_view(), sep@),
{
    let mut i: usize = 0;
    while i < parts.len()
        invariant
            i <= parts@.len(),
            out@ == old(out)@ + spec_join(parts.deep_view().take(i as int), sep@),
        decreases parts@.len() - i,
    {
        let ghost before = out@;
        if i > 0 {
            append_str(out, sep);
        }
        append_str(out, parts[i].as_str());
        proof {
            let pv = parts.deep_view();
            assert(pv.take(i + 1).last() == pv[i as int]);
            assert(pv.take(i + 1).drop_last() =~= pv.take(i as int));
            if i == 0 {
                assert(spec_join(pv.take(1), sep@) == pv[0]);
                assert(out@ =~= old(out)@ + spec_join(pv.take(1), sep@));
            } else {
                assert(out@ =~= old(out)@ + spec_join(pv.take(i + 1), sep@));
            }
        }
        i = i + 1;
    }
    proof {
        assert(parts.deep_view().take(parts.deep_view().len() as int) =~= parts.deep_view());
    }
}

/// One result's block of the text report, exactly as the terminal shows it:
/// the URL and status always, then each optional line where its datum is
/// there, then a dashed separator.
pub open spec fn block_chars(e: EnrichedResult) -> Seq<char> {
    let title_part = match e.result.title {
        Some(t) => "Title: "@ + t@ + "\n"@,
        None => Seq::<char>::empty(),
    };
    let server_part = match lookup(e.result.headers_seq(), "server"@) {
        Some(v) => "Server: "@ + v + "\n"@,
        None => Seq::<char>::empty(),
    };
    let ai_part = match e.analysis {
        Some(a) => "AI Score: "@ + centi_chars(a.score_centi as int) + "\nInsights: "@ + spec_join(
            a.insights.deep_view(),
            "; "@,
        ) + "\n"@,
        None => Seq::<char>::empty(),
    };
    let tech_part = match e.detected_tech {
        Some(v) => "Detected Tech: "@ + spec_join(v.deep_view(), ", "@) + "\n"@,
        None => Seq::<char>::empty(),
    };
    "URL: "@ + e.result.url@ + "\nStatus: "@ + dec_chars(e.result.status as int) + "\n"@
        + title_part + server_part + ai_part + tech_part + "---\n"@
}

/// The whole text report: one block per kept result, in order.
pub open spec fn spec_text_report(results: Seq<EnrichedResult>) -> Seq<char>
    decreases results.len(),
{
    if results.len() == 0 {
        Seq::empty()
    } else {
        spec_text_report(results.drop_last()) + block_chars(results.last())
    }
}

/// Appends one result's block.
fn append_block(out: &mut Vec<char>, e: &EnrichedResult)
    ensures
        final(out)@ == old(out)@ + block_chars(*e),
{
    let title_part: Vec<char> = match &e.result.title {
        Some(t) => {
            let mut p = chars_of("Title: ");
            append_str(&mut p, t.as_str());
            append_str(&mut p, "\n");
            p
        },
        None => Vec::new(),
    };
    let server_part: Vec<char> = match e.result.header("server") {
        Some(v) => {
            let mut p = chars_of("Server: ");
            append_str(&mut p, v.as_str());
            append_str(&mut p, "\n");
            p
        },
        None => Vec::new(),
    };
    let ai_part: Vec<char> = match &e.analysis {
        Some(a) => {
            let mut p = chars_of("AI Score: ");
            let score = crate::text::format_centi(a.score_centi);
            append_chars(&mut p, &score);
            append_str(&mut p, "\nInsights: ");
            append_joined(&mut p, &a.insights, "; ");
            append_str(&mut p, "\n");
            p
        },
        None => Vec::new(),
    };
    let tech_part: Vec<char> = match &e.detected_tech {
        Some(v) => {
            let mut p = chars_of("Detected Tech: ");
            append_joined(&mut p, v, ", ");
            append_str(&mut p, "\n");
            p
        },
        None => Vec::new(),
    };
    let mut block = chars_of("URL: ");
    append_str(&mut block, e.result.url.as_str());
    append_str(&mut block, "\nStatus: ");
    push_dec(e.result.status, &mut block);
    append_str(&mut block, "\n");
    append_chars(&mut block, &title_part);
    append_chars(&mut block, &server_part);
    append_chars(&mut block, &ai_part);
    append_chars(&mut block, &tech_part);
    append_str(&mut block, "---\n");
    append_chars(out, &block);
}

/// Renders the text report: what the terminal output prints and what a
/// plain-text output file holds.
pub fn render_text_report(results: &Vec<EnrichedResult>) -> (r: String)
    ensures
        r@ == spec_text_report(results@),
{
    let mut out: Vec<char> = Vec::new();
    let mut i: usize = 0;
    proof {
        assert(out@ =~= spec_text_report(results@.take(0)));
    }
    while i < results.len()
        invariant
            i <= results@.len(),
            out@ == spec_text_report(results@.take(i as int)),
        decreases results@.len() - i,
    {
        append_block(&mut out, &results[i]);
        proof {
            assert(results@.take(i + 1).last() == results@[i as int]);
            assert(results@.take(i + 1).drop_last() =~= results@.take(i as int));
        }
        i = i + 1;
    }
    proof {
        assert(results@.take(results@.len() as int) =~= results@);
    }
    string_from_chars(&out)
}

} // verus!
