//! The heuristic scorer: maps a kept probe result to an interest score and
//! an ordered list of insight strings.
//!
//! Scores are integers in hundredths, from 0 to 100, standing for the unit
//! interval; every contribution of the design is a whole number of
//! hundredths, so nothing is lost. The optional sentiment capability is
//! handed in as plain readings, one for the title and one for the body
//! snippet; an absent capability is the `None` reading and skips those
//! steps silently.

use vstd::prelude::*;
use vstd::string::StringExecFns;

use crate::probe::ProbeResult;
use crate::text::{
    ascii_lower,
    centi_chars,
    chars_of,
    contains_chars,
    format_centi,
    lower_chars,
    spec_contains,
    string_from_chars,
};

verus! {

/// One reading of the sentiment capability: whether the text classified as
/// negative, and the classifier's confidence in hundredths (0 to 100).
#[derive(Clone, Copy)]
pub struct SentimentReading {
    pub negative: bool,
    pub confidence_centi: u8,
}

/// A scored result: the clamped score in hundredths and the insight
/// strings, in evaluation order.
pub struct Analysis {
    pub score_centi: u8,
    pub insights: Vec<String>,
}

/// The server header names a well-known server, case-sensitively.
pub open spec fn server_interesting(r: &ProbeResult) -> bool {
    r.spec_header("server"@) matches Some(v) && (spec_contains(v, "Apache"@) || spec_contains(
        v,
        "Nginx"@,
    ) || spec_contains(v, "IIS"@))
}

/// The title, lower-cased, names a potentially sensitive page.
pub open spec fn title_sensitive(r: &ProbeResult) -> bool {
    r.title matches Some(t) && (spec_contains(lower_chars(t@), "admin"@) || spec_contains(
        lower_chars(t@),
        "login"@,
    ))
}

/// The title classified as negative with confidence above 0.70.
pub open spec fn title_negative(r: &ProbeResult, ts: Option<SentimentReading>) -> bool {
    &&& r.title matches Some(t) && t@.len() > 0
    &&& ts matches Some(s) && s.negative && s.confidence_centi > 70
}

/// The body snippet classified as negative with confidence above 0.80.
pub open spec fn body_negative(r: &ProbeResult, bs: Option<SentimentReading>) -> bool {
    &&& r.body_snippet matches Some(b) && b@.len() > 0
    &&& bs matches Some(s) && s.negative && s.confidence_centi > 80
}

/// The raw score: the sum of the independent contributions, in hundredths,
/// before clamping.
pub open spec fn spec_raw_score(
    r: &ProbeResult,
    ts: Option<SentimentReading>,
    bs: Option<SentimentReading>,
) -> int {
    (if r.status == 200 {
        50int
    } else {
        0int
    }) + (if server_interesting(r) {
        20int
    } else {
        0int
    }) + (if title_sensitive(r) {
        30int
    } else {
        0int
    }) - (if title_negative(r, ts) {
        20int
    } else {
        0int
    }) - (if body_negative(r, bs) {
        10int
    } else {
        0int
    })
}

/// The score: the raw sum clamped into [0, 100].
pub open spec fn spec_score(
    r: &ProbeResult,
    ts: Option<SentimentReading>,
    bs: Option<SentimentReading>,
) -> int {
    let raw = spec_raw_score(r, ts, bs);
    if raw < 0 {
        0
    } else if raw > 100 {
        100
    } else {
        raw
    }
}

/// The insight line recording a negative sentiment reading.
pub open spec fn sentiment_insight(prefix: Seq<char>, confidence_centi: int) -> Seq<char> {
    prefix + centi_chars(confidence_centi) + ")"@
}

/// The insights, in evaluation order: one line per contribution that fired.
pub open spec fn spec_insights(
    r: &ProbeResult,
    ts: Option<SentimentReading>,
    bs: Option<SentimentReading>,
) -> Seq<Seq<char>> {
    (if r.status == 200 {
        seq!["Successful response"@]
    } else {
        Seq::empty()
    }) + (if server_interesting(r) {
        seq!["Interesting server: "@ + r.spec_header("server"@)->Some_0]
    } else {
        Seq::empty()
    }) + (if title_sensitive(r) {
        seq!["Potential sensitive page"@]
    } else {
        Seq::empty()
    }) + (if title_negative(r, ts) {
        seq![
            sentiment_insight(
                "Negative sentiment in title (score: "@,
                ts->Some_0.confidence_centi as int,
            ),
        ]
    } else {
        Seq::empty()
    }) + (if body_negative(r, bs) {
        seq![
            sentiment_insight(
                "Negative sentiment in body snippet (score: "@,
                bs->Some_0.confidence_centi as int,
            ),
        ]
    } else {
        Seq::empty()
    })
}

/// The score lies in [0, 1] (here: [0, 100] hundredths) for every result
/// and every capability reading, even though the raw contributions can sum
/// outside it.
pub proof fn lemma_score_in_range(
    r: &ProbeResult,
    ts: Option<SentimentReading>,
    bs: Option<SentimentReading>,
)
    ensures
        0 <= spec_score(r, ts, bs) <= 100,
{
}

/// Scores one kept result. Deterministic: the score and the insights are
/// functions of the result and the sentiment readings alone, as the
/// postconditions state.
pub fn analyze(
    r: &ProbeResult,
    title_sentiment: Option<SentimentReading>,
    body_sentiment: Option<SentimentReading>,
) -> (a: Analysis)
    requires
        title_sentiment matches Some(s) ==> s.confidence_centi <= 100,
        body_sentiment matches Some(s) ==> s.confidence_centi <= 100,
    ensures
        a.score_centi as int == spec_score(r, title_sentiment, body_sentiment),
        a.insights.deep_view() == spec_insights(r, title_sentiment, body_sentiment),
{
    let mut raw: i32 = 0;
    let mut insights: Vec<String> = Vec::new();

    if r.status == 200 {
        raw = raw + 50;
        insights.push("Successful response".to_owned());
    }

    let mut server_hit = false;
    let server = r.header("server");
    if let Some(v) = server {
        let vc = chars_of(v.as_str());
        proof {
            reveal_strlit("Apache");
            reveal_strlit("Nginx");
            reveal_strlit("IIS");
        }
        if contains_chars(&vc, &chars_of("Apache")) || contains_chars(&vc, &chars_of("Nginx"))
            || contains_chars(&vc, &chars_of("IIS")) {
            server_hit = true;
            raw = raw + 20;
            let mut line = "Interesting server: ".to_owned();
            line.append(v.as_str());
            insights.push(line);
        }
    }
    proof {
        assert(server_hit == server_interesting(r));
    }

    let mut title_hit = false;
    if let Some(t) = &r.title {
        let lowered = ascii_lower(&chars_of(t.as_str()));
        proof {
            reveal_strlit("admin");
            reveal_strlit("login");
        }
        if contains_chars(&lowered, &chars_of("admin")) || contains_chars(
            &lowered,
            &chars_of("login"),
        ) {
            title_hit = true;
            raw = raw + 30;
            insights.push("Potential sensitive page".to_owned());
        }
    }
    proof {
        assert(title_hit == title_sensitive(r));
    }

    let title_has_text = match &r.title {
        Some(t) => !t.as_str().is_empty(),
        None => false,
    };
    if title_has_text {
        if let Some(s) = &title_sentiment {
            if s.negative && s.confidence_centi > 70 {
                raw = raw - 20;
                let mut line = "Negative sentiment in title (score: ".to_owned();
                line.append(string_from_chars(&format_centi(s.confidence_centi)).as_str());
                line.append(")");
                insights.push(line);
            }
        }
    }

    let body_has_text = match &r.body_snippet {
        Some(b) => !b.as_str().is_empty(),
        None => false,
    };
    if body_has_text {
        if let Some(s) = &body_sentiment {
            if s.negative && s.confidence_centi > 80 {
                raw = raw - 10;
                let mut line = "Negative sentiment in body snippet (score: ".to_owned();
                line.append(string_from_chars(&format_centi(s.confidence_centi)).as_str());
                line.append(")");
                insights.push(line);
            }
        }
    }

    let clamped: i32 = if raw < 0 {
        0
    } else if raw > 100 {
        100
    } else {
        raw
    };
    proof {
        assert(insights.deep_view() =~= spec_insights(r, title_sentiment, body_sentiment));
    }
    Analysis { score_centi: clamped as u8, insights }
}

} // verus!
