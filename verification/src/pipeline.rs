//! The per-result pipeline stage: filter first, then enrich what is kept.
//!
//! A dropped result yields nothing, so it can never reach the scorer, the
//! fingerprinter, or any report.

use vstd::prelude::*;

use crate::filter::{should_drop, spec_should_drop, FilterRules};
use crate::probe::ProbeResult;
use crate::score::{analyze, spec_insights, spec_score, Analysis, SentimentReading};
use crate::tech::{fingerprint, spec_fingerprint, TechRules};
use crate::text::strictly_sorted;

verus! {

/// A kept probe result with its optional enrichments.
pub struct EnrichedResult {
    pub result: ProbeResult,
    pub analysis: Option<Analysis>,
    pub detected_tech: Option<Vec<String>>,
}

/// Runs one probe result through the filter and, if it is kept, through the
/// enabled enrichment stages. `None` exactly when the filter drops the
/// result: a dropped result never appears in any enriched output.
pub fn process_result(
    result: ProbeResult,
    rules: &FilterRules,
    tech_rules: &TechRules,
    ai_enabled: bool,
    tech_enabled: bool,
    title_sentiment: Option<SentimentReading>,
    body_sentiment: Option<SentimentReading>,
) -> (r: Option<EnrichedResult>)
    requires
        tech_rules.wf(),
        title_sentiment matches Some(s) ==> s.confidence_centi <= 100,
        body_sentiment matches Some(s) ==> s.confidence_centi <= 100,
    ensures
        r is None <==> spec_should_drop(
            &result,
            rules.status_exclude@,
            rules.size_thresholds@,
            rules.patterns(),
        ),
        r matches Some(e) ==> {
            &&& e.result == result
            &&& (e.analysis is Some <==> ai_enabled)
            &&& (e.analysis matches Some(a) ==> a.score_centi as int == spec_score(
                &result,
                title_sentiment,
                body_sentiment,
            ) && a.insights.deep_view() == spec_insights(&result, title_sentiment, body_sentiment))
            &&& (e.detected_tech is Some <==> tech_enabled)
            &&& (e.detected_tech matches Some(v) ==> v.deep_view() == spec_fingerprint(&result)
                && strictly_sorted(v.deep_view()))
        },
{
    if should_drop(&result, rules) {
        return None;
    }
    let analysis = if ai_enabled {
        Some(analyze(&result, title_sentiment, body_sentiment))
    } else {
        None
    };
    let detected_tech = if tech_enabled {
        Some(fingerprint(tech_rules, &result))
    } else {
        None
    };
    Some(EnrichedResult { result, analysis, detected_tech })
}

} // verus!
