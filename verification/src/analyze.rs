//! Per-unit analysis: score a text with the external sentiment scorer,
//! classify the compound score, and assemble the result.
//!
//! Nothing relates two calls of the scorer: it walks hash maps whose
//! order varies by process, so its scores are not a function of the
//! text alone. The contracts therefore state only what holds of every
//! outcome — four well-formed renderings in the documented ranges — and
//! everything after the call is verified for every value of them.

use vstd::prelude::*;
use crate::classify::{Label, classify, classify_spec};
use crate::config::{AnalysisConfig, AnalysisView, aview};
use crate::num::{parse_scaled, valid_scaled, scaled_val, SCALED_LIMIT};
use crate::text::{is_blank, text_is_blank};

verus! {

/// The four polarity scores as the scorer renders them: decimal text
/// with four fractional digits.
pub struct RawScores {
    pub compound: String,
    pub positive: String,
    pub negative: String,
    pub neutral: String,
}

/// Relies on `vader_sentiment::SentimentIntensityAnalyzer::new` and
/// `SentimentIntensityAnalyzer::polarity_scores`: the returned map
/// holds the keys `compound`, `pos`, `neg` and `neu`; the compound
/// score is normalized into [-1, 1], and the other three are either all
/// zero (a text with no scored tokens) or ratios of one common
/// non-negative total, each in [0, 1], summing to one, all finite. The
/// scores are not a function of the text alone (the scorer walks hash
/// maps whose order varies by process), so nothing here relates two
/// calls. Each score is rendered with four fractional digits, so the
/// three ratios' rendered sum can miss one whole by the rounding of
/// each part; a mapping missing any of the four keys is rendered as all
/// zeros.
#[verifier::external_body]
fn score_text(text: &str) -> (r: RawScores)
    ensures
        valid_scaled(r.compound@) && -10000 <= scaled_val(r.compound@) <= 10000,
        valid_scaled(r.positive@) && 0 <= scaled_val(r.positive@) <= 10000,
        valid_scaled(r.negative@) && 0 <= scaled_val(r.negative@) <= 10000,
        valid_scaled(r.neutral@) && 0 <= scaled_val(r.neutral@) <= 10000,
        scaled_val(r.positive@) + scaled_val(r.negative@) + scaled_val(r.neutral@) == 0
            || 9998 <= scaled_val(r.positive@) + scaled_val(r.negative@) + scaled_val(r.neutral@) <= 10002,
{
    let analyzer = vader_sentiment::SentimentIntensityAnalyzer::new();
    let m = analyzer.polarity_scores(text);
    match (m.get("compound"), m.get("pos"), m.get("neg"), m.get("neu")) {
        (Some(c), Some(p), Some(n), Some(u)) => RawScores {
            compound: format!("{:.4}", c), positive: format!("{:.4}", p),
            negative: format!("{:.4}", n), neutral: format!("{:.4}", u),
        },
        _ => RawScores {
            compound: String::from("0.0000"), positive: String::from("0.0000"),
            negative: String::from("0.0000"), neutral: String::from("0.0000"),
        },
    }
}

/// Scaled value of a rendered score; anything that is not a well-formed
/// decimal, an absent score included, counts as zero.
pub open spec fn scaled_or_zero(s: Seq<char>) -> int {
    if valid_scaled(s) {
        scaled_val(s)
    } else {
        0
    }
}

pub fn to_scaled_or_zero(s: &str) -> (r: i64)
    ensures
        r as int == scaled_or_zero(s@),
        -SCALED_LIMIT < r < SCALED_LIMIT,
{
    match parse_scaled(s) {
        Some(v) => v,
        None => 0,
    }
}

/// The scores carried by a result; a score left out by the inclusion
/// flags is absent, not zero.
#[derive(Clone, Copy, Debug, PartialEq, Eq, Structural)]
pub struct SentimentScores {
    pub compound: Option<i64>,
    pub positive: Option<i64>,
    pub negative: Option<i64>,
    pub neutral: Option<i64>,
}

/// The outcome of analyzing one unit of text.
#[derive(Clone, Debug)]
pub struct SentimentResult {
    pub text: String,
    pub classification: Label,
    pub scores: SentimentScores,
}

/// Mathematical model of a result.
#[verifier::ext_equal]
pub struct ResultView {
    pub text: Seq<char>,
    pub classification: Label,
    pub compound: Option<int>,
    pub positive: Option<int>,
    pub negative: Option<int>,
    pub neutral: Option<int>,
}

pub open spec fn opt_score_view(o: Option<i64>) -> Option<int> {
    match o {
        Some(v) => Some(v as int),
        None => None,
    }
}

pub open spec fn result_view(r: SentimentResult) -> ResultView {
    ResultView {
        text: r.text@,
        classification: r.classification,
        compound: opt_score_view(r.scores.compound),
        positive: opt_score_view(r.scores.positive),
        negative: opt_score_view(r.scores.negative),
        neutral: opt_score_view(r.scores.neutral),
    }
}

/// The four scores of one scoring outcome, in scaled units.
pub struct ScoreQuad {
    pub compound: int,
    pub positive: int,
    pub negative: int,
    pub neutral: int,
}

/// The ranges the scorer is relied upon to keep: compound in [-1, 1],
/// the other three in [0, 1], in scaled units — and the three either
/// all zero or summing to one whole within the rounding of each
/// four-digit part.
pub open spec fn quad_in_range(q: ScoreQuad) -> bool {
    &&& -10000 <= q.compound <= 10000
    &&& 0 <= q.positive <= 10000
    &&& 0 <= q.negative <= 10000
    &&& 0 <= q.neutral <= 10000
    &&& (q.positive + q.negative + q.neutral == 0
        || 9998 <= q.positive + q.negative + q.neutral <= 10002)
}

/// The scaled scores of one set of renderings.
pub open spec fn quad_of(r: RawScores) -> ScoreQuad {
    ScoreQuad {
        compound: scaled_or_zero(r.compound@),
        positive: scaled_or_zero(r.positive@),
        negative: scaled_or_zero(r.negative@),
        neutral: scaled_or_zero(r.neutral@),
    }
}

/// Model of assembling one result from a text, one scoring outcome and
/// the configuration: the compound score is classified against the
/// thresholds, and each score is kept or left absent per the inclusion
/// flags.
pub open spec fn analyze_model(text: Seq<char>, q: ScoreQuad, cfg: AnalysisView) -> ResultView {
    ResultView {
        text,
        classification: classify_spec(q.compound, cfg.pos, cfg.neg),
        compound: if cfg.include_compound { Some(q.compound) } else { None },
        positive: if cfg.include_individual { Some(q.positive) } else { None },
        negative: if cfg.include_individual { Some(q.negative) } else { None },
        neutral: if cfg.include_individual { Some(q.neutral) } else { None },
    }
}

/// Every score a result can carry lies strictly within the scaled limit.
pub open spec fn result_scores_bounded(r: ResultView) -> bool {
    &&& (match r.compound { Some(v) => -SCALED_LIMIT < v < SCALED_LIMIT, None => true })
    &&& (match r.positive { Some(v) => -SCALED_LIMIT < v < SCALED_LIMIT, None => true })
    &&& (match r.negative { Some(v) => -SCALED_LIMIT < v < SCALED_LIMIT, None => true })
    &&& (match r.neutral { Some(v) => -SCALED_LIMIT < v < SCALED_LIMIT, None => true })
}

/// Assembles the result for one text from a set of rendered scores;
/// exact for every value of the renderings.
pub fn assemble_result(text: &str, raw: &RawScores, cfg: &AnalysisConfig) -> (res: SentimentResult)
    ensures
        result_view(res) == analyze_model(text@, quad_of(*raw), aview(*cfg)),
        result_scores_bounded(result_view(res)),
{
    let c = to_scaled_or_zero(raw.compound.as_str());
    let p = to_scaled_or_zero(raw.positive.as_str());
    let n = to_scaled_or_zero(raw.negative.as_str());
    let u = to_scaled_or_zero(raw.neutral.as_str());
    let classification = classify(c, cfg.positive_threshold, cfg.negative_threshold);
    let res = SentimentResult {
        text: String::from_str(text),
        classification,
        scores: SentimentScores {
            compound: if cfg.include_compound { Some(c) } else { None },
            positive: if cfg.include_individual { Some(p) } else { None },
            negative: if cfg.include_individual { Some(n) } else { None },
            neutral: if cfg.include_individual { Some(u) } else { None },
        },
    };
    proof {
        assert(result_view(res) =~= analyze_model(text@, quad_of(*raw), aview(*cfg)));
    }
    res
}

/// Analyzes one unit of text: `None` exactly when the text is blank,
/// which is a documented skip, not an error; otherwise the result is
/// the assembly of the in-range scores this call's scoring returned.
pub fn analyze_text(text: &str, cfg: &AnalysisConfig) -> (r: Option<SentimentResult>)
    ensures
        r is None <==> is_blank(text@),
        match r {
            Some(res) => result_scores_bounded(result_view(res)) && (exists|q: ScoreQuad|
                quad_in_range(q) && result_view(res) == #[trigger] analyze_model(
                    text@,
                    q,
                    aview(*cfg),
                )),
            None => true,
        },
{
    if text_is_blank(text) {
        return None;
    }
    let raw = score_text(text);
    let res = assemble_result(text, &raw, cfg);
    proof {
        assert(quad_in_range(quad_of(raw)));
        assert(result_view(res) == analyze_model(text@, quad_of(raw), aview(*cfg)));
    }
    Some(res)
}

/// With a deterministic scorer — the same scores for the same text —
/// analyzing the same text under the same configuration twice yields
/// the same result.
pub proof fn lemma_analyze_idempotent(
    text: Seq<char>,
    q: ScoreQuad,
    cfg: AnalysisView,
    r1: ResultView,
    r2: ResultView,
)
    requires
        r1 == analyze_model(text, q, cfg),
        r2 == analyze_model(text, q, cfg),
    ensures
        r1 == r2,
{
}

} // verus!
