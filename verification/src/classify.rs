//! Threshold classification of a compound score.

use vstd::prelude::*;

verus! {

/// The three sentiment labels.
#[derive(Clone, Copy, Debug, PartialEq, Eq, Structural)]
pub enum Label {
    Positive,
    Negative,
    Neutral,
}

/// Label of a compound score against a threshold pair: at or above the
/// positive threshold is positive, else at or below the negative
/// threshold is negative, else neutral.
pub open spec fn classify_spec(compound: int, pos_threshold: int, neg_threshold: int) -> Label {
    if compound >= pos_threshold {
        Label::Positive
    } else if compound <= neg_threshold {
        Label::Negative
    } else {
        Label::Neutral
    }
}

/// For thresholds in order (positive above negative), the label is
/// positive exactly when the score reaches the positive threshold,
/// negative exactly when it reaches the negative one, and neutral
/// exactly when it lies strictly between the two.
pub proof fn lemma_classify_trichotomy(compound: int, pos_threshold: int, neg_threshold: int)
    requires
        pos_threshold > neg_threshold,
    ensures
        classify_spec(compound, pos_threshold, neg_threshold) == Label::Positive <==> compound >= pos_threshold,
        classify_spec(compound, pos_threshold, neg_threshold) == Label::Negative <==> compound <= neg_threshold,
        classify_spec(compound, pos_threshold, neg_threshold) == Label::Neutral <==> neg_threshold < compound < pos_threshold,
{
}

pub fn classify(compound: i64, pos_threshold: i64, neg_threshold: i64) -> (r: Label)
    ensures
        r == classify_spec(compound as int, pos_threshold as int, neg_threshold as int),
{
    if compound >= pos_threshold {
        Label::Positive
    } else if compound <= neg_threshold {
        Label::Negative
    } else {
        Label::Neutral
    }
}

/// Rendering of a label.
pub open spec fn label_repr(l: Label) -> Seq<char> {
    match l {
        Label::Positive => "Positive"@,
        Label::Negative => "Negative"@,
        Label::Neutral => "Neutral"@,
    }
}

pub fn label_text(l: &Label) -> (r: &'static str)
    ensures
        r@ == label_repr(*l),
{
    match l {
        Label::Positive => "Positive",
        Label::Negative => "Negative",
        Label::Neutral => "Neutral",
    }
}

} // verus!
