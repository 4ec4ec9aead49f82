//! Formatting of results into human-readable output lines.
//!
//! Each analyzed unit yields one head line,
//! `<Label>: <display text> (<compound>)`, with the compound part absent
//! when its inclusion flag is off, prefixed by `Line <n>: ` in file
//! mode; when the individual scores are included, one indented
//! `  pos: .. neg: .. neu: ..` line follows. Scores are written with
//! four decimal digits.

use vstd::prelude::*;
use crate::analyze::{SentimentResult, ResultView, result_view, result_scores_bounded};
use crate::classify::{label_repr, label_text};
use crate::num::{scaled_repr, format_scaled, dec_repr, format_dec};
use crate::text::{display_of, truncate_display, views_of};

verus! {

/// Prefix naming the 1-indexed position of a line in its file.
pub open spec fn line_number_prefix(n: int) -> Seq<char> {
    "Line "@ + dec_repr(n) + ": "@
}

pub open spec fn opt_prefix(n: Option<int>) -> Seq<char> {
    match n {
        Some(k) => line_number_prefix(k),
        None => Seq::<char>::empty(),
    }
}

/// The head line of a report block.
pub open spec fn head_line_spec(r: ResultView, n: Option<int>) -> Seq<char> {
    opt_prefix(n) + label_repr(r.classification) + ": "@ + display_of(r.text) + (match r.compound {
        Some(c) => " ("@ + scaled_repr(c) + ")"@,
        None => Seq::<char>::empty(),
    })
}

/// A block carries the indented breakdown line exactly when the
/// individual scores are present.
pub open spec fn has_detail(r: ResultView) -> bool {
    r.positive is Some && r.negative is Some && r.neutral is Some
}

pub open spec fn detail_line_spec(r: ResultView) -> Seq<char> {
    match (r.positive, r.negative, r.neutral) {
        (Some(p), Some(n), Some(u)) => "  pos: "@ + scaled_repr(p) + " neg: "@ + scaled_repr(n)
            + " neu: "@ + scaled_repr(u),
        _ => Seq::<char>::empty(),
    }
}

/// The output lines of one result: the head line, then the breakdown
/// line when the individual scores are present.
pub open spec fn report_lines_spec(r: ResultView, n: Option<int>) -> Seq<Seq<char>> {
    if has_detail(r) {
        seq![head_line_spec(r, n), detail_line_spec(r)]
    } else {
        seq![head_line_spec(r, n)]
    }
}

pub open spec fn opt_count_view(n: Option<u64>) -> Option<int> {
    match n {
        Some(k) => Some(k as int),
        None => None,
    }
}

/// Formats one result, with its line number in file mode.
pub fn report_lines(res: &SentimentResult, line_no: Option<u64>) -> (out: Vec<String>)
    requires
        result_scores_bounded(result_view(*res)),
    ensures
        views_of(out@) == report_lines_spec(result_view(*res), opt_count_view(line_no)),
{
    let ghost rv = result_view(*res);
    let ghost nv = opt_count_view(line_no);
    let mut head = String::new();
    match line_no {
        Some(k) => {
            head.append("Line ");
            let d = format_dec(k);
            head.append(d.as_str());
            head.append(": ");
            proof {
                assert(head@ =~= opt_prefix(nv));
            }
        },
        None => {},
    }
    head.append(label_text(&res.classification));
    head.append(": ");
    let disp = truncate_display(res.text.as_str());
    head.append(disp.as_str());
    match res.scores.compound {
        Some(c) => {
            head.append(" (");
            let f = format_scaled(c);
            head.append(f.as_str());
            head.append(")");
        },
        None => {},
    }
    proof {
        assert(head@ =~= head_line_spec(rv, nv));
    }
    let mut out: Vec<String> = Vec::new();
    out.push(head);
    match (res.scores.positive, res.scores.negative, res.scores.neutral) {
        (Some(p), Some(n), Some(u)) => {
            let mut detail = String::from_str("  pos: ");
            let fp = format_scaled(p);
            detail.append(fp.as_str());
            detail.append(" neg: ");
            let fn_ = format_scaled(n);
            detail.append(fn_.as_str());
            detail.append(" neu: ");
            let fu = format_scaled(u);
            detail.append(fu.as_str());
            proof {
                assert(detail@ =~= detail_line_spec(rv));
            }
            out.push(detail);
            proof {
                assert(views_of(out@) =~= report_lines_spec(rv, nv));
            }
        },
        _ => {
            proof {
                assert(views_of(out@) =~= report_lines_spec(rv, nv));
            }
        },
    }
    out
}

} // verus!
