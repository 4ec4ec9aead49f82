//! The end-to-end pipeline: dispatch the input into units, analyze each
//! unit in order, and collect the output lines.
//!
//! A single text is one unnumbered unit. A file's content is split into
//! lines, numbered by their 1-indexed position in the file; blank lines
//! keep their number but are skipped, so the numbers in the output name
//! positions in the original file.
//!
//! The scorer's outcomes are not a function of the text, so the
//! contracts quantify over them: the output is exactly the report of
//! some sequence of in-range scoring outcomes, one per unit.

use vstd::prelude::*;
use crate::analyze::{analyze_text, analyze_model, result_view, quad_in_range, ScoreQuad};
use crate::config::{AnalysisConfig, AnalysisView, ConfigView, RunError, aview, resolve_config, resolve_spec, opt_text_view, opt_scaled_view};
use crate::report::{report_lines, report_lines_spec, line_number_prefix};
use crate::text::{is_blank, split_lines, split_lines_spec, views_of, lemma_views_of_concat};

verus! {

/// One invocation's input: a literal text, or the full content of a
/// file to be analyzed line by line.
pub enum AnalyzerInput {
    Text(String),
    FileContent(String),
}

/// The output lines of one unit of text under one scoring outcome:
/// none when the unit is blank, its report block otherwise.
pub open spec fn unit_lines(text: Seq<char>, q: ScoreQuad, cfg: AnalysisView, n: Option<int>) -> Seq<Seq<char>> {
    if is_blank(text) {
        Seq::<Seq<char>>::empty()
    } else {
        report_lines_spec(analyze_model(text, q, cfg), n)
    }
}

/// The output lines of a file's lines from position `i` on, one scoring
/// outcome per line, each unit numbered by its 1-indexed position in
/// the file.
pub open spec fn file_report_from(
    lines: Seq<Seq<char>>,
    quads: Seq<ScoreQuad>,
    cfg: AnalysisView,
    i: int,
) -> Seq<Seq<char>>
    decreases lines.len() - i,
{
    if i < 0 || i >= lines.len() {
        Seq::<Seq<char>>::empty()
    } else {
        unit_lines(lines[i], quads[i], cfg, Some(i + 1)) + file_report_from(lines, quads, cfg, i + 1)
    }
}

pub open spec fn all_in_range(quads: Seq<ScoreQuad>) -> bool {
    forall|i: int| 0 <= i < quads.len() ==> quad_in_range(#[trigger] quads[i])
}

/// Number of dispatched units: one for a single text, one per line of
/// a file, blank units included.
pub open spec fn unit_count(input: AnalyzerInput) -> int {
    match input {
        AnalyzerInput::Text(t) => 1,
        AnalyzerInput::FileContent(c) => split_lines_spec(c@).len() as int,
    }
}

/// Model of the whole dispatch under one scoring outcome per unit: one
/// unnumbered unit for a single text, the numbered lines of the file
/// otherwise.
pub open spec fn run_output_spec(input: AnalyzerInput, quads: Seq<ScoreQuad>, cfg: AnalysisView) -> Seq<Seq<char>> {
    match input {
        AnalyzerInput::Text(t) => unit_lines(t@, quads[0], cfg, None),
        AnalyzerInput::FileContent(c) => file_report_from(split_lines_spec(c@), quads, cfg, 0),
    }
}

/// Line numbers in file mode name 1-indexed positions in the original
/// file: position `i` contributes nothing when blank, and otherwise a
/// block whose head line starts with `Line <i+1>: `; the blocks keep
/// the file's order.
pub proof fn lemma_file_numbering(lines: Seq<Seq<char>>, quads: Seq<ScoreQuad>, cfg: AnalysisView, i: int)
    requires
        0 <= i < lines.len(),
    ensures
        file_report_from(lines, quads, cfg, i) == unit_lines(lines[i], quads[i], cfg, Some(i + 1))
            + file_report_from(lines, quads, cfg, i + 1),
        is_blank(lines[i]) ==> unit_lines(lines[i], quads[i], cfg, Some(i + 1))
            == Seq::<Seq<char>>::empty(),
        !is_blank(lines[i]) ==> unit_lines(lines[i], quads[i], cfg, Some(i + 1)).len() >= 1
            && line_number_prefix(i + 1).is_prefix_of(unit_lines(lines[i], quads[i], cfg, Some(i + 1))[0]),
{
    if !is_blank(lines[i]) {
        let head = unit_lines(lines[i], quads[i], cfg, Some(i + 1))[0];
        let pre = line_number_prefix(i + 1);
        assert(pre.len() <= head.len());
        assert(pre =~= head.subrange(0, pre.len() as int));
    }
}

/// Appending one line and its scoring outcome appends that line's unit
/// block, numbered by its position.
proof fn lemma_file_report_snoc(
    lines: Seq<Seq<char>>,
    quads: Seq<ScoreQuad>,
    cfg: AnalysisView,
    xl: Seq<char>,
    xq: ScoreQuad,
    i: int,
)
    requires
        0 <= i <= lines.len(),
        quads.len() == lines.len(),
    ensures
        file_report_from(lines.push(xl), quads.push(xq), cfg, i) == file_report_from(
            lines,
            quads,
            cfg,
            i,
        ) + unit_lines(xl, xq, cfg, Some(lines.len() as int + 1)),
    decreases lines.len() - i,
{
    let ll = lines.push(xl);
    let qq = quads.push(xq);
    if i == lines.len() {
        assert(ll[i] == xl);
        assert(qq[i] == xq);
        assert(file_report_from(ll, qq, cfg, i + 1) == Seq::<Seq<char>>::empty());
        assert(file_report_from(ll, qq, cfg, i) =~= unit_lines(xl, xq, cfg, Some(lines.len() as int + 1)));
        assert(file_report_from(lines, quads, cfg, i) + unit_lines(xl, xq, cfg, Some(lines.len() as int + 1))
            =~= unit_lines(xl, xq, cfg, Some(lines.len() as int + 1)));
    } else {
        lemma_file_report_snoc(lines, quads, cfg, xl, xq, i + 1);
        assert(ll[i] == lines[i]);
        assert(qq[i] == quads[i]);
        assert((unit_lines(lines[i], quads[i], cfg, Some(i + 1)) + file_report_from(lines, quads, cfg, i + 1))
            + unit_lines(xl, xq, cfg, Some(lines.len() as int + 1))
            =~= unit_lines(lines[i], quads[i], cfg, Some(i + 1)) + (file_report_from(lines, quads, cfg, i + 1)
            + unit_lines(xl, xq, cfg, Some(lines.len() as int + 1))));
    }
}

/// Analyzes the dispatched units in input order and collects their
/// output lines: exactly the report of some sequence of in-range
/// scoring outcomes, one per unit.
pub fn report_all(input: &AnalyzerInput, cfg: &AnalysisConfig) -> (out: Vec<String>)
    ensures
        exists|quads: Seq<ScoreQuad>|
            {
                &&& quads.len() == unit_count(*input)
                &&& all_in_range(quads)
                &&& views_of(out@) == #[trigger] run_output_spec(*input, quads, aview(*cfg))
            },
{
    match input {
        AnalyzerInput::Text(t) => {
            match analyze_text(t.as_str(), cfg) {
                Some(res) => {
                    let out = report_lines(&res, None);
                    proof {
                        let q = choose|q: ScoreQuad|
                            quad_in_range(q) && result_view(res) == #[trigger] analyze_model(
                                t@,
                                q,
                                aview(*cfg),
                            );
                        let ghost quads = seq![q];
                        assert(quads[0] == q);
                        assert(all_in_range(quads));
                        assert(views_of(out@) == run_output_spec(*input, quads, aview(*cfg)));
                    }
                    out
                },
                None => {
                    let out: Vec<String> = Vec::new();
                    proof {
                        let ghost quads = seq![ScoreQuad { compound: 0, positive: 0, negative: 0, neutral: 0 }];
                        assert(quads[0] == ScoreQuad { compound: 0, positive: 0, negative: 0, neutral: 0 });
                        assert(all_in_range(quads));
                        assert(views_of(out@) =~= run_output_spec(*input, quads, aview(*cfg)));
                    }
                    out
                },
            }
        },
        AnalyzerInput::FileContent(content) => {
            let lines = split_lines(content.as_str());
            let ghost lsv = split_lines_spec(content@);
            let ghost a = aview(*cfg);
            let mut out: Vec<String> = Vec::new();
            let ghost mut quads = Seq::<ScoreQuad>::empty();
            proof {
                assert(lsv.take(0) =~= Seq::<Seq<char>>::empty());
                assert(views_of(out@) =~= file_report_from(lsv.take(0), quads, a, 0));
            }
            let mut i: usize = 0;
            while i < lines.len()
                invariant
                    i <= lines.len(),
                    lsv == split_lines_spec(content@),
                    a == aview(*cfg),
                    lines@.len() == lsv.len(),
                    forall|j: int| 0 <= j < lsv.len() ==> lines@[j]@ == lsv[j],
                    quads.len() == i as int,
                    all_in_range(quads),
                    views_of(out@) == file_report_from(lsv.take(i as int), quads, a, 0),
                decreases lines.len() - i,
            {
                let ghost prev_quads = quads;
                match analyze_text(lines[i].as_str(), cfg) {
                    Some(res) => {
                        let mut block = report_lines(&res, Some((i + 1) as u64));
                        proof {
                            let q = choose|q: ScoreQuad|
                                quad_in_range(q) && result_view(res) == #[trigger] analyze_model(
                                    lsv[i as int],
                                    q,
                                    a,
                                );
                            quads = quads.push(q);
                            lemma_file_report_snoc(lsv.take(i as int), prev_quads, a, lsv[i as int], q, 0);
                            assert(lsv.take(i as int).push(lsv[i as int]) =~= lsv.take(i + 1));
                            assert(unit_lines(lsv[i as int], q, a, Some(i + 1)) == views_of(block@));
                            lemma_views_of_concat(out@, block@);
                            assert(views_of(out@ + block@) == file_report_from(lsv.take(i + 1), quads, a, 0));
                            assert forall|j: int| 0 <= j < quads.len() implies quad_in_range(
                                #[trigger] quads[j],
                            ) by {
                                if j < prev_quads.len() {
                                    assert(quads[j] == prev_quads[j]);
                                }
                            }
                        }
                        out.append(&mut block);
                    },
                    None => {
                        proof {
                            let q = ScoreQuad { compound: 0, positive: 0, negative: 0, neutral: 0 };
                            quads = quads.push(q);
                            lemma_file_report_snoc(lsv.take(i as int), prev_quads, a, lsv[i as int], q, 0);
                            assert(lsv.take(i as int).push(lsv[i as int]) =~= lsv.take(i + 1));
                            assert(unit_lines(lsv[i as int], q, a, Some(i + 1)) =~= Seq::<Seq<char>>::empty());
                            assert(views_of(out@) + Seq::<Seq<char>>::empty() =~= views_of(out@));
                            assert forall|j: int| 0 <= j < quads.len() implies quad_in_range(
                                #[trigger] quads[j],
                            ) by {
                                if j < prev_quads.len() {
                                    assert(quads[j] == prev_quads[j]);
                                }
                            }
                        }
                    },
                }
                i += 1;
            }
            proof {
                assert(lsv.take(lines@.len() as int) =~= lsv);
                assert(quads.len() == unit_count(*input));
                assert(views_of(out@) == run_output_spec(*input, quads, aview(*cfg)));
            }
            out
        },
    }
}

/// Runs one invocation: resolves the configuration, and on success
/// analyzes the input and returns the output lines in input order —
/// exactly the report, under the resolved configuration, of some
/// sequence of in-range scoring outcomes. A threshold-order error
/// stops the run before any analysis.
pub fn run(
    input: &AnalyzerInput,
    config_text: Option<&str>,
    pos_override: Option<i64>,
    neg_override: Option<i64>,
    verbose: bool,
) -> (r: Result<Vec<String>, RunError>)
    ensures
        ({
            let resolved = resolve_spec(
                opt_text_view(config_text),
                opt_scaled_view(pos_override),
                opt_scaled_view(neg_override),
                verbose,
            );
            match r {
                Ok(lines) => resolved is Ok && (exists|quads: Seq<ScoreQuad>|
                    {
                        &&& quads.len() == unit_count(*input)
                        &&& all_in_range(quads)
                        &&& views_of(lines@) == #[trigger] run_output_spec(
                            *input,
                            quads,
                            resolved->Ok_0.analysis,
                        )
                    }),
                Err(e) => resolved == Err::<ConfigView, RunError>(e),
            }
        }),
{
    let cfg = match resolve_config(config_text, pos_override, neg_override, verbose) {
        Ok(c) => c,
        Err(e) => {
            return Err(e);
        },
    };
    let lines = report_all(input, &cfg.analysis);
    proof {
        let quads = choose|quads: Seq<ScoreQuad>|
            {
                &&& quads.len() == unit_count(*input)
                &&& all_in_range(quads)
                &&& views_of(lines@) == #[trigger] run_output_spec(*input, quads, aview(cfg.analysis))
            };
        let resolved = resolve_spec(
            opt_text_view(config_text),
            opt_scaled_view(pos_override),
            opt_scaled_view(neg_override),
            verbose,
        );
        assert(resolved->Ok_0.analysis == aview(cfg.analysis));
        assert(views_of(lines@) == run_output_spec(*input, quads, resolved->Ok_0.analysis));
    }
    Ok(lines)
}

} // verus!
