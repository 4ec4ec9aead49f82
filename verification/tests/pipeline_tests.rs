use sentiment_analyzer::analyze::{analyze_text, assemble_result, RawScores, SentimentResult, SentimentScores};
use sentiment_analyzer::classify::{classify, Label};
use sentiment_analyzer::config::{default_config, RunError};
use sentiment_analyzer::pipeline::{run, report_all, AnalyzerInput};
use sentiment_analyzer::report::report_lines;

#[test]
fn classify_thresholds_inclusive() {
    assert_eq!(classify(500, 500, -500), Label::Positive);
    assert_eq!(classify(499, 500, -500), Label::Neutral);
    assert_eq!(classify(-500, 500, -500), Label::Negative);
    assert_eq!(classify(-499, 500, -500), Label::Neutral);
    assert_eq!(classify(0, 500, -500), Label::Neutral);
    // Equal thresholds: the positive side wins the tie.
    assert_eq!(classify(100, 100, 100), Label::Positive);
}

#[test]
fn positive_text_is_positive() {
    let cfg = default_config();
    let res = analyze_text("I love this!", &cfg.analysis).expect("not blank");
    assert_eq!(res.classification, Label::Positive);
    assert!(res.scores.compound.expect("compound included by default") > 0);
}

#[test]
fn negative_text_is_negative() {
    let cfg = default_config();
    let res = analyze_text("I hate this.", &cfg.analysis).expect("not blank");
    assert_eq!(res.classification, Label::Negative);
    assert!(res.scores.compound.expect("compound included by default") < 0);
}

#[test]
fn plain_text_is_neutral() {
    let cfg = default_config();
    let res = analyze_text("The sky is blue.", &cfg.analysis).expect("not blank");
    assert_eq!(res.classification, Label::Neutral);
    let c = res.scores.compound.expect("compound included by default");
    assert!(-500 <= c && c <= 500);
}

#[test]
fn blank_text_is_skipped() {
    let cfg = default_config();
    assert!(analyze_text("", &cfg.analysis).is_none());
    assert!(analyze_text("   ", &cfg.analysis).is_none());
    assert!(analyze_text(" \t\r\n", &cfg.analysis).is_none());
}

#[test]
fn unicode_whitespace_is_blank() {
    let cfg = default_config();
    assert!(analyze_text("\u{000C}", &cfg.analysis).is_none());
    assert!(analyze_text("\u{000B}\u{00A0}\u{2028}", &cfg.analysis).is_none());
    assert!(analyze_text("\u{3000} \t", &cfg.analysis).is_none());
}

#[test]
fn form_feed_line_is_skipped_in_file_mode() {
    let input = AnalyzerInput::FileContent(String::from("\u{000C}\nGreat day!"));
    let lines = run(&input, None, None, None, false).expect("thresholds in order");
    assert_eq!(lines.len(), 1);
    assert!(lines[0].starts_with("Line 2: Positive: Great day! ("));
}

#[test]
fn individual_scores_absent_by_default() {
    let cfg = default_config();
    let res = analyze_text("I love this!", &cfg.analysis).expect("not blank");
    assert!(res.scores.positive.is_none());
    assert!(res.scores.negative.is_none());
    assert!(res.scores.neutral.is_none());
}

#[test]
fn analysis_is_deterministic() {
    let cfg = default_config();
    let a = analyze_text("What a wonderful, wonderful day.", &cfg.analysis).expect("not blank");
    let b = analyze_text("What a wonderful, wonderful day.", &cfg.analysis).expect("not blank");
    assert_eq!(a.classification, b.classification);
    assert_eq!(a.scores, b.scores);
    assert_eq!(a.text, b.text);
}

#[test]
fn assemble_result_is_exact() {
    let raw = RawScores {
        compound: String::from("0.6369"),
        positive: String::from("0.5000"),
        negative: String::from("0.0000"),
        neutral: String::from("0.5000"),
    };
    let mut analysis = default_config().analysis;
    analysis.include_individual = true;
    let res = assemble_result("Nice", &raw, &analysis);
    assert_eq!(res.text, "Nice");
    assert_eq!(res.classification, Label::Positive);
    assert_eq!(res.scores.compound, Some(6369));
    assert_eq!(res.scores.positive, Some(5000));
    assert_eq!(res.scores.negative, Some(0));
    assert_eq!(res.scores.neutral, Some(5000));
}

#[test]
fn assemble_result_treats_malformed_scores_as_zero() {
    let raw = RawScores {
        compound: String::from("oops"),
        positive: String::new(),
        negative: String::from("0.0000"),
        neutral: String::from("1.0000"),
    };
    let analysis = default_config().analysis;
    let res = assemble_result("Nice", &raw, &analysis);
    assert_eq!(res.classification, Label::Neutral);
    assert_eq!(res.scores.compound, Some(0));
}

#[test]
fn report_formats_head_and_detail_lines() {
    let res = SentimentResult {
        text: String::from("Nice"),
        classification: Label::Positive,
        scores: SentimentScores {
            compound: Some(6369),
            positive: Some(5000),
            negative: Some(0),
            neutral: Some(5000),
        },
    };
    let lines = report_lines(&res, Some(3));
    assert_eq!(
        lines,
        vec!["Line 3: Positive: Nice (0.6369)", "  pos: 0.5000 neg: 0.0000 neu: 0.5000"]
    );
}

#[test]
fn report_without_number_or_compound() {
    let res = SentimentResult {
        text: String::from("Nice"),
        classification: Label::Neutral,
        scores: SentimentScores { compound: None, positive: None, negative: None, neutral: None },
    };
    let lines = report_lines(&res, None);
    assert_eq!(lines, vec!["Neutral: Nice"]);
}

#[test]
fn file_mode_numbers_lines_by_file_position() {
    let input = AnalyzerInput::FileContent(String::from("\nGreat day!\n  \nTerrible news"));
    let lines = run(&input, None, None, None, false).expect("thresholds in order");
    assert_eq!(lines.len(), 2);
    assert!(lines[0].starts_with("Line 2: Positive: Great day! ("));
    assert!(lines[1].starts_with("Line 4: Negative: Terrible news ("));
}

#[test]
fn single_text_mode_is_unnumbered() {
    let input = AnalyzerInput::Text(String::from("I love this!"));
    let lines = run(&input, None, None, None, false).expect("thresholds in order");
    assert_eq!(lines.len(), 1);
    assert!(lines[0].starts_with("Positive: I love this! ("));
}

#[test]
fn blank_single_text_emits_nothing() {
    let input = AnalyzerInput::Text(String::from("   "));
    let lines = run(&input, None, None, None, false).expect("thresholds in order");
    assert!(lines.is_empty());
}

#[test]
fn unordered_thresholds_stop_the_run() {
    let input = AnalyzerInput::Text(String::from("I love this!"));
    let r = run(&input, None, Some(1000), Some(2000), false);
    assert_eq!(r.unwrap_err(), RunError::InvalidThresholds);
}

#[test]
fn verbose_run_adds_breakdown_line() {
    let cfg = default_config();
    let mut analysis = cfg.analysis;
    analysis.include_individual = true;
    let input = AnalyzerInput::Text(String::from("I love this!"));
    let lines = report_all(&input, &analysis);
    assert_eq!(lines.len(), 2);
    assert!(lines[1].starts_with("  pos: "));
    assert!(lines[1].contains(" neg: "));
    assert!(lines[1].contains(" neu: "));
}

#[test]
fn malformed_config_falls_back_and_still_analyzes() {
    let input = AnalyzerInput::Text(String::from("I love this!"));
    let lines = run(&input, Some("definitely not a config"), None, None, false)
        .expect("fallback thresholds are in order");
    assert_eq!(lines.len(), 1);
    assert!(lines[0].starts_with("Positive: I love this! ("));
}
