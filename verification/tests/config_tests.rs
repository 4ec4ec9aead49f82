use sentiment_analyzer::config::{
    parse_config, parse_level, default_config, resolve_config, LogLevel, RunError,
};

fn full_doc() -> String {
    [
        "analysis:",
        "  positive_threshold: 0.25",
        "  negative_threshold: -0.1",
        "  include_compound: true",
        "  include_individual: true",
        "logging:",
        "  level: DEBUG",
        "  file: \"\"",
    ]
    .join("\n")
}

#[test]
fn parse_config_full_document() {
    let cfg = parse_config(&full_doc()).expect("well-formed configuration");
    assert_eq!(cfg.analysis.positive_threshold, 2500);
    assert_eq!(cfg.analysis.negative_threshold, -1000);
    assert!(cfg.analysis.include_compound);
    assert!(cfg.analysis.include_individual);
    assert_eq!(cfg.logging.level, LogLevel::Debug);
    assert_eq!(cfg.logging.file, "");
}

#[test]
fn parse_config_quoted_file_path() {
    let doc = full_doc().replace("file: \"\"", "file: \"out.log\"");
    let cfg = parse_config(&doc).expect("well-formed configuration");
    assert_eq!(cfg.logging.file, "out.log");
}

#[test]
fn parse_config_accepts_flexible_layout() {
    let doc = [
        "# thresholds for the run",
        "analysis:  ",
        "    positive_threshold:  0.25",
        "\tnegative_threshold : -0.1",
        "  # a comment between fields",
        "  include_compound:true",
        "  include_individual: false",
        "logging:",
        "  level: warn",
        "  file:",
    ]
    .join("\n");
    let cfg = parse_config(&doc).expect("well-formed configuration");
    assert_eq!(cfg.analysis.positive_threshold, 2500);
    assert_eq!(cfg.analysis.negative_threshold, -1000);
    assert!(cfg.analysis.include_compound);
    assert!(!cfg.analysis.include_individual);
    assert_eq!(cfg.logging.level, LogLevel::Warn);
    assert_eq!(cfg.logging.file, "");
}

#[test]
fn parse_config_missing_field_is_malformed() {
    let doc = [
        "analysis:",
        "  positive_threshold: 0.25",
        "  negative_threshold: -0.1",
        "  include_compound: true",
        "logging:",
        "  level: info",
        "  file: \"\"",
    ]
    .join("\n");
    assert!(parse_config(&doc).is_none());
}

#[test]
fn parse_config_rejects_garbage() {
    assert!(parse_config("not a config").is_none());
    assert!(parse_config("analysis:\n  positive_threshold: oops").is_none());
    assert!(parse_config("  positive_threshold: 0.1").is_none());
    assert!(parse_config("").is_none());
}

#[test]
fn parse_level_is_case_insensitive() {
    assert_eq!(parse_level("debug"), LogLevel::Debug);
    assert_eq!(parse_level("WARN"), LogLevel::Warn);
    assert_eq!(parse_level("Error"), LogLevel::Error);
    assert_eq!(parse_level("info"), LogLevel::Info);
    assert_eq!(parse_level("whatever"), LogLevel::Info);
}

#[test]
fn default_config_values() {
    let cfg = default_config();
    assert_eq!(cfg.analysis.positive_threshold, 500);
    assert_eq!(cfg.analysis.negative_threshold, -500);
    assert!(cfg.analysis.include_compound);
    assert!(!cfg.analysis.include_individual);
    assert_eq!(cfg.logging.level, LogLevel::Info);
    assert_eq!(cfg.logging.file, "");
}

#[test]
fn resolve_falls_back_to_defaults() {
    let from_missing = resolve_config(None, None, None, false).expect("defaults are valid");
    assert_eq!(from_missing.analysis.positive_threshold, 500);
    assert_eq!(from_missing.analysis.negative_threshold, -500);
    assert!(!from_missing.analysis.include_individual);

    let from_malformed = resolve_config(Some("not: a config"), None, None, false)
        .expect("defaults are valid");
    assert_eq!(from_malformed.analysis.positive_threshold, 500);
    assert_eq!(from_malformed.analysis.negative_threshold, -500);
    assert!(!from_malformed.analysis.include_individual);
}

#[test]
fn resolve_applies_overrides_and_verbose() {
    let cfg = resolve_config(None, Some(1000), None, true).expect("thresholds in order");
    assert_eq!(cfg.analysis.positive_threshold, 1000);
    assert_eq!(cfg.analysis.negative_threshold, -500);
    assert!(cfg.analysis.include_individual);
}

#[test]
fn resolve_rejects_unordered_thresholds() {
    let r = resolve_config(None, Some(1000), Some(2000), false);
    assert_eq!(r.unwrap_err(), RunError::InvalidThresholds);
}
