//! Configuration: the analysis and logging settings, a parser for the
//! two-section key/value configuration text, the built-in defaults, and
//! the resolution of text, defaults and command-line overrides into one
//! validated configuration.
//!
//! The configuration text has the shape
//!
//! ```text
//! analysis:
//!   positive_threshold: 0.05
//!   negative_threshold: -0.05
//!   include_compound: true
//!   include_individual: false
//! logging:
//!   level: info
//!   file: ""
//! ```
//!
//! Parsing succeeds only when every one of the six fields is present; a
//! partial document is malformed, and the caller falls back to the
//! defaults as one whole value.
//!
//! The shape is line-oriented: section headers (`analysis:`,
//! `logging:`) start at the first column; a field line is indented by
//! at least one space or tab and holds `key: value`, with any amount
//! of space or tab around the colon and at the end of the line; a line
//! whose first non-blank character is `#` is a comment; a value keeps
//! one pair of surrounding double quotes removed (the `file` value
//! only). This is deliberately narrower than a general-purpose
//! document language — nested or flow forms are malformed — and a
//! malformed document falls back to the defaults as one whole value,
//! with a warning from the caller.

use vstd::prelude::*;
use crate::scan::{find_char, find_char_in, lemma_find_char, str_eq};
use crate::num::{valid_scaled, scaled_val, parse_scaled};
use crate::text::{is_blank, text_is_blank, split_lines, split_lines_spec};

verus! {

/// Logging severity; unrecognized level names mean `Info`.
#[derive(Clone, Copy, Debug, PartialEq, Eq, Structural)]
pub enum LogLevel {
    Debug,
    Info,
    Warn,
    Error,
}

/// Thresholds and score-inclusion flags, in scaled units.
#[derive(Clone, Copy, Debug, PartialEq, Eq, Structural)]
pub struct AnalysisConfig {
    pub positive_threshold: i64,
    pub negative_threshold: i64,
    pub include_compound: bool,
    pub include_individual: bool,
}

/// Logging severity and an optional log file path; an empty path means
/// the console.
#[derive(Clone, Debug)]
pub struct LoggingConfig {
    pub level: LogLevel,
    pub file: String,
}

#[derive(Clone, Debug)]
pub struct Config {
    pub analysis: AnalysisConfig,
    pub logging: LoggingConfig,
}

/// Mathematical model of an analysis configuration.
#[verifier::ext_equal]
pub struct AnalysisView {
    pub pos: int,
    pub neg: int,
    pub include_compound: bool,
    pub include_individual: bool,
}

/// Mathematical model of a full configuration.
#[verifier::ext_equal]
pub struct ConfigView {
    pub analysis: AnalysisView,
    pub level: LogLevel,
    pub file: Seq<char>,
}

pub open spec fn aview(c: AnalysisConfig) -> AnalysisView {
    AnalysisView {
        pos: c.positive_threshold as int,
        neg: c.negative_threshold as int,
        include_compound: c.include_compound,
        include_individual: c.include_individual,
    }
}

pub open spec fn config_view(c: Config) -> ConfigView {
    ConfigView { analysis: aview(c.analysis), level: c.logging.level, file: c.logging.file@ }
}

pub open spec fn default_config_view() -> ConfigView {
    ConfigView {
        analysis: AnalysisView { pos: 500, neg: -500, include_compound: true, include_individual: false },
        level: LogLevel::Info,
        file: Seq::<char>::empty(),
    }
}

/// The built-in defaults: thresholds 0.05 and -0.05 in scaled units, the
/// compound score shown, no individual breakdown, console logging at
/// `Info`.
pub fn default_config() -> (r: Config)
    ensures
        config_view(r) == default_config_view(),
{
    let r = Config {
        analysis: AnalysisConfig {
            positive_threshold: 500,
            negative_threshold: -500,
            include_compound: true,
            include_individual: false,
        },
        logging: LoggingConfig { level: LogLevel::Info, file: String::new() },
    };
    proof {
        assert(config_view(r) =~= default_config_view());
    }
    r
}

/// ASCII code of a character with upper-case letters folded to lower
/// case.
pub open spec fn lower_code(c: char) -> int {
    if 65 <= c as int <= 90 {
        c as int + 32
    } else {
        c as int
    }
}

pub open spec fn eq_ignore_ascii_case(a: Seq<char>, b: Seq<char>) -> bool {
    a.len() == b.len() && forall|i: int| 0 <= i < a.len() ==> lower_code(a[i]) == lower_code(b[i])
}

/// Severity named by `s`, compared without regard to ASCII case;
/// anything unrecognized is `Info`.
pub open spec fn level_of(s: Seq<char>) -> LogLevel {
    if eq_ignore_ascii_case(s, "debug"@) {
        LogLevel::Debug
    } else if eq_ignore_ascii_case(s, "warn"@) {
        LogLevel::Warn
    } else if eq_ignore_ascii_case(s, "error"@) {
        LogLevel::Error
    } else {
        LogLevel::Info
    }
}

fn eq_icase(a: &str, b: &str) -> (r: bool)
    ensures
        r == eq_ignore_ascii_case(a@, b@),
{
    let n = a.unicode_len();
    if n != b.unicode_len() {
        return false;
    }
    let mut i: usize = 0;
    while i < n
        invariant
            i <= n,
            n == a@.len(),
            n == b@.len(),
            forall|j: int| 0 <= j < i ==> lower_code(a@[j]) == lower_code(b@[j]),
        decreases n - i,
    {
        let ca = a.get_char(i) as u32;
        let cb = b.get_char(i) as u32;
        let la = if 65 <= ca && ca <= 90 { ca + 32 } else { ca };
        let lb = if 65 <= cb && cb <= 90 { cb + 32 } else { cb };
        if la != lb {
            return false;
        }
        i += 1;
    }
    true
}

pub fn parse_level(s: &str) -> (r: LogLevel)
    ensures
        r == level_of(s@),
{
    if eq_icase(s, "debug") {
        LogLevel::Debug
    } else if eq_icase(s, "warn") {
        LogLevel::Warn
    } else if eq_icase(s, "error") {
        LogLevel::Error
    } else {
        LogLevel::Info
    }
}

#[derive(Clone, Copy, Debug, PartialEq, Eq, Structural)]
pub enum CfgSection {
    Outside,
    Analysis,
    Logging,
}

/// Fields gathered so far while reading the configuration text.
pub struct PartialView {
    pub section: CfgSection,
    pub pos: Option<int>,
    pub neg: Option<int>,
    pub inc_compound: Option<bool>,
    pub inc_individual: Option<bool>,
    pub level: Option<LogLevel>,
    pub file: Option<Seq<char>>,
}

pub open spec fn init_partial() -> PartialView {
    PartialView {
        section: CfgSection::Outside,
        pos: None,
        neg: None,
        inc_compound: None,
        inc_individual: None,
        level: None,
        file: None,
    }
}

/// Whitespace inside a line: space or tab.
pub open spec fn is_line_ws(c: char) -> bool {
    c == ' ' || c == '\t'
}

/// A text with its leading spaces and tabs removed.
pub open spec fn trim_start_spec(s: Seq<char>) -> Seq<char>
    decreases s.len(),
{
    if s.len() > 0 && is_line_ws(s[0]) {
        trim_start_spec(s.skip(1))
    } else {
        s
    }
}

/// A text with its trailing spaces and tabs removed.
pub open spec fn trim_end_spec(s: Seq<char>) -> Seq<char>
    decreases s.len(),
{
    if s.len() > 0 && is_line_ws(s.last()) {
        trim_end_spec(s.drop_last())
    } else {
        s
    }
}

proof fn lemma_trim_start_at(s: Seq<char>, k: int)
    requires
        0 <= k <= s.len(),
        forall|j: int| 0 <= j < k ==> is_line_ws(s[j]),
        k < s.len() ==> !is_line_ws(s[k]),
    ensures
        trim_start_spec(s) == s.skip(k),
    decreases k,
{
    if k == 0 {
        assert(s.skip(0) =~= s);
    } else {
        assert(is_line_ws(s[0]));
        assert forall|j: int| 0 <= j < k - 1 implies is_line_ws(s.skip(1)[j]) by {
            assert(s.skip(1)[j] == s[j + 1]);
        }
        if k - 1 < s.skip(1).len() {
            assert(s.skip(1)[k - 1] == s[k]);
        }
        lemma_trim_start_at(s.skip(1), k - 1);
        assert(s.skip(1).skip(k - 1) =~= s.skip(k));
    }
}

proof fn lemma_trim_end_at(s: Seq<char>, k: int)
    requires
        0 <= k <= s.len(),
        forall|j: int| k <= j < s.len() ==> is_line_ws(s[j]),
        k > 0 ==> !is_line_ws(s[k - 1]),
    ensures
        trim_end_spec(s) == s.take(k),
    decreases s.len(),
{
    if k == s.len() {
        assert(s.take(k) =~= s);
    } else {
        assert(is_line_ws(s.last()));
        assert forall|j: int| k <= j < s.drop_last().len() implies is_line_ws(s.drop_last()[j]) by {
            assert(s.drop_last()[j] == s[j]);
        }
        if k > 0 {
            assert(s.drop_last()[k - 1] == s[k - 1]);
        }
        lemma_trim_end_at(s.drop_last(), k);
        assert(s.drop_last().take(k) =~= s.take(k));
    }
}

/// Space and tab are whitespace in the blank sense too, so trimming a
/// non-blank text leaves it non-blank.
proof fn lemma_trim_end_keeps_non_blank(s: Seq<char>)
    requires
        !is_blank(s),
    ensures
        !is_blank(trim_end_spec(s)),
    decreases s.len(),
{
    if s.len() > 0 && is_line_ws(s.last()) {
        assert(!is_blank(s.drop_last())) by {
            if is_blank(s.drop_last()) {
                assert forall|i: int| 0 <= i < s.len() implies crate::text::is_space_char(s[i]) by {
                    if i < s.len() - 1 {
                        assert(s.drop_last()[i] == s[i]);
                    }
                }
            }
        }
        lemma_trim_end_keeps_non_blank(s.drop_last());
    }
}

proof fn lemma_trim_start_keeps_non_blank(s: Seq<char>)
    requires
        !is_blank(s),
    ensures
        !is_blank(trim_start_spec(s)),
    decreases s.len(),
{
    if s.len() > 0 && is_line_ws(s[0]) {
        assert(!is_blank(s.skip(1))) by {
            if is_blank(s.skip(1)) {
                assert forall|i: int| 0 <= i < s.len() implies crate::text::is_space_char(s[i]) by {
                    if i > 0 {
                        assert(s.skip(1)[i - 1] == s[i]);
                    }
                }
            }
        }
        lemma_trim_start_keeps_non_blank(s.skip(1));
    }
}

fn trim_line_start<'a>(s: &'a str) -> (r: &'a str)
    ensures
        r@ == trim_start_spec(s@),
{
    let n = s.unicode_len();
    let mut k: usize = 0;
    while k < n
        invariant
            k <= n,
            n == s@.len(),
            forall|j: int| 0 <= j < k ==> is_line_ws(s@[j]),
        decreases n - k,
    {
        let c = s.get_char(k);
        if !(c == ' ' || c == '\t') {
            proof {
                lemma_trim_start_at(s@, k as int);
            }
            let r = s.substring_char(k, n);
            proof {
                assert(r@ =~= s@.skip(k as int));
            }
            return r;
        }
        k += 1;
    }
    proof {
        lemma_trim_start_at(s@, n as int);
    }
    let r = s.substring_char(n, n);
    proof {
        assert(r@ =~= s@.skip(n as int));
    }
    r
}

fn trim_line_end<'a>(s: &'a str) -> (r: &'a str)
    ensures
        r@ == trim_end_spec(s@),
{
    let n = s.unicode_len();
    let mut k: usize = n;
    while k > 0
        invariant
            k <= n,
            n == s@.len(),
            forall|j: int| k <= j < n ==> is_line_ws(s@[j]),
        decreases k,
    {
        let c = s.get_char(k - 1);
        if !(c == ' ' || c == '\t') {
            proof {
                lemma_trim_end_at(s@, k as int);
            }
            let r = s.substring_char(0, k);
            proof {
                assert(r@ =~= s@.take(k as int));
            }
            return r;
        }
        k -= 1;
    }
    proof {
        lemma_trim_end_at(s@, 0);
    }
    let r = s.substring_char(0, 0);
    proof {
        assert(r@ =~= s@.take(0));
    }
    r
}

/// A value with one pair of surrounding double quotes removed.
pub open spec fn strip_quotes(v: Seq<char>) -> Seq<char> {
    if v.len() >= 2 && v[0] == '"' && v.last() == '"' {
        v.subrange(1, v.len() - 1)
    } else {
        v
    }
}

pub open spec fn bool_of(v: Seq<char>) -> Option<bool> {
    if v == "true"@ {
        Some(true)
    } else if v == "false"@ {
        Some(false)
    } else {
        None
    }
}

/// Effect of one `key: value` field on the gathered state; `None` for an
/// unknown key, a key outside its section, or an ill-formed value.
pub open spec fn assign_field(st: PartialView, key: Seq<char>, val: Seq<char>) -> Option<PartialView> {
    if st.section == CfgSection::Analysis {
        if key == "positive_threshold"@ {
            if valid_scaled(val) {
                Some(PartialView { pos: Some(scaled_val(val)), ..st })
            } else {
                None
            }
        } else if key == "negative_threshold"@ {
            if valid_scaled(val) {
                Some(PartialView { neg: Some(scaled_val(val)), ..st })
            } else {
                None
            }
        } else if key == "include_compound"@ {
            match bool_of(val) {
                Some(b) => Some(PartialView { inc_compound: Some(b), ..st }),
                None => None,
            }
        } else if key == "include_individual"@ {
            match bool_of(val) {
                Some(b) => Some(PartialView { inc_individual: Some(b), ..st }),
                None => None,
            }
        } else {
            None
        }
    } else if st.section == CfgSection::Logging {
        if key == "level"@ {
            Some(PartialView { level: Some(level_of(val)), ..st })
        } else if key == "file"@ {
            Some(PartialView { file: Some(strip_quotes(val)), ..st })
        } else {
            None
        }
    } else {
        None
    }
}

/// Effect of an indented field line, given its trimmed core: a key up
/// to the first colon and the rest as the value, whitespace around the
/// colon ignored.
pub open spec fn field_of_core(st: PartialView, core: Seq<char>) -> Option<PartialView> {
    let k = find_char(core, ':') as int;
    if k < core.len() {
        assign_field(st, trim_end_spec(core.take(k)), trim_start_spec(core.skip(k + 1)))
    } else {
        None
    }
}

/// Effect of one line: blank lines and comment lines are skipped,
/// indented lines are fields of the current section, anything else must
/// be one of the two section headers, trailing whitespace ignored.
pub open spec fn step_line(st: PartialView, line: Seq<char>) -> Option<PartialView> {
    let core = trim_start_spec(trim_end_spec(line));
    if is_blank(line) {
        Some(st)
    } else if core.len() > 0 && core[0] == '#' {
        Some(st)
    } else if line.len() > 0 && is_line_ws(line[0]) {
        field_of_core(st, core)
    } else if core == "analysis:"@ {
        Some(PartialView { section: CfgSection::Analysis, ..st })
    } else if core == "logging:"@ {
        Some(PartialView { section: CfgSection::Logging, ..st })
    } else {
        None
    }
}

pub open spec fn fold_lines(st: PartialView, lines: Seq<Seq<char>>) -> Option<PartialView>
    decreases lines.len(),
{
    if lines.len() == 0 {
        Some(st)
    } else {
        match step_line(st, lines[0]) {
            Some(s2) => fold_lines(s2, lines.skip(1)),
            None => None,
        }
    }
}

pub proof fn lemma_fold_lines_snoc(st: PartialView, lines: Seq<Seq<char>>, x: Seq<char>)
    ensures
        fold_lines(st, lines.push(x)) == (match fold_lines(st, lines) {
            Some(s2) => step_line(s2, x),
            None => None::<PartialView>,
        }),
    decreases lines.len(),
{
    reveal_with_fuel(fold_lines, 3);
    if lines.len() == 0 {
        assert(lines.push(x)[0] == x);
        assert(lines.push(x).skip(1) =~= Seq::<Seq<char>>::empty());
    } else {
        assert(lines.push(x)[0] == lines[0]);
        assert(lines.push(x).skip(1) =~= lines.skip(1).push(x));
        match step_line(st, lines[0]) {
            Some(s2) => lemma_fold_lines_snoc(s2, lines.skip(1), x),
            None => {},
        }
    }
}

/// A configuration is complete only with all six fields present.
pub open spec fn finish_config(st: PartialView) -> Option<ConfigView> {
    match (st.pos, st.neg, st.inc_compound, st.inc_individual, st.level, st.file) {
        (Some(p), Some(ng), Some(ic), Some(ii), Some(lv), Some(f)) => Some(
            ConfigView {
                analysis: AnalysisView { pos: p, neg: ng, include_compound: ic, include_individual: ii },
                level: lv,
                file: f,
            },
        ),
        _ => None,
    }
}

/// Model of parsing the whole configuration text.
pub open spec fn parse_config_spec(s: Seq<char>) -> Option<ConfigView> {
    match fold_lines(init_partial(), split_lines_spec(s)) {
        Some(st) => finish_config(st),
        None => None,
    }
}

struct PartialConfig {
    section: CfgSection,
    pos: Option<i64>,
    neg: Option<i64>,
    inc_compound: Option<bool>,
    inc_individual: Option<bool>,
    level: Option<LogLevel>,
    file: Option<String>,
}

spec fn opt_i64_view(o: Option<i64>) -> Option<int> {
    match o {
        Some(v) => Some(v as int),
        None => None,
    }
}

spec fn opt_string_view(o: Option<String>) -> Option<Seq<char>> {
    match o {
        Some(s) => Some(s@),
        None => None,
    }
}

spec fn partial_view(p: PartialConfig) -> PartialView {
    PartialView {
        section: p.section,
        pos: opt_i64_view(p.pos),
        neg: opt_i64_view(p.neg),
        inc_compound: p.inc_compound,
        inc_individual: p.inc_individual,
        level: p.level,
        file: opt_string_view(p.file),
    }
}

fn strip_quotes_text(v: &str) -> (r: String)
    ensures
        r@ == strip_quotes(v@),
{
    let n = v.unicode_len();
    if n >= 2 && v.get_char(0) == '"' && v.get_char(n - 1) == '"' {
        String::from_str(v.substring_char(1, n - 1))
    } else {
        String::from_str(v)
    }
}

fn parse_bool(v: &str) -> (r: Option<bool>)
    ensures
        r == bool_of(v@),
{
    if str_eq(v, "true") {
        Some(true)
    } else if str_eq(v, "false") {
        Some(false)
    } else {
        None
    }
}

fn apply_field(st: PartialConfig, key: &str, val: &str) -> (r: Option<PartialConfig>)
    ensures
        match r {
            Some(p2) => assign_field(partial_view(st), key@, val@) == Some(partial_view(p2)),
            None => assign_field(partial_view(st), key@, val@) is None,
        },
{
    if st.section == CfgSection::Analysis {
        if str_eq(key, "positive_threshold") {
            match parse_scaled(val) {
                Some(v) => Some(PartialConfig { pos: Some(v), ..st }),
                None => None,
            }
        } else if str_eq(key, "negative_threshold") {
            match parse_scaled(val) {
                Some(v) => Some(PartialConfig { neg: Some(v), ..st }),
                None => None,
            }
        } else if str_eq(key, "include_compound") {
            match parse_bool(val) {
                Some(b) => Some(PartialConfig { inc_compound: Some(b), ..st }),
                None => None,
            }
        } else if str_eq(key, "include_individual") {
            match parse_bool(val) {
                Some(b) => Some(PartialConfig { inc_individual: Some(b), ..st }),
                None => None,
            }
        } else {
            None
        }
    } else if st.section == CfgSection::Logging {
        if str_eq(key, "level") {
            Some(PartialConfig { level: Some(parse_level(val)), ..st })
        } else if str_eq(key, "file") {
            Some(PartialConfig { file: Some(strip_quotes_text(val)), ..st })
        } else {
            None
        }
    } else {
        None
    }
}

fn apply_line(st: PartialConfig, line: &str) -> (r: Option<PartialConfig>)
    ensures
        match r {
            Some(p2) => step_line(partial_view(st), line@) == Some(partial_view(p2)),
            None => step_line(partial_view(st), line@) is None,
        },
{
    if text_is_blank(line) {
        return Some(st);
    }
    let core = trim_line_start(trim_line_end(line));
    proof {
        lemma_trim_end_keeps_non_blank(line@);
        lemma_trim_start_keeps_non_blank(trim_end_spec(line@));
    }
    let cn = core.unicode_len();
    if core.get_char(0) == '#' {
        return Some(st);
    }
    let first = line.get_char(0);
    if first == ' ' || first == '\t' {
        let k = find_char_in(core, ':');
        proof {
            lemma_find_char(core@, ':');
        }
        if k < cn {
            let key = trim_line_end(core.substring_char(0, k));
            let val = trim_line_start(core.substring_char(k + 1, cn));
            proof {
                assert(core@.subrange(0, k as int) =~= core@.take(k as int));
                assert(core@.subrange(k + 1, cn as int) =~= core@.skip(k + 1));
            }
            apply_field(st, key, val)
        } else {
            None
        }
    } else if str_eq(core, "analysis:") {
        Some(PartialConfig { section: CfgSection::Analysis, ..st })
    } else if str_eq(core, "logging:") {
        Some(PartialConfig { section: CfgSection::Logging, ..st })
    } else {
        None
    }
}

/// Parses the configuration text; `None` exactly when the text is
/// malformed or any of the six fields is missing. The caller, not the
/// parser, substitutes the defaults on failure.
pub fn parse_config(text: &str) -> (r: Option<Config>)
    ensures
        match r {
            Some(c) => parse_config_spec(text@) == Some(config_view(c)),
            None => parse_config_spec(text@) is None,
        },
{
    let lines = split_lines(text);
    let ghost lv = split_lines_spec(text@);
    let mut st = PartialConfig {
        section: CfgSection::Outside,
        pos: None,
        neg: None,
        inc_compound: None,
        inc_individual: None,
        level: None,
        file: None,
    };
    proof {
        assert(lv.take(0) =~= Seq::<Seq<char>>::empty());
    }
    let mut i: usize = 0;
    while i < lines.len()
        invariant
            i <= lines.len(),
            lv == split_lines_spec(text@),
            lines@.len() == lv.len(),
            forall|j: int| 0 <= j < lv.len() ==> lines@[j]@ == lv[j],
            fold_lines(init_partial(), lv.take(i as int)) == Some(partial_view(st)),
        decreases lines.len() - i,
    {
        let next = apply_line(st, lines[i].as_str());
        proof {
            lemma_fold_lines_snoc(init_partial(), lv.take(i as int), lv[i as int]);
            assert(lv.take(i + 1) =~= lv.take(i as int).push(lv[i as int]));
        }
        match next {
            Some(s2) => {
                st = s2;
            },
            None => {
                proof {
                    lemma_fold_none_extends(init_partial(), lv, i + 1);
                }
                return None;
            },
        }
        i += 1;
    }
    proof {
        assert(lv.take(lines.len() as int) =~= lv);
    }
    match (st.pos, st.neg, st.inc_compound, st.inc_individual, st.level, st.file) {
        (Some(p), Some(ng), Some(ic), Some(ii), Some(lvl), Some(f)) => {
            let c = Config {
                analysis: AnalysisConfig {
                    positive_threshold: p,
                    negative_threshold: ng,
                    include_compound: ic,
                    include_individual: ii,
                },
                logging: LoggingConfig { level: lvl, file: f },
            };
            proof {
                assert(parse_config_spec(text@) == Some(config_view(c)));
            }
            Some(c)
        },
        _ => None,
    }
}

/// Once a prefix of the lines fails to fold, the whole text fails.
proof fn lemma_fold_none_extends(st: PartialView, lines: Seq<Seq<char>>, k: int)
    requires
        0 <= k <= lines.len(),
        fold_lines(st, lines.take(k)) is None,
    ensures
        fold_lines(st, lines) is None,
    decreases lines.len(),
{
    if lines.len() == 0 {
        assert(lines.take(k) =~= lines);
    } else if k == 0 {
        assert(lines.take(0) =~= Seq::<Seq<char>>::empty());
        assert(false);
    } else {
        assert(lines.take(k)[0] == lines[0]);
        match step_line(st, lines[0]) {
            Some(s2) => {
                assert(lines.take(k).skip(1) =~= lines.skip(1).take(k - 1));
                lemma_fold_none_extends(s2, lines.skip(1), k - 1);
            },
            None => {},
        }
    }
}

/// A fatal startup error.
#[derive(Clone, Copy, Debug, PartialEq, Eq, Structural)]
pub enum RunError {
    /// The resolved thresholds are not in order: the positive threshold
    /// must lie strictly above the negative one.
    InvalidThresholds,
}

impl RunError {
    pub fn message(&self) -> (r: &'static str)
        ensures
            r@ == "positive threshold must be greater than negative threshold"@,
    {
        match self {
            RunError::InvalidThresholds => "positive threshold must be greater than negative threshold",
        }
    }
}

pub open spec fn opt_text_view(o: Option<&str>) -> Option<Seq<char>> {
    match o {
        Some(s) => Some(s@),
        None => None,
    }
}

pub open spec fn opt_scaled_view(o: Option<i64>) -> Option<int> {
    match o {
        Some(v) => Some(v as int),
        None => None,
    }
}

/// Model of configuration resolution: the parsed text, or the defaults
/// when the text is absent or malformed, then the command-line
/// overrides, then the threshold-order check.
pub open spec fn resolve_spec(
    ct: Option<Seq<char>>,
    pos_override: Option<int>,
    neg_override: Option<int>,
    verbose: bool,
) -> Result<ConfigView, RunError> {
    let base = match ct {
        Some(t) => match parse_config_spec(t) {
            Some(c) => c,
            None => default_config_view(),
        },
        None => default_config_view(),
    };
    let pos = match pos_override {
        Some(v) => v,
        None => base.analysis.pos,
    };
    let neg = match neg_override {
        Some(v) => v,
        None => base.analysis.neg,
    };
    let cfg = ConfigView {
        analysis: AnalysisView {
            pos,
            neg,
            include_compound: base.analysis.include_compound,
            include_individual: base.analysis.include_individual || verbose,
        },
        level: base.level,
        file: base.file,
    };
    if pos > neg {
        Ok(cfg)
    } else {
        Err(RunError::InvalidThresholds)
    }
}

/// Resolves the configuration for one invocation. `config_text` is the
/// configuration file's content, or `None` when it was unreadable; on
/// malformed or absent text the defaults stand in as one whole value.
/// Fails exactly when the resolved thresholds are out of order, before
/// any analysis is performed.
pub fn resolve_config(
    config_text: Option<&str>,
    pos_override: Option<i64>,
    neg_override: Option<i64>,
    verbose: bool,
) -> (r: Result<Config, RunError>)
    ensures
        match r {
            Ok(c) => resolve_spec(
                opt_text_view(config_text),
                opt_scaled_view(pos_override),
                opt_scaled_view(neg_override),
                verbose,
            ) == Ok::<ConfigView, RunError>(config_view(c)),
            Err(e) => resolve_spec(
                opt_text_view(config_text),
                opt_scaled_view(pos_override),
                opt_scaled_view(neg_override),
                verbose,
            ) == Err::<ConfigView, RunError>(e),
        },
{
    let base = match config_text {
        Some(t) => match parse_config(t) {
            Some(c) => c,
            None => default_config(),
        },
        None => default_config(),
    };
    let pos = match pos_override {
        Some(v) => v,
        None => base.analysis.positive_threshold,
    };
    let neg = match neg_override {
        Some(v) => v,
        None => base.analysis.negative_threshold,
    };
    let cfg = Config {
        analysis: AnalysisConfig {
            positive_threshold: pos,
            negative_threshold: neg,
            include_compound: base.analysis.include_compound,
            include_individual: base.analysis.include_individual || verbose,
        },
        logging: base.logging,
    };
    if pos > neg {
        proof {
            assert(resolve_spec(
                opt_text_view(config_text),
                opt_scaled_view(pos_override),
                opt_scaled_view(neg_override),
                verbose,
            ) =~= Ok::<ConfigView, RunError>(config_view(cfg)));
        }
        Ok(cfg)
    } else {
        Err(RunError::InvalidThresholds)
    }
}

/// With a missing or malformed configuration text and no overrides,
/// resolution completes with exactly the default configuration.
pub proof fn lemma_config_fallback(ct: Option<Seq<char>>)
    requires
        match ct {
            Some(t) => parse_config_spec(t) is None,
            None => true,
        },
    ensures
        resolve_spec(ct, None, None, false) == Ok::<ConfigView, RunError>(default_config_view()),
{
    assert(resolve_spec(ct, None, None, false) =~= Ok::<ConfigView, RunError>(default_config_view()));
}

} // verus!
