//! The data model: check bundles, Check Results and their Scores, Check
//! Outcomes, Assessments and the Report that summarizes them.
use std::collections::BTreeMap;

use vstd::prelude::*;
use vstd::string::*;

use crate::text::{concat, is_blank, is_blank_text};

verus! {

broadcast use vstd::string::group_string_axioms;

/// `serde_json::Value`, carried through the model as evidence.
#[verifier::external_type_specification]
#[verifier::external_body]
pub struct ExJsonValue(serde_json::Value);

/// `<serde_json::Value as Clone>::clone`: the copy equals the original.
#[verifier::external_body]
pub(crate) fn clone_json(value: &serde_json::Value) -> (r: serde_json::Value)
    ensures
        r == *value,
{
    value.clone()
}

/// The name and version of a check bundle.
#[derive(Debug)]
pub struct CheckBundleIdentity {
    pub name: String,
    pub version: String,
}

impl Clone for CheckBundleIdentity {
    fn clone(&self) -> (r: Self)
        ensures
            r == *self,
    {
        CheckBundleIdentity { name: self.name.clone(), version: self.version.clone() }
    }
}

/// How severe a failed expectation is.
#[derive(Clone, Copy, Debug, PartialEq, Eq, Structural)]
pub enum Severity {
    Error,
    Warn,
    Info,
}

/// The numeric rank of a severity: Info 0, Warn 1, Error 2.
pub open spec fn severity_rank(s: Severity) -> u8 {
    match s {
        Severity::Info => 0,
        Severity::Warn => 1,
        Severity::Error => 2,
    }
}

/// The Check Message level that reports a severity.
pub open spec fn severity_level(s: Severity) -> CheckMessageLevel {
    match s {
        Severity::Error => CheckMessageLevel::Error,
        Severity::Warn => CheckMessageLevel::Warning,
        Severity::Info => CheckMessageLevel::Info,
    }
}

/// The Score a failure of each severity receives: 0.0, 2.0 and 3.0.
pub open spec fn severity_failed_bits(s: Severity) -> u64 {
    match s {
        Severity::Error => ZERO_SCORE_BITS,
        Severity::Warn => TWO_SCORE_BITS,
        Severity::Info => THREE_SCORE_BITS,
    }
}

impl Severity {
    pub fn rank(self) -> (r: u8)
        ensures
            r == severity_rank(self),
    {
        match self {
            Severity::Info => 0,
            Severity::Warn => 1,
            Severity::Error => 2,
        }
    }

    pub fn message_level(self) -> (r: CheckMessageLevel)
        ensures
            r == severity_level(self),
    {
        match self {
            Severity::Error => CheckMessageLevel::Error,
            Severity::Warn => CheckMessageLevel::Warning,
            Severity::Info => CheckMessageLevel::Info,
        }
    }

    pub fn failed_score(self) -> (r: Score)
        ensures
            r@ == severity_failed_bits(self),
    {
        match self {
            Severity::Error => Score { bits: ZERO_SCORE_BITS },
            Severity::Warn => Score { bits: TWO_SCORE_BITS },
            Severity::Info => Score { bits: THREE_SCORE_BITS },
        }
    }
}

/// Whether a Check is decided by a program or by judgment.
#[derive(Clone, Copy, Debug, PartialEq, Eq, Structural)]
pub enum EvaluationMethod {
    Mechanistic,
    JudgmentBased,
}

/// A named rating level.
#[derive(Clone, Copy, Debug, PartialEq, Eq, Structural)]
pub enum RatingLevel {
    Poor,
    Minimal,
    Acceptable,
    Good,
    Excellent,
}

/// The name and version of a Skill that guides an Assessment.
#[derive(Debug)]
pub struct SkillRef {
    pub name: String,
    pub version: String,
}

impl Clone for SkillRef {
    fn clone(&self) -> (r: Self)
        ensures
            r == *self,
    {
        SkillRef { name: self.name.clone(), version: self.version.clone() }
    }
}

/// Two Skill references name the same Skill version.
pub open spec fn same_skill(a: SkillRef, b: SkillRef) -> bool {
    a.name@ == b.name@ && a.version@ == b.version@
}

impl SkillRef {
    /// Whether both references name the same Skill version (`==`).
    pub fn same_as(&self, other: &SkillRef) -> (r: bool)
        ensures
            r == same_skill(*self, *other),
    {
        self.name == other.name && self.version == other.version
    }
}

/// How to invoke the target: arguments, environment, standard input and
/// an optional timeout in milliseconds.
#[derive(Debug)]
pub struct InvocationSpec {
    pub args: Vec<String>,
    pub env: BTreeMap<String, String>,
    pub stdin: Option<String>,
    pub timeout_ms: Option<u64>,
}

/// One run of the target. `duration_ms` holds the bit pattern of the
/// measured binary64 number of milliseconds (`f64::to_bits`).
#[derive(Debug)]
pub struct Observation {
    pub args: Vec<String>,
    pub exit_status: Option<i32>,
    pub timed_out: bool,
    pub duration_ms: u64,
    pub stdout: String,
    pub stderr: String,
    pub has_ansi: bool,
}

/// The bit pattern of the binary64 number 0.0.
pub const ZERO_SCORE_BITS: u64 = 0u64;

/// The bit pattern of the binary64 number 2.0.
pub const TWO_SCORE_BITS: u64 = 0x4000_0000_0000_0000u64;

/// The bit pattern of the binary64 number 3.0.
pub const THREE_SCORE_BITS: u64 = 0x4008_0000_0000_0000u64;

/// The bit pattern of the binary64 number 4.0, the perfect Score.
pub const PERFECT_SCORE_BITS: u64 = 0x4010_0000_0000_0000u64;

/// The bit pattern of the binary64 number -0.0.
pub const NEGATIVE_ZERO_BITS: u64 = 0x8000_0000_0000_0000u64;

/// The binary64 number with this bit pattern is finite and lies in
/// 0.0 through 4.0. With the sign bit clear, binary64 numbers order as
/// their bit patterns do, and NaN and the infinities lie above 4.0; with
/// the sign bit set only -0.0 (equal to 0.0) is in range.
pub open spec fn valid_score_bits(bits: u64) -> bool {
    bits <= PERFECT_SCORE_BITS || bits == NEGATIVE_ZERO_BITS
}

/// A Score from 0.0 through 4.0, held as the bit pattern of the binary64
/// number (`f64::to_bits`).
#[derive(Clone, Copy, Debug)]
pub struct Score {
    bits: u64,
}

impl View for Score {
    type V = u64;

    closed spec fn view(&self) -> u64 {
        self.bits
    }
}

impl Score {
    #[verifier::type_invariant]
    spec fn inv(self) -> bool {
        valid_score_bits(self.bits)
    }

    /// The Score whose binary64 bit pattern is `bits`, when that number is
    /// finite and from 0.0 through 4.0.
    pub fn new(bits: u64) -> (r: Option<Score>)
        ensures
            r is Some <==> valid_score_bits(bits),
            r matches Some(s) ==> s@ == bits,
    {
        if bits <= PERFECT_SCORE_BITS || bits == NEGATIVE_ZERO_BITS {
            Some(Score { bits })
        } else {
            None
        }
    }

    /// The perfect Score, 4.0.
    pub fn perfect() -> (r: Score)
        ensures
            r@ == PERFECT_SCORE_BITS,
    {
        Score { bits: PERFECT_SCORE_BITS }
    }

    /// The binary64 bit pattern of the Score.
    pub fn value(self) -> (r: u64)
        ensures
            r == self@,
            valid_score_bits(r),
    {
        proof {
            use_type_invariant(&self);
        }
        self.bits
    }

    /// Whether the Score is 4.0.
    pub fn is_perfect(self) -> (r: bool)
        ensures
            r == (self@ == PERFECT_SCORE_BITS),
    {
        self.bits == PERFECT_SCORE_BITS
    }
}

/// The level of a Check Message.
#[derive(Clone, Copy, Debug, PartialEq, Eq, Structural)]
pub enum CheckMessageLevel {
    Info,
    Warning,
    Error,
}

/// A message that explains what could improve.
#[derive(Debug)]
pub struct CheckMessage {
    pub level: CheckMessageLevel,
    pub message: String,
    pub evidence: serde_json::Value,
}

impl Clone for CheckMessage {
    fn clone(&self) -> (r: Self)
        ensures
            r == *self,
    {
        CheckMessage {
            level: self.level,
            message: self.message.clone(),
            evidence: clone_json(&self.evidence),
        }
    }
}

/// A copy of a list of Check Messages.
pub fn clone_messages(messages: &Vec<CheckMessage>) -> (r: Vec<CheckMessage>)
    ensures
        r@ == messages@,
{
    let mut r: Vec<CheckMessage> = Vec::new();
    for i in 0..messages.len()
        invariant
            r@ == messages@.take(i as int),
    {
        r.push(messages[i].clone());
        assert(messages@.take(i as int).push(messages@[i as int]) =~= messages@.take(i + 1));
    }
    assert(messages@.take(messages@.len() as int) =~= messages@);
    r
}

/// Who assessed a judgment-based Check, and why.
#[derive(Debug)]
pub struct AssessmentProvenance {
    pub skill: SkillRef,
    pub explanation: String,
    pub assessor: Option<String>,
}

/// A completed Check Result: a Score with its Check Messages.
#[derive(Debug)]
pub struct CheckResult {
    pub score: Score,
    pub messages: Vec<CheckMessage>,
    pub assessment: Option<AssessmentProvenance>,
}

/// Some message has text that is not blank.
pub open spec fn has_nonblank_message(messages: Seq<CheckMessage>) -> bool {
    exists|i: int| 0 <= i < messages.len() && !is_blank_text(#[trigger] messages[i].message@)
}

/// Some message is a Warning or an Error.
pub open spec fn has_non_info_message(messages: Seq<CheckMessage>) -> bool {
    exists|i: int|
        0 <= i < messages.len() && #[trigger] messages[i].level != CheckMessageLevel::Info
}

/// Some message has blank text.
pub open spec fn has_blank_message(messages: Seq<CheckMessage>) -> bool {
    exists|i: int| 0 <= i < messages.len() && is_blank_text(#[trigger] messages[i].message@)
}

pub open spec fn below_perfect_needs_message() -> Seq<char> {
    "a Score below 4.0 requires a Check Message explaining what could improve"@
}

pub open spec fn perfect_rejects_warnings() -> Seq<char> {
    "a Score of 4.0 cannot contain a Warning or Error Check Message"@
}

pub open spec fn empty_message() -> Seq<char> {
    "a Check Message cannot be empty"@
}

/// What `CheckResult::validate` decides: `None` for a consistent result,
/// else the first rule that it breaks.
pub open spec fn result_problem(score_bits: u64, messages: Seq<CheckMessage>) -> Option<Seq<char>> {
    if score_bits != PERFECT_SCORE_BITS && !has_nonblank_message(messages) {
        Some(below_perfect_needs_message())
    } else if score_bits == PERFECT_SCORE_BITS && has_non_info_message(messages) {
        Some(perfect_rejects_warnings())
    } else if has_blank_message(messages) {
        Some(empty_message())
    } else {
        None
    }
}

/// An error `Result` whose message is `msg`, or `Ok` when there is none.
pub open spec fn result_matches(r: Result<(), String>, problem: Option<Seq<char>>) -> bool {
    match problem {
        None => r is Ok,
        Some(m) => r matches Err(e) && e@ == m,
    }
}

impl CheckResult {
    /// Checks that the Score and the Check Messages agree: a Score below
    /// 4.0 has a message that says something, a Score of 4.0 has only Info
    /// messages, and no message is blank.
    pub fn validate(&self) -> (r: Result<(), String>)
        ensures
            result_matches(r, result_problem(self.score@, self.messages@)),
    {
        let n = self.messages.len();
        let mut nonblank = false;
        let mut non_info = false;
        let mut blank = false;
        for i in 0..n
            invariant
                n == self.messages.len(),
                nonblank == exists|j: int|
                    0 <= j < i && !is_blank_text(#[trigger] self.messages@[j].message@),
                non_info == exists|j: int|
                    0 <= j < i && #[trigger] self.messages@[j].level != CheckMessageLevel::Info,
                blank == exists|j: int|
                    0 <= j < i && is_blank_text(#[trigger] self.messages@[j].message@),
        {
            let message = &self.messages[i];
            if is_blank(message.message.as_str()) {
                blank = true;
            } else {
                nonblank = true;
            }
            if message.level != CheckMessageLevel::Info {
                non_info = true;
            }
        }
        let perfect = self.score.is_perfect();
        if !perfect && !nonblank {
            return Err(String::from_str(
                "a Score below 4.0 requires a Check Message explaining what could improve",
            ));
        }
        if perfect && non_info {
            return Err(String::from_str(
                "a Score of 4.0 cannot contain a Warning or Error Check Message",
            ));
        }
        if blank {
            return Err(String::from_str("a Check Message cannot be empty"));
        }
        Ok(())
    }
}

/// A Checker could not produce a valid result.
#[derive(Debug)]
pub struct CheckError {
    pub message: String,
    pub checker_logs: String,
    pub logs_truncated: bool,
}

/// What a judgment-based Check asks an assessor to judge.
#[derive(Debug)]
pub struct AssessmentRequest {
    pub request_id: String,
    pub evidence_digest: String,
    pub skill: SkillRef,
    pub rubric: String,
    pub evidence: serde_json::Value,
}

/// The outcome of one Check.
#[derive(Debug)]
pub enum CheckOutcome {
    Result { result: CheckResult },
    Error { error: CheckError },
    AwaitingAssessment { assessment_request: AssessmentRequest },
    Skipped { reason: String },
}

/// One Check in a Report.
#[derive(Debug)]
pub struct CheckRecord {
    pub check: String,
    pub title: String,
    pub method: EvaluationMethod,
    pub outcome: CheckOutcome,
}

/// Counts of outcomes and of Check Messages by level.
#[derive(Clone, Copy, Debug, PartialEq, Eq, Structural)]
pub struct ReportSummary {
    pub check_results: u32,
    pub check_errors: u32,
    pub awaiting_assessment: u32,
    pub skipped: u32,
    pub info_messages: u32,
    pub warning_messages: u32,
    pub error_messages: u32,
}

impl Default for ReportSummary {
    fn default() -> (r: Self)
        ensures
            r == (ReportSummary {
                check_results: 0,
                check_errors: 0,
                awaiting_assessment: 0,
                skipped: 0,
                info_messages: 0,
                warning_messages: 0,
                error_messages: 0,
            }),
    {
        ReportSummary {
            check_results: 0,
            check_errors: 0,
            awaiting_assessment: 0,
            skipped: 0,
            info_messages: 0,
            warning_messages: 0,
            error_messages: 0,
        }
    }
}

/// The result of `clilint check`.
#[derive(Debug)]
pub struct Report {
    pub format_version: u32,
    pub tool_version: String,
    pub check_bundles: Vec<CheckBundleIdentity>,
    pub target: String,
    pub checks: Vec<CheckRecord>,
    pub summary: ReportSummary,
}

/// The kinds of Check Outcome.
pub enum OutcomeKind {
    Result,
    Error,
    AwaitingAssessment,
    Skipped,
}

pub open spec fn outcome_kind(o: CheckOutcome) -> OutcomeKind {
    match o {
        CheckOutcome::Result { .. } => OutcomeKind::Result,
        CheckOutcome::Error { .. } => OutcomeKind::Error,
        CheckOutcome::AwaitingAssessment { .. } => OutcomeKind::AwaitingAssessment,
        CheckOutcome::Skipped { .. } => OutcomeKind::Skipped,
    }
}

/// The number of messages at `level`.
pub open spec fn level_count(messages: Seq<CheckMessage>, level: CheckMessageLevel) -> nat
    decreases messages.len(),
{
    if messages.len() == 0 {
        0
    } else {
        level_count(messages.drop_last(), level) + if messages.last().level == level {
            1nat
        } else {
            0nat
        }
    }
}

/// The number of Checks whose outcome is of `kind`.
pub open spec fn kind_count(checks: Seq<CheckRecord>, kind: OutcomeKind) -> nat
    decreases checks.len(),
{
    if checks.len() == 0 {
        0
    } else {
        kind_count(checks.drop_last(), kind) + if outcome_kind(checks.last().outcome) == kind {
            1nat
        } else {
            0nat
        }
    }
}

/// The messages at `level` in the Check Results of a Check.
pub open spec fn record_level_count(c: CheckRecord, level: CheckMessageLevel) -> nat {
    match c.outcome {
        CheckOutcome::Result { result } => level_count(result.messages@, level),
        _ => 0,
    }
}

/// The number of Check Messages at `level` over all Check Results.
pub open spec fn message_count(checks: Seq<CheckRecord>, level: CheckMessageLevel) -> nat
    decreases checks.len(),
{
    if checks.len() == 0 {
        0
    } else {
        message_count(checks.drop_last(), level) + record_level_count(checks.last(), level)
    }
}

/// The summary of a list of Checks, with counts as integers.
pub open spec fn summary_counts(checks: Seq<CheckRecord>) -> (int, int, int, int, int, int, int) {
    (
        kind_count(checks, OutcomeKind::Result) as int,
        kind_count(checks, OutcomeKind::Error) as int,
        kind_count(checks, OutcomeKind::AwaitingAssessment) as int,
        kind_count(checks, OutcomeKind::Skipped) as int,
        message_count(checks, CheckMessageLevel::Info) as int,
        message_count(checks, CheckMessageLevel::Warning) as int,
        message_count(checks, CheckMessageLevel::Error) as int,
    )
}

/// `s` holds the counts of `checks`.
pub open spec fn summarizes(s: ReportSummary, checks: Seq<CheckRecord>) -> bool {
    summary_counts(checks) == (
        s.check_results as int,
        s.check_errors as int,
        s.awaiting_assessment as int,
        s.skipped as int,
        s.info_messages as int,
        s.warning_messages as int,
        s.error_messages as int,
    )
}

/// Every count of `checks` fits in the `u32` fields of a summary.
pub open spec fn counts_fit(checks: Seq<CheckRecord>) -> bool {
    let c = summary_counts(checks);
    &&& c.0 <= u32::MAX
    &&& c.1 <= u32::MAX
    &&& c.2 <= u32::MAX
    &&& c.3 <= u32::MAX
    &&& c.4 <= u32::MAX
    &&& c.5 <= u32::MAX
    &&& c.6 <= u32::MAX
}

proof fn lemma_level_count_prefix(m: Seq<CheckMessage>, i: int, level: CheckMessageLevel)
    requires
        0 <= i <= m.len(),
    ensures
        level_count(m.take(i), level) <= level_count(m, level),
    decreases m.len() - i,
{
    if i < m.len() {
        lemma_level_count_prefix(m, i + 1, level);
        assert(m.take(i + 1).drop_last() =~= m.take(i));
    } else {
        assert(m.take(i) =~= m);
    }
}

proof fn lemma_counts_prefix(checks: Seq<CheckRecord>, i: int)
    requires
        0 <= i <= checks.len(),
    ensures
        kind_count(checks.take(i), OutcomeKind::Result) <= kind_count(checks, OutcomeKind::Result),
        kind_count(checks.take(i), OutcomeKind::Error) <= kind_count(checks, OutcomeKind::Error),
        kind_count(checks.take(i), OutcomeKind::AwaitingAssessment) <= kind_count(
            checks,
            OutcomeKind::AwaitingAssessment,
        ),
        kind_count(checks.take(i), OutcomeKind::Skipped) <= kind_count(
            checks,
            OutcomeKind::Skipped,
        ),
        message_count(checks.take(i), CheckMessageLevel::Info) <= message_count(
            checks,
            CheckMessageLevel::Info,
        ),
        message_count(checks.take(i), CheckMessageLevel::Warning) <= message_count(
            checks,
            CheckMessageLevel::Warning,
        ),
        message_count(checks.take(i), CheckMessageLevel::Error) <= message_count(
            checks,
            CheckMessageLevel::Error,
        ),
    decreases checks.len() - i,
{
    if i < checks.len() {
        lemma_counts_prefix(checks, i + 1);
        assert(checks.take(i + 1).drop_last() =~= checks.take(i));
    } else {
        assert(checks.take(i) =~= checks);
    }
}

impl Report {
    /// Recounts the summary from the Checks.
    pub fn recalculate(&mut self)
        requires
            counts_fit(old(self).checks@),
        ensures
            final(self).checks@ == old(self).checks@,
            final(self).format_version == old(self).format_version,
            final(self).tool_version@ == old(self).tool_version@,
            final(self).check_bundles@ == old(self).check_bundles@,
            final(self).target@ == old(self).target@,
            summarizes(final(self).summary, final(self).checks@),
    {
        let mut summary = ReportSummary::default();
        let n = self.checks.len();
        let ghost checks = self.checks@;
        for i in 0..n
            invariant
                n == checks.len(),
                checks == self.checks@,
                counts_fit(checks),
                summarizes(summary, checks.take(i as int)),
        {
            proof {
                lemma_counts_prefix(checks, i + 1);
                assert(checks.take(i + 1).drop_last() =~= checks.take(i as int));
            }
            let check = &self.checks[i];
            match &check.outcome {
                CheckOutcome::Result { result } => {
                    summary.check_results = summary.check_results + 1;
                    let ghost before = summary;
                    let m = result.messages.len();
                    for j in 0..m
                        invariant
                            m == result.messages.len(),
                            summary.check_results == before.check_results,
                            summary.check_errors == before.check_errors,
                            summary.awaiting_assessment == before.awaiting_assessment,
                            summary.skipped == before.skipped,
                            summary.info_messages == before.info_messages + level_count(
                                result.messages@.take(j as int),
                                CheckMessageLevel::Info,
                            ),
                            summary.warning_messages == before.warning_messages + level_count(
                                result.messages@.take(j as int),
                                CheckMessageLevel::Warning,
                            ),
                            summary.error_messages == before.error_messages + level_count(
                                result.messages@.take(j as int),
                                CheckMessageLevel::Error,
                            ),
                            before.info_messages + level_count(
                                result.messages@,
                                CheckMessageLevel::Info,
                            ) <= u32::MAX,
                            before.warning_messages + level_count(
                                result.messages@,
                                CheckMessageLevel::Warning,
                            ) <= u32::MAX,
                            before.error_messages + level_count(
                                result.messages@,
                                CheckMessageLevel::Error,
                            ) <= u32::MAX,
                    {
                        proof {
                            assert(result.messages@.take(j + 1).drop_last() =~= result.messages@.take(
                                j as int,
                            ));
                            lemma_level_count_prefix(
                                result.messages@,
                                j + 1,
                                CheckMessageLevel::Info,
                            );
                            lemma_level_count_prefix(
                                result.messages@,
                                j + 1,
                                CheckMessageLevel::Warning,
                            );
                            lemma_level_count_prefix(
                                result.messages@,
                                j + 1,
                                CheckMessageLevel::Error,
                            );
                        }
                        match result.messages[j].level {
                            CheckMessageLevel::Info => {
                                summary.info_messages = summary.info_messages + 1;
                            },
                            CheckMessageLevel::Warning => {
                                summary.warning_messages = summary.warning_messages + 1;
                            },
                            CheckMessageLevel::Error => {
                                summary.error_messages = summary.error_messages + 1;
                            },
                        }
                    }
                    assert(result.messages@.take(m as int) =~= result.messages@);
                },
                CheckOutcome::Error { .. } => {
                    summary.check_errors = summary.check_errors + 1;
                },
                CheckOutcome::AwaitingAssessment { .. } => {
                    summary.awaiting_assessment = summary.awaiting_assessment + 1;
                },
                CheckOutcome::Skipped { .. } => {
                    summary.skipped = summary.skipped + 1;
                },
            }
        }
        assert(checks.take(n as int) =~= checks);
        self.summary = summary;
    }

    /// Whether the Report holds a Check Error or an Error Check Message.
    pub fn has_failures(&self) -> (r: bool)
        ensures
            r == (self.summary.check_errors > 0 || self.summary.error_messages > 0),
    {
        self.summary.check_errors > 0 || self.summary.error_messages > 0
    }
}

/// What Clilint sends to a Checker CLI.
#[derive(Debug)]
pub struct CheckRequest {
    pub format_version: u32,
    pub request_id: String,
    pub check_bundle: CheckBundleIdentity,
    pub check: String,
    pub target: Vec<String>,
    pub project_directory: String,
    pub assessment: Option<Assessment>,
}

/// What a Checker CLI answers.
#[derive(Debug)]
pub struct CheckerResponse {
    pub format_version: u32,
    pub request_id: String,
    pub check: String,
    pub method: EvaluationMethod,
    pub outcome: CheckOutcome,
}

/// A judgment supplied for a judgment-based Check.
#[derive(Debug)]
pub struct Assessment {
    pub format_version: u32,
    pub request_id: String,
    pub check: String,
    pub evidence_digest: String,
    pub skill: SkillRef,
    pub score: Score,
    pub messages: Vec<CheckMessage>,
    pub explanation: String,
    pub assessor: Option<String>,
}

/// A Check that makes Clilint fail: a Check Error, or a Check Result with
/// an Error Check Message.
pub open spec fn record_fails(c: CheckRecord) -> bool {
    outcome_kind(c.outcome) == OutcomeKind::Error || record_level_count(c, CheckMessageLevel::Error) > 0
}

proof fn lemma_counts_detect_failures(checks: Seq<CheckRecord>)
    ensures
        (kind_count(checks, OutcomeKind::Error) > 0 || message_count(checks, CheckMessageLevel::Error)
            > 0) <==> exists|i: int| 0 <= i < checks.len() && #[trigger] record_fails(checks[i]),
    decreases checks.len(),
{
    if checks.len() > 0 {
        let init = checks.drop_last();
        lemma_counts_detect_failures(init);
        if exists|i: int| 0 <= i < init.len() && #[trigger] record_fails(init[i]) {
            let i = choose|i: int| 0 <= i < init.len() && #[trigger] record_fails(init[i]);
            assert(record_fails(checks[i]));
        }
        if record_fails(checks.last()) {
            assert(record_fails(checks[checks.len() - 1]));
        }
        if exists|i: int| 0 <= i < checks.len() && #[trigger] record_fails(checks[i]) {
            let i = choose|i: int| 0 <= i < checks.len() && #[trigger] record_fails(checks[i]);
            if i < checks.len() - 1 {
                assert(record_fails(init[i]));
            }
        }
    }
}

/// The exit status law: once a Report's summary counts its Checks, it
/// reports failures exactly when some Check is a Check Error or holds an
/// Error Check Message. Scores play no part.
pub proof fn law_failures_come_from_errors(r: Report)
    requires
        summarizes(r.summary, r.checks@),
    ensures
        (r.summary.check_errors > 0 || r.summary.error_messages > 0) <==> exists|i: int|
            0 <= i < r.checks@.len() && #[trigger] record_fails(r.checks@[i]),
{
    lemma_counts_detect_failures(r.checks@);
}

/// What an accepted Check Result keeps: a Score below 4.0 comes with a
/// message that says something, a Score of 4.0 has only Info messages,
/// and no message is blank.
pub proof fn law_accepted_results_explain_scores(score_bits: u64, messages: Seq<CheckMessage>)
    requires
        result_problem(score_bits, messages) is None,
    ensures
        score_bits != PERFECT_SCORE_BITS ==> has_nonblank_message(messages),
        score_bits == PERFECT_SCORE_BITS ==> !has_non_info_message(messages),
        !has_blank_message(messages),
{
}

} // verus!
