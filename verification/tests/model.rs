use clilint::model::{
    CheckError, CheckMessage, CheckMessageLevel, CheckOutcome, CheckRecord, CheckResult,
    EvaluationMethod, Report, ReportSummary, Score, Severity, PERFECT_SCORE_BITS,
};

fn score(value: f64) -> Score {
    Score::new(value.to_bits()).unwrap()
}

fn message(level: CheckMessageLevel, text: &str) -> CheckMessage {
    CheckMessage {
        level,
        message: text.into(),
        evidence: serde_json::Value::Null,
    }
}

fn report_with(checks: Vec<CheckRecord>) -> Report {
    Report {
        format_version: 3,
        tool_version: "test".into(),
        check_bundles: Vec::new(),
        target: "target".into(),
        checks,
        summary: ReportSummary::default(),
    }
}

fn result_record(value: f64, messages: Vec<CheckMessage>) -> CheckRecord {
    CheckRecord {
        check: "bundle/check".into(),
        title: "Check".into(),
        method: EvaluationMethod::Mechanistic,
        outcome: CheckOutcome::Result {
            result: CheckResult {
                score: score(value),
                messages,
                assessment: None,
            },
        },
    }
}

#[test]
fn score_rejects_non_finite_and_out_of_range_values() {
    assert!(Score::new(f64::NAN.to_bits()).is_none());
    assert!(Score::new((-0.1f64).to_bits()).is_none());
    assert!(Score::new(4.1f64.to_bits()).is_none());
    assert_eq!(f64::from_bits(Score::new(2.75f64.to_bits()).unwrap().value()), 2.75);
}

#[test]
fn imperfect_result_requires_improvement_feedback() {
    let result = CheckResult {
        score: score(3.5),
        messages: Vec::new(),
        assessment: None,
    };
    assert!(result.validate().is_err());
}

#[test]
fn perfect_result_rejects_warning_or_error_messages() {
    let result = CheckResult {
        score: score(4.0),
        messages: vec![message(CheckMessageLevel::Warning, "unexpected warning")],
        assessment: None,
    };
    assert!(result.validate().is_err());
}

#[test]
fn summary_counts_messages_separately_from_results() {
    let mut report = report_with(vec![result_record(
        1.5,
        vec![
            message(CheckMessageLevel::Error, "First error"),
            message(CheckMessageLevel::Error, "Second error"),
            message(CheckMessageLevel::Warning, "One warning"),
        ],
    )]);
    report.recalculate();
    assert_eq!(report.summary.check_results, 1);
    assert_eq!(report.summary.error_messages, 2);
    assert_eq!(report.summary.warning_messages, 1);
    assert!(report.has_failures());
}

#[test]
fn zero_score_with_only_a_warning_is_not_a_process_failure() {
    let mut report = report_with(vec![result_record(
        0.0,
        vec![message(CheckMessageLevel::Warning, "Improve this behavior")],
    )]);
    report.recalculate();
    assert!(!report.has_failures());
}

#[test]
fn score_edges_are_accepted() {
    assert!(Score::new(0.0f64.to_bits()).is_some());
    assert!(Score::new((-0.0f64).to_bits()).is_some());
    assert!(Score::new(4.0f64.to_bits()).is_some());
    assert!(Score::new(f64::INFINITY.to_bits()).is_none());
    assert!(Score::new(f64::MIN_POSITIVE.to_bits()).is_some());
    assert_eq!(Score::perfect().value(), PERFECT_SCORE_BITS);
    assert!(score(4.0).is_perfect());
    assert!(!score(3.99).is_perfect());
}

#[test]
fn result_rules_each_have_their_message() {
    let blank = CheckResult {
        score: score(2.0),
        messages: vec![
            message(CheckMessageLevel::Info, "fine"),
            message(CheckMessageLevel::Info, "   "),
        ],
        assessment: None,
    };
    assert_eq!(
        blank.validate().unwrap_err(),
        "a Check Message cannot be empty"
    );
    let only_blank = CheckResult {
        score: score(2.0),
        messages: vec![message(CheckMessageLevel::Warning, " ")],
        assessment: None,
    };
    assert_eq!(
        only_blank.validate().unwrap_err(),
        "a Score below 4.0 requires a Check Message explaining what could improve"
    );
    let perfect = CheckResult {
        score: score(4.0),
        messages: vec![message(CheckMessageLevel::Error, "broken")],
        assessment: None,
    };
    assert_eq!(
        perfect.validate().unwrap_err(),
        "a Score of 4.0 cannot contain a Warning or Error Check Message"
    );
    let fine = CheckResult {
        score: score(4.0),
        messages: vec![message(CheckMessageLevel::Info, "note")],
        assessment: None,
    };
    assert!(fine.validate().is_ok());
}

#[test]
fn check_error_makes_the_report_fail() {
    let mut report = report_with(vec![
        result_record(4.0, Vec::new()),
        CheckRecord {
            check: "bundle/broken".into(),
            title: "Broken".into(),
            method: EvaluationMethod::JudgmentBased,
            outcome: CheckOutcome::Error {
                error: CheckError {
                    message: "checker failed".into(),
                    checker_logs: String::new(),
                    logs_truncated: false,
                },
            },
        },
        CheckRecord {
            check: "bundle/skipped".into(),
            title: "Skipped".into(),
            method: EvaluationMethod::Mechanistic,
            outcome: CheckOutcome::Skipped {
                reason: "not applicable".into(),
            },
        },
    ]);
    report.recalculate();
    assert_eq!(report.summary.check_results, 1);
    assert_eq!(report.summary.check_errors, 1);
    assert_eq!(report.summary.skipped, 1);
    assert_eq!(report.summary.awaiting_assessment, 0);
    assert!(report.has_failures());
}

#[test]
fn severity_orders_and_scores_failures() {
    assert!(Severity::Error.rank() > Severity::Warn.rank());
    assert_eq!(Severity::Error.message_level(), CheckMessageLevel::Error);
    assert_eq!(f64::from_bits(Severity::Error.failed_score().value()), 0.0);
    assert_eq!(f64::from_bits(Severity::Warn.failed_score().value()), 2.0);
}
