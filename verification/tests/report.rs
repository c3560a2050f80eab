use clilint::model::{
    CheckBundleIdentity, CheckMessage, CheckMessageLevel, CheckOutcome, CheckRecord, CheckResult,
    EvaluationMethod, Report, ReportSummary, Score,
};
use clilint::report::human;

fn empty_report() -> Report {
    Report {
        format_version: 3,
        tool_version: "0.0.2".into(),
        check_bundles: vec![CheckBundleIdentity {
            name: "clilint".into(),
            version: "0.0.2".into(),
        }],
        target: "fixture".into(),
        checks: Vec::new(),
        summary: ReportSummary::default(),
    }
}

#[test]
fn human_names_results_and_messages() {
    let output = human(&empty_report(), &Vec::new());
    assert!(output.contains("results"));
    assert!(output.contains("Check Messages"));
}

#[test]
fn human_report_lays_out_each_outcome() {
    let mut report = empty_report();
    report.check_bundles.push(CheckBundleIdentity {
        name: "team".into(),
        version: "1.0.0".into(),
    });
    report.checks = vec![
        CheckRecord {
            check: "clilint/help/long-option".into(),
            title: "Long option".into(),
            method: EvaluationMethod::Mechanistic,
            outcome: CheckOutcome::Result {
                result: CheckResult {
                    score: Score::new(2.0f64.to_bits()).unwrap(),
                    messages: vec![CheckMessage {
                        level: CheckMessageLevel::Warning,
                        message: "Add --help".into(),
                        evidence: serde_json::Value::Null,
                    }],
                    assessment: None,
                },
            },
        },
        CheckRecord {
            check: "clilint/help/useful-example".into(),
            title: "Useful example".into(),
            method: EvaluationMethod::JudgmentBased,
            outcome: CheckOutcome::Skipped {
                reason: "not applicable".into(),
            },
        },
    ];
    report.recalculate();
    let output = human(&report, &vec!["2.00".to_string(), String::new()]);
    let expected = format!(
        "Clilint clilint 0.0.2, team 1.0.0\nTarget: fixture\n\n{:<46} {:<16} Score 2.00\n  warning Add --help\n{:<46} {:<16} Skipped: not applicable\n\n1 results, 0 Check Errors, 0 awaiting Assessment, 1 skipped\n0 Info, 1 Warning, 0 Error Check Messages\n",
        "clilint/help/long-option", "mechanistic", "clilint/help/useful-example", "judgment-based"
    );
    assert_eq!(output, expected);
}

#[test]
fn human_report_pads_long_identifiers_without_cutting() {
    let mut report = empty_report();
    let long = "clilint/help/an-identifier-that-is-longer-than-the-column";
    report.checks = vec![CheckRecord {
        check: long.into(),
        title: "Long".into(),
        method: EvaluationMethod::Mechanistic,
        outcome: CheckOutcome::AwaitingAssessment {
            assessment_request: clilint::model::AssessmentRequest {
                request_id: "r".into(),
                evidence_digest: "d".into(),
                skill: clilint::model::SkillRef {
                    name: "s".into(),
                    version: "1.0.0".into(),
                },
                rubric: "r".into(),
                evidence: serde_json::Value::Null,
            },
        },
    }];
    report.recalculate();
    let output = human(&report, &Vec::new());
    assert!(output.contains(&format!("{long} mechanistic      Awaiting Assessment\n")));
    assert!(output.contains("0 results, 0 Check Errors, 1 awaiting Assessment, 0 skipped\n"));
}
