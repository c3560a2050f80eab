use clilint::assessment::validate;
use clilint::model::{Assessment, CheckMessage, CheckMessageLevel, Score, SkillRef};

fn skill() -> SkillRef {
    SkillRef {
        name: "assess-cli-help".into(),
        version: "1.0.0".into(),
    }
}

fn score(value: f64) -> Score {
    Score::new(value.to_bits()).unwrap()
}

fn assessment() -> Assessment {
    Assessment {
        format_version: 1,
        request_id: "request-1".into(),
        check: "clilint/help/useful-example".into(),
        evidence_digest: "sha256:abc".into(),
        skill: skill(),
        score: score(3.5),
        messages: vec![CheckMessage {
            level: CheckMessageLevel::Warning,
            message: "Add an example of a likely task.".into(),
            evidence: serde_json::Value::Null,
        }],
        explanation: "The help provides a useful but incomplete example.".into(),
        assessor: Some("test".into()),
    }
}

#[test]
fn validates_matching_assessment() {
    let result = validate(
        &assessment(),
        "request-1",
        "clilint/help/useful-example",
        &skill(),
        "sha256:abc",
    )
    .unwrap();
    assert_eq!(f64::from_bits(result.score.value()), 3.5);
}

#[test]
fn rejects_stale_assessment() {
    let mut document = assessment();
    document.evidence_digest = "sha256:stale".into();
    assert!(validate(
        &document,
        "request-1",
        "clilint/help/useful-example",
        &skill(),
        "sha256:abc",
    )
    .unwrap_err()
    .contains("stale"));
}

#[test]
fn rejects_wrong_request() {
    let document = assessment();
    assert!(validate(
        &document,
        "request-2",
        "clilint/help/useful-example",
        &skill(),
        "sha256:abc",
    )
    .unwrap_err()
    .contains("expected request-2"));
}

#[test]
fn rejects_wrong_check() {
    let document = assessment();
    assert!(validate(
        &document,
        "request-1",
        "clilint/help/another-check",
        &skill(),
        "sha256:abc",
    )
    .unwrap_err()
    .contains("expected clilint/help/another-check"));
}

#[test]
fn rejects_wrong_skill() {
    let mut document = assessment();
    document.skill.name = "other".into();
    assert!(validate(
        &document,
        "request-1",
        "clilint/help/useful-example",
        &skill(),
        "sha256:abc",
    )
    .unwrap_err()
    .contains("expected"));
}

#[test]
fn assessment_errors_name_both_sides() {
    let mut document = assessment();
    document.format_version = 2;
    assert_eq!(
        validate(&document, "request-1", "clilint/help/useful-example", &skill(), "sha256:abc")
            .unwrap_err(),
        "Assessment for clilint/help/useful-example uses unsupported format version 2"
    );
    let document = assessment();
    assert_eq!(
        validate(&document, "request-1", "clilint/help/useful-example", &skill(), "sha256:new")
            .unwrap_err(),
        "Assessment for clilint/help/useful-example has stale evidence digest sha256:abc, expected sha256:new"
    );
    let mut document = assessment();
    document.skill.version = "2.0.0".into();
    assert_eq!(
        validate(&document, "request-1", "clilint/help/useful-example", &skill(), "sha256:abc")
            .unwrap_err(),
        "Assessment for clilint/help/useful-example uses Skill assess-cli-help 2.0.0, expected assess-cli-help 1.0.0"
    );
}

#[test]
fn accepted_assessment_keeps_its_provenance() {
    let result = validate(
        &assessment(),
        "request-1",
        "clilint/help/useful-example",
        &skill(),
        "sha256:abc",
    )
    .unwrap();
    assert_eq!(result.messages.len(), 1);
    let provenance = result.assessment.unwrap();
    assert_eq!(provenance.skill.name, "assess-cli-help");
    assert_eq!(provenance.assessor.as_deref(), Some("test"));
    assert_eq!(
        provenance.explanation,
        "The help provides a useful but incomplete example."
    );
}

#[test]
fn imperfect_assessment_without_feedback_is_rejected() {
    let mut document = assessment();
    document.messages.clear();
    assert_eq!(
        validate(&document, "request-1", "clilint/help/useful-example", &skill(), "sha256:abc")
            .unwrap_err(),
        "a Score below 4.0 requires a Check Message explaining what could improve"
    );
}
