//! Assessments: judgments supplied for judgment-based Checks, and the
//! rules that bind one to the request it answers.
use vstd::prelude::*;
use vstd::string::*;

use crate::model::{
    clone_messages, result_problem, same_skill, Assessment, AssessmentProvenance, CheckResult,
    SkillRef,
};
use crate::text::{concat, concat3, decimal, str_eq, u64_text};

verus! {

broadcast use vstd::string::group_string_axioms;

/// A copy of an optional text.
pub fn clone_optional_text(s: &Option<String>) -> (r: Option<String>)
    ensures
        r == *s,
{
    match s {
        Some(text) => Some(text.clone()),
        None => None,
    }
}

/// The error `validate` reports for an Assessment, if any: the format,
/// request, Check, Skill and evidence digest must be the expected ones,
/// and its Score must agree with its messages.
pub open spec fn assessment_problem(
    a: Assessment,
    request_id: Seq<char>,
    check: Seq<char>,
    skill: SkillRef,
    evidence_digest: Seq<char>,
) -> Option<Seq<char>> {
    if a.format_version != 1 {
        Some(
            "Assessment for "@ + a.check@ + " uses unsupported format version "@ + decimal(
                a.format_version as nat,
            ),
        )
    } else if a.request_id@ != request_id {
        Some(
            "Assessment for "@ + a.check@ + " belongs to request "@ + a.request_id@
                + ", expected "@ + request_id,
        )
    } else if a.check@ != check {
        Some("Assessment references Check "@ + a.check@ + ", expected "@ + check)
    } else if !same_skill(a.skill, skill) {
        Some(
            "Assessment for "@ + a.check@ + " uses Skill "@ + a.skill.name@ + " "@
                + a.skill.version@ + ", expected "@ + skill.name@ + " "@ + skill.version@,
        )
    } else if a.evidence_digest@ != evidence_digest {
        Some(
            "Assessment for "@ + a.check@ + " has stale evidence digest "@
                + a.evidence_digest@ + ", expected "@ + evidence_digest,
        )
    } else {
        result_problem(a.score@, a.messages@)
    }
}

/// The Check Result an Assessment gives: its Score and messages, with
/// the Skill, explanation and assessor as provenance.
pub open spec fn assessed_result(r: CheckResult, a: Assessment) -> bool {
    &&& r.score == a.score
    &&& r.messages@ == a.messages@
    &&& r.assessment == Some(
        AssessmentProvenance {
            skill: a.skill,
            explanation: a.explanation,
            assessor: a.assessor,
        },
    )
}

/// Accepts an Assessment for the request `request_id` of Check `check`,
/// made with `skill` over evidence with digest `evidence_digest`, and
/// turns it into a Check Result.
pub fn validate(
    assessment: &Assessment,
    request_id: &str,
    check: &str,
    skill: &SkillRef,
    evidence_digest: &str,
) -> (r: Result<CheckResult, String>)
    ensures
        match assessment_problem(*assessment, request_id@, check@, *skill, evidence_digest@) {
            Some(m) => r matches Err(e) && e@ == m,
            None => r matches Ok(result) && assessed_result(result, *assessment),
        },
{
    let name = assessment.check.as_str();
    if assessment.format_version != 1 {
        let number = u64_text(assessment.format_version as u64);
        return Err(
            concat3("Assessment for ", name, " uses unsupported format version ").concat(
                number.as_str(),
            ),
        );
    }
    if !str_eq(assessment.request_id.as_str(), request_id) {
        let mut message = concat3("Assessment for ", name, " belongs to request ");
        message.append(assessment.request_id.as_str());
        message.append(", expected ");
        message.append(request_id);
        return Err(message);
    }
    if !str_eq(assessment.check.as_str(), check) {
        let mut message = concat3("Assessment references Check ", name, ", expected ");
        message.append(check);
        return Err(message);
    }
    if !assessment.skill.same_as(skill) {
        let mut message = concat3("Assessment for ", name, " uses Skill ");
        message.append(assessment.skill.name.as_str());
        message.append(" ");
        message.append(assessment.skill.version.as_str());
        message.append(", expected ");
        message.append(skill.name.as_str());
        message.append(" ");
        message.append(skill.version.as_str());
        return Err(message);
    }
    if !str_eq(assessment.evidence_digest.as_str(), evidence_digest) {
        let mut message = concat3("Assessment for ", name, " has stale evidence digest ");
        message.append(assessment.evidence_digest.as_str());
        message.append(", expected ");
        message.append(evidence_digest);
        return Err(message);
    }
    let result = CheckResult {
        score: assessment.score,
        messages: clone_messages(&assessment.messages),
        assessment: Some(
            AssessmentProvenance {
                skill: assessment.skill.clone(),
                explanation: assessment.explanation.clone(),
                assessor: clone_optional_text(&assessment.assessor),
            },
        ),
    };
    result.validate()?;
    Ok(result)
}

} // verus!
