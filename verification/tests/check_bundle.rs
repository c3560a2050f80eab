use std::collections::BTreeMap;

use clilint::check_bundle::{
    core_bundle, reject_unknown_checker_fields, resolve, validate, validate_name, validate_version,
    Assertion, CheckBundleManifest, CheckDefinition, CheckerDefinition, CheckerFields,
    InvocationCheck,
};
use clilint::model::{CheckBundleIdentity, CheckMessageLevel, EvaluationMethod, InvocationSpec, SkillRef};

fn invocation(args: &[&str]) -> InvocationSpec {
    InvocationSpec {
        args: args.iter().map(|a| a.to_string()).collect(),
        env: BTreeMap::new(),
        stdin: None,
        timeout_ms: None,
    }
}

fn mechanistic(id: &str) -> CheckDefinition {
    CheckDefinition {
        id: id.into(),
        title: "Help exits successfully".into(),
        evaluation_method: EvaluationMethod::Mechanistic,
        checker: Some(CheckerDefinition::SingleInvocation {
            failure_message_level: CheckMessageLevel::Error,
            invocation: InvocationCheck {
                invocation: invocation(&["--help"]),
                assertions: vec![Assertion::ExitCode { value: 0 }, Assertion::StdoutNotEmpty],
            },
        }),
        skill: None,
        evidence: None,
        bundle_root: None,
    }
}

fn judgment(id: &str) -> CheckDefinition {
    CheckDefinition {
        id: id.into(),
        title: "Help has a useful example".into(),
        evaluation_method: EvaluationMethod::JudgmentBased,
        checker: None,
        skill: Some(SkillRef {
            name: "assess-cli-help".into(),
            version: "1.0.0".into(),
        }),
        evidence: Some(invocation(&["--help"])),
        bundle_root: None,
    }
}

fn cli_check(id: &str, command: &[&str]) -> CheckDefinition {
    CheckDefinition {
        id: id.into(),
        title: "Help mentions the team flag".into(),
        evaluation_method: EvaluationMethod::Mechanistic,
        checker: Some(CheckerDefinition::Cli {
            command: command.iter().map(|c| c.to_string()).collect(),
        }),
        skill: None,
        evidence: None,
        bundle_root: Some("/work/team".into()),
    }
}

fn core_manifest() -> CheckBundleManifest {
    CheckBundleManifest {
        format_version: 1,
        check_bundle: CheckBundleIdentity {
            name: "clilint".into(),
            version: "0.0.2".into(),
        },
        extends: None,
        checks: vec![
            mechanistic("clilint/basics/success-exit"),
            mechanistic("clilint/help/long-option"),
            judgment("clilint/help/useful-example"),
        ],
        resolved_check_bundles: Vec::new(),
    }
}

fn additional_bundle() -> CheckBundleManifest {
    CheckBundleManifest {
        format_version: 1,
        check_bundle: CheckBundleIdentity {
            name: "team".into(),
            version: "1.0.0".into(),
        },
        extends: Some("clilint".into()),
        checks: vec![cli_check("team/help/team-flag", &["team-checker"])],
        resolved_check_bundles: Vec::new(),
    }
}

#[test]
fn rejects_empty_checker_cli_command() {
    let mut bundle = additional_bundle();
    bundle.check_bundle.name = "invalid".into();
    bundle.checks = vec![cli_check("invalid/help/example", &[])];
    assert!(validate(&bundle).unwrap_err().contains("nonempty"));
}

#[test]
fn rejects_duplicate_check_identifier() {
    let mut bundle = core_manifest();
    bundle.checks.push(mechanistic("clilint/basics/success-exit"));
    assert!(validate(&bundle).unwrap_err().contains("duplicate check"));
}

#[test]
fn check_bundle_rejects_invalid_skill_reference() {
    let mut bundle = core_manifest();
    let check = bundle
        .checks
        .iter_mut()
        .find(|check| check.evaluation_method == EvaluationMethod::JudgmentBased)
        .unwrap();
    check.skill.as_mut().unwrap().name = "bad skill".into();
    assert!(validate(&bundle).unwrap_err().contains("invalid skill"));
}

#[test]
fn combining_bundles_is_additive() {
    let core = core_bundle(Ok(core_manifest())).unwrap();
    let core_count = core.checks.len();
    let resolved = resolve(core, additional_bundle()).unwrap();
    assert_eq!(resolved.checks.len(), core_count + 1);
    assert!(resolved
        .checks
        .iter()
        .any(|check| check.id == "team/help/team-flag"));
}

#[test]
fn rejects_check_bundle_identity_conflict() {
    let core = core_bundle(Ok(core_manifest())).unwrap();
    let mut bundle = additional_bundle();
    bundle.check_bundle.name = "clilint".into();
    bundle.checks[0].id = "clilint/help/team-flag".into();
    assert!(resolve(core, bundle).unwrap_err().contains("conflicts"));
}

#[test]
fn core_manifest_is_valid() {
    assert!(validate(&core_manifest()).is_ok());
    let core = core_bundle(Ok(core_manifest())).unwrap();
    assert_eq!(core.resolved_check_bundles.len(), 1);
    assert_eq!(core.resolved_check_bundles[0].name, "clilint");
    assert_eq!(
        core_bundle(Err("unreadable".into())).unwrap_err(),
        "unreadable"
    );
}

#[test]
fn resolve_records_bundles_in_inheritance_order() {
    let core = core_bundle(Ok(core_manifest())).unwrap();
    let team = resolve(core, additional_bundle()).unwrap();
    let mut child = additional_bundle();
    child.check_bundle.name = "child".into();
    child.extends = Some("team".into());
    child.checks = vec![cli_check("child/help/extra", &["child-checker"])];
    let resolved = resolve(team, child).unwrap();
    let names: Vec<&str> = resolved
        .resolved_check_bundles
        .iter()
        .map(|b| b.name.as_str())
        .collect();
    assert_eq!(names, ["clilint", "team", "child"]);
    let ids: Vec<&str> = resolved.checks.iter().map(|c| c.id.as_str()).collect();
    assert_eq!(
        ids,
        [
            "clilint/basics/success-exit",
            "clilint/help/long-option",
            "clilint/help/useful-example",
            "team/help/team-flag",
            "child/help/extra"
        ]
    );
}

#[test]
fn resolve_errors() {
    let core = core_bundle(Ok(core_manifest())).unwrap();
    let mut orphan = additional_bundle();
    orphan.extends = Some("missing".into());
    assert_eq!(
        resolve(core, orphan).unwrap_err(),
        "check bundle team extends unavailable check bundle \"missing\""
    );
    let core = core_bundle(Ok(core_manifest())).unwrap();
    let mut rootless = additional_bundle();
    rootless.extends = None;
    assert_eq!(
        resolve(core, rootless).unwrap_err(),
        "check bundle team must declare extends"
    );
    let core = core_bundle(Ok(core_manifest())).unwrap();
    let mut clash = additional_bundle();
    clash.check_bundle.name = "clilint2".into();
    clash.checks = vec![cli_check("clilint2/x", &["c"])];
    assert!(resolve(core, clash).is_ok());
}

#[test]
fn validate_reports_each_rule() {
    let mut bundle = core_manifest();
    bundle.format_version = 2;
    assert_eq!(
        validate(&bundle).unwrap_err(),
        "check bundle clilint uses unsupported format version 2"
    );
    let mut bundle = core_manifest();
    bundle.checks[0].id = "other/check".into();
    assert_eq!(
        validate(&bundle).unwrap_err(),
        "check other/check is not scoped to check bundle clilint"
    );
    let mut bundle = core_manifest();
    bundle.checks[0].id = "clilint/".into();
    assert!(validate(&bundle).unwrap_err().contains("is not scoped"));
    let mut bundle = core_manifest();
    bundle.checks[0].skill = Some(SkillRef {
        name: "s".into(),
        version: "1.0.0".into(),
    });
    assert_eq!(
        validate(&bundle).unwrap_err(),
        "mechanistic check clilint/basics/success-exit must have one checker and no judgment fields"
    );
    let mut bundle = core_manifest();
    bundle.checks[2].evidence = None;
    assert_eq!(
        validate(&bundle).unwrap_err(),
        "built-in judgment-based check clilint/help/useful-example must have a skill and evidence invocation"
    );
    let mut bundle = additional_bundle();
    bundle.checks = vec![mechanistic("team/help/local")];
    assert_eq!(
        validate(&bundle).unwrap_err(),
        "check team/help/local in a local bundle must declare a nonempty Checker CLI command"
    );
    let mut bundle = additional_bundle();
    bundle.checks = vec![judgment("team/help/judged")];
    assert!(validate(&bundle)
        .unwrap_err()
        .starts_with("judgment-based check team/help/judged in a local bundle"));
}

#[test]
fn names_and_versions() {
    assert!(validate_name("check bundle", "team-1_x").is_ok());
    assert_eq!(
        validate_name("skill", "bad skill").unwrap_err(),
        "invalid skill name \"bad skill\""
    );
    assert!(validate_name("skill", "").is_err());
    assert!(validate_version("skill", "1.20.300").is_ok());
    assert_eq!(
        validate_version("check bundle", "1.0").unwrap_err(),
        "invalid check bundle version \"1.0\""
    );
    assert!(validate_version("skill", "1..0").is_err());
    assert!(validate_version("skill", "1.0.0.0").is_err());
    assert!(validate_version("skill", "1.0.x").is_err());
}

#[test]
fn unknown_checker_fields_are_rejected() {
    let fields = |t: &str, keys: &[&str]| CheckerFields {
        checker_type: t.into(),
        fields: keys.iter().map(|k| k.to_string()).collect(),
    };
    let ok = vec![
        fields("cli", &["type", "command"]),
        fields("single-invocation", &["type", "args", "assertions", "timeout_ms"]),
        fields("invented", &["anything"]),
    ];
    assert!(reject_unknown_checker_fields(&ok, "typo.toml").is_ok());
    let bad = vec![
        fields("cli", &["type", "command"]),
        fields("cli", &["type", "command", "timeout_mss"]),
    ];
    assert_eq!(
        reject_unknown_checker_fields(&bad, "typo.toml").unwrap_err(),
        "invalid check bundle typo.toml: unknown field `timeout_mss` in Checker `cli`"
    );
}
