use clilint::check_bundle::{Assertion, InvocationCheck};
use clilint::engine::{
    assertion_failed, bits_gt, check_response_fields, contains_version_number, digest_bytes,
    failed_assertions, process_failure_message,
};
use clilint::model::{InvocationSpec, Observation};

#[test]
fn version_number_requires_dotted_digits() {
    assert!(contains_version_number("tool 1.2.3"));
    assert!(!contains_version_number("tool version one"));
}

#[test]
fn checker_response_rejects_unknown_fields() {
    let keys: Vec<String> = [
        "format_version",
        "request_id",
        "check",
        "method",
        "outcome",
        "reason",
        "unexpected",
    ]
    .iter()
    .map(|k| k.to_string())
    .collect();
    assert!(check_response_fields(true, Some("skipped"), &keys)
        .unwrap_err()
        .contains("unknown field"));
}

#[test]
fn checker_process_failures_are_distinct() {
    assert_eq!(
        process_failure_message(None, true).unwrap(),
        "Checker CLI timed out"
    );
    assert!(process_failure_message(Some(7), false)
        .unwrap()
        .contains("status 7"));
}

#[test]
fn version_number_needs_a_digit_on_each_side_of_the_dot() {
    assert!(contains_version_number("v0.1"));
    assert!(!contains_version_number("1."));
    assert!(!contains_version_number(".5"));
    assert!(!contains_version_number(""));
}

#[test]
fn version_number_must_start_a_digit_run() {
    assert!(!contains_version_number("x12.3"));
    assert!(contains_version_number("tool 10.2.3"));
    assert!(!contains_version_number("a.b"));
}

#[test]
fn checker_process_success_is_no_failure() {
    assert_eq!(process_failure_message(Some(0), false), None);
    assert_eq!(
        process_failure_message(None, false).unwrap(),
        "Checker CLI exited with status unknown"
    );
    assert_eq!(
        process_failure_message(Some(-2), false).unwrap(),
        "Checker CLI exited with status -2"
    );
}

#[test]
fn checker_response_shape_errors() {
    let keys: Vec<String> = ["format_version", "outcome", "reason"]
        .iter()
        .map(|k| k.to_string())
        .collect();
    assert!(check_response_fields(true, Some("skipped"), &keys).is_ok());
    assert_eq!(
        check_response_fields(false, None, &keys).unwrap_err(),
        "Checker CLI response must be one JSON object"
    );
    assert_eq!(
        check_response_fields(true, None, &keys).unwrap_err(),
        "Checker CLI response must name one outcome"
    );
    assert_eq!(
        check_response_fields(true, Some("later"), &keys).unwrap_err(),
        "Checker CLI response uses unknown outcome \"later\""
    );
    assert_eq!(
        check_response_fields(true, Some("result"), &keys).unwrap_err(),
        "Checker CLI response contains unknown field \"reason\""
    );
}

#[test]
fn digest_is_sha256_in_hex() {
    assert_eq!(
        digest_bytes(b"abc"),
        "sha256:ba7816bf8f01cfea414140de5dae2223b00361a396177a9cb410ff61f20015ad"
    );
    assert_ne!(digest_bytes(b"abc"), digest_bytes(b"abd"));
}

fn observed(stdout: &str, stderr: &str, exit_status: Option<i32>) -> Observation {
    Observation {
        args: vec!["--help".to_string()],
        exit_status,
        timed_out: false,
        duration_ms: 12.5f64.to_bits(),
        stdout: stdout.to_string(),
        stderr: stderr.to_string(),
        has_ansi: false,
    }
}

#[test]
fn output_assertions_ignore_case() {
    let o = observed("Usage: tool [OPTIONS]", "", Some(0));
    let any = |v: &str| Assertion::OutputContainsAny {
        values: vec![v.to_string()],
    };
    assert!(!assertion_failed(&any("USAGE"), &o));
    assert!(!assertion_failed(&any("options"), &o));
    assert!(assertion_failed(&any("examples"), &o));
    let stdout_any = Assertion::StdoutContainsAny {
        values: vec!["missing".to_string(), "TOOL".to_string()],
    };
    assert!(!assertion_failed(&stdout_any, &o));
}

#[test]
fn output_assertions_read_both_streams() {
    let o = observed("", "error: unknown option --bogus", Some(2));
    let any = Assertion::OutputContainsAny {
        values: vec!["Unknown Option".to_string()],
    };
    assert!(!assertion_failed(&any, &o));
    let stdout_only = Assertion::StdoutContainsAny {
        values: vec!["unknown option".to_string()],
    };
    assert!(assertion_failed(&stdout_only, &o));
    assert!(assertion_failed(&Assertion::StdoutNotEmpty, &o));
    assert!(!assertion_failed(&Assertion::StderrNotEmpty, &o));
    assert!(assertion_failed(&Assertion::StdoutAtLeastStderr, &o));
    assert!(!assertion_failed(&Assertion::ExitNonZero, &o));
    assert!(assertion_failed(&Assertion::ExitCode { value: 0 }, &o));
    assert!(!assertion_failed(&Assertion::ExitCode { value: 2 }, &o));
}

#[test]
fn exit_and_duration_assertions() {
    let mut o = observed("tool 1.0.0\n", "", Some(0));
    assert!(assertion_failed(&Assertion::ExitNonZero, &o));
    assert!(!assertion_failed(&Assertion::VersionNumber, &o));
    assert!(!assertion_failed(&Assertion::NotTimedOut, &o));
    let limit = |ms: f64| Assertion::DurationAtMost {
        milliseconds: ms.to_bits(),
    };
    assert!(!assertion_failed(&limit(12.5), &o));
    assert!(!assertion_failed(&limit(100.0), &o));
    assert!(assertion_failed(&limit(10.0), &o));
    o.exit_status = None;
    assert!(assertion_failed(&Assertion::ExitNonZero, &o));
    o.timed_out = true;
    assert!(assertion_failed(&Assertion::NotTimedOut, &o));
    assert!(assertion_failed(&limit(100.0), &o));
    o.has_ansi = true;
    assert!(assertion_failed(&Assertion::NoAnsi, &o));
}

#[test]
fn failed_assertions_are_listed_in_order() {
    let check = InvocationCheck {
        invocation: InvocationSpec {
            args: vec!["--version".to_string()],
            env: std::collections::BTreeMap::new(),
            stdin: None,
            timeout_ms: None,
        },
        assertions: vec![
            Assertion::ExitCode { value: 0 },
            Assertion::StdoutNotEmpty,
            Assertion::VersionNumber,
            Assertion::NoAnsi,
        ],
    };
    let o = observed("", "no version here", Some(1));
    assert_eq!(failed_assertions(&check, &o), vec![0, 1, 2]);
    let good = observed("tool 2.1\n", "", Some(0));
    assert!(failed_assertions(&check, &good).is_empty());
}

#[test]
fn binary64_comparison_by_bits() {
    let gt = |a: f64, b: f64| bits_gt(a.to_bits(), b.to_bits());
    assert!(gt(2.0, 1.5));
    assert!(!gt(1.5, 2.0));
    assert!(!gt(1.0, 1.0));
    assert!(gt(0.5, -3.0));
    assert!(gt(-1.0, -2.0));
    assert!(!gt(-2.0, -1.0));
    assert!(!gt(0.0, -0.0));
    assert!(!gt(-0.0, 0.0));
    assert!(!gt(f64::NAN, 1.0));
    assert!(!gt(1.0, f64::NAN));
    assert!(gt(f64::INFINITY, 1e300));
}
