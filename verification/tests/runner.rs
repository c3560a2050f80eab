use clilint::model::Observation;
use clilint::runner::{contains_ansi, effective_timeout, reported_exit_status, RunCache};

#[test]
fn ansi_sequences_are_detected() {
    assert!(contains_ansi(b"\x1b[31mred\x1b[0m"));
    assert!(!contains_ansi(b"plain text"));
    assert!(!contains_ansi(b"\x1b"));
    assert!(!contains_ansi(b"["));
    assert!(!contains_ansi(b""));
}

#[test]
fn an_invocation_timeout_overrides_the_default() {
    assert_eq!(effective_timeout(Some(250), 10_000), 250);
    assert_eq!(effective_timeout(None, 10_000), 10_000);
}

#[test]
fn a_timed_out_run_reports_no_exit_status() {
    assert_eq!(reported_exit_status(Some(0), false), Some(0));
    assert_eq!(reported_exit_status(Some(9), true), None);
    assert_eq!(reported_exit_status(None, false), None);
}

fn run(stdout: &str) -> Observation {
    Observation {
        args: vec!["--help".to_string()],
        exit_status: Some(0),
        timed_out: false,
        duration_ms: 3.5f64.to_bits(),
        stdout: stdout.to_string(),
        stderr: String::new(),
        has_ansi: false,
    }
}

#[test]
fn a_repeated_invocation_gets_the_first_run() {
    let mut cache = RunCache::new();
    assert!(cache.lookup("help").is_none());
    cache.record("help".to_string(), run("first"));
    cache.record("version".to_string(), run("1.0.0"));
    cache.record("help".to_string(), run("second"));
    let found = cache.lookup("help").unwrap();
    assert_eq!(found.stdout, "first");
    assert_eq!(found.args, vec!["--help".to_string()]);
    assert_eq!(f64::from_bits(found.duration_ms), 3.5);
    assert_eq!(cache.lookup("version").unwrap().stdout, "1.0.0");
    assert!(cache.lookup("other").is_none());
}
