use clilint::cli::{BundleCommand, Cli, Command, OutputFormat, DEFAULT_TIMEOUT_MS};

fn args(parts: &[&str]) -> Vec<String> {
    parts.iter().map(|p| p.to_string()).collect()
}

#[test]
fn command_definition_is_valid() {
    let check = Cli::try_parse_from(&args(&["clilint", "check", "target"])).unwrap();
    assert!(matches!(check.command, Command::Check(_)));
    let install = Cli::try_parse_from(&args(&["clilint", "bundle", "install", "../b"])).unwrap();
    assert!(matches!(install.command, Command::Bundle(_)));
    let list = Cli::try_parse_from(&args(&["clilint", "bundle", "list"])).unwrap();
    assert!(matches!(list.command, Command::Bundle(_)));
    let remove = Cli::try_parse_from(&args(&["clilint", "bundle", "remove", "team"])).unwrap();
    assert!(matches!(remove.command, Command::Bundle(_)));
}

#[test]
fn assessment_option_is_repeatable() {
    let cli = Cli::try_parse_from(&args(&[
        "clilint",
        "check",
        "target",
        "--assessment",
        "one.toml",
        "--assessment",
        "two.json",
    ]))
    .unwrap();
    let Command::Check(args) = cli.command else {
        panic!("expected check command");
    };
    assert_eq!(args.assessment.len(), 2);
}

#[test]
fn check_defaults_and_options() {
    let cli = Cli::try_parse_from(&args(&["clilint", "check", "./my-cli"])).unwrap();
    let Command::Check(a) = cli.command else {
        panic!("expected check command");
    };
    assert_eq!(a.target, "./my-cli");
    assert_eq!(a.format, OutputFormat::Human);
    assert_eq!(a.timeout_ms, DEFAULT_TIMEOUT_MS);
    assert_eq!(a.check_bundle, None);
    assert!(a.assessment.is_empty());

    let cli = Cli::try_parse_from(&args(&[
        "clilint",
        "check",
        "./my-cli",
        "--format",
        "json",
        "--timeout-ms=250",
        "--check-bundle",
        "./team.toml",
    ]))
    .unwrap();
    let Command::Check(a) = cli.command else {
        panic!("expected check command");
    };
    assert_eq!(a.format, OutputFormat::Json);
    assert_eq!(a.timeout_ms, 250);
    assert_eq!(a.check_bundle.as_deref(), Some("./team.toml"));
}

#[test]
fn bundle_subcommands_carry_their_operands() {
    let cli = Cli::try_parse_from(&args(&["clilint", "bundle", "list", "--json"])).unwrap();
    let Command::Bundle(b) = cli.command else {
        panic!("expected bundle command");
    };
    assert!(matches!(b.command, BundleCommand::List { json: true }));
    let cli = Cli::try_parse_from(&args(&["clilint", "bundle", "remove", "team"])).unwrap();
    let Command::Bundle(b) = cli.command else {
        panic!("expected bundle command");
    };
    match b.command {
        BundleCommand::Remove { name } => assert_eq!(name, "team"),
        _ => panic!("expected remove"),
    }
}

#[test]
fn invalid_or_help_requests_are_left_to_the_usage_printer() {
    assert!(Cli::try_parse_from(&args(&["clilint"])).is_none());
    assert!(Cli::try_parse_from(&args(&["clilint", "--version"])).is_none());
    assert!(Cli::try_parse_from(&args(&["clilint", "check", "--help"])).is_none());
    assert!(Cli::try_parse_from(&args(&["clilint", "check"])).is_none());
    assert!(Cli::try_parse_from(&args(&["clilint", "check", "t", "--offline"])).is_none());
    assert!(Cli::try_parse_from(&args(&["clilint", "check", "t", "--timeout-ms", "x"])).is_none());
    assert!(Cli::try_parse_from(&args(&["clilint", "bundle", "lock"])).is_none());
    assert!(Cli::try_parse_from(&args(&["clilint", "bundle", "update"])).is_none());
}
