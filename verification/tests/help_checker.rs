use clilint::check_bundle::{HelpLimits, HierarchicalHelpBehavior};
use clilint::help_checker::{
    extract_version, operation_behavior, split_words, trim_chars, DocumentKind, HelpCollector,
    HelpCommand, HelpDocument, HelpOverview, HelpTask, Heading, Outline, SearchResponse,
    SearchResult, Section, SectionResponse,
};
use clilint::model::Observation;

fn limits(total_commands: usize) -> HelpLimits {
    HelpLimits {
        command_depth: 3,
        command_count: 10,
        total_commands,
        document_bytes: 100_000,
        search_results: 5,
        timeout_ms: 1_000,
    }
}

fn observation(args: &[String], exit: i32, stdout: &str, stderr: &str) -> Observation {
    Observation {
        args: args.to_vec(),
        exit_status: Some(exit),
        timed_out: false,
        duration_ms: 1.0f64.to_bits(),
        stdout: stdout.into(),
        stderr: stderr.into(),
        has_ansi: false,
    }
}

fn headings() -> Vec<Heading> {
    vec![
        Heading { level: 1, title: "Usage".into(), section: "usage".into() },
        Heading { level: 2, title: "Options".into(), section: "options".into() },
    ]
}

fn level_of(section: &str) -> u8 {
    if section == "usage" { 1 } else { 2 }
}

/// A target whose help is complete at its only command path; `web` is
/// what its web view prints.
fn answer(cmd: &HelpCommand, web: &str) -> (Observation, Option<Result<HelpDocument, String>>) {
    let path = cmd.command_path.clone();
    let args = &cmd.invocation.args;
    let programmatic = args.iter().any(|a| a == "--programmatic");
    let help = "Usage: tool [OPTIONS]\n";
    let doc = |d: HelpDocument| Some(Ok(d));
    match &cmd.task {
        HelpTask::Version => (observation(args, 0, "tool 1.2.3\n", ""), None),
        HelpTask::SharedHelp | HelpTask::OptionHelp => (observation(args, 0, help, ""), None),
        HelpTask::ProgrammaticHelp => (
            observation(args, 0, "Usage: tool [OPTIONS]\nUse --format json for JSON; ask for a section.\n", ""),
            None,
        ),
        HelpTask::Overview | HelpTask::ProgrammaticOverview => (
            observation(args, 0, "{}", ""),
            doc(HelpDocument::Overview(HelpOverview {
                format_version: 1,
                command_path: path,
                programmatic,
                child_commands: Vec::new(),
            })),
        ),
        HelpTask::Outline { .. } => (
            observation(args, 0, "{}", ""),
            doc(HelpDocument::Outline(Outline {
                format_version: 1,
                command_path: path,
                programmatic,
                headings: headings(),
            })),
        ),
        HelpTask::FilteredOutline { through_level, .. } => {
            let hs = if *through_level {
                headings()
            } else {
                headings().into_iter().filter(|h| h.level == 2).collect()
            };
            (
                observation(args, 0, "{}", ""),
                doc(HelpDocument::Outline(Outline {
                    format_version: 1,
                    command_path: path,
                    programmatic,
                    headings: hs,
                })),
            )
        }
        HelpTask::Section { allowed, .. } => (
            observation(args, 0, "{}", ""),
            doc(HelpDocument::Section(SectionResponse {
                format_version: 1,
                command_path: path,
                programmatic,
                sections: allowed
                    .iter()
                    .map(|s| Section {
                        level: level_of(s),
                        title: s.to_uppercase(),
                        section: s.clone(),
                        content: "text".into(),
                    })
                    .collect(),
            })),
        ),
        HelpTask::SearchSection { section, .. } => (
            observation(args, 0, "{}", ""),
            doc(HelpDocument::Section(SectionResponse {
                format_version: 1,
                command_path: path,
                programmatic,
                sections: vec![Section {
                    level: 1,
                    title: "Usage".into(),
                    section: section.clone(),
                    content: "text".into(),
                }],
            })),
        ),
        HelpTask::UnknownSection { .. } => {
            (observation(args, 2, "", "error: unknown section argument\n"), None)
        }
        HelpTask::Search { .. } => (
            observation(args, 0, "{}", ""),
            doc(HelpDocument::Search(SearchResponse {
                format_version: 1,
                command_path: path,
                programmatic,
                results: vec![SearchResult {
                    command_path: Vec::new(),
                    section: "usage".into(),
                    title: "Usage".into(),
                }],
            })),
        ),
        HelpTask::LocalView => (observation(args, 0, "# tool\nUsage\n", ""), None),
        HelpTask::ProgrammaticLocalView => {
            (observation(args, 0, "# tool\nUsage\nJSON guidance\n", ""), None)
        }
        HelpTask::WebView | HelpTask::ProgrammaticWebView => (observation(args, 0, web, ""), None),
    }
}

fn run(limits: HelpLimits, web: &str) -> clilint::help_checker::HelpContext {
    let mut collector = HelpCollector::new(limits);
    while let Some(cmd) = collector.next_command() {
        let (obs, doc) = answer(&cmd, web);
        collector.handle(cmd, Ok(obs), doc);
    }
    collector.finish()
}

#[test]
fn complete_help_passes_every_behavior() {
    let context = run(limits(1000), "https://example.com/tool/1.2.3\n");
    let evidence = context.evidence();
    assert!(evidence.validation_failures.is_empty(), "{:?}", evidence.validation_failures);
    assert_eq!(evidence.command_paths, vec![Vec::<String>::new()]);
    assert_eq!(evidence.commands_run.len(), 30);
    assert_eq!(evidence.commands_run[0].operation, "web-version");
    assert_eq!(evidence.commands_run[1].operation, "overview");
    let result = context.result(HierarchicalHelpBehavior::SectionRetrieval);
    assert!(result.passed);
    assert_eq!(result.detail, "hierarchical help check passed");
    assert!(result.validation_failures.is_empty());
    let all = context.result(HierarchicalHelpBehavior::NonInteractiveOutput);
    assert_eq!(all.commands_run.len(), 30);
}

#[test]
fn web_view_without_version_fails_with_detail() {
    let context = run(limits(1000), "https://example.com/tool/latest\n");
    let result = context.result(HierarchicalHelpBehavior::WebView);
    assert!(!result.passed);
    assert_eq!(result.validation_failures.len(), 2);
    assert_eq!(
        result.detail,
        "non-interactive web view must write an HTTP URL and exit successfully at []; programmatic web view must write the versioned HTTP URL at []"
    );
    assert_eq!(result.commands_run.len(), 3);
    assert!(context.result(HierarchicalHelpBehavior::Outline).passed);
}

#[test]
fn total_command_limit_stops_running_commands() {
    let mut collector = HelpCollector::new(limits(2));
    let mut handed_out = 0;
    while let Some(cmd) = collector.next_command() {
        handed_out += 1;
        let (obs, doc) = answer(&cmd, "https://example.com/tool/1.2.3\n");
        collector.handle(cmd, Ok(obs), doc);
    }
    assert_eq!(handed_out, 2);
    let context = collector.finish();
    let evidence = context.evidence();
    assert_eq!(evidence.commands_run.len(), 2);
    assert!(evidence
        .validation_failures
        .iter()
        .any(|f| f.message == "total help command limit exceeded"));
    assert!(evidence
        .validation_failures
        .iter()
        .any(|f| f.message == "non-interactive local view must write the document and exit successfully"));
}

#[test]
fn commands_carry_their_arguments() {
    let mut collector = HelpCollector::new(limits(1000));
    let version = collector.next_command().unwrap();
    assert_eq!(version.invocation.args, vec!["--version".to_string()]);
    assert_eq!(version.behavior, HierarchicalHelpBehavior::WebView);
    assert_eq!(version.document, None);
    assert_eq!(version.invocation.timeout_ms, Some(1_000));
    assert_eq!(version.invocation.env.get("NO_COLOR").map(String::as_str), Some("1"));
    let (obs, doc) = answer(&version, "");
    collector.handle(version, Ok(obs), doc);
    let overview = collector.next_command().unwrap();
    assert_eq!(overview.invocation.args, vec!["help", "--format", "json"]);
    assert_eq!(overview.document, Some(DocumentKind::Overview));
    assert_eq!(overview.behavior, HierarchicalHelpBehavior::CommandDiscovery);
}

#[test]
fn failed_runs_and_unreadable_documents_are_recorded() {
    let mut collector = HelpCollector::new(limits(1000));
    let version = collector.next_command().unwrap();
    collector.handle(version, Err("could not run target tool".into()), None);
    let overview = collector.next_command().unwrap();
    let args = overview.invocation.args.clone();
    collector.handle(
        overview,
        Ok(observation(&args, 0, "{not-json", "")),
        Some(Err("expected value at line 1 column 2".into())),
    );
    let context = {
        while let Some(cmd) = collector.next_command() {
            let (obs, doc) = answer(&cmd, "https://example.com/tool/1.2.3\n");
            collector.handle(cmd, Ok(obs), doc);
        }
        collector.finish()
    };
    let failures = &context.evidence().validation_failures;
    assert_eq!(failures[0].message, "could not run target tool");
    assert_eq!(failures[0].behavior, HierarchicalHelpBehavior::WebView);
    assert_eq!(
        failures[1].message,
        "invalid JSON help response: expected value at line 1 column 2"
    );
    assert_eq!(failures[1].behavior, HierarchicalHelpBehavior::CommandDiscovery);
}

#[test]
fn child_commands_are_explored_breadth_first() {
    let mut collector = HelpCollector::new(limits(10_000));
    while let Some(cmd) = collector.next_command() {
        let (obs, doc) = match (&cmd.task, cmd.command_path.len()) {
            (HelpTask::Overview, 0) => (
                observation(&cmd.invocation.args, 0, "{}", ""),
                Some(Ok(HelpDocument::Overview(HelpOverview {
                    format_version: 1,
                    command_path: Vec::new(),
                    programmatic: false,
                    child_commands: vec![
                        clilint::help_checker::ChildCommand { name: "repo".into() },
                        clilint::help_checker::ChildCommand { name: "bad name".into() },
                        clilint::help_checker::ChildCommand { name: "repo".into() },
                    ],
                }))),
            ),
            _ => answer(&cmd, "https://example.com/tool/1.2.3\n"),
        };
        collector.handle(cmd, Ok(obs), doc);
    }
    let context = collector.finish();
    let evidence = context.evidence();
    assert_eq!(
        evidence.command_paths,
        vec![Vec::<String>::new(), vec!["repo".to_string()]]
    );
    let discovery = context.result(HierarchicalHelpBehavior::CommandDiscovery);
    assert!(!discovery.passed);
    assert!(discovery.detail.starts_with(
        "child command names must be non-empty, single tokens, and unique at []; child command names must be non-empty, single tokens, and unique at []"
    ));
}

#[test]
fn operation_names_map_to_behaviors() {
    assert_eq!(operation_behavior("overview"), HierarchicalHelpBehavior::CommandDiscovery);
    assert_eq!(operation_behavior("programmatic-outline"), HierarchicalHelpBehavior::Outline);
    assert_eq!(operation_behavior("recursive-section"), HierarchicalHelpBehavior::SectionRetrieval);
    assert_eq!(operation_behavior("shared-help"), HierarchicalHelpBehavior::SharedHelp);
    assert_eq!(operation_behavior("programmatic-overview"), HierarchicalHelpBehavior::ProgrammaticGuidance);
    assert_eq!(operation_behavior("search-section"), HierarchicalHelpBehavior::Search);
    assert_eq!(operation_behavior("local-view"), HierarchicalHelpBehavior::LocalView);
    assert_eq!(operation_behavior("web-version"), HierarchicalHelpBehavior::WebView);
    assert_eq!(operation_behavior("help-option"), HierarchicalHelpBehavior::Availability);
}

#[test]
fn version_is_the_first_dotted_word_trimmed() {
    assert_eq!(extract_version("clilint 0.0.2\n").as_deref(), Some("0.0.2"));
    assert_eq!(extract_version("tool (v1.2.3), built\n").as_deref(), Some("v1.2.3"));
    assert_eq!(extract_version("tool version one"), None);
    assert_eq!(extract_version("a 1.x 2.3 3.4").as_deref(), Some("2.3"));
}

#[test]
fn words_and_trimming() {
    assert_eq!(split_words("  a\tbb  c\n"), vec!["a", "bb", "c"]);
    assert!(split_words(" \n ").is_empty());
    assert_eq!(trim_chars("  https://x \n", false), "https://x");
    assert_eq!(trim_chars("   ", false), "");
    assert_eq!(trim_chars("--1.2.3;", true), "1.2.3");
}

#[test]
fn a_spent_budget_records_each_refused_command() {
    let mut collector = HelpCollector::new(limits(0));
    assert!(collector.next_command().is_none());
    let context = collector.finish();
    let evidence = context.evidence();
    assert_eq!(evidence.command_paths, vec![Vec::<String>::new()]);
    assert!(evidence.commands_run.is_empty());
    let failures = &evidence.validation_failures;
    assert_eq!(failures.len(), 17);
    assert!(failures.iter().all(|f| f.command_path.is_empty()));
    let limit = "total help command limit exceeded";
    assert_eq!(failures.iter().filter(|f| f.message == limit).count(), 14);
    assert_eq!(failures[0].behavior, HierarchicalHelpBehavior::WebView);
    assert_eq!(failures[1].behavior, HierarchicalHelpBehavior::CommandDiscovery);
    let views: Vec<(HierarchicalHelpBehavior, &str)> = failures
        .iter()
        .filter(|f| f.message != limit)
        .map(|f| (f.behavior, f.message.as_str()))
        .collect();
    assert_eq!(
        views,
        vec![
            (
                HierarchicalHelpBehavior::LocalView,
                "non-interactive local view must write the document and exit successfully"
            ),
            (
                HierarchicalHelpBehavior::WebView,
                "non-interactive web view must write an HTTP URL and exit successfully"
            ),
            (
                HierarchicalHelpBehavior::WebView,
                "programmatic web view must write the versioned HTTP URL"
            ),
        ]
    );
    assert_eq!(failures[11].message, views[0].1);
    assert_eq!(failures[16].message, views[2].1);
}

#[test]
fn a_new_collector_explores_the_root_first() {
    let mut collector = HelpCollector::new(limits(1000));
    assert!(!collector.has_explored(&Vec::new()));
    let version = collector.next_command().unwrap();
    assert!(matches!(version.task, HelpTask::Version));
    assert!(version.command_path.is_empty());
    let (obs, doc) = answer(&version, "");
    collector.handle(version, Ok(obs), doc);
    let overview = collector.next_command().unwrap();
    assert!(matches!(overview.task, HelpTask::Overview));
    assert!(overview.command_path.is_empty());
    assert!(collector.has_explored(&Vec::new()));
}
