use clilint::check_bundle::{CheckBundleManifest, CheckDefinition, CheckerDefinition};
use clilint::model::{CheckBundleIdentity, EvaluationMethod};
use clilint::project_config::{
    install, list, load_from_config, normalize_absolute, relative_path, remove, resolve_manifests,
    BundleSource, PartKind, ProjectConfig,
};

fn manifest(name: &str, extends: &str) -> CheckBundleManifest {
    CheckBundleManifest {
        format_version: 1,
        check_bundle: CheckBundleIdentity {
            name: name.into(),
            version: "1.0.0".into(),
        },
        extends: Some(extends.into()),
        checks: vec![CheckDefinition {
            id: format!("{name}/example"),
            title: "Example".into(),
            evaluation_method: EvaluationMethod::Mechanistic,
            checker: Some(CheckerDefinition::Cli {
                command: vec!["checker".into()],
            }),
            skill: None,
            evidence: None,
            bundle_root: Some(format!("/work/{name}")),
        }],
        resolved_check_bundles: Vec::new(),
    }
}

fn core_manifest() -> CheckBundleManifest {
    CheckBundleManifest {
        format_version: 1,
        check_bundle: CheckBundleIdentity {
            name: "clilint".into(),
            version: "0.0.2".into(),
        },
        extends: None,
        checks: Vec::new(),
        resolved_check_bundles: Vec::new(),
    }
}

/// The bundles `config` declares, as read, from the table of bundle
/// names and the bundle each extends.
fn loaded(config: &ProjectConfig, table: &[(&str, &str)]) -> Vec<Result<CheckBundleManifest, String>> {
    config
        .entries()
        .iter()
        .map(|(name, _)| {
            table
                .iter()
                .find(|(n, _)| n == name)
                .map(|(n, extends)| manifest(n, extends))
                .ok_or_else(|| format!("could not read check bundle {name}"))
        })
        .collect()
}

fn installed(names: &[(&str, &str)]) -> ProjectConfig {
    let mut config = ProjectConfig::new();
    for (name, extends) in names {
        let bundles = loaded(&config, names);
        config = install(
            "/work",
            &format!("/work/{name}"),
            Ok(manifest(name, extends)),
            Ok(config),
            bundles,
            Ok(core_manifest()),
        )
        .unwrap();
    }
    config
}

#[test]
fn makes_sibling_path_relative() {
    let path = relative_path("/work/project", "/work/check-bundles/example").unwrap();
    assert_eq!(path, "../check-bundles/example");
}

#[test]
fn keeps_descendant_path_relative() {
    let path = relative_path("/work/project", "/work/project/checks").unwrap();
    assert_eq!(path, "checks");
}

#[test]
fn failed_install_leaves_project_configuration_unchanged() {
    let mut on_disk = ProjectConfig::new();
    match install(
        "/work/project",
        "/work/project/bundle",
        Ok(manifest("broken", "missing")),
        Ok(ProjectConfig::new()),
        Vec::new(),
        Ok(core_manifest()),
    ) {
        Ok(candidate) => on_disk = candidate,
        Err(error) => assert!(error.contains("missing name or cycle"), "{error}"),
    }
    assert!(on_disk.entries().is_empty());
    assert!(!on_disk.contains_key("broken"));
}

#[test]
fn removing_a_bundle_used_by_another_bundle_leaves_both_installed() {
    let table = [("parent", "clilint"), ("child", "parent")];
    let mut on_disk = installed(&table);
    let config = installed(&table);
    let bundles = loaded(&config, &table);
    match remove(Ok(config), "parent", bundles, Ok(core_manifest())) {
        Ok(candidate) => on_disk = candidate,
        Err(error) => assert!(error.contains("missing name or cycle"), "{error}"),
    }
    assert!(on_disk.contains_key("parent"));
    assert!(on_disk.contains_key("child"));
}

#[test]
fn removing_a_leaf_bundle_keeps_the_rest() {
    let table = [("parent", "clilint"), ("child", "parent")];
    let config = installed(&table);
    let bundles = loaded(&config, &table);
    let candidate = remove(Ok(config), "child", bundles, Ok(core_manifest())).unwrap();
    assert!(candidate.contains_key("parent"));
    assert!(!candidate.contains_key("child"));
}

#[test]
fn install_reports_a_configured_bundle_that_cannot_be_read() {
    let config = installed(&[("parent", "clilint")]);
    let error = install(
        "/work",
        "/work/child",
        Ok(manifest("child", "parent")),
        Ok(config),
        vec![Err("could not read check bundle parent".to_string())],
        Ok(core_manifest()),
    )
    .unwrap_err();
    assert_eq!(error, "could not read check bundle parent");
}

#[test]
fn relative_paths_cover_parents_and_roots() {
    assert_eq!(relative_path("/work/project", "/work/project").unwrap(), ".");
    assert_eq!(relative_path("/a/b/c", "/a/x").unwrap(), "../../x");
    assert_eq!(relative_path("/a/./b/../c", "/a/c/d").unwrap(), "d");
    assert_eq!(
        relative_path("work", "/work").unwrap_err(),
        "expected an absolute path, got work"
    );
    assert_eq!(
        relative_path("/..", "/work").unwrap_err(),
        "path escapes its root: /.."
    );
    let normalized = normalize_absolute("/a/./b/../c/").unwrap();
    assert_eq!(
        normalized,
        vec![
            (PartKind::RootDir, "/".to_string()),
            (PartKind::Normal, "a".to_string()),
            (PartKind::Normal, "c".to_string()),
        ]
    );
    assert_eq!(relative_path("/", "/work").unwrap(), "work");
    assert_eq!(relative_path("/", "/").unwrap(), ".");
    assert_eq!(relative_path("/a/b", "/").unwrap(), "../..");
}

#[test]
fn install_records_relative_and_given_paths() {
    let config = install(
        "/work/project",
        "/work/bundle",
        Ok(manifest("fixture-checker", "clilint")),
        Ok(ProjectConfig::new()),
        Vec::new(),
        Ok(core_manifest()),
    )
    .unwrap();
    let entries = config.entries();
    assert_eq!(entries.len(), 1);
    assert_eq!(entries[0].0, "fixture-checker");
    let BundleSource::Local { path } = &entries[0].1;
    assert_eq!(path, "../bundle");
    let bundles = loaded(&config, &[("fixture-checker", "clilint")]);
    let config = install(
        "/work/project",
        "checks",
        Ok(manifest("local", "clilint")),
        Ok(config),
        bundles,
        Ok(core_manifest()),
    )
    .unwrap();
    assert_eq!(config.entries().len(), 2);
    assert_eq!(config.entries()[0].0, "fixture-checker");
    assert_eq!(config.entries()[1].0, "local");
    assert_eq!(
        install(
            "/w",
            "b",
            Err("could not read".into()),
            Ok(ProjectConfig::new()),
            Vec::new(),
            Ok(core_manifest()),
        )
        .unwrap_err(),
        "could not read"
    );
}

#[test]
fn config_keeps_names_sorted_and_unique() {
    let mut config = ProjectConfig::new();
    config.insert("zeta".into(), BundleSource::Local { path: "z".into() });
    config.insert("alpha".into(), BundleSource::Local { path: "a".into() });
    config.insert("mid".into(), BundleSource::Local { path: "m".into() });
    config.insert("alpha".into(), BundleSource::Local { path: "a2".into() });
    let names: Vec<&str> = config.entries().iter().map(|e| e.0.as_str()).collect();
    assert_eq!(names, ["alpha", "mid", "zeta"]);
    let BundleSource::Local { path } = &config.entries()[0].1;
    assert_eq!(path, "a2");
    assert!(config.remove("mid").is_some());
    assert!(config.remove("mid").is_none());
    assert!(!config.contains_key("mid"));
}

#[test]
fn remove_of_unknown_bundle_is_an_error() {
    assert_eq!(
        remove(Ok(ProjectConfig::new()), "ghost", Vec::new(), Ok(core_manifest())).unwrap_err(),
        "unknown check bundle ghost"
    );
}

#[test]
fn list_reports_installation_state() {
    let config = installed(&[("parent", "clilint"), ("child", "parent")]);
    let statuses = list(&config, &vec![true, false]);
    assert_eq!(statuses.len(), 2);
    assert_eq!(statuses[0].name, "child");
    assert!(statuses[0].installed);
    assert_eq!(statuses[1].name, "parent");
    assert!(!statuses[1].installed);
}

#[test]
fn manifests_resolve_in_dependency_order() {
    let resolved = resolve_manifests(
        Ok(core_manifest()),
        vec![manifest("child", "parent"), manifest("parent", "clilint")],
    )
    .unwrap();
    let names: Vec<&str> = resolved
        .resolved_check_bundles
        .iter()
        .map(|b| b.name.as_str())
        .collect();
    assert_eq!(names, ["clilint", "parent", "child"]);
    assert_eq!(
        resolve_manifests(
            Ok(core_manifest()),
            vec![manifest("a", "clilint"), manifest("a", "clilint")]
        )
        .unwrap_err(),
        "duplicate check bundle declaration a"
    );
    assert_eq!(
        resolve_manifests(Ok(core_manifest()), vec![manifest("a", "b"), manifest("b", "a")]).unwrap_err(),
        "check bundle dependencies contain a missing name or cycle: a, b"
    );
}

#[test]
fn load_from_config_combines_configured_and_direct_bundles() {
    let table = [("parent", "clilint")];
    let config = installed(&table);
    let bundles = loaded(&config, &table);
    let combined = load_from_config(
        &config,
        bundles,
        Some(Ok(manifest("direct", "parent"))),
        Ok(core_manifest()),
    )
    .unwrap();
    let ids: Vec<&str> = combined.checks.iter().map(|c| c.id.as_str()).collect();
    assert_eq!(ids, vec!["parent/example", "direct/example"]);
    let mismatched = load_from_config(
        &config,
        vec![Ok(manifest("other", "clilint"))],
        None,
        Ok(core_manifest()),
    )
    .unwrap_err();
    assert_eq!(mismatched, "declared check bundle parent loaded bundle other");
}
