use clilint::engine::digest_bytes;
use clilint::evidence::{stable_evidence, JsonTree, UNSTABLE_KEY};

fn number(x: f64) -> JsonTree {
    JsonTree::Number(serde_json::Number::from_f64(x).unwrap())
}

fn text(s: &str) -> JsonTree {
    JsonTree::Text(s.to_string())
}

fn object(members: Vec<(&str, JsonTree)>) -> JsonTree {
    JsonTree::Object(members.into_iter().map(|(k, v)| (k.to_string(), v)).collect())
}

fn value(tree: JsonTree) -> serde_json::Value {
    match tree {
        JsonTree::Null => serde_json::Value::Null,
        JsonTree::Bool(b) => serde_json::Value::Bool(b),
        JsonTree::Number(n) => serde_json::Value::Number(n),
        JsonTree::Text(s) => serde_json::Value::String(s),
        JsonTree::Array(items) => serde_json::Value::Array(items.into_iter().map(value).collect()),
        JsonTree::Object(members) => serde_json::Value::Object(
            members.into_iter().map(|(k, v)| (k, value(v))).collect(),
        ),
    }
}

fn digest(tree: &JsonTree) -> String {
    digest_bytes(&serde_json::to_vec(&value(stable_evidence(tree))).unwrap())
}

#[test]
fn evidence_digest_is_stable() {
    let first = object(vec![("stdout", text("hello")), ("duration_ms", number(1.0))]);
    let second = object(vec![("stdout", text("hello")), ("duration_ms", number(9.0))]);
    assert_eq!(digest(&first), digest(&second));
    let changed = object(vec![("stdout", text("changed")), ("duration_ms", number(1.0))]);
    assert_ne!(digest(&first), digest(&changed));
}

#[test]
fn durations_are_left_out_at_any_depth() {
    assert_eq!(UNSTABLE_KEY, "duration_ms");
    let evidence = object(vec![(
        "observations",
        JsonTree::Array(vec![
            object(vec![
                ("args", JsonTree::Array(vec![text("--help")])),
                ("duration_ms", number(12.5)),
                ("exit_status", number(0.0)),
                ("timed_out", JsonTree::Bool(false)),
                ("stdin", JsonTree::Null),
            ]),
            object(vec![("duration_ms", number(3.0))]),
        ]),
    )]);
    let stable = value(stable_evidence(&evidence));
    assert_eq!(
        stable,
        serde_json::from_str::<serde_json::Value>(
            r#"{"observations":[{"args":["--help"],"exit_status":0.0,"timed_out":false,"stdin":null},{}]}"#
        )
        .unwrap()
    );
}

#[test]
fn a_value_without_durations_is_kept() {
    let evidence = JsonTree::Array(vec![text("duration_ms"), number(2.0), JsonTree::Null]);
    let stable = stable_evidence(&evidence);
    assert_eq!(format!("{stable:?}"), format!("{evidence:?}"));
}
