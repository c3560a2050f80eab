//! Check bundles: their manifests, the rules a manifest must follow, and
//! how an additional bundle is combined with the bundles it extends.
use vstd::prelude::*;
use vstd::string::*;

use crate::model::{
    CheckBundleIdentity, CheckMessageLevel, EvaluationMethod, InvocationSpec, SkillRef,
};
use crate::text::{
    char_is_digit, char_is_name_char, chars_of, concat, concat3, concat4, debug_str, debug_text, decimal, is_digit,
    is_name_char, starts_with_str, starts_with_text, str_eq, u64_text,
};

verus! {

broadcast use vstd::string::group_string_axioms;

/// A check bundle manifest (`clilint.toml`).
#[derive(Debug)]
pub struct CheckBundleManifest {
    pub format_version: u32,
    pub check_bundle: CheckBundleIdentity,
    pub extends: Option<String>,
    pub checks: Vec<CheckDefinition>,
    /// The identities of the bundles combined so far, in the order they were added.
    pub resolved_check_bundles: Vec<CheckBundleIdentity>,
}

/// One Check of a bundle.
#[derive(Debug)]
pub struct CheckDefinition {
    pub id: String,
    pub title: String,
    pub evaluation_method: EvaluationMethod,
    pub checker: Option<CheckerDefinition>,
    pub skill: Option<SkillRef>,
    pub evidence: Option<InvocationSpec>,
    /// The directory of the manifest that declared the Check.
    pub bundle_root: Option<String>,
}

/// How a Check is decided.
#[derive(Debug)]
pub enum CheckerDefinition {
    SingleInvocation { failure_message_level: CheckMessageLevel, invocation: InvocationCheck },
    AnyInvocation { failure_message_level: CheckMessageLevel, invocations: Vec<InvocationCheck> },
    AllInvocations { failure_message_level: CheckMessageLevel, invocations: Vec<InvocationCheck> },
    Cli { command: Vec<String> },
}

/// One invocation of the target with the assertions it must meet.
#[derive(Debug)]
pub struct InvocationCheck {
    pub invocation: InvocationSpec,
    pub assertions: Vec<Assertion>,
}

/// An expectation of one run of the target. `DurationAtMost` holds the bit
/// pattern of its binary64 number of milliseconds (`f64::to_bits`).
#[derive(Debug)]
pub enum Assertion {
    ExitCode { value: i32 },
    ExitNonZero,
    NotTimedOut,
    StdoutNotEmpty,
    StderrNotEmpty,
    StdoutAtLeastStderr,
    OutputContainsAny { values: Vec<String> },
    StdoutContainsAny { values: Vec<String> },
    NoAnsi,
    DurationAtMost { milliseconds: u64 },
    VersionNumber,
}

/// The behaviors that the hierarchical help check examines.
#[derive(Clone, Copy, Debug, PartialEq, Eq, Structural)]
pub enum HierarchicalHelpBehavior {
    CommandDiscovery,
    Availability,
    SharedHelp,
    ProgrammaticGuidance,
    Outline,
    SectionRetrieval,
    Search,
    LocalView,
    WebView,
    NonInteractiveOutput,
}

/// The bounds of the hierarchical help check: how deep and how many
/// command paths it explores, how many help commands it runs, how many
/// bytes of output and search results it accepts, and how long each help
/// command may take.
#[derive(Clone, Copy, Debug)]
pub struct HelpLimits {
    pub command_depth: usize,
    pub command_count: usize,
    pub total_commands: usize,
    pub document_bytes: usize,
    pub search_results: usize,
    pub timeout_ms: u64,
}

/// A name of letters, digits, `-` and `_`, not empty.
pub open spec fn valid_name(name: Seq<char>) -> bool {
    name.len() > 0 && forall|i: int| 0 <= i < name.len() ==> #[trigger] is_name_char(name[i])
}

/// Dots at `i` and `j` split `v` into three non-empty runs of ASCII digits.
pub open spec fn version_dots(v: Seq<char>, i: int, j: int) -> bool {
    &&& 0 < i
    &&& i + 1 < j
    &&& j + 1 < v.len()
    &&& v[i] == '.'
    &&& v[j] == '.'
    &&& forall|k: int| 0 <= k < v.len() && k != i && k != j ==> #[trigger] is_digit(v[k])
}

/// A version of three dot-separated numbers, such as `1.0.0`.
pub open spec fn valid_version(v: Seq<char>) -> bool {
    exists|i: int, j: int| version_dots(v, i, j)
}

/// The error for an invalid name of the given kind, if it is invalid.
pub open spec fn name_problem(kind: Seq<char>, name: Seq<char>) -> Option<Seq<char>> {
    if valid_name(name) {
        None
    } else {
        Some("invalid "@ + kind + " name "@ + debug_text(name))
    }
}

/// The error for an invalid version of the given kind, if it is invalid.
pub open spec fn version_problem(kind: Seq<char>, version: Seq<char>) -> Option<Seq<char>> {
    if valid_version(version) {
        None
    } else {
        Some("invalid "@ + kind + " version "@ + debug_text(version))
    }
}

/// `r` is `Ok` when there is no problem, else the error `problem` names.
pub open spec fn outcome_is(r: Result<(), String>, problem: Option<Seq<char>>) -> bool {
    match problem {
        None => r is Ok,
        Some(m) => r matches Err(e) && e@ == m,
    }
}

/// Checks a bundle or skill name.
pub fn validate_name(kind: &str, name: &str) -> (r: Result<(), String>)
    ensures
        outcome_is(r, name_problem(kind@, name@)),
{
    let cs = chars_of(name);
    let mut ok = cs.len() > 0;
    if ok {
        for i in 0..cs.len()
            invariant
                cs@ == name@,
                ok ==> forall|j: int| 0 <= j < i ==> #[trigger] is_name_char(name@[j]),
                !ok ==> !valid_name(name@),
        {
            if !char_is_name_char(cs[i]) {
                ok = false;
            }
        }
    }
    if !ok {
        let mut message = concat("invalid ", kind);
        message.append(" name ");
        let quoted = debug_str(name);
        message.append(quoted.as_str());
        return Err(message);
    }
    Ok(())
}

/// Whether `v` is a version of three dot-separated numbers.
pub fn is_valid_version(v: &str) -> (r: bool)
    ensures
        r == valid_version(v@),
{
    let cs = chars_of(v);
    let n = cs.len();
    let mut dots: Vec<usize> = Vec::new();
    for k in 0..n
        invariant
            n == cs.len(),
            cs@ == v@,
            forall|t: int| 0 <= t < dots.len() ==> #[trigger] dots@[t] < k && cs@[dots@[t] as int] == '.',
            forall|t: int, u: int| 0 <= t < u < dots.len() ==> dots@[t] < dots@[u],
            forall|j: int| 0 <= j < k && cs@[j] == '.' ==> exists|t: int| 0 <= t < dots.len() && dots@[t] == j,
            forall|j: int| 0 <= j < k && cs@[j] != '.' ==> #[trigger] is_digit(cs@[j]),
    {
        if cs[k] == '.' {
            let ghost old_dots = dots@;
            dots.push(k);
            assert forall|j: int| 0 <= j < k + 1 && cs@[j] == '.' implies exists|t: int|
                0 <= t < dots.len() && dots@[t] == j by {
                if j == k {
                    assert(dots@[dots.len() - 1] == j);
                } else {
                    let t = choose|t: int| 0 <= t < old_dots.len() && old_dots[t] == j;
                    assert(dots@[t] == j);
                }
            }
        } else if !char_is_digit(cs[k]) {
            assert forall|i: int, j: int| version_dots(v@, i, j) implies false by {
                assert(is_digit(v@[k as int]));
            }
            return false;
        }
    }
    if dots.len() != 2 {
        assert forall|i: int, j: int| version_dots(v@, i, j) implies false by {
            let ti = choose|t: int| 0 <= t < dots.len() && dots@[t] == i;
            let tj = choose|t: int| 0 <= t < dots.len() && dots@[t] == j;
            if dots.len() > 2 {
                let d0 = dots@[0] as int;
                let d1 = dots@[1] as int;
                let d2 = dots@[2] as int;
                if d0 != i && d0 != j {
                    assert(is_digit(v@[d0]));
                } else if d1 != i && d1 != j {
                    assert(is_digit(v@[d1]));
                } else {
                    assert(is_digit(v@[d2]));
                }
            }
        }
        return false;
    }
    let first = dots[0];
    let second = dots[1];
    if 0 < first && first + 1 < second && second + 1 < n {
        assert(version_dots(v@, first as int, second as int));
        true
    } else {
        assert forall|i: int, j: int| version_dots(v@, i, j) implies false by {
            let ti = choose|t: int| 0 <= t < dots.len() && dots@[t] == i;
            let tj = choose|t: int| 0 <= t < dots.len() && dots@[t] == j;
        }
        false
    }
}

/// Checks a bundle or skill version.
pub fn validate_version(kind: &str, version: &str) -> (r: Result<(), String>)
    ensures
        outcome_is(r, version_problem(kind@, version@)),
{
    if !is_valid_version(version) {
        let mut message = concat("invalid ", kind);
        message.append(" version ");
        let quoted = debug_str(version);
        message.append(quoted.as_str());
        return Err(message);
    }
    Ok(())
}

/// The bundle is the built-in `clilint` bundle.
pub open spec fn is_builtin(b: CheckBundleManifest) -> bool {
    b.check_bundle.name@ == "clilint"@
}

/// The Check declares a Checker CLI with a non-empty command.
pub open spec fn has_nonempty_cli(c: CheckDefinition) -> bool {
    c.checker matches Some(CheckerDefinition::Cli { command }) && command@.len() > 0
}

/// The Check declares a Checker CLI with an empty command.
pub open spec fn has_empty_cli(c: CheckDefinition) -> bool {
    c.checker matches Some(CheckerDefinition::Cli { command }) && command@.len() == 0
}

/// `id` lies under the bundle's prefix `name/` and is longer than it.
pub open spec fn scoped(id: Seq<char>, name: Seq<char>) -> bool {
    starts_with_text(id, name.push('/')) && id.len() != name.len() + 1
}

/// The error for a Check whose evaluation method does not fit its fields.
pub open spec fn method_problem(b: CheckBundleManifest, c: CheckDefinition) -> Option<Seq<char>> {
    match c.evaluation_method {
        EvaluationMethod::Mechanistic => {
            if c.checker is None || c.skill is Some || c.evidence is Some {
                Some(
                    "mechanistic check "@ + c.id@
                        + " must have one checker and no judgment fields"@,
                )
            } else {
                None
            }
        },
        EvaluationMethod::JudgmentBased => {
            if is_builtin(b) && (c.checker is Some || c.skill is None || c.evidence is None) {
                Some(
                    "built-in judgment-based check "@ + c.id@
                        + " must have a skill and evidence invocation"@,
                )
            } else if !is_builtin(b) && (c.checker is None || c.skill is Some
                || c.evidence is Some) {
                Some(
                    "judgment-based check "@ + c.id@
                        + " in a local bundle must declare one Checker CLI and omit [checks.skill] and [checks.evidence]"@,
                )
            } else {
                match c.skill {
                    Some(skill) => {
                        if name_problem("skill"@, skill.name@) is Some {
                            name_problem("skill"@, skill.name@)
                        } else {
                            version_problem("skill"@, skill.version@)
                        }
                    },
                    None => None,
                }
            }
        },
    }
}

/// The error for the Check at index `k`, given the Checks before it.
pub open spec fn check_problem(b: CheckBundleManifest, k: int) -> Option<Seq<char>> {
    let c = b.checks@[k];
    let name = b.check_bundle.name@;
    if !scoped(c.id@, name) {
        Some("check "@ + c.id@ + " is not scoped to check bundle "@ + name)
    } else if exists|j: int| 0 <= j < k && #[trigger] b.checks@[j].id@ == c.id@ {
        Some("duplicate check identifier "@ + c.id@)
    } else if method_problem(b, c) is Some {
        method_problem(b, c)
    } else if !is_builtin(b) && !has_nonempty_cli(c) {
        Some(
            "check "@ + c.id@ + " in a local bundle must declare a nonempty Checker CLI command"@,
        )
    } else if has_empty_cli(c) {
        Some("Checker CLI "@ + c.id@ + " has an empty command"@)
    } else {
        None
    }
}

/// The error for the first Check from index `k` on that has one.
pub open spec fn first_check_problem(b: CheckBundleManifest, k: int) -> Option<Seq<char>>
    decreases b.checks@.len() - k,
{
    if k < 0 || k >= b.checks@.len() {
        None
    } else if check_problem(b, k) is Some {
        check_problem(b, k)
    } else {
        first_check_problem(b, k + 1)
    }
}

/// The error `validate` reports for a bundle, or `None` for a valid one.
pub open spec fn bundle_problem(b: CheckBundleManifest) -> Option<Seq<char>> {
    let name = b.check_bundle.name@;
    if b.format_version != 1 {
        Some(
            "check bundle "@ + name + " uses unsupported format version "@ + decimal(
                b.format_version as nat,
            ),
        )
    } else if name_problem("check bundle"@, name) is Some {
        name_problem("check bundle"@, name)
    } else if version_problem("check bundle"@, b.check_bundle.version@) is Some {
        version_problem("check bundle"@, b.check_bundle.version@)
    } else {
        first_check_problem(b, 0)
    }
}

proof fn lemma_first_check_problem(b: CheckBundleManifest, m: int, k: int)
    requires
        0 <= m <= k <= b.checks@.len(),
        forall|j: int| m <= j < k ==> check_problem(b, j) is None,
    ensures
        k < b.checks@.len() && check_problem(b, k) is Some ==> first_check_problem(b, m)
            == check_problem(b, k),
        k == b.checks@.len() ==> first_check_problem(b, m) is None,
    decreases k - m,
{
    if m < k {
        lemma_first_check_problem(b, m + 1, k);
    }
}

/// The error, if any, for the evaluation method of Check `c` of `bundle`.
fn check_method(bundle: &CheckBundleManifest, c: &CheckDefinition) -> (r: Result<(), String>)
    ensures
        outcome_is(r, method_problem(*bundle, *c)),
{
    match c.evaluation_method {
        EvaluationMethod::Mechanistic => {
            if c.checker.is_none() || c.skill.is_some() || c.evidence.is_some() {
                return Err(
                    concat3(
                        "mechanistic check ",
                        c.id.as_str(),
                        " must have one checker and no judgment fields",
                    ),
                );
            }
        },
        EvaluationMethod::JudgmentBased => {
            let built_in = str_eq(bundle.check_bundle.name.as_str(), "clilint");
            if built_in && (c.checker.is_some() || c.skill.is_none() || c.evidence.is_none()) {
                return Err(
                    concat3(
                        "built-in judgment-based check ",
                        c.id.as_str(),
                        " must have a skill and evidence invocation",
                    ),
                );
            }
            if !built_in && (c.checker.is_none() || c.skill.is_some() || c.evidence.is_some()) {
                return Err(
                    concat3(
                        "judgment-based check ",
                        c.id.as_str(),
                        " in a local bundle must declare one Checker CLI and omit [checks.skill] and [checks.evidence]",
                    ),
                );
            }
            if let Some(skill) = &c.skill {
                validate_name("skill", skill.name.as_str())?;
                validate_version("skill", skill.version.as_str())?;
            }
        },
    }
    Ok(())
}

/// The error, if any, for the Check at index `k` of `bundle`.
fn check_error(bundle: &CheckBundleManifest, k: usize, prefix: &str) -> (r: Option<String>)
    requires
        k < bundle.checks@.len(),
        prefix@ == bundle.check_bundle.name@.push('/'),
    ensures
        match check_problem(*bundle, k as int) {
            None => r is None,
            Some(m) => r matches Some(e) && e@ == m,
        },
{
    let c = &bundle.checks[k];
    let id = c.id.as_str();
    if !starts_with_str(id, prefix) || id.unicode_len() == prefix.unicode_len() {
        return Some(
            concat3("check ", id, " is not scoped to check bundle ").concat(
                bundle.check_bundle.name.as_str(),
            ),
        );
    }
    for j in 0..k
        invariant
            k < bundle.checks@.len(),
            c == bundle.checks@[k as int],
            id@ == c.id@,
            scoped(c.id@, bundle.check_bundle.name@),
            forall|i: int| 0 <= i < j ==> bundle.checks@[i].id@ != c.id@,
    {
        if bundle.checks[j].id == c.id {
            assert(bundle.checks@[j as int].id@ == c.id@);
            return Some(concat("duplicate check identifier ", id));
        }
    }
    if let Err(e) = check_method(bundle, c) {
        return Some(e);
    }
    let built_in = str_eq(bundle.check_bundle.name.as_str(), "clilint");
    let nonempty_cli = match &c.checker {
        Some(CheckerDefinition::Cli { command }) => command.len() > 0,
        _ => false,
    };
    let empty_cli = match &c.checker {
        Some(CheckerDefinition::Cli { command }) => command.len() == 0,
        _ => false,
    };
    if !built_in && !nonempty_cli {
        return Some(
            concat3(
                "check ",
                id,
                " in a local bundle must declare a nonempty Checker CLI command",
            ),
        );
    }
    if empty_cli {
        return Some(concat3("Checker CLI ", id, " has an empty command"));
    }
    None
}

/// Checks a bundle manifest: its format version, name and version, and
/// that each Check is scoped to the bundle, unique, and declares what its
/// evaluation method needs. Reports the first problem found.
pub fn validate(bundle: &CheckBundleManifest) -> (r: Result<(), String>)
    ensures
        outcome_is(r, bundle_problem(*bundle)),
{
    let name = bundle.check_bundle.name.as_str();
    if bundle.format_version != 1 {
        let number = u64_text(bundle.format_version as u64);
        return Err(
            concat3("check bundle ", name, " uses unsupported format version ").concat(
                number.as_str(),
            ),
        );
    }
    validate_name("check bundle", name)?;
    validate_version("check bundle", bundle.check_bundle.version.as_str())?;
    let prefix = concat(name, "/");
    proof {
        reveal_strlit("/");
    }
    assert(prefix@ =~= bundle.check_bundle.name@.push('/'));
    let n = bundle.checks.len();
    for k in 0..n
        invariant
            n == bundle.checks@.len(),
            prefix@ == bundle.check_bundle.name@.push('/'),
            bundle.format_version == 1,
            name_problem("check bundle"@, bundle.check_bundle.name@) is None,
            version_problem("check bundle"@, bundle.check_bundle.version@) is None,
            forall|j: int| 0 <= j < k ==> check_problem(*bundle, j) is None,
    {
        if let Some(e) = check_error(bundle, k, prefix.as_str()) {
            proof {
                lemma_first_check_problem(*bundle, 0, k as int);
            }
            return Err(e);
        }
    }
    proof {
        lemma_first_check_problem(*bundle, 0, n as int);
    }
    Ok(())
}

/// The bundles a resolved manifest stands for: the recorded list, or the
/// manifest's own identity while none is recorded.
pub open spec fn included_list(b: CheckBundleManifest) -> Seq<CheckBundleIdentity> {
    included_parts(b.check_bundle, b.resolved_check_bundles@)
}

/// A bundle named `parent` is among those combined so far: the base
/// bundle named `base_name` or one of the `included` identities.
pub open spec fn extends_available_parts(
    base_name: Seq<char>,
    included: Seq<CheckBundleIdentity>,
    parent: Seq<char>,
) -> bool {
    ||| parent == base_name
    ||| exists|i: int| 0 <= i < included.len() && #[trigger] included[i].name@ == parent
}

/// A bundle named `parent` is part of `resolved`.
pub open spec fn extends_available(resolved: CheckBundleManifest, parent: Seq<char>) -> bool {
    extends_available_parts(resolved.check_bundle.name@, resolved.resolved_check_bundles@, parent)
}

/// The Check at index `k` of `add` has an identifier already taken by
/// one of `checks` or by an earlier Check of `add`.
pub open spec fn id_conflict_parts(checks: Seq<CheckDefinition>, add: CheckBundleManifest, k: int) -> bool {
    let id = add.checks@[k].id@;
    ||| exists|i: int| 0 <= i < checks.len() && #[trigger] checks[i].id@ == id
    ||| exists|j: int| 0 <= j < k && #[trigger] add.checks@[j].id@ == id
}

/// The error for the first Check of `add` from index `k` on whose
/// identifier is already taken.
pub open spec fn first_conflict_parts(checks: Seq<CheckDefinition>, add: CheckBundleManifest, k: int) -> Option<Seq<char>>
    decreases add.checks@.len() - k,
{
    if k < 0 || k >= add.checks@.len() {
        None
    } else if id_conflict_parts(checks, add, k) {
        Some("check "@ + add.checks@[k].id@ + " conflicts with a Check from an included bundle"@)
    } else {
        first_conflict_parts(checks, add, k + 1)
    }
}

/// The error `resolve` reports when adding `add` to a combination whose
/// base bundle is named `base_name`, that records `included`, and that
/// holds `checks`.
pub open spec fn resolve_problem_parts(
    base_name: Seq<char>,
    included: Seq<CheckBundleIdentity>,
    checks: Seq<CheckDefinition>,
    add: CheckBundleManifest,
) -> Option<Seq<char>> {
    let name = add.check_bundle.name@;
    if bundle_problem(add) is Some {
        bundle_problem(add)
    } else {
        match add.extends {
            None => Some("check bundle "@ + name + " must declare extends"@),
            Some(parent) => {
                if name == base_name {
                    Some(
                        "check bundle "@ + name
                            + " conflicts with an included check bundle identity"@,
                    )
                } else if !extends_available_parts(base_name, included, parent@) {
                    Some(
                        "check bundle "@ + name + " extends unavailable check bundle "@
                            + debug_text(parent@),
                    )
                } else {
                    first_conflict_parts(checks, add, 0)
                }
            },
        }
    }
}

/// The error `resolve` reports when adding `add` to `resolved`, if any.
pub open spec fn resolve_problem(resolved: CheckBundleManifest, add: CheckBundleManifest) -> Option<Seq<char>> {
    resolve_problem_parts(
        resolved.check_bundle.name@,
        resolved.resolved_check_bundles@,
        resolved.checks@,
        add,
    )
}

/// The bundles a combination stands for: the recorded list, or the base
/// identity while none is recorded.
pub open spec fn included_parts(base: CheckBundleIdentity, recorded: Seq<CheckBundleIdentity>) -> Seq<CheckBundleIdentity> {
    if recorded.len() == 0 {
        seq![base]
    } else {
        recorded
    }
}

/// `out` is `resolved` with the Checks of `add` appended and the identity
/// of `add` recorded after the bundles already included.
pub open spec fn combined(
    out: CheckBundleManifest,
    resolved: CheckBundleManifest,
    add: CheckBundleManifest,
) -> bool {
    &&& out.format_version == resolved.format_version
    &&& out.check_bundle == resolved.check_bundle
    &&& out.extends == resolved.extends
    &&& out.checks@ == resolved.checks@ + add.checks@
    &&& out.resolved_check_bundles@ == included_list(resolved).push(add.check_bundle)
}

/// `r` is the outcome `resolve` promises for `resolved` and `add`.
pub open spec fn resolve_outcome(
    r: Result<CheckBundleManifest, String>,
    resolved: CheckBundleManifest,
    add: CheckBundleManifest,
) -> bool {
    match resolve_problem(resolved, add) {
        Some(m) => r matches Err(e) && e@ == m,
        None => r matches Ok(out) && combined(out, resolved, add),
    }
}

proof fn lemma_first_conflict(checks: Seq<CheckDefinition>, add: CheckBundleManifest, m: int, k: int)
    requires
        0 <= m <= k <= add.checks@.len(),
        forall|j: int| m <= j < k ==> !id_conflict_parts(checks, add, j),
    ensures
        k < add.checks@.len() && id_conflict_parts(checks, add, k) ==> first_conflict_parts(checks, add, m)
            == Some("check "@ + add.checks@[k].id@ + " conflicts with a Check from an included bundle"@),
        k == add.checks@.len() ==> first_conflict_parts(checks, add, m) is None,
    decreases k - m,
{
    if m < k {
        lemma_first_conflict(checks, add, m + 1, k);
    }
}

/// Whether a bundle named `parent` is part of `resolved`.
fn is_available(resolved: &CheckBundleManifest, parent: &str) -> (r: bool)
    ensures
        r == extends_available(*resolved, parent@),
{
    if str_eq(resolved.check_bundle.name.as_str(), parent) {
        return true;
    }
    for i in 0..resolved.resolved_check_bundles.len()
        invariant
            forall|j: int|
                0 <= j < i ==> resolved.resolved_check_bundles@[j].name@ != parent@,
    {
        if str_eq(resolved.resolved_check_bundles[i].name.as_str(), parent) {
            assert(resolved.resolved_check_bundles@[i as int].name@ == parent@);
            return true;
        }
    }
    false
}

/// Whether the Check at index `k` of `add` has an identifier already taken.
fn has_id_conflict(resolved: &CheckBundleManifest, add: &CheckBundleManifest, k: usize) -> (r: bool)
    requires
        k < add.checks@.len(),
    ensures
        r == id_conflict_parts(resolved.checks@, *add, k as int),
{
    let id = &add.checks[k].id;
    for i in 0..resolved.checks.len()
        invariant
            id@ == add.checks@[k as int].id@,
            forall|j: int| 0 <= j < i ==> resolved.checks@[j].id@ != id@,
    {
        if resolved.checks[i].id == *id {
            assert(resolved.checks@[i as int].id@ == id@);
            return true;
        }
    }
    for j in 0..k
        invariant
            k < add.checks@.len(),
            id@ == add.checks@[k as int].id@,
            forall|i: int| 0 <= i < resolved.checks@.len() ==> resolved.checks@[i].id@ != id@,
            forall|i: int| 0 <= i < j ==> add.checks@[i].id@ != id@,
    {
        if add.checks[j].id == *id {
            assert(add.checks@[j as int].id@ == id@);
            return true;
        }
    }
    false
}

/// Adds the bundle `bundle_to_add` to the already resolved bundle: the
/// added bundle must be valid, extend a bundle already included, have a
/// name of its own, and declare only new Check identifiers.
#[verifier::loop_isolation(false)]
pub fn resolve(resolved_bundle: CheckBundleManifest, bundle_to_add: CheckBundleManifest) -> (r: Result<CheckBundleManifest, String>)
    ensures
        resolve_outcome(r, resolved_bundle, bundle_to_add),
{
    let mut resolved_bundle = resolved_bundle;
    let mut bundle_to_add = bundle_to_add;
    let ghost resolved0 = resolved_bundle;
    let ghost add0 = bundle_to_add;
    validate(&bundle_to_add)?;
    let name = bundle_to_add.check_bundle.name.as_str();
    let parent = match &bundle_to_add.extends {
        Some(parent) => parent.as_str(),
        None => {
            return Err(concat3("check bundle ", name, " must declare extends"));
        },
    };
    if str_eq(name, resolved_bundle.check_bundle.name.as_str()) {
        return Err(
            concat3("check bundle ", name, " conflicts with an included check bundle identity"),
        );
    }
    if !is_available(&resolved_bundle, parent) {
        let quoted = debug_str(parent);
        return Err(
            concat4(
                "check bundle ",
                name,
                " extends unavailable check bundle ",
                quoted.as_str(),
            ),
        );
    }
    let n = bundle_to_add.checks.len();
    for k in 0..n
        invariant
            n == bundle_to_add.checks@.len(),
            resolved_bundle == resolved0,
            bundle_to_add == add0,
            forall|j: int| 0 <= j < k ==> !id_conflict_parts(resolved0.checks@, add0, j),
    {
        if has_id_conflict(&resolved_bundle, &bundle_to_add, k) {
            proof {
                lemma_first_conflict(resolved0.checks@, add0, 0, k as int);
            }
            return Err(
                concat3(
                    "check ",
                    bundle_to_add.checks[k].id.as_str(),
                    " conflicts with a Check from an included bundle",
                ),
            );
        }
    }
    proof {
        lemma_first_conflict(resolved0.checks@, add0, 0, n as int);
    }
    if resolved_bundle.resolved_check_bundles.len() == 0 {
        let own = resolved_bundle.check_bundle.clone();
        resolved_bundle.resolved_check_bundles.push(own);
    }
    assert(resolved_bundle.resolved_check_bundles@ == included_list(resolved0));
    let added = bundle_to_add.check_bundle.clone();
    assert(added == add0.check_bundle);
    resolved_bundle.resolved_check_bundles.push(added);
    resolved_bundle.checks.append(&mut bundle_to_add.checks);
    assert(resolved_bundle.checks@ == resolved0.checks@ + add0.checks@);
    Ok(resolved_bundle)
}

/// The built-in core bundle, from the parse of its manifest: it must be
/// valid, and it records itself as the one bundle included.
pub fn core_bundle(parsed: Result<CheckBundleManifest, String>) -> (r: Result<CheckBundleManifest, String>)
    ensures
        match parsed {
            Err(e) => r matches Err(e2) && e2@ == e@,
            Ok(m) => match bundle_problem(m) {
                Some(p) => r matches Err(e2) && e2@ == p,
                None => r matches Ok(out) && out.format_version == m.format_version
                    && out.check_bundle == m.check_bundle && out.extends == m.extends
                    && out.checks@ == m.checks@ && out.resolved_check_bundles@ == seq![m.check_bundle],
            },
        },
{
    let mut bundle = parsed?;
    validate(&bundle)?;
    let own = bundle.check_bundle.clone();
    bundle.resolved_check_bundles = vec![own];
    Ok(bundle)
}

/// The `checker` table of one Check as a manifest writes it: the value of
/// its `type` key and the names of all its keys, in table order. Only
/// tables whose `type` is a string are described.
#[derive(Debug)]
pub struct CheckerFields {
    pub checker_type: String,
    pub fields: Vec<String>,
}

/// A key that a `checker` table of the given type may hold. Tables of a
/// type that is not known are left to the manifest's own parse.
pub open spec fn checker_field_allowed(t: Seq<char>, f: Seq<char>) -> bool {
    if t == "single-invocation"@ {
        ||| f == "type"@
        ||| f == "failure_message_level"@
        ||| f == "args"@
        ||| f == "env"@
        ||| f == "stdin"@
        ||| f == "timeout_ms"@
        ||| f == "assertions"@
    } else if t == "any-invocation"@ || t == "all-invocations"@ {
        ||| f == "type"@
        ||| f == "failure_message_level"@
        ||| f == "invocations"@
    } else if t == "cli"@ {
        f == "type"@ || f == "command"@
    } else {
        true
    }
}

/// The index of the first key from `i` on that the table may not hold.
pub open spec fn first_unknown_field(t: Seq<char>, fields: Seq<String>, i: int) -> Option<int>
    decreases fields.len() - i,
{
    if i < 0 || i >= fields.len() {
        None
    } else if !checker_field_allowed(t, fields[i]@) {
        Some(i)
    } else {
        first_unknown_field(t, fields, i + 1)
    }
}

/// The error for the first `checker` table from index `k` on that holds
/// a key its type does not allow.
pub open spec fn checker_fields_problem(checkers: Seq<CheckerFields>, source: Seq<char>, k: int) -> Option<Seq<char>>
    decreases checkers.len() - k,
{
    if k < 0 || k >= checkers.len() {
        None
    } else {
        match first_unknown_field(checkers[k].checker_type@, checkers[k].fields@, 0) {
            Some(i) => Some(
                "invalid check bundle "@ + source + ": unknown field `"@
                    + checkers[k].fields@[i]@ + "` in Checker `"@ + checkers[k].checker_type@
                    + "`"@,
            ),
            None => checker_fields_problem(checkers, source, k + 1),
        }
    }
}

fn field_allowed(t: &str, f: &str) -> (r: bool)
    ensures
        r == checker_field_allowed(t@, f@),
{
    if str_eq(t, "single-invocation") {
        str_eq(f, "type") || str_eq(f, "failure_message_level") || str_eq(f, "args") || str_eq(
            f,
            "env",
        ) || str_eq(f, "stdin") || str_eq(f, "timeout_ms") || str_eq(f, "assertions")
    } else if str_eq(t, "any-invocation") || str_eq(t, "all-invocations") {
        str_eq(f, "type") || str_eq(f, "failure_message_level") || str_eq(f, "invocations")
    } else if str_eq(t, "cli") {
        str_eq(f, "type") || str_eq(f, "command")
    } else {
        true
    }
}

proof fn lemma_first_unknown_field(t: Seq<char>, fields: Seq<String>, m: int, i: int)
    requires
        0 <= m <= i <= fields.len(),
        forall|j: int| m <= j < i ==> checker_field_allowed(t, #[trigger] fields[j]@),
    ensures
        i < fields.len() && !checker_field_allowed(t, fields[i]@) ==> first_unknown_field(
            t,
            fields,
            m,
        ) == Some(i),
        i == fields.len() ==> first_unknown_field(t, fields, m) is None,
    decreases i - m,
{
    if m < i {
        lemma_first_unknown_field(t, fields, m + 1, i);
    }
}

proof fn lemma_checker_fields_problem(checkers: Seq<CheckerFields>, source: Seq<char>, m: int, k: int)
    requires
        0 <= m <= k <= checkers.len(),
        forall|j: int|
            m <= j < k ==> first_unknown_field(
                #[trigger] checkers[j].checker_type@,
                checkers[j].fields@,
                0,
            ) is None,
    ensures
        checker_fields_problem(checkers, source, m) == checker_fields_problem(checkers, source, k),
    decreases k - m,
{
    if m < k {
        lemma_checker_fields_problem(checkers, source, m + 1, k);
    }
}

/// Rejects a `checker` table that holds a key its type does not allow,
/// naming the first such key of the first such table.
pub fn reject_unknown_checker_fields(checkers: &Vec<CheckerFields>, source: &str) -> (r: Result<(), String>)
    ensures
        outcome_is(r, checker_fields_problem(checkers@, source@, 0)),
{
    let n = checkers.len();
    for k in 0..n
        invariant
            n == checkers@.len(),
            forall|j: int|
                0 <= j < k ==> first_unknown_field(
                    #[trigger] checkers@[j].checker_type@,
                    checkers@[j].fields@,
                    0,
                ) is None,
    {
        let checker = &checkers[k];
        let t = checker.checker_type.as_str();
        for i in 0..checker.fields.len()
            invariant
                k < n,
                n == checkers@.len(),
                checker == checkers@[k as int],
                t@ == checker.checker_type@,
                forall|j: int| 0 <= j < k ==> first_unknown_field(
                    #[trigger] checkers@[j].checker_type@,
                    checkers@[j].fields@,
                    0,
                ) is None,
                forall|j: int| 0 <= j < i ==> checker_field_allowed(t@, #[trigger] checker.fields@[j]@),
        {
            let field = checker.fields[i].as_str();
            if !field_allowed(t, field) {
                proof {
                    lemma_first_unknown_field(t@, checker.fields@, 0, i as int);
                    lemma_checker_fields_problem(checkers@, source@, 0, k as int);
                }
                let mut message = concat3("invalid check bundle ", source, ": unknown field `");
                message.append(field);
                message.append("` in Checker `");
                message.append(t);
                message.append("`");
                return Err(message);
            }
        }
        proof {
            lemma_first_unknown_field(t@, checker.fields@, 0, checker.fields@.len() as int);
        }
    }
    proof {
        lemma_checker_fields_problem(checkers@, source@, 0, n as int);
    }
    Ok(())
}

} // verus!
