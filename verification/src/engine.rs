//! The check engine: which bundle owns a Check, how a run of the target
//! meets its assertions, how built-in and Checker CLI outcomes become
//! Check Records, and how the Report is assembled.
use vstd::prelude::*;
use vstd::string::*;
use vstd::utf8::encode_utf8;

use crate::assessment::{self, assessed_result, assessment_problem, clone_optional_text};
use crate::check_bundle::{
    Assertion, CheckBundleManifest, CheckDefinition, CheckerDefinition, InvocationCheck,
};
use crate::model::{
    clone_json, clone_messages, result_problem, Assessment, AssessmentRequest, CheckBundleIdentity,
    CheckError, CheckMessage, CheckMessageLevel, CheckOutcome, CheckRecord, CheckRequest,
    CheckResult, CheckerResponse, EvaluationMethod, InvocationSpec, Observation, Report,
    ReportSummary, Score, SkillRef, counts_fit, summarizes, summary_counts, PERFECT_SCORE_BITS, THREE_SCORE_BITS, TWO_SCORE_BITS, ZERO_SCORE_BITS,
};
use crate::text::{
    char_is_digit, chars_of, concat, concat3, contains_str, contains_text, debug_str, debug_text,
    decimal, i64_text, is_blank, is_blank_text, is_digit, join_texts, lowercase, push_char, signed_decimal,
    str_eq, string_of, text_lt, to_lowercase, u64_text, hex_string, hex_text, replace_all, replaced, texts,
};

verus! {

broadcast use vstd::string::group_string_axioms;

/// The text before the first `/` of a Check identifier: the name of the
/// bundle that owns it, if there is a `/`.
pub open spec fn bundle_prefix(check: Seq<char>) -> Option<Seq<char>> {
    if exists|i: int| 0 <= i < check.len() && check[i] == '/' {
        let i = choose|i: int|
            0 <= i < check.len() && check[i] == '/' && forall|j: int| 0 <= j < i ==> check[j] != '/';
        Some(check.take(i))
    } else {
        None
    }
}

/// What `owner_identity` gives: the identity of the bundle that owns the
/// Check, or the error it reports.
pub open spec fn owner_outcome(bundle: CheckBundleManifest, check: Seq<char>) -> Result<CheckBundleIdentity, Seq<char>> {
    match bundle_prefix(check) {
        None => Err("Check "@ + check + " has no bundle prefix"@),
        Some(name) => {
            if bundle.check_bundle.name@ == name {
                Ok(bundle.check_bundle)
            } else if exists|i: int|
                0 <= i < bundle.resolved_check_bundles@.len()
                    && #[trigger] bundle.resolved_check_bundles@[i].name@ == name {
                let i = choose|i: int|
                    0 <= i < bundle.resolved_check_bundles@.len()
                        && bundle.resolved_check_bundles@[i].name@ == name && forall|j: int|
                        0 <= j < i ==> #[trigger] bundle.resolved_check_bundles@[j].name@ != name;
                Ok(bundle.resolved_check_bundles@[i])
            } else {
                Err("Check "@ + check + " belongs to unknown check bundle "@ + name)
            }
        },
    }
}

/// The identity of the bundle that owns `check`: the bundle whose name
/// comes before the first `/` of the identifier.
#[verifier::loop_isolation(false)]
pub fn owner_identity(bundle: &CheckBundleManifest, check: &str) -> (r: Result<CheckBundleIdentity, String>)
    ensures
        match owner_outcome(*bundle, check@) {
            Ok(id) => r matches Ok(got) && got == id,
            Err(m) => r matches Err(e) && e@ == m,
        },
{
    let cs = chars_of(check);
    let mut cut: usize = 0;
    while cut < cs.len() && cs[cut] != '/'
        invariant
            cut <= cs@.len(),
            cs@ == check@,
            forall|j: int| 0 <= j < cut ==> cs@[j] != '/',
        decreases cs@.len() - cut,
    {
        cut = cut + 1;
    }
    if cut == cs.len() {
        return Err(concat3("Check ", check, " has no bundle prefix"));
    }
    proof {
        assert(0 <= cut < check@.len() && check@[cut as int] == '/' && forall|j: int| 0 <= j < cut ==> check@[j] != '/');
        let i = choose|i: int|
            0 <= i < check@.len() && check@[i] == '/' && forall|j: int| 0 <= j < i ==> check@[j] != '/';
        if i < cut {
        } else if i > cut {
        }
        assert(i == cut);
    }
    let mut prefix: Vec<char> = Vec::new();
    for i in 0..cut
        invariant
            cut < cs@.len(),
            prefix@ == cs@.take(i as int),
    {
        prefix.push(cs[i]);
        assert(cs@.take(i + 1) =~= cs@.take(i as int).push(cs@[i as int]));
    }
    let name = string_of(&prefix);
    assert(name@ == check@.take(cut as int));
    if str_eq(bundle.check_bundle.name.as_str(), name.as_str()) {
        return Ok(bundle.check_bundle.clone());
    }
    for i in 0..bundle.resolved_check_bundles.len()
        invariant
            forall|j: int| 0 <= j < i ==> #[trigger] bundle.resolved_check_bundles@[j].name@ != name@,
    {
        if str_eq(bundle.resolved_check_bundles[i].name.as_str(), name.as_str()) {
            proof {
                assert(bundle.resolved_check_bundles@[i as int].name@ == name@);
                assert(0 <= i < bundle.resolved_check_bundles@.len()
                    && bundle.resolved_check_bundles@[i as int].name@ == name@ && forall|j: int|
                    0 <= j < i ==> #[trigger] bundle.resolved_check_bundles@[j].name@ != name@);
                let k = choose|k: int|
                    0 <= k < bundle.resolved_check_bundles@.len()
                        && bundle.resolved_check_bundles@[k].name@ == name@ && forall|j: int|
                        0 <= j < k ==> #[trigger] bundle.resolved_check_bundles@[j].name@ != name@;
                assert(bundle.resolved_check_bundles@[i as int].name@ == name@);
                if k < i {
                } else if k > i {
                }
            }
            return Ok(bundle.resolved_check_bundles[i].clone());
        }
    }
    Err(concat3("Check ", check, " belongs to unknown check bundle ").concat(name.as_str()))
}

/// The first Assessment from index `i` on whose Check an earlier
/// Assessment names too.
pub open spec fn first_repeated_check(assessments: Seq<Assessment>, i: int) -> Option<int>
    decreases assessments.len() - i,
{
    if i < 0 || i >= assessments.len() {
        None
    } else if exists|j: int| 0 <= j < i && #[trigger] assessments[j].check@ == assessments[i].check@ {
        Some(i)
    } else {
        first_repeated_check(assessments, i + 1)
    }
}

proof fn lemma_first_repeated_check(a: Seq<Assessment>, m: int, i: int)
    requires
        0 <= m <= i <= a.len(),
        forall|k: int, j: int| m <= k < i && 0 <= j < k ==> #[trigger] a[j].check@ != #[trigger] a[k].check@,
    ensures
        i < a.len() && (exists|j: int| 0 <= j < i && #[trigger] a[j].check@ == a[i].check@) ==> first_repeated_check(a, m) == Some(i),
        i == a.len() ==> first_repeated_check(a, m) is None,
    decreases i - m,
{
    if m < i {
        lemma_first_repeated_check(a, m + 1, i);
    }
}

/// Rejects more than one Assessment for the same Check, naming the first
/// Check supplied twice.
pub fn check_supplied_assessments(assessments: &Vec<Assessment>) -> (r: Result<(), String>)
    ensures
        match first_repeated_check(assessments@, 0) {
            None => r is Ok,
            Some(i) => r matches Err(e) && e@ == "more than one Assessment was supplied for Check "@
                + assessments@[i].check@,
        },
{
    let n = assessments.len();
    for i in 0..n
        invariant
            n == assessments@.len(),
            forall|k: int, j: int|
                0 <= k < i && 0 <= j < k ==> #[trigger] assessments@[j].check@ != #[trigger] assessments@[k].check@,
    {
        for j in 0..i
            invariant
                i < n,
                n == assessments@.len(),
                forall|k: int, l: int|
                    0 <= k < i && 0 <= l < k ==> #[trigger] assessments@[l].check@ != #[trigger] assessments@[k].check@,
                forall|l: int| 0 <= l < j ==> #[trigger] assessments@[l].check@ != assessments@[i as int].check@,
        {
            if assessments[j].check == assessments[i].check {
                proof {
                    assert(assessments@[j as int].check@ == assessments@[i as int].check@);
                    lemma_first_repeated_check(assessments@, 0, i as int);
                }
                return Err(concat("more than one Assessment was supplied for Check ", assessments[i].check.as_str()));
            }
        }
    }
    proof {
        lemma_first_repeated_check(assessments@, 0, n as int);
    }
    Ok(())
}

/// The Assessment supplied for the Check `check`, if any: the first one
/// that names it.
pub fn supplied_assessment(assessments: &Vec<Assessment>, check: &str) -> (r: Option<usize>)
    ensures
        match r {
            Some(i) => i < assessments@.len() && assessments@[i as int].check@ == check@
                && forall|j: int| 0 <= j < i ==> #[trigger] assessments@[j].check@ != check@,
            None => forall|j: int| 0 <= j < assessments@.len() ==> #[trigger] assessments@[j].check@ != check@,
        },
{
    for i in 0..assessments.len()
        invariant
            forall|j: int| 0 <= j < i ==> #[trigger] assessments@[j].check@ != check@,
    {
        if str_eq(assessments[i].check.as_str(), check) {
            return Some(i);
        }
    }
    None
}

/// A version number at `i`: a digit, a `.`, a digit, with no digit just
/// before.
pub open spec fn version_at(t: Seq<char>, i: int) -> bool {
    &&& 0 <= i
    &&& i + 2 < t.len()
    &&& is_digit(t[i])
    &&& t[i + 1] == '.'
    &&& is_digit(t[i + 2])
    &&& (i == 0 || !is_digit(t[i - 1]))
}

/// The text holds a dotted version number such as `1.2`. (Digits and `.`
/// are single bytes in UTF-8, so this reads the same over characters as
/// over bytes.)
pub open spec fn has_version_number(t: Seq<char>) -> bool {
    exists|i: int| version_at(t, i)
}

/// Whether `text` holds a dotted version number.
pub fn contains_version_number(text: &str) -> (r: bool)
    ensures
        r == has_version_number(text@),
{
    let t = chars_of(text);
    let n = t.len();
    if n < 3 {
        return false;
    }
    for i in 0..n - 2
        invariant
            n == t@.len(),
            n >= 3,
            t@ == text@,
            forall|j: int| 0 <= j < i ==> !version_at(text@, j),
    {
        if char_is_digit(t[i]) && t[i + 1] == '.' && char_is_digit(t[i + 2]) && (i == 0
            || !char_is_digit(t[i - 1])) {
            assert(version_at(text@, i as int));
            return true;
        }
    }
    assert forall|j: int| !version_at(text@, j) by {
        if 0 <= j < n - 2 {
        }
    }
    false
}

/// The binary64 number with this bit pattern is NaN.
pub open spec fn is_nan_bits(b: u64) -> bool {
    b % 0x8000_0000_0000_0000 > 0x7FF0_0000_0000_0000
}

/// An integer that orders non-NaN binary64 numbers as their values do:
/// the magnitude of the bit pattern, negated when the sign bit is set
/// (so -0.0 and 0.0 meet at 0).
pub open spec fn ordering_key(b: u64) -> int {
    if b >= 0x8000_0000_0000_0000 {
        -((b - 0x8000_0000_0000_0000) as int)
    } else {
        b as int
    }
}

/// The binary64 number with bit pattern `a` is greater than the one with
/// bit pattern `b` (`>` on `f64`: false when either is NaN).
pub open spec fn binary64_gt(a: u64, b: u64) -> bool {
    !is_nan_bits(a) && !is_nan_bits(b) && ordering_key(a) > ordering_key(b)
}

/// `>` on binary64 numbers given by their bit patterns.
pub fn bits_gt(a: u64, b: u64) -> (r: bool)
    ensures
        r == binary64_gt(a, b),
{
    let sign: u64 = 0x8000_0000_0000_0000;
    let nan_a = a % sign > 0x7FF0_0000_0000_0000;
    let nan_b = b % sign > 0x7FF0_0000_0000_0000;
    if nan_a || nan_b {
        return false;
    }
    let neg_a = a >= sign;
    let neg_b = b >= sign;
    if !neg_a && !neg_b {
        a > b
    } else if neg_a && neg_b {
        a - sign < b - sign
    } else if !neg_a && neg_b {
        !(a == 0 && b == sign)
    } else {
        false
    }
}

/// The text an assertion reads across both streams: standard output, a
/// newline, then standard error, in lower case.
pub open spec fn combined_output(o: Observation) -> Seq<char> {
    lowercase(o.stdout@ + "\n"@ + o.stderr@)
}

/// Some value, in lower case, occurs in `hay`.
pub open spec fn contains_any(hay: Seq<char>, values: Seq<String>) -> bool {
    exists|i: int| 0 <= i < values.len() && contains_text(hay, lowercase(#[trigger] values[i]@))
}

/// The length in bytes of a text's UTF-8 encoding, as `str::len` gives it.
pub open spec fn byte_len(s: Seq<char>) -> usize {
    encode_utf8(s).len() as usize
}

/// An assertion fails for an observation.
pub open spec fn assertion_fails(a: Assertion, o: Observation) -> bool {
    match a {
        Assertion::ExitCode { value } => o.exit_status != Some(value),
        Assertion::ExitNonZero => o.exit_status matches None || o.exit_status == Some(0i32),
        Assertion::NotTimedOut => o.timed_out,
        Assertion::StdoutNotEmpty => is_blank_text(o.stdout@),
        Assertion::StderrNotEmpty => is_blank_text(o.stderr@),
        Assertion::StdoutAtLeastStderr => is_blank_text(o.stdout@)
            || byte_len(o.stdout@) < byte_len(o.stderr@),
        Assertion::OutputContainsAny { values } => !contains_any(combined_output(o), values@),
        Assertion::StdoutContainsAny { values } => !contains_any(lowercase(o.stdout@), values@),
        Assertion::NoAnsi => o.has_ansi,
        Assertion::DurationAtMost { milliseconds } => o.timed_out || binary64_gt(
            o.duration_ms,
            milliseconds,
        ),
        Assertion::VersionNumber => !has_version_number(combined_output(o)),
    }
}

/// Whether some value, in lower case, occurs in `hay`.
fn contains_any_value(hay: &str, values: &Vec<String>) -> (r: bool)
    ensures
        r == contains_any(hay@, values@),
{
    for i in 0..values.len()
        invariant
            forall|j: int| 0 <= j < i ==> !contains_text(hay@, lowercase(#[trigger] values@[j]@)),
    {
        let value = to_lowercase(values[i].as_str());
        if contains_str(hay, value.as_str()) {
            return true;
        }
    }
    false
}

/// Whether the assertion fails for the observed run.
pub fn assertion_failed(assertion: &Assertion, observation: &Observation) -> (r: bool)
    ensures
        r == assertion_fails(*assertion, *observation),
{
    let mut both = String::from_str(observation.stdout.as_str());
    both.append("\n");
    both.append(observation.stderr.as_str());
    let combined = to_lowercase(both.as_str());
    proof {
        reveal_strlit("\n");
    }
    assert(combined@ == combined_output(*observation));
    match assertion {
        Assertion::ExitCode { value } => match observation.exit_status {
            Some(status) => status != *value,
            None => true,
        },
        Assertion::ExitNonZero => match observation.exit_status {
            Some(status) => status == 0,
            None => true,
        },
        Assertion::NotTimedOut => observation.timed_out,
        Assertion::StdoutNotEmpty => is_blank(observation.stdout.as_str()),
        Assertion::StderrNotEmpty => is_blank(observation.stderr.as_str()),
        Assertion::StdoutAtLeastStderr => {
            is_blank(observation.stdout.as_str())
                || observation.stdout.as_str().len() < observation.stderr.as_str().len()
        },
        Assertion::OutputContainsAny { values } => !contains_any_value(combined.as_str(), values),
        Assertion::StdoutContainsAny { values } => {
            let stdout = to_lowercase(observation.stdout.as_str());
            !contains_any_value(stdout.as_str(), values)
        },
        Assertion::NoAnsi => observation.has_ansi,
        Assertion::DurationAtMost { milliseconds } => observation.timed_out || bits_gt(
            observation.duration_ms,
            *milliseconds,
        ),
        Assertion::VersionNumber => !contains_version_number(combined.as_str()),
    }
}

/// Which assertions of an invocation fail for its observed run, in order.
pub fn failed_assertions(check: &InvocationCheck, observation: &Observation) -> (r: Vec<usize>)
    ensures
        forall|k: int| 0 <= k < r@.len() ==> #[trigger] r@[k] < check.assertions@.len(),
        forall|k: int, l: int| 0 <= k < l < r@.len() ==> r@[k] < r@[l],
        forall|i: int|
            0 <= i < check.assertions@.len() ==> (assertion_fails(
                #[trigger] check.assertions@[i],
                *observation,
            ) <==> exists|k: int| 0 <= k < r@.len() && r@[k] == i),
{
    let mut r: Vec<usize> = Vec::new();
    let n = check.assertions.len();
    for i in 0..n
        invariant
            n == check.assertions@.len(),
            forall|k: int| 0 <= k < r@.len() ==> #[trigger] r@[k] < i,
            forall|k: int, l: int| 0 <= k < l < r@.len() ==> r@[k] < r@[l],
            forall|j: int|
                0 <= j < i ==> (assertion_fails(#[trigger] check.assertions@[j], *observation)
                    <==> exists|k: int| 0 <= k < r@.len() && r@[k] == j),
    {
        if assertion_failed(&check.assertions[i], observation) {
            let ghost before = r@;
            r.push(i);
            assert forall|j: int|
                0 <= j < i + 1 implies (assertion_fails(#[trigger] check.assertions@[j], *observation)
                <==> exists|k: int| 0 <= k < r@.len() && r@[k] == j) by {
                if j < i {
                    if exists|k: int| 0 <= k < before.len() && before[k] == j {
                        let k = choose|k: int| 0 <= k < before.len() && before[k] == j;
                        assert(r@[k] == j);
                    }
                    if exists|k: int| 0 <= k < r@.len() && r@[k] == j {
                        let k = choose|k: int| 0 <= k < r@.len() && r@[k] == j;
                        assert(k < before.len());
                    }
                } else {
                    assert(r@[r@.len() - 1] == j);
                }
            }
        }
    }
    r
}

/// The Score a failed built-in Check receives for the level of its
/// failure message: 0.0 for Error, 2.0 for Warning, 3.0 for Info.
pub open spec fn level_failed_bits(level: CheckMessageLevel) -> u64 {
    match level {
        CheckMessageLevel::Error => ZERO_SCORE_BITS,
        CheckMessageLevel::Warning => TWO_SCORE_BITS,
        CheckMessageLevel::Info => THREE_SCORE_BITS,
    }
}

/// The Score a failed built-in Check receives for the level of its
/// failure message.
pub fn level_failed_score(level: CheckMessageLevel) -> (r: Score)
    ensures
        r@ == level_failed_bits(level),
{
    match level {
        CheckMessageLevel::Error => crate::model::Severity::Error.failed_score(),
        CheckMessageLevel::Warning => crate::model::Severity::Warn.failed_score(),
        CheckMessageLevel::Info => crate::model::Severity::Info.failed_score(),
    }
}

/// The error for a built-in mechanistic Check that cannot run, if any.
pub open spec fn mechanistic_problem(c: CheckDefinition) -> Option<Seq<char>> {
    match c.checker {
        None => Some("mechanistic Check "@ + c.id@ + " has no checker"@),
        Some(CheckerDefinition::Cli { .. }) => Some(
            "Checker CLI "@ + c.id@ + " was sent to the built-in checker path"@,
        ),
        _ => None,
    }
}

/// The number of invocations a built-in mechanistic Check runs.
pub open spec fn invocation_count(c: CheckDefinition) -> int {
    match c.checker {
        Some(CheckerDefinition::SingleInvocation { .. }) => 1,
        Some(CheckerDefinition::AnyInvocation { invocations, .. }) => invocations@.len() as int,
        Some(CheckerDefinition::AllInvocations { invocations, .. }) => invocations@.len() as int,
        _ => 0,
    }
}

/// The invocation at index `i` of a built-in mechanistic Check.
pub open spec fn invocation_of(c: CheckDefinition, i: int) -> InvocationCheck {
    match c.checker {
        Some(CheckerDefinition::SingleInvocation { invocation, .. }) => invocation,
        Some(CheckerDefinition::AnyInvocation { invocations, .. }) => invocations@[i],
        Some(CheckerDefinition::AllInvocations { invocations, .. }) => invocations@[i],
        _ => arbitrary(),
    }
}

/// How many invocations a built-in mechanistic Check runs, or why it
/// cannot run.
pub fn mechanistic_plan(check: &CheckDefinition) -> (r: Result<usize, String>)
    ensures
        match mechanistic_problem(*check) {
            Some(m) => r matches Err(e) && e@ == m,
            None => r matches Ok(n) && n == invocation_count(*check),
        },
{
    match &check.checker {
        None => Err(concat3("mechanistic Check ", check.id.as_str(), " has no checker")),
        Some(CheckerDefinition::Cli { .. }) => Err(
            concat3("Checker CLI ", check.id.as_str(), " was sent to the built-in checker path"),
        ),
        Some(CheckerDefinition::SingleInvocation { .. }) => Ok(1),
        Some(CheckerDefinition::AnyInvocation { invocations, .. }) => Ok(invocations.len()),
        Some(CheckerDefinition::AllInvocations { invocations, .. }) => Ok(invocations.len()),
    }
}

/// The invocation at index `i` of a built-in mechanistic Check.
pub fn invocation_at(check: &CheckDefinition, i: usize) -> (r: &InvocationCheck)
    requires
        mechanistic_problem(*check) is None,
        i < invocation_count(*check),
    ensures
        *r == invocation_of(*check, i as int),
{
    match &check.checker {
        Some(CheckerDefinition::SingleInvocation { invocation, .. }) => invocation,
        Some(CheckerDefinition::AnyInvocation { invocations, .. }) => &invocations[i],
        Some(CheckerDefinition::AllInvocations { invocations, .. }) => &invocations[i],
        _ => unreached(),
    }
}

/// The failure messages of all invocations, in order.
pub open spec fn flat_failures(fs: Seq<Vec<String>>) -> Seq<Seq<char>>
    decreases fs.len(),
{
    if fs.len() == 0 {
        Seq::empty()
    } else {
        flat_failures(fs.drop_last()) + texts(fs.last()@)
    }
}

/// A built-in mechanistic Check passes: some invocation met all its
/// assertions for `any-invocation`, every invocation did otherwise.
pub open spec fn mechanistic_passed(c: CheckDefinition, fs: Seq<Vec<String>>) -> bool {
    match c.checker {
        Some(CheckerDefinition::AnyInvocation { .. }) => exists|i: int|
            0 <= i < fs.len() && (#[trigger] fs[i])@.len() == 0,
        _ => forall|i: int| 0 <= i < fs.len() ==> (#[trigger] fs[i])@.len() == 0,
    }
}

/// The level a built-in Check gives its failure message.
pub open spec fn failure_level(c: CheckDefinition) -> CheckMessageLevel {
    match c.checker {
        Some(CheckerDefinition::SingleInvocation { failure_message_level, .. }) => failure_message_level,
        Some(CheckerDefinition::AnyInvocation { failure_message_level, .. }) => failure_message_level,
        Some(CheckerDefinition::AllInvocations { failure_message_level, .. }) => failure_message_level,
        _ => arbitrary(),
    }
}

/// The record names the Check, its title and the evaluation method.
pub open spec fn record_names(rec: CheckRecord, c: CheckDefinition, method: EvaluationMethod) -> bool {
    rec.check@ == c.id@ && rec.title@ == c.title@ && rec.method == method
}

/// The outcome is a Check Result of Score 4.0 with no messages.
pub open spec fn is_perfect_result(o: CheckOutcome) -> bool {
    o matches CheckOutcome::Result { result } && result.score@ == PERFECT_SCORE_BITS
        && result.messages@.len() == 0 && result.assessment is None
}

/// The outcome is a Check Result with the given Score bits and a single
/// message of `level` whose text is `text` and whose evidence is `evidence`.
pub open spec fn is_failed_result(
    o: CheckOutcome,
    bits: u64,
    level: CheckMessageLevel,
    text: Seq<char>,
    evidence: serde_json::Value,
) -> bool {
    o matches CheckOutcome::Result { result } && result.score@ == bits && result.messages@.len() == 1
        && result.messages@[0].level == level && result.messages@[0].message@ == text
        && result.messages@[0].evidence == evidence && result.assessment is None
}

/// Scores a built-in mechanistic Check from the assertion failures of each
/// of its invocations (`failures[i]` for invocation `i`): 4.0 when it
/// passes, else the Score for its failure level with one message that
/// joins the failures with `; `.
pub fn built_in_mechanistic(
    check: &CheckDefinition,
    failures: Vec<Vec<String>>,
    evidence: serde_json::Value,
) -> (r: Result<CheckRecord, String>)
    requires
        mechanistic_problem(*check) is None ==> failures@.len() == invocation_count(*check),
    ensures
        match mechanistic_problem(*check) {
            Some(m) => r matches Err(e) && e@ == m,
            None => if mechanistic_passed(*check, failures@) {
                r matches Ok(rec) && record_names(rec, *check, EvaluationMethod::Mechanistic)
                    && is_perfect_result(rec.outcome)
            } else if is_blank_text(join_texts(flat_failures(failures@), "; "@)) {
                r matches Err(e) && e@ == crate::model::below_perfect_needs_message()
            } else {
                r matches Ok(rec) && record_names(rec, *check, EvaluationMethod::Mechanistic)
                    && is_failed_result(
                    rec.outcome,
                    level_failed_bits(failure_level(*check)),
                    failure_level(*check),
                    join_texts(flat_failures(failures@), "; "@),
                    evidence,
                )
            },
        },
{
    let _count = mechanistic_plan(check)?;
    let (level, any) = match &check.checker {
        Some(CheckerDefinition::SingleInvocation { failure_message_level, .. }) => (
            *failure_message_level,
            false,
        ),
        Some(CheckerDefinition::AnyInvocation { failure_message_level, .. }) => (
            *failure_message_level,
            true,
        ),
        Some(CheckerDefinition::AllInvocations { failure_message_level, .. }) => (
            *failure_message_level,
            false,
        ),
        _ => unreached(),
    };
    let mut all_empty = true;
    let mut some_empty = false;
    let mut flat: Vec<String> = Vec::new();
    for i in 0..failures.len()
        invariant
            all_empty == forall|j: int| 0 <= j < i ==> (#[trigger] failures@[j])@.len() == 0,
            some_empty == exists|j: int| 0 <= j < i && (#[trigger] failures@[j])@.len() == 0,
            texts(flat@) == flat_failures(failures@.take(i as int)),
    {
        assert(failures@.take(i + 1).drop_last() =~= failures@.take(i as int));
        let list = &failures[i];
        if list.len() == 0 {
            some_empty = true;
        } else {
            all_empty = false;
        }
        for k in 0..list.len()
            invariant
                texts(flat@) == flat_failures(failures@.take(i as int)) + texts(
                    list@.take(k as int),
                ),
        {
            let ghost before = flat@;
            flat.push(list[k].clone());
            assert(texts(flat@) =~= texts(before).push(list@[k as int]@));
            assert(texts(list@.take(k + 1)) =~= texts(list@.take(k as int)).push(
                list@[k as int]@,
            ));
        }
        assert(list@.take(list@.len() as int) =~= list@);
    }
    assert(failures@.take(failures@.len() as int) =~= failures@);
    let passed = if any {
        some_empty
    } else {
        all_empty
    };
    let record = if passed {
        CheckRecord {
            check: check.id.clone(),
            title: check.title.clone(),
            method: EvaluationMethod::Mechanistic,
            outcome: CheckOutcome::Result {
                result: CheckResult {
                    score: Score::perfect(),
                    messages: Vec::new(),
                    assessment: None,
                },
            },
        }
    } else {
        let text = crate::text::join_strings(&flat, "; ");
        let mut messages: Vec<CheckMessage> = Vec::new();
        messages.push(CheckMessage { level, message: text, evidence });
        let result = CheckResult { score: level_failed_score(level), messages, assessment: None };
        let checked = result.validate();
        if checked.is_err() {
            proof {
                if !is_blank_text(result.messages@[0].message@) {
                    assert(crate::model::has_nonblank_message(result.messages@));
                }
            }
            return Err(
                String::from_str(
                    "a Score below 4.0 requires a Check Message explaining what could improve",
                ),
            );
        }
        proof {
            if is_blank_text(result.messages@[0].message@) {
                assert(crate::model::has_blank_message(result.messages@));
            }
        }
        CheckRecord {
            check: check.id.clone(),
            title: check.title.clone(),
            method: EvaluationMethod::Mechanistic,
            outcome: CheckOutcome::Result { result },
        }
    };
    Ok(record)
}

/// The error for a built-in judgment-based Check that cannot run, if any.
pub open spec fn judgment_problem(c: CheckDefinition) -> Option<Seq<char>> {
    if c.evidence is None {
        Some("judgment-based Check "@ + c.id@ + " has no evidence invocation"@)
    } else if c.skill is None {
        Some("judgment-based Check "@ + c.id@ + " has no Skill"@)
    } else {
        None
    }
}

/// The invocation whose observation a built-in judgment-based Check
/// hands to its assessor, or why the Check cannot run.
pub fn judgment_evidence(check: &CheckDefinition) -> (r: Result<&InvocationSpec, String>)
    ensures
        match judgment_problem(*check) {
            Some(m) => r matches Err(e) && e@ == m,
            None => r matches Ok(spec) && check.evidence == Some(*spec),
        },
{
    let spec = match &check.evidence {
        Some(spec) => spec,
        None => {
            return Err(
                concat3("judgment-based Check ", check.id.as_str(), " has no evidence invocation"),
            );
        },
    };
    if check.skill.is_none() {
        return Err(concat3("judgment-based Check ", check.id.as_str(), " has no Skill"));
    }
    Ok(spec)
}

/// Two Assessments hold the same values.
pub open spec fn same_assessment(r: Assessment, a: Assessment) -> bool {
    &&& r.format_version == a.format_version
    &&& r.request_id == a.request_id
    &&& r.check == a.check
    &&& r.evidence_digest == a.evidence_digest
    &&& r.skill == a.skill
    &&& r.score == a.score
    &&& r.messages@ == a.messages@
    &&& r.explanation == a.explanation
    &&& r.assessor == a.assessor
}

/// A copy of an Assessment.
pub fn clone_assessment(a: &Assessment) -> (r: Assessment)
    ensures
        same_assessment(r, *a),
{
    Assessment {
        format_version: a.format_version,
        request_id: a.request_id.clone(),
        check: a.check.clone(),
        evidence_digest: a.evidence_digest.clone(),
        skill: a.skill.clone(),
        score: a.score,
        messages: clone_messages(&a.messages),
        explanation: a.explanation.clone(),
        assessor: clone_optional_text(&a.assessor),
    }
}

/// The rubric a built-in judgment-based Check asks its assessor to apply.
pub open spec fn judgment_rubric() -> Seq<char> {
    "Apply the bundled Skill to the captured help evidence."@
}

/// The outcome is the Check Result the Assessment gives.
pub open spec fn is_assessed_outcome(o: CheckOutcome, a: Assessment) -> bool {
    o matches CheckOutcome::Result { result } && assessed_result(result, a)
}

/// The outcome awaits an Assessment of `evidence` with this request
/// identifier, evidence digest and Skill, under the built-in rubric.
pub open spec fn is_awaiting_outcome(
    o: CheckOutcome,
    request_id: Seq<char>,
    evidence_digest: Seq<char>,
    skill: SkillRef,
    evidence: serde_json::Value,
) -> bool {
    o matches CheckOutcome::AwaitingAssessment { assessment_request }
        && assessment_request.request_id@ == request_id
        && assessment_request.evidence_digest@ == evidence_digest
        && assessment_request.skill == skill
        && assessment_request.rubric@ == judgment_rubric()
        && assessment_request.evidence == evidence
}

/// Decides a built-in judgment-based Check from its evidence, the digest
/// of that evidence and the request identifier bound to both: a supplied
/// Assessment becomes the Check Result once it matches them; without one
/// the Check awaits an Assessment.
pub fn built_in_judgment(
    check: &CheckDefinition,
    evidence: serde_json::Value,
    evidence_digest: &str,
    request_id: &str,
    supplied: Option<&Assessment>,
) -> (r: Result<CheckRecord, String>)
    ensures
        match judgment_problem(*check) {
            Some(m) => r matches Err(e) && e@ == m,
            None => match supplied {
                Some(a) => match assessment_problem(
                    *a,
                    request_id@,
                    check.id@,
                    check.skill->0,
                    evidence_digest@,
                ) {
                    Some(m) => r matches Err(e) && e@ == m,
                    None => r matches Ok(rec) && record_names(
                        rec,
                        *check,
                        EvaluationMethod::JudgmentBased,
                    ) && is_assessed_outcome(rec.outcome, *a),
                },
                None => r matches Ok(rec) && record_names(rec, *check, EvaluationMethod::JudgmentBased)
                    && is_awaiting_outcome(
                    rec.outcome,
                    request_id@,
                    evidence_digest@,
                    check.skill->0,
                    evidence,
                ),
            },
        },
{
    let _spec = judgment_evidence(check)?;
    let skill = match &check.skill {
        Some(skill) => skill,
        None => unreached(),
    };
    let outcome = match supplied {
        Some(document) => CheckOutcome::Result {
            result: assessment::validate(
                document,
                request_id,
                check.id.as_str(),
                skill,
                evidence_digest,
            )?,
        },
        None => CheckOutcome::AwaitingAssessment {
            assessment_request: AssessmentRequest {
                request_id: String::from_str(request_id),
                evidence_digest: String::from_str(evidence_digest),
                skill: skill.clone(),
                rubric: String::from_str("Apply the bundled Skill to the captured help evidence."),
                evidence,
            },
        },
    };
    Ok(
        CheckRecord {
            check: check.id.clone(),
            title: check.title.clone(),
            method: EvaluationMethod::JudgmentBased,
            outcome,
        },
    )
}

/// The SHA-256 digest of a byte string.
pub uninterp spec fn sha256(bytes: Seq<u8>) -> Seq<u8>;

/// `Sha256::digest` from `sha2`: the contract names the digest, which
/// depends on the bytes alone, and states its length of 32 bytes.
#[verifier::external_body]
fn sha256_digest(bytes: &[u8]) -> (r: Vec<u8>)
    ensures
        r@ == sha256(bytes@),
        r@.len() == 32,
{
    <sha2::Sha256 as sha2::Digest>::digest(bytes).to_vec()
}

/// The digest text of a byte string: `sha256:` and the SHA-256 digest in
/// lower-case hexadecimal.
pub fn digest_bytes(bytes: &[u8]) -> (r: String)
    ensures
        r@ == "sha256:"@ + hex_text(sha256(bytes@)),
{
    let digest = sha256_digest(bytes);
    let hex = hex_string(digest.as_slice());
    concat("sha256:", hex.as_str())
}

/// The command of a Checker CLI with `{bundle}` replaced by the directory
/// of the bundle that declares the Check, or why it cannot run.
pub fn checker_command(check: &CheckDefinition, command: &Vec<String>) -> (r: Result<Vec<String>, String>)
    ensures
        match check.bundle_root {
            None => r matches Err(e) && e@ == "Checker CLI "@ + check.id@ + " has no bundle directory"@,
            Some(root) => r matches Ok(parts) && parts@.len() == command@.len() && forall|i: int|
                0 <= i < parts@.len() ==> (#[trigger] parts@[i])@ == replaced(
                    command@[i]@,
                    "{bundle}"@,
                    root@,
                ),
        },
{
    let root = match &check.bundle_root {
        Some(root) => root,
        None => {
            return Err(concat3("Checker CLI ", check.id.as_str(), " has no bundle directory"));
        },
    };
    proof {
        reveal_strlit("{bundle}");
    }
    let mut parts: Vec<String> = Vec::new();
    for i in 0..command.len()
        invariant
            check.bundle_root == Some(*root),
            parts@.len() == i,
            forall|k: int|
                0 <= k < i ==> (#[trigger] parts@[k])@ == replaced(command@[k]@, "{bundle}"@, root@),
    {
        proof {
            reveal_strlit("{bundle}");
        }
        parts.push(replace_all(command[i].as_str(), "{bundle}", root.as_str()));
    }
    Ok(parts)
}

/// The request sent to a Checker CLI for a Check owned by `owner`.
pub fn checker_request(
    owner: &CheckBundleIdentity,
    check: &CheckDefinition,
    target: &str,
    project_directory: &str,
    request_id: &str,
    supplied: Option<&Assessment>,
) -> (r: CheckRequest)
    ensures
        r.format_version == 1,
        r.request_id@ == request_id@,
        r.check_bundle == *owner,
        r.check@ == check.id@,
        r.target@.len() == 1 && r.target@[0]@ == target@,
        r.project_directory@ == project_directory@,
        match supplied {
            Some(a) => r.assessment matches Some(copy) && same_assessment(copy, *a),
            None => r.assessment is None,
        },
{
    let mut targets: Vec<String> = Vec::new();
    targets.push(String::from_str(target));
    CheckRequest {
        format_version: 1,
        request_id: String::from_str(request_id),
        check_bundle: owner.clone(),
        check: check.id.clone(),
        target: targets,
        project_directory: String::from_str(project_directory),
        assessment: match supplied {
            Some(a) => Some(clone_assessment(a)),
            None => None,
        },
    }
}

/// How a Checker CLI process ended.
#[derive(Clone, Copy, Debug)]
pub struct ProcessStatus {
    pub exit_status: Option<i32>,
    pub timed_out: bool,
}

/// Why a Checker CLI process failed, if it did: it timed out, or it did
/// not exit with status 0.
pub open spec fn process_failure(exit_status: Option<i32>, timed_out: bool) -> Option<Seq<char>> {
    if timed_out {
        Some("Checker CLI timed out"@)
    } else if exit_status != Some(0i32) {
        Some(
            "Checker CLI exited with status "@ + match exit_status {
                Some(status) => signed_decimal(status as int),
                None => "unknown"@,
            },
        )
    } else {
        None
    }
}

/// Why a Checker CLI process failed, if it did.
pub fn process_failure_message(exit_status: Option<i32>, timed_out: bool) -> (r: Option<String>)
    ensures
        match process_failure(exit_status, timed_out) {
            Some(m) => r matches Some(e) && e@ == m,
            None => r is None,
        },
{
    if timed_out {
        return Some(String::from_str("Checker CLI timed out"));
    }
    match exit_status {
        Some(0) => None,
        Some(status) => {
            let number = i64_text(status as i64);
            Some(concat("Checker CLI exited with status ", number.as_str()))
        },
        None => Some(concat("Checker CLI exited with status ", "unknown")),
    }
}

/// A Check Error outcome with this message and no logs.
pub open spec fn is_error_outcome(o: CheckOutcome, message: Seq<char>) -> bool {
    o matches CheckOutcome::Error { error } && error.message@ == message
        && error.checker_logs@.len() == 0 && !error.logs_truncated
}

/// A Check Error with this message and no logs.
pub fn process_error(message: &str) -> (r: CheckError)
    ensures
        r.message@ == message@,
        r.checker_logs@.len() == 0,
        !r.logs_truncated,
{
    CheckError {
        message: String::from_str(message),
        checker_logs: String::new(),
        logs_truncated: false,
    }
}

/// The field of a Checker CLI response that carries the payload of each
/// outcome.
pub open spec fn payload_field(outcome: Seq<char>) -> Option<Seq<char>> {
    if outcome == "result"@ {
        Some("result"@)
    } else if outcome == "error"@ {
        Some("error"@)
    } else if outcome == "awaiting-assessment"@ {
        Some("assessment_request"@)
    } else if outcome == "skipped"@ {
        Some("reason"@)
    } else {
        None
    }
}

/// A field a Checker CLI response may hold beside the given payload field.
pub open spec fn response_field_allowed(field: Seq<char>, payload: Seq<char>) -> bool {
    ||| field == "format_version"@
    ||| field == "request_id"@
    ||| field == "check"@
    ||| field == "method"@
    ||| field == "outcome"@
    ||| field == payload
}

/// The first field from index `i` on that the response may not hold.
pub open spec fn first_unknown_response_field(keys: Seq<String>, payload: Seq<char>, i: int) -> Option<int>
    decreases keys.len() - i,
{
    if i < 0 || i >= keys.len() {
        None
    } else if !response_field_allowed(keys[i]@, payload) {
        Some(i)
    } else {
        first_unknown_response_field(keys, payload, i + 1)
    }
}

/// The error for the shape of a Checker CLI response: it must be one JSON
/// object that names a known outcome (`outcome` is its `outcome` field
/// when that is a string) and holds no other fields than the known ones
/// (`keys`, in the order of the object).
pub open spec fn response_fields_problem(is_object: bool, outcome: Option<Seq<char>>, keys: Seq<String>) -> Option<Seq<char>> {
    if !is_object {
        Some("Checker CLI response must be one JSON object"@)
    } else {
        match outcome {
            None => Some("Checker CLI response must name one outcome"@),
            Some(o) => match payload_field(o) {
                None => Some("Checker CLI response uses unknown outcome "@ + debug_text(o)),
                Some(payload) => match first_unknown_response_field(keys, payload, 0) {
                    Some(i) => Some(
                        "Checker CLI response contains unknown field "@ + debug_text(keys[i]@),
                    ),
                    None => None,
                },
            },
        }
    }
}

proof fn lemma_first_unknown_response_field(keys: Seq<String>, payload: Seq<char>, m: int, i: int)
    requires
        0 <= m <= i <= keys.len(),
        forall|j: int| m <= j < i ==> response_field_allowed(#[trigger] keys[j]@, payload),
    ensures
        i < keys.len() && !response_field_allowed(keys[i]@, payload)
            ==> first_unknown_response_field(keys, payload, m) == Some(i),
        i == keys.len() ==> first_unknown_response_field(keys, payload, m) is None,
    decreases i - m,
{
    if m < i {
        lemma_first_unknown_response_field(keys, payload, m + 1, i);
    }
}

/// Checks the shape of a Checker CLI response before its fields are read.
#[verifier::loop_isolation(false)]
pub fn check_response_fields(is_object: bool, outcome: Option<&str>, keys: &Vec<String>) -> (r: Result<(), String>)
    ensures
        match response_fields_problem(
            is_object,
            match outcome {
                Some(o) => Some(o@),
                None => None,
            },
            keys@,
        ) {
            Some(m) => r matches Err(e) && e@ == m,
            None => r is Ok,
        },
{
    if !is_object {
        return Err(String::from_str("Checker CLI response must be one JSON object"));
    }
    let outcome = match outcome {
        Some(o) => o,
        None => {
            return Err(String::from_str("Checker CLI response must name one outcome"));
        },
    };
    let payload = if str_eq(outcome, "result") {
        "result"
    } else if str_eq(outcome, "error") {
        "error"
    } else if str_eq(outcome, "awaiting-assessment") {
        "assessment_request"
    } else if str_eq(outcome, "skipped") {
        "reason"
    } else {
        let quoted = debug_str(outcome);
        return Err(concat("Checker CLI response uses unknown outcome ", quoted.as_str()));
    };
    for i in 0..keys.len()
        invariant
            payload_field(outcome@) == Some(payload@),
            forall|j: int| 0 <= j < i ==> response_field_allowed(#[trigger] keys@[j]@, payload@),
    {
        let field = keys[i].as_str();
        let allowed = str_eq(field, "format_version") || str_eq(field, "request_id") || str_eq(
            field,
            "check",
        ) || str_eq(field, "method") || str_eq(field, "outcome") || str_eq(field, payload);
        if !allowed {
            proof {
                lemma_first_unknown_response_field(keys@, payload@, 0, i as int);
            }
            let quoted = debug_str(field);
            return Err(concat("Checker CLI response contains unknown field ", quoted.as_str()));
        }
    }
    proof {
        lemma_first_unknown_response_field(keys@, payload@, 0, keys@.len() as int);
    }
    Ok(())
}

/// The name `{:?}` gives an evaluation method.
pub open spec fn method_debug(m: EvaluationMethod) -> Seq<char> {
    match m {
        EvaluationMethod::Mechanistic => "Mechanistic"@,
        EvaluationMethod::JudgmentBased => "JudgmentBased"@,
    }
}

fn method_name(m: EvaluationMethod) -> (r: &'static str)
    ensures
        r@ == method_debug(m),
{
    match m {
        EvaluationMethod::Mechanistic => "Mechanistic",
        EvaluationMethod::JudgmentBased => "JudgmentBased",
    }
}

/// The error for a Checker CLI response that does not answer the request,
/// if any: format, request, Check and method must match, a Check Result
/// must be consistent, and only a judgment-based Check may await an
/// Assessment, bound to the same request.
pub open spec fn response_problem(resp: CheckerResponse, request_id: Seq<char>, check: CheckDefinition) -> Option<Seq<char>> {
    if resp.format_version != 1 {
        Some(
            "Checker CLI returned unsupported format version "@ + decimal(
                resp.format_version as nat,
            ),
        )
    } else if resp.request_id@ != request_id {
        Some(
            "Checker CLI response belongs to request "@ + resp.request_id@ + ", expected "@
                + request_id,
        )
    } else if resp.check@ != check.id@ {
        Some("Checker CLI response names Check "@ + resp.check@ + ", expected "@ + check.id@)
    } else if resp.method != check.evaluation_method {
        Some(
            "Checker CLI response uses method "@ + method_debug(resp.method) + ", expected "@
                + method_debug(check.evaluation_method),
        )
    } else {
        match resp.outcome {
            CheckOutcome::Result { result } => result_problem(result.score@, result.messages@),
            CheckOutcome::AwaitingAssessment { assessment_request } => {
                if check.evaluation_method != EvaluationMethod::JudgmentBased {
                    Some("a mechanistic Checker CLI cannot return Awaiting Assessment"@)
                } else if assessment_request.request_id@ != request_id {
                    Some("Awaiting Assessment uses the wrong request binding"@)
                } else {
                    None
                }
            },
            _ => None,
        }
    }
}

/// Accepts a Checker CLI response that answers the request, giving its
/// outcome.
pub fn validate_response(response: CheckerResponse, request_id: &str, check: &CheckDefinition) -> (r: Result<CheckOutcome, String>)
    ensures
        match response_problem(response, request_id@, *check) {
            Some(m) => r matches Err(e) && e@ == m,
            None => r matches Ok(o) && o == response.outcome,
        },
{
    if response.format_version != 1 {
        let number = u64_text(response.format_version as u64);
        return Err(concat("Checker CLI returned unsupported format version ", number.as_str()));
    }
    if !str_eq(response.request_id.as_str(), request_id) {
        let mut message = concat3(
            "Checker CLI response belongs to request ",
            response.request_id.as_str(),
            ", expected ",
        );
        message.append(request_id);
        return Err(message);
    }
    if !str_eq(response.check.as_str(), check.id.as_str()) {
        let mut message = concat3(
            "Checker CLI response names Check ",
            response.check.as_str(),
            ", expected ",
        );
        message.append(check.id.as_str());
        return Err(message);
    }
    if response.method != check.evaluation_method {
        let mut message = concat3(
            "Checker CLI response uses method ",
            method_name(response.method),
            ", expected ",
        );
        message.append(method_name(check.evaluation_method));
        return Err(message);
    }
    if let CheckOutcome::Result { result } = &response.outcome {
        result.validate()?;
    }
    if let CheckOutcome::AwaitingAssessment { assessment_request } = &response.outcome {
        if check.evaluation_method != EvaluationMethod::JudgmentBased {
            return Err(
                String::from_str("a mechanistic Checker CLI cannot return Awaiting Assessment"),
            );
        }
        if !str_eq(assessment_request.request_id.as_str(), request_id) {
            return Err(String::from_str("Awaiting Assessment uses the wrong request binding"));
        }
    }
    Ok(response.outcome)
}

/// The Check Record of a Checker CLI run: the outcome of its response when
/// the process started and succeeded and the response answers the
/// request, else a Check Error that says what went wrong. `response` is
/// the read of the process's output, present exactly when the process
/// started and did not fail.
pub fn checker_cli_record(
    check: &CheckDefinition,
    request_id: &str,
    process: Result<ProcessStatus, String>,
    response: Option<Result<CheckerResponse, String>>,
) -> (rec: CheckRecord)
    requires
        response is Some <==> (process matches Ok(p) && process_failure(p.exit_status, p.timed_out) is None),
    ensures
        record_names(rec, *check, check.evaluation_method),
        match process {
            Err(m) => is_error_outcome(rec.outcome, m@),
            Ok(p) => match process_failure(p.exit_status, p.timed_out) {
                Some(m) => is_error_outcome(rec.outcome, m),
                None => match response {
                    Some(Err(m)) => is_error_outcome(rec.outcome, m@),
                    Some(Ok(resp)) => match response_problem(resp, request_id@, *check) {
                        Some(m) => is_error_outcome(rec.outcome, m),
                        None => rec.outcome == resp.outcome,
                    },
                    None => false,
                },
            },
        },
{
    let outcome = match process {
        Err(message) => CheckOutcome::Error { error: process_error(message.as_str()) },
        Ok(status) => match process_failure_message(status.exit_status, status.timed_out) {
            Some(message) => CheckOutcome::Error { error: process_error(message.as_str()) },
            None => match response {
                Some(Err(message)) => CheckOutcome::Error { error: process_error(message.as_str()) },
                Some(Ok(resp)) => match validate_response(resp, request_id, check) {
                    Ok(outcome) => outcome,
                    Err(message) => CheckOutcome::Error { error: process_error(message.as_str()) },
                },
                None => unreached(),
            },
        },
    };
    CheckRecord {
        check: check.id.clone(),
        title: check.title.clone(),
        method: check.evaluation_method,
        outcome,
    }
}

/// The Check `id` is one of `checks`.
pub open spec fn is_bundle_check(checks: Seq<CheckDefinition>, id: Seq<char>) -> bool {
    exists|k: int| 0 <= k < checks.len() && #[trigger] checks[k].id@ == id
}

/// The first Assessment from index `i` on that names no Check of the
/// bundle.
pub open spec fn first_unknown_assessment(assessments: Seq<Assessment>, checks: Seq<CheckDefinition>, i: int) -> Option<int>
    decreases assessments.len() - i,
{
    if i < 0 || i >= assessments.len() {
        None
    } else if !is_bundle_check(checks, assessments[i].check@) {
        Some(i)
    } else {
        first_unknown_assessment(assessments, checks, i + 1)
    }
}

proof fn lemma_first_unknown_assessment(a: Seq<Assessment>, checks: Seq<CheckDefinition>, m: int, i: int)
    requires
        0 <= m <= i <= a.len(),
        forall|j: int| m <= j < i ==> is_bundle_check(checks, #[trigger] a[j].check@),
    ensures
        i < a.len() && !is_bundle_check(checks, a[i].check@) ==> first_unknown_assessment(a, checks, m) == Some(i),
        i == a.len() ==> first_unknown_assessment(a, checks, m) is None,
    decreases i - m,
{
    if m < i {
        lemma_first_unknown_assessment(a, checks, m + 1, i);
    }
}

/// The records are in order of their Check identifiers.
pub open spec fn sorted_by_check(s: Seq<CheckRecord>) -> bool {
    forall|i: int, j: int| 0 <= i < j < s.len() ==> !text_lt(s[j].check@, s[i].check@)
}

proof fn lemma_kind_count_insert(s: Seq<CheckRecord>, p: int, x: CheckRecord, kind: crate::model::OutcomeKind)
    requires
        0 <= p <= s.len(),
    ensures
        crate::model::kind_count(s.insert(p, x), kind) == crate::model::kind_count(s.push(x), kind),
    decreases s.len(),
{
    if p < s.len() {
        let t = s.insert(p, x);
        let s1 = s.drop_last();
        assert(t.drop_last() =~= s1.insert(p, x));
        assert(t.last() == s.last());
        lemma_kind_count_insert(s1, p, x, kind);
        assert(s1.push(x).drop_last() =~= s1);
        assert(s1.push(x).last() == x);
        assert(s.push(x).drop_last() =~= s);
        assert(s.push(x).last() == x);
        let c_last = if crate::model::outcome_kind(s.last().outcome) == kind { 1nat } else { 0nat };
        let c_x = if crate::model::outcome_kind(x.outcome) == kind { 1nat } else { 0nat };
        assert(crate::model::kind_count(t, kind) == crate::model::kind_count(s1.insert(p, x), kind) + c_last);
        assert(crate::model::kind_count(s1.push(x), kind) == crate::model::kind_count(s1, kind) + c_x);
        assert(crate::model::kind_count(s.push(x), kind) == crate::model::kind_count(s, kind) + c_x);
        assert(crate::model::kind_count(s, kind) == crate::model::kind_count(s1, kind) + c_last);
    } else {
        assert(s.insert(p, x) =~= s.push(x));
    }
}

proof fn lemma_message_count_insert(s: Seq<CheckRecord>, p: int, x: CheckRecord, level: CheckMessageLevel)
    requires
        0 <= p <= s.len(),
    ensures
        crate::model::message_count(s.insert(p, x), level) == crate::model::message_count(s.push(x), level),
    decreases s.len(),
{
    if p < s.len() {
        let t = s.insert(p, x);
        let s1 = s.drop_last();
        assert(t.drop_last() =~= s1.insert(p, x));
        assert(t.last() == s.last());
        lemma_message_count_insert(s1, p, x, level);
        assert(s1.push(x).drop_last() =~= s1);
        assert(s1.push(x).last() == x);
        assert(s.push(x).drop_last() =~= s);
        assert(s.push(x).last() == x);
        let c_last = crate::model::record_level_count(s.last(), level);
        let c_x = crate::model::record_level_count(x, level);
        assert(crate::model::message_count(t, level) == crate::model::message_count(s1.insert(p, x), level) + c_last);
        assert(crate::model::message_count(s1.push(x), level) == crate::model::message_count(s1, level) + c_x);
        assert(crate::model::message_count(s.push(x), level) == crate::model::message_count(s, level) + c_x);
        assert(crate::model::message_count(s, level) == crate::model::message_count(s1, level) + c_last);
    } else {
        assert(s.insert(p, x) =~= s.push(x));
    }
}

proof fn lemma_counts_insert(s: Seq<CheckRecord>, p: int, x: CheckRecord)
    requires
        0 <= p <= s.len(),
    ensures
        summary_counts(s.insert(p, x)) == summary_counts(s.push(x)),
{
    lemma_kind_count_insert(s, p, x, crate::model::OutcomeKind::Result);
    lemma_kind_count_insert(s, p, x, crate::model::OutcomeKind::Error);
    lemma_kind_count_insert(s, p, x, crate::model::OutcomeKind::AwaitingAssessment);
    lemma_kind_count_insert(s, p, x, crate::model::OutcomeKind::Skipped);
    lemma_message_count_insert(s, p, x, CheckMessageLevel::Info);
    lemma_message_count_insert(s, p, x, CheckMessageLevel::Warning);
    lemma_message_count_insert(s, p, x, CheckMessageLevel::Error);
}

proof fn lemma_multiset_insert(s: Seq<CheckRecord>, p: int, x: CheckRecord)
    requires
        0 <= p <= s.len(),
    ensures
        s.insert(p, x).to_multiset() == s.to_multiset().insert(x),
{
    broadcast use vstd::seq_lib::group_to_multiset_ensures;

    let t = s.insert(p, x);
    assert(t.remove(p) =~= s);
    assert(t[p] == x);
    assert(t.contains(x));
    assert(t.to_multiset().count(x) > 0);
    assert(t.to_multiset() =~= t.to_multiset().remove(x).insert(x));
}

/// The records in order of their Check identifiers: a permutation of the
/// records that keeps the summary counts.
pub fn sort_records(records: Vec<CheckRecord>) -> (r: Vec<CheckRecord>)
    ensures
        sorted_by_check(r@),
        r@.to_multiset() == records@.to_multiset(),
        summary_counts(r@) == summary_counts(records@),
{
    broadcast use vstd::seq_lib::group_to_multiset_ensures;

    let ghost all = records@;
    let mut remaining = records;
    let mut sorted: Vec<CheckRecord> = Vec::new();
    let n = remaining.len();
    let mut i: usize = 0;
    assert(all.take(0) =~= Seq::<CheckRecord>::empty());
    while i < n
        invariant
            n == all.len(),
            i <= n,
            remaining@ == all.skip(i as int),
            sorted_by_check(sorted@),
            sorted@.to_multiset() == all.take(i as int).to_multiset(),
            summary_counts(sorted@) == summary_counts(all.take(i as int)),
        decreases n - i,
    {
        assert(remaining@[0] == all[i as int]);
        let x = remaining.remove(0);
        assert(remaining@ =~= all.skip(i + 1));
        let mut p: usize = 0;
        while p < sorted.len() && !crate::text::str_lt(x.check.as_str(), sorted[p].check.as_str())
            invariant
                p <= sorted@.len(),
                forall|j: int| 0 <= j < p ==> !text_lt(x.check@, #[trigger] sorted@[j].check@),
            decreases sorted@.len() - p,
        {
            p = p + 1;
        }
        let ghost before = sorted@;
        proof {
            lemma_counts_insert(before, p as int, x);
            lemma_multiset_insert(before, p as int, x);
            assert(all.take(i + 1) =~= all.take(i as int).push(x));
            vstd::seq_lib::to_multiset_build(all.take(i as int), x);
            assert(all.take(i as int).push(x).drop_last() =~= all.take(i as int));
            assert(before.push(x).drop_last() =~= before);
            if p < before.len() {
                assert forall|k: int| p <= k < before.len() implies text_lt(x.check@, #[trigger] before[k].check@) by {
                    if k > p {
                        crate::text::lemma_text_lt_total(before[p as int].check@, before[k].check@);
                        if text_lt(before[p as int].check@, before[k].check@) {
                            crate::text::lemma_text_lt_transitive(x.check@, before[p as int].check@, before[k].check@);
                        }
                    }
                }
            }
        }
        sorted.insert(p, x);
        proof {
            let after = sorted@;
            assert forall|a: int, b: int| 0 <= a < b < after.len() implies !text_lt(after[b].check@, after[a].check@) by {
                if b < p {
                } else if b == p {
                    assert(after[a] == before[a]);
                } else if a < p {
                    assert(after[b] == before[b - 1]);
                    assert(text_lt(x.check@, before[b - 1].check@));
                    assert(!text_lt(x.check@, before[a].check@));
                    if text_lt(before[b - 1].check@, before[a].check@) {
                        crate::text::lemma_text_lt_transitive(x.check@, before[b - 1].check@, before[a].check@);
                    }
                } else if a == p {
                    assert(after[b] == before[b - 1]);
                    assert(text_lt(x.check@, before[b - 1].check@));
                    if text_lt(before[b - 1].check@, x.check@) {
                        crate::text::lemma_text_lt_transitive(x.check@, before[b - 1].check@, x.check@);
                        crate::text::lemma_text_lt_irreflexive(x.check@);
                    }
                } else {
                    assert(after[a] == before[a - 1]);
                    assert(after[b] == before[b - 1]);
                }
            }
        }
        i = i + 1;
    }
    assert(all.take(n as int) =~= all);
    sorted
}

/// The identities a Report lists: those the combination recorded, or the
/// bundle's own identity when none is recorded.
pub open spec fn report_bundles(bundle: CheckBundleManifest) -> Seq<CheckBundleIdentity> {
    crate::check_bundle::included_list(bundle)
}

/// Assembles the Report of a check from the Check Records of the bundle's
/// Checks: every supplied Assessment must name a Check of the bundle; the
/// records are put in order of their Check identifiers and summarized.
pub fn assemble_report(
    target: &str,
    bundle: &CheckBundleManifest,
    records: Vec<CheckRecord>,
    assessments: &Vec<Assessment>,
) -> (r: Result<Report, String>)
    requires
        counts_fit(records@),
    ensures
        match first_unknown_assessment(assessments@, bundle.checks@, 0) {
            Some(i) => r matches Err(e) && e@ == "Assessment references unknown Check "@
                + assessments@[i].check@,
            None => r matches Ok(report) && report.format_version == 3
                && report.tool_version@ == crate::VERSION@
                && report.check_bundles@ == report_bundles(*bundle) && report.target@ == target@
                && sorted_by_check(report.checks@) && report.checks@.to_multiset()
                == records@.to_multiset() && summarizes(report.summary, report.checks@),
        },
{
    let n = assessments.len();
    for i in 0..n
        invariant
            n == assessments@.len(),
            forall|j: int| 0 <= j < i ==> is_bundle_check(bundle.checks@, #[trigger] assessments@[j].check@),
    {
        let mut known = false;
        for k in 0..bundle.checks.len()
            invariant
                i < n,
                n == assessments@.len(),
                known == exists|l: int| 0 <= l < k && #[trigger] bundle.checks@[l].id@ == assessments@[i as int].check@,
        {
            if bundle.checks[k].id == assessments[i].check {
                assert(bundle.checks@[k as int].id@ == assessments@[i as int].check@);
                known = true;
            }
        }
        if !known {
            proof {
                lemma_first_unknown_assessment(assessments@, bundle.checks@, 0, i as int);
            }
            return Err(concat("Assessment references unknown Check ", assessments[i].check.as_str()));
        }
    }
    proof {
        lemma_first_unknown_assessment(assessments@, bundle.checks@, 0, n as int);
    }
    let checks = sort_records(records);
    let mut bundles: Vec<CheckBundleIdentity> = Vec::new();
    if bundle.resolved_check_bundles.len() == 0 {
        bundles.push(bundle.check_bundle.clone());
        assert(bundles@ =~= seq![bundle.check_bundle]);
    } else {
        for k in 0..bundle.resolved_check_bundles.len()
            invariant
                bundles@ == bundle.resolved_check_bundles@.take(k as int),
        {
            bundles.push(bundle.resolved_check_bundles[k].clone());
            assert(bundle.resolved_check_bundles@.take(k + 1) =~= bundle.resolved_check_bundles@.take(k as int).push(bundle.resolved_check_bundles@[k as int]));
        }
        assert(bundle.resolved_check_bundles@.take(bundle.resolved_check_bundles@.len() as int) =~= bundle.resolved_check_bundles@);
    }
    let mut report = Report {
        format_version: 3,
        tool_version: String::from_str(crate::VERSION),
        check_bundles: bundles,
        target: String::from_str(target),
        checks,
        summary: ReportSummary::default(),
    };
    report.recalculate();
    Ok(report)
}

/// How a Check is decided.
#[derive(Clone, Copy, Debug, PartialEq, Eq, Structural)]
pub enum CheckRoute {
    /// By the Checker CLI that the Check declares.
    CheckerCli,
    /// By the built-in assertions on runs of the target.
    BuiltInMechanistic,
    /// By an Assessment of captured evidence.
    BuiltInJudgment,
}

/// A Check that declares a Checker CLI is decided by it, whatever its
/// evaluation method; any other Check by the built-in path of its method.
pub open spec fn route_of(c: CheckDefinition) -> CheckRoute {
    match c.checker {
        Some(CheckerDefinition::Cli { .. }) => CheckRoute::CheckerCli,
        _ => match c.evaluation_method {
            EvaluationMethod::Mechanistic => CheckRoute::BuiltInMechanistic,
            EvaluationMethod::JudgmentBased => CheckRoute::BuiltInJudgment,
        },
    }
}

/// How a Check is decided.
pub fn check_route(check: &CheckDefinition) -> (r: CheckRoute)
    ensures
        r == route_of(*check),
{
    match &check.checker {
        Some(CheckerDefinition::Cli { .. }) => CheckRoute::CheckerCli,
        _ => match check.evaluation_method {
            EvaluationMethod::Mechanistic => CheckRoute::BuiltInMechanistic,
            EvaluationMethod::JudgmentBased => CheckRoute::BuiltInJudgment,
        },
    }
}

/// A failed built-in Check is scored by the severity that reports at its
/// failure level: Error 0.0, Warning 2.0 (bits `0x4000_0000_0000_0000`),
/// Info 3.0 (bits `0x4008_0000_0000_0000`), the Scores that
/// `Severity::failed_score` gives; and a more severe level gets a strictly
/// lower Score (all these Scores are non-negative binary64 numbers, whose
/// bit patterns order as the numbers do).
pub proof fn law_failed_score_falls_with_level(a: crate::model::Severity, b: crate::model::Severity)
    ensures
        level_failed_bits(crate::model::severity_level(a)) == crate::model::severity_failed_bits(a),
        crate::model::severity_level(a) == CheckMessageLevel::Error ==> level_failed_bits(
            crate::model::severity_level(a),
        ) == 0u64,
        crate::model::severity_level(a) == CheckMessageLevel::Warning ==> level_failed_bits(
            crate::model::severity_level(a),
        ) == 0x4000_0000_0000_0000u64,
        crate::model::severity_level(a) == CheckMessageLevel::Info ==> level_failed_bits(
            crate::model::severity_level(a),
        ) == 0x4008_0000_0000_0000u64,
        crate::model::severity_rank(a) < crate::model::severity_rank(b) ==> level_failed_bits(
            crate::model::severity_level(b),
        ) < level_failed_bits(crate::model::severity_level(a)),
{
}

/// A Check that declares a Checker CLI is decided by that CLI, whatever
/// its evaluation method; only a Check without one goes to the built-in
/// path of its method.
pub proof fn law_checker_cli_decides(c: CheckDefinition)
    ensures
        (c.checker matches Some(CheckerDefinition::Cli { .. })) ==> route_of(c)
            == CheckRoute::CheckerCli,
        !(c.checker matches Some(CheckerDefinition::Cli { .. })) && c.evaluation_method
            == EvaluationMethod::Mechanistic ==> route_of(c) == CheckRoute::BuiltInMechanistic,
        !(c.checker matches Some(CheckerDefinition::Cli { .. })) && c.evaluation_method
            == EvaluationMethod::JudgmentBased ==> route_of(c) == CheckRoute::BuiltInJudgment,
{
}

/// One of the five fields every Checker CLI response holds.
pub open spec fn common_response_field(f: Seq<char>) -> bool {
    f == "format_version"@ || f == "request_id"@ || f == "check"@ || f == "method"@ || f
        == "outcome"@
}

proof fn lemma_no_unknown_response_field(keys: Seq<String>, payload: Seq<char>, i: int)
    requires
        0 <= i <= keys.len(),
    ensures
        first_unknown_response_field(keys, payload, i) is None <==> forall|j: int|
            i <= j < keys.len() ==> response_field_allowed(#[trigger] keys[j]@, payload),
    decreases keys.len() - i,
{
    if i < keys.len() {
        lemma_no_unknown_response_field(keys, payload, i + 1);
    }
}

/// A Checker CLI response object with a known outcome is accepted exactly
/// when each of its fields is one of the five common fields or the payload
/// field of its outcome: `result` for "result", `error` for "error",
/// `assessment_request` for "awaiting-assessment" and `reason` for
/// "skipped".
pub proof fn law_response_fields_by_outcome(keys: Seq<String>, outcome: Seq<char>, payload: Seq<char>)
    requires
        (outcome == "result"@ && payload == "result"@) || (outcome == "error"@ && payload
            == "error"@) || (outcome == "awaiting-assessment"@ && payload
            == "assessment_request"@) || (outcome == "skipped"@ && payload == "reason"@),
    ensures
        response_fields_problem(true, Some(outcome), keys) is None <==> forall|j: int|
            0 <= j < keys.len() ==> common_response_field(#[trigger] keys[j]@) || keys[j]@
                == payload,
{
    reveal_strlit("result");
    reveal_strlit("error");
    reveal_strlit("awaiting-assessment");
    reveal_strlit("skipped");
    assert("result"@.len() == 6 && "error"@.len() == 5 && "awaiting-assessment"@.len() == 19
        && "skipped"@.len() == 7);
    assert(payload_field(outcome) == Some(payload));
    lemma_no_unknown_response_field(keys, payload, 0);
    assert forall|j: int| 0 <= j < keys.len() implies (response_field_allowed(
        #[trigger] keys[j]@,
        payload,
    ) <==> (common_response_field(keys[j]@) || keys[j]@ == payload)) by {}
}

} // verus!
