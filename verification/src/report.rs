//! The human-readable form of a Report.
use vstd::prelude::*;
use vstd::string::*;

use crate::model::{CheckMessage, CheckMessageLevel, CheckOutcome, CheckRecord, EvaluationMethod, Report};
use crate::text::{concat, decimal, join_texts, push_char, texts, u64_text};

verus! {

broadcast use vstd::string::group_string_axioms;

/// `s` padded with spaces on the right to at least `width` characters
/// (`{:<width}`).
pub open spec fn padded(s: Seq<char>, width: nat) -> Seq<char> {
    s + Seq::new(if width > s.len() { (width - s.len()) as nat } else { 0 }, |i: int| ' ')
}

/// The name of an evaluation method in a report.
pub open spec fn method_name(m: EvaluationMethod) -> Seq<char> {
    match m {
        EvaluationMethod::Mechanistic => "mechanistic"@,
        EvaluationMethod::JudgmentBased => "judgment-based"@,
    }
}

/// The name of a Check Message level in a report.
pub open spec fn level_name(l: CheckMessageLevel) -> Seq<char> {
    match l {
        CheckMessageLevel::Info => "info"@,
        CheckMessageLevel::Warning => "warning"@,
        CheckMessageLevel::Error => "error"@,
    }
}

/// One line per Check Message: its level and its text.
pub open spec fn message_lines(ms: Seq<CheckMessage>) -> Seq<char>
    decreases ms.len(),
{
    if ms.len() == 0 {
        Seq::empty()
    } else {
        message_lines(ms.drop_last()) + "  "@ + padded(level_name(ms.last().level), 7) + " "@
            + ms.last().message@ + "\n"@
    }
}

/// The lines of one Check: its identifier, its method and its outcome,
/// with `score` as the text of a Score.
pub open spec fn check_lines(c: CheckRecord, score: Seq<char>) -> Seq<char> {
    let head = padded(c.check@, 46) + " "@ + padded(method_name(c.method), 16);
    match c.outcome {
        CheckOutcome::Result { result } => head + " Score "@ + score + "\n"@ + message_lines(
            result.messages@,
        ),
        CheckOutcome::Error { error } => head + " Check Error: "@ + error.message@ + "\n"@,
        CheckOutcome::AwaitingAssessment { .. } => head + " Awaiting Assessment\n"@,
        CheckOutcome::Skipped { reason } => head + " Skipped: "@ + reason@ + "\n"@,
    }
}

/// The text of the `i`th Score, or nothing where none was given.
pub open spec fn score_at(scores: Seq<Seq<char>>, i: int) -> Seq<char> {
    if 0 <= i < scores.len() {
        scores[i]
    } else {
        Seq::empty()
    }
}

/// The lines of the Checks, in order.
pub open spec fn checks_lines(cs: Seq<CheckRecord>, scores: Seq<Seq<char>>) -> Seq<char>
    decreases cs.len(),
{
    if cs.len() == 0 {
        Seq::empty()
    } else {
        checks_lines(cs.drop_last(), scores) + check_lines(cs.last(), score_at(scores, cs.len() - 1))
    }
}

/// The first lines of the human-readable Report: the bundles and the target.
pub open spec fn header_text(r: Report) -> Seq<char> {
    let bundles = r.check_bundles@.map_values(
        |b: crate::model::CheckBundleIdentity| b.name@ + " "@ + b.version@,
    );
    "Clilint "@ + join_texts(bundles, ", "@) + "\n"@ + "Target: "@ + r.target@ + "\n\n"@
}

/// The last lines of the human-readable Report: the counts.
pub open spec fn footer_text(s: crate::model::ReportSummary) -> Seq<char> {
    "\n"@ + decimal(s.check_results as nat) + " results, "@ + decimal(s.check_errors as nat)
        + " Check Errors, "@ + decimal(s.awaiting_assessment as nat) + " awaiting Assessment, "@
        + decimal(s.skipped as nat) + " skipped\n"@ + decimal(s.info_messages as nat) + " Info, "@
        + decimal(s.warning_messages as nat) + " Warning, "@ + decimal(s.error_messages as nat)
        + " Error Check Messages\n"@
}

/// The human-readable Report: the bundles, the target, one block per
/// Check and the counts. `scores` holds the text of each Check's Score.
pub open spec fn human_text(r: Report, scores: Seq<Seq<char>>) -> Seq<char> {
    header_text(r) + checks_lines(r.checks@, scores) + footer_text(r.summary)
}

fn pad(s: &str, width: usize) -> (r: String)
    ensures
        r@ == padded(s@, width as nat),
{
    let mut r = String::from_str(s);
    let n = s.unicode_len();
    let mut k = n;
    while k < width
        invariant
            n == s@.len(),
            k == n || k <= width,
            k >= n,
            r@ == s@ + Seq::new((k - n) as nat, |i: int| ' '),
        decreases width - k,
    {
        let ghost before = r@;
        push_char(&mut r, ' ');
        assert(r@ =~= s@ + Seq::new((k + 1 - n) as nat, |i: int| ' '));
        k = k + 1;
    }
    assert(r@ =~= padded(s@, width as nat));
    r
}

fn append(out: &mut String, s: &str)
    ensures
        final(out)@ == old(out)@ + s@,
{
    out.append(s);
}

fn method_text(m: EvaluationMethod) -> (r: &'static str)
    ensures
        r@ == method_name(m),
{
    match m {
        EvaluationMethod::Mechanistic => "mechanistic",
        EvaluationMethod::JudgmentBased => "judgment-based",
    }
}

fn level_text(l: CheckMessageLevel) -> (r: &'static str)
    ensures
        r@ == level_name(l),
{
    match l {
        CheckMessageLevel::Info => "info",
        CheckMessageLevel::Warning => "warning",
        CheckMessageLevel::Error => "error",
    }
}

fn append_check(out: &mut String, c: &CheckRecord, score: &str)
    ensures
        final(out)@ == old(out)@ + check_lines(*c, score@),
{
    let ghost start = out@;
    let head_check = pad(c.check.as_str(), 46);
    append(out, head_check.as_str());
    append(out, " ");
    let head_method = pad(method_text(c.method), 16);
    append(out, head_method.as_str());
    let ghost head = padded(c.check@, 46) + " "@ + padded(method_name(c.method), 16);
    assert(out@ =~= start + head);
    match &c.outcome {
        CheckOutcome::Result { result } => {
            append(out, " Score ");
            append(out, score);
            append(out, "\n");
            let ghost after_head = out@;
            assert(after_head =~= start + (head + " Score "@ + score@ + "\n"@));
            let ms = &result.messages;
            for i in 0..ms.len()
                invariant
                    out@ == after_head + message_lines(ms@.take(i as int)),
            {
                assert(ms@.take(i + 1).drop_last() =~= ms@.take(i as int));
                append(out, "  ");
                let level = pad(level_text(ms[i].level), 7);
                append(out, level.as_str());
                append(out, " ");
                append(out, ms[i].message.as_str());
                append(out, "\n");
                assert(out@ =~= after_head + message_lines(ms@.take(i + 1)));
            }
            assert(ms@.take(ms@.len() as int) =~= ms@);
            assert(out@ =~= start + check_lines(*c, score@));
        },
        CheckOutcome::Error { error } => {
            append(out, " Check Error: ");
            append(out, error.message.as_str());
            append(out, "\n");
            assert(out@ =~= start + check_lines(*c, score@));
        },
        CheckOutcome::AwaitingAssessment { .. } => {
            append(out, " Awaiting Assessment\n");
            assert(out@ =~= start + check_lines(*c, score@));
        },
        CheckOutcome::Skipped { reason } => {
            append(out, " Skipped: ");
            append(out, reason.as_str());
            append(out, "\n");
            assert(out@ =~= start + check_lines(*c, score@));
        },
    }
}

/// The human-readable Report. `scores` holds, at each Check's position, the
/// text of its Score (the Score written with two decimals); a Check that
/// has no text there shows none.
pub fn human(report: &Report, scores: &Vec<String>) -> (r: String)
    ensures
        r@ == human_text(*report, texts(scores@)),
{
    let mut names: Vec<String> = Vec::new();
    let bs = &report.check_bundles;
    for i in 0..bs.len()
        invariant
            texts(names@) == bs@.take(i as int).map_values(
                |b: crate::model::CheckBundleIdentity| b.name@ + " "@ + b.version@,
            ),
    {
        let ghost before = texts(names@);
        names.push(crate::text::concat3(bs[i].name.as_str(), " ", bs[i].version.as_str()));
        assert(texts(names@) =~= before.push(bs@[i as int].name@ + " "@ + bs@[i as int].version@));
        assert(bs@.take(i + 1).map_values(
            |b: crate::model::CheckBundleIdentity| b.name@ + " "@ + b.version@,
        ) =~= bs@.take(i as int).map_values(
            |b: crate::model::CheckBundleIdentity| b.name@ + " "@ + b.version@,
        ).push(bs@[i as int].name@ + " "@ + bs@[i as int].version@));
    }
    assert(bs@.take(bs@.len() as int) =~= bs@);
    let mut out = String::from_str("Clilint ");
    let joined = crate::text::join_strings(&names, ", ");
    append(&mut out, joined.as_str());
    append(&mut out, "\n");
    append(&mut out, "Target: ");
    append(&mut out, report.target.as_str());
    append(&mut out, "\n\n");
    assert(out@ =~= header_text(*report));
    let ghost before_checks = out@;
    let cs = &report.checks;
    for i in 0..cs.len()
        invariant
            out@ == before_checks + checks_lines(cs@.take(i as int), texts(scores@)),
    {
        assert(cs@.take(i + 1).drop_last() =~= cs@.take(i as int));
        if i < scores.len() {
            assert(score_at(texts(scores@), i as int) == scores@[i as int]@);
            append_check(&mut out, &cs[i], scores[i].as_str());
        } else {
            proof {
                reveal_strlit("");
            }
            assert(score_at(texts(scores@), i as int) =~= ""@);
            append_check(&mut out, &cs[i], "");
        }
        assert(out@ =~= before_checks + checks_lines(cs@.take(i + 1), texts(scores@)));
    }
    assert(cs@.take(cs@.len() as int) =~= cs@);
    let s = report.summary;
    let mut tail = String::from_str("\n");
    append(&mut tail, u64_text(s.check_results as u64).as_str());
    append(&mut tail, " results, ");
    append(&mut tail, u64_text(s.check_errors as u64).as_str());
    append(&mut tail, " Check Errors, ");
    append(&mut tail, u64_text(s.awaiting_assessment as u64).as_str());
    append(&mut tail, " awaiting Assessment, ");
    append(&mut tail, u64_text(s.skipped as u64).as_str());
    append(&mut tail, " skipped\n");
    append(&mut tail, u64_text(s.info_messages as u64).as_str());
    append(&mut tail, " Info, ");
    append(&mut tail, u64_text(s.warning_messages as u64).as_str());
    append(&mut tail, " Warning, ");
    append(&mut tail, u64_text(s.error_messages as u64).as_str());
    append(&mut tail, " Error Check Messages\n");
    assert(tail@ =~= footer_text(s));
    append(&mut out, tail.as_str());
    assert(out@ =~= human_text(*report, texts(scores@)));
    out
}

/// The last line of the human-readable Report counts the Check Messages of
/// its Checks by level, each count beside its own label: Info, then
/// Warning, then Error.
pub proof fn law_human_counts_messages_by_level(r: Report, scores: Seq<Seq<char>>)
    requires
        crate::model::summarizes(r.summary, r.checks@),
    ensures
        ({
            let text = human_text(r, scores);
            let last = decimal(crate::model::message_count(r.checks@, CheckMessageLevel::Info))
                + " Info, "@ + decimal(
                crate::model::message_count(r.checks@, CheckMessageLevel::Warning),
            ) + " Warning, "@ + decimal(
                crate::model::message_count(r.checks@, CheckMessageLevel::Error),
            ) + " Error Check Messages\n"@;
            &&& last.len() <= text.len()
            &&& text.subrange(text.len() - last.len(), text.len() as int) == last
        }),
{
    let s = r.summary;
    let last = decimal(s.info_messages as nat) + " Info, "@ + decimal(s.warning_messages as nat)
        + " Warning, "@ + decimal(s.error_messages as nat) + " Error Check Messages\n"@;
    let first = "\n"@ + decimal(s.check_results as nat) + " results, "@ + decimal(
        s.check_errors as nat,
    ) + " Check Errors, "@ + decimal(s.awaiting_assessment as nat) + " awaiting Assessment, "@
        + decimal(s.skipped as nat) + " skipped\n"@;
    assert(footer_text(s) =~= first + last);
    let text = human_text(r, scores);
    let front = header_text(r) + checks_lines(r.checks@, scores) + first;
    assert(text =~= front + last);
    assert(text.subrange(text.len() - last.len(), text.len() as int) =~= last);
}

} // verus!
