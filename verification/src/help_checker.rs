//! The hierarchical help check: which help commands it runs at each command
//! path of the target, and what their output and JSON documents must show.
//!
//! The check is a state machine. [`HelpCollector::next_command`] names the
//! next help command to run; the caller runs it, reads its JSON document
//! where the command asks for one, and hands both to
//! [`HelpCollector::handle`]. [`HelpCollector::finish`] gives the evidence.
use vstd::prelude::*;
use vstd::string::*;

use crate::check_bundle::{HelpLimits, HierarchicalHelpBehavior};
use crate::engine::byte_len;
use crate::model::{InvocationSpec, Observation};
use crate::text::{
    char_is_digit, char_is_whitespace, chars_of, clone_strings, concat, contains_str,
    contains_text, debug_str, debug_text, is_blank, is_blank_text, is_digit, join_strings,
    join_texts, lowercase, starts_with_text, str_eq, string_of, strings_eq, texts, to_lowercase,
    white_space,
};

verus! {

broadcast use vstd::string::group_string_axioms;

/// The overview document of one command path (`help --format json`).
#[derive(Debug)]
pub struct HelpOverview {
    pub format_version: u32,
    pub command_path: Vec<String>,
    pub programmatic: bool,
    pub child_commands: Vec<ChildCommand>,
}

/// A child command named by an overview.
#[derive(Debug)]
pub struct ChildCommand {
    pub name: String,
}

/// The outline document of one command path (`help outline --format json`).
#[derive(Debug)]
pub struct Outline {
    pub format_version: u32,
    pub command_path: Vec<String>,
    pub programmatic: bool,
    pub headings: Vec<Heading>,
}

/// One heading of an outline.
#[derive(Debug)]
pub struct Heading {
    pub level: u8,
    pub title: String,
    pub section: String,
}

/// The sections that `help section` returned.
#[derive(Debug)]
pub struct SectionResponse {
    pub format_version: u32,
    pub command_path: Vec<String>,
    pub programmatic: bool,
    pub sections: Vec<Section>,
}

/// One section of a help document.
#[derive(Debug)]
pub struct Section {
    pub level: u8,
    pub title: String,
    pub section: String,
    pub content: String,
}

/// The results that `help search` returned.
#[derive(Debug)]
pub struct SearchResponse {
    pub format_version: u32,
    pub command_path: Vec<String>,
    pub programmatic: bool,
    pub results: Vec<SearchResult>,
}

/// One search result: a section at a command path.
#[derive(Debug)]
pub struct SearchResult {
    pub command_path: Vec<String>,
    pub section: String,
    pub title: String,
}

/// The JSON document a help command wrote, read as the command asked.
#[derive(Debug)]
pub enum HelpDocument {
    Overview(HelpOverview),
    Outline(Outline),
    Section(SectionResponse),
    Search(SearchResponse),
}

/// Which JSON document a help command writes.
#[derive(Clone, Copy, Debug, PartialEq, Eq, Structural)]
pub enum DocumentKind {
    Overview,
    Outline,
    Section,
    Search,
}

/// One help command that was run, with what it was for.
#[derive(Debug)]
pub struct HelpObservation {
    pub command_path: Vec<String>,
    pub operation: String,
    pub requested_section: Option<String>,
    pub observation: Observation,
}

/// One expectation of the hierarchical help check that the target missed.
#[derive(Debug)]
pub struct HelpValidationFailure {
    pub behavior: HierarchicalHelpBehavior,
    pub command_path: Vec<String>,
    pub message: String,
}

/// What the hierarchical help check found: the command paths it explored,
/// the help commands it ran and the expectations the target missed.
#[derive(Debug)]
pub struct HelpEvidence {
    pub command_paths: Vec<Vec<String>>,
    pub commands_run: Vec<HelpObservation>,
    pub validation_failures: Vec<HelpValidationFailure>,
}

// ---------------------------------------------------------------------------
// Views

/// A failure as plain values: behavior, command path and message.
pub open spec fn failure_view(f: HelpValidationFailure) -> (
    HierarchicalHelpBehavior,
    Seq<Seq<char>>,
    Seq<char>,
) {
    (f.behavior, texts(f.command_path@), f.message@)
}

/// The failures as plain values, in order.
pub open spec fn failure_views(fs: Seq<HelpValidationFailure>) -> Seq<
    (HierarchicalHelpBehavior, Seq<Seq<char>>, Seq<char>),
> {
    fs.map_values(|f: HelpValidationFailure| failure_view(f))
}

/// A failure of `behavior` at the command path `path` with `message`.
pub open spec fn failure_of(
    behavior: HierarchicalHelpBehavior,
    path: Seq<Seq<char>>,
    message: Seq<char>,
) -> (HierarchicalHelpBehavior, Seq<Seq<char>>, Seq<char>) {
    (behavior, path, message)
}

fn failure(behavior: HierarchicalHelpBehavior, path: &Vec<String>, message: &str) -> (r:
    HelpValidationFailure)
    ensures
        failure_view(r) == failure_of(behavior, texts(path@), message@),
{
    HelpValidationFailure {
        behavior,
        command_path: clone_strings(path),
        message: String::from_str(message),
    }
}

// ---------------------------------------------------------------------------
// Operations

/// The behavior that a help command's operation name belongs to.
pub open spec fn behavior_of_operation(op: Seq<char>) -> HierarchicalHelpBehavior {
    if op == "overview"@ {
        HierarchicalHelpBehavior::CommandDiscovery
    } else if op == "outline"@ || op == "programmatic-outline"@ {
        HierarchicalHelpBehavior::Outline
    } else if op == "section"@ || op == "recursive-section"@ {
        HierarchicalHelpBehavior::SectionRetrieval
    } else if op == "shared-help"@ {
        HierarchicalHelpBehavior::SharedHelp
    } else if op == "programmatic-help"@ || op == "programmatic-overview"@ {
        HierarchicalHelpBehavior::ProgrammaticGuidance
    } else if op == "search"@ || op == "programmatic-search"@ || op == "search-section"@ {
        HierarchicalHelpBehavior::Search
    } else if op == "local-view"@ {
        HierarchicalHelpBehavior::LocalView
    } else if op == "web-view"@ || op == "web-version"@ {
        HierarchicalHelpBehavior::WebView
    } else {
        HierarchicalHelpBehavior::Availability
    }
}

/// The behavior that a help command's operation name belongs to.
pub fn operation_behavior(operation: &str) -> (r: HierarchicalHelpBehavior)
    ensures
        r == behavior_of_operation(operation@),
{
    if str_eq(operation, "overview") {
        HierarchicalHelpBehavior::CommandDiscovery
    } else if str_eq(operation, "outline") || str_eq(operation, "programmatic-outline") {
        HierarchicalHelpBehavior::Outline
    } else if str_eq(operation, "section") || str_eq(operation, "recursive-section") {
        HierarchicalHelpBehavior::SectionRetrieval
    } else if str_eq(operation, "shared-help") {
        HierarchicalHelpBehavior::SharedHelp
    } else if str_eq(operation, "programmatic-help") || str_eq(operation, "programmatic-overview") {
        HierarchicalHelpBehavior::ProgrammaticGuidance
    } else if str_eq(operation, "search") || str_eq(operation, "programmatic-search") || str_eq(
        operation,
        "search-section",
    ) {
        HierarchicalHelpBehavior::Search
    } else if str_eq(operation, "local-view") {
        HierarchicalHelpBehavior::LocalView
    } else if str_eq(operation, "web-view") || str_eq(operation, "web-version") {
        HierarchicalHelpBehavior::WebView
    } else {
        HierarchicalHelpBehavior::Availability
    }
}

// ---------------------------------------------------------------------------
// Documents

/// A JSON help document's header: format version 1, the command path the
/// command was run at, and the programmatic marker the command asked for.
pub open spec fn header_ok(
    format_version: u32,
    actual_path: Seq<Seq<char>>,
    actual_programmatic: bool,
    expected_path: Seq<Seq<char>>,
    expected_programmatic: bool,
) -> bool {
    format_version == 1 && actual_path == expected_path && actual_programmatic
        == expected_programmatic
}

/// Whether a JSON help document's header is valid.
pub fn header_valid(
    format_version: u32,
    actual_path: &Vec<String>,
    actual_programmatic: bool,
    expected_path: &Vec<String>,
    expected_programmatic: bool,
) -> (r: bool)
    ensures
        r == header_ok(
            format_version,
            texts(actual_path@),
            actual_programmatic,
            texts(expected_path@),
            expected_programmatic,
        ),
{
    format_version == 1 && strings_eq(actual_path, expected_path) && actual_programmatic
        == expected_programmatic
}

/// A text holds a white-space character.
pub open spec fn has_white_space(s: Seq<char>) -> bool {
    exists|i: int| 0 <= i < s.len() && #[trigger] white_space(s[i])
}

/// A child command name is kept when it is not empty, is a single token
/// and was not kept before.
pub open spec fn child_name_ok(name: Seq<char>, kept: Seq<Seq<char>>) -> bool {
    name.len() > 0 && !has_white_space(name) && !kept.contains(name)
}

/// The child command names that are kept, in order.
pub open spec fn kept_child_names(names: Seq<Seq<char>>) -> Seq<Seq<char>>
    decreases names.len(),
{
    if names.len() == 0 {
        Seq::empty()
    } else {
        let kept = kept_child_names(names.drop_last());
        if child_name_ok(names.last(), kept) {
            kept.push(names.last())
        } else {
            kept
        }
    }
}

/// The names of an overview's child commands.
pub open spec fn child_names(children: Seq<ChildCommand>) -> Seq<Seq<char>> {
    children.map_values(|c: ChildCommand| c.name@)
}

proof fn lemma_kept_child_names_len(names: Seq<Seq<char>>)
    ensures
        kept_child_names(names).len() <= names.len(),
    decreases names.len(),
{
    if names.len() > 0 {
        lemma_kept_child_names_len(names.drop_last());
    }
}

fn has_whitespace(s: &str) -> (r: bool)
    ensures
        r == has_white_space(s@),
{
    let cs = chars_of(s);
    for i in 0..cs.len()
        invariant
            cs@ == s@,
            forall|j: int| 0 <= j < i ==> !white_space(s@[j]),
    {
        if char_is_whitespace(cs[i]) {
            return true;
        }
    }
    false
}

fn contains_string(v: &Vec<String>, s: &str) -> (r: bool)
    ensures
        r == texts(v@).contains(s@),
{
    for i in 0..v.len()
        invariant
            forall|j: int| 0 <= j < i ==> v@[j]@ != s@,
    {
        if str_eq(v[i].as_str(), s) {
            assert(texts(v@)[i as int] == s@);
            return true;
        }
    }
    assert forall|j: int| 0 <= j < texts(v@).len() implies texts(v@)[j] != s@ by {}
    false
}

/// The child command names of an overview that are kept, in order, and
/// how many were rejected.
pub fn split_child_names(children: &Vec<ChildCommand>) -> (r: (Vec<String>, usize))
    ensures
        texts(r.0@) == kept_child_names(child_names(children@)),
        r.1 == children@.len() - r.0@.len(),
{
    let ghost names = child_names(children@);
    let mut kept: Vec<String> = Vec::new();
    let mut rejected: usize = 0;
    for i in 0..children.len()
        invariant
            names == child_names(children@),
            texts(kept@) == kept_child_names(names.take(i as int)),
            rejected + kept@.len() == i,
    {
        assert(names.take(i + 1).drop_last() =~= names.take(i as int));
        assert(names.take(i + 1).last() == children@[i as int].name@);
        let name = &children[i].name;
        if name.as_str().is_empty() || has_whitespace(name.as_str()) || contains_string(
            &kept,
            name.as_str(),
        ) {
            rejected = rejected + 1;
        } else {
            let ghost before = kept@;
            kept.push(name.clone());
            assert(texts(kept@) =~= texts(before).push(name@));
        }
    }
    assert(names.take(children@.len() as int) =~= names);
    (kept, rejected)
}

/// An outline heading is valid when its level is 1 through 6 and its title
/// and section name are not blank.
pub open spec fn heading_ok(h: Heading) -> bool {
    1 <= h.level <= 6 && !is_blank_text(h.title@) && !is_blank_text(h.section@)
}

/// The valid headings of an outline, in order.
pub open spec fn kept_headings(hs: Seq<Heading>) -> Seq<Heading>
    decreases hs.len(),
{
    if hs.len() == 0 {
        Seq::empty()
    } else {
        let kept = kept_headings(hs.drop_last());
        if heading_ok(hs.last()) {
            kept.push(hs.last())
        } else {
            kept
        }
    }
}

impl Clone for Heading {
    fn clone(&self) -> (r: Self)
        ensures
            r == *self,
    {
        Heading { level: self.level, title: self.title.clone(), section: self.section.clone() }
    }
}

/// The valid headings of an outline, in order, and how many were invalid.
pub fn split_headings(headings: &Vec<Heading>) -> (r: (Vec<Heading>, usize))
    ensures
        r.0@ == kept_headings(headings@),
        r.1 == headings@.len() - r.0@.len(),
{
    let mut kept: Vec<Heading> = Vec::new();
    let mut rejected: usize = 0;
    for i in 0..headings.len()
        invariant
            kept@ == kept_headings(headings@.take(i as int)),
            rejected + kept@.len() == i,
    {
        assert(headings@.take(i + 1).drop_last() =~= headings@.take(i as int));
        assert(headings@.take(i + 1).last() == headings@[i as int]);
        let h = &headings[i];
        if 1 <= h.level && h.level <= 6 && !is_blank(h.title.as_str()) && !is_blank(
            h.section.as_str(),
        ) {
            kept.push(h.clone());
        } else {
            rejected = rejected + 1;
        }
    }
    assert(headings@.take(headings@.len() as int) =~= headings@);
    (kept, rejected)
}

/// How many headings name the section `s`.
pub open spec fn section_count(hs: Seq<Heading>, s: Seq<char>) -> nat
    decreases hs.len(),
{
    if hs.len() == 0 {
        0
    } else {
        section_count(hs.drop_last(), s) + if hs.last().section@ == s {
            1nat
        } else {
            0nat
        }
    }
}

/// How many headings name the section `section`.
pub fn count_section(headings: &Vec<Heading>, section: &str) -> (r: usize)
    ensures
        r == section_count(headings@, section@),
{
    let mut n: usize = 0;
    for i in 0..headings.len()
        invariant
            n == section_count(headings@.take(i as int), section@),
            n <= i,
    {
        assert(headings@.take(i + 1).drop_last() =~= headings@.take(i as int));
        if str_eq(headings[i].section.as_str(), section) {
            n = n + 1;
        }
    }
    assert(headings@.take(headings@.len() as int) =~= headings@);
    n
}

/// Where the headings under heading `i` end: the first heading from `j` on
/// whose level is not deeper than heading `i`'s.
pub open spec fn subtree_end(hs: Seq<Heading>, i: int, j: int) -> int
    decreases hs.len() - j,
{
    if j >= hs.len() || hs[j].level <= hs[i].level {
        j
    } else {
        subtree_end(hs, i, j + 1)
    }
}

/// The section names of the headings, in order.
pub open spec fn heading_sections(hs: Seq<Heading>) -> Seq<Seq<char>> {
    hs.map_values(|h: Heading| h.section@)
}

/// The sections that a recursive request for heading `i` may return: its
/// own section and those of the headings under it.
pub open spec fn recursive_sections(hs: Seq<Heading>, i: int) -> Seq<Seq<char>> {
    seq![hs[i].section@] + heading_sections(hs.subrange(i + 1, subtree_end(hs, i, i + 1)))
}

/// The sections that a recursive request for heading `i` may return.
pub fn sections_under(headings: &Vec<Heading>, i: usize) -> (r: Vec<String>)
    requires
        i < headings.len(),
    ensures
        texts(r@) == recursive_sections(headings@, i as int),
{
    let ghost hs = headings@;
    let mut r: Vec<String> = Vec::new();
    r.push(headings[i].section.clone());
    let mut j = i + 1;
    while j < headings.len() && headings[j].level > headings[i].level
        invariant
            hs == headings@,
            i < j <= headings@.len(),
            subtree_end(hs, i as int, j as int) == subtree_end(hs, i as int, i + 1),
            texts(r@) == seq![hs[i as int].section@] + heading_sections(
                hs.subrange(i + 1, j as int),
            ),
        decreases headings@.len() - j,
    {
        let ghost before = r@;
        r.push(headings[j].section.clone());
        assert(texts(r@) =~= texts(before).push(hs[j as int].section@));
        assert(heading_sections(hs.subrange(i + 1, j + 1)) =~= heading_sections(
            hs.subrange(i + 1, j as int),
        ).push(hs[j as int].section@));
        j = j + 1;
    }
    assert(subtree_end(hs, i as int, j as int) == j);
    r
}

/// The section names of a section response, in order.
pub open spec fn section_names(ss: Seq<Section>) -> Seq<Seq<char>> {
    ss.map_values(|s: Section| s.section@)
}

/// A section returned for a request is valid: an allowed section, level 1
/// through 6, a title that is not blank and content within the byte limit.
pub open spec fn returned_section_ok(s: Section, allowed: Seq<Seq<char>>, document_bytes: usize) -> bool {
    &&& allowed.contains(s.section@)
    &&& 1 <= s.level <= 6
    &&& !is_blank_text(s.title@)
    &&& byte_len(s.content@) <= document_bytes
}

/// A section response answers the request: it holds at least one and at
/// least `expected` sections, the requested one and every allowed one
/// among them, and only valid allowed sections.
pub open spec fn section_response_ok(
    ss: Seq<Section>,
    requested: Seq<char>,
    allowed: Seq<Seq<char>>,
    expected: nat,
    document_bytes: usize,
) -> bool {
    &&& ss.len() > 0
    &&& ss.len() >= expected
    &&& section_names(ss).contains(requested)
    &&& forall|a: int| 0 <= a < allowed.len() ==> section_names(ss).contains(#[trigger] allowed[a])
    &&& forall|k: int|
        0 <= k < ss.len() ==> returned_section_ok(#[trigger] ss[k], allowed, document_bytes)
}

/// Whether a section of the response is named `name`.
pub fn has_section(sections: &Vec<Section>, name: &str) -> (r: bool)
    ensures
        r == section_names(sections@).contains(name@),
{
    for i in 0..sections.len()
        invariant
            forall|j: int| 0 <= j < i ==> sections@[j].section@ != name@,
    {
        if str_eq(sections[i].section.as_str(), name) {
            assert(section_names(sections@)[i as int] == name@);
            return true;
        }
    }
    assert forall|j: int| 0 <= j < section_names(sections@).len() implies section_names(
        sections@,
    )[j] != name@ by {}
    false
}

/// Whether a section response answers the request.
pub fn section_response_valid(
    sections: &Vec<Section>,
    requested: &str,
    allowed: &Vec<String>,
    expected: usize,
    document_bytes: usize,
) -> (r: bool)
    ensures
        r == section_response_ok(sections@, requested@, texts(allowed@), expected as nat, document_bytes),
{
    let ghost al = texts(allowed@);
    if sections.len() == 0 || sections.len() < expected || !has_section(sections, requested) {
        return false;
    }
    for a in 0..allowed.len()
        invariant
            al == texts(allowed@),
            forall|x: int| 0 <= x < a ==> section_names(sections@).contains(#[trigger] al[x]),
    {
        if !has_section(sections, allowed[a].as_str()) {
            assert(!section_names(sections@).contains(al[a as int]));
            return false;
        }
    }
    for k in 0..sections.len()
        invariant
            al == texts(allowed@),
            forall|x: int|
                0 <= x < k ==> returned_section_ok(#[trigger] sections@[x], al, document_bytes),
    {
        let s = &sections[k];
        if !contains_string(allowed, s.section.as_str()) || s.level < 1 || s.level > 6 || is_blank(
            s.title.as_str(),
        ) || s.content.as_str().len() > document_bytes {
            assert(!returned_section_ok(sections@[k as int], al, document_bytes));
            return false;
        }
    }
    true
}

/// A heading level that a filtered outline may return: 1 or 2 under
/// `--max-level 2`, exactly 2 under `--level 2`.
pub open spec fn filtered_level_ok(level: u8, through_level: bool) -> bool {
    if through_level {
        1 <= level <= 2
    } else {
        level == 2
    }
}

/// A filtered outline returned only headings of the requested levels.
pub open spec fn filtered_outline_ok(hs: Seq<Heading>, through_level: bool) -> bool {
    forall|k: int| 0 <= k < hs.len() ==> filtered_level_ok(#[trigger] hs[k].level, through_level)
}

/// Whether a filtered outline returned only headings of the requested levels.
pub fn filtered_outline_valid(headings: &Vec<Heading>, through_level: bool) -> (r: bool)
    ensures
        r == filtered_outline_ok(headings@, through_level),
{
    for k in 0..headings.len()
        invariant
            forall|x: int|
                0 <= x < k ==> filtered_level_ok(#[trigger] headings@[x].level, through_level),
    {
        let level = headings[k].level;
        let ok = if through_level {
            1 <= level && level <= 2
        } else {
            level == 2
        };
        if !ok {
            assert(!filtered_level_ok(headings@[k as int].level, through_level));
            return false;
        }
    }
    true
}

/// The command path `p` begins with the command path `prefix`.
pub open spec fn path_starts_with(p: Seq<Seq<char>>, prefix: Seq<Seq<char>>) -> bool {
    prefix.len() <= p.len() && p.take(prefix.len() as int) == prefix
}

/// Whether the command path `p` begins with the command path `prefix`.
pub fn path_has_prefix(p: &Vec<String>, prefix: &Vec<String>) -> (r: bool)
    ensures
        r == path_starts_with(texts(p@), texts(prefix@)),
{
    if prefix.len() > p.len() {
        return false;
    }
    for i in 0..prefix.len()
        invariant
            prefix.len() <= p.len(),
            forall|j: int| 0 <= j < i ==> p@[j]@ == prefix@[j]@,
    {
        if !str_eq(p[i].as_str(), prefix[i].as_str()) {
            assert(texts(p@).take(prefix.len() as int)[i as int] != texts(prefix@)[i as int]);
            return false;
        }
    }
    assert(texts(p@).take(prefix.len() as int) =~= texts(prefix@));
    true
}

/// A search result is valid: at or below the searched command path, with
/// a section name and a title that are not blank.
pub open spec fn search_result_ok(r: SearchResult, path: Seq<Seq<char>>) -> bool {
    path_starts_with(texts(r.command_path@), path) && !is_blank_text(r.section@)
        && !is_blank_text(r.title@)
}

/// A search response is valid: no more results than the limit, each valid.
pub open spec fn search_response_ok(rs: Seq<SearchResult>, path: Seq<Seq<char>>, max_results: usize) -> bool {
    rs.len() <= max_results && forall|k: int| 0 <= k < rs.len() ==> search_result_ok(#[trigger] rs[k], path)
}

/// Whether a search response is valid.
pub fn search_response_valid(results: &Vec<SearchResult>, path: &Vec<String>, max_results: usize) -> (r: bool)
    ensures
        r == search_response_ok(results@, texts(path@), max_results),
{
    if results.len() > max_results {
        return false;
    }
    for k in 0..results.len()
        invariant
            results.len() <= max_results,
            forall|x: int| 0 <= x < k ==> search_result_ok(#[trigger] results@[x], texts(path@)),
    {
        let r = &results[k];
        if !path_has_prefix(&r.command_path, path) || is_blank(r.section.as_str()) || is_blank(
            r.title.as_str(),
        ) {
            assert(!search_result_ok(results@[k as int], texts(path@)));
            return false;
        }
    }
    true
}

// ---------------------------------------------------------------------------
// Text of help output

/// The words of `s[i..]`, when `cur` holds the word in progress: the
/// maximal runs of characters that are not white space (`split_whitespace`).
pub open spec fn words_from(s: Seq<char>, i: int, cur: Seq<char>) -> Seq<Seq<char>>
    decreases s.len() - i,
{
    if i >= s.len() {
        if cur.len() > 0 {
            seq![cur]
        } else {
            Seq::empty()
        }
    } else if white_space(s[i]) {
        if cur.len() > 0 {
            seq![cur] + words_from(s, i + 1, Seq::empty())
        } else {
            words_from(s, i + 1, Seq::empty())
        }
    } else {
        words_from(s, i + 1, cur.push(s[i]))
    }
}

/// The words of `s`, in order (`str::split_whitespace`).
pub open spec fn words(s: Seq<char>) -> Seq<Seq<char>> {
    words_from(s, 0, Seq::empty())
}

/// The words of `s`, in order.
pub fn split_words(s: &str) -> (r: Vec<String>)
    ensures
        texts(r@) == words(s@),
{
    let cs = chars_of(s);
    let mut r: Vec<String> = Vec::new();
    let mut cur: Vec<char> = Vec::new();
    let mut i: usize = 0;
    while i < cs.len()
        invariant
            cs@ == s@,
            i <= cs.len(),
            texts(r@) + words_from(s@, i as int, cur@) == words(s@),
        decreases cs.len() - i,
    {
        let ghost old_cur = cur@;
        if char_is_whitespace(cs[i]) {
            if cur.len() > 0 {
                let ghost before = texts(r@);
                let ghost word = cur@;
                assert(words_from(s@, i as int, old_cur) == seq![word] + words_from(
                    s@,
                    i + 1,
                    Seq::empty(),
                ));
                r.push(string_of(&cur));
                assert(texts(r@) =~= before.push(word));
                assert(before + (seq![word] + words_from(s@, i + 1, Seq::empty())) =~= before.push(
                    word,
                ) + words_from(s@, i + 1, Seq::empty()));
                cur = Vec::new();
            } else {
                assert(old_cur =~= Seq::<char>::empty());
                assert(words_from(s@, i as int, old_cur) == words_from(s@, i + 1, Seq::empty()));
            }
        } else {
            assert(words_from(s@, i as int, old_cur) == words_from(s@, i + 1, old_cur.push(s@[i as int])));
            cur.push(cs[i]);
        }
        i = i + 1;
    }
    if cur.len() > 0 {
        let ghost before = texts(r@);
        r.push(string_of(&cur));
        assert(texts(r@) =~= before + seq![cur@]);
    } else {
        assert(texts(r@) =~= texts(r@) + words_from(s@, i as int, cur@));
    }
    r
}

/// Digits around a dot occur somewhere in `w`.
pub open spec fn has_dotted_digits(w: Seq<char>) -> bool {
    exists|i: int| 0 <= i && i + 2 < w.len() && #[trigger] is_digit(w[i]) && w[i + 1] == '.' && is_digit(w[i + 2])
}

fn dotted_digits(w: &str) -> (r: bool)
    ensures
        r == has_dotted_digits(w@),
{
    let cs = chars_of(w);
    let mut i: usize = 0;
    while cs.len() >= 3 && i < cs.len() - 2
        invariant
            cs@ == w@,
            forall|j: int| 0 <= j < i ==> !(j + 2 < w@.len() && #[trigger] is_digit(w@[j]) && w@[j + 1] == '.' && is_digit(w@[j + 2])),
        decreases cs.len() - i,
    {
        if char_is_digit(cs[i]) && cs[i + 1] == '.' && char_is_digit(cs[i + 2]) {
            return true;
        }
        i = i + 1;
    }
    false
}

/// A character that stays when a version word is trimmed: an ASCII letter
/// or digit, or a dot.
pub open spec fn version_char(c: char) -> bool {
    ||| 'a' <= c && c <= 'z'
    ||| 'A' <= c && c <= 'Z'
    ||| is_digit(c)
    ||| c == '.'
}

/// The characters that trimming keeps: version characters, or those that
/// are not white space.
pub open spec fn kept_char(c: char, version: bool) -> bool {
    if version {
        version_char(c)
    } else {
        !white_space(c)
    }
}

/// `a` is the first kept character of `s`.
pub open spec fn first_kept(s: Seq<char>, a: int, version: bool) -> bool {
    0 <= a < s.len() && kept_char(s[a], version) && forall|j: int| 0 <= j < a ==> !kept_char(#[trigger] s[j], version)
}

/// `b` is the last kept character of `s`.
pub open spec fn last_kept(s: Seq<char>, b: int, version: bool) -> bool {
    0 <= b < s.len() && kept_char(s[b], version) && forall|j: int| b < j < s.len() ==> !kept_char(#[trigger] s[j], version)
}

/// `s` without the characters that are not kept at either end: `str::trim`
/// when `version` is false, and the trimming of a version word otherwise.
pub open spec fn trimmed(s: Seq<char>, version: bool) -> Seq<char> {
    if exists|a: int| first_kept(s, a, version) {
        s.subrange(
            choose|a: int| first_kept(s, a, version),
            (choose|b: int| last_kept(s, b, version)) + 1,
        )
    } else {
        Seq::empty()
    }
}

fn keeps(c: char, version: bool) -> (r: bool)
    ensures
        r == kept_char(c, version),
{
    if version {
        ('a' <= c && c <= 'z') || ('A' <= c && c <= 'Z') || char_is_digit(c) || c == '.'
    } else {
        !char_is_whitespace(c)
    }
}

/// `s` trimmed of the characters that are not kept at either end.
pub fn trim_chars(s: &str, version: bool) -> (r: String)
    ensures
        r@ == trimmed(s@, version),
{
    let cs = chars_of(s);
    let n = cs.len();
    let mut a: usize = 0;
    while a < n && !keeps(cs[a], version)
        invariant
            cs@ == s@,
            n == cs.len(),
            a <= n,
            forall|j: int| 0 <= j < a ==> !kept_char(#[trigger] s@[j], version),
        decreases n - a,
    {
        a = a + 1;
    }
    if a == n {
        assert forall|x: int| !first_kept(s@, x, version) by {
            if 0 <= x < s@.len() && kept_char(s@[x], version) {
                assert(!kept_char(s@[x], version));
            }
        }
        return String::new();
    }
    let mut b: usize = n - 1;
    while !keeps(cs[b], version)
        invariant
            cs@ == s@,
            n == cs.len(),
            a <= b < n,
            kept_char(s@[a as int], version),
            forall|j: int| b < j < n ==> !kept_char(#[trigger] s@[j], version),
        decreases b,
    {
        b = b - 1;
    }
    assert(first_kept(s@, a as int, version));
    assert(last_kept(s@, b as int, version));
    let ghost ca = choose|x: int| first_kept(s@, x, version);
    let ghost cb = choose|x: int| last_kept(s@, x, version);
    assert(ca == a) by {
        if ca < a {
            assert(!kept_char(s@[ca], version));
        }
        if ca > a {
            assert(!kept_char(s@[a as int], version));
        }
    }
    assert(cb == b) by {
        if cb < b {
            assert(!kept_char(s@[b as int], version));
        }
        if cb > b {
            assert(!kept_char(s@[cb], version));
        }
    }
    let mut r = String::new();
    let mut k = a;
    while k <= b
        invariant
            cs@ == s@,
            a <= k <= b + 1,
            b < n,
            n == cs.len(),
            r@ == s@.subrange(a as int, k as int),
        decreases b + 1 - k,
    {
        crate::text::push_char(&mut r, cs[k]);
        assert(s@.subrange(a as int, k + 1) =~= s@.subrange(a as int, k as int).push(s@[k as int]));
        k = k + 1;
    }
    r
}

/// `i` is the first word of `ws` that holds digits around a dot.
pub open spec fn first_version_word(ws: Seq<Seq<char>>, i: int) -> bool {
    0 <= i < ws.len() && has_dotted_digits(ws[i]) && forall|j: int| 0 <= j < i ==> !has_dotted_digits(#[trigger] ws[j])
}

/// The version that `--version` printed: the first word of the output
/// that holds digits around a dot, trimmed of characters other than ASCII
/// letters, digits and dots at either end.
pub open spec fn version_in(stdout: Seq<char>) -> Option<Seq<char>> {
    let ws = words(stdout);
    if exists|i: int| first_version_word(ws, i) {
        Some(trimmed(ws[choose|i: int| first_version_word(ws, i)], true))
    } else {
        None
    }
}

/// The version that `--version` printed, if any.
pub fn extract_version(stdout: &str) -> (r: Option<String>)
    ensures
        match r {
            Some(v) => version_in(stdout@) == Some(v@),
            None => version_in(stdout@) is None,
        },
{
    let ws = split_words(stdout);
    let ghost wv = words(stdout@);
    for i in 0..ws.len()
        invariant
            texts(ws@) == wv,
            wv == words(stdout@),
            forall|j: int| 0 <= j < i ==> !has_dotted_digits(#[trigger] wv[j]),
    {
        assert(wv[i as int] == ws@[i as int]@);
        if dotted_digits(ws[i].as_str()) {
            assert(first_version_word(wv, i as int));
            let ghost c = choose|x: int| first_version_word(wv, x);
            assert(c == i) by {
                if c < i {
                    assert(!has_dotted_digits(wv[c]));
                }
                if c > i {
                    assert(!has_dotted_digits(wv[i as int]));
                }
            }
            return Some(trim_chars(ws[i].as_str(), true));
        }
    }
    assert forall|x: int| !first_version_word(wv, x) by {
        if 0 <= x < wv.len() && has_dotted_digits(wv[x]) {
            assert(!has_dotted_digits(wv[x]));
        }
    }
    None
}

/// `help --programmatic` kept the default help and, in any case, speaks of
/// JSON and of sections.
pub open spec fn programmatic_help_ok(programmatic: Seq<char>, help: Seq<char>) -> bool {
    &&& contains_text(programmatic, help)
    &&& contains_text(lowercase(programmatic), "json"@)
    &&& contains_text(lowercase(programmatic), "section"@)
}

/// Whether `help --programmatic` kept the default help and speaks of JSON
/// and of sections.
pub fn programmatic_help_valid(programmatic: &str, help: &str) -> (r: bool)
    ensures
        r == programmatic_help_ok(programmatic@, help@),
{
    let lower = to_lowercase(programmatic);
    contains_str(programmatic, help) && contains_str(lower.as_str(), "json") && contains_str(
        lower.as_str(),
        "section",
    )
}

/// A web view exited with status 0, wrote an HTTP or HTTPS URL, and the
/// output holds the version that `--version` printed.
pub open spec fn web_view_ok(exit_status: Option<i32>, stdout: Seq<char>, version: Option<Seq<char>>) -> bool {
    &&& exit_status == Some(0i32)
    &&& (starts_with_text(trimmed(stdout, false), "https://"@) || starts_with_text(
        trimmed(stdout, false),
        "http://"@,
    ))
    &&& match version {
        Some(v) => contains_text(stdout, v),
        None => false,
    }
}

/// Whether a web view exited with status 0, wrote an HTTP or HTTPS URL, and
/// holds the version.
pub fn web_view_valid(exit_status: Option<i32>, stdout: &str, version: &Option<String>) -> (r: bool)
    ensures
        r == web_view_ok(
            exit_status,
            stdout@,
            match version {
                Some(v) => Some(v@),
                None => None,
            },
        ),
{
    let exited = match exit_status {
        Some(status) => status == 0,
        None => false,
    };
    if !exited {
        return false;
    }
    let t = trim_chars(stdout, false);
    if !(crate::text::starts_with_str(t.as_str(), "https://") || crate::text::starts_with_str(
        t.as_str(),
        "http://",
    )) {
        return false;
    }
    match version {
        Some(v) => contains_str(stdout, v.as_str()),
        None => false,
    }
}

/// An unknown section was refused: a non-zero exit status, and the error
/// output names the section argument.
pub open spec fn unknown_section_ok(exit_status: Option<i32>, stderr: Seq<char>) -> bool {
    &&& exit_status matches Some(status)
    &&& status != 0
    &&& contains_text(lowercase(stderr), "section"@)
}

/// Whether an unknown section was refused.
pub fn unknown_section_valid(exit_status: Option<i32>, stderr: &str) -> (r: bool)
    ensures
        r == unknown_section_ok(exit_status, stderr@),
{
    match exit_status {
        Some(status) => {
            if status == 0 {
                false
            } else {
                let lower = to_lowercase(stderr);
                contains_str(lower.as_str(), "section")
            }
        },
        None => false,
    }
}

// ---------------------------------------------------------------------------
// The collector

/// What a help command is for, and what its answer is checked against.
#[derive(Debug)]
pub enum HelpTask {
    Version,
    Overview,
    SharedHelp,
    OptionHelp,
    ProgrammaticHelp,
    ProgrammaticOverview,
    Outline { programmatic: bool },
    Section {
        programmatic: bool,
        recursive: bool,
        requested: String,
        allowed: Vec<String>,
        expected: usize,
    },
    UnknownSection { programmatic: bool },
    FilteredOutline { programmatic: bool, through_level: bool },
    Search { programmatic: bool },
    SearchSection { programmatic: bool, section: String },
    LocalView,
    ProgrammaticLocalView,
    WebView,
    ProgrammaticWebView,
}

/// A help command still to run: the command path it runs at and its task.
#[derive(Debug)]
struct PendingTask {
    path: Vec<String>,
    task: HelpTask,
}

/// One help command to run. `invocation` runs it; `document` says which
/// JSON document to read from its standard output, if any; `task` is what
/// the command is for.
#[derive(Debug)]
pub struct HelpCommand {
    pub command_path: Vec<String>,
    pub invocation: InvocationSpec,
    pub operation: String,
    pub behavior: HierarchicalHelpBehavior,
    pub requested_section: Option<String>,
    pub document: Option<DocumentKind>,
    pub task: HelpTask,
}

/// The section name that no target is expected to know.
pub const UNKNOWN_SECTION: &'static str = "clilint-unknown-section-7f3d";

/// The state of the hierarchical help check.
pub struct HelpCollector {
    limits: HelpLimits,
    observations: Vec<HelpObservation>,
    failures: Vec<HelpValidationFailure>,
    command_paths: Vec<Vec<String>>,
    total_commands: usize,
    tool_version: Option<String>,
    pending: Vec<Vec<String>>,
    next_pending: usize,
    seen: Vec<Vec<String>>,
    tasks: Vec<PendingTask>,
    help: Option<(Option<i32>, String)>,
    local_view: Option<String>,
    finished: bool,
}

/// Command paths as plain values.
pub open spec fn path_views(ps: Seq<Vec<String>>) -> Seq<Seq<Seq<char>>> {
    ps.map_values(|p: Vec<String>| texts(p@))
}

/// No command path occurs twice.
pub open spec fn distinct_paths(ps: Seq<Seq<Seq<char>>>) -> bool {
    forall|i: int, j: int| 0 <= i < j < ps.len() ==> ps[i] != ps[j]
}

impl HelpCollector {
    /// The limits the check runs under.
    pub closed spec fn limits_of(&self) -> HelpLimits {
        self.limits
    }

    /// How many help commands were handed out to run.
    pub closed spec fn commands_started(&self) -> nat {
        self.total_commands as nat
    }

    /// The command paths explored so far, in order.
    pub closed spec fn explored_paths(&self) -> Seq<Seq<Seq<char>>> {
        path_views(self.command_paths@)
    }

    /// The expectations missed so far, in order.
    pub closed spec fn failures_of(&self) -> Seq<HelpValidationFailure> {
        self.failures@
    }

    /// The help commands that ran, in order.
    pub closed spec fn observations_of(&self) -> Seq<HelpObservation> {
        self.observations@
    }

    /// No help command is left to run.
    pub closed spec fn is_finished(&self) -> bool {
        self.finished
    }

    /// The exit status and output of `help` at the current command path,
    /// once it ran.
    pub closed spec fn help_seen(&self) -> Option<(Option<i32>, Seq<char>)> {
        match self.help {
            Some(h) => Some((h.0, h.1@)),
            None => None,
        }
    }

    /// The output of the local view at the current command path, once it ran.
    pub closed spec fn local_view_seen(&self) -> Option<Seq<char>> {
        match self.local_view {
            Some(s) => Some(s@),
            None => None,
        }
    }

    /// The version that `--version` printed, once found.
    pub closed spec fn version_seen(&self) -> Option<Seq<char>> {
        match self.tool_version {
            Some(s) => Some(s@),
            None => None,
        }
    }

    /// The help commands queued to run next, first first: the command
    /// path each runs at and its task.
    pub closed spec fn queue(&self) -> Seq<(Seq<Seq<char>>, HelpTask)> {
        Seq::new(
            self.tasks@.len(),
            |i: int|
                {
                    let t = self.tasks@[self.tasks@.len() - 1 - i];
                    (texts(t.path@), t.task)
                },
        )
    }

    /// The command paths still to explore, first first.
    pub closed spec fn paths_to_explore(&self) -> Seq<Seq<Seq<char>>> {
        path_views(self.pending@.subrange(self.next_pending as int, self.pending@.len() as int))
    }

    /// The command paths seen so far, in order.
    pub closed spec fn seen_paths(&self) -> Seq<Seq<Seq<char>>> {
        path_views(self.seen@)
    }

    /// The collector's invariant: its fields agree with one another and
    /// with the limits, and command paths are explored in order.
    pub closed spec fn wf(&self) -> bool {
        self.consistent() && explores_in_order(self.state())
    }

    /// The state as plain values.
    pub open spec fn state(&self) -> HelpState {
        HelpState {
            queue: self.queue(),
            to_explore: self.paths_to_explore(),
            seen: self.seen_paths(),
            explored: self.explored_paths(),
            failures: failure_views(self.failures_of()),
            started: self.commands_started(),
            finished: self.is_finished(),
            help: self.help_seen(),
            local_view: self.local_view_seen(),
            version: self.version_seen(),
        }
    }

    spec fn consistent(&self) -> bool {
        let cp = path_views(self.command_paths@);
        let seen = path_views(self.seen@);
        &&& self.total_commands <= self.limits.total_commands
        &&& self.next_pending <= self.pending@.len()
        &&& cp.len() <= seen.len()
        &&& cp.len() <= self.limits.command_count
        &&& forall|i: int| 0 <= i < cp.len() ==> (#[trigger] cp[i]).len() <= self.limits.command_depth
        &&& forall|i: int| 0 <= i < cp.len() ==> seen.contains(#[trigger] cp[i])
        &&& distinct_paths(cp)
    }

    /// A collector that has run nothing yet; it starts at the root command
    /// path and asks for `--version` first.
    pub fn new(limits: HelpLimits) -> (r: Self)
        ensures
            r.wf(),
            r.limits_of() == limits,
            r.commands_started() == 0,
            r.explored_paths().len() == 0,
            r.failures_of().len() == 0,
            r.observations_of().len() == 0,
            !r.is_finished(),
            r.queue() == seq![(Seq::<Seq<char>>::empty(), HelpTask::Version)],
            r.paths_to_explore() == seq![Seq::<Seq<char>>::empty()],
            r.seen_paths().len() == 0,
            r.help_seen() is None,
            r.local_view_seen() is None,
            r.version_seen() is None,
    {
        let mut pending: Vec<Vec<String>> = Vec::new();
        pending.push(Vec::new());
        let mut tasks: Vec<PendingTask> = Vec::new();
        tasks.push(PendingTask { path: Vec::new(), task: HelpTask::Version });
        let r = HelpCollector {
            limits,
            observations: Vec::new(),
            failures: Vec::new(),
            command_paths: Vec::new(),
            total_commands: 0,
            tool_version: None,
            pending,
            next_pending: 0,
            seen: Vec::new(),
            tasks,
            help: None,
            local_view: None,
            finished: false,
        };
        assert(path_views(r.command_paths@) =~= Seq::empty());
        assert(texts(r.tasks@[0].path@) =~= Seq::<Seq<char>>::empty());
        assert(texts(r.pending@[0]@) =~= Seq::<Seq<char>>::empty());
        assert(r.queue() =~= seq![(Seq::<Seq<char>>::empty(), HelpTask::Version)]);
        assert(r.paths_to_explore() =~= seq![Seq::<Seq<char>>::empty()]);
        assert(r.seen_paths() =~= Seq::empty());
        r
    }
}

/// Adds a failure of `behavior` at `path` with `message`.
fn add_failure(
    failures: &mut Vec<HelpValidationFailure>,
    behavior: HierarchicalHelpBehavior,
    path: &Vec<String>,
    message: &str,
)
    ensures
        final(failures)@.len() == old(failures)@.len() + 1,
        final(failures)@.take(old(failures)@.len() as int) == old(failures)@,
        failure_view(final(failures)@.last()) == failure_of(behavior, texts(path@), message@),
        extends(old(failures)@, final(failures)@),
        failure_views(final(failures)@) == failure_views(old(failures)@).push(
            failure_of(behavior, texts(path@), message@),
        ),
{
    let f = failure(behavior, path, message);
    failures.push(f);
    assert(final(failures)@.take(old(failures)@.len() as int) =~= old(failures)@);
    assert(failure_views(final(failures)@) =~= failure_views(old(failures)@).push(
        failure_of(behavior, texts(path@), message@),
    ));
}

/// `n` copies of a failure.
pub open spec fn copies(
    f: (HierarchicalHelpBehavior, Seq<Seq<char>>, Seq<char>),
    n: nat,
) -> Seq<(HierarchicalHelpBehavior, Seq<Seq<char>>, Seq<char>)> {
    Seq::new(n, |i: int| f)
}

/// Adds `count` copies of a failure.
fn add_failures(
    failures: &mut Vec<HelpValidationFailure>,
    behavior: HierarchicalHelpBehavior,
    path: &Vec<String>,
    message: &str,
    count: usize,
)
    ensures
        extends(old(failures)@, final(failures)@),
        failure_views(final(failures)@) == failure_views(old(failures)@) + copies(
            failure_of(behavior, texts(path@), message@),
            count as nat,
        ),
{
    let ghost f = failure_of(behavior, texts(path@), message@);
    let mut i: usize = 0;
    proof {
        lemma_extends_refl(failures@);
        assert(failure_views(failures@) =~= failure_views(old(failures)@) + copies(f, 0));
    }
    while i < count
        invariant
            i <= count,
            f == failure_of(behavior, texts(path@), message@),
            extends(old(failures)@, failures@),
            failure_views(failures@) == failure_views(old(failures)@) + copies(f, i as nat),
        decreases count - i,
    {
        let ghost before = failures@;
        add_failure(failures, behavior, path, message);
        proof {
            lemma_extends_trans(old(failures)@, before, failures@);
            assert(failure_views(failures@) =~= failure_views(old(failures)@) + copies(f, (i + 1) as nat));
        }
        i = i + 1;
    }
}

/// Appends `s` to the argument list.
fn push_arg(args: &mut Vec<String>, s: &str)
    ensures
        texts(final(args)@) == texts(old(args)@).push(s@),
{
    args.push(String::from_str(s));
    assert(texts(final(args)@) =~= texts(old(args)@).push(s@));
}

/// The operation name of a task.
fn task_operation(task: &HelpTask) -> (r: &'static str)
    ensures
        r@ == task_operation_name(*task),
{
    match task {
        HelpTask::Version => "web-version",
        HelpTask::Overview => "overview",
        HelpTask::SharedHelp => "shared-help",
        HelpTask::OptionHelp => "help-option",
        HelpTask::ProgrammaticHelp => "programmatic-help",
        HelpTask::ProgrammaticOverview => "programmatic-overview",
        HelpTask::Outline { programmatic } => if *programmatic {
            "programmatic-outline"
        } else {
            "outline"
        },
        HelpTask::Section { recursive, .. } => if *recursive {
            "recursive-section"
        } else {
            "section"
        },
        HelpTask::UnknownSection { .. } => "section",
        HelpTask::FilteredOutline { .. } => "outline",
        HelpTask::Search { programmatic } => if *programmatic {
            "programmatic-search"
        } else {
            "search"
        },
        HelpTask::SearchSection { .. } => "search-section",
        HelpTask::LocalView => "local-view",
        HelpTask::ProgrammaticLocalView => "local-view",
        HelpTask::WebView => "web-view",
        HelpTask::ProgrammaticWebView => "web-view",
    }
}

/// The JSON document a task reads, if any.
pub open spec fn task_document(task: HelpTask) -> Option<DocumentKind> {
    match task {
        HelpTask::Overview | HelpTask::ProgrammaticOverview => Some(DocumentKind::Overview),
        HelpTask::Outline { .. } | HelpTask::FilteredOutline { .. } => Some(DocumentKind::Outline),
        HelpTask::Section { .. } | HelpTask::SearchSection { .. } => Some(DocumentKind::Section),
        HelpTask::Search { .. } => Some(DocumentKind::Search),
        _ => None,
    }
}

fn document_of_task(task: &HelpTask) -> (r: Option<DocumentKind>)
    ensures
        r == task_document(*task),
{
    match task {
        HelpTask::Overview | HelpTask::ProgrammaticOverview => Some(DocumentKind::Overview),
        HelpTask::Outline { .. } | HelpTask::FilteredOutline { .. } => Some(DocumentKind::Outline),
        HelpTask::Section { .. } | HelpTask::SearchSection { .. } => Some(DocumentKind::Section),
        HelpTask::Search { .. } => Some(DocumentKind::Search),
        _ => None,
    }
}

/// The arguments a task adds after the command path.
fn task_arguments(task: &HelpTask) -> (r: Vec<String>)
    ensures
        texts(r@) == task_suffix(*task),
{
    let mut a: Vec<String> = Vec::new();
    match task {
        HelpTask::Version => {
            push_arg(&mut a, "--version");
        },
        HelpTask::Overview => {
            push_arg(&mut a, "help");
            push_arg(&mut a, "--format");
            push_arg(&mut a, "json");
        },
        HelpTask::SharedHelp => {
            push_arg(&mut a, "help");
        },
        HelpTask::OptionHelp => {
            push_arg(&mut a, "--help");
        },
        HelpTask::ProgrammaticHelp => {
            push_arg(&mut a, "help");
            push_arg(&mut a, "--programmatic");
        },
        HelpTask::ProgrammaticOverview => {
            push_arg(&mut a, "help");
            push_arg(&mut a, "--programmatic");
            push_arg(&mut a, "--format");
            push_arg(&mut a, "json");
        },
        HelpTask::Outline { programmatic } => {
            push_arg(&mut a, "help");
            push_arg(&mut a, "outline");
            if *programmatic {
                push_arg(&mut a, "--programmatic");
            }
            push_arg(&mut a, "--format");
            push_arg(&mut a, "json");
        },
        HelpTask::Section { programmatic, recursive, requested, .. } => {
            push_arg(&mut a, "help");
            push_arg(&mut a, "section");
            push_arg(&mut a, requested.as_str());
            if *recursive {
                push_arg(&mut a, "--recursive");
            }
            if *programmatic {
                push_arg(&mut a, "--programmatic");
            }
            push_arg(&mut a, "--format");
            push_arg(&mut a, "json");
        },
        HelpTask::UnknownSection { programmatic } => {
            push_arg(&mut a, "help");
            push_arg(&mut a, "section");
            push_arg(&mut a, UNKNOWN_SECTION);
            if *programmatic {
                push_arg(&mut a, "--programmatic");
            }
            push_arg(&mut a, "--format");
            push_arg(&mut a, "json");
        },
        HelpTask::FilteredOutline { programmatic, through_level } => {
            push_arg(&mut a, "help");
            push_arg(&mut a, "outline");
            if *programmatic {
                push_arg(&mut a, "--programmatic");
            }
            if *through_level {
                push_arg(&mut a, "--max-level");
            } else {
                push_arg(&mut a, "--level");
            }
            push_arg(&mut a, "2");
            push_arg(&mut a, "--format");
            push_arg(&mut a, "json");
        },
        HelpTask::Search { programmatic } => {
            push_arg(&mut a, "help");
            push_arg(&mut a, "search");
            if *programmatic {
                push_arg(&mut a, "programmatic");
                push_arg(&mut a, "--programmatic");
            } else {
                push_arg(&mut a, "permissions");
            }
            push_arg(&mut a, "--format");
            push_arg(&mut a, "json");
        },
        HelpTask::SearchSection { programmatic, section } => {
            push_arg(&mut a, "help");
            push_arg(&mut a, "section");
            push_arg(&mut a, section.as_str());
            if *programmatic {
                push_arg(&mut a, "--programmatic");
            }
            push_arg(&mut a, "--format");
            push_arg(&mut a, "json");
        },
        HelpTask::LocalView => {
            push_arg(&mut a, "help");
            push_arg(&mut a, "view");
        },
        HelpTask::ProgrammaticLocalView => {
            push_arg(&mut a, "help");
            push_arg(&mut a, "view");
            push_arg(&mut a, "--programmatic");
        },
        HelpTask::WebView => {
            push_arg(&mut a, "help");
            push_arg(&mut a, "view");
            push_arg(&mut a, "--web");
        },
        HelpTask::ProgrammaticWebView => {
            push_arg(&mut a, "help");
            push_arg(&mut a, "view");
            push_arg(&mut a, "--web");
            push_arg(&mut a, "--programmatic");
        },
    }
    a
}

/// The section a task requests, if any.
fn task_requested_section(task: &HelpTask) -> (r: Option<String>)
    ensures
        match r {
            Some(s) => task_section(*task) == Some(s@),
            None => task_section(*task) is None,
        },
{
    match task {
        HelpTask::Section { requested, .. } => Some(requested.clone()),
        HelpTask::UnknownSection { .. } => Some(String::from_str(UNKNOWN_SECTION)),
        HelpTask::SearchSection { section, .. } => Some(section.clone()),
        _ => None,
    }
}

/// The help environment: `CLILINT_OFFLINE=1` and `NO_COLOR=1`, and
/// nothing else.
pub open spec fn is_help_environment(m: Map<String, String>) -> bool {
    exists|offline: String, one: String, no_color: String, also_one: String|
        #![trigger Map::<String, String>::empty().insert(offline, one).insert(no_color, also_one)]
        offline@ == "CLILINT_OFFLINE"@ && one@ == "1"@ && no_color@ == "NO_COLOR"@ && also_one@
            == "1"@ && m == Map::<String, String>::empty().insert(offline, one).insert(
            no_color,
            also_one,
        )
}

/// The environment every help command runs with: offline and without
/// color. `BTreeMap::insert` is specified for keys whose order obeys the
/// laws of `Ord`, which vstd does not establish for `String`; the
/// contract is stated under that condition.
fn help_environment() -> (r: std::collections::BTreeMap<String, String>)
    ensures
        vstd::laws_cmp::obeys_cmp::<String>() ==> is_help_environment(r@),
{
    let mut env: std::collections::BTreeMap<String, String> = std::collections::BTreeMap::new();
    let offline = String::from_str("CLILINT_OFFLINE");
    let one = String::from_str("1");
    let no_color = String::from_str("NO_COLOR");
    let also_one = String::from_str("1");
    let ghost (k1, v1, k2, v2) = (offline, one, no_color, also_one);
    env.insert(offline, one);
    env.insert(no_color, also_one);
    proof {
        if vstd::laws_cmp::obeys_cmp::<String>() {
            assert(env@ == Map::<String, String>::empty().insert(k1, v1).insert(k2, v2));
            assert(is_help_environment(env@));
        }
    }
    env
}

/// A help command is well formed: its arguments begin with its command
/// path, it gets no standard input, it runs with the help timeout and
/// the help environment, and its behavior is the one its operation names.
pub open spec fn command_ok(c: HelpCommand, limits: HelpLimits) -> bool {
    &&& path_starts_with(texts(c.invocation.args@), texts(c.command_path@))
    &&& c.invocation.stdin is None
    &&& c.invocation.timeout_ms == Some(limits.timeout_ms)
    &&& vstd::laws_cmp::obeys_cmp::<String>() ==> is_help_environment(c.invocation.env@)
    &&& c.behavior == behavior_of_operation(c.operation@)
    &&& c.document == task_document(c.task)
    &&& texts(c.invocation.args@) == texts(c.command_path@) + task_suffix(c.task)
    &&& c.operation@ == task_operation_name(c.task)
    &&& match c.requested_section {
        Some(s) => task_section(c.task) == Some(s@),
        None => task_section(c.task) is None,
    }
}

/// The command that runs a pending task.
fn command_for(pending: PendingTask, limits: &HelpLimits) -> (r: HelpCommand)
    ensures
        command_ok(r, *limits),
        texts(r.command_path@) == texts(pending.path@),
        r.task == pending.task,
{
    let PendingTask { path, task } = pending;
    let op = task_operation(&task);
    let behavior = operation_behavior(op);
    let suffix = task_arguments(&task);
    let mut args = clone_strings(&path);
    let ghost start = texts(args@);
    for i in 0..suffix.len()
        invariant
            texts(args@) == start + texts(suffix@).take(i as int),
    {
        let ghost before = texts(args@);
        let arg = suffix[i].clone();
        args.push(arg);
        assert(texts(args@) =~= before.push(suffix@[i as int]@));
        assert(texts(suffix@).take(i + 1) =~= texts(suffix@).take(i as int).push(
            suffix@[i as int]@,
        ));
        assert(texts(args@) =~= start + texts(suffix@).take(i + 1));
    }
    assert(texts(suffix@).take(suffix.len() as int) =~= texts(suffix@));
    assert(texts(args@).take(texts(path@).len() as int) =~= texts(path@));
    HelpCommand {
        command_path: path,
        invocation: InvocationSpec {
            args,
            env: help_environment(),
            stdin: None,
            timeout_ms: Some(limits.timeout_ms),
        },
        operation: String::from_str(op),
        behavior,
        requested_section: task_requested_section(&task),
        document: document_of_task(&task),
        task,
    }
}

/// `b` begins with all of `a`: what was recorded stays recorded.
pub open spec fn extends<T>(a: Seq<T>, b: Seq<T>) -> bool {
    a.len() <= b.len() && b.take(a.len() as int) == a
}

proof fn lemma_extends_trans<T>(a: Seq<T>, b: Seq<T>, c: Seq<T>)
    requires
        extends(a, b),
        extends(b, c),
    ensures
        extends(a, c),
{
    assert(c.take(a.len() as int) =~= c.take(b.len() as int).take(a.len() as int));
}

proof fn lemma_extends_refl<T>(a: Seq<T>)
    ensures
        extends(a, a),
{
    assert(a.take(a.len() as int) =~= a);
}

/// Whether `paths` holds the command path `path`.
fn contains_path(paths: &Vec<Vec<String>>, path: &Vec<String>) -> (r: bool)
    ensures
        r == path_views(paths@).contains(texts(path@)),
{
    for i in 0..paths.len()
        invariant
            forall|j: int| 0 <= j < i ==> texts(paths@[j]@) != texts(path@),
    {
        if strings_eq(&paths[i], path) {
            assert(path_views(paths@)[i as int] == texts(path@));
            return true;
        }
    }
    assert forall|j: int| 0 <= j < path_views(paths@).len() implies path_views(paths@)[j] != texts(
        path@,
    ) by {}
    false
}

/// The state of a help collector as plain values: the queued commands,
/// the command paths still to explore, those seen and those explored, the
/// failures, how many commands were handed out, whether the check is over,
/// and the answers kept for later comparisons.
#[verifier::ext_equal]
pub struct HelpState {
    pub queue: Seq<(Seq<Seq<char>>, HelpTask)>,
    pub to_explore: Seq<Seq<Seq<char>>>,
    pub seen: Seq<Seq<Seq<char>>>,
    pub explored: Seq<Seq<Seq<char>>>,
    pub failures: Seq<FailureView>,
    pub started: nat,
    pub finished: bool,
    pub help: Option<(Option<i32>, Seq<char>)>,
    pub local_view: Option<Seq<char>>,
    pub version: Option<Seq<char>>,
}

/// Command paths are explored in order: a path below the root is explored
/// after its parent, a path waits to be explored only below an explored
/// path, and an overview is queued only at an explored path.
pub open spec fn explores_in_order(s: HelpState) -> bool {
    &&& forall|i: int|
        #![trigger s.explored[i]]
        0 <= i < s.explored.len() && s.explored[i].len() > 0 ==> exists|j: int|
            #![trigger s.explored[j]]
            0 <= j < i && s.explored[j] == s.explored[i].drop_last()
    &&& forall|k: int|
        #![trigger s.to_explore[k]]
        0 <= k < s.to_explore.len() && s.to_explore[k].len() > 0 ==> s.explored.contains(
            s.to_explore[k].drop_last(),
        )
    &&& forall|k: int|
        #![trigger s.queue[k]]
        0 <= k < s.queue.len() && s.queue[k].1 is Overview ==> s.explored.contains(s.queue[k].0)
}

/// A queued command that the total command limit refuses: the limit is
/// recorded at its path, then what its missing answer leads to.
pub open spec fn refused(s: HelpState, path: Seq<Seq<char>>, task: HelpTask) -> HelpState {
    HelpState {
        failures: s.failures.push(
            failure_of(
                behavior_of_operation(task_operation_name(task)),
                path,
                "total help command limit exceeded"@,
            ),
        ) + unanswered_failures(task, path),
        help: if task is SharedHelp {
            None
        } else {
            s.help
        },
        local_view: if task is LocalView {
            None
        } else {
            s.local_view
        },
        ..s
    }
}

/// Takes the first command path to explore: a path seen before, one deeper
/// than the depth limit, or one past the count limit is recorded as a
/// command discovery failure (the last ends the check); any other path is
/// explored and its help commands are queued.
pub open spec fn explore_step(s: HelpState, limits: HelpLimits) -> HelpState
    recommends
        s.to_explore.len() > 0,
{
    let path = s.to_explore[0];
    let rest = s.to_explore.drop_first();
    if s.seen.contains(path) {
        HelpState {
            to_explore: rest,
            failures: s.failures.push(
                failure_of(
                    HierarchicalHelpBehavior::CommandDiscovery,
                    path,
                    "command hierarchy contains a duplicate path"@,
                ),
            ),
            ..s
        }
    } else if path.len() > limits.command_depth {
        HelpState {
            to_explore: rest,
            seen: s.seen.push(path),
            failures: s.failures.push(
                failure_of(
                    HierarchicalHelpBehavior::CommandDiscovery,
                    path,
                    "command depth limit exceeded"@,
                ),
            ),
            ..s
        }
    } else if s.seen.len() + 1 > limits.command_count {
        HelpState {
            to_explore: rest,
            seen: s.seen.push(path),
            failures: s.failures.push(
                failure_of(
                    HierarchicalHelpBehavior::CommandDiscovery,
                    path,
                    "command count limit exceeded"@,
                ),
            ),
            finished: true,
            ..s
        }
    } else {
        HelpState {
            queue: path_tasks(path),
            to_explore: rest,
            seen: s.seen.push(path),
            explored: s.explored.push(path),
            ..s
        }
    }
}

/// The next help command and the state after it is handed out: queued
/// commands come first, in order, while the total command limit allows
/// them (a refused one is recorded and skipped); when none is queued, the
/// next command path is explored; the check is over when nothing is left.
pub open spec fn next_step(s: HelpState, limits: HelpLimits) -> (
    Option<(Seq<Seq<char>>, HelpTask)>,
    HelpState,
)
    decreases s.to_explore.len(), s.queue.len(),
{
    if s.finished {
        (None, s)
    } else if s.queue.len() > 0 {
        if s.started < limits.total_commands {
            (Some(s.queue[0]), HelpState { queue: s.queue.drop_first(), started: s.started + 1, ..s })
        } else {
            next_step(
                refused(HelpState { queue: s.queue.drop_first(), ..s }, s.queue[0].0, s.queue[0].1),
                limits,
            )
        }
    } else if s.to_explore.len() == 0 {
        (None, HelpState { finished: true, ..s })
    } else {
        next_step(explore_step(s, limits), limits)
    }
}

/// The commands a document leads to hold no overview: every overview
/// queued after it was queued before.
proof fn lemma_followups_add_no_overview(
    task: HelpTask,
    path: Seq<Seq<char>>,
    doc: HelpDocument,
    limits: HelpLimits,
    before: Seq<(Seq<Seq<char>>, HelpTask)>,
    after: Seq<(Seq<Seq<char>>, HelpTask)>,
    k: int,
)
    requires
        document_followups(task, path, doc, limits, before, after),
        0 <= k < after.len(),
        after[k].1 is Overview,
    ensures
        before.contains(after[k]),
{
    match task {
        HelpTask::Outline { programmatic } => match doc {
            HelpDocument::Outline(o) => {
                let hs = kept_headings(o.headings@);
                let n = 2 * (hs.len() as int) + 3;
                let q = after.take(n);
                if k < n {
                    assert(q[k] == after[k]);
                    if k < 2 * (hs.len() as int) {
                        let h = k / 2;
                        assert(0 <= h < hs.len());
                        assert(outline_followups(q, path, programmatic, hs));
                        assert(section_task_is(
                            q[2 * h],
                            path,
                            programmatic,
                            false,
                            hs[h].section@,
                            seq![hs[h].section@],
                            section_count(hs, hs[h].section@),
                        ));
                        assert(section_task_is(
                            q[2 * h + 1],
                            path,
                            programmatic,
                            true,
                            hs[h].section@,
                            recursive_sections(hs, h),
                            section_count(hs, hs[h].section@),
                        ));
                        assert(k == 2 * h || k == 2 * h + 1);
                    }
                } else {
                    assert(after.skip(n)[k - n] == after[k]);
                    assert(before[k - n] == after[k]);
                }
            },
            _ => {
                assert(before[k] == after[k]);
            },
        },
        HelpTask::Search { programmatic } => match doc {
            HelpDocument::Search(r) => {
                if search_response_ok(r.results@, path, limits.search_results) {
                    let n = r.results@.len() as int;
                    if k < n {
                        assert(after.take(n)[k] == after[k]);
                        assert(search_task_is(after.take(n)[k], programmatic, r.results@[k]));
                    } else {
                        assert(after.skip(n)[k - n] == after[k]);
                        assert(before[k - n] == after[k]);
                    }
                } else {
                    assert(before[k] == after[k]);
                }
            },
            _ => {
                assert(before[k] == after[k]);
            },
        },
        _ => {
            assert(before[k] == after[k]);
        },
    }
}

/// Answering a command keeps paths explored in order when an overview
/// answered was at an explored path.
proof fn lemma_answer_in_order(
    s0: HelpState,
    s1: HelpState,
    command: HelpCommand,
    reply: Result<Observation, String>,
    document: Option<Result<HelpDocument, String>>,
    limits: HelpLimits,
)
    requires
        explores_in_order(s0),
        s1.explored == s0.explored,
        command.task is Overview ==> s0.explored.contains(texts(command.command_path@)),
        match readable_document(command, reply, document, limits) {
            Some(d) => document_followups(
                command.task,
                texts(command.command_path@),
                d,
                limits,
                s0.queue,
                s1.queue,
            ) && s1.to_explore == s0.to_explore + document_paths(
                command.task,
                texts(command.command_path@),
                d,
            ),
            None => s1.queue == s0.queue && s1.to_explore == s0.to_explore,
        },
    ensures
        explores_in_order(s1),
{
    let path = texts(command.command_path@);
    assert forall|i: int|
        #![trigger s1.explored[i]]
        0 <= i < s1.explored.len() && s1.explored[i].len() > 0 implies exists|j: int|
        #![trigger s1.explored[j]]
        0 <= j < i && s1.explored[j] == s1.explored[i].drop_last() by {
        assert(s0.explored[i] == s1.explored[i]);
        let j = choose|j: int| 0 <= j < i && #[trigger] s0.explored[j] == s0.explored[i].drop_last();
    }
    match readable_document(command, reply, document, limits) {
        Some(d) => {
            let extra = document_paths(command.task, path, d);
            assert forall|k: int|
                #![trigger s1.to_explore[k]]
                0 <= k < s1.to_explore.len() && s1.to_explore[k].len() > 0 implies s1.explored.contains(
                s1.to_explore[k].drop_last(),
            ) by {
                if k < s0.to_explore.len() {
                    assert(s1.to_explore[k] == s0.to_explore[k]);
                } else {
                    let m = k - s0.to_explore.len();
                    assert(s1.to_explore[k] == extra[m]);
                    match command.task {
                        HelpTask::Overview => match d {
                            HelpDocument::Overview(ov) => {
                                let names = kept_child_names(child_names(ov.child_commands@));
                                assert(extra[m] == path.push(names[m]));
                                assert(path.push(names[m]).drop_last() =~= path);
                            },
                            _ => {},
                        },
                        _ => {},
                    }
                }
            }
            assert forall|k: int|
                #![trigger s1.queue[k]]
                0 <= k < s1.queue.len() && s1.queue[k].1 is Overview implies s1.explored.contains(
                s1.queue[k].0,
            ) by {
                lemma_followups_add_no_overview(command.task, path, d, limits, s0.queue, s1.queue, k);
                let j = choose|j: int| 0 <= j < s0.queue.len() && s0.queue[j] == s1.queue[k];
                assert(s0.queue[j].1 is Overview);
            }
        },
        None => {
            assert forall|k: int|
                #![trigger s1.to_explore[k]]
                0 <= k < s1.to_explore.len() && s1.to_explore[k].len() > 0 implies s1.explored.contains(
                s1.to_explore[k].drop_last(),
            ) by {
                assert(s1.to_explore[k] == s0.to_explore[k]);
            }
            assert forall|k: int|
                #![trigger s1.queue[k]]
                0 <= k < s1.queue.len() && s1.queue[k].1 is Overview implies s1.explored.contains(
                s1.queue[k].0,
            ) by {
                assert(s1.queue[k] == s0.queue[k]);
            }
        },
    }
}

/// A handed-out command as its path and task.
pub open spec fn command_view(r: Option<HelpCommand>) -> Option<(Seq<Seq<char>>, HelpTask)> {
    match r {
        Some(c) => Some((texts(c.command_path@), c.task)),
        None => None,
    }
}

proof fn lemma_path_tasks_overview(path: Seq<Seq<char>>, k: int)
    requires
        0 <= k < path_tasks(path).len(),
        path_tasks(path)[k].1 is Overview,
    ensures
        path_tasks(path)[k].0 == path,
{
}

/// Handing out commands keeps paths explored in order, and an overview
/// handed out is at an explored path.
proof fn lemma_next_step_in_order(s: HelpState, limits: HelpLimits)
    requires
        explores_in_order(s),
    ensures
        explores_in_order(next_step(s, limits).1),
        next_step(s, limits).1.explored.len() >= s.explored.len(),
        match next_step(s, limits).0 {
            Some(e) => e.1 is Overview ==> next_step(s, limits).1.explored.contains(e.0),
            None => true,
        },
    decreases s.to_explore.len(), s.queue.len(),
{
    if s.finished {
    } else if s.queue.len() > 0 {
        if s.started < limits.total_commands {
            let t = HelpState { queue: s.queue.drop_first(), started: s.started + 1, ..s };
            assert forall|k: int| 0 <= k < t.queue.len() && t.queue[k].1 is Overview implies t.explored.contains(
                t.queue[k].0,
            ) by {
                assert(t.queue[k] == s.queue[k + 1]);
            }
            if s.queue[0].1 is Overview {
                assert(s.explored.contains(s.queue[0].0));
            }
        } else {
            let t = refused(HelpState { queue: s.queue.drop_first(), ..s }, s.queue[0].0, s.queue[0].1);
            assert forall|k: int| 0 <= k < t.queue.len() && t.queue[k].1 is Overview implies t.explored.contains(
                t.queue[k].0,
            ) by {
                assert(t.queue[k] == s.queue[k + 1]);
            }
            lemma_next_step_in_order(t, limits);
        }
    } else if s.to_explore.len() == 0 {
    } else {
        let t = explore_step(s, limits);
        let path = s.to_explore[0];
        assert forall|k: int| 0 <= k < t.to_explore.len() && t.to_explore[k].len() > 0 implies t.explored.contains(
            t.to_explore[k].drop_last(),
        ) by {
            assert(t.to_explore[k] == s.to_explore[k + 1]);
            let x = s.to_explore[k + 1].drop_last();
            assert(s.explored.contains(x));
            let j = choose|j: int| 0 <= j < s.explored.len() && s.explored[j] == x;
            assert(t.explored[j] == x);
        }
        if !s.seen.contains(path) && path.len() <= limits.command_depth && s.seen.len() + 1
            <= limits.command_count {
            assert forall|i: int| 0 <= i < t.explored.len() && t.explored[i].len() > 0 implies exists|j: int|
                #![trigger t.explored[j]]
                0 <= j < i && t.explored[j] == t.explored[i].drop_last() by {
                if i < s.explored.len() {
                    assert(t.explored[i] == s.explored[i]);
                    let j = choose|j: int| 0 <= j < i && #[trigger] s.explored[j] == s.explored[i].drop_last();
                    assert(t.explored[j] == s.explored[j]);
                } else {
                    assert(t.explored[i] == path);
                    assert(s.to_explore[0] == path);
                    assert(s.explored.contains(path.drop_last()));
                    let j = choose|j: int| 0 <= j < s.explored.len() && s.explored[j] == path.drop_last();
                    assert(t.explored[j] == s.explored[j]);
                }
            }
            assert forall|k: int| 0 <= k < t.queue.len() && t.queue[k].1 is Overview implies t.explored.contains(
                t.queue[k].0,
            ) by {
                lemma_path_tasks_overview(path, k);
                assert(t.explored[s.explored.len() as int] == path);
            }
        } else {
            assert forall|i: int| 0 <= i < t.explored.len() && t.explored[i].len() > 0 implies exists|j: int|
                #![trigger t.explored[j]]
                0 <= j < i && t.explored[j] == t.explored[i].drop_last() by {
                let j = choose|j: int| 0 <= j < i && #[trigger] s.explored[j] == s.explored[i].drop_last();
            }
            assert forall|k: int| 0 <= k < t.queue.len() && t.queue[k].1 is Overview implies t.explored.contains(
                t.queue[k].0,
            ) by {
                assert(t.queue[k] == s.queue[k]);
            }
        }
        lemma_next_step_in_order(t, limits);
    }
}

impl HelpCollector {
    fn push_task(&mut self, path: &Vec<String>, task: HelpTask)
        ensures
            final(self).tasks@.len() == old(self).tasks@.len() + 1,
            final(self).limits == old(self).limits,
            final(self).observations == old(self).observations,
            final(self).failures == old(self).failures,
            final(self).command_paths == old(self).command_paths,
            final(self).total_commands == old(self).total_commands,
            final(self).tool_version == old(self).tool_version,
            final(self).pending == old(self).pending,
            final(self).next_pending == old(self).next_pending,
            final(self).seen == old(self).seen,
            final(self).help == old(self).help,
            final(self).local_view == old(self).local_view,
            final(self).finished == old(self).finished,
            final(self).queue() == seq![(texts(path@), task)] + old(self).queue(),
            final(self).tasks@.last().task == task,
            texts(final(self).tasks@.last().path@) == texts(path@),
    {
        self.tasks.push(PendingTask { path: clone_strings(path), task });
        assert(self.queue() =~= seq![(texts(path@), task)] + old(self).queue());
    }

    /// What a task leads to when its command did not run or its document
    /// could not be read.
    fn unanswered(&mut self, path: &Vec<String>, task: &HelpTask)
        ensures
            final(self).tasks == old(self).tasks,
            final(self).limits == old(self).limits,
            final(self).observations == old(self).observations,
            final(self).command_paths == old(self).command_paths,
            final(self).total_commands == old(self).total_commands,
            final(self).tool_version == old(self).tool_version,
            final(self).pending == old(self).pending,
            final(self).next_pending == old(self).next_pending,
            final(self).seen == old(self).seen,
            final(self).finished == old(self).finished,
            extends(old(self).failures@, final(self).failures@),
            failure_views(final(self).failures@) == failure_views(old(self).failures@)
                + unanswered_failures(*task, texts(path@)),
            final(self).help_seen() == (if *task is SharedHelp {
                None
            } else {
                old(self).help_seen()
            }),
            final(self).local_view_seen() == (if *task is LocalView {
                None
            } else {
                old(self).local_view_seen()
            }),
    {
        let ghost v0 = failure_views(self.failures@);
        match task {
            HelpTask::SharedHelp => {
                self.help = None;
                proof { lemma_extends_refl(self.failures@); }
                assert(failure_views(self.failures@) =~= v0 + unanswered_failures(*task, texts(path@)));
            },
            HelpTask::UnknownSection { .. } => {
                add_failure(
                    &mut self.failures,
                    HierarchicalHelpBehavior::SectionRetrieval,
                    path,
                    "an unknown section must exit non-zero and identify the section argument",
                );
                assert(failure_views(self.failures@) =~= v0 + unanswered_failures(*task, texts(path@)));
            },
            HelpTask::LocalView => {
                self.local_view = None;
                add_failure(
                    &mut self.failures,
                    HierarchicalHelpBehavior::LocalView,
                    path,
                    "non-interactive local view must write the document and exit successfully",
                );
                assert(failure_views(self.failures@) =~= v0 + unanswered_failures(*task, texts(path@)));
            },
            HelpTask::WebView => {
                add_failure(
                    &mut self.failures,
                    HierarchicalHelpBehavior::WebView,
                    path,
                    "non-interactive web view must write an HTTP URL and exit successfully",
                );
                assert(failure_views(self.failures@) =~= v0 + unanswered_failures(*task, texts(path@)));
            },
            HelpTask::ProgrammaticWebView => {
                add_failure(
                    &mut self.failures,
                    HierarchicalHelpBehavior::WebView,
                    path,
                    "programmatic web view must write the versioned HTTP URL",
                );
                assert(failure_views(self.failures@) =~= v0 + unanswered_failures(*task, texts(path@)));
            },
            _ => {
                proof { lemma_extends_refl(self.failures@); }
                assert(failure_views(self.failures@) =~= v0 + unanswered_failures(*task, texts(path@)));
            },
        }
    }

    /// Takes the next command path off the queue and, when it is explored,
    /// queues its help commands. Gives false when exploring is over.
    fn discover(&mut self) -> (more: bool)
        requires
            old(self).consistent(),
            old(self).tasks@.len() == 0,
            !old(self).finished,
        ensures
            final(self).consistent(),
            final(self).limits == old(self).limits,
            final(self).observations == old(self).observations,
            final(self).total_commands == old(self).total_commands,
            final(self).pending == old(self).pending,
            extends(old(self).failures@, final(self).failures@),
            extends(path_views(old(self).command_paths@), path_views(final(self).command_paths@)),
            more ==> final(self).next_pending == old(self).next_pending + 1 && !final(self).finished,
            !more ==> final(self).finished,
            (final(self).tasks@.len() == 0 && path_views(final(self).command_paths@) == path_views(
                old(self).command_paths@,
            )) || (final(self).tasks@.len() > 0 && path_views(final(self).command_paths@)
                == path_views(old(self).command_paths@).push(final(self).queue()[0].0)
                && final(self).queue() == path_tasks(final(self).queue()[0].0)),
            old(self).paths_to_explore().len() == 0 ==> !more && final(self).state() == (HelpState {
                finished: true,
                ..old(self).state()
            }),
            old(self).paths_to_explore().len() > 0 ==> final(self).state() == explore_step(
                old(self).state(),
                old(self).limits,
            ) && more == !final(self).finished,
    {
        let ghost s0 = self.state();
        if self.next_pending >= self.pending.len() {
            self.finished = true;
            proof { lemma_extends_refl(self.failures@); }
            proof { lemma_extends_refl(path_views(self.command_paths@)); }
            assert(self.state() =~= HelpState { finished: true, ..s0 });
            return false;
        }
        let path = clone_strings(&self.pending[self.next_pending]);
        self.next_pending = self.next_pending + 1;
        assert(self.paths_to_explore() =~= s0.to_explore.drop_first());
        assert(s0.to_explore[0] == texts(path@));
        proof { lemma_extends_refl(path_views(self.command_paths@)); }
        if contains_path(&self.seen, &path) {
            add_failure(
                &mut self.failures,
                HierarchicalHelpBehavior::CommandDiscovery,
                &path,
                "command hierarchy contains a duplicate path",
            );
            assert(self.state() =~= explore_step(s0, self.limits));
            return true;
        }
        let ghost seen_before = path_views(self.seen@);
        self.seen.push(clone_strings(&path));
        assert(path_views(self.seen@) =~= seen_before.push(texts(path@)));
        assert forall|i: int|
            0 <= i < path_views(self.command_paths@).len() implies path_views(self.seen@).contains(
            #[trigger] path_views(self.command_paths@)[i],
        ) by {
            let x = path_views(self.command_paths@)[i];
            let k = choose|k: int| 0 <= k < seen_before.len() && seen_before[k] == x;
            assert(path_views(self.seen@)[k] == x);
        }
        if path.len() > self.limits.command_depth {
            add_failure(
                &mut self.failures,
                HierarchicalHelpBehavior::CommandDiscovery,
                &path,
                "command depth limit exceeded",
            );
            assert(self.state() =~= explore_step(s0, self.limits));
            return true;
        }
        if self.seen.len() > self.limits.command_count {
            add_failure(
                &mut self.failures,
                HierarchicalHelpBehavior::CommandDiscovery,
                &path,
                "command count limit exceeded",
            );
            self.finished = true;
            assert(self.state() =~= explore_step(s0, self.limits));
            return false;
        }
        let ghost cp_before = path_views(self.command_paths@);
        self.command_paths.push(clone_strings(&path));
        assert(path_views(self.command_paths@) =~= cp_before.push(texts(path@)));
        assert(path_views(self.command_paths@).take(cp_before.len() as int) =~= cp_before);
        assert forall|i: int, j: int|
            0 <= i < j < path_views(self.command_paths@).len() implies path_views(
            self.command_paths@,
        )[i] != path_views(self.command_paths@)[j] by {
            if j == cp_before.len() {
                assert(seen_before.contains(cp_before[i]));
            }
        }
        assert forall|i: int|
            0 <= i < path_views(self.command_paths@).len() implies path_views(self.seen@).contains(
            #[trigger] path_views(self.command_paths@)[i],
        ) by {
            if i == cp_before.len() {
                assert(path_views(self.seen@)[seen_before.len() as int] == texts(path@));
            }
        }
        self.push_task(&path, HelpTask::ProgrammaticWebView);
        self.push_task(&path, HelpTask::WebView);
        self.push_task(&path, HelpTask::ProgrammaticLocalView);
        self.push_task(&path, HelpTask::LocalView);
        self.push_task(&path, HelpTask::Search { programmatic: true });
        self.push_task(&path, HelpTask::Search { programmatic: false });
        self.push_task(&path, HelpTask::Outline { programmatic: true });
        self.push_task(&path, HelpTask::Outline { programmatic: false });
        self.push_task(&path, HelpTask::ProgrammaticOverview);
        self.push_task(&path, HelpTask::ProgrammaticHelp);
        self.push_task(&path, HelpTask::OptionHelp);
        self.push_task(&path, HelpTask::SharedHelp);
        self.push_task(&path, HelpTask::Overview);
        proof { lemma_extends_refl(self.failures@); }
        assert(self.queue() =~= path_tasks(texts(path@)));
        assert(self.state() =~= explore_step(s0, self.limits));
        true
    }

    /// Whether `path` is a command path explored so far.
    pub fn has_explored(&self, path: &Vec<String>) -> (r: bool)
        ensures
            r == self.explored_paths().contains(texts(path@)),
    {
        contains_path(&self.command_paths, path)
    }

    /// The next help command to run, or `None` when the check is over.
    /// Queued commands run first, in order; when none is queued, the next
    /// command path to explore is taken (a path seen before, one deeper
    /// than the depth limit, or one past the count limit is recorded as a
    /// failure instead) and its help commands are queued. Commands that the
    /// total command limit refuses are recorded as failures and skipped,
    /// with what their missing answer leads to. `next_step` states the
    /// whole step over the state as plain values.
    pub fn next_command(&mut self) -> (r: Option<HelpCommand>)
        requires
            old(self).wf(),
        ensures
            final(self).wf(),
            final(self).limits_of() == old(self).limits_of(),
            final(self).observations_of() == old(self).observations_of(),
            extends(old(self).failures_of(), final(self).failures_of()),
            extends(old(self).explored_paths(), final(self).explored_paths()),
            match r {
                Some(c) => command_ok(c, final(self).limits_of()) && final(self).commands_started()
                    == old(self).commands_started() + 1,
                None => final(self).is_finished() && final(self).commands_started()
                    == old(self).commands_started(),
            },
            old(self).commands_started() >= old(self).limits_of().total_commands ==> r is None,
            !old(self).is_finished() && old(self).queue().len() > 0 && old(self).commands_started()
                < old(self).limits_of().total_commands ==> (r matches Some(c) && (
            texts(c.command_path@),
            c.task,
        ) == old(self).queue()[0] && final(self).queue() == old(self).queue().drop_first()
                && final(self).explored_paths() == old(self).explored_paths()
                && final(self).failures_of() == old(self).failures_of()),
            old(self).queue().len() == 0 ==> (r matches Some(c) ==> c.task is Overview
                && final(self).explored_paths() == old(self).explored_paths().push(
                texts(c.command_path@),
            ) && final(self).queue() == path_tasks(texts(c.command_path@)).drop_first()),
            next_step(old(self).state(), old(self).limits_of()) == (command_view(r), final(self).state()),
            match r {
                Some(c) => c.task is Overview ==> final(self).explored_paths().contains(
                    texts(c.command_path@),
                ),
                None => true,
            },
    {
        let ghost s0 = self.state();
        let ghost limits = self.limits;
        proof { lemma_extends_refl(self.failures@); }
        proof { lemma_extends_refl(path_views(self.command_paths@)); }
        proof { lemma_next_step_in_order(s0, limits); }
        if !self.finished && self.tasks.len() > 0 && self.total_commands < self.limits.total_commands {
            let ghost q0 = self.queue();
            let pt = self.tasks.pop().unwrap();
            assert(self.queue() =~= q0.drop_first());
            assert(q0[0] == (texts(pt.path@), pt.task));
            self.total_commands = self.total_commands + 1;
            let c = command_for(pt, &self.limits);
            assert(self.state() =~= next_step(s0, limits).1);
            return Some(c);
        }
        loop
            invariant
                next_step(self.state(), limits) == next_step(s0, limits),
                explores_in_order(next_step(s0, limits).1),
                match next_step(s0, limits).0 {
                    Some(e) => e.1 is Overview ==> next_step(s0, limits).1.explored.contains(e.0),
                    None => true,
                },
                limits == old(self).limits,
                s0 == old(self).state(),
                old(self).finished || old(self).tasks@.len() == 0 || old(self).total_commands
                    >= old(self).limits.total_commands,
                self.consistent(),
                self.limits == old(self).limits,
                self.observations == old(self).observations,
                self.total_commands == old(self).total_commands,
                extends(old(self).failures@, self.failures@),
                extends(path_views(old(self).command_paths@), path_views(self.command_paths@)),
                old(self).queue().len() == 0 && self.total_commands < self.limits.total_commands ==> (
                (self.tasks@.len() == 0 && path_views(self.command_paths@) == path_views(
                    old(self).command_paths@,
                )) || (self.tasks@.len() > 0 && path_views(self.command_paths@) == path_views(
                    old(self).command_paths@,
                ).push(self.queue()[0].0) && self.queue() == path_tasks(self.queue()[0].0))),
            decreases self.pending@.len() - self.next_pending, self.tasks@.len(),
        {
            if self.finished {
                return None;
            }
            if self.tasks.len() == 0 {
                let ghost f0 = self.failures@;
                let ghost c0 = path_views(self.command_paths@);
                let ghost pre = self.state();
                assert(pre.queue.len() == 0);
                let more = self.discover();
                proof {
                    if pre.to_explore.len() > 0 {
                        assert(next_step(pre, limits) == next_step(explore_step(pre, limits), limits));
                    }
                }
                proof {
                    lemma_extends_trans(old(self).failures@, f0, self.failures@);
                    lemma_extends_trans(path_views(old(self).command_paths@), c0, path_views(self.command_paths@));
                }
                if !more {
                    return None;
                }
            } else {
                let ghost q0 = self.queue();
                let ghost pre = self.state();
                let pt = self.tasks.pop().unwrap();
                assert(self.queue() =~= q0.drop_first());
                assert(q0[0] == (texts(pt.path@), pt.task));
                let op = task_operation(&pt.task);
                let behavior = operation_behavior(op);
                if self.total_commands >= self.limits.total_commands {
                    let ghost f0 = self.failures@;
                    add_failure(
                        &mut self.failures,
                        behavior,
                        &pt.path,
                        "total help command limit exceeded",
                    );
                    let ghost f1 = self.failures@;
                    self.unanswered(&pt.path, &pt.task);
                    proof {
                        lemma_extends_trans(f0, f1, self.failures@);
                        lemma_extends_trans(old(self).failures@, f0, self.failures@);
                    }
                    assert(self.state() =~= refused(
                        HelpState { queue: pre.queue.drop_first(), ..pre },
                        pre.queue[0].0,
                        pre.queue[0].1,
                    ));
                } else {
                    self.total_commands = self.total_commands + 1;
                    let c = command_for(pt, &self.limits);
                    assert(self.state() =~= next_step(pre, limits).1);
                    return Some(c);
                }
            }
        }
    }
}

/// The failures that a finished help command gives whatever it was for:
/// a timeout, output over the byte limit, and terminal control sequences.
pub open spec fn run_failures(
    behavior: HierarchicalHelpBehavior,
    path: Seq<Seq<char>>,
    o: Observation,
    document_bytes: usize,
) -> Seq<(HierarchicalHelpBehavior, Seq<Seq<char>>, Seq<char>)> {
    (if o.timed_out {
        seq![failure_of(behavior, path, "help command timed out"@)]
    } else {
        Seq::empty()
    }) + (if byte_len(o.stdout@) + byte_len(o.stderr@) > document_bytes {
        seq![failure_of(behavior, path, "captured document byte limit exceeded"@)]
    } else {
        Seq::empty()
    }) + (if o.has_ansi {
        seq![
            failure_of(
                HierarchicalHelpBehavior::NonInteractiveOutput,
                path,
                "non-interactive help output contains terminal control sequences"@,
            ),
        ]
    } else {
        Seq::empty()
    })
}

/// Which JSON document a document is.
pub open spec fn kind_of(d: HelpDocument) -> DocumentKind {
    match d {
        HelpDocument::Overview(_) => DocumentKind::Overview,
        HelpDocument::Outline(_) => DocumentKind::Outline,
        HelpDocument::Section(_) => DocumentKind::Section,
        HelpDocument::Search(_) => DocumentKind::Search,
    }
}

/// The document of a JSON help command can be read: the command exited
/// with status 0, its output is within the byte limit, and the document
/// that was read from it is of the kind asked for.
pub open spec fn document_readable(
    o: Observation,
    document_bytes: usize,
    kind: DocumentKind,
    document: Option<Result<HelpDocument, String>>,
) -> bool {
    &&& o.exit_status == Some(0i32)
    &&& byte_len(o.stdout@) <= document_bytes
    &&& document matches Some(Ok(d))
    &&& kind_of(d) == kind
}

/// The failures that reading the document of a JSON help command gives:
/// an unsuccessful exit, output over the byte limit, or a document that
/// could not be read (with the reader's error, where there is one).
pub open spec fn document_failures(
    behavior: HierarchicalHelpBehavior,
    path: Seq<Seq<char>>,
    o: Observation,
    document_bytes: usize,
    kind: DocumentKind,
    document: Option<Result<HelpDocument, String>>,
) -> Seq<(HierarchicalHelpBehavior, Seq<Seq<char>>, Seq<char>)> {
    if o.exit_status != Some(0i32) {
        seq![failure_of(behavior, path, "help JSON command exited unsuccessfully"@)]
    } else if byte_len(o.stdout@) > document_bytes {
        seq![failure_of(behavior, path, "captured document byte limit exceeded"@)]
    } else {
        match document {
            Some(Ok(d)) => if kind_of(d) == kind {
                Seq::empty()
            } else {
                seq![failure_of(behavior, path, "invalid JSON help response: "@)]
            },
            Some(Err(e)) => seq![failure_of(behavior, path, "invalid JSON help response: "@ + e@)],
            None => seq![failure_of(behavior, path, "invalid JSON help response: "@)],
        }
    }
}

/// The failures that a help command's answer gives before its task is
/// checked: those of the run, then those of reading its document.
pub open spec fn answer_failures(
    c: HelpCommand,
    reply: Result<Observation, String>,
    document: Option<Result<HelpDocument, String>>,
    document_bytes: usize,
) -> Seq<(HierarchicalHelpBehavior, Seq<Seq<char>>, Seq<char>)> {
    let path = texts(c.command_path@);
    match reply {
        Ok(o) => run_failures(c.behavior, path, o, document_bytes) + match task_document(c.task) {
            Some(kind) => document_failures(c.behavior, path, o, document_bytes, kind, document),
            None => Seq::empty(),
        },
        Err(e) => seq![failure_of(c.behavior, path, e@)],
    }
}

fn exited_ok(status: Option<i32>) -> (r: bool)
    ensures
        r == (status == Some(0i32)),
{
    match status {
        Some(s) => s == 0,
        None => false,
    }
}

fn document_kind(d: &HelpDocument) -> (r: DocumentKind)
    ensures
        r == kind_of(*d),
{
    match d {
        HelpDocument::Overview(_) => DocumentKind::Overview,
        HelpDocument::Outline(_) => DocumentKind::Outline,
        HelpDocument::Section(_) => DocumentKind::Section,
        HelpDocument::Search(_) => DocumentKind::Search,
    }
}

impl HelpCollector {
    /// Records the failures of a finished help command's run.
    fn check_run(&mut self, behavior: HierarchicalHelpBehavior, path: &Vec<String>, o: &Observation)
        ensures
            final(self).tasks == old(self).tasks,
            final(self).limits == old(self).limits,
            final(self).observations == old(self).observations,
            final(self).command_paths == old(self).command_paths,
            final(self).total_commands == old(self).total_commands,
            final(self).tool_version == old(self).tool_version,
            final(self).pending == old(self).pending,
            final(self).next_pending == old(self).next_pending,
            final(self).seen == old(self).seen,
            final(self).finished == old(self).finished,
            final(self).help == old(self).help,
            final(self).local_view == old(self).local_view,
            extends(old(self).failures@, final(self).failures@),
            failure_views(final(self).failures@) == failure_views(old(self).failures@) + run_failures(
                behavior,
                texts(path@),
                *o,
                old(self).limits.document_bytes,
            ),
    {
        let ghost f0 = self.failures@;
        let ghost v0 = failure_views(self.failures@);
        let ghost p = texts(path@);
        let db = self.limits.document_bytes;
        proof { lemma_extends_refl(self.failures@); }
        if o.timed_out {
            add_failure(&mut self.failures, behavior, path, "help command timed out");
        }
        let ghost v1 = failure_views(self.failures@);
        let ghost f1 = self.failures@;
        let out = o.stdout.as_str().len();
        let err = o.stderr.as_str().len();
        if out > db || err > db - out {
            add_failure(&mut self.failures, behavior, path, "captured document byte limit exceeded");
        }
        let ghost v2 = failure_views(self.failures@);
        let ghost f2 = self.failures@;
        if o.has_ansi {
            add_failure(
                &mut self.failures,
                HierarchicalHelpBehavior::NonInteractiveOutput,
                path,
                "non-interactive help output contains terminal control sequences",
            );
        }
        proof {
            lemma_extends_refl(f1);
            lemma_extends_refl(f2);
            lemma_extends_refl(self.failures@);
            lemma_extends_trans(f0, f1, f2);
            lemma_extends_trans(f0, f2, self.failures@);
            let a = if o.timed_out {
                seq![failure_of(behavior, p, "help command timed out"@)]
            } else {
                Seq::empty()
            };
            let b = if byte_len(o.stdout@) + byte_len(o.stderr@) > db {
                seq![failure_of(behavior, p, "captured document byte limit exceeded"@)]
            } else {
                Seq::empty()
            };
            assert(v1 =~= v0 + a);
            assert(v2 =~= v0 + a + b);
            assert(failure_views(self.failures@) =~= v0 + run_failures(behavior, p, *o, db));
        }
    }

    /// Reads the document of a JSON help command, recording why it could
    /// not be read.
    fn read_document(
        &mut self,
        behavior: HierarchicalHelpBehavior,
        path: &Vec<String>,
        o: &Observation,
        kind: DocumentKind,
        document: Option<Result<HelpDocument, String>>,
    ) -> (r: Option<HelpDocument>)
        ensures
            final(self).tasks == old(self).tasks,
            final(self).limits == old(self).limits,
            final(self).observations == old(self).observations,
            final(self).command_paths == old(self).command_paths,
            final(self).total_commands == old(self).total_commands,
            final(self).tool_version == old(self).tool_version,
            final(self).pending == old(self).pending,
            final(self).next_pending == old(self).next_pending,
            final(self).seen == old(self).seen,
            final(self).finished == old(self).finished,
            final(self).help == old(self).help,
            final(self).local_view == old(self).local_view,
            extends(old(self).failures@, final(self).failures@),
            failure_views(final(self).failures@) == failure_views(old(self).failures@)
                + document_failures(
                behavior,
                texts(path@),
                *o,
                old(self).limits.document_bytes,
                kind,
                document,
            ),
            match r {
                Some(d) => document_readable(*o, old(self).limits.document_bytes, kind, document)
                    && document == Some(Ok::<HelpDocument, String>(d)),
                None => !document_readable(*o, old(self).limits.document_bytes, kind, document),
            },
    {
        let ghost v0 = failure_views(self.failures@);
        if !exited_ok(o.exit_status) {
            add_failure(&mut self.failures, behavior, path, "help JSON command exited unsuccessfully");
            assert(failure_views(self.failures@) =~= v0 + document_failures(behavior, texts(path@), *o, self.limits.document_bytes, kind, document));
            return None;
        }
        if o.stdout.as_str().len() > self.limits.document_bytes {
            add_failure(&mut self.failures, behavior, path, "captured document byte limit exceeded");
            assert(failure_views(self.failures@) =~= v0 + document_failures(behavior, texts(path@), *o, self.limits.document_bytes, kind, document));
            return None;
        }
        match document {
            Some(Ok(d)) => {
                if document_kind(&d) == kind {
                    proof { lemma_extends_refl(self.failures@); }
                    assert(failure_views(self.failures@) =~= v0 + document_failures(behavior, texts(path@), *o, self.limits.document_bytes, kind, document));
                    Some(d)
                } else {
                    add_failure(&mut self.failures, behavior, path, "invalid JSON help response: ");
                    assert(failure_views(self.failures@) =~= v0 + document_failures(behavior, texts(path@), *o, self.limits.document_bytes, kind, document));
                    None
                }
            },
            Some(Err(e)) => {
                let message = concat("invalid JSON help response: ", e.as_str());
                add_failure(&mut self.failures, behavior, path, message.as_str());
                assert(failure_views(self.failures@) =~= v0 + document_failures(behavior, texts(path@), *o, self.limits.document_bytes, kind, document));
                None
            },
            None => {
                add_failure(&mut self.failures, behavior, path, "invalid JSON help response: ");
                assert(failure_views(self.failures@) =~= v0 + document_failures(behavior, texts(path@), *o, self.limits.document_bytes, kind, document));
                None
            },
        }
    }
}

impl HelpCollector {
    /// What the answer of a help command that writes no JSON document
    /// shows, checked against what the task expects.
    fn answered_run(&mut self, path: &Vec<String>, task: &HelpTask, o: &Observation)
        ensures
            final(self).tasks == old(self).tasks,
            final(self).limits == old(self).limits,
            final(self).observations == old(self).observations,
            final(self).command_paths == old(self).command_paths,
            final(self).total_commands == old(self).total_commands,
            final(self).pending == old(self).pending,
            final(self).next_pending == old(self).next_pending,
            final(self).seen == old(self).seen,
            final(self).finished == old(self).finished,
            extends(old(self).failures@, final(self).failures@),
            failure_views(final(self).failures@) == failure_views(old(self).failures@)
                + run_task_failures(
                *task,
                texts(path@),
                *o,
                old(self).help_seen(),
                old(self).local_view_seen(),
                old(self).version_seen(),
            ),
            final(self).help_seen() == help_after(
                *task,
                Ok::<Observation, String>(*o),
                old(self).help_seen(),
            ),
            final(self).local_view_seen() == local_view_after(
                *task,
                Ok::<Observation, String>(*o),
                old(self).local_view_seen(),
            ),
            final(self).version_seen() == version_after(
                *task,
                Ok::<Observation, String>(*o),
                old(self).version_seen(),
            ),
    {
        proof { lemma_extends_refl(self.failures@); }
        let ghost v0 = failure_views(self.failures@);
        let ghost p = texts(path@);
        let ghost expected = run_task_failures(
            *task,
            p,
            *o,
            self.help_seen(),
            self.local_view_seen(),
            self.version_seen(),
        );
        match task {
            HelpTask::Version => {
                let version = extract_version(o.stdout.as_str());
                let missing = version.is_none();
                self.tool_version = version;
                if missing {
                    let root: Vec<String> = Vec::new();
                    assert(texts(root@) =~= Seq::<Seq<char>>::empty());
                    add_failure(
                        &mut self.failures,
                        HierarchicalHelpBehavior::WebView,
                        &root,
                        "--version did not contain a version number",
                    );
                }
                assert(failure_views(self.failures@) =~= v0 + expected);
            },
            HelpTask::SharedHelp => {
                self.help = Some((o.exit_status, o.stdout.clone()));
                assert(failure_views(self.failures@) =~= v0 + expected);
            },
            HelpTask::OptionHelp => {
                match &self.help {
                    Some(help) => {
                        let ghost f0 = self.failures@;
                        let bad_exit = !(exited_ok(help.0) && exited_ok(o.exit_status));
                        if bad_exit {
                            add_failure(
                                &mut self.failures,
                                HierarchicalHelpBehavior::Availability,
                                path,
                                "help and --help must exit successfully",
                            );
                        }
                        let ghost f1 = self.failures@;
                        proof { lemma_extends_refl(f1); }
                        let bad_text = is_blank(help.1.as_str()) || !str_eq(
                            help.1.as_str(),
                            o.stdout.as_str(),
                        );
                        if bad_text {
                            add_failure(
                                &mut self.failures,
                                HierarchicalHelpBehavior::SharedHelp,
                                path,
                                "help must contain the same non-empty documentation as --help",
                            );
                        }
                        proof {
                            lemma_extends_refl(f0);
                            lemma_extends_refl(self.failures@);
                            lemma_extends_trans(f0, f1, self.failures@);
                        }
                        assert(failure_views(self.failures@) =~= v0 + expected);
                    },
                    None => {
                        assert(failure_views(self.failures@) =~= v0 + expected);
                    },
                }
            },
            HelpTask::ProgrammaticHelp => {
                match &self.help {
                    Some(help) => {
                        if !programmatic_help_valid(o.stdout.as_str(), help.1.as_str()) {
                            add_failure(
                                &mut self.failures,
                                HierarchicalHelpBehavior::ProgrammaticGuidance,
                                path,
                                "--programmatic must retain default help and add JSON and section guidance",
                            );
                        }
                    },
                    None => {},
                }
                assert(failure_views(self.failures@) =~= v0 + expected);
            },
            HelpTask::UnknownSection { .. } => {
                if !unknown_section_valid(o.exit_status, o.stderr.as_str()) {
                    add_failure(
                        &mut self.failures,
                        HierarchicalHelpBehavior::SectionRetrieval,
                        path,
                        "an unknown section must exit non-zero and identify the section argument",
                    );
                }
                assert(failure_views(self.failures@) =~= v0 + expected);
            },
            HelpTask::LocalView => {
                self.local_view = Some(o.stdout.clone());
                if !exited_ok(o.exit_status) || is_blank(o.stdout.as_str()) {
                    add_failure(
                        &mut self.failures,
                        HierarchicalHelpBehavior::LocalView,
                        path,
                        "non-interactive local view must write the document and exit successfully",
                    );
                }
                assert(failure_views(self.failures@) =~= v0 + expected);
            },
            HelpTask::ProgrammaticLocalView => {
                match &self.local_view {
                    Some(default) => {
                        if !contains_str(o.stdout.as_str(), default.as_str()) {
                            add_failure(
                                &mut self.failures,
                                HierarchicalHelpBehavior::LocalView,
                                path,
                                "programmatic local view must retain the default document",
                            );
                        }
                    },
                    None => {},
                }
                assert(failure_views(self.failures@) =~= v0 + expected);
            },
            HelpTask::WebView => {
                if !web_view_valid(o.exit_status, o.stdout.as_str(), &self.tool_version) {
                    add_failure(
                        &mut self.failures,
                        HierarchicalHelpBehavior::WebView,
                        path,
                        "non-interactive web view must write an HTTP URL and exit successfully",
                    );
                }
                assert(failure_views(self.failures@) =~= v0 + expected);
            },
            HelpTask::ProgrammaticWebView => {
                if !web_view_valid(o.exit_status, o.stdout.as_str(), &self.tool_version) {
                    add_failure(
                        &mut self.failures,
                        HierarchicalHelpBehavior::WebView,
                        path,
                        "programmatic web view must write the versioned HTTP URL",
                    );
                }
                assert(failure_views(self.failures@) =~= v0 + expected);
            },
            _ => {
                assert(failure_views(self.failures@) =~= v0 + expected);
            },
        }
    }

    /// Records a failure of `behavior` when a document's header is invalid.
    fn check_header(
        &mut self,
        behavior: HierarchicalHelpBehavior,
        path: &Vec<String>,
        format_version: u32,
        actual_path: &Vec<String>,
        actual_programmatic: bool,
        expected_programmatic: bool,
    )
        ensures
            final(self).tasks == old(self).tasks,
            final(self).limits == old(self).limits,
            final(self).observations == old(self).observations,
            final(self).command_paths == old(self).command_paths,
            final(self).total_commands == old(self).total_commands,
            final(self).pending == old(self).pending,
            final(self).next_pending == old(self).next_pending,
            final(self).seen == old(self).seen,
            final(self).finished == old(self).finished,
            final(self).help == old(self).help,
            final(self).local_view == old(self).local_view,
            final(self).tool_version == old(self).tool_version,
            extends(old(self).failures@, final(self).failures@),
            failure_views(final(self).failures@) == failure_views(old(self).failures@)
                + header_failures(
                behavior,
                texts(path@),
                format_version,
                texts(actual_path@),
                actual_programmatic,
                expected_programmatic,
            ),
    {
        proof { lemma_extends_refl(self.failures@); }
        let ghost v0 = failure_views(self.failures@);
        if !header_valid(format_version, actual_path, actual_programmatic, path, expected_programmatic) {
            add_failure(
                &mut self.failures,
                behavior,
                path,
                "JSON format version, command path, or programmatic marker is invalid",
            );
        }
        assert(failure_views(self.failures@) =~= v0 + header_failures(
            behavior,
            texts(path@),
            format_version,
            texts(actual_path@),
            actual_programmatic,
            expected_programmatic,
        ));
    }

    /// The overview of a command path: its header and its child commands,
    /// whose paths are added to explore (for the discovery overview).
    fn answered_overview(&mut self, path: &Vec<String>, ov: HelpOverview, programmatic: bool)
        requires
            old(self).consistent(),
        ensures
            final(self).consistent(),
            keeps_frame(*old(self), *final(self)),
            final(self).tasks == old(self).tasks,
            extends(old(self).pending@, final(self).pending@),
            extends(old(self).failures@, final(self).failures@),
            failure_views(final(self).failures@) == failure_views(old(self).failures@) + (if programmatic {
                document_task_failures(HelpTask::ProgrammaticOverview, texts(path@), HelpDocument::Overview(ov), old(self).limits)
            } else {
                document_task_failures(HelpTask::Overview, texts(path@), HelpDocument::Overview(ov), old(self).limits)
            }),
            final(self).paths_to_explore() == old(self).paths_to_explore() + (if programmatic {
                Seq::empty()
            } else {
                document_paths(HelpTask::Overview, texts(path@), HelpDocument::Overview(ov))
            }),
    {
        let ghost v0 = failure_views(self.failures@);
        let ghost e0 = self.paths_to_explore();
        let ghost tp = texts(path@);
        proof {
            lemma_extends_refl(self.pending@);
        }
        assert(e0 + Seq::<Seq<Seq<char>>>::empty() =~= e0);
        if programmatic {
            self.check_header(
                HierarchicalHelpBehavior::ProgrammaticGuidance,
                path,
                ov.format_version,
                &ov.command_path,
                ov.programmatic,
                true,
            );
            return;
        }
        self.check_header(
            HierarchicalHelpBehavior::CommandDiscovery,
            path,
            ov.format_version,
            &ov.command_path,
            ov.programmatic,
            false,
        );
        let ghost f1 = self.failures@;
        let (names, rejected) = split_child_names(&ov.child_commands);
        add_failures(
            &mut self.failures,
            HierarchicalHelpBehavior::CommandDiscovery,
            path,
            "child command names must be non-empty, single tokens, and unique",
            rejected,
        );
        proof {
            lemma_extends_trans(old(self).failures@, f1, self.failures@);
        }
        assert(failure_views(self.failures@) =~= v0 + document_task_failures(
            HelpTask::Overview,
            tp,
            HelpDocument::Overview(ov),
            self.limits,
        ));
        let ghost f2 = self.failures@;
        let ghost kept_names = texts(names@);
        for i in 0..names.len()
            invariant
                kept_names == texts(names@),
                tp == texts(path@),
                self.paths_to_explore() == e0 + kept_names.take(i as int).map_values(
                    |n: Seq<char>| tp.push(n),
                ),
                self.tasks == old(self).tasks,
                self.failures@ == f2,
                keeps_frame(*old(self), *self),
                self.consistent(),
                extends(old(self).pending@, self.pending@),
        {
            let mut child = clone_strings(path);
            child.push(names[i].clone());
            assert(texts(child@) =~= tp.push(kept_names[i as int]));
            let ghost before = self.pending@;
            let ghost explore_before = self.paths_to_explore();
            self.pending.push(child);
            proof {
                assert(self.pending@.take(before.len() as int) =~= before);
                lemma_extends_trans(old(self).pending@, before, self.pending@);
                assert(self.paths_to_explore() =~= explore_before.push(tp.push(kept_names[i as int])));
                assert(kept_names.take(i + 1).map_values(|n: Seq<char>| tp.push(n)) =~= kept_names.take(
                    i as int,
                ).map_values(|n: Seq<char>| tp.push(n)).push(tp.push(kept_names[i as int])));
            }
        }
        assert(kept_names.take(names@.len() as int) =~= kept_names);
    }

    /// An outline: its header and headings; the section requests, the
    /// unknown section and the filtered outlines are queued first.
    #[verifier::rlimit(60)]
    #[verifier::spinoff_prover]
    fn answered_outline(&mut self, path: &Vec<String>, programmatic: bool, outline: Outline)
        requires
            old(self).consistent(),
        ensures
            final(self).consistent(),
            keeps_frame(*old(self), *final(self)),
            final(self).pending == old(self).pending,
            extends(old(self).failures@, final(self).failures@),
            failure_views(final(self).failures@) == failure_views(old(self).failures@)
                + document_task_failures(
                HelpTask::Outline { programmatic },
                texts(path@),
                HelpDocument::Outline(outline),
                old(self).limits,
            ),
            document_followups(
                HelpTask::Outline { programmatic },
                texts(path@),
                HelpDocument::Outline(outline),
                old(self).limits,
                old(self).queue(),
                final(self).queue(),
            ),
    {
        let ghost v0 = failure_views(self.failures@);
        let ghost q0 = self.queue();
        let ghost tp = texts(path@);
        self.check_header(
            HierarchicalHelpBehavior::Outline,
            path,
            outline.format_version,
            &outline.command_path,
            outline.programmatic,
            programmatic,
        );
        let ghost f1 = self.failures@;
        let (kept, rejected) = split_headings(&outline.headings);
        add_failures(
            &mut self.failures,
            HierarchicalHelpBehavior::Outline,
            path,
            "outline heading has an invalid level, title, or section",
            rejected,
        );
        proof {
            lemma_extends_trans(old(self).failures@, f1, self.failures@);
        }
        assert(failure_views(self.failures@) =~= v0 + document_task_failures(
            HelpTask::Outline { programmatic },
            tp,
            HelpDocument::Outline(outline),
            self.limits,
        ));
        let ghost f2 = self.failures@;
        let ghost hs = kept@;
        self.push_task(path, HelpTask::FilteredOutline { programmatic, through_level: true });
        self.push_task(path, HelpTask::FilteredOutline { programmatic, through_level: false });
        self.push_task(path, HelpTask::UnknownSection { programmatic });
        assert(self.queue().skip(3) =~= q0);
        let mut i = kept.len();
        while i > 0
            invariant
                i <= kept.len(),
                hs == kept@,
                tp == texts(path@),
                self.queue().len() == 2 * (hs.len() - i) + 3 + q0.len(),
                forall|k: int|
                    #![trigger hs[k]]
                    i <= k < hs.len() ==> section_task_is(
                        self.queue()[2 * (k - i)],
                        tp,
                        programmatic,
                        false,
                        hs[k].section@,
                        seq![hs[k].section@],
                        section_count(hs, hs[k].section@),
                    ) && section_task_is(
                        self.queue()[2 * (k - i) + 1],
                        tp,
                        programmatic,
                        true,
                        hs[k].section@,
                        recursive_sections(hs, k),
                        section_count(hs, hs[k].section@),
                    ),
                self.queue()[2 * (hs.len() - i)] == (tp, HelpTask::UnknownSection { programmatic }),
                self.queue()[2 * (hs.len() - i) + 1] == (
                    tp,
                    HelpTask::FilteredOutline { programmatic, through_level: false },
                ),
                self.queue()[2 * (hs.len() - i) + 2] == (
                    tp,
                    HelpTask::FilteredOutline { programmatic, through_level: true },
                ),
                self.queue().skip(2 * (hs.len() - i) + 3) == q0,
                self.failures@ == f2,
                self.pending == old(self).pending,
                keeps_frame(*old(self), *self),
                self.consistent(),
            decreases i,
        {
            i = i - 1;
            let section = kept[i].section.as_str();
            let expected = count_section(&kept, section);
            let allowed = sections_under(&kept, i);
            let ghost q_start = self.queue();
            self.push_task(
                path,
                HelpTask::Section {
                    programmatic,
                    recursive: true,
                    requested: String::from_str(section),
                    allowed,
                    expected,
                },
            );
            let ghost q1 = self.queue();
            let mut own: Vec<String> = Vec::new();
            own.push(String::from_str(section));
            assert(texts(own@) =~= seq![hs[i as int].section@]);
            self.push_task(
                path,
                HelpTask::Section {
                    programmatic,
                    recursive: false,
                    requested: String::from_str(section),
                    allowed: own,
                    expected,
                },
            );
            proof {
                let q = self.queue();
                assert forall|k: int|
                    #![trigger hs[k]]
                    i <= k < hs.len() implies section_task_is(
                        q[2 * (k - i)],
                        tp,
                        programmatic,
                        false,
                        hs[k].section@,
                        seq![hs[k].section@],
                        section_count(hs, hs[k].section@),
                    ) && section_task_is(
                        q[2 * (k - i) + 1],
                        tp,
                        programmatic,
                        true,
                        hs[k].section@,
                        recursive_sections(hs, k),
                        section_count(hs, hs[k].section@),
                    ) by {
                    if k > i {
                        assert(q[2 * (k - i)] == q_start[2 * (k - i) - 2]);
                        assert(q[2 * (k - i) + 1] == q_start[2 * (k - i) - 1]);
                    }
                }
                assert(q.skip(2 * (hs.len() - i) + 3) =~= q_start.skip(2 * (hs.len() - i) + 1));
            }
        }
        assert(outline_followups(self.queue().take(2 * (hs.len() as int) + 3), tp, programmatic, hs));
    }

    /// A valid search queues each result's section request first, in order.
    fn answered_search(&mut self, path: &Vec<String>, programmatic: bool, response: SearchResponse)
        requires
            old(self).consistent(),
        ensures
            final(self).consistent(),
            keeps_frame(*old(self), *final(self)),
            final(self).pending == old(self).pending,
            extends(old(self).failures@, final(self).failures@),
            failure_views(final(self).failures@) == failure_views(old(self).failures@)
                + document_task_failures(
                HelpTask::Search { programmatic },
                texts(path@),
                HelpDocument::Search(response),
                old(self).limits,
            ),
            document_followups(
                HelpTask::Search { programmatic },
                texts(path@),
                HelpDocument::Search(response),
                old(self).limits,
                old(self).queue(),
                final(self).queue(),
            ),
    {
        let ghost v0 = failure_views(self.failures@);
        let ghost q0 = self.queue();
        self.check_header(
            HierarchicalHelpBehavior::Search,
            path,
            response.format_version,
            &response.command_path,
            response.programmatic,
            programmatic,
        );
        let ghost f1 = self.failures@;
        if !search_response_valid(&response.results, path, self.limits.search_results) {
            add_failure(
                &mut self.failures,
                HierarchicalHelpBehavior::Search,
                path,
                "search returned an invalid or excessive result",
            );
            proof {
                lemma_extends_trans(old(self).failures@, f1, self.failures@);
            }
            assert(failure_views(self.failures@) =~= v0 + document_task_failures(
                HelpTask::Search { programmatic },
                texts(path@),
                HelpDocument::Search(response),
                self.limits,
            ));
            return;
        }
        assert(failure_views(self.failures@) =~= v0 + document_task_failures(
            HelpTask::Search { programmatic },
            texts(path@),
            HelpDocument::Search(response),
            self.limits,
        ));
        let results = &response.results;
        let ghost rs = results@;
        assert(self.queue().skip(0) =~= q0);
        let mut i = results.len();
        while i > 0
            invariant
                i <= results.len(),
                rs == results@,
                self.queue().len() == (rs.len() - i) + q0.len(),
                forall|k: int|
                    i <= k < rs.len() ==> search_task_is(self.queue()[k - i], programmatic, #[trigger] rs[k]),
                self.queue().skip(rs.len() - i) == q0,
                self.failures@ == f1,
                self.pending == old(self).pending,
                keeps_frame(*old(self), *self),
                self.consistent(),
            decreases i,
        {
            i = i - 1;
            let ghost q1 = self.queue();
            let section = results[i].section.clone();
            let ghost task = HelpTask::SearchSection { programmatic, section };
            self.push_task(&results[i].command_path, HelpTask::SearchSection { programmatic, section });
            proof {
                let q = self.queue();
                assert(q[0] == (texts(rs[i as int].command_path@), task));
                assert(section@ == rs[i as int].section@);
                assert forall|k: int|
                    i <= k < rs.len() implies search_task_is(self.queue()[k - i], programmatic, #[trigger] rs[k]) by {
                    if k > i {
                        assert(q[k - i] == q1[k - i - 1]);
                    } else {
                        assert(q[k - i] == (texts(rs[k].command_path@), task));
                    }
                }
                assert(q.skip(rs.len() - i) =~= q1.skip(rs.len() - i - 1));
            }
        }
        assert(search_followups(self.queue().take(rs.len() as int), programmatic, rs));
    }

    /// A section, filtered outline or search section document: its header
    /// and whether it answers the request; nothing is queued.
    fn answered_section_like(&mut self, path: &Vec<String>, task: HelpTask, doc: HelpDocument)
        requires
            old(self).consistent(),
            task is Section || task is FilteredOutline || task is SearchSection,
        ensures
            final(self).consistent(),
            keeps_frame(*old(self), *final(self)),
            final(self).pending == old(self).pending,
            final(self).tasks == old(self).tasks,
            extends(old(self).failures@, final(self).failures@),
            failure_views(final(self).failures@) == failure_views(old(self).failures@)
                + document_task_failures(task, texts(path@), doc, old(self).limits),
    {
        let ghost v0 = failure_views(self.failures@);
        let ghost wanted = document_task_failures(task, texts(path@), doc, self.limits);
        proof {
            lemma_extends_refl(self.failures@);
        }
        match task {
            HelpTask::Section { programmatic, requested, allowed, expected, .. } => match doc {
                HelpDocument::Section(response) => {
                    self.check_header(
                        HierarchicalHelpBehavior::SectionRetrieval,
                        path,
                        response.format_version,
                        &response.command_path,
                        response.programmatic,
                        programmatic,
                    );
                    let ghost f1 = self.failures@;
                    if !section_response_valid(
                        &response.sections,
                        requested.as_str(),
                        &allowed,
                        expected,
                        self.limits.document_bytes,
                    ) {
                        add_failure(
                            &mut self.failures,
                            HierarchicalHelpBehavior::SectionRetrieval,
                            path,
                            "section result must return the requested valid section",
                        );
                    }
                    proof {
                        lemma_extends_refl(self.failures@);
                        lemma_extends_trans(old(self).failures@, f1, self.failures@);
                    }
                    assert(failure_views(self.failures@) =~= v0 + wanted);
                },
                _ => {
                    assert(failure_views(self.failures@) =~= v0 + wanted);
                },
            },
            HelpTask::FilteredOutline { programmatic, through_level } => match doc {
                HelpDocument::Outline(outline) => {
                    self.check_header(
                        HierarchicalHelpBehavior::Outline,
                        path,
                        outline.format_version,
                        &outline.command_path,
                        outline.programmatic,
                        programmatic,
                    );
                    let ghost f1 = self.failures@;
                    if !filtered_outline_valid(&outline.headings, through_level) {
                        if through_level {
                            add_failure(
                                &mut self.failures,
                                HierarchicalHelpBehavior::Outline,
                                path,
                                "--max-level returned a heading below the requested depth",
                            );
                        } else {
                            add_failure(
                                &mut self.failures,
                                HierarchicalHelpBehavior::Outline,
                                path,
                                "--level returned a different heading level",
                            );
                        }
                    }
                    proof {
                        lemma_extends_refl(self.failures@);
                        lemma_extends_trans(old(self).failures@, f1, self.failures@);
                    }
                    assert(failure_views(self.failures@) =~= v0 + wanted);
                },
                _ => {
                    assert(failure_views(self.failures@) =~= v0 + wanted);
                },
            },
            HelpTask::SearchSection { programmatic, section } => match doc {
                HelpDocument::Section(response) => {
                    self.check_header(
                        HierarchicalHelpBehavior::Search,
                        path,
                        response.format_version,
                        &response.command_path,
                        response.programmatic,
                        programmatic,
                    );
                    let ghost f1 = self.failures@;
                    if !has_section(&response.sections, section.as_str()) {
                        add_failure(
                            &mut self.failures,
                            HierarchicalHelpBehavior::Search,
                            path,
                            "search section could not be retrieved",
                        );
                    }
                    proof {
                        lemma_extends_refl(self.failures@);
                        lemma_extends_trans(old(self).failures@, f1, self.failures@);
                    }
                    assert(failure_views(self.failures@) =~= v0 + wanted);
                },
                _ => {
                    assert(failure_views(self.failures@) =~= v0 + wanted);
                },
            },
            _ => {
                assert(failure_views(self.failures@) =~= v0 + wanted);
            },
        }
    }

    /// What a JSON document shows, checked against what the task expects;
    /// the commands it leads to are queued to run next.
    fn answered_document(&mut self, path: &Vec<String>, task: HelpTask, doc: HelpDocument)
        requires
            old(self).consistent(),
        ensures
            final(self).consistent(),
            keeps_frame(*old(self), *final(self)),
            extends(old(self).pending@, final(self).pending@),
            extends(old(self).failures@, final(self).failures@),
            failure_views(final(self).failures@) == failure_views(old(self).failures@)
                + document_task_failures(task, texts(path@), doc, old(self).limits),
            document_followups(
                task,
                texts(path@),
                doc,
                old(self).limits,
                old(self).queue(),
                final(self).queue(),
            ),
            final(self).paths_to_explore() == old(self).paths_to_explore() + document_paths(
                task,
                texts(path@),
                doc,
            ),
    {
        let ghost v0 = failure_views(self.failures@);
        let ghost wanted = document_task_failures(task, texts(path@), doc, self.limits);
        proof {
            lemma_extends_refl(self.failures@);
            lemma_extends_refl(self.pending@);
            assert(self.paths_to_explore() + Seq::<Seq<Seq<char>>>::empty() =~= self.paths_to_explore());
            assert(v0 + Seq::<FailureView>::empty() =~= v0);
        }
        match task {
            HelpTask::Overview => match doc {
                HelpDocument::Overview(ov) => self.answered_overview(path, ov, false),
                _ => {},
            },
            HelpTask::ProgrammaticOverview => match doc {
                HelpDocument::Overview(ov) => self.answered_overview(path, ov, true),
                _ => {},
            },
            HelpTask::Outline { programmatic } => match doc {
                HelpDocument::Outline(outline) => self.answered_outline(path, programmatic, outline),
                _ => {},
            },
            HelpTask::Search { programmatic } => match doc {
                HelpDocument::Search(response) => self.answered_search(path, programmatic, response),
                _ => {},
            },
            HelpTask::Section { .. } | HelpTask::FilteredOutline { .. } | HelpTask::SearchSection {
                ..
            } => {
                self.answered_section_like(path, task, doc);
                proof {
                    lemma_extends_refl(self.pending@);
                }
            },
            _ => {},
        }
    }

    /// Takes the answer of a help command that `next_command` handed out:
    /// the observation of its run, or why it could not run, and the JSON
    /// document read from its standard output where the command writes one.
    /// The run's failures are recorded first, then those of reading the
    /// document, then what the task finds; follow-up commands are queued.
    /// An overview must be at a command path already explored, as every
    /// overview that `next_command` hands out is.
    pub fn handle(
        &mut self,
        command: HelpCommand,
        reply: Result<Observation, String>,
        document: Option<Result<HelpDocument, String>>,
    )
        requires
            old(self).wf(),
            command.task is Overview ==> old(self).explored_paths().contains(
                texts(command.command_path@),
            ),
        ensures
            final(self).wf(),
            final(self).limits_of() == old(self).limits_of(),
            final(self).commands_started() == old(self).commands_started(),
            final(self).explored_paths() == old(self).explored_paths(),
            final(self).is_finished() == old(self).is_finished(),
            extends(old(self).failures_of(), final(self).failures_of()),
            failure_views(final(self).failures_of()) == failure_views(old(self).failures_of())
                + answer_failures(command, reply, document, old(self).limits_of().document_bytes)
                + task_failures(
                command,
                reply,
                document,
                old(self).limits_of(),
                old(self).help_seen(),
                old(self).local_view_seen(),
                old(self).version_seen(),
            ),
            final(self).help_seen() == help_after(command.task, reply, old(self).help_seen()),
            final(self).local_view_seen() == local_view_after(
                command.task,
                reply,
                old(self).local_view_seen(),
            ),
            final(self).version_seen() == version_after(command.task, reply, old(self).version_seen()),
            match readable_document(command, reply, document, old(self).limits_of()) {
                Some(d) => document_followups(
                    command.task,
                    texts(command.command_path@),
                    d,
                    old(self).limits_of(),
                    old(self).queue(),
                    final(self).queue(),
                ) && final(self).paths_to_explore() == old(self).paths_to_explore() + document_paths(
                    command.task,
                    texts(command.command_path@),
                    d,
                ),
                None => final(self).queue() == old(self).queue() && final(self).paths_to_explore()
                    == old(self).paths_to_explore(),
            },
            match reply {
                Ok(o) => final(self).observations_of() == old(self).observations_of().push(
                    HelpObservation {
                        command_path: command.command_path,
                        operation: command.operation,
                        requested_section: command.requested_section,
                        observation: o,
                    },
                ),
                Err(_) => final(self).observations_of() == old(self).observations_of(),
            },
    {
        let ghost whole = command;
        let ghost f0 = self.failures@;
        let ghost v0 = failure_views(self.failures@);
        let ghost limits = self.limits;
        let ghost answer = answer_failures(whole, reply, document, limits.document_bytes);
        let ghost found = task_failures(
            whole,
            reply,
            document,
            limits,
            self.help_seen(),
            self.local_view_seen(),
            self.version_seen(),
        );
        let HelpCommand {
            command_path,
            invocation: _,
            operation,
            behavior,
            requested_section,
            document: _,
            task,
        } = command;
        let path = clone_strings(&command_path);
        match reply {
            Err(e) => {
                add_failure(&mut self.failures, behavior, &path, e.as_str());
                let ghost f1 = self.failures@;
                assert(failure_views(f1) =~= v0 + answer);
                self.unanswered(&path, &task);
                proof {
                    lemma_extends_trans(f0, f1, self.failures@);
                }
                assert(failure_views(self.failures@) =~= v0 + answer + found);
            },
            Ok(o) => {
                self.check_run(behavior, &path, &o);
                let ghost f1 = self.failures@;
                match document_of_task(&task) {
                    None => {
                        assert(failure_views(f1) =~= v0 + answer);
                        self.answered_run(&path, &task, &o);
                        proof {
                            lemma_extends_trans(f0, f1, self.failures@);
                        }
                        assert(failure_views(self.failures@) =~= v0 + answer + found);
                    },
                    Some(kind) => {
                        let read = self.read_document(behavior, &path, &o, kind, document);
                        let ghost f2 = self.failures@;
                        assert(failure_views(f2) =~= v0 + answer);
                        proof {
                            lemma_extends_trans(f0, f1, f2);
                        }
                        match read {
                            Some(doc) => self.answered_document(&path, task, doc),
                            None => self.unanswered(&path, &task),
                        }
                        proof {
                            lemma_extends_trans(f0, f2, self.failures@);
                        }
                        assert(failure_views(self.failures@) =~= v0 + answer + found);
                    },
                }
                self.observations.push(
                    HelpObservation { command_path, operation, requested_section, observation: o },
                );
            },
        }
        proof {
            lemma_answer_in_order(old(self).state(), self.state(), whole, reply, document, limits);
        }
    }
}

// ---------------------------------------------------------------------------
// The evidence and the result of one behavior

/// The evidence of a finished hierarchical help check.
pub struct HelpContext {
    evidence: HelpEvidence,
}

/// The verdict on one behavior: whether it passed, a detail line, and the
/// positions in the evidence of the help commands and failures that
/// belong to it.
#[derive(Debug)]
pub struct HelpResult {
    pub passed: bool,
    pub detail: String,
    pub commands_run: Vec<usize>,
    pub validation_failures: Vec<usize>,
}

impl HelpCollector {
    /// The evidence gathered: the explored command paths, the help commands
    /// that ran and the failures, each in order.
    pub fn finish(self) -> (r: HelpContext)
        ensures
            path_views(r.evidence_of().command_paths@) == self.explored_paths(),
            r.evidence_of().commands_run@ == self.observations_of(),
            r.evidence_of().validation_failures@ == self.failures_of(),
    {
        HelpContext {
            evidence: HelpEvidence {
                command_paths: self.command_paths,
                commands_run: self.observations,
                validation_failures: self.failures,
            },
        }
    }
}

/// The positions of the failures of `behavior`, in order.
pub open spec fn failure_indices(fs: Seq<HelpValidationFailure>, behavior: HierarchicalHelpBehavior) -> Seq<usize>
    decreases fs.len(),
{
    if fs.len() == 0 {
        Seq::empty()
    } else {
        let before = failure_indices(fs.drop_last(), behavior);
        if fs.last().behavior == behavior {
            before.push((fs.len() - 1) as usize)
        } else {
            before
        }
    }
}

/// A help command belongs to a behavior when its operation names it; every
/// help command belongs to the non-interactive output behavior.
pub open spec fn command_relevant(o: HelpObservation, behavior: HierarchicalHelpBehavior) -> bool {
    behavior == HierarchicalHelpBehavior::NonInteractiveOutput || behavior_of_operation(o.operation@)
        == behavior
}

/// The positions of the help commands that belong to `behavior`, in order.
pub open spec fn command_indices(os: Seq<HelpObservation>, behavior: HierarchicalHelpBehavior) -> Seq<usize>
    decreases os.len(),
{
    if os.len() == 0 {
        Seq::empty()
    } else {
        let before = command_indices(os.drop_last(), behavior);
        if command_relevant(os.last(), behavior) {
            before.push((os.len() - 1) as usize)
        } else {
            before
        }
    }
}

/// A command path as `{:?}` writes it: `["repo", "clone"]`.
pub open spec fn debug_path(p: Seq<Seq<char>>) -> Seq<char> {
    "["@ + join_texts(p.map_values(|s: Seq<char>| debug_text(s)), ", "@) + "]"@
}

/// One failure as the detail line names it: its message and command path.
pub open spec fn failure_line(f: HelpValidationFailure) -> Seq<char> {
    f.message@ + " at "@ + debug_path(texts(f.command_path@))
}

/// The detail line of a behavior: a pass, or its failures joined with `; `.
pub open spec fn help_detail(fs: Seq<HelpValidationFailure>, selected: Seq<usize>) -> Seq<char> {
    if selected.len() == 0 {
        "hierarchical help check passed"@
    } else {
        join_texts(selected.map_values(|i: usize| failure_line(fs[i as int])), "; "@)
    }
}

/// A command path as `{:?}` writes it.
fn debug_path_text(p: &Vec<String>) -> (r: String)
    ensures
        r@ == debug_path(texts(p@)),
{
    let ghost tp = texts(p@);
    let mut parts: Vec<String> = Vec::new();
    for i in 0..p.len()
        invariant
            tp == texts(p@),
            texts(parts@) == tp.take(i as int).map_values(|s: Seq<char>| debug_text(s)),
    {
        let ghost before = texts(parts@);
        parts.push(debug_str(p[i].as_str()));
        assert(texts(parts@) =~= before.push(debug_text(tp[i as int])));
        assert(tp.take(i + 1).map_values(|s: Seq<char>| debug_text(s)) =~= tp.take(i as int).map_values(
            |s: Seq<char>| debug_text(s),
        ).push(debug_text(tp[i as int])));
    }
    assert(tp.take(p@.len() as int) =~= tp);
    let joined = join_strings(&parts, ", ");
    crate::text::concat3("[", joined.as_str(), "]")
}

impl HelpContext {
    /// The evidence of the check.
    pub closed spec fn evidence_of(&self) -> HelpEvidence {
        self.evidence
    }

    /// The evidence of the check.
    pub fn evidence(&self) -> (r: &HelpEvidence)
        ensures
            *r == self.evidence_of(),
    {
        &self.evidence
    }

    /// The verdict on `behavior`: it passed when none of the failures is
    /// of that behavior.
    pub fn result(&self, behavior: HierarchicalHelpBehavior) -> (r: HelpResult)
        ensures
            r.validation_failures@ == failure_indices(self.evidence_of().validation_failures@, behavior),
            r.commands_run@ == command_indices(self.evidence_of().commands_run@, behavior),
            r.passed == (r.validation_failures@.len() == 0),
            r.detail@ == help_detail(self.evidence_of().validation_failures@, r.validation_failures@),
    {
        let fs = &self.evidence.validation_failures;
        let mut selected: Vec<usize> = Vec::new();
        let mut lines: Vec<String> = Vec::new();
        for i in 0..fs.len()
            invariant
                fs@ == self.evidence.validation_failures@,
                selected@ == failure_indices(fs@.take(i as int), behavior),
                texts(lines@) == selected@.map_values(|k: usize| failure_line(fs@[k as int])),
                forall|k: int| 0 <= k < selected@.len() ==> selected@[k] < i,
        {
            assert(fs@.take(i + 1).drop_last() =~= fs@.take(i as int));
            if fs[i].behavior == behavior {
                let ghost before = texts(lines@);
                let ghost sel = selected@;
                let f = &fs[i];
                let line = crate::text::concat3(
                    f.message.as_str(),
                    " at ",
                    debug_path_text(&f.command_path).as_str(),
                );
                lines.push(line);
                selected.push(i);
                assert(texts(lines@) =~= before.push(failure_line(fs@[i as int])));
                assert(selected@.map_values(|k: usize| failure_line(fs@[k as int])) =~= sel.map_values(
                    |k: usize| failure_line(fs@[k as int]),
                ).push(failure_line(fs@[i as int])));
            }
        }
        assert(fs@.take(fs@.len() as int) =~= fs@);
        let passed = selected.len() == 0;
        let detail = if passed {
            String::from_str("hierarchical help check passed")
        } else {
            join_strings(&lines, "; ")
        };
        let os = &self.evidence.commands_run;
        let mut relevant: Vec<usize> = Vec::new();
        for i in 0..os.len()
            invariant
                os@ == self.evidence.commands_run@,
                relevant@ == command_indices(os@.take(i as int), behavior),
        {
            assert(os@.take(i + 1).drop_last() =~= os@.take(i as int));
            let o = &os[i];
            let relevant_here = match behavior {
                HierarchicalHelpBehavior::NonInteractiveOutput => true,
                _ => operation_behavior(o.operation.as_str()) == behavior,
            };
            if relevant_here {
                relevant.push(i);
            }
        }
        assert(os@.take(os@.len() as int) =~= os@);
        HelpResult { passed, detail, commands_run: relevant, validation_failures: selected }
    }
}

/// Every state of the hierarchical help check keeps its limits: it has
/// started no more help commands than the total command limit allows, and
/// it explored no more command paths than the command count limit, each no
/// deeper than the depth limit and none twice.
pub proof fn lemma_help_collector_limits(c: HelpCollector)
    requires
        c.wf(),
    ensures
        c.commands_started() <= c.limits_of().total_commands,
        c.explored_paths().len() <= c.limits_of().command_count,
        forall|i: int|
            0 <= i < c.explored_paths().len() ==> (#[trigger] c.explored_paths()[i]).len()
                <= c.limits_of().command_depth,
        distinct_paths(c.explored_paths()),
{
}

/// Command paths are explored breadth first from the root: the first path
/// explored is the root, and every other explored path comes after its
/// parent.
pub proof fn law_paths_explored_from_the_root(c: HelpCollector)
    requires
        c.wf(),
    ensures
        c.explored_paths().len() > 0 ==> c.explored_paths()[0] == Seq::<Seq<char>>::empty(),
        forall|i: int|
            #![trigger c.explored_paths()[i]]
            0 <= i < c.explored_paths().len() && c.explored_paths()[i].len() > 0 ==> exists|j: int|
                0 <= j < i && #[trigger] c.explored_paths()[j] == c.explored_paths()[i].drop_last(),
{
    let e = c.explored_paths();
    assert(e == c.state().explored);
    if e.len() > 0 && e[0].len() > 0 {
        let j = choose|j: int| 0 <= j < 0 && #[trigger] e[j] == e[0].drop_last();
    }
    if e.len() > 0 {
        assert(e[0] =~= Seq::<Seq<char>>::empty());
    }
}

// ---------------------------------------------------------------------------
// What each task finds

/// A failure as plain values.
pub type FailureView = (HierarchicalHelpBehavior, Seq<Seq<char>>, Seq<char>);

/// One failure when `bad` holds, none otherwise.
pub open spec fn if_fails(bad: bool, f: FailureView) -> Seq<FailureView> {
    if bad {
        seq![f]
    } else {
        Seq::empty()
    }
}

/// What a task leads to when its command did not run or its document
/// could not be read: the views and the unknown section expect output,
/// so their missing answer is a failure; other tasks add nothing.
pub open spec fn unanswered_failures(task: HelpTask, path: Seq<Seq<char>>) -> Seq<FailureView> {
    match task {
        HelpTask::UnknownSection { .. } => seq![
            failure_of(
                HierarchicalHelpBehavior::SectionRetrieval,
                path,
                "an unknown section must exit non-zero and identify the section argument"@,
            ),
        ],
        HelpTask::LocalView => seq![
            failure_of(
                HierarchicalHelpBehavior::LocalView,
                path,
                "non-interactive local view must write the document and exit successfully"@,
            ),
        ],
        HelpTask::WebView => seq![
            failure_of(
                HierarchicalHelpBehavior::WebView,
                path,
                "non-interactive web view must write an HTTP URL and exit successfully"@,
            ),
        ],
        HelpTask::ProgrammaticWebView => seq![
            failure_of(
                HierarchicalHelpBehavior::WebView,
                path,
                "programmatic web view must write the versioned HTTP URL"@,
            ),
        ],
        _ => Seq::empty(),
    }
}

/// What the output of a help command that writes no JSON document shows,
/// given what earlier commands at the path printed: `help` (its exit
/// status and output), the local view, and the version.
pub open spec fn run_task_failures(
    task: HelpTask,
    path: Seq<Seq<char>>,
    o: Observation,
    help: Option<(Option<i32>, Seq<char>)>,
    local_view: Option<Seq<char>>,
    version: Option<Seq<char>>,
) -> Seq<FailureView> {
    match task {
        HelpTask::Version => if_fails(
            version_in(o.stdout@) is None,
            failure_of(
                HierarchicalHelpBehavior::WebView,
                Seq::empty(),
                "--version did not contain a version number"@,
            ),
        ),
        HelpTask::OptionHelp => match help {
            Some(h) => if_fails(
                !(h.0 == Some(0i32) && o.exit_status == Some(0i32)),
                failure_of(
                    HierarchicalHelpBehavior::Availability,
                    path,
                    "help and --help must exit successfully"@,
                ),
            ) + if_fails(
                is_blank_text(h.1) || h.1 != o.stdout@,
                failure_of(
                    HierarchicalHelpBehavior::SharedHelp,
                    path,
                    "help must contain the same non-empty documentation as --help"@,
                ),
            ),
            None => Seq::empty(),
        },
        HelpTask::ProgrammaticHelp => match help {
            Some(h) => if_fails(
                !programmatic_help_ok(o.stdout@, h.1),
                failure_of(
                    HierarchicalHelpBehavior::ProgrammaticGuidance,
                    path,
                    "--programmatic must retain default help and add JSON and section guidance"@,
                ),
            ),
            None => Seq::empty(),
        },
        HelpTask::UnknownSection { .. } => if_fails(
            !unknown_section_ok(o.exit_status, o.stderr@),
            failure_of(
                HierarchicalHelpBehavior::SectionRetrieval,
                path,
                "an unknown section must exit non-zero and identify the section argument"@,
            ),
        ),
        HelpTask::LocalView => if_fails(
            !(o.exit_status == Some(0i32) && !is_blank_text(o.stdout@)),
            failure_of(
                HierarchicalHelpBehavior::LocalView,
                path,
                "non-interactive local view must write the document and exit successfully"@,
            ),
        ),
        HelpTask::ProgrammaticLocalView => match local_view {
            Some(d) => if_fails(
                !contains_text(o.stdout@, d),
                failure_of(
                    HierarchicalHelpBehavior::LocalView,
                    path,
                    "programmatic local view must retain the default document"@,
                ),
            ),
            None => Seq::empty(),
        },
        HelpTask::WebView => if_fails(
            !web_view_ok(o.exit_status, o.stdout@, version),
            failure_of(
                HierarchicalHelpBehavior::WebView,
                path,
                "non-interactive web view must write an HTTP URL and exit successfully"@,
            ),
        ),
        HelpTask::ProgrammaticWebView => if_fails(
            !web_view_ok(o.exit_status, o.stdout@, version),
            failure_of(
                HierarchicalHelpBehavior::WebView,
                path,
                "programmatic web view must write the versioned HTTP URL"@,
            ),
        ),
        _ => Seq::empty(),
    }
}

/// The failure of an invalid JSON header.
pub open spec fn header_failures(
    behavior: HierarchicalHelpBehavior,
    path: Seq<Seq<char>>,
    format_version: u32,
    actual_path: Seq<Seq<char>>,
    actual_programmatic: bool,
    expected_programmatic: bool,
) -> Seq<FailureView> {
    if_fails(
        !header_ok(format_version, actual_path, actual_programmatic, path, expected_programmatic),
        failure_of(
            behavior,
            path,
            "JSON format version, command path, or programmatic marker is invalid"@,
        ),
    )
}

/// What a JSON document that was read shows, for the task that asked
/// for it.
pub open spec fn document_task_failures(
    task: HelpTask,
    path: Seq<Seq<char>>,
    doc: HelpDocument,
    limits: HelpLimits,
) -> Seq<FailureView> {
    match task {
        HelpTask::Overview => match doc {
            HelpDocument::Overview(ov) => header_failures(
                HierarchicalHelpBehavior::CommandDiscovery,
                path,
                ov.format_version,
                texts(ov.command_path@),
                ov.programmatic,
                false,
            ) + copies(
                failure_of(
                    HierarchicalHelpBehavior::CommandDiscovery,
                    path,
                    "child command names must be non-empty, single tokens, and unique"@,
                ),
                (ov.child_commands@.len() - kept_child_names(child_names(ov.child_commands@)).len()) as nat,
            ),
            _ => Seq::empty(),
        },
        HelpTask::ProgrammaticOverview => match doc {
            HelpDocument::Overview(ov) => header_failures(
                HierarchicalHelpBehavior::ProgrammaticGuidance,
                path,
                ov.format_version,
                texts(ov.command_path@),
                ov.programmatic,
                true,
            ),
            _ => Seq::empty(),
        },
        HelpTask::Outline { programmatic } => match doc {
            HelpDocument::Outline(o) => header_failures(
                HierarchicalHelpBehavior::Outline,
                path,
                o.format_version,
                texts(o.command_path@),
                o.programmatic,
                programmatic,
            ) + copies(
                failure_of(
                    HierarchicalHelpBehavior::Outline,
                    path,
                    "outline heading has an invalid level, title, or section"@,
                ),
                (o.headings@.len() - kept_headings(o.headings@).len()) as nat,
            ),
            _ => Seq::empty(),
        },
        HelpTask::Section { programmatic, requested, allowed, expected, .. } => match doc {
            HelpDocument::Section(r) => header_failures(
                HierarchicalHelpBehavior::SectionRetrieval,
                path,
                r.format_version,
                texts(r.command_path@),
                r.programmatic,
                programmatic,
            ) + if_fails(
                !section_response_ok(
                    r.sections@,
                    requested@,
                    texts(allowed@),
                    expected as nat,
                    limits.document_bytes,
                ),
                failure_of(
                    HierarchicalHelpBehavior::SectionRetrieval,
                    path,
                    "section result must return the requested valid section"@,
                ),
            ),
            _ => Seq::empty(),
        },
        HelpTask::FilteredOutline { programmatic, through_level } => match doc {
            HelpDocument::Outline(o) => header_failures(
                HierarchicalHelpBehavior::Outline,
                path,
                o.format_version,
                texts(o.command_path@),
                o.programmatic,
                programmatic,
            ) + if_fails(
                !filtered_outline_ok(o.headings@, through_level),
                failure_of(
                    HierarchicalHelpBehavior::Outline,
                    path,
                    if through_level {
                        "--max-level returned a heading below the requested depth"@
                    } else {
                        "--level returned a different heading level"@
                    },
                ),
            ),
            _ => Seq::empty(),
        },
        HelpTask::Search { programmatic } => match doc {
            HelpDocument::Search(r) => header_failures(
                HierarchicalHelpBehavior::Search,
                path,
                r.format_version,
                texts(r.command_path@),
                r.programmatic,
                programmatic,
            ) + if_fails(
                !search_response_ok(r.results@, path, limits.search_results),
                failure_of(
                    HierarchicalHelpBehavior::Search,
                    path,
                    "search returned an invalid or excessive result"@,
                ),
            ),
            _ => Seq::empty(),
        },
        HelpTask::SearchSection { programmatic, section } => match doc {
            HelpDocument::Section(r) => header_failures(
                HierarchicalHelpBehavior::Search,
                path,
                r.format_version,
                texts(r.command_path@),
                r.programmatic,
                programmatic,
            ) + if_fails(
                !section_names(r.sections@).contains(section@),
                failure_of(
                    HierarchicalHelpBehavior::Search,
                    path,
                    "search section could not be retrieved"@,
                ),
            ),
            _ => Seq::empty(),
        },
        _ => Seq::empty(),
    }
}

/// What a help command's task finds from its answer, given what earlier
/// commands at the path printed.
pub open spec fn task_failures(
    c: HelpCommand,
    reply: Result<Observation, String>,
    document: Option<Result<HelpDocument, String>>,
    limits: HelpLimits,
    help: Option<(Option<i32>, Seq<char>)>,
    local_view: Option<Seq<char>>,
    version: Option<Seq<char>>,
) -> Seq<FailureView> {
    let path = texts(c.command_path@);
    match reply {
        Err(_) => unanswered_failures(c.task, path),
        Ok(o) => match task_document(c.task) {
            None => run_task_failures(c.task, path, o, help, local_view, version),
            Some(kind) => if document_readable(o, limits.document_bytes, kind, document) {
                match document {
                    Some(Ok(d)) => document_task_failures(c.task, path, d, limits),
                    _ => Seq::empty(),
                }
            } else {
                unanswered_failures(c.task, path)
            },
        },
    }
}

/// What `help` at the current path printed, after a command's answer.
pub open spec fn help_after(
    task: HelpTask,
    reply: Result<Observation, String>,
    before: Option<(Option<i32>, Seq<char>)>,
) -> Option<(Option<i32>, Seq<char>)> {
    match task {
        HelpTask::SharedHelp => match reply {
            Ok(o) => Some((o.exit_status, o.stdout@)),
            Err(_) => None,
        },
        _ => before,
    }
}

/// What the local view at the current path printed, after a command's answer.
pub open spec fn local_view_after(
    task: HelpTask,
    reply: Result<Observation, String>,
    before: Option<Seq<char>>,
) -> Option<Seq<char>> {
    match task {
        HelpTask::LocalView => match reply {
            Ok(o) => Some(o.stdout@),
            Err(_) => None,
        },
        _ => before,
    }
}

/// The version found, after a command's answer.
pub open spec fn version_after(
    task: HelpTask,
    reply: Result<Observation, String>,
    before: Option<Seq<char>>,
) -> Option<Seq<char>> {
    match task {
        HelpTask::Version => match reply {
            Ok(o) => version_in(o.stdout@),
            Err(_) => before,
        },
        _ => before,
    }
}

/// The help commands run at each explored command path, in order: the
/// overview, `help`, `--help`, the programmatic help and overview, the
/// outlines, the searches, and the local and web views.
pub open spec fn path_tasks(path: Seq<Seq<char>>) -> Seq<(Seq<Seq<char>>, HelpTask)> {
    seq![
        (path, HelpTask::Overview),
        (path, HelpTask::SharedHelp),
        (path, HelpTask::OptionHelp),
        (path, HelpTask::ProgrammaticHelp),
        (path, HelpTask::ProgrammaticOverview),
        (path, HelpTask::Outline { programmatic: false }),
        (path, HelpTask::Outline { programmatic: true }),
        (path, HelpTask::Search { programmatic: false }),
        (path, HelpTask::Search { programmatic: true }),
        (path, HelpTask::LocalView),
        (path, HelpTask::ProgrammaticLocalView),
        (path, HelpTask::WebView),
        (path, HelpTask::ProgrammaticWebView),
    ]
}

/// The queued command `e` is a section request at `path`.
pub open spec fn section_task_is(
    e: (Seq<Seq<char>>, HelpTask),
    path: Seq<Seq<char>>,
    programmatic: bool,
    recursive: bool,
    requested: Seq<char>,
    allowed: Seq<Seq<char>>,
    expected: nat,
) -> bool {
    e.0 == path && match e.1 {
        HelpTask::Section { programmatic: p, recursive: r, requested: q, allowed: a, expected: x } => p
            == programmatic && r == recursive && q@ == requested && texts(a@) == allowed && x
            == expected,
        _ => false,
    }
}

/// The commands an outline leads to at `path`: for each valid heading in
/// order, its section and then its section with the sections under it;
/// then an unknown section, and the outline filtered to level 2 and
/// through level 2.
pub open spec fn outline_followups(
    q: Seq<(Seq<Seq<char>>, HelpTask)>,
    path: Seq<Seq<char>>,
    programmatic: bool,
    hs: Seq<Heading>,
) -> bool {
    let n = hs.len() as int;
    &&& q.len() == 2 * n + 3
    &&& forall|k: int|
        #![trigger hs[k]]
        0 <= k < n ==> section_task_is(
            q[2 * k],
            path,
            programmatic,
            false,
            hs[k].section@,
            seq![hs[k].section@],
            section_count(hs, hs[k].section@),
        ) && section_task_is(
            q[2 * k + 1],
            path,
            programmatic,
            true,
            hs[k].section@,
            recursive_sections(hs, k),
            section_count(hs, hs[k].section@),
        )
    &&& q[2 * n] == (path, HelpTask::UnknownSection { programmatic })
    &&& q[2 * n + 1] == (path, HelpTask::FilteredOutline { programmatic, through_level: false })
    &&& q[2 * n + 2] == (path, HelpTask::FilteredOutline { programmatic, through_level: true })
}

/// The queued command `e` requests the section of search result `r`.
pub open spec fn search_task_is(e: (Seq<Seq<char>>, HelpTask), programmatic: bool, r: SearchResult) -> bool {
    e.0 == texts(r.command_path@) && match e.1 {
        HelpTask::SearchSection { programmatic: p, section: s } => p == programmatic && s@ == r.section@,
        _ => false,
    }
}

/// The commands a valid search leads to: each result's section, in order,
/// at the result's command path.
pub open spec fn search_followups(
    q: Seq<(Seq<Seq<char>>, HelpTask)>,
    programmatic: bool,
    rs: Seq<SearchResult>,
) -> bool {
    &&& q.len() == rs.len()
    &&& forall|k: int| 0 <= k < rs.len() ==> search_task_is(q[k], programmatic, #[trigger] rs[k])
}

/// The queue after a JSON document was read: an outline puts its follow-up
/// commands first, a valid search its section requests; other documents
/// leave the queue as it was.
pub open spec fn document_followups(
    task: HelpTask,
    path: Seq<Seq<char>>,
    doc: HelpDocument,
    limits: HelpLimits,
    before: Seq<(Seq<Seq<char>>, HelpTask)>,
    after: Seq<(Seq<Seq<char>>, HelpTask)>,
) -> bool {
    match task {
        HelpTask::Outline { programmatic } => match doc {
            HelpDocument::Outline(o) => {
                let hs = kept_headings(o.headings@);
                let k = 2 * (hs.len() as int) + 3;
                after.len() == before.len() + k && outline_followups(after.take(k), path, programmatic, hs)
                    && after.skip(k) == before
            },
            _ => after == before,
        },
        HelpTask::Search { programmatic } => match doc {
            HelpDocument::Search(r) => if search_response_ok(r.results@, path, limits.search_results) {
                after.len() == before.len() + r.results@.len() && search_followups(
                    after.take(r.results@.len() as int),
                    programmatic,
                    r.results@,
                ) && after.skip(r.results@.len() as int) == before
            } else {
                after == before
            },
            _ => after == before,
        },
        _ => after == before,
    }
}

/// The command paths an overview adds to explore: one below `path` for
/// each kept child command name, in order.
pub open spec fn document_paths(task: HelpTask, path: Seq<Seq<char>>, doc: HelpDocument) -> Seq<Seq<Seq<char>>> {
    match task {
        HelpTask::Overview => match doc {
            HelpDocument::Overview(ov) => kept_child_names(child_names(ov.child_commands@)).map_values(
                |n: Seq<char>| path.push(n),
            ),
            _ => Seq::empty(),
        },
        _ => Seq::empty(),
    }
}

/// The document of a command's answer, when it was read.
pub open spec fn readable_document(
    c: HelpCommand,
    reply: Result<Observation, String>,
    document: Option<Result<HelpDocument, String>>,
    limits: HelpLimits,
) -> Option<HelpDocument> {
    match reply {
        Ok(o) => match task_document(c.task) {
            Some(kind) => if document_readable(o, limits.document_bytes, kind, document) {
                match document {
                    Some(Ok(d)) => Some(d),
                    _ => None,
                }
            } else {
                None
            },
            None => None,
        },
        Err(_) => None,
    }
}

/// The parts of the collector that answering a JSON document leaves as
/// they are.
pub closed spec fn keeps_frame(a: HelpCollector, b: HelpCollector) -> bool {
    &&& b.limits == a.limits
    &&& b.observations == a.observations
    &&& b.command_paths == a.command_paths
    &&& b.total_commands == a.total_commands
    &&& b.next_pending == a.next_pending
    &&& b.seen == a.seen
    &&& b.finished == a.finished
    &&& b.help == a.help
    &&& b.local_view == a.local_view
    &&& b.tool_version == a.tool_version
}

/// The operation name of a task, as the evidence records it.
pub open spec fn task_operation_name(task: HelpTask) -> Seq<char> {
    match task {
        HelpTask::Version => "web-version"@,
        HelpTask::Overview => "overview"@,
        HelpTask::SharedHelp => "shared-help"@,
        HelpTask::OptionHelp => "help-option"@,
        HelpTask::ProgrammaticHelp => "programmatic-help"@,
        HelpTask::ProgrammaticOverview => "programmatic-overview"@,
        HelpTask::Outline { programmatic } => if programmatic {
            "programmatic-outline"@
        } else {
            "outline"@
        },
        HelpTask::Section { recursive, .. } => if recursive {
            "recursive-section"@
        } else {
            "section"@
        },
        HelpTask::UnknownSection { .. } => "section"@,
        HelpTask::FilteredOutline { .. } => "outline"@,
        HelpTask::Search { programmatic } => if programmatic {
            "programmatic-search"@
        } else {
            "search"@
        },
        HelpTask::SearchSection { .. } => "search-section"@,
        HelpTask::LocalView => "local-view"@,
        HelpTask::ProgrammaticLocalView => "local-view"@,
        HelpTask::WebView => "web-view"@,
        HelpTask::ProgrammaticWebView => "web-view"@,
    }
}

/// `--programmatic` where the task asks for programmatic output.
pub open spec fn programmatic_flag(programmatic: bool) -> Seq<Seq<char>> {
    if programmatic {
        seq!["--programmatic"@]
    } else {
        Seq::empty()
    }
}

/// The arguments a task adds after the command path.
pub open spec fn task_suffix(task: HelpTask) -> Seq<Seq<char>> {
    match task {
        HelpTask::Version => seq!["--version"@],
        HelpTask::Overview => seq!["help"@, "--format"@, "json"@],
        HelpTask::SharedHelp => seq!["help"@],
        HelpTask::OptionHelp => seq!["--help"@],
        HelpTask::ProgrammaticHelp => seq!["help"@, "--programmatic"@],
        HelpTask::ProgrammaticOverview => seq!["help"@, "--programmatic"@, "--format"@, "json"@],
        HelpTask::Outline { programmatic } => seq!["help"@, "outline"@] + programmatic_flag(
            programmatic,
        ) + seq!["--format"@, "json"@],
        HelpTask::Section { programmatic, recursive, requested, .. } => seq![
            "help"@,
            "section"@,
            requested@,
        ] + (if recursive {
            seq!["--recursive"@]
        } else {
            Seq::empty()
        }) + programmatic_flag(programmatic) + seq!["--format"@, "json"@],
        HelpTask::UnknownSection { programmatic } => seq![
            "help"@,
            "section"@,
            UNKNOWN_SECTION@,
        ] + programmatic_flag(programmatic) + seq!["--format"@, "json"@],
        HelpTask::FilteredOutline { programmatic, through_level } => seq!["help"@, "outline"@]
            + programmatic_flag(programmatic) + (if through_level {
            seq!["--max-level"@]
        } else {
            seq!["--level"@]
        }) + seq!["2"@, "--format"@, "json"@],
        HelpTask::Search { programmatic } => seq!["help"@, "search"@] + (if programmatic {
            seq!["programmatic"@, "--programmatic"@]
        } else {
            seq!["permissions"@]
        }) + seq!["--format"@, "json"@],
        HelpTask::SearchSection { programmatic, section } => seq!["help"@, "section"@, section@]
            + programmatic_flag(programmatic) + seq!["--format"@, "json"@],
        HelpTask::LocalView => seq!["help"@, "view"@],
        HelpTask::ProgrammaticLocalView => seq!["help"@, "view"@, "--programmatic"@],
        HelpTask::WebView => seq!["help"@, "view"@, "--web"@],
        HelpTask::ProgrammaticWebView => seq!["help"@, "view"@, "--web"@, "--programmatic"@],
    }
}

/// The section a task requests, if any.
pub open spec fn task_section(task: HelpTask) -> Option<Seq<char>> {
    match task {
        HelpTask::Section { requested, .. } => Some(requested@),
        HelpTask::UnknownSection { .. } => Some(UNKNOWN_SECTION@),
        HelpTask::SearchSection { section, .. } => Some(section@),
        _ => None,
    }
}

/// Programmatic help passes only when it keeps the default help and, in
/// lower case, mentions both JSON and sections: after `help` printed
/// `help_text`, the answer of `help --programmatic` at `path` gives no
/// failure when its output contains `help_text`, "json" and "section"
/// (the last two in lower case), and otherwise exactly one
/// ProgrammaticGuidance failure at `path`.
pub proof fn law_programmatic_help_needs_json_and_sections(
    path: Seq<Seq<char>>,
    o: Observation,
    help_status: Option<i32>,
    help_text: Seq<char>,
    local_view: Option<Seq<char>>,
    version: Option<Seq<char>>,
)
    ensures
        ({
            let found = run_task_failures(
                HelpTask::ProgrammaticHelp,
                path,
                o,
                Some((help_status, help_text)),
                local_view,
                version,
            );
            let accepted = contains_text(o.stdout@, help_text) && contains_text(
                lowercase(o.stdout@),
                "json"@,
            ) && contains_text(lowercase(o.stdout@), "section"@);
            &&& accepted ==> found.len() == 0
            &&& !accepted ==> found == seq![
                (
                    HierarchicalHelpBehavior::ProgrammaticGuidance,
                    path,
                    "--programmatic must retain default help and add JSON and section guidance"@,
                ),
            ]
        }),
{
}

} // verus!
