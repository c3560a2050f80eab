//! The project configuration (`.clilint/config.toml`): which local check
//! bundles a project installs, and how they are combined for a check.
use vstd::prelude::*;
use vstd::string::*;

use crate::check_bundle::{
    bundle_problem, core_bundle, included_list, included_parts, resolve, resolve_problem,
    resolve_problem_parts, CheckBundleManifest,
};
use crate::model::CheckBundleIdentity;
use crate::text::{concat, concat3, concat4, str_eq, str_lt, text_lt, texts};

verus! {

broadcast use vstd::string::group_string_axioms;

/// What kind of component of a path a component is
/// (`std::path::Component`).
#[derive(Clone, Copy, Debug, PartialEq, Eq, Structural)]
pub enum PartKind {
    Prefix,
    RootDir,
    CurDir,
    ParentDir,
    Normal,
}

/// A component of a path: its kind and its text.
pub type Part = (PartKind, Seq<char>);

/// The components of a path as `Path::components` yields them: the kind
/// of each and its text (`as_os_str`).
pub uninterp spec fn path_parts(path: Seq<char>) -> Seq<Part>;

/// Components as plain values.
pub open spec fn parts_view(v: Seq<(PartKind, String)>) -> Seq<Part> {
    v.map_values(|p: (PartKind, String)| (p.0, p.1@))
}

/// The texts of components.
pub open spec fn part_texts(cs: Seq<Part>) -> Seq<Seq<char>> {
    cs.map_values(|p: Part| p.1)
}

/// `Path::components`, each component given by its kind and its text. The
/// contract names the list, which depends on the path alone.
#[verifier::external_body]
fn path_components(path: &str) -> (r: Vec<(PartKind, String)>)
    ensures
        parts_view(r@) == path_parts(path@),
{
    let mut r = Vec::new();
    for c in std::path::Path::new(path).components() {
        let kind = match c {
            std::path::Component::Prefix(_) => PartKind::Prefix,
            std::path::Component::RootDir => PartKind::RootDir,
            std::path::Component::CurDir => PartKind::CurDir,
            std::path::Component::ParentDir => PartKind::ParentDir,
            std::path::Component::Normal(_) => PartKind::Normal,
        };
        r.push((kind, c.as_os_str().to_string_lossy().into_owned()));
    }
    r
}

/// Whether `Path::is_absolute` holds of a path.
pub uninterp spec fn absolute_path(path: Seq<char>) -> bool;

/// `Path::is_absolute`. The contract names the answer, which depends on
/// the path alone.
#[verifier::external_body]
fn is_absolute(path: &str) -> (r: bool)
    ensures
        r == absolute_path(path@),
{
    std::path::Path::new(path).is_absolute()
}

/// The text of the path `PathBuf::push` makes by pushing `part` onto
/// `base`.
pub uninterp spec fn pushed_path(base: Seq<char>, part: Seq<char>) -> Seq<char>;

/// `PathBuf::push` on a path held as text. The contract names the text,
/// which depends on the two texts alone.
#[verifier::external_body]
fn push_path(base: &mut String, part: &str)
    ensures
        final(base)@ == pushed_path(old(base)@, part@),
{
    let mut path = std::path::PathBuf::from(std::mem::take(base));
    path.push(part);
    *base = path.to_string_lossy().into_owned();
}

/// `PathBuf::pop` succeeds on a path of these components: its last
/// component is a name, so the path has a parent.
pub open spec fn can_pop(stack: Seq<Part>) -> bool {
    stack.len() > 0 && stack.last().0 is Normal
}

/// The components that remain after `.` components are dropped and each
/// `..` removes the component before it; `None` when a `..` would leave
/// the root.
pub open spec fn normalized_components(cs: Seq<Part>) -> Option<Seq<Part>>
    decreases cs.len(),
{
    if cs.len() == 0 {
        Some(Seq::empty())
    } else {
        step_component(normalized_components(cs.drop_last()), cs.last())
    }
}

/// One component applied to a path: `.` keeps it, `..` takes its last
/// component away (`None` when it has no parent), any other is pushed.
pub open spec fn step_component(acc: Option<Seq<Part>>, c: Part) -> Option<Seq<Part>> {
    match acc {
        None => None,
        Some(stack) => {
            if c.0 is CurDir {
                Some(stack)
            } else if c.0 is ParentDir {
                if can_pop(stack) {
                    Some(stack.drop_last())
                } else {
                    None
                }
            } else {
                Some(stack.push(c))
            }
        },
    }
}

/// What `normalize_absolute` gives for a path: its normalized
/// components, or the error it reports.
pub open spec fn normalize_outcome(path: Seq<char>) -> Result<Seq<Part>, Seq<char>> {
    if !absolute_path(path) {
        Err("expected an absolute path, got "@ + path)
    } else {
        match normalized_components(path_parts(path)) {
            None => Err("path escapes its root: "@ + path),
            Some(s) => Ok(s),
        }
    }
}

proof fn lemma_normalized_none_extends(cs: Seq<Part>, i: int)
    requires
        0 <= i <= cs.len(),
        normalized_components(cs.take(i)) is None,
    ensures
        normalized_components(cs) is None,
    decreases cs.len() - i,
{
    if i < cs.len() {
        assert(cs.take(i + 1).drop_last() =~= cs.take(i));
        lemma_normalized_none_extends(cs, i + 1);
    } else {
        assert(cs.take(i) =~= cs);
    }
}

/// Normalizes an absolute path: drops `.` components and resolves each
/// `..` against the component before it.
pub fn normalize_absolute(path: &str) -> (r: Result<Vec<(PartKind, String)>, String>)
    ensures
        match normalize_outcome(path@) {
            Ok(s) => r matches Ok(v) && parts_view(v@) == s,
            Err(m) => r matches Err(e) && e@ == m,
        },
{
    if !is_absolute(path) {
        return Err(concat("expected an absolute path, got ", path));
    }
    let components = path_components(path);
    let ghost cs = path_parts(path@);
    let mut stack: Vec<(PartKind, String)> = Vec::new();
    let n = components.len();
    assert(cs.take(0) =~= Seq::<Part>::empty());
    for i in 0..n
        invariant
            n == components@.len(),
            parts_view(components@) == cs,
            cs == path_parts(path@),
            absolute_path(path@),
            normalized_components(cs.take(i as int)) == Some(parts_view(stack@)),
    {
        assert(cs.take(i + 1).drop_last() =~= cs.take(i as int));
        assert(cs[i as int] == (components@[i as int].0, components@[i as int].1@));
        let kind = components[i].0;
        match kind {
            PartKind::CurDir => {},
            PartKind::ParentDir => {
                let can = stack.len() > 0 && match stack[stack.len() - 1].0 {
                    PartKind::Normal => true,
                    _ => false,
                };
                if !can {
                    proof {
                        lemma_normalized_none_extends(cs, i + 1);
                    }
                    return Err(concat("path escapes its root: ", path));
                }
                let ghost before = stack@;
                stack.pop();
                assert(parts_view(stack@) =~= parts_view(before).drop_last());
            },
            _ => {
                let ghost before = stack@;
                stack.push((kind, components[i].1.clone()));
                assert(parts_view(stack@) =~= parts_view(before).push(cs[i as int]));
            },
        }
    }
    assert(cs.take(n as int) =~= cs);
    Ok(stack)
}

/// The number of leading components from index `i` on that `a` and `b`
/// share, counted from 0: the length of their common prefix when `i` is 0.
pub open spec fn common_len(a: Seq<Part>, b: Seq<Part>, i: int) -> int
    decreases a.len() - i,
{
    if 0 <= i && i < a.len() && i < b.len() && a[i] == b[i] {
        common_len(a, b, i + 1)
    } else {
        i
    }
}

/// A `..` component.
pub open spec fn parent_part() -> Part {
    (PartKind::ParentDir, ".."@)
}

/// The components that lead from `a` to `b`: one `..` for each component
/// of `a` past the common prefix, then the rest of `b`.
pub open spec fn relative_seq(a: Seq<Part>, b: Seq<Part>) -> Seq<Part> {
    let c = common_len(a, b, 0);
    Seq::new((a.len() - c) as nat, |k: int| parent_part()) + b.skip(c)
}

/// The text of the path built by pushing each text in turn onto an empty
/// `PathBuf`.
pub open spec fn joined(cs: Seq<Seq<char>>) -> Seq<char>
    decreases cs.len(),
{
    if cs.len() == 0 {
        Seq::empty()
    } else {
        pushed_path(joined(cs.drop_last()), cs.last())
    }
}

/// What `relative_path` gives for two paths.
pub open spec fn relative_outcome(from: Seq<char>, to: Seq<char>) -> Result<Seq<char>, Seq<char>> {
    match normalize_outcome(from) {
        Err(e) => Err(e),
        Ok(f) => match normalize_outcome(to) {
            Err(e) => Err(e),
            Ok(t) => {
                if common_len(f, t, 0) == 0 {
                    Err("cannot make "@ + joined(part_texts(t)) + " relative to "@ + joined(part_texts(f)))
                } else if joined(part_texts(relative_seq(f, t))).len() == 0 {
                    Ok("."@)
                } else {
                    Ok(joined(part_texts(relative_seq(f, t))))
                }
            },
        },
    }
}

proof fn lemma_common_len_from(a: Seq<Part>, b: Seq<Part>, i: int)
    requires
        0 <= i <= a.len(),
        i <= b.len(),
        forall|j: int| 0 <= j < i ==> a[j] == b[j],
    ensures
        common_len(a, b, 0) == common_len(a, b, i),
    decreases i,
{
    if i > 0 {
        lemma_common_len_from(a, b, i - 1);
    }
}

/// The text of the path made by pushing the texts of `cs` in turn onto an
/// empty path.
pub fn join_components(cs: &Vec<(PartKind, String)>) -> (r: String)
    ensures
        r@ == joined(part_texts(parts_view(cs@))),
{
    let ghost ts = part_texts(parts_view(cs@));
    let mut r = String::new();
    let n = cs.len();
    assert(ts.take(0) =~= Seq::<Seq<char>>::empty());
    for i in 0..n
        invariant
            n == cs@.len(),
            ts == part_texts(parts_view(cs@)),
            r@ == joined(ts.take(i as int)),
    {
        assert(ts.take(i + 1).drop_last() =~= ts.take(i as int));
        assert(ts.take(i + 1).last() == cs@[i as int].1@);
        push_path(&mut r, cs[i].1.as_str());
    }
    assert(ts.take(n as int) =~= ts);
    r
}

/// Whether two components are the same.
fn same_part(a: &(PartKind, String), b: &(PartKind, String)) -> (r: bool)
    ensures
        r == ((a.0, a.1@) == (b.0, b.1@)),
{
    a.0 == b.0 && str_eq(a.1.as_str(), b.1.as_str())
}

/// The path that leads from the directory `from` to `to`, both absolute;
/// `.` when they are the same.
pub fn relative_path(from: &str, to: &str) -> (r: Result<String, String>)
    ensures
        match relative_outcome(from@, to@) {
            Ok(p) => r matches Ok(s) && s@ == p,
            Err(m) => r matches Err(e) && e@ == m,
        },
{
    let f = normalize_absolute(from)?;
    let t = normalize_absolute(to)?;
    let ghost fs = parts_view(f@);
    let ghost ts = parts_view(t@);
    let mut common: usize = 0;
    while common < f.len() && common < t.len() && same_part(&f[common], &t[common])
        invariant
            common <= f@.len(),
            common <= t@.len(),
            fs == parts_view(f@),
            ts == parts_view(t@),
            forall|j: int| 0 <= j < common ==> fs[j] == ts[j],
        decreases f@.len() - common,
    {
        common = common + 1;
    }
    proof {
        lemma_common_len_from(fs, ts, common as int);
    }
    if common == 0 {
        let t_text = join_components(&t);
        let f_text = join_components(&f);
        return Err(concat4("cannot make ", t_text.as_str(), " relative to ", f_text.as_str()));
    }
    let mut rel: Vec<(PartKind, String)> = Vec::new();
    let ups = f.len() - common;
    for k in 0..ups
        invariant
            parts_view(rel@) == Seq::new(k as nat, |j: int| parent_part()),
    {
        let ghost before = rel@;
        rel.push((PartKind::ParentDir, String::from_str("..")));
        assert(parts_view(rel@) =~= Seq::new((k + 1) as nat, |j: int| parent_part())) by {
            assert(parts_view(rel@) =~= parts_view(before).push(parent_part()));
        }
    }
    for k in common..t.len()
        invariant
            common <= k <= t@.len(),
            ups == f@.len() - common,
            ts == parts_view(t@),
            parts_view(rel@) == Seq::new(ups as nat, |j: int| parent_part()) + ts.subrange(
                common as int,
                k as int,
            ),
    {
        let ghost before = rel@;
        rel.push((t[k].0, t[k].1.clone()));
        assert(parts_view(rel@) =~= parts_view(before).push(ts[k as int]));
        assert(ts.subrange(common as int, k + 1) =~= ts.subrange(common as int, k as int).push(ts[k as int]));
    }
    assert(parts_view(rel@) =~= relative_seq(fs, ts));
    let text = join_components(&rel);
    if text.as_str().unicode_len() == 0 {
        Ok(String::from_str("."))
    } else {
        Ok(text)
    }
}

/// Where an installed bundle comes from: a local path, as written in the
/// configuration.
#[derive(Debug)]
pub enum BundleSource {
    Local { path: String },
}

impl BundleSource {
    /// The path of the source.
    pub open spec fn path_text(self) -> Seq<char> {
        match self {
            BundleSource::Local { path } => path@,
        }
    }
}

impl Clone for BundleSource {
    fn clone(&self) -> (r: Self)
        ensures
            r == *self,
    {
        match self {
            BundleSource::Local { path } => BundleSource::Local { path: path.clone() },
        }
    }
}

/// The entries of a configuration as texts: each bundle name with the
/// path of its source.
pub open spec fn entry_texts(entries: Seq<(String, BundleSource)>) -> Seq<(Seq<char>, Seq<char>)> {
    entries.map_values(|e: (String, BundleSource)| (e.0@, e.1.path_text()))
}

/// The names are in strictly increasing order, as a `BTreeMap` keeps them.
pub open spec fn sorted_names(entries: Seq<(Seq<char>, Seq<char>)>) -> bool {
    forall|i: int, j: int| 0 <= i < j < entries.len() ==> text_lt(entries[i].0, entries[j].0)
}

/// The number of leading entries whose names order before `name`: where
/// `name` sits in a sorted list.
pub open spec fn lower_bound(entries: Seq<(Seq<char>, Seq<char>)>, name: Seq<char>) -> int
    decreases entries.len(),
{
    if entries.len() == 0 {
        0
    } else if text_lt(entries[0].0, name) {
        1 + lower_bound(entries.drop_first(), name)
    } else {
        0
    }
}

/// The list has an entry named `name`, at `lower_bound`.
pub open spec fn has_entry(entries: Seq<(Seq<char>, Seq<char>)>, name: Seq<char>) -> bool {
    let p = lower_bound(entries, name);
    p < entries.len() && entries[p].0 == name
}

/// The entries after `name` is set to `path`, as `BTreeMap::insert` does.
pub open spec fn inserted(entries: Seq<(Seq<char>, Seq<char>)>, name: Seq<char>, path: Seq<char>) -> Seq<(Seq<char>, Seq<char>)> {
    let p = lower_bound(entries, name);
    if has_entry(entries, name) {
        entries.update(p, (name, path))
    } else {
        entries.insert(p, (name, path))
    }
}

/// The entries after the entry named `name`, if any, is removed.
pub open spec fn removed(entries: Seq<(Seq<char>, Seq<char>)>, name: Seq<char>) -> Seq<(Seq<char>, Seq<char>)> {
    if has_entry(entries, name) {
        entries.remove(lower_bound(entries, name))
    } else {
        entries
    }
}

/// The project configuration: the installed bundles by name, in name order.
#[derive(Debug)]
pub struct ProjectConfig {
    check_bundles: Vec<(String, BundleSource)>,
}

impl View for ProjectConfig {
    type V = Seq<(Seq<char>, Seq<char>)>;

    closed spec fn view(&self) -> Seq<(Seq<char>, Seq<char>)> {
        entry_texts(self.check_bundles@)
    }
}

proof fn lemma_lower_bound(entries: Seq<(Seq<char>, Seq<char>)>, name: Seq<char>, i: int)
    requires
        0 <= i <= entries.len(),
        forall|j: int| 0 <= j < i ==> text_lt(#[trigger] entries[j].0, name),
        i == entries.len() || !text_lt(entries[i].0, name),
    ensures
        lower_bound(entries, name) == i,
    decreases i,
{
    if i > 0 {
        let rest = entries.drop_first();
        assert forall|j: int| 0 <= j < i - 1 implies text_lt(#[trigger] rest[j].0, name) by {
            assert(rest[j] == entries[j + 1]);
        }
        if i < entries.len() {
            assert(rest[i - 1] == entries[i]);
        }
        lemma_lower_bound(rest, name, i - 1);
    }
}

proof fn lemma_lower_bound_props(entries: Seq<(Seq<char>, Seq<char>)>, name: Seq<char>)
    ensures
        0 <= lower_bound(entries, name) <= entries.len(),
        forall|k: int| 0 <= k < lower_bound(entries, name) ==> text_lt(#[trigger] entries[k].0, name),
        lower_bound(entries, name) < entries.len() ==> !text_lt(entries[lower_bound(entries, name)].0, name),
    decreases entries.len(),
{
    if entries.len() > 0 && text_lt(entries[0].0, name) {
        let rest = entries.drop_first();
        lemma_lower_bound_props(rest, name);
        assert forall|k: int| 0 <= k < lower_bound(entries, name) implies text_lt(#[trigger] entries[k].0, name) by {
            if k > 0 {
                assert(entries[k] == rest[k - 1]);
            }
        }
        if lower_bound(entries, name) < entries.len() {
            assert(entries[lower_bound(entries, name)] == rest[lower_bound(rest, name)]);
        }
    }
}

impl ProjectConfig {
    #[verifier::type_invariant]
    spec fn inv(self) -> bool {
        sorted_names(entry_texts(self.check_bundles@))
    }

    /// A configuration with no bundles.
    pub fn new() -> (r: ProjectConfig)
        ensures
            r@ == Seq::<(Seq<char>, Seq<char>)>::empty(),
    {
        let r = ProjectConfig { check_bundles: Vec::new() };
        assert(r@ =~= Seq::<(Seq<char>, Seq<char>)>::empty());
        r
    }

    /// The installed bundles, in name order.
    pub fn entries(&self) -> (r: &Vec<(String, BundleSource)>)
        ensures
            entry_texts(r@) == self@,
    {
        &self.check_bundles
    }

    /// Where `name` sits among the entries.
    fn position(&self, name: &str) -> (r: usize)
        ensures
            r == lower_bound(self@, name@),
            r <= self@.len(),
    {
        let n = self.check_bundles.len();
        let mut i: usize = 0;
        while i < n && str_lt(self.check_bundles[i].0.as_str(), name)
            invariant
                n == self.check_bundles@.len(),
                i <= n,
                self@ == entry_texts(self.check_bundles@),
                forall|j: int| 0 <= j < i ==> text_lt(#[trigger] self@[j].0, name@),
            decreases n - i,
        {
            assert(self@[i as int].0 == self.check_bundles@[i as int].0@);
            i = i + 1;
        }
        proof {
            if i < n {
                assert(self@[i as int].0 == self.check_bundles@[i as int].0@);
            }
            lemma_lower_bound(self@, name@, i as int);
        }
        i
    }

    /// Whether an entry is named `name`.
    pub fn contains_key(&self, name: &str) -> (r: bool)
        ensures
            r == has_entry(self@, name@),
            r == entry_map(self@).dom().contains(name@),
    {
        proof {
            use_type_invariant(self);
            law_has_entry_finds_names(self@, name@);
        }
        let p = self.position(name);
        if p < self.check_bundles.len() {
            assert(self@[p as int].0 == self.check_bundles@[p as int].0@);
            str_eq(self.check_bundles[p].0.as_str(), name)
        } else {
            false
        }
    }

    /// Sets the source of the bundle `name` (`BTreeMap::insert`).
    pub fn insert(&mut self, name: String, source: BundleSource)
        ensures
            final(self)@ == inserted(old(self)@, name@, source.path_text()),
            entry_map(final(self)@) == entry_map(old(self)@).insert(name@, source.path_text()),
    {
        proof {
            use_type_invariant(&*self);
            law_inserted_is_map_insert(self@, name@, source.path_text());
        }
        let ghost before = self@;
        let p = self.position(name.as_str());
        let present = self.contains_key(name.as_str());
        let ghost path = source.path_text();
        let mut entries: Vec<(String, BundleSource)> = Vec::new();
        std::mem::swap(&mut entries, &mut self.check_bundles);
        assert(entry_texts(entries@) == before);
        let ghost entry = (name@, path);
        if present {
            entries.set(p, (name, source));
            assert(entry_texts(entries@) =~= before.update(p as int, entry));
        } else {
            entries.insert(p, (name, source));
            assert(entry_texts(entries@) =~= before.insert(p as int, entry));
        }
        proof {
            let after = entry_texts(entries@);
            lemma_lower_bound_props(before, name@);
            if !present {
                assert forall|k: int| p <= k < before.len() implies text_lt(name@, #[trigger] before[k].0) by {
                    crate::text::lemma_text_lt_total(before[p as int].0, name@);
                    if k > p {
                        crate::text::lemma_text_lt_transitive(name@, before[p as int].0, before[k].0);
                    }
                }
            }
            assert forall|i: int, j: int| 0 <= i < j < after.len() implies text_lt(
                after[i].0,
                after[j].0,
            ) by {
                if !present {
                    if j < p {
                    } else if j == p {
                    } else if i < p {
                        assert(text_lt(name@, before[j - 1].0));
                        crate::text::lemma_text_lt_transitive(before[i].0, name@, before[j - 1].0);
                    } else if i == p {
                        assert(text_lt(name@, before[j - 1].0));
                    } else {
                        assert(text_lt(before[i - 1].0, before[j - 1].0));
                    }
                }
            }
        }
        self.check_bundles = entries;
    }

    /// Removes the bundle `name`, giving back its source (`BTreeMap::remove`).
    pub fn remove(&mut self, name: &str) -> (r: Option<BundleSource>)
        ensures
            r is Some <==> has_entry(old(self)@, name@),
            r matches Some(s) ==> s.path_text() == old(self)@[lower_bound(old(self)@, name@)].1,
            final(self)@ == removed(old(self)@, name@),
            entry_map(final(self)@) == entry_map(old(self)@).remove(name@),
    {
        proof {
            use_type_invariant(&*self);
            law_removed_is_map_remove(self@, name@);
        }
        let ghost before = self@;
        let present = self.contains_key(name);
        if !present {
            return None;
        }
        let p = self.position(name);
        let mut entries: Vec<(String, BundleSource)> = Vec::new();
        std::mem::swap(&mut entries, &mut self.check_bundles);
        assert(entry_texts(entries@) == before);
        let (_, source) = entries.remove(p);
        assert(entry_texts(entries@) =~= before.remove(p as int));
        proof {
            let after = entry_texts(entries@);
            assert forall|i: int, j: int| 0 <= i < j < after.len() implies text_lt(
                after[i].0,
                after[j].0,
            ) by {
                if i < p && j >= p {
                    assert(after[j] == before[j + 1]);
                } else if i >= p {
                    assert(after[i] == before[i + 1]);
                    assert(after[j] == before[j + 1]);
                }
            }
        }
        self.check_bundles = entries;
        Some(source)
    }
}

/// An installed bundle as `clilint bundle list` reports it.
#[derive(Debug)]
pub struct BundleStatus {
    pub name: String,
    pub source: BundleSource,
    pub installed: bool,
}

/// What `install` gives: the configuration with the bundle recorded under
/// its own name, its path made relative to the project root when given
/// as an absolute path; or the first error met.
pub open spec fn install_outcome(
    root: Seq<char>,
    source: Seq<char>,
    manifest: Result<CheckBundleManifest, String>,
    config: Result<ProjectConfig, String>,
) -> Result<Seq<(Seq<char>, Seq<char>)>, Seq<char>> {
    match manifest {
        Err(e) => Err(e@),
        Ok(m) => match config {
            Err(e) => Err(e@),
            Ok(c) => {
                let path = if absolute_path(source) {
                    relative_outcome(root, source)
                } else {
                    Ok(source)
                };
                match path {
                    Err(e) => Err(e),
                    Ok(p) => Ok(inserted(c@, m.check_bundle.name@, p)),
                }
            },
        },
    }
}

/// The configured bundles as loaded once `m` is installed under `name`:
/// its manifest takes the place of a bundle of that name, or is added at
/// the name's place in order.
pub open spec fn loaded_after_insert(
    entries: Seq<(Seq<char>, Seq<char>)>,
    loaded: Seq<Result<CheckBundleManifest, String>>,
    name: Seq<char>,
    m: CheckBundleManifest,
) -> Seq<Result<CheckBundleManifest, String>> {
    let p = lower_bound(entries, name);
    if has_entry(entries, name) {
        loaded.update(p, Ok(m))
    } else {
        loaded.insert(p, Ok(m))
    }
}

/// The configured bundles as loaded once the bundle `name` is removed.
pub open spec fn loaded_after_remove(
    entries: Seq<(Seq<char>, Seq<char>)>,
    loaded: Seq<Result<CheckBundleManifest, String>>,
    name: Seq<char>,
) -> Seq<Result<CheckBundleManifest, String>> {
    if has_entry(entries, name) {
        loaded.remove(lower_bound(entries, name))
    } else {
        loaded
    }
}

/// The error that combining the bundles `ms` with the core bundle gives,
/// if any.
pub open spec fn resolve_error(core: Result<CheckBundleManifest, String>, ms: Seq<CheckBundleManifest>) -> Option<
    Seq<char>,
> {
    match core {
        Err(e) => Some(e@),
        Ok(c) => match bundle_problem(c) {
            Some(p) => Some(p),
            None => match first_duplicate(ms, 0) {
                Some(i) => Some("duplicate check bundle declaration "@ + ms[i].check_bundle.name@),
                None => match pending_outcome(
                    c.check_bundle,
                    seq![c.check_bundle],
                    c.checks@,
                    seq![c.check_bundle.name@],
                    ms,
                ) {
                    Err(e) => Some(e),
                    Ok(_) => None,
                },
            },
        },
    }
}

/// The error that `load_from_config` gives for a configuration with these
/// entries, its bundles as loaded, and the core bundle, if any.
pub open spec fn combination_error(
    entries: Seq<(Seq<char>, Seq<char>)>,
    loaded: Seq<Result<CheckBundleManifest, String>>,
    core: Result<CheckBundleManifest, String>,
) -> Option<Seq<char>> {
    match loaded_problem(entries, loaded, 0) {
        Some(e) => Some(e),
        None => resolve_error(
            core,
            loaded.map_values(|x: Result<CheckBundleManifest, String>| loaded_value(x)),
        ),
    }
}

/// Combines the bundles of a configuration to see that it can be used:
/// the configuration itself, or the error `load_from_config` gives.
fn check_combines(
    config: ProjectConfig,
    loaded: Vec<Result<CheckBundleManifest, String>>,
    core: Result<CheckBundleManifest, String>,
) -> (r: Result<ProjectConfig, String>)
    requires
        loaded@.len() == config@.len(),
    ensures
        match combination_error(config@, loaded@, core) {
            Some(e) => r matches Err(e2) && e2@ == e,
            None => r matches Ok(c) && c@ == config@,
        },
{
    match load_from_config(&config, loaded, None, core) {
        Err(e) => Err(e),
        Ok(_) => Ok(config),
    }
}

/// Records the bundle at `source` in the configuration. `manifest` is the
/// bundle read from `source`, `config` the configuration read from the
/// project, `loaded` the bundles it configures as read (in its order) and
/// `core` the parse of the core bundle. The new configuration must still
/// combine, as `load_from_config` does it, before it is given back.
pub fn install(
    root: &str,
    source: &str,
    manifest: Result<CheckBundleManifest, String>,
    config: Result<ProjectConfig, String>,
    loaded: Vec<Result<CheckBundleManifest, String>>,
    core: Result<CheckBundleManifest, String>,
) -> (r: Result<ProjectConfig, String>)
    requires
        config matches Ok(c) ==> loaded@.len() == c@.len(),
    ensures
        match install_outcome(root@, source@, manifest, config) {
            Err(e) => r matches Err(e2) && e2@ == e,
            Ok(entries) => match combination_error(
                entries,
                loaded_after_insert(
                    config->Ok_0@,
                    loaded@,
                    manifest->Ok_0.check_bundle.name@,
                    manifest->Ok_0,
                ),
                core,
            ) {
                Some(e) => r matches Err(e2) && e2@ == e,
                None => r matches Ok(c) && c@ == entries,
            },
        },
{
    let manifest = manifest?;
    let mut config = config?;
    let path = if is_absolute(source) {
        relative_path(root, source)?
    } else {
        String::from_str(source)
    };
    let name = manifest.check_bundle.name.clone();
    let ghost old_entries = config@;
    let present = config.contains_key(name.as_str());
    let p = config.position(name.as_str());
    config.insert(name, BundleSource::Local { path });
    let mut loaded = loaded;
    if present {
        loaded.set(p, Ok(manifest));
    } else {
        loaded.insert(p, Ok(manifest));
    }
    assert(config@.len() == loaded@.len());
    check_combines(config, loaded, core)
}

/// Lists the installed bundles in name order; `present[i]` tells whether
/// the path of the `i`th bundle exists.
pub fn list(config: &ProjectConfig, present: &Vec<bool>) -> (r: Vec<BundleStatus>)
    requires
        present@.len() == config@.len(),
    ensures
        r@.len() == config@.len(),
        forall|i: int|
            0 <= i < r@.len() ==> (#[trigger] r@[i]).name@ == config@[i].0
                && r@[i].source.path_text() == config@[i].1 && r@[i].installed == present@[i],
{
    let entries = config.entries();
    let mut r: Vec<BundleStatus> = Vec::new();
    for i in 0..entries.len()
        invariant
            entry_texts(entries@) == config@,
            present@.len() == config@.len(),
            r@.len() == i,
            forall|k: int|
                0 <= k < i ==> (#[trigger] r@[k]).name@ == config@[k].0
                    && r@[k].source.path_text() == config@[k].1 && r@[k].installed == present@[k],
    {
        r.push(
            BundleStatus {
                name: entries[i].0.clone(),
                source: entries[i].1.clone(),
                installed: present[i],
            },
        );
    }
    r
}

/// Removes the bundle `name` from the configuration read from the
/// project. `loaded` holds the bundles it configures as read (in its
/// order) and `core` the parse of the core bundle; the bundles that remain
/// must still combine, as `load_from_config` does it, before the new
/// configuration is given back.
pub fn remove(
    config: Result<ProjectConfig, String>,
    name: &str,
    loaded: Vec<Result<CheckBundleManifest, String>>,
    core: Result<CheckBundleManifest, String>,
) -> (r: Result<ProjectConfig, String>)
    requires
        config matches Ok(c) ==> loaded@.len() == c@.len(),
    ensures
        match config {
            Err(e) => r matches Err(e2) && e2@ == e@,
            Ok(c) => if has_entry(c@, name@) {
                match combination_error(
                    removed(c@, name@),
                    loaded_after_remove(c@, loaded@, name@),
                    core,
                ) {
                    Some(e) => r matches Err(e2) && e2@ == e,
                    None => r matches Ok(c2) && c2@ == removed(c@, name@),
                }
            } else {
                r matches Err(e) && e@ == "unknown check bundle "@ + name@
            },
        },
{
    let mut config = config?;
    let p = config.position(name);
    if config.remove(name).is_none() {
        return Err(concat("unknown check bundle ", name));
    }
    let mut loaded = loaded;
    loaded.remove(p);
    check_combines(config, loaded, core)
}

/// The first bundle from index `i` on whose parent is already installed.
pub open spec fn first_installable(pending: Seq<CheckBundleManifest>, installed: Seq<Seq<char>>, i: int) -> Option<int>
    decreases pending.len() - i,
{
    if i < 0 || i >= pending.len() {
        None
    } else if pending[i].extends matches Some(parent) && installed.contains(parent@) {
        Some(i)
    } else {
        first_installable(pending, installed, i + 1)
    }
}

pub proof fn lemma_first_installable_range(pending: Seq<CheckBundleManifest>, installed: Seq<Seq<char>>, i: int)
    requires
        0 <= i,
    ensures
        first_installable(pending, installed, i) matches Some(p) ==> i <= p < pending.len(),
    decreases pending.len() - i,
{
    if i < pending.len() {
        lemma_first_installable_range(pending, installed, i + 1);
    }
}

/// The names of the bundles, joined with `, `.
pub open spec fn names_list(pending: Seq<CheckBundleManifest>) -> Seq<char>
    decreases pending.len(),
{
    if pending.len() == 0 {
        Seq::empty()
    } else if pending.len() == 1 {
        pending[0].check_bundle.name@
    } else {
        names_list(pending.drop_last()) + ", "@ + pending.last().check_bundle.name@
    }
}

/// The outcome of adding the `pending` bundles, each as soon as its parent
/// is installed and in declaration order otherwise, to a combination with
/// base identity `base` that records `included`, holds `checks`, and has
/// installed the bundles named `installed`: the final identities and
/// Checks, or the first error.
pub open spec fn pending_outcome(
    base: CheckBundleIdentity,
    included: Seq<CheckBundleIdentity>,
    checks: Seq<crate::check_bundle::CheckDefinition>,
    installed: Seq<Seq<char>>,
    pending: Seq<CheckBundleManifest>,
) -> Result<(Seq<CheckBundleIdentity>, Seq<crate::check_bundle::CheckDefinition>), Seq<char>>
    decreases pending.len(),
{
    if pending.len() == 0 {
        Ok((included, checks))
    } else {
        match first_installable(pending, installed, 0) {
            None => Err(
                "check bundle dependencies contain a missing name or cycle: "@ + names_list(
                    pending,
                ),
            ),
            Some(p) => {
                proof {
                    lemma_first_installable_range(pending, installed, 0);
                }
                let add = pending[p];
                match resolve_problem_parts(base.name@, included, checks, add) {
                    Some(e) => Err(e),
                    None => pending_outcome(
                        base,
                        included_parts(base, included).push(add.check_bundle),
                        checks + add.checks@,
                        installed.push(add.check_bundle.name@),
                        pending.remove(p),
                    ),
                }
            },
        }
    }
}

/// The first bundle from index `i` on whose name an earlier bundle has.
pub open spec fn first_duplicate(ms: Seq<CheckBundleManifest>, i: int) -> Option<int>
    decreases ms.len() - i,
{
    if i < 0 || i >= ms.len() {
        None
    } else if exists|j: int| 0 <= j < i && #[trigger] ms[j].check_bundle.name@ == ms[i].check_bundle.name@ {
        Some(i)
    } else {
        first_duplicate(ms, i + 1)
    }
}

/// `r` is what `resolve_manifests` gives for the parsed core bundle and
/// the bundles `ms`.
pub open spec fn resolve_manifests_outcome(
    core: Result<CheckBundleManifest, String>,
    ms: Seq<CheckBundleManifest>,
    r: Result<CheckBundleManifest, String>,
) -> bool {
    match core {
        Err(e) => r matches Err(e2) && e2@ == e@,
        Ok(c) => match bundle_problem(c) {
            Some(p) => r matches Err(e2) && e2@ == p,
            None => match first_duplicate(ms, 0) {
                Some(i) => r matches Err(e2) && e2@ == "duplicate check bundle declaration "@
                    + ms[i].check_bundle.name@,
                None => match pending_outcome(
                    c.check_bundle,
                    seq![c.check_bundle],
                    c.checks@,
                    seq![c.check_bundle.name@],
                    ms,
                ) {
                    Err(e) => r matches Err(e2) && e2@ == e,
                    Ok((included, checks)) => r matches Ok(out) && out.format_version
                        == c.format_version && out.check_bundle == c.check_bundle && out.extends
                        == c.extends && out.resolved_check_bundles@ == included && out.checks@
                        == checks,
                },
            },
        },
    }
}

proof fn lemma_first_duplicate(ms: Seq<CheckBundleManifest>, m: int, i: int)
    requires
        0 <= m <= i <= ms.len(),
        forall|k: int, j: int|
            m <= k < i && 0 <= j < k ==> #[trigger] ms[j].check_bundle.name@ != #[trigger] ms[k].check_bundle.name@,
    ensures
        i < ms.len() && (exists|j: int| 0 <= j < i && #[trigger] ms[j].check_bundle.name@ == ms[i].check_bundle.name@)
            ==> first_duplicate(ms, m) == Some(i),
        i == ms.len() ==> first_duplicate(ms, m) is None,
    decreases i - m,
{
    if m < i {
        lemma_first_duplicate(ms, m + 1, i);
    }
}

proof fn lemma_first_installable(pending: Seq<CheckBundleManifest>, installed: Seq<Seq<char>>, m: int, i: int)
    requires
        0 <= m <= i <= pending.len(),
        forall|k: int| m <= k < i ==> !(#[trigger] pending[k].extends matches Some(parent) && installed.contains(parent@)),
    ensures
        i < pending.len() && (pending[i].extends matches Some(parent) && installed.contains(parent@))
            ==> first_installable(pending, installed, m) == Some(i),
        i == pending.len() ==> first_installable(pending, installed, m) is None,
    decreases i - m,
{
    if m < i {
        lemma_first_installable(pending, installed, m + 1, i);
    }
}

/// Whether a name is among `installed`.
fn is_installed(installed: &Vec<String>, name: &str) -> (r: bool)
    ensures
        r == texts(installed@).contains(name@),
{
    for i in 0..installed.len()
        invariant
            forall|j: int| 0 <= j < i ==> installed@[j]@ != name@,
    {
        if str_eq(installed[i].as_str(), name) {
            assert(texts(installed@)[i as int] == name@);
            return true;
        }
    }
    assert forall|j: int| 0 <= j < texts(installed@).len() implies texts(installed@)[j] != name@ by {
        assert(texts(installed@)[j] == installed@[j]@);
    }
    false
}

/// The names of the bundles, joined with `, `.
fn join_names(pending: &Vec<CheckBundleManifest>) -> (r: String)
    ensures
        r@ == names_list(pending@),
{
    let mut r = String::new();
    for i in 0..pending.len()
        invariant
            r@ == names_list(pending@.take(i as int)),
    {
        assert(pending@.take(i + 1).drop_last() =~= pending@.take(i as int));
        if i > 0 {
            r.append(", ");
        }
        r.append(pending[i].check_bundle.name.as_str());
    }
    assert(pending@.take(pending@.len() as int) =~= pending@);
    r
}

/// Combines the core bundle with the project's bundles: names must be
/// unique, and each bundle is added once the bundle it extends is in,
/// in declaration order otherwise.
#[verifier::loop_isolation(false)]
pub fn resolve_manifests(core: Result<CheckBundleManifest, String>, manifests: Vec<CheckBundleManifest>) -> (r: Result<CheckBundleManifest, String>)
    ensures
        resolve_manifests_outcome(core, manifests@, r),
{
    let ghost parsed = core;
    let mut resolved = core_bundle(core)?;
    let mut pending = manifests;
    let ghost ms = pending@;
    let n = pending.len();
    for i in 0..n
        invariant
            pending@ == ms,
            n == ms.len(),
            forall|k: int, j: int|
                0 <= k < i && 0 <= j < k ==> #[trigger] ms[j].check_bundle.name@ != #[trigger] ms[k].check_bundle.name@,
    {
        for j in 0..i
            invariant
                pending@ == ms,
                i < n,
                n == ms.len(),
                forall|k: int, l: int|
                    0 <= k < i && 0 <= l < k ==> #[trigger] ms[l].check_bundle.name@ != #[trigger] ms[k].check_bundle.name@,
                forall|l: int| 0 <= l < j ==> #[trigger] ms[l].check_bundle.name@ != ms[i as int].check_bundle.name@,
        {
            if pending[j].check_bundle.name == pending[i].check_bundle.name {
                proof {
                    assert(ms[j as int].check_bundle.name@ == ms[i as int].check_bundle.name@);
                    lemma_first_duplicate(ms, 0, i as int);
                }
                return Err(concat("duplicate check bundle declaration ", pending[i].check_bundle.name.as_str()));
            }
        }
    }
    proof {
        lemma_first_duplicate(ms, 0, n as int);
    }
    let ghost base = resolved.check_bundle;
    let ghost goal = pending_outcome(base, seq![base], resolved.checks@, seq![base.name@], ms);
    let mut installed: Vec<String> = Vec::new();
    installed.push(resolved.check_bundle.name.clone());
    assert(texts(installed@) =~= seq![base.name@]);
    while pending.len() > 0
        invariant
            resolved.check_bundle == base,
            resolved.format_version == parsed->Ok_0.format_version,
            resolved.extends == parsed->Ok_0.extends,
            resolved.resolved_check_bundles@.len() > 0,
            pending_outcome(base, resolved.resolved_check_bundles@, resolved.checks@, texts(installed@), pending@) == goal,
        decreases pending@.len(),
    {
        let mut found: Option<usize> = None;
        let count = pending.len();
        for i in 0..count
            invariant
                count == pending@.len(),
                found is None,
                forall|k: int| 0 <= k < i ==> !(#[trigger] pending@[k].extends matches Some(parent) && texts(installed@).contains(parent@)),
        {
            let ok = match &pending[i].extends {
                Some(parent) => is_installed(&installed, parent.as_str()),
                None => false,
            };
            if ok {
                found = Some(i);
                break;
            }
        }
        let p = match found {
            Some(p) => p,
            None => {
                proof {
                    lemma_first_installable(pending@, texts(installed@), 0, count as int);
                }
                let names = join_names(&pending);
                return Err(concat("check bundle dependencies contain a missing name or cycle: ", names.as_str()));
            },
        };
        proof {
            lemma_first_installable(pending@, texts(installed@), 0, p as int);
        }
        let bundle_to_add = pending.remove(p);
        let name = bundle_to_add.check_bundle.name.clone();
        resolved = resolve(resolved, bundle_to_add)?;
        let ghost before = installed@;
        installed.push(name);
        assert(texts(installed@) =~= texts(before).push(name@));
    }
    Ok(resolved)
}

/// The bundle a successful load gave.
pub open spec fn loaded_value(r: Result<CheckBundleManifest, String>) -> CheckBundleManifest {
    match r {
        Ok(m) => m,
        Err(_) => arbitrary(),
    }
}

/// The error for the first configured bundle from index `i` on that did
/// not load or whose manifest names another bundle.
pub open spec fn loaded_problem(
    entries: Seq<(Seq<char>, Seq<char>)>,
    loaded: Seq<Result<CheckBundleManifest, String>>,
    i: int,
) -> Option<Seq<char>>
    decreases loaded.len() - i,
{
    if i < 0 || i >= loaded.len() {
        None
    } else {
        match loaded[i] {
            Err(e) => Some(e@),
            Ok(m) => {
                if m.check_bundle.name@ != entries[i].0 {
                    Some(
                        "declared check bundle "@ + entries[i].0 + " loaded bundle "@
                            + m.check_bundle.name@,
                    )
                } else {
                    loaded_problem(entries, loaded, i + 1)
                }
            },
        }
    }
}

proof fn lemma_loaded_problem(
    entries: Seq<(Seq<char>, Seq<char>)>,
    loaded: Seq<Result<CheckBundleManifest, String>>,
    m: int,
    i: int,
)
    requires
        0 <= m <= i <= loaded.len(),
        forall|k: int|
            m <= k < i ==> ((#[trigger] loaded[k]) matches Ok(b) && b.check_bundle.name@
                == entries[k].0),
    ensures
        loaded_problem(entries, loaded, m) == loaded_problem(entries, loaded, i),
    decreases i - m,
{
    if m < i {
        lemma_loaded_problem(entries, loaded, m + 1, i);
    }
}

/// Loads the combination for a check from what the caller read: the
/// configured bundles `loaded` in configuration order, the bundle named on
/// the command line `direct`, and the parse of the core bundle. Each
/// configured bundle must be the one its entry names.
#[verifier::loop_isolation(false)]
pub fn load_from_config(
    config: &ProjectConfig,
    loaded: Vec<Result<CheckBundleManifest, String>>,
    direct: Option<Result<CheckBundleManifest, String>>,
    core: Result<CheckBundleManifest, String>,
) -> (r: Result<CheckBundleManifest, String>)
    requires
        loaded@.len() == config@.len(),
    ensures
        match loaded_problem(config@, loaded@, 0) {
            Some(e) => r matches Err(e2) && e2@ == e,
            None => match direct {
                Some(Err(e)) => r matches Err(e2) && e2@ == e@,
                Some(Ok(m)) => resolve_manifests_outcome(
                    core,
                    loaded@.map_values(|x: Result<CheckBundleManifest, String>| loaded_value(x)).push(m),
                    r,
                ),
                None => resolve_manifests_outcome(
                    core,
                    loaded@.map_values(|x: Result<CheckBundleManifest, String>| loaded_value(x)),
                    r,
                ),
            },
        },
{
    let entries = config.entries();
    let ghost all = loaded@;
    let ghost values = all.map_values(|x: Result<CheckBundleManifest, String>| loaded_value(x));
    let mut remaining = loaded;
    let mut manifests: Vec<CheckBundleManifest> = Vec::new();
    let n = remaining.len();
    let mut i: usize = 0;
    while i < n
        invariant
            n == all.len(),
            i <= n,
            entry_texts(entries@) == config@,
            config@.len() == n,
            remaining@ == all.skip(i as int),
            manifests@ == values.take(i as int),
            forall|k: int|
                0 <= k < i ==> ((#[trigger] all[k]) matches Ok(b) && b.check_bundle.name@
                    == config@[k].0),
        decreases n - i,
    {
        assert(remaining@[0] == all[i as int]);
        let item = remaining.remove(0);
        assert(item == all[i as int]);
        assert(remaining@ =~= all.skip(i + 1));
        match item {
            Err(e) => {
                proof {
                    lemma_loaded_problem(config@, all, 0, i as int);
                    assert(loaded_problem(config@, all, i as int) == Some(e@));
                }
                return Err(e);
            },
            Ok(m) => {
                assert(config@[i as int].0 == entries@[i as int].0@);
                if !str_eq(m.check_bundle.name.as_str(), entries[i].0.as_str()) {
                    proof {
                        lemma_loaded_problem(config@, all, 0, i as int);
                    }
                    let mut message = concat3(
                        "declared check bundle ",
                        entries[i].0.as_str(),
                        " loaded bundle ",
                    );
                    message.append(m.check_bundle.name.as_str());
                    return Err(message);
                }
                manifests.push(m);
                assert(manifests@ =~= values.take(i + 1));
            },
        }
        i = i + 1;
    }
    proof {
        lemma_loaded_problem(config@, all, 0, n as int);
        assert(values.take(n as int) =~= values);
    }
    match direct {
        Some(Err(e)) => {
            return Err(e);
        },
        Some(Ok(m)) => {
            manifests.push(m);
        },
        None => {},
    }
    resolve_manifests(core, manifests)
}

/// The components `r` applied in turn to `acc`.
pub open spec fn fold_from(acc: Option<Seq<Part>>, r: Seq<Part>) -> Option<Seq<Part>>
    decreases r.len(),
{
    if r.len() == 0 {
        acc
    } else {
        step_component(fold_from(acc, r.drop_last()), r.last())
    }
}

/// No component is `.` or `..`.
pub open spec fn no_dots(f: Seq<Part>) -> bool {
    forall|i: int| 0 <= i < f.len() ==> !((#[trigger] f[i]).0 is CurDir) && !(f[i].0 is ParentDir)
}

proof fn lemma_fold_concat(s: Seq<Part>, r: Seq<Part>)
    ensures
        normalized_components(s + r) == fold_from(normalized_components(s), r),
    decreases r.len(),
{
    if r.len() == 0 {
        assert(s + r =~= s);
    } else {
        assert((s + r).drop_last() =~= s + r.drop_last());
        assert((s + r).last() == r.last());
        lemma_fold_concat(s, r.drop_last());
    }
}

proof fn lemma_fold_split(acc: Option<Seq<Part>>, r1: Seq<Part>, r2: Seq<Part>)
    ensures
        fold_from(acc, r1 + r2) == fold_from(fold_from(acc, r1), r2),
    decreases r2.len(),
{
    if r2.len() == 0 {
        assert(r1 + r2 =~= r1);
    } else {
        assert((r1 + r2).drop_last() =~= r1 + r2.drop_last());
        assert((r1 + r2).last() == r2.last());
        lemma_fold_split(acc, r1, r2.drop_last());
    }
}

proof fn lemma_normalized_no_dots(cs: Seq<Part>)
    ensures
        normalized_components(cs) matches Some(f) ==> no_dots(f),
    decreases cs.len(),
{
    if cs.len() > 0 {
        lemma_normalized_no_dots(cs.drop_last());
    }
}

proof fn lemma_no_dots_fixed(f: Seq<Part>)
    requires
        no_dots(f),
    ensures
        normalized_components(f) == Some(f),
    decreases f.len(),
{
    if f.len() > 0 {
        assert(no_dots(f.drop_last()));
        lemma_no_dots_fixed(f.drop_last());
        assert(f.drop_last().push(f.last()) =~= f);
    }
}

proof fn lemma_fold_pushes(p: Seq<Part>, q: Seq<Part>)
    requires
        no_dots(q),
    ensures
        fold_from(Some(p), q) == Some(p + q),
    decreases q.len(),
{
    if q.len() > 0 {
        assert(no_dots(q.drop_last()));
        lemma_fold_pushes(p, q.drop_last());
        assert((p + q.drop_last()).push(q.last()) =~= p + q);
    } else {
        assert(p + q =~= p);
    }
}

proof fn lemma_fold_pops(f: Seq<Part>, k: nat)
    requires
        f.len() >= k,
        forall|i: int| f.len() - k <= i < f.len() ==> (#[trigger] f[i]).0 is Normal,
    ensures
        fold_from(Some(f), Seq::new(k, |j: int| parent_part())) == Some(f.take(f.len() - k)),
    decreases k,
{
    let dots = Seq::new(k, |j: int| parent_part());
    if k == 0 {
        assert(f.take(f.len() as int) =~= f);
    } else {
        assert(dots.drop_last() =~= Seq::new((k - 1) as nat, |j: int| parent_part()));
        lemma_fold_pops(f, (k - 1) as nat);
        let before = f.take(f.len() - k + 1);
        assert(before.last() == f[f.len() - k]);
        assert(can_pop(before));
        assert(before.drop_last() =~= f.take(f.len() - k));
    }
}

proof fn lemma_common_prefix(a: Seq<Part>, b: Seq<Part>, i: int)
    requires
        0 <= i,
    ensures
        i <= common_len(a, b, i),
        i <= a.len() && i <= b.len() ==> common_len(a, b, i) <= a.len() && common_len(a, b, i) <= b.len(),
        forall|j: int| i <= j < common_len(a, b, i) ==> a[j] == b[j],
    decreases a.len() - i,
{
    if i < a.len() && i < b.len() && a[i] == b[i] {
        lemma_common_prefix(a, b, i + 1);
    }
}

/// The relative path leads to its target. Where `relative_path` succeeds,
/// its text is the path made by pushing the components `relative_seq`
/// gives for the normalized paths (`.` when that text is empty, as when
/// both paths are the same); and where every component of normalized
/// `from` past the common prefix is a name, applying those components to
/// the normalized components of `from` gives the normalized components of
/// `to`.
pub proof fn law_relative_path_leads_to_target(from: Seq<char>, to: Seq<char>)
    requires
        relative_outcome(from, to) is Ok,
    ensures
        ({
            let f = normalize_outcome(from)->Ok_0;
            let t = normalize_outcome(to)->Ok_0;
            let rel = relative_seq(f, t);
            &&& relative_outcome(from, to) == Ok::<Seq<char>, Seq<char>>(
                if joined(part_texts(rel)).len() == 0 {
                    "."@
                } else {
                    joined(part_texts(rel))
                },
            )
            &&& (forall|i: int| common_len(f, t, 0) <= i < f.len() ==> (#[trigger] f[i]).0 is Normal)
                ==> normalized_components(f + rel) == Some(t)
            &&& f == t ==> relative_outcome(from, to) == Ok::<Seq<char>, Seq<char>>("."@)
        }),
{
    let f = normalize_outcome(from)->Ok_0;
    let t = normalize_outcome(to)->Ok_0;
    lemma_normalized_no_dots(path_parts(from));
    lemma_normalized_no_dots(path_parts(to));
    let c = common_len(f, t, 0);
    lemma_common_prefix(f, t, 0);
    if forall|i: int| c <= i < f.len() ==> (#[trigger] f[i]).0 is Normal {
        let ups = Seq::new((f.len() - c) as nat, |j: int| parent_part());
        let rest = t.skip(c);
        assert(relative_seq(f, t) == ups + rest);
        lemma_fold_concat(f, ups + rest);
        lemma_no_dots_fixed(f);
        lemma_fold_split(Some(f), ups, rest);
        lemma_fold_pops(f, (f.len() - c) as nat);
        assert(f.take(c) =~= t.take(c));
        assert(no_dots(rest));
        lemma_fold_pushes(f.take(c), rest);
        assert(t.take(c) + rest =~= t);
    }
    if f == t {
        lemma_common_len_from(f, t, f.len() as int);
        assert(relative_seq(f, t) =~= Seq::<Part>::empty());
        assert(part_texts(relative_seq(f, t)) =~= Seq::<Seq<char>>::empty());
    }
}

/// Some entry is named `name`.
pub open spec fn names_entry(entries: Seq<(Seq<char>, Seq<char>)>, name: Seq<char>) -> bool {
    exists|i: int| 0 <= i < entries.len() && #[trigger] entries[i].0 == name
}

/// The path of the last entry named `name`.
pub open spec fn entry_path(entries: Seq<(Seq<char>, Seq<char>)>, name: Seq<char>) -> Seq<char>
    decreases entries.len(),
{
    if entries.len() == 0 {
        Seq::empty()
    } else if entries.last().0 == name {
        entries.last().1
    } else {
        entry_path(entries.drop_last(), name)
    }
}

/// The configuration as a map from bundle name to path.
pub open spec fn entry_map(entries: Seq<(Seq<char>, Seq<char>)>) -> Map<Seq<char>, Seq<char>> {
    Map::new(|k: Seq<char>| names_entry(entries, k), |k: Seq<char>| entry_path(entries, k))
}

proof fn lemma_sorted_distinct(entries: Seq<(Seq<char>, Seq<char>)>, i: int, j: int)
    requires
        sorted_names(entries),
        0 <= i < entries.len(),
        0 <= j < entries.len(),
        entries[i].0 == entries[j].0,
    ensures
        i == j,
{
    if i < j || j < i {
        crate::text::lemma_text_lt_irreflexive(entries[i].0);
    }
}

/// The value the map gives for the name at position `idx`.
proof fn lemma_entry_map_at(entries: Seq<(Seq<char>, Seq<char>)>, idx: int)
    requires
        sorted_names(entries),
        0 <= idx < entries.len(),
    ensures
        entry_map(entries).dom().contains(entries[idx].0),
        entry_map(entries)[entries[idx].0] == entries[idx].1,
    decreases entries.len(),
{
    let k = entries[idx].0;
    assert(names_entry(entries, k));
    if idx < entries.len() - 1 {
        let init = entries.drop_last();
        if entries.last().0 == k {
            lemma_sorted_distinct(entries, idx, entries.len() - 1);
        }
        assert(sorted_names(init)) by {
            assert forall|i: int, j: int| 0 <= i < j < init.len() implies text_lt(init[i].0, init[j].0) by {
                assert(init[i] == entries[i] && init[j] == entries[j]);
            }
        }
        assert(init[idx] == entries[idx]);
        lemma_entry_map_at(init, idx);
    }
}

/// In a sorted configuration, `has_entry` finds exactly the names that
/// some entry has.
pub proof fn law_has_entry_finds_names(entries: Seq<(Seq<char>, Seq<char>)>, name: Seq<char>)
    requires
        sorted_names(entries),
    ensures
        has_entry(entries, name) <==> names_entry(entries, name),
        has_entry(entries, name) <==> entry_map(entries).dom().contains(name),
{
    lemma_lower_bound_props(entries, name);
    let p = lower_bound(entries, name);
    if names_entry(entries, name) {
        let i = choose|i: int| 0 <= i < entries.len() && #[trigger] entries[i].0 == name;
        if i < p {
            crate::text::lemma_text_lt_irreflexive(name);
        }
        if i > p {
            assert(text_lt(entries[p].0, entries[i].0));
        }
        assert(i == p);
    }
}

/// Recording a bundle in a sorted configuration keeps it sorted and sets
/// the bundle's path, leaving every other bundle as it was: the
/// configuration behaves as a map that `insert` writes.
pub proof fn law_inserted_is_map_insert(
    entries: Seq<(Seq<char>, Seq<char>)>,
    name: Seq<char>,
    path: Seq<char>,
)
    requires
        sorted_names(entries),
    ensures
        sorted_names(inserted(entries, name, path)),
        entry_map(inserted(entries, name, path)) == entry_map(entries).insert(name, path),
{
    lemma_lower_bound_props(entries, name);
    law_has_entry_finds_names(entries, name);
    let p = lower_bound(entries, name);
    let out = inserted(entries, name, path);
    if has_entry(entries, name) {
        assert(out == entries.update(p, (name, path)));
        assert(sorted_names(out)) by {
            assert forall|i: int, j: int| 0 <= i < j < out.len() implies text_lt(out[i].0, out[j].0) by {
                assert(out[i].0 == entries[i].0);
                assert(out[j].0 == entries[j].0);
            }
        }
    } else {
        assert(out == entries.insert(p, (name, path)));
        if p < entries.len() {
            crate::text::lemma_text_lt_total(entries[p].0, name);
        }
        assert(sorted_names(out)) by {
            assert forall|i: int, j: int| 0 <= i < j < out.len() implies text_lt(out[i].0, out[j].0) by {
                if j < p {
                    assert(out[i] == entries[i] && out[j] == entries[j]);
                } else if j == p {
                    assert(out[i] == entries[i]);
                } else if i == p {
                    assert(out[j] == entries[j - 1]);
                    if j - 1 > p {
                        crate::text::lemma_text_lt_transitive(name, entries[p].0, entries[j - 1].0);
                    }
                } else if i < p {
                    assert(out[i] == entries[i] && out[j] == entries[j - 1]);
                    if j - 1 < p {
                    } else if j - 1 == p {
                        crate::text::lemma_text_lt_transitive(entries[i].0, name, entries[p].0);
                    } else {
                        crate::text::lemma_text_lt_transitive(entries[i].0, name, entries[p].0);
                        crate::text::lemma_text_lt_transitive(entries[i].0, entries[p].0, entries[j - 1].0);
                    }
                } else {
                    assert(out[i] == entries[i - 1] && out[j] == entries[j - 1]);
                }
            }
        }
    }
    let m = entry_map(entries).insert(name, path);
    assert forall|k: Seq<char>| #[trigger] entry_map(out).dom().contains(k) <==> m.dom().contains(k) by {
        if names_entry(out, k) {
            let i = choose|i: int| 0 <= i < out.len() && #[trigger] out[i].0 == k;
            if k != name {
                if has_entry(entries, name) {
                    assert(entries[i].0 == k);
                } else if i < p {
                    assert(entries[i].0 == k);
                } else {
                    assert(entries[i - 1].0 == k);
                }
            }
        }
        if m.dom().contains(k) && k != name {
            let i = choose|i: int| 0 <= i < entries.len() && #[trigger] entries[i].0 == k;
            if has_entry(entries, name) {
                assert(out[i].0 == k);
            } else if i < p {
                assert(out[i].0 == k);
            } else {
                assert(out[i + 1].0 == k);
            }
        }
        if k == name {
            assert(out[p].0 == name);
        }
    }
    assert forall|k: Seq<char>| #[trigger] m.dom().contains(k) implies entry_map(out)[k] == m[k] by {
        if k == name {
            assert(out[p].0 == name);
            lemma_entry_map_at(out, p);
        } else {
            let i = choose|i: int| 0 <= i < entries.len() && #[trigger] entries[i].0 == k;
            lemma_entry_map_at(entries, i);
            if has_entry(entries, name) {
                lemma_entry_map_at(out, i);
            } else if i < p {
                assert(out[i] == entries[i]);
                lemma_entry_map_at(out, i);
            } else {
                assert(out[i + 1] == entries[i]);
                lemma_entry_map_at(out, i + 1);
            }
        }
    }
    assert(entry_map(out) =~= m);
}

/// Removing a bundle from a sorted configuration keeps it sorted and
/// forgets that bundle alone: the configuration behaves as a map that
/// `remove` deletes from.
pub proof fn law_removed_is_map_remove(entries: Seq<(Seq<char>, Seq<char>)>, name: Seq<char>)
    requires
        sorted_names(entries),
    ensures
        sorted_names(removed(entries, name)),
        entry_map(removed(entries, name)) == entry_map(entries).remove(name),
{
    lemma_lower_bound_props(entries, name);
    law_has_entry_finds_names(entries, name);
    let p = lower_bound(entries, name);
    let out = removed(entries, name);
    let m = entry_map(entries).remove(name);
    if has_entry(entries, name) {
        assert(out == entries.remove(p));
        assert(sorted_names(out)) by {
            assert forall|i: int, j: int| 0 <= i < j < out.len() implies text_lt(out[i].0, out[j].0) by {
                let a = if i < p { i } else { i + 1 };
                let b = if j < p { j } else { j + 1 };
                assert(out[i] == entries[a]);
                assert(out[j] == entries[b]);
            }
        }
        assert forall|k: Seq<char>| #[trigger] entry_map(out).dom().contains(k) <==> m.dom().contains(k) by {
            if names_entry(out, k) {
                let i = choose|i: int| 0 <= i < out.len() && #[trigger] out[i].0 == k;
                let a = if i < p { i } else { i + 1 };
                assert(entries[a].0 == k);
                if k == name {
                    lemma_sorted_distinct(entries, a, p);
                }
            }
            if m.dom().contains(k) {
                let i = choose|i: int| 0 <= i < entries.len() && #[trigger] entries[i].0 == k;
                if i < p {
                    assert(out[i].0 == k);
                } else if i > p {
                    assert(out[i - 1].0 == k);
                }
            }
        }
        assert forall|k: Seq<char>| #[trigger] m.dom().contains(k) implies entry_map(out)[k] == m[k] by {
            let i = choose|i: int| 0 <= i < entries.len() && #[trigger] entries[i].0 == k;
            lemma_entry_map_at(entries, i);
            if i < p {
                assert(out[i] == entries[i]);
                lemma_entry_map_at(out, i);
            } else {
                assert(i != p);
                assert(out[i - 1] == entries[i]);
                lemma_entry_map_at(out, i - 1);
            }
        }
        assert(entry_map(out) =~= m);
    } else {
        assert(entry_map(out) =~= m);
    }
}

} // verus!
