//! The command line of `clilint`: `check` and `bundle` with their options.
use vstd::prelude::*;
use vstd::string::*;

use crate::text::{chars_of, decimal, is_digit, str_eq, string_of};

verus! {

broadcast use vstd::string::group_string_axioms;

/// How the Report is written.
#[derive(Clone, Copy, Debug, PartialEq, Eq, Structural)]
pub enum OutputFormat {
    Human,
    Json,
}

/// The arguments of `clilint check`.
#[derive(Debug)]
pub struct CheckArgs {
    /// Path or command name of the executable to check.
    pub target: String,
    /// An additional check bundle to load.
    pub check_bundle: Option<String>,
    /// Assessment files, in the order given.
    pub assessment: Vec<String>,
    /// Human-readable or JSON output.
    pub format: OutputFormat,
    /// Default timeout for target invocations, in milliseconds.
    pub timeout_ms: u64,
}

/// The subcommands of `clilint bundle`.
#[derive(Debug)]
pub enum BundleCommand {
    Install { source: String },
    List { json: bool },
    Remove { name: String },
}

/// The arguments of `clilint bundle`.
#[derive(Debug)]
pub struct BundleArgs {
    pub command: BundleCommand,
}

/// The subcommands of `clilint`.
#[derive(Debug)]
pub enum Command {
    Check(CheckArgs),
    Bundle(BundleArgs),
}

/// A parsed command line.
#[derive(Debug)]
pub struct Cli {
    pub command: Command,
}

/// The default timeout for target invocations, in milliseconds.
pub const DEFAULT_TIMEOUT_MS: u64 = 10_000u64;

/// A token that names an option or a flag: it begins with `-` and is
/// longer than `-` alone.
pub open spec fn is_flag(t: Seq<char>) -> bool {
    t.len() > 1 && t[0] == '-'
}

/// The index of the first `=` in a token, if any.
pub open spec fn eq_index(t: Seq<char>) -> Option<int> {
    if exists|k: int| 0 <= k < t.len() && t[k] == '=' {
        Some(choose|k: int| 0 <= k < t.len() && t[k] == '=' && forall|j: int| 0 <= j < k ==> t[j] != '=')
    } else {
        None
    }
}

/// The name part of a long option token: the text before its first `=`.
pub open spec fn option_name(t: Seq<char>) -> Seq<char> {
    match eq_index(t) {
        Some(k) => t.take(k),
        None => t,
    }
}

/// The value written in a long option token after its first `=`, if any.
pub open spec fn inline_value(t: Seq<char>) -> Option<Seq<char>> {
    match eq_index(t) {
        Some(k) => Some(t.skip(k + 1)),
        None => None,
    }
}

/// The value of a decimal text.
pub open spec fn digits_value(s: Seq<char>) -> int
    decreases s.len(),
{
    if s.len() == 0 {
        0
    } else {
        digits_value(s.drop_last()) * 10 + (s.last() as int - '0' as int)
    }
}

/// A decimal number that fits in `u64`.
pub open spec fn valid_u64_text(s: Seq<char>) -> bool {
    s.len() > 0 && (forall|i: int| 0 <= i < s.len() ==> #[trigger] is_digit(s[i])) && digits_value(s)
        <= u64::MAX
}

/// What `clilint check` has read so far.
pub struct CheckScan {
    pub target: Option<Seq<char>>,
    pub check_bundle: Option<Seq<char>>,
    pub assessments: Seq<Seq<char>>,
    pub format: Option<Seq<char>>,
    pub timeout: Option<int>,
    pub positional_only: bool,
}

/// The value of the option at token `i`: written after `=`, or the next
/// token when that is not itself an option. With the number of tokens read.
pub open spec fn option_value(t: Seq<Seq<char>>, i: int) -> Option<(Seq<char>, int)> {
    match inline_value(t[i]) {
        Some(v) => Some((v, 1)),
        None => if i + 1 < t.len() && !is_flag(t[i + 1]) {
            Some((t[i + 1], 2))
        } else {
            None
        },
    }
}

/// The arguments of `clilint check` read from token `i` on, or `None` when
/// they do not form a valid command.
pub open spec fn scan_check(t: Seq<Seq<char>>, i: int, st: CheckScan) -> Option<CheckScan>
    decreases t.len() - i,
{
    if i < 0 || i >= t.len() {
        Some(st)
    } else {
        let tok = t[i];
        if !st.positional_only && tok == "--"@ {
            scan_check(t, i + 1, CheckScan { positional_only: true, ..st })
        } else if !st.positional_only && is_flag(tok) {
            let name = option_name(tok);
            match option_value(t, i) {
                None => None,
                Some((v, used)) => {
                    if name == "--check-bundle"@ && st.check_bundle is None {
                        scan_check(t, i + used, CheckScan { check_bundle: Some(v), ..st })
                    } else if name == "--assessment"@ {
                        scan_check(t, i + used, CheckScan { assessments: st.assessments.push(v), ..st })
                    } else if name == "--format"@ && st.format is None && (v == "human"@ || v
                        == "json"@) {
                        scan_check(t, i + used, CheckScan { format: Some(v), ..st })
                    } else if name == "--timeout-ms"@ && st.timeout is None && valid_u64_text(v) {
                        scan_check(t, i + used, CheckScan { timeout: Some(digits_value(v)), ..st })
                    } else {
                        None
                    }
                },
            }
        } else if st.target is None {
            scan_check(t, i + 1, CheckScan { target: Some(tok), ..st })
        } else {
            None
        }
    }
}

/// The single operand of `clilint bundle install` or `remove`, read from
/// token `i` on, with whether `--` was seen.
pub open spec fn scan_operand(t: Seq<Seq<char>>, i: int, operand: Option<Seq<char>>, positional_only: bool) -> Option<Seq<char>>
    decreases t.len() - i,
{
    if i < 0 || i >= t.len() {
        operand
    } else if !positional_only && t[i] == "--"@ {
        scan_operand(t, i + 1, operand, true)
    } else if !positional_only && is_flag(t[i]) {
        None
    } else if operand is None {
        scan_operand(t, i + 1, Some(t[i]), positional_only)
    } else {
        None
    }
}

/// The flags of `clilint bundle list` from token `i` on: whether `--json`
/// was given, or `None` for anything else.
pub open spec fn scan_list(t: Seq<Seq<char>>, i: int, json: bool) -> Option<bool>
    decreases t.len() - i,
{
    if i < 0 || i >= t.len() {
        Some(json)
    } else if t[i] == "--json"@ && !json {
        scan_list(t, i + 1, true)
    } else {
        None
    }
}

/// A command line as values.
pub enum CliView {
    Check {
        target: Seq<char>,
        check_bundle: Option<Seq<char>>,
        assessments: Seq<Seq<char>>,
        json: bool,
        timeout_ms: int,
    },
    Install { source: Seq<char> },
    List { json: bool },
    Remove { name: Seq<char> },
}

/// The empty state before `clilint check` reads its arguments.
pub open spec fn empty_scan() -> CheckScan {
    CheckScan {
        target: None,
        check_bundle: None,
        assessments: Seq::empty(),
        format: None,
        timeout: None,
        positional_only: false,
    }
}

/// The command a command line asks for (the program name first), or
/// `None` when it asks for help or the version, or is not valid.
pub open spec fn command_line(t: Seq<Seq<char>>) -> Option<CliView> {
    if t.len() < 2 {
        None
    } else if t[1] == "check"@ {
        match scan_check(t, 2, empty_scan()) {
            Some(st) => match st.target {
                Some(target) => Some(
                    CliView::Check {
                        target,
                        check_bundle: st.check_bundle,
                        assessments: st.assessments,
                        json: st.format == Some("json"@),
                        timeout_ms: match st.timeout {
                            Some(n) => n,
                            None => DEFAULT_TIMEOUT_MS as int,
                        },
                    },
                ),
                None => None,
            },
            None => None,
        }
    } else if t[1] == "bundle"@ && t.len() >= 3 {
        if t[2] == "install"@ {
            match scan_operand(t, 3, None, false) {
                Some(source) => Some(CliView::Install { source }),
                None => None,
            }
        } else if t[2] == "list"@ {
            match scan_list(t, 3, false) {
                Some(json) => Some(CliView::List { json }),
                None => None,
            }
        } else if t[2] == "remove"@ {
            match scan_operand(t, 3, None, false) {
                Some(name) => Some(CliView::Remove { name }),
                None => None,
            }
        } else {
            None
        }
    } else {
        None
    }
}

impl Cli {
    /// The command line as values.
    pub open spec fn view_of(self) -> CliView {
        match self.command {
            Command::Check(a) => CliView::Check {
                target: a.target@,
                check_bundle: match a.check_bundle {
                    Some(p) => Some(p@),
                    None => None,
                },
                assessments: a.assessment@.map_values(|p: String| p@),
                json: a.format == OutputFormat::Json,
                timeout_ms: a.timeout_ms as int,
            },
            Command::Bundle(b) => match b.command {
                BundleCommand::Install { source } => CliView::Install { source: source@ },
                BundleCommand::List { json } => CliView::List { json },
                BundleCommand::Remove { name } => CliView::Remove { name: name@ },
            },
        }
    }
}

/// The texts of the command-line tokens.
pub open spec fn token_texts(args: Seq<String>) -> Seq<Seq<char>> {
    args.map_values(|a: String| a@)
}

fn token_is_flag(t: &str) -> (r: bool)
    ensures
        r == is_flag(t@),
{
    let cs = chars_of(t);
    cs.len() > 1 && cs[0] == '-'
}

/// The name of a long option token and the value written after its first
/// `=`, if any.
fn split_option(t: &str) -> (r: (String, Option<String>))
    ensures
        r.0@ == option_name(t@),
        match inline_value(t@) {
            Some(v) => r.1 matches Some(x) && x@ == v,
            None => r.1 is None,
        },
{
    let cs = chars_of(t);
    let mut k: usize = 0;
    while k < cs.len() && cs[k] != '='
        invariant
            k <= cs@.len(),
            cs@ == t@,
            forall|j: int| 0 <= j < k ==> cs@[j] != '=',
        decreases cs@.len() - k,
    {
        k = k + 1;
    }
    if k == cs.len() {
        assert(eq_index(t@) is None);
        return (String::from_str(t), None);
    }
    proof {
        assert(0 <= k < t@.len() && t@[k as int] == '=' && forall|j: int| 0 <= j < k ==> t@[j] != '=');
        let c = choose|c: int| 0 <= c < t@.len() && t@[c] == '=' && forall|j: int| 0 <= j < c ==> t@[j] != '=';
        if c < k {
        } else if c > k {
        }
        assert(eq_index(t@) == Some(k as int));
    }
    let mut name: Vec<char> = Vec::new();
    for j in 0..k
        invariant
            k < cs@.len(),
            name@ == cs@.take(j as int),
    {
        name.push(cs[j]);
        assert(cs@.take(j + 1) =~= cs@.take(j as int).push(cs@[j as int]));
    }
    let mut value: Vec<char> = Vec::new();
    for j in k + 1..cs.len()
        invariant
            k < cs@.len(),
            value@ == cs@.subrange(k + 1, j as int),
    {
        value.push(cs[j]);
        assert(cs@.subrange(k + 1, j + 1) =~= cs@.subrange(k + 1, j as int).push(cs@[j as int]));
    }
    assert(cs@.subrange(k + 1, cs@.len() as int) =~= cs@.skip(k + 1));
    (string_of(&name), Some(string_of(&value)))
}

proof fn lemma_digits_value_grows(s: Seq<char>, k: int)
    requires
        0 <= k <= s.len(),
        forall|i: int| 0 <= i < s.len() ==> #[trigger] is_digit(s[i]),
    ensures
        digits_value(s.take(k)) <= digits_value(s),
        digits_value(s.take(k)) >= 0,
    decreases s.len() - k,
{
    if k < s.len() {
        lemma_digits_value_grows(s, k + 1);
        assert(s.take(k + 1).drop_last() =~= s.take(k));
        assert(is_digit(s[k]));
        assert(digits_value(s.take(k + 1)) == digits_value(s.take(k)) * 10 + (s[k] as int - '0' as int));
        assert(digits_value(s.take(k)) * 10 >= digits_value(s.take(k))) by (nonlinear_arith)
            requires digits_value(s.take(k)) >= 0;
    } else {
        assert(s.take(k) =~= s);
        lemma_digits_nonneg(s);
    }
}

proof fn lemma_digits_nonneg(s: Seq<char>)
    requires
        forall|i: int| 0 <= i < s.len() ==> #[trigger] is_digit(s[i]),
    ensures
        digits_value(s) >= 0,
    decreases s.len(),
{
    if s.len() > 0 {
        assert forall|i: int| 0 <= i < s.drop_last().len() implies #[trigger] is_digit(s.drop_last()[i]) by {
            assert(s.drop_last()[i] == s[i]);
        }
        lemma_digits_nonneg(s.drop_last());
        assert(is_digit(s.last()));
        assert(digits_value(s.drop_last()) * 10 >= 0) by (nonlinear_arith)
            requires digits_value(s.drop_last()) >= 0;
    }
}

/// The number a decimal text names, when it is one that fits in `u64`.
pub fn parse_u64(s: &str) -> (r: Option<u64>)
    ensures
        match r {
            Some(v) => valid_u64_text(s@) && v == digits_value(s@),
            None => !valid_u64_text(s@),
        },
{
    let cs = chars_of(s);
    if cs.len() == 0 {
        return None;
    }
    let mut v: u64 = 0;
    for i in 0..cs.len()
        invariant
            cs@ == s@,
            cs@.len() > 0,
            forall|j: int| 0 <= j < i ==> #[trigger] is_digit(cs@[j]),
            v == digits_value(cs@.take(i as int)),
    {
        let c = cs[i];
        if !crate::text::char_is_digit(c) {
            return None;
        }
        let d: u64 = (c as u32 - '0' as u32) as u64;
        assert(cs@.take(i + 1).drop_last() =~= cs@.take(i as int));
        if v > (u64::MAX - d) / 10 {
            proof {
                assert(v * 10 + d > u64::MAX) by (nonlinear_arith)
                    requires v > (u64::MAX - d) / 10, d <= 9;
                let all_digits = forall|j: int| 0 <= j < cs@.len() ==> #[trigger] is_digit(cs@[j]);
                if all_digits {
                    lemma_digits_value_grows(cs@, i + 1);
                }
            }
            return None;
        }
        proof {
            assert(v * 10 + d <= u64::MAX) by (nonlinear_arith)
                requires v <= (u64::MAX - d) / 10, d <= 9;
        }
        v = v * 10 + d;
    }
    assert(cs@.take(cs@.len() as int) =~= cs@);
    Some(v)
}

/// What `clilint check` has read so far, as values.
pub struct CheckState {
    pub target: Option<String>,
    pub check_bundle: Option<String>,
    pub assessment: Vec<String>,
    pub format: Option<String>,
    pub timeout: Option<u64>,
    pub positional_only: bool,
}

/// The state as a `CheckScan`.
pub open spec fn scan_view(st: CheckState) -> CheckScan {
    CheckScan {
        target: match st.target {
            Some(t) => Some(t@),
            None => None,
        },
        check_bundle: match st.check_bundle {
            Some(t) => Some(t@),
            None => None,
        },
        assessments: st.assessment@.map_values(|a: String| a@),
        format: match st.format {
            Some(t) => Some(t@),
            None => None,
        },
        timeout: match st.timeout {
            Some(n) => Some(n as int),
            None => None,
        },
        positional_only: st.positional_only,
    }
}

/// Reads the arguments of `clilint check`.
#[verifier::loop_isolation(false)]
fn parse_check(args: &Vec<String>) -> (r: Option<CheckArgs>)
    requires
        args@.len() >= 2,
    ensures
        match scan_check(token_texts(args@), 2, empty_scan()) {
            Some(st) => match st.target {
                Some(target) => r matches Some(a) && a.target@ == target && (match a.check_bundle {
                    Some(p) => st.check_bundle == Some(p@),
                    None => st.check_bundle is None,
                }) && a.assessment@.map_values(|p: String| p@) == st.assessments && (a.format
                    == OutputFormat::Json <==> st.format == Some("json"@)) && a.timeout_ms as int
                    == match st.timeout {
                    Some(n) => n,
                    None => DEFAULT_TIMEOUT_MS as int,
                },
                None => r is None,
            },
            None => r is None,
        },
{
    let ghost t = token_texts(args@);
    let mut st = CheckState {
        target: None,
        check_bundle: None,
        assessment: Vec::new(),
        format: None,
        timeout: None,
        positional_only: false,
    };
    assert(scan_view(st) == empty_scan()) by {
        assert(st.assessment@.map_values(|a: String| a@) =~= Seq::<Seq<char>>::empty());
    }
    let n = args.len();
    let mut i: usize = 2;
    while i < n
        invariant
            2 <= i <= n,
            n == args@.len(),
            t == token_texts(args@),
            scan_check(t, i as int, scan_view(st)) == scan_check(t, 2, empty_scan()),
        decreases n - i,
    {
        let tok = args[i].as_str();
        assert(t[i as int] == tok@);
        if !st.positional_only && str_eq(tok, "--") {
            st.positional_only = true;
            i = i + 1;
        } else if !st.positional_only && token_is_flag(tok) {
            let (name, inline) = split_option(tok);
            let (value, used): (String, usize) = match inline {
                Some(v) => (v, 1),
                None => {
                    if i + 1 < n && !token_is_flag(args[i + 1].as_str()) {
                        assert(t[i + 1] == args@[i + 1]@);
                        (args[i + 1].clone(), 2)
                    } else {
                        return None;
                    }
                },
            };
            let name = name.as_str();
            let v = value.as_str();
            if str_eq(name, "--check-bundle") && st.check_bundle.is_none() {
                st.check_bundle = Some(String::from_str(v));
            } else if str_eq(name, "--assessment") {
                let ghost before = st.assessment@;
                st.assessment.push(String::from_str(v));
                assert(st.assessment@.map_values(|a: String| a@) =~= before.map_values(|a: String| a@).push(v@));
            } else if str_eq(name, "--format") && st.format.is_none() && (str_eq(v, "human") || str_eq(v, "json")) {
                st.format = Some(String::from_str(v));
            } else if str_eq(name, "--timeout-ms") && st.timeout.is_none() {
                match parse_u64(v) {
                    Some(number) => {
                        st.timeout = Some(number);
                    },
                    None => {
                        return None;
                    },
                }
            } else {
                return None;
            }
            i = i + used;
        } else if st.target.is_none() {
            st.target = Some(String::from_str(tok));
            i = i + 1;
        } else {
            return None;
        }
    }
    let target = match st.target {
        Some(target) => target,
        None => {
            return None;
        },
    };
    let format = match &st.format {
        Some(f) => if str_eq(f.as_str(), "json") {
            OutputFormat::Json
        } else {
            OutputFormat::Human
        },
        None => OutputFormat::Human,
    };
    let timeout_ms = match st.timeout {
        Some(number) => number,
        None => DEFAULT_TIMEOUT_MS,
    };
    Some(
        CheckArgs {
            target,
            check_bundle: st.check_bundle,
            assessment: st.assessment,
            format,
            timeout_ms,
        },
    )
}

/// Reads the single operand of `clilint bundle install` or `remove`.
#[verifier::loop_isolation(false)]
fn parse_operand(args: &Vec<String>) -> (r: Option<String>)
    requires
        args@.len() >= 3,
    ensures
        match scan_operand(token_texts(args@), 3, None, false) {
            Some(v) => r matches Some(x) && x@ == v,
            None => r is None,
        },
{
    let ghost t = token_texts(args@);
    let n = args.len();
    let mut operand: Option<String> = None;
    let mut positional_only = false;
    let mut i: usize = 3;
    while i < n
        invariant
            3 <= i <= n,
            n == args@.len(),
            t == token_texts(args@),
            scan_operand(t, i as int, match operand {
                Some(x) => Some(x@),
                None => None,
            }, positional_only) == scan_operand(t, 3, None, false),
        decreases n - i,
    {
        let tok = args[i].as_str();
        assert(t[i as int] == tok@);
        if !positional_only && str_eq(tok, "--") {
            positional_only = true;
        } else if !positional_only && token_is_flag(tok) {
            return None;
        } else if operand.is_none() {
            operand = Some(String::from_str(tok));
        } else {
            return None;
        }
        i = i + 1;
    }
    operand
}

/// Reads the flags of `clilint bundle list`.
#[verifier::loop_isolation(false)]
fn parse_list(args: &Vec<String>) -> (r: Option<bool>)
    requires
        args@.len() >= 3,
    ensures
        r == scan_list(token_texts(args@), 3, false),
{
    let ghost t = token_texts(args@);
    let n = args.len();
    let mut json = false;
    let mut i: usize = 3;
    while i < n
        invariant
            3 <= i <= n,
            n == args@.len(),
            t == token_texts(args@),
            scan_list(t, i as int, json) == scan_list(t, 3, false),
        decreases n - i,
    {
        let tok = args[i].as_str();
        assert(t[i as int] == tok@);
        if str_eq(tok, "--json") && !json {
            json = true;
        } else {
            return None;
        }
        i = i + 1;
    }
    Some(json)
}

impl Cli {
    /// Reads a command line whose first token is the program name. Gives
    /// `None` for a request of help or of the version and for a command
    /// line that is not valid.
    pub fn try_parse_from(args: &Vec<String>) -> (r: Option<Cli>)
        ensures
            match command_line(token_texts(args@)) {
                Some(v) => r matches Some(cli) && cli.view_of() == v,
                None => r is None,
            },
    {
        let ghost t = token_texts(args@);
        if args.len() < 2 {
            return None;
        }
        assert(t[1] == args@[1]@);
        if str_eq(args[1].as_str(), "check") {
            let parsed = parse_check(args);
            return match parsed {
                Some(a) => {
                    let cli = Cli { command: Command::Check(a) };
                    proof {
                        let st = scan_check(t, 2, empty_scan())->Some_0;
                        assert(cli.view_of() == command_line(t)->Some_0);
                    }
                    Some(cli)
                },
                None => None,
            };
        }
        if !str_eq(args[1].as_str(), "bundle") || args.len() < 3 {
            return None;
        }
        assert(t[2] == args@[2]@);
        let sub = args[2].as_str();
        if str_eq(sub, "install") {
            match parse_operand(args) {
                Some(source) => Some(
                    Cli { command: Command::Bundle(BundleArgs { command: BundleCommand::Install { source } }) },
                ),
                None => None,
            }
        } else if str_eq(sub, "list") {
            match parse_list(args) {
                Some(json) => Some(
                    Cli { command: Command::Bundle(BundleArgs { command: BundleCommand::List { json } }) },
                ),
                None => None,
            }
        } else if str_eq(sub, "remove") {
            match parse_operand(args) {
                Some(name) => Some(
                    Cli { command: Command::Bundle(BundleArgs { command: BundleCommand::Remove { name } }) },
                ),
                None => None,
            }
        } else {
            None
        }
    }
}

} // verus!
