//! What the library decides about a run of the target: how long it may
//! run, what exit status is reported, whether its output holds terminal
//! control sequences, and which earlier run answers a repeated invocation.
use vstd::prelude::*;

use crate::model::Observation;
use crate::text::{clone_strings, str_eq};

verus! {

/// An ANSI control sequence introducer, ESC `[`, begins at `i`.
pub open spec fn csi_at(bytes: Seq<u8>, i: int) -> bool {
    0 <= i && i + 1 < bytes.len() && bytes[i] == 0x1bu8 && bytes[i + 1] == 0x5bu8
}

/// The bytes hold an ANSI control sequence introducer.
pub open spec fn has_ansi_bytes(bytes: Seq<u8>) -> bool {
    exists|i: int| #[trigger] csi_at(bytes, i)
}

/// Whether the captured output holds an ANSI control sequence.
pub fn contains_ansi(bytes: &[u8]) -> (r: bool)
    ensures
        r == has_ansi_bytes(bytes@),
{
    let n = bytes.len();
    if n < 2 {
        return false;
    }
    for i in 0..n - 1
        invariant
            n == bytes@.len(),
            n >= 2,
            forall|j: int| 0 <= j < i ==> !#[trigger] csi_at(bytes@, j),
    {
        if bytes[i] == 0x1b && bytes[i + 1] == 0x5b {
            assert(csi_at(bytes@, i as int));
            return true;
        }
    }
    assert forall|j: int| !#[trigger] csi_at(bytes@, j) by {
        if 0 <= j < n - 1 {
        }
    }
    false
}

/// How long a run may take: the invocation's own timeout, else the
/// runner's default.
pub fn effective_timeout(requested: Option<u64>, default_ms: u64) -> (r: u64)
    ensures
        r == match requested {
            Some(t) => t,
            None => default_ms,
        },
{
    match requested {
        Some(t) => t,
        None => default_ms,
    }
}

/// The exit status an observation reports: none for a run that was
/// stopped at its timeout, else the code the process exited with.
pub fn reported_exit_status(code: Option<i32>, timed_out: bool) -> (r: Option<i32>)
    ensures
        r == (if timed_out {
            None
        } else {
            code
        }),
{
    if timed_out {
        None
    } else {
        code
    }
}

/// Two observations of a run say the same.
pub open spec fn same_run(a: Observation, b: Observation) -> bool {
    &&& a.args@ == b.args@
    &&& a.exit_status == b.exit_status
    &&& a.timed_out == b.timed_out
    &&& a.duration_ms == b.duration_ms
    &&& a.stdout@ == b.stdout@
    &&& a.stderr@ == b.stderr@
    &&& a.has_ansi == b.has_ansi
}

/// A copy of an observation.
pub fn copy_observation(o: &Observation) -> (r: Observation)
    ensures
        same_run(r, *o),
{
    Observation {
        args: clone_strings(&o.args),
        exit_status: o.exit_status,
        timed_out: o.timed_out,
        duration_ms: o.duration_ms,
        stdout: o.stdout.clone(),
        stderr: o.stderr.clone(),
        has_ansi: o.has_ansi,
    }
}

/// The observation of the first run recorded under `key`, if any.
pub open spec fn first_run(runs: Seq<(Seq<char>, Observation)>, key: Seq<char>) -> Option<Observation>
    decreases runs.len(),
{
    if runs.len() == 0 {
        None
    } else if runs[0].0 == key {
        Some(runs[0].1)
    } else {
        first_run(runs.drop_first(), key)
    }
}

/// The runs made so far, each under the key of its invocation, in order:
/// a repeated invocation is answered by the run made first.
pub struct RunCache {
    runs: Vec<(String, Observation)>,
}

impl View for RunCache {
    type V = Seq<(Seq<char>, Observation)>;

    closed spec fn view(&self) -> Seq<(Seq<char>, Observation)> {
        self.runs@.map_values(|e: (String, Observation)| (e.0@, e.1))
    }
}

impl RunCache {
    /// No run made yet.
    pub fn new() -> (r: RunCache)
        ensures
            r@ == Seq::<(Seq<char>, Observation)>::empty(),
    {
        let r = RunCache { runs: Vec::new() };
        assert(r@ =~= Seq::<(Seq<char>, Observation)>::empty());
        r
    }

    /// The run that answers the invocation `key`: the first one recorded
    /// under it.
    pub fn lookup(&self, key: &str) -> (r: Option<Observation>)
        ensures
            match first_run(self@, key@) {
                Some(o) => r matches Some(x) && same_run(x, o),
                None => r is None,
            },
    {
        let n = self.runs.len();
        assert(self@.skip(0) =~= self@);
        for i in 0..n
            invariant
                n == self.runs@.len(),
                first_run(self@, key@) == first_run(self@.skip(i as int), key@),
        {
            let ghost rest = self@.skip(i as int);
            assert(rest[0] == (self.runs@[i as int].0@, self.runs@[i as int].1));
            if str_eq(self.runs[i].0.as_str(), key) {
                return Some(copy_observation(&self.runs[i].1));
            }
            assert(rest.drop_first() =~= self@.skip(i + 1));
        }
        assert(self@.skip(n as int) =~= Seq::<(Seq<char>, Observation)>::empty());
        None
    }

    /// Records a run under the key of its invocation.
    pub fn record(&mut self, key: String, observation: Observation)
        ensures
            final(self)@ == old(self)@.push((key@, observation)),
    {
        self.runs.push((key, observation));
        assert(self@ =~= old(self)@.push((key@, observation)));
    }
}

} // verus!
