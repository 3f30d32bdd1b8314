//! Start-up decisions: which VR backend to run next, and whether another
//! running instance blocks this one.

use vstd::prelude::*;
use crate::text::{chars_of, is_white_space, is_whitespace};

verus! {

/// Why a backend stopped.
pub enum BackendError {
    /// The backend's runtime is not available.
    NotSupported,
    /// An OpenXR call failed with this result code.
    OpenXrError(i32),
    Shutdown,
    Restart,
    /// Any other failure, with its message.
    Fatal(String),
}

/// The command line.
pub struct Args {
    /// Force OpenVR backend
    pub openvr: bool,
    /// Force OpenXR backend
    pub openxr: bool,
    /// Show the working set of overlay on startup
    pub show: bool,
    /// Uninstall OpenVR manifest and exit
    pub uninstall: bool,
    /// Replace running instance
    pub replace: bool,
    /// Allow multiple running instances (things may break!)
    pub multi: bool,
    /// Path to write logs to
    pub log_to: Option<String>,
    /// Show a desktop window of a UI panel for development
    pub uidev: Option<String>,
}

/// Whether OpenVR was forced.
pub fn args_get_openvr(args: &Args) -> (r: bool)
    ensures
        r == args.openvr,
{
    args.openvr
}

/// Whether OpenXR was forced.
pub fn args_get_openxr(args: &Args) -> (r: bool)
    ensures
        r == args.openxr,
{
    args.openxr
}

#[derive(Clone, Copy, PartialEq, Eq, Structural, Debug)]
pub enum BackendKind {
    OpenXr,
    OpenVr,
}

/// What to do after a backend ran (or before the first).
#[derive(Clone, Copy, PartialEq, Eq, Structural, Debug)]
pub enum AutoRunStep {
    /// Run this backend.
    Run(BackendKind),
    /// The backend ran and ended normally.
    Finished,
    /// The backend failed; its error is reported and nothing else is tried.
    Failed,
    /// No more backends to try.
    Exhausted,
}

/// The step after `previous` (the backend that ran last and how it ended, or
/// `None` at start): OpenXR first unless OpenVR is forced, then OpenVR unless
/// OpenXR is forced, moving on only when a backend is not supported.
pub open spec fn auto_run_spec(args: Args, previous: Option<(BackendKind, bool, bool)>) -> AutoRunStep {
    match previous {
        None => if !args.openvr {
            AutoRunStep::Run(BackendKind::OpenXr)
        } else if !args.openxr {
            AutoRunStep::Run(BackendKind::OpenVr)
        } else {
            AutoRunStep::Exhausted
        },
        Some((kind, ok, not_supported)) => if ok {
            AutoRunStep::Finished
        } else if !not_supported {
            AutoRunStep::Failed
        } else if kind == BackendKind::OpenXr && !args.openxr {
            AutoRunStep::Run(BackendKind::OpenVr)
        } else {
            AutoRunStep::Exhausted
        },
    }
}

/// How a backend's run ended: whether it ended normally, and whether it was
/// not supported.
pub open spec fn run_result(r: &Result<(), BackendError>) -> (bool, bool) {
    match r {
        Ok(()) => (true, false),
        Err(BackendError::NotSupported) => (false, true),
        Err(_) => (false, false),
    }
}

/// Chooses the next backend to run.
pub fn auto_run(args: &Args, previous: Option<(BackendKind, &Result<(), BackendError>)>) -> (r: AutoRunStep)
    ensures
        r == auto_run_spec(*args, match previous {
            Some((k, res)) => Some((k, run_result(res).0, run_result(res).1)),
            None => None,
        }),
{
    match previous {
        None => {
            if !args_get_openvr(args) {
                AutoRunStep::Run(BackendKind::OpenXr)
            } else if !args_get_openxr(args) {
                AutoRunStep::Run(BackendKind::OpenVr)
            } else {
                AutoRunStep::Exhausted
            }
        },
        Some((kind, res)) => match res {
            Ok(()) => AutoRunStep::Finished,
            Err(BackendError::NotSupported) => {
                if kind == BackendKind::OpenXr && !args_get_openxr(args) {
                    AutoRunStep::Run(BackendKind::OpenVr)
                } else {
                    AutoRunStep::Exhausted
                }
            },
            Err(_) => AutoRunStep::Failed,
        },
    }
}

/// `s` without leading white space.
pub open spec fn trim_start(s: Seq<char>) -> Seq<char>
    decreases s.len(),
{
    if s.len() > 0 && is_white_space(s[0]) {
        trim_start(s.skip(1))
    } else {
        s
    }
}

/// `s` without trailing white space.
pub open spec fn trim_end(s: Seq<char>) -> Seq<char>
    decreases s.len(),
{
    if s.len() > 0 && is_white_space(s.last()) {
        trim_end(s.drop_last())
    } else {
        s
    }
}

pub open spec fn is_digit(c: char) -> bool {
    '0' <= c <= '9'
}

/// `d` is made of decimal digits only.
pub open spec fn all_digits(d: Seq<char>) -> bool {
    forall|i: int| 0 <= i < d.len() ==> is_digit(#[trigger] d[i])
}

/// The value of a string of decimal digits.
pub open spec fn digits_value(d: Seq<char>) -> nat
    decreases d.len(),
{
    if d.len() == 0 {
        0
    } else {
        digits_value(d.drop_last()) * 10 + ((d.last() as u32) - ('0' as u32)) as nat
    }
}

/// `t` read as a `u32` the way `str::parse::<u32>` reads it: an optional `+`,
/// then at least one decimal digit and nothing else, of a value that fits.
pub open spec fn parse_u32_spec(t: Seq<char>) -> Option<u32> {
    let d = if t.len() > 0 && t[0] == '+' { t.skip(1) } else { t };
    if d.len() > 0 && all_digits(d) && digits_value(d) <= u32::MAX {
        Some(digits_value(d) as u32)
    } else {
        None
    }
}

proof fn lemma_digits_value_grows(d: Seq<char>, k: int)
    requires
        0 <= k <= d.len(),
        forall|i: int| 0 <= i < d.len() ==> is_digit(#[trigger] d[i]),
    ensures
        digits_value(d.take(k)) <= digits_value(d),
    decreases d.len() - k,
{
    if k < d.len() {
        lemma_digits_value_grows(d, k + 1);
        assert(d.take(k + 1).drop_last() == d.take(k));
    } else {
        assert(d.take(k) == d);
    }
}

/// Parses the decimal digits `cs[from..]`.
fn parse_digits(cs: &Vec<char>, from: usize) -> (r: Option<u32>)
    requires
        from <= cs@.len(),
    ensures
        ({
            let d = cs@.skip(from as int);
            r == (if d.len() > 0 && all_digits(d) && digits_value(d) <= u32::MAX {
                Some(digits_value(d) as u32)
            } else {
                None::<u32>
            })
        }),
{
    let ghost d = cs@.skip(from as int);
    if from == cs.len() {
        return None;
    }
    let mut i: usize = from;
    while i < cs.len()
        invariant
            from <= i <= cs@.len(),
            d == cs@.skip(from as int),
            forall|j: int| 0 <= j < i - from ==> is_digit(#[trigger] d[j]),
        decreases cs@.len() - i,
    {
        if !('0' <= cs[i] && cs[i] <= '9') {
            assert(!is_digit(d[i - from]));
            return None;
        }
        i = i + 1;
    }
    let mut v: u64 = 0;
    let mut k: usize = from;
    while k < cs.len()
        invariant
            from <= k <= cs@.len(),
            d == cs@.skip(from as int),
            forall|j: int| 0 <= j < d.len() ==> is_digit(#[trigger] d[j]),
            v == digits_value(d.take(k - from)),
            v <= u32::MAX,
        decreases cs@.len() - k,
    {
        let c = cs[k];
        assert(d[k - from] == c);
        assert(is_digit(d[k - from]));
        let digit = (c as u32 - '0' as u32) as u64;
        let nv = v * 10 + digit;
        assert(d.take(k - from + 1).drop_last() == d.take(k - from));
        assert(nv == digits_value(d.take(k - from + 1)));
        if nv > 0xffff_ffff {
            proof { lemma_digits_value_grows(d, k - from + 1); }
            return None;
        }
        v = nv;
        k = k + 1;
    }
    assert(d.take(d.len() as int) == d);
    Some(v as u32)
}

/// Reads a process id written in a file: white space around it is ignored.
pub fn parse_pid(contents: &str) -> (r: Option<u32>)
    ensures
        r == parse_u32_spec(trim_end(trim_start(contents@))),
{
    let cs = chars_of(contents);
    let mut a: usize = 0;
    assert(cs@.skip(0) == cs@);
    while a < cs.len() && is_whitespace(cs[a])
        invariant
            a <= cs@.len(),
            cs@ == contents@,
            trim_start(cs@) == trim_start(cs@.skip(a as int)),
        decreases cs@.len() - a,
    {
        assert(cs@.skip(a as int).skip(1) == cs@.skip(a + 1));
        a = a + 1;
    }
    let mut b: usize = cs.len();
    assert(cs@.subrange(a as int, b as int) == cs@.skip(a as int));
    while b > a && is_whitespace(cs[b - 1])
        invariant
            a <= b <= cs@.len(),
            trim_end(trim_start(cs@)) == trim_end(cs@.subrange(a as int, b as int)),
        decreases b,
    {
        assert(cs@.subrange(a as int, b as int).drop_last() == cs@.subrange(a as int, b - 1));
        b = b - 1;
    }
    let ghost t = cs@.subrange(a as int, b as int);
    assert(trim_end(t) == t);
    let st: usize = if a < b && cs[a] == '+' { a + 1 } else { a };
    let mut digits: Vec<char> = Vec::new();
    let mut i: usize = st;
    while i < b
        invariant
            st <= i <= b,
            b <= cs@.len(),
            digits@ == cs@.subrange(st as int, i as int),
        decreases b - i,
    {
        digits.push(cs[i]);
        assert(cs@.subrange(st as int, i + 1) == cs@.subrange(st as int, i as int).push(cs@[i as int]));
        i = i + 1;
    }
    assert(digits@ =~= (if t.len() > 0 && t[0] == '+' { t.skip(1) } else { t }));
    assert(digits@.skip(0) == digits@);
    assert(trim_end(trim_start(contents@)) == t);
    let r = parse_digits(&digits, 0);
    assert(r == parse_u32_spec(t));
    r
}

/// What to do about an instance that may already be running.
#[derive(Clone, Copy, PartialEq, Eq, Structural, Debug)]
pub enum InstanceAction {
    /// Go on: record this process as the running instance.
    Proceed,
    /// Terminate the running process with this id, wait for it, then go on.
    Replace(u32),
    /// Another instance runs: stop.
    AlreadyRunning,
}

/// The decision, given the process id recorded by a running instance (only when
/// that process still exists) and whether `--replace` was given.
pub fn single_instance_action(running: Option<u32>, replace: bool) -> (r: InstanceAction)
    ensures
        r == match running {
            None => InstanceAction::Proceed,
            Some(pid) => if replace { InstanceAction::Replace(pid) } else { InstanceAction::AlreadyRunning },
        },
{
    match running {
        None => InstanceAction::Proceed,
        Some(pid) => if replace { InstanceAction::Replace(pid) } else { InstanceAction::AlreadyRunning },
    }
}

} // verus!
