//! Command-line argument model: the option structures the profiler's
//! front end fills in, and the verified parsers for their string-typed
//! values.

use vstd::prelude::*;
use crate::cmd_collate::CollateFormat;

verus! {

/// The source of perf events to sample from.
#[derive(Clone, Copy, PartialEq, Eq, Structural, Debug)]
pub enum EventSource {
    HwCpuCycles,
    HwRefCpuCycles,
    SwCpuClock,
    SwPageFaults,
    SwDummy,
}

/// Which process to profile.
#[derive(Clone, PartialEq, Eq, Debug)]
pub enum TargetProcess {
    ByPid(u32),
    ByName(String),
    ByNameWaiting(String, u64),
}

/// The raw process-selection switches.
#[derive(Clone, Debug)]
pub struct ProcessFilter {
    /// Profiles a process with a given PID (conflicts with --process)
    pub pid: Option<u32>,
    /// Profiles a process with a given name (conflicts with --pid)
    pub process: Option<String>,
    /// Will wait for the profiled process to appear
    pub wait: bool,
    /// Specifies the number of seconds which the profiler should wait
    /// for the process to appear; makes sense only when used with the
    /// `--wait` option
    pub wait_timeout: u32,
}

impl TargetProcess {
    /// The target a filter selects.  A name takes precedence over a PID;
    /// the waiting variant carries the timeout.  A filter naming neither is
    /// rejected by the front end before this point.
    pub fn from(args: ProcessFilter) -> (r: TargetProcess)
        requires
            args.process is Some || args.pid is Some,
        ensures
            args.process matches Some(p) ==> r == (if args.wait {
                TargetProcess::ByNameWaiting(p, args.wait_timeout as u64)
            } else {
                TargetProcess::ByName(p)
            }),
            args.process is None ==> r == TargetProcess::ByPid(args.pid.unwrap()),
    {
        if let Some(process) = args.process {
            if args.wait {
                TargetProcess::ByNameWaiting(process, args.wait_timeout as u64)
            } else {
                TargetProcess::ByName(process)
            }
        } else {
            let pid = match args.pid {
                Some(pid) => pid,
                None => 0,
            };
            TargetProcess::ByPid(pid)
        }
    }
}

/// At what granularity call frames are merged.
#[derive(Clone, Copy, PartialEq, Eq, Structural, Debug)]
pub enum Granularity {
    Address,
    Function,
    Line,
}

impl Default for Granularity {
    /// Frames merge per source line unless asked otherwise.
    fn default() -> (r: Granularity)
        ensures
            r == Granularity::Line,
    {
        Granularity::Line
    }
}

/// Merge callstacks from all threads
#[derive(Clone, Copy, Debug)]
pub struct ArgMergeThreads {
    pub merge_threads: bool,
}

/// Specifies at what granularity the call frames will be merged
#[derive(Clone, Copy, Debug)]
pub struct ArgGranularity {
    pub granularity: Granularity,
}

/// Character-for-character string equality.
fn str_eq(a: &str, b: &str) -> (r: bool)
    ensures
        r == (a@ == b@),
{
    let n = a.unicode_len();
    let m = b.unicode_len();
    if n != m {
        return false;
    }
    let mut i: usize = 0;
    while i < n
        invariant
            n == a@.len(),
            n == b@.len(),
            0 <= i <= n,
            forall|k: int| 0 <= k < i ==> a@[k] == b@[k],
        decreases n - i,
    {
        if a.get_char(i) != b.get_char(i) {
            return false;
        }
        i = i + 1;
    }
    proof {
        assert(a@ =~= b@);
    }
    true
}

/// The event source a command-line value names.  Unknown values are ruled
/// out by the front end's option validation.
pub fn parse_event_source(source: &str) -> (r: EventSource)
    requires
        source@ == "hw_cpu_cycles"@ || source@ == "hw_ref_cpu_cycles"@ || source@
            == "sw_cpu_clock"@ || source@ == "sw_page_faults"@ || source@ == "sw_dummy"@,
    ensures
        source@ == "hw_cpu_cycles"@ ==> r == EventSource::HwCpuCycles,
        source@ == "hw_ref_cpu_cycles"@ ==> r == EventSource::HwRefCpuCycles,
        source@ == "sw_cpu_clock"@ ==> r == EventSource::SwCpuClock,
        source@ == "sw_page_faults"@ ==> r == EventSource::SwPageFaults,
        source@ == "sw_dummy"@ ==> r == EventSource::SwDummy,
{
    proof {
        reveal_strlit("hw_cpu_cycles");
        reveal_strlit("hw_ref_cpu_cycles");
        reveal_strlit("sw_cpu_clock");
        reveal_strlit("sw_page_faults");
        reveal_strlit("sw_dummy");
        assert("hw_cpu_cycles"@.len() == 13);
        assert("hw_ref_cpu_cycles"@.len() == 17);
        assert("sw_cpu_clock"@.len() == 12);
        assert("sw_page_faults"@.len() == 14);
        assert("sw_dummy"@.len() == 8);
        assert("sw_cpu_clock"@[1] == 'w' && "hw_cpu_cycles"@[1] == 'w' && "sw_cpu_clock"@[0]
            != "hw_cpu_cycles"@[0]);
    }
    if str_eq(source, "hw_cpu_cycles") {
        EventSource::HwCpuCycles
    } else if str_eq(source, "hw_ref_cpu_cycles") {
        EventSource::HwRefCpuCycles
    } else if str_eq(source, "sw_cpu_clock") {
        EventSource::SwCpuClock
    } else if str_eq(source, "sw_page_faults") {
        EventSource::SwPageFaults
    } else {
        EventSource::SwDummy
    }
}

/// The collation format a command-line value names.
pub fn parse_collate_format(format: &str) -> (r: CollateFormat)
    requires
        format@ == "collapsed"@ || format@ == "perf-like"@,
    ensures
        format@ == "collapsed"@ ==> r == CollateFormat::Collapsed,
        format@ == "perf-like"@ ==> r == CollateFormat::PerfLike,
{
    proof {
        reveal_strlit("collapsed");
        reveal_strlit("perf-like");
        assert("collapsed"@[0] != "perf-like"@[0]);
    }
    if str_eq(format, "collapsed") {
        CollateFormat::Collapsed
    } else {
        CollateFormat::PerfLike
    }
}

/// The merge granularity a command-line value names.
pub fn parse_granularity(value: &str) -> (r: Granularity)
    requires
        value@ == "address"@ || value@ == "function"@ || value@ == "line"@,
    ensures
        value@ == "address"@ ==> r == Granularity::Address,
        value@ == "function"@ ==> r == Granularity::Function,
        value@ == "line"@ ==> r == Granularity::Line,
{
    proof {
        reveal_strlit("address");
        reveal_strlit("function");
        reveal_strlit("line");
        assert("address"@.len() == 7);
        assert("function"@.len() == 8);
        assert("line"@.len() == 4);
    }
    if str_eq(value, "address") {
        Granularity::Address
    } else if str_eq(value, "function") {
        Granularity::Function
    } else {
        Granularity::Line
    }
}

/// A period that could not be parsed: not a decimal count of time units.
#[derive(Clone, Copy, PartialEq, Eq, Structural, Debug)]
pub struct PeriodParseError;

/// A decimal digit.
pub open spec fn is_digit(c: char) -> bool {
    48 <= c as u32 <= 57
}

/// The value of one decimal digit.
pub open spec fn digit_val(c: char) -> int {
    c as u32 - 48
}

/// A non-empty string of decimal digits.
pub open spec fn all_digits(s: Seq<char>) -> bool {
    s.len() > 0 && forall|k: int| 0 <= k < s.len() ==> is_digit(s[k])
}

/// The number a digit string denotes.
pub open spec fn dec_val(s: Seq<char>) -> int
    decreases s.len(),
{
    if s.len() == 0 {
        0
    } else {
        10 * dec_val(s.drop_last()) + digit_val(s.last())
    }
}

/// What parsing a decimal `u64` yields: the denoted number when the string
/// is all digits and the number fits, nothing otherwise.
pub open spec fn spec_parse_u64(s: Seq<char>) -> Option<int> {
    if all_digits(s) && dec_val(s) <= u64::MAX {
        Some(dec_val(s))
    } else {
        None
    }
}

/// Scale a parse result.
pub open spec fn scaled(v: Option<int>, factor: int) -> Option<int> {
    match v {
        Some(x) => Some(x * factor),
        None => None,
    }
}

/// The number of nanoseconds a period string denotes: a decimal count
/// suffixed `ms`, `us`, `ns` or `s`, or a bare count of seconds.
pub open spec fn spec_period_value(s: Seq<char>) -> Option<int> {
    let n = s.len() as int;
    if n >= 2 && s[n - 2] == 'm' && s[n - 1] == 's' {
        scaled(spec_parse_u64(s.subrange(0, n - 2)), 1_000_000)
    } else if n >= 2 && s[n - 2] == 'u' && s[n - 1] == 's' {
        scaled(spec_parse_u64(s.subrange(0, n - 2)), 1_000)
    } else if n >= 2 && s[n - 2] == 'n' && s[n - 1] == 's' {
        scaled(spec_parse_u64(s.subrange(0, n - 2)), 1)
    } else if n >= 1 && s[n - 1] == 's' {
        scaled(spec_parse_u64(s.subrange(0, n - 1)), 1_000_000_000)
    } else {
        scaled(spec_parse_u64(s), 1_000_000_000)
    }
}

/// A digit string denotes a nonnegative number.
proof fn lemma_dec_val_nonneg(t: Seq<char>)
    requires
        forall|k: int| 0 <= k < t.len() ==> is_digit(t[k]),
    ensures
        dec_val(t) >= 0,
    decreases t.len(),
{
    if t.len() > 0 {
        lemma_dec_val_nonneg(t.drop_last());
    }
}

/// A digit string's value never shrinks as digits are appended.
proof fn lemma_dec_val_grows(s: Seq<char>, i: int, j: int)
    requires
        0 <= i <= j <= s.len(),
        forall|k: int| 0 <= k < j ==> is_digit(s[k]),
    ensures
        0 <= dec_val(s.subrange(0, i)) <= dec_val(s.subrange(0, j)),
    decreases j - i,
{
    assert forall|k: int| 0 <= k < s.subrange(0, i).len() implies is_digit(s.subrange(0, i)[k]) by {}
    lemma_dec_val_nonneg(s.subrange(0, i));
    if i < j {
        lemma_dec_val_grows(s, i, j - 1);
        assert(s.subrange(0, j).drop_last() =~= s.subrange(0, j - 1));
        assert(s.subrange(0, j).last() == s[j - 1]);
    }
}

/// Parse the decimal digits `s[0..end]` into a `u64`.
fn parse_u64_digits(s: &str, end: usize) -> (r: Option<u64>)
    requires
        end <= s@.len(),
    ensures
        match r {
            Some(x) => spec_parse_u64(s@.subrange(0, end as int)) == Some(x as int),
            None => spec_parse_u64(s@.subrange(0, end as int)) is None,
        },
{
    if end == 0 {
        return None;
    }
    let mut acc: u64 = 0;
    let mut i: usize = 0;
    while i < end
        invariant
            0 <= i <= end <= s@.len(),
            forall|k: int| 0 <= k < i ==> is_digit(s@[k]),
            acc as int == dec_val(s@.subrange(0, i as int)),
        decreases end - i,
    {
        let c = s.get_char(i);
        let cv = c as u32;
        if cv < 48 || cv > 57 {
            proof {
                let full = s@.subrange(0, end as int);
                assert(full[i as int] == s@[i as int]);
                assert(!all_digits(full));
            }
            return None;
        }
        let d = (cv - 48) as u64;
        proof {
            assert(s@.subrange(0, i as int + 1).drop_last() =~= s@.subrange(0, i as int));
            assert(s@.subrange(0, i as int + 1).last() == s@[i as int]);
        }
        if acc > (u64::MAX - d) / 10 {
            proof {
                assert(10 * (acc as int) + d > u64::MAX) by (nonlinear_arith)
                    requires
                        acc as int > (u64::MAX - d as int) / 10,
                        0 <= d <= 9,
                ;
                let full = s@.subrange(0, end as int);
                if all_digits(full) {
                    assert forall|k: int| 0 <= k < end implies is_digit(s@[k]) by {
                        assert(full[k] == s@[k]);
                        assert(is_digit(full[k]));
                    }
                    assert(dec_val(s@.subrange(0, i as int + 1)) > u64::MAX);
                    lemma_dec_val_grows(s@, i + 1, end as int);
                }
            }
            return None;
        }
        acc = acc * 10 + d;
        i = i + 1;
    }
    proof {
        assert(s@.subrange(0, end as int) =~= s@.subrange(0, i as int));
    }
    Some(acc)
}

/// The period, in nanoseconds, a command-line value denotes: a decimal
/// count suffixed `ms`, `us`, `ns` or `s`, a bare count meaning seconds.
/// A value whose scaled count does not fit 64 bits is outside this
/// function's domain (scaling is unchecked, as the denoted period is).
pub fn try_parse_period(period: &str) -> (r: Result<u64, PeriodParseError>)
    requires
        spec_period_value(period@) matches Some(v) ==> v <= u64::MAX,
    ensures
        match spec_period_value(period@) {
            Some(v) => r == Ok::<u64, PeriodParseError>(v as u64),
            None => r is Err,
        },
{
    let n = period.unicode_len();
    let mut end: usize = n;
    let mut factor: u64 = 1_000_000_000;
    if n >= 2 && period.get_char(n - 2) == 'm' && period.get_char(n - 1) == 's' {
        end = n - 2;
        factor = 1_000_000;
    } else if n >= 2 && period.get_char(n - 2) == 'u' && period.get_char(n - 1) == 's' {
        end = n - 2;
        factor = 1_000;
    } else if n >= 2 && period.get_char(n - 2) == 'n' && period.get_char(n - 1) == 's' {
        end = n - 2;
        factor = 1;
    } else if n >= 1 && period.get_char(n - 1) == 's' {
        end = n - 1;
        factor = 1_000_000_000;
    }
    let ghost pv = spec_period_value(period@);
    proof {
        assert(period@.subrange(0, period@.len() as int) =~= period@);
    }
    match parse_u64_digits(period, end) {
        None => Err(PeriodParseError),
        Some(x) => {
            proof {
                assert(pv == Some((x as int) * (factor as int)));
            }
            Ok(x * factor)
        },
    }
}

} // verus!
