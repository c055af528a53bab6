//! The server's configuration and its background loops.

use vstd::prelude::*;
use vstd::string::*;

use crate::decimal::{decimal, numeral_round_trip, parse_unsigned, unsigned_value};
use crate::routes::StoreError;
use crate::text::{
    all_white, chars_of, is_white, text_of, trim, trimmed, trimming_finds_the_text,
};

verus! {

/// How often lapsed leases are looked for, in seconds.
pub const SWEEP_SECS: u64 = 15;

/// The address of GitHub's API unless it is configured.
pub const GITHUB_API_BASE: &'static str = "https://api.github.com";

/// An environment variable's value, treating unset and blank the same way.
pub fn env_value(value: Option<String>) -> (r: Option<String>)
    ensures
        match value {
            Some(v) => if trimmed(v@).len() > 0 {
                r matches Some(t) && t@ == trimmed(v@)
            } else {
                r is None
            },
            None => r is None,
        },
{
    match value {
        Some(value) => {
            let chars: Vec<char> = chars_of(value.as_str());
            let text: &[char] = trim(&chars);
            if text.len() > 0 {
                Some(text_of(text))
            } else {
                None
            }
        },
        None => None,
    }
}

/// The number in an environment variable, when it is one.
pub fn env_number(value: &str) -> (r: Option<u64>)
    ensures
        match r {
            Some(n) => unsigned_value(value@, u64::MAX as nat) == Some(n as nat),
            None => unsigned_value(value@, u64::MAX as nat) is None,
        },
{
    parse_unsigned(&chars_of(value), u64::MAX)
}

/// The seconds between two polls of pull requests, given the value of
/// `VISE_PR_POLL_INTERVAL_SECS`: a minute unless it is configured, and never
/// less than a second. `None` when the value is no number.
pub fn poll_interval_secs(value: Option<&str>) -> (r: Option<u64>)
    ensures
        match value {
            None => r == Some(60u64),
            Some(text) => match unsigned_value(text@, u64::MAX as nat) {
                Some(n) => r matches Some(secs) && secs == (if n < 1 {
                    1
                } else {
                    n
                }),
                None => r is None,
            },
        },
{
    match value {
        None => Some(60),
        Some(text) => match env_number(text) {
            Some(n) => if n < 1 {
                Some(1)
            } else {
                Some(n)
            },
            None => None,
        },
    }
}

/// What one pass of the routine scheduler did.
#[derive(Debug, Clone, Copy, PartialEq, Eq, Structural)]
pub struct RoutineReport {
    pub spawned: usize,
    pub skipped: usize,
    pub failed: usize,
}

impl Default for RoutineReport {
    fn default() -> (r: RoutineReport)
        ensures
            r == (RoutineReport { spawned: 0, skipped: 0, failed: 0 }),
    {
        RoutineReport { spawned: 0, skipped: 0, failed: 0 }
    }
}

/// Wakes every `interval_secs`, runs one scheduler pass, and spawns a session
/// per due routine.
#[derive(Debug, Clone, Copy)]
pub struct RoutineScheduler {
    pub interval_secs: u64,
}

impl RoutineScheduler {
    /// A scheduler that wakes every `interval_secs`.
    pub fn new(interval_secs: u64) -> (r: RoutineScheduler)
        ensures
            r.interval_secs == interval_secs,
    {
        RoutineScheduler { interval_secs }
    }

    /// The report of one pass, and whether it is worth logging. A pass that
    /// failed counts as one that did nothing; it is retried at the next tick.
    pub fn run_once(&self, pass: Result<RoutineReport, StoreError>) -> (r: (RoutineReport, bool))
        ensures
            match pass {
                Ok(report) => r.0 == report && r.1 == (report.spawned > 0 || report.skipped > 0
                    || report.failed > 0),
                Err(_) => r.0 == (RoutineReport { spawned: 0, skipped: 0, failed: 0 }) && r.1,
            },
    {
        match pass {
            Ok(report) => (
                report,
                report.spawned > 0 || report.skipped > 0 || report.failed > 0,
            ),
            Err(_) => (RoutineReport::default(), true),
        }
    }
}

/// A variable that is unset or blank counts for nothing; any other counts
/// without the white space around it.
pub proof fn blank_variables_are_unset(
    value: Option<String>,
    r: Option<String>,
    a: Seq<char>,
    text: Seq<char>,
    b: Seq<char>,
)
    requires
        call_ensures(env_value, (value,), r),
        all_white(a),
        all_white(b),
        text.len() > 0 ==> !is_white(text[0]) && !is_white(text.last()),
    ensures
        value is None ==> r is None,
        value matches Some(v) && v@ == a + text + b ==> match r {
            Some(t) => text.len() > 0 && t@ == text,
            None => text.len() == 0,
        },
{
    trimming_finds_the_text(a, text, b);
}

/// Pull requests are polled every minute unless a number of seconds is
/// configured, of which none counts as one.
pub proof fn polls_are_at_least_a_second_apart(value: Option<&str>, r: Option<u64>, n: u64)
    requires
        call_ensures(poll_interval_secs, (value,), r),
    ensures
        value is None ==> r == Some(60u64),
        value matches Some(text) && text@ == decimal(n as nat) ==> r == Some(
            if n == 0 {
                1u64
            } else {
                n
            },
        ),
        r matches Some(secs) ==> secs >= 1,
{
    numeral_round_trip(n as nat, u64::MAX as nat);
}

/// A pass of the scheduler is reported as it went, and is worth a line when it
/// did anything or failed.
pub proof fn passes_are_reported(
    scheduler: &RoutineScheduler,
    pass: Result<RoutineReport, StoreError>,
    r: (RoutineReport, bool),
)
    requires
        call_ensures(RoutineScheduler::run_once, (scheduler, pass), r),
    ensures
        pass matches Ok(report) ==> r.0 == report && (r.1 <==> report.spawned + report.skipped
            + report.failed > 0),
        pass is Err ==> r.0.spawned == 0 && r.0.skipped == 0 && r.0.failed == 0 && r.1,
{
}

/// A variable holds a number when it is a numeral of one.
pub proof fn numbers_in_variables_are_numerals(value: &str, r: Option<u64>, n: u64)
    requires
        call_ensures(env_number, (value,), r),
    ensures
        value@ == decimal(n as nat) ==> r == Some(n),
        r matches Some(m) ==> unsigned_value(value@, u64::MAX as nat) == Some(m as nat),
        r is None ==> unsigned_value(value@, u64::MAX as nat) is None,
{
    numeral_round_trip(n as nat, u64::MAX as nat);
}

/// A scheduler wakes as often as it is told to; leases are swept four times a
/// minute, and GitHub is asked at its public address by default.
pub proof fn background_loops_run_as_configured(interval_secs: u64, r: RoutineScheduler)
    requires
        call_ensures(RoutineScheduler::new, (interval_secs,), r),
    ensures
        r.interval_secs == interval_secs,
        4 * SWEEP_SECS == 60,
        GITHUB_API_BASE@ == "https://api.github.com"@,
{
}

} // verus!
