use vstd::prelude::*;
use vstd::string::StrSliceExecFns;
use crate::error::StatsError;

verus! {

/// Poll interval used when none is configured, in milliseconds.
pub const DEFAULT_INTERVAL_MS: u64 = 1000;

pub open spec fn is_digit(c: char) -> bool {
    '0' <= c && c <= '9'
}

pub open spec fn digit_value(c: char) -> nat {
    (c as nat - '0' as nat) as nat
}

/// The number that a string of decimal digits denotes.
pub open spec fn digits_value(s: Seq<char>) -> nat
    decreases s.len(),
{
    if s.len() == 0 {
        0
    } else {
        digits_value(s.drop_last()) * 10 + digit_value(s.last())
    }
}

pub open spec fn all_digits(s: Seq<char>) -> bool {
    forall|i: int| 0 <= i < s.len() ==> is_digit(#[trigger] s[i])
}

/// The text after an optional leading `+`.
pub open spec fn unsigned_body(s: Seq<char>) -> Seq<char> {
    if s.len() > 0 && s[0] == '+' {
        s.drop_first()
    } else {
        s
    }
}

/// An unsigned decimal as `u64` parsing reads it: an optional `+`, then one
/// or more digits, denoting a value that fits in 64 bits.
pub open spec fn decimal_u64(s: Seq<char>) -> Option<u64> {
    let body = unsigned_body(s);
    if body.len() > 0 && all_digits(body) && digits_value(body) <= u64::MAX {
        Some(digits_value(body) as u64)
    } else {
        None
    }
}

/// The poll interval that the configuration value selects.
pub open spec fn configured_interval(configured: Option<Seq<char>>) -> u64 {
    match configured {
        Some(t) => match decimal_u64(t) {
            Some(v) => v,
            None => DEFAULT_INTERVAL_MS,
        },
        None => DEFAULT_INTERVAL_MS,
    }
}

/// A longer run of digits never denotes less than its prefix.
proof fn lemma_digits_prefix(s: Seq<char>, k: int)
    requires
        0 <= k <= s.len(),
        all_digits(s),
    ensures
        digits_value(s.take(k)) <= digits_value(s),
    decreases s.len(),
{
    if k < s.len() {
        let t = s.drop_last();
        assert(t.take(k) =~= s.take(k));
        lemma_digits_prefix(t, k);
    } else {
        assert(s.take(k) =~= s);
    }
}

/// Reads `text` as an unsigned decimal number of milliseconds.
pub fn parse_interval_ms(text: &str) -> (r: Option<u64>)
    ensures
        r == decimal_u64(text@),
{
    let n = text.unicode_len();
    if n == 0 {
        return None;
    }
    let start: usize = if text.get_char(0) == '+' { 1 } else { 0 };
    let ghost body = unsigned_body(text@);
    if start == n {
        return None;
    }
    let mut value: u64 = 0;
    let mut i: usize = start;
    while i < n
        invariant
            n == text@.len(),
            start <= i <= n,
            body == unsigned_body(text@),
            body == text@.subrange(start as int, n as int),
            forall|j: int| 0 <= j < i - start ==> is_digit(#[trigger] body[j]),
            value == digits_value(body.take(i - start)),
        decreases n - i,
    {
        let c = text.get_char(i);
        assert(body[i - start] == c);
        if c < '0' || c > '9' {
            assert(!is_digit(body[i - start]));
            assert(!all_digits(body));
            return None;
        }
        let d = (c as u32 - '0' as u32) as u64;
        assert(body.take(i - start + 1).drop_last() =~= body.take(i - start));
        assert(body.take(i - start + 1).last() == c);
        assert(digit_value(c) == d);
        if value > (u64::MAX - d) / 10 {
            proof {
                let (v, dd) = (value as int, d as int);
                assert(v * 10 + dd > u64::MAX) by (nonlinear_arith)
                    requires v > (u64::MAX - dd) / 10, 0 <= dd <= 9;
                if all_digits(body) {
                    lemma_digits_prefix(body, i - start + 1);
                }
            }
            return None;
        }
        value = value * 10 + d;
        i = i + 1;
    }
    assert(body.take(n - start) =~= body);
    Some(value)
}

/// The poll interval: the configured value when it reads as a number of
/// milliseconds, else one second.
pub fn interval_from_config(configured: Option<&str>) -> (r: u64)
    ensures
        r == configured_interval(
            match configured {
                Some(t) => Some(t@),
                None => None,
            },
        ),
{
    match configured {
        Some(t) => match parse_interval_ms(t) {
            Some(v) => v,
            None => DEFAULT_INTERVAL_MS,
        },
        None => DEFAULT_INTERVAL_MS,
    }
}

/// Whether an engine's background polling is meant to run.
#[derive(Clone, Copy, Debug, PartialEq, Eq, Structural)]
pub enum EngineState {
    Stopped,
    Running,
}

/// The start/stop control of a polling engine. It starts `Stopped`; `start`
/// is accepted only from `Stopped`, `stop` from any state.
pub struct EngineControl {
    state: EngineState,
}

impl EngineControl {
    pub closed spec fn state(&self) -> EngineState {
        self.state
    }

    pub fn new() -> (r: EngineControl)
        ensures
            r.state() == EngineState::Stopped,
    {
        EngineControl { state: EngineState::Stopped }
    }

    /// Moves to `Running`; fails with `EngineAlreadyRunning` if it is running
    /// already, changing nothing.
    pub fn start(&mut self) -> (r: Result<(), StatsError>)
        ensures
            final(self).state() == EngineState::Running,
            old(self).state() == EngineState::Stopped ==> r is Ok,
            old(self).state() == EngineState::Running ==> r == Err::<(), StatsError>(
                StatsError::EngineAlreadyRunning,
            ),
    {
        match self.state {
            EngineState::Running => Err(StatsError::EngineAlreadyRunning),
            EngineState::Stopped => {
                self.state = EngineState::Running;
                Ok(())
            },
        }
    }

    /// Moves to `Stopped`. The loop sees this only when it next wakes.
    pub fn stop(&mut self)
        ensures
            final(self).state() == EngineState::Stopped,
    {
        self.state = EngineState::Stopped;
    }

    pub fn is_running(&self) -> (r: bool)
        ensures
            r == (self.state() == EngineState::Running),
    {
        self.state == EngineState::Running
    }

    /// Succeeds exactly while the engine is running: the background loop is
    /// then the one that refreshes the statistics.
    pub fn update_stats(&self) -> (r: Result<(), StatsError>)
        ensures
            self.state() == EngineState::Running ==> r is Ok,
            self.state() == EngineState::Stopped ==> r == Err::<(), StatsError>(
                StatsError::EngineNotRunning,
            ),
    {
        match self.state {
            EngineState::Running => Ok(()),
            EngineState::Stopped => Err(StatsError::EngineNotRunning),
        }
    }
}

/// Where the background loop stands.
#[derive(Clone, Copy, Debug, PartialEq, Eq, Structural)]
pub enum LoopPhase {
    /// Waiting out the interval before the next pass.
    Waiting,
    /// Running one pass with exclusive access to the statistics.
    Polling,
    /// Gone: the loop has seen that the engine stopped.
    Finished,
}

/// What the host does next on behalf of the loop.
#[derive(Clone, Copy, Debug, PartialEq, Eq, Structural)]
pub enum LoopAction {
    /// Wait this many milliseconds, then report with `on_woken`.
    Sleep(u64),
    /// Run one polling pass, then report with `on_polled`.
    Poll,
    /// Leave the loop.
    Exit,
    /// End the process: a module and its accumulator are of different kinds,
    /// a configuration error that no later pass can mend.
    Abort,
}

/// The decisions of the background polling loop: wait an interval, check
/// the running flag, poll, and again. A failed pass is reported and the loop
/// goes on; only a stop ends it.
pub struct PollLoop {
    interval_ms: u64,
    phase: LoopPhase,
}

impl PollLoop {
    pub closed spec fn interval(&self) -> u64 {
        self.interval_ms
    }

    pub closed spec fn phase(&self) -> LoopPhase {
        self.phase
    }

    /// A loop that waits `interval_ms` between passes; it begins by waiting.
    pub fn new(interval_ms: u64) -> (r: PollLoop)
        ensures
            r.interval() == interval_ms,
            r.phase() == LoopPhase::Waiting,
    {
        PollLoop { interval_ms, phase: LoopPhase::Waiting }
    }

    /// The first action: wait one interval.
    pub fn first_action(&self) -> (r: LoopAction)
        ensures
            r == LoopAction::Sleep(self.interval()),
    {
        LoopAction::Sleep(self.interval_ms)
    }

    /// After the wait, with the running flag as read (or the failure to read
    /// it): poll if the engine still runs, else leave.
    pub fn on_woken(&mut self, running: Result<bool, StatsError>) -> (r: LoopAction)
        requires
            old(self).phase() == LoopPhase::Waiting,
        ensures
            final(self).interval() == old(self).interval(),
            running == Ok::<bool, StatsError>(true) ==> r == LoopAction::Poll && final(self).phase()
                == LoopPhase::Polling,
            running != Ok::<bool, StatsError>(true) ==> r == LoopAction::Exit && final(self).phase()
                == LoopPhase::Finished,
    {
        match running {
            Ok(true) => {
                self.phase = LoopPhase::Polling;
                LoopAction::Poll
            },
            _ => {
                self.phase = LoopPhase::Finished;
                LoopAction::Exit
            },
        }
    }

    /// After a pass: wait for the next one, whether the pass succeeded or
    /// failed, except on a kind mismatch, which ends everything.
    pub fn on_polled(&mut self, outcome: &Result<(), StatsError>) -> (r: LoopAction)
        requires
            old(self).phase() == LoopPhase::Polling,
        ensures
            final(self).interval() == old(self).interval(),
            *outcome == Err::<(), StatsError>(StatsError::TypeMismatch) ==> r == LoopAction::Abort
                && final(self).phase() == LoopPhase::Finished,
            *outcome != Err::<(), StatsError>(StatsError::TypeMismatch) ==> r == LoopAction::Sleep(
                old(self).interval(),
            ) && final(self).phase() == LoopPhase::Waiting,
    {
        match outcome {
            Err(StatsError::TypeMismatch) => {
                self.phase = LoopPhase::Finished;
                LoopAction::Abort
            },
            _ => {
                self.phase = LoopPhase::Waiting;
                LoopAction::Sleep(self.interval_ms)
            },
        }
    }
}

} // verus!
