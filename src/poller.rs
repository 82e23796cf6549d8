use vstd::prelude::*;

verus! {

/// How long a query or a wait keeps trying, and at what cadence.
///
/// Every duration is a number of milliseconds.
#[derive(Debug, Clone, Copy, PartialEq, Eq, Structural)]
pub enum ElementPoller {
    /// A single attempt, no waiting.
    NoWait,
    /// Poll until the timeout (first field) has elapsed since the first attempt
    /// started; attempts start no more often than once per interval (second field).
    TimeoutWithInterval(u64, u64),
    /// Poll until exactly this many attempts have been made, whatever the time,
    /// once per interval (second field).
    NumTriesWithInterval(u32, u64),
    /// Poll until both the timeout (first field) has elapsed and at least the given
    /// number of attempts (third field) have been made, once per interval.
    TimeoutWithIntervalAndMinTries(u64, u64, u32),
}

/// The three quantities that the pacing algorithm reads from a poller.
#[derive(Debug, Clone, Copy, PartialEq, Eq, Structural)]
pub struct PollOptions {
    /// Stop, once `min_tries` is met, when this many milliseconds have elapsed.
    /// `None`: stop as soon as `min_tries` is met.
    pub timeout: Option<u64>,
    /// Attempt `k + 1` starts no earlier than `k * interval` after the first.
    /// `None`: never sleep.
    pub interval: Option<u64>,
    /// The number of attempts that are always made.
    pub min_tries: u32,
}

/// The timeout, interval and minimum number of tries of a policy.
pub open spec fn options_of(p: ElementPoller) -> PollOptions {
    match p {
        ElementPoller::NoWait => PollOptions { timeout: None, interval: None, min_tries: 0 },
        ElementPoller::TimeoutWithInterval(t, i) => PollOptions {
            timeout: Some(t),
            interval: Some(i),
            min_tries: 0,
        },
        ElementPoller::NumTriesWithInterval(n, i) => PollOptions {
            timeout: None,
            interval: Some(i),
            min_tries: n,
        },
        ElementPoller::TimeoutWithIntervalAndMinTries(t, i, m) => PollOptions {
            timeout: Some(t),
            interval: Some(i),
            min_tries: m,
        },
    }
}

/// The options of a single attempt with no waiting.
pub open spec fn no_wait_options() -> PollOptions {
    PollOptions { timeout: None, interval: None, min_tries: 0 }
}

/// The deadline has passed and enough attempts have been made
/// (only policies with a timeout have a deadline).
pub open spec fn deadline_passed(o: PollOptions, tries: nat, elapsed: nat) -> bool {
    match o.timeout {
        Some(t) => elapsed >= t && tries >= o.min_tries,
        None => false,
    }
}

/// After a failed attempt number `tries`, at `elapsed` milliseconds since the
/// first attempt started: the policy is exhausted.
pub open spec fn stop_after_failure(o: PollOptions, tries: nat, elapsed: nat) -> bool {
    match o.timeout {
        Some(t) => elapsed >= t && tries >= o.min_tries,
        None => tries >= o.min_tries,
    }
}

/// How long to sleep after failed attempt number `tries`, at `elapsed`
/// milliseconds: until `interval * tries` after the start, if that lies ahead
/// (capped at the largest `u64`).
pub open spec fn pacing_delay(o: PollOptions, tries: nat, elapsed: nat) -> nat {
    match o.interval {
        Some(i) => {
            let target = i * tries;
            if elapsed < target {
                if target - elapsed <= u64::MAX {
                    (target - elapsed) as nat
                } else {
                    u64::MAX as nat
                }
            } else {
                0
            }
        },
        None => 0,
    }
}

impl ElementPoller {
    /// The timeout, interval and minimum number of attempts of this policy.
    pub fn options(&self) -> (r: PollOptions)
        ensures
            r == options_of(*self),
    {
        match *self {
            ElementPoller::NoWait => PollOptions::no_wait(),
            ElementPoller::TimeoutWithInterval(t, i) => PollOptions {
                timeout: Some(t),
                interval: Some(i),
                min_tries: 0,
            },
            ElementPoller::NumTriesWithInterval(n, i) => PollOptions {
                timeout: None,
                interval: Some(i),
                min_tries: n,
            },
            ElementPoller::TimeoutWithIntervalAndMinTries(t, i, m) => PollOptions {
                timeout: Some(t),
                interval: Some(i),
                min_tries: m,
            },
        }
    }
}

impl PollOptions {
    /// A single attempt, no waiting.
    pub fn no_wait() -> (r: PollOptions)
        ensures
            r == no_wait_options(),
    {
        PollOptions { timeout: None, interval: None, min_tries: 0 }
    }

    /// Whether the deadline has passed after attempt number `tries`.
    pub fn deadline_passed(&self, tries: u64, elapsed: u64) -> (r: bool)
        ensures
            r == deadline_passed(*self, tries as nat, elapsed as nat),
    {
        match self.timeout {
            Some(t) => elapsed >= t && tries >= self.min_tries as u64,
            None => false,
        }
    }

    /// Whether the policy is exhausted after failed attempt number `tries`.
    pub fn stop_after_failure(&self, tries: u64, elapsed: u64) -> (r: bool)
        ensures
            r == stop_after_failure(*self, tries as nat, elapsed as nat),
    {
        match self.timeout {
            Some(t) => elapsed >= t && tries >= self.min_tries as u64,
            None => tries >= self.min_tries as u64,
        }
    }

    /// How long to sleep before the attempt that follows attempt number `tries`.
    pub fn pacing_delay(&self, tries: u64, elapsed: u64) -> (r: u64)
        ensures
            r as nat == pacing_delay(*self, tries as nat, elapsed as nat),
    {
        match self.interval {
            Some(i) => {
                assert((i as nat) * (tries as nat) <= (u64::MAX as nat) * (u64::MAX as nat))
                    by (nonlinear_arith);
                let target: u128 = (i as u128) * (tries as u128);
                if (elapsed as u128) < target {
                    let gap: u128 = target - (elapsed as u128);
                    if gap <= u64::MAX as u128 {
                        gap as u64
                    } else {
                        u64::MAX
                    }
                } else {
                    0
                }
            },
            None => 0,
        }
    }
}

} // verus!
