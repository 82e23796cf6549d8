use crate::condition::{Condition, ElementRead, ReadView, Verdict};
use crate::poller::{options_of, pacing_delay, stop_after_failure, ElementPoller, PollOptions};
use crate::query::{named_pairs, NamedValue};
use crate::text_match::TextMatch;
use vstd::prelude::*;

verus! {

/// Waits, with retries, for a condition on one element to become true (or false).
///
/// The element itself is held by the caller.
pub struct ElementWaiter {
    pub poller: ElementPoller,
    /// Wait for the condition to be false rather than true.
    pub inverted: bool,
    /// The message of the timeout error.
    pub message: String,
}

impl ElementWaiter {
    /// A waiter under `poller` whose timeout error says `message`.
    pub fn new(poller: ElementPoller, message: &str) -> (r: Self)
        ensures
            r.poller == poller,
            !r.inverted,
            r.message@ == message@,
    {
        ElementWaiter { poller, inverted: false, message: message.to_owned() }
    }

    /// Use `poller` for this wait only.
    pub fn with_poller(self, poller: ElementPoller) -> (r: Self)
        ensures
            r.poller == poller,
            r.inverted == self.inverted,
            r.message == self.message,
    {
        ElementWaiter { poller, ..self }
    }

    /// Poll until `timeout` milliseconds have elapsed, once per `interval`.
    pub fn wait(self, timeout: u64, interval: u64) -> (r: Self)
        ensures
            r.poller == ElementPoller::TimeoutWithInterval(timeout, interval),
            r.inverted == self.inverted,
            r.message == self.message,
    {
        self.with_poller(ElementPoller::TimeoutWithInterval(timeout, interval))
    }

    /// Go on to choose the condition.
    pub fn until(self) -> (r: ElementWaitCondition)
        ensures
            r.waiter == self,
            r.ignore_errors,
    {
        ElementWaitCondition::new(self)
    }

    /// Whether a condition value counts as success.
    pub fn check(&self, value: bool) -> (r: bool)
        ensures
            r == (value != self.inverted),
    {
        if self.inverted {
            !value
        } else {
            value
        }
    }
}

/// A waiter with its error policy, ready for a condition.
pub struct ElementWaitCondition {
    pub waiter: ElementWaiter,
    /// A condition whose read fails counts as not met (true), or ends the wait
    /// with the error (false).
    pub ignore_errors: bool,
}

/// What a wait run waits for.
#[derive(Debug, Clone, Copy, PartialEq, Eq, Structural)]
pub enum WaitPhase {
    AwaitVerdict,
    AwaitWake,
    Finished,
}

/// How a wait ended.
pub enum WaitResult {
    Satisfied,
    /// The policy ran out; the waiter's message.
    Timeout(String),
    /// A read of the condition failed and errors are not ignored.
    Failed,
}

/// A wait result, with a sequence in place of the message string.
pub enum WaitResultView {
    Satisfied,
    Timeout(Seq<char>),
    Failed,
}

impl View for WaitResult {
    type V = WaitResultView;

    open spec fn view(&self) -> WaitResultView {
        match self {
            WaitResult::Satisfied => WaitResultView::Satisfied,
            WaitResult::Timeout(m) => WaitResultView::Timeout(m@),
            WaitResult::Failed => WaitResultView::Failed,
        }
    }
}

/// What a wait run asks its caller to do next.
pub enum WaitAction {
    /// Evaluate the run's condition on the element, then call `on_verdict`.
    Check,
    /// Sleep this many milliseconds, then call `on_wake`.
    Sleep(u64),
    /// The wait is over.
    Done(WaitResult),
}

/// A wait action, with a sequence in place of the message string.
pub enum WaitActionView {
    Check,
    Sleep(nat),
    Done(WaitResultView),
}

impl View for WaitAction {
    type V = WaitActionView;

    open spec fn view(&self) -> WaitActionView {
        match self {
            WaitAction::Check => WaitActionView::Check,
            WaitAction::Sleep(d) => WaitActionView::Sleep(*d as nat),
            WaitAction::Done(r) => WaitActionView::Done(r@),
        }
    }
}

/// The state of one run of a wait's poll loop.
pub struct WaitRun {
    pub condition: Condition,
    pub options: PollOptions,
    pub inverted: bool,
    pub ignore_errors: bool,
    pub message: String,
    /// The number of the current attempt, from 1 (it stays at the largest `u64`
    /// once it gets there).
    pub tries: u64,
    pub phase: WaitPhase,
}

/// A wait run without its condition, with a sequence in place of the message.
pub struct WaitRunView {
    pub options: PollOptions,
    pub inverted: bool,
    pub ignore_errors: bool,
    pub message: Seq<char>,
    pub tries: nat,
    pub phase: WaitPhase,
}

impl View for WaitRun {
    type V = WaitRunView;

    open spec fn view(&self) -> WaitRunView {
        WaitRunView {
            options: self.options,
            inverted: self.inverted,
            ignore_errors: self.ignore_errors,
            message: self.message@,
            tries: self.tries as nat,
            phase: self.phase,
        }
    }
}

/// The run's phase is the one that its last action leads to.
pub open spec fn wait_awaits(s: WaitRunView, a: WaitActionView) -> bool {
    match a {
        WaitActionView::Check => s.phase == WaitPhase::AwaitVerdict,
        WaitActionView::Sleep(_) => s.phase == WaitPhase::AwaitWake,
        WaitActionView::Done(_) => s.phase == WaitPhase::Finished,
    }
}

/// The first state of a wait, and its first action: evaluate the condition.
pub open spec fn wait_start(
    options: PollOptions,
    inverted: bool,
    ignore_errors: bool,
    message: Seq<char>,
) -> (WaitRunView, WaitActionView) {
    (
        WaitRunView { options, inverted, ignore_errors, message, tries: 1, phase: WaitPhase::AwaitVerdict },
        WaitActionView::Check,
    )
}

/// The wait ends with `result`.
pub open spec fn wait_finish(s: WaitRunView, result: WaitResultView) -> (WaitRunView, WaitActionView) {
    (WaitRunView { phase: WaitPhase::Finished, ..s }, WaitActionView::Done(result))
}

/// The next attempt: evaluate the condition again.
pub open spec fn wait_next_attempt(s: WaitRunView) -> (WaitRunView, WaitActionView) {
    (
        WaitRunView {
            tries: if s.tries < u64::MAX { s.tries + 1 } else { s.tries },
            phase: WaitPhase::AwaitVerdict,
            ..s
        },
        WaitActionView::Check,
    )
}

/// The attempt failed, at `elapsed` milliseconds: stop, sleep or try again.
pub open spec fn wait_attempt_failed(s: WaitRunView, elapsed: nat) -> (WaitRunView, WaitActionView) {
    if stop_after_failure(s.options, s.tries, elapsed) {
        wait_finish(s, WaitResultView::Timeout(s.message))
    } else if pacing_delay(s.options, s.tries, elapsed) > 0 {
        (
            WaitRunView { phase: WaitPhase::AwaitWake, ..s },
            WaitActionView::Sleep(pacing_delay(s.options, s.tries, elapsed)),
        )
    } else {
        wait_next_attempt(s)
    }
}

/// Whether an attempt whose condition gave `v` fails without ending the wait:
/// the value is not the awaited one, or the read failed and errors are ignored.
pub open spec fn attempt_misses(s: WaitRunView, v: Verdict) -> bool {
    match v {
        Verdict::Holds(b) => b == s.inverted,
        Verdict::Failed => s.ignore_errors,
    }
}

/// The condition gave `v`, at `elapsed` milliseconds.
pub open spec fn wait_on_verdict(s: WaitRunView, v: Verdict, elapsed: nat) -> (WaitRunView, WaitActionView) {
    match v {
        Verdict::Holds(b) => {
            if b != s.inverted {
                wait_finish(s, WaitResultView::Satisfied)
            } else {
                wait_attempt_failed(s, elapsed)
            }
        },
        Verdict::Failed => {
            if s.ignore_errors {
                wait_attempt_failed(s, elapsed)
            } else {
                wait_finish(s, WaitResultView::Failed)
            }
        },
    }
}

impl WaitRun {
    fn finish(self, result: WaitResult) -> (r: (WaitRun, WaitAction))
        ensures
            (r.0@, r.1@) == wait_finish(self@, result@),
            r.0.condition == self.condition,
    {
        (WaitRun { phase: WaitPhase::Finished, ..self }, WaitAction::Done(result))
    }

    fn next_attempt(self) -> (r: (WaitRun, WaitAction))
        ensures
            (r.0@, r.1@) == wait_next_attempt(self@),
            r.0.condition == self.condition,
    {
        let tries = if self.tries < u64::MAX {
            self.tries + 1
        } else {
            self.tries
        };
        (WaitRun { tries, phase: WaitPhase::AwaitVerdict, ..self }, WaitAction::Check)
    }

    fn attempt_failed(self, elapsed: u64) -> (r: (WaitRun, WaitAction))
        ensures
            (r.0@, r.1@) == wait_attempt_failed(self@, elapsed as nat),
            r.0.condition == self.condition,
    {
        if self.options.stop_after_failure(self.tries, elapsed) {
            let message = self.message.clone();
            self.finish(WaitResult::Timeout(message))
        } else {
            let delay = self.options.pacing_delay(self.tries, elapsed);
            if delay > 0 {
                (WaitRun { phase: WaitPhase::AwaitWake, ..self }, WaitAction::Sleep(delay))
            } else {
                self.next_attempt()
            }
        }
    }

    /// Take the verdict of the condition check that the run asked for, made when
    /// `elapsed` milliseconds had passed since the run started.
    pub fn on_verdict(self, v: Verdict, elapsed: u64) -> (r: (WaitRun, WaitAction))
        requires
            self.phase == WaitPhase::AwaitVerdict,
        ensures
            (r.0@, r.1@) == wait_on_verdict(self@, v, elapsed as nat),
            r.0.condition == self.condition,
            wait_awaits(r.0@, r.1@),
    {
        match v {
            Verdict::Holds(b) => {
                if b != self.inverted {
                    self.finish(WaitResult::Satisfied)
                } else {
                    self.attempt_failed(elapsed)
                }
            },
            Verdict::Failed => {
                if self.ignore_errors {
                    self.attempt_failed(elapsed)
                } else {
                    self.finish(WaitResult::Failed)
                }
            },
        }
    }

    /// The sleep that the run asked for is over: the next attempt starts.
    pub fn on_wake(self) -> (r: (WaitRun, WaitAction))
        requires
            self.phase == WaitPhase::AwaitWake,
        ensures
            (r.0@, r.1@) == wait_next_attempt(self@),
            r.0.condition == self.condition,
            wait_awaits(r.0@, r.1@),
    {
        self.next_attempt()
    }
}

/// `r` is the start of a wait of `w` under the waiter's poller, for the
/// condition's value to differ from `inverted` (a waiter that is itself inverted
/// flips that once more).
pub open spec fn starts_wait(w: ElementWaitCondition, inverted: bool, r: (WaitRun, WaitAction)) -> bool {
    (r.0@, r.1@) == wait_start(
        options_of(w.waiter.poller),
        w.waiter.inverted != inverted,
        w.ignore_errors,
        w.waiter.message@,
    )
}

/// `c` holds when the flag `read` is true.
pub open spec fn is_state(c: Condition, read: ReadView) -> bool {
    c matches Condition::State(r) && r@ == read
}

/// `c` holds when the values read, in order, match their patterns.
pub open spec fn is_values(c: Condition, pairs: Seq<(ReadView, TextMatch)>) -> bool {
    c matches Condition::Values(v) && v@.len() == pairs.len() && forall|i: int|
        0 <= i < pairs.len() ==> (#[trigger] v@[i]).0@ == pairs[i].0 && v@[i].1 == pairs[i].1
}

fn state_condition(read: ElementRead) -> (c: Condition)
    ensures
        is_state(c, read@),
{
    Condition::State(read)
}

fn single_value_condition(read: ElementRead, pattern: TextMatch) -> (c: Condition)
    ensures
        is_values(c, seq![(read@, pattern)]),
{
    let ghost rv = read@;
    let ghost pv = pattern;
    let mut pairs: Vec<(ElementRead, TextMatch)> = Vec::new();
    pairs.push((read, pattern));
    assert(pairs@.len() == 1 && pairs@[0].0@ == rv && pairs@[0].1 == pv);
    Condition::Values(pairs)
}

fn named_condition(kind: NamedValue, wanted: Vec<(String, TextMatch)>) -> (c: Condition)
    ensures
        is_values(c, named_pairs(kind, wanted@)),
{
    crate::query::named_values_filter(kind, wanted).condition
}

impl ElementWaitCondition {
    /// A condition step for `waiter` that ignores errors of the condition's reads.
    pub fn new(waiter: ElementWaiter) -> (r: Self)
        ensures
            r.waiter == waiter,
            r.ignore_errors,
    {
        ElementWaitCondition { waiter, ignore_errors: true }
    }

    /// Whether a failed read counts as "not yet" (true) or ends the wait (false).
    pub fn ignore_errors(self, ignore: bool) -> (r: Self)
        ensures
            r.waiter == self.waiter,
            r.ignore_errors == ignore,
    {
        ElementWaitCondition { ignore_errors: ignore, ..self }
    }

    fn start(self, condition: Condition, inverted: bool) -> (r: (WaitRun, WaitAction))
        ensures
            starts_wait(self, inverted, r),
            r.0.condition == condition,
    {
        let ElementWaitCondition { waiter, ignore_errors } = self;
        let ElementWaiter { poller, inverted: flipped, message } = waiter;
        (
            WaitRun {
                condition,
                options: poller.options(),
                inverted: flipped != inverted,
                ignore_errors,
                message,
                tries: 1,
                phase: WaitPhase::AwaitVerdict,
            },
            WaitAction::Check,
        )
    }

    /// Wait until the caller's `condition` holds.
    pub fn condition(self, condition: Condition) -> (r: (WaitRun, WaitAction))
        ensures
            starts_wait(self, false, r),
            r.0.condition == condition,
    {
        self.start(condition, false)
    }

    /// Wait until the element is no longer present in the page.
    pub fn stale(self) -> (r: (WaitRun, WaitAction))
        ensures
            starts_wait(self, true, r),
            is_state(r.0.condition, ReadView::Present),
    {
        self.start(state_condition(ElementRead::Present), true)
    }

    /// Wait until the element is displayed.
    pub fn displayed(self) -> (r: (WaitRun, WaitAction))
        ensures
            starts_wait(self, false, r),
            is_state(r.0.condition, ReadView::Displayed),
    {
        self.start(state_condition(ElementRead::Displayed), false)
    }

    /// Wait until the element is not displayed.
    pub fn not_displayed(self) -> (r: (WaitRun, WaitAction))
        ensures
            starts_wait(self, true, r),
            is_state(r.0.condition, ReadView::Displayed),
    {
        self.start(state_condition(ElementRead::Displayed), true)
    }

    /// Wait until the element is selected.
    pub fn selected(self) -> (r: (WaitRun, WaitAction))
        ensures
            starts_wait(self, false, r),
            is_state(r.0.condition, ReadView::Selected),
    {
        self.start(state_condition(ElementRead::Selected), false)
    }

    /// Wait until the element is not selected.
    pub fn not_selected(self) -> (r: (WaitRun, WaitAction))
        ensures
            starts_wait(self, true, r),
            is_state(r.0.condition, ReadView::Selected),
    {
        self.start(state_condition(ElementRead::Selected), true)
    }

    /// Wait until the element is enabled.
    pub fn enabled(self) -> (r: (WaitRun, WaitAction))
        ensures
            starts_wait(self, false, r),
            is_state(r.0.condition, ReadView::Enabled),
    {
        self.start(state_condition(ElementRead::Enabled), false)
    }

    /// Wait until the element is not enabled.
    pub fn not_enabled(self) -> (r: (WaitRun, WaitAction))
        ensures
            starts_wait(self, true, r),
            is_state(r.0.condition, ReadView::Enabled),
    {
        self.start(state_condition(ElementRead::Enabled), true)
    }

    /// Wait until the element is clickable.
    pub fn clickable(self) -> (r: (WaitRun, WaitAction))
        ensures
            starts_wait(self, false, r),
            is_state(r.0.condition, ReadView::Clickable),
    {
        self.start(state_condition(ElementRead::Clickable), false)
    }

    /// Wait until the element is not clickable.
    pub fn not_clickable(self) -> (r: (WaitRun, WaitAction))
        ensures
            starts_wait(self, true, r),
            is_state(r.0.condition, ReadView::Clickable),
    {
        self.start(state_condition(ElementRead::Clickable), true)
    }

    /// Wait until the element's attribute matches `value`.
    pub fn has_attribute(self, attribute_name: &str, value: TextMatch) -> (r: (WaitRun, WaitAction))
        ensures
            starts_wait(self, false, r),
            is_values(r.0.condition, seq![(ReadView::Attribute(attribute_name@), value)]),
    {
        self.start(single_value_condition(ElementRead::Attribute(attribute_name.to_owned()), value), false)
    }

    /// Wait until the element's attribute no longer matches `value`.
    pub fn has_not_attribute(self, attribute_name: &str, value: TextMatch) -> (r: (WaitRun, WaitAction))
        ensures
            starts_wait(self, true, r),
            is_values(r.0.condition, seq![(ReadView::Attribute(attribute_name@), value)]),
    {
        self.start(single_value_condition(ElementRead::Attribute(attribute_name.to_owned()), value), true)
    }

    /// Wait until each named attribute matches its pattern.
    pub fn has_attributes(self, desired_attributes: Vec<(String, TextMatch)>) -> (r: (WaitRun, WaitAction))
        ensures
            starts_wait(self, false, r),
            is_values(r.0.condition, named_pairs(NamedValue::Attribute, desired_attributes@)),
    {
        self.start(named_condition(NamedValue::Attribute, desired_attributes), false)
    }

    /// Wait until not every named attribute matches its pattern.
    pub fn has_not_attributes(self, desired_attributes: Vec<(String, TextMatch)>) -> (r: (WaitRun, WaitAction))
        ensures
            starts_wait(self, true, r),
            is_values(r.0.condition, named_pairs(NamedValue::Attribute, desired_attributes@)),
    {
        self.start(named_condition(NamedValue::Attribute, desired_attributes), true)
    }

    /// Wait until the element's property matches `value`.
    pub fn has_property(self, property_name: &str, value: TextMatch) -> (r: (WaitRun, WaitAction))
        ensures
            starts_wait(self, false, r),
            is_values(r.0.condition, seq![(ReadView::Property(property_name@), value)]),
    {
        self.start(single_value_condition(ElementRead::Property(property_name.to_owned()), value), false)
    }

    /// Wait until the element's property no longer matches `value`.
    pub fn has_not_property(self, property_name: &str, value: TextMatch) -> (r: (WaitRun, WaitAction))
        ensures
            starts_wait(self, true, r),
            is_values(r.0.condition, seq![(ReadView::Property(property_name@), value)]),
    {
        self.start(single_value_condition(ElementRead::Property(property_name.to_owned()), value), true)
    }

    /// Wait until each named property matches its pattern.
    pub fn has_properties(self, desired_properties: Vec<(String, TextMatch)>) -> (r: (WaitRun, WaitAction))
        ensures
            starts_wait(self, false, r),
            is_values(r.0.condition, named_pairs(NamedValue::Property, desired_properties@)),
    {
        self.start(named_condition(NamedValue::Property, desired_properties), false)
    }

    /// Wait until not every named property matches its pattern.
    pub fn has_not_properties(self, desired_properties: Vec<(String, TextMatch)>) -> (r: (WaitRun, WaitAction))
        ensures
            starts_wait(self, true, r),
            is_values(r.0.condition, named_pairs(NamedValue::Property, desired_properties@)),
    {
        self.start(named_condition(NamedValue::Property, desired_properties), true)
    }

    /// Wait until the element's CSS property matches `value`.
    pub fn has_css_property(self, css_property_name: &str, value: TextMatch) -> (r: (WaitRun, WaitAction))
        ensures
            starts_wait(self, false, r),
            is_values(r.0.condition, seq![(ReadView::CssProperty(css_property_name@), value)]),
    {
        self.start(single_value_condition(ElementRead::CssProperty(css_property_name.to_owned()), value), false)
    }

    /// Wait until the element's CSS property no longer matches `value`.
    pub fn has_not_css_property(self, css_property_name: &str, value: TextMatch) -> (r: (WaitRun, WaitAction))
        ensures
            starts_wait(self, true, r),
            is_values(r.0.condition, seq![(ReadView::CssProperty(css_property_name@), value)]),
    {
        self.start(single_value_condition(ElementRead::CssProperty(css_property_name.to_owned()), value), true)
    }

    /// Wait until each named CSS property matches its pattern.
    pub fn has_css_properties(self, desired_css_properties: Vec<(String, TextMatch)>) -> (r: (WaitRun, WaitAction))
        ensures
            starts_wait(self, false, r),
            is_values(r.0.condition, named_pairs(NamedValue::CssProperty, desired_css_properties@)),
    {
        self.start(named_condition(NamedValue::CssProperty, desired_css_properties), false)
    }

    /// Wait until not every named CSS property matches its pattern.
    pub fn has_not_css_properties(self, desired_css_properties: Vec<(String, TextMatch)>) -> (r: (WaitRun, WaitAction))
        ensures
            starts_wait(self, true, r),
            is_values(r.0.condition, named_pairs(NamedValue::CssProperty, desired_css_properties@)),
    {
        self.start(named_condition(NamedValue::CssProperty, desired_css_properties), true)
    }
}

} // verus!
