use thirtyfour_query::{
    Condition, ConditionStep, ElementPoller, ElementRead, ElementWaitCondition, ElementWaiter,
    ReadAnswer, TextMatch, Verdict, WaitAction, WaitResult, WaitRun,
};

struct Trace {
    result: WaitResult,
    checks: usize,
    sleeps: Vec<u64>,
    now: u64,
}

/// Runs a wait whose `n`-th check (from 0) gives `verdict(n)`; checks take no
/// time and sleeps advance the clock exactly.
fn drive(start: (WaitRun, WaitAction), verdict: &dyn Fn(usize) -> Verdict) -> Trace {
    let (mut run, mut action) = start;
    let mut trace = Trace { result: WaitResult::Failed, checks: 0, sleeps: Vec::new(), now: 0 };
    for _ in 0..10_000 {
        let (next_run, next_action) = match action {
            WaitAction::Check => {
                let v = verdict(trace.checks);
                trace.checks += 1;
                run.on_verdict(v, trace.now)
            }
            WaitAction::Sleep(d) => {
                trace.sleeps.push(d);
                trace.now += d;
                run.on_wake()
            }
            WaitAction::Done(result) => {
                trace.result = result;
                return trace;
            }
        };
        run = next_run;
        action = next_action;
    }
    panic!("the wait did not end");
}

fn waiter(poller: ElementPoller) -> ElementWaitCondition {
    ElementWaiter::new(poller, "element never showed up").until()
}

#[test]
fn displayed_succeeds_on_the_third_check() {
    let t = drive(
        waiter(ElementPoller::NumTriesWithInterval(5, 100)).displayed(),
        &|n| Verdict::Holds(n >= 2),
    );
    assert!(matches!(t.result, WaitResult::Satisfied));
    assert_eq!(t.checks, 3);
    assert_eq!(t.sleeps, vec![100, 100]);
}

#[test]
fn timeout_carries_the_message() {
    let t = drive(waiter(ElementPoller::TimeoutWithInterval(250, 100)).enabled(), &|_| Verdict::Holds(false));
    match t.result {
        WaitResult::Timeout(m) => assert_eq!(m, "element never showed up"),
        _ => panic!("expected a timeout"),
    }
    assert_eq!(t.now, 300);
    assert_eq!(t.checks, 4);
}

#[test]
fn not_displayed_succeeds_where_displayed_times_out() {
    let shown = |_| Verdict::Holds(false);
    let plain = drive(waiter(ElementPoller::NumTriesWithInterval(3, 10)).displayed(), &shown);
    let inverted = drive(waiter(ElementPoller::NumTriesWithInterval(3, 10)).not_displayed(), &shown);
    assert!(matches!(plain.result, WaitResult::Timeout(_)));
    assert!(matches!(inverted.result, WaitResult::Satisfied));

    let shown = |_| Verdict::Holds(true);
    let plain = drive(waiter(ElementPoller::NumTriesWithInterval(3, 10)).selected(), &shown);
    let inverted = drive(waiter(ElementPoller::NumTriesWithInterval(3, 10)).not_selected(), &shown);
    assert!(matches!(plain.result, WaitResult::Satisfied));
    assert!(matches!(inverted.result, WaitResult::Timeout(_)));
}

#[test]
fn ignored_errors_end_in_timeout() {
    let t = drive(waiter(ElementPoller::NumTriesWithInterval(4, 10)).clickable(), &|_| Verdict::Failed);
    assert!(matches!(t.result, WaitResult::Timeout(_)));
    assert_eq!(t.checks, 4);

    let t = drive(waiter(ElementPoller::NumTriesWithInterval(4, 10)).not_clickable(), &|_| Verdict::Failed);
    assert!(matches!(t.result, WaitResult::Timeout(_)));
}

#[test]
fn errors_propagate_when_not_ignored() {
    let t = drive(
        waiter(ElementPoller::NumTriesWithInterval(4, 10)).ignore_errors(false).stale(),
        &|_| Verdict::Failed,
    );
    assert!(matches!(t.result, WaitResult::Failed));
    assert_eq!(t.checks, 1);
}

#[test]
fn stale_waits_for_the_element_to_go() {
    let (run, _) = waiter(ElementPoller::NoWait).stale();
    assert!(run.inverted);
    assert!(matches!(run.condition, Condition::State(ElementRead::Present)));
    let t = drive(waiter(ElementPoller::NumTriesWithInterval(5, 10)).stale(), &|n| Verdict::Holds(n < 1));
    assert!(matches!(t.result, WaitResult::Satisfied));
    assert_eq!(t.checks, 2);
}

#[test]
fn no_wait_checks_once() {
    let t = drive(waiter(ElementPoller::NoWait).displayed(), &|_| Verdict::Holds(false));
    assert!(matches!(t.result, WaitResult::Timeout(_)));
    assert_eq!(t.checks, 1);
    assert!(t.sleeps.is_empty());
}

#[test]
fn waiter_override_and_check() {
    let w = ElementWaiter::new(ElementPoller::NoWait, "m").wait(30, 10);
    assert_eq!(w.poller, ElementPoller::TimeoutWithInterval(30, 10));
    assert!(w.check(true));
    assert!(!w.check(false));
    let w = w.with_poller(ElementPoller::NumTriesWithInterval(2, 1));
    assert_eq!(w.poller, ElementPoller::NumTriesWithInterval(2, 1));
}

#[test]
fn has_attribute_reads_and_matches() {
    let (run, action) = waiter(ElementPoller::NoWait).has_attribute("role", TextMatch::new("button"));
    assert!(matches!(action, WaitAction::Check));
    let c = run.condition;
    match c.next_step(&Vec::new()) {
        ConditionStep::Read(ElementRead::Attribute(n)) => assert_eq!(n, "role"),
        _ => panic!("expected a read"),
    }
    let yes = vec![ReadAnswer::Value(Some("button".to_string()))];
    assert!(matches!(c.next_step(&yes), ConditionStep::Holds(true)));
    let no = vec![ReadAnswer::Value(Some("link".to_string()))];
    assert!(matches!(c.next_step(&no), ConditionStep::Holds(false)));
    let absent = vec![ReadAnswer::Value(None)];
    assert!(matches!(c.next_step(&absent), ConditionStep::Holds(false)));
    let failed = vec![ReadAnswer::Failed];
    assert!(matches!(c.next_step(&failed), ConditionStep::Failed));
}

#[test]
fn has_not_css_properties_is_inverted() {
    let (run, _) = waiter(ElementPoller::NoWait).has_not_css_properties(vec![
        ("color".to_string(), TextMatch::new("red")),
        ("display".to_string(), TextMatch::new("none")),
    ]);
    assert!(run.inverted);
    let c = run.condition;
    let first = vec![ReadAnswer::Value(Some("red".to_string()))];
    match c.next_step(&first) {
        ConditionStep::Read(ElementRead::CssProperty(n)) => assert_eq!(n, "display"),
        _ => panic!("expected the second read"),
    }
    let both = vec![
        ReadAnswer::Value(Some("red".to_string())),
        ReadAnswer::Value(Some("none".to_string())),
    ];
    assert!(matches!(c.next_step(&both), ConditionStep::Holds(true)));
    let mismatch = vec![ReadAnswer::Value(Some("blue".to_string()))];
    assert!(matches!(c.next_step(&mismatch), ConditionStep::Holds(false)));
}

#[test]
fn custom_condition_reads_its_flag() {
    let (run, _) = waiter(ElementPoller::NoWait).condition(Condition::State(ElementRead::Custom(7)));
    assert!(!run.inverted);
    let c = run.condition;
    assert!(matches!(c.next_step(&Vec::new()), ConditionStep::Read(ElementRead::Custom(7))));
    assert!(matches!(c.next_step(&vec![ReadAnswer::Flag(true)]), ConditionStep::Holds(true)));
    assert!(matches!(c.next_step(&vec![ReadAnswer::Value(None)]), ConditionStep::Failed));
}

#[test]
fn property_waits_read_properties() {
    let (run, _) = waiter(ElementPoller::NoWait).has_property("checked", TextMatch::new("true"));
    assert!(!run.inverted);
    assert!(matches!(run.condition.next_step(&Vec::new()), ConditionStep::Read(ElementRead::Property(_))));
    let (run, _) = waiter(ElementPoller::NoWait).has_not_property("checked", TextMatch::new("true"));
    assert!(run.inverted);
    let (run, _) = waiter(ElementPoller::NoWait)
        .has_properties(vec![("value".to_string(), TextMatch::new("1"))]);
    assert!(!run.inverted);
    let (run, _) = waiter(ElementPoller::NoWait)
        .has_not_properties(vec![("value".to_string(), TextMatch::new("1"))]);
    assert!(run.inverted);
    let (run, _) = waiter(ElementPoller::NoWait).has_css_property("color", TextMatch::new("red"));
    assert!(!run.inverted);
    let (run, _) = waiter(ElementPoller::NoWait).has_not_css_property("color", TextMatch::new("red"));
    assert!(run.inverted);
    let (run, _) = waiter(ElementPoller::NoWait).has_not_attribute("role", TextMatch::new("x"));
    assert!(run.inverted);
    let (run, _) = waiter(ElementPoller::NoWait)
        .has_attributes(vec![("role".to_string(), TextMatch::new("x"))]);
    assert!(!run.inverted);
    let (run, _) = waiter(ElementPoller::NoWait)
        .has_not_attributes(vec![("role".to_string(), TextMatch::new("x"))]);
    assert!(run.inverted);
    let (run, _) = waiter(ElementPoller::NoWait).not_enabled();
    assert!(run.inverted);
}

#[test]
fn inverted_waiter_flips_the_terminal() {
    let mut w = ElementWaiter::new(ElementPoller::NoWait, "m");
    w.inverted = true;
    let (run, _) = w.until().displayed();
    assert!(run.inverted);
    let mut w = ElementWaiter::new(ElementPoller::NoWait, "m");
    w.inverted = true;
    let (run, _) = w.until().not_displayed();
    assert!(!run.inverted);
}
