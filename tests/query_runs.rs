use thirtyfour::By;
use thirtyfour_query::{
    ElementPoller, ElementQuery, LookupOutcome, QueryAction, QueryResult, QueryRun, TextMatch,
    Verdict,
};

/// What one scripted run of a query did.
struct Trace {
    result: QueryResult,
    lookups: Vec<usize>,
    judged: Vec<(usize, usize, usize)>,
    sleeps: Vec<u64>,
    now: u64,
}

/// Runs a query against a scripted source that answers at once: `lookup` gives
/// the outcome of the `n`-th lookup (counted from 0) of a selector, `verdict` the
/// verdict of a filter on an element. Sleeps advance the clock exactly.
fn drive(
    q: &ElementQuery<'_>,
    start: (QueryRun, QueryAction),
    lookup: &dyn Fn(usize, usize) -> LookupOutcome,
    verdict: &dyn Fn(usize, usize, usize) -> Verdict,
) -> Trace {
    let (mut run, mut action) = start;
    let mut trace = Trace { result: QueryResult::Fatal, lookups: Vec::new(), judged: Vec::new(), sleeps: Vec::new(), now: 0 };
    for _ in 0..10_000 {
        let (next_run, next_action) = match action {
            QueryAction::Lookup { selector, .. } => {
                let n = trace.lookups.iter().filter(|s| **s == selector).count();
                trace.lookups.push(selector);
                run.on_lookup(q, lookup(selector, n), trace.now)
            }
            QueryAction::Judge { selector, filter, element } => {
                trace.judged.push((selector, filter, element));
                run.on_verdict(q, verdict(selector, filter, element), trace.now)
            }
            QueryAction::Sleep(d) => {
                trace.sleeps.push(d);
                trace.now += d;
                run.on_wake(q)
            }
            QueryAction::Done(result) => {
                trace.result = result;
                return trace;
            }
        };
        run = next_run;
        action = next_action;
    }
    panic!("the run did not end");
}

fn never(_: usize, _: usize, _: usize) -> Verdict {
    Verdict::Holds(false)
}

#[test]
fn fourth_lookup_finds_the_element() {
    let q = ElementQuery::new(ElementPoller::NumTriesWithInterval(5, 10), By::Id("target"));
    let t = drive(
        &q,
        q.first(),
        &|_, n| if n < 3 { LookupOutcome::Found(0) } else { LookupOutcome::Found(1) },
        &never,
    );
    assert!(matches!(t.result, QueryResult::Element(0)));
    assert_eq!(t.lookups.len(), 4);
    assert_eq!(t.sleeps, vec![10, 10, 10]);
}

#[test]
fn empty_selector_list_fails_at_once() {
    let q = ElementQuery { poller: ElementPoller::NumTriesWithInterval(5, 10), selectors: Vec::new() };
    let t = drive(&q, q.first(), &|_, _| LookupOutcome::Found(1), &never);
    match t.result {
        QueryResult::NoSuchElement(m) => assert_eq!(m, "Element(s) not found using selectors: []"),
        _ => panic!("expected no match"),
    }
    assert!(t.lookups.is_empty());
    assert!(t.sleeps.is_empty());
}

#[test]
fn later_selector_wins_and_earlier_is_retried() {
    let q = ElementQuery::new(ElementPoller::NumTriesWithInterval(5, 10), By::Id("never"))
        .or(By::Css("div.late"));
    let t = drive(
        &q,
        q.first(),
        &|selector, n| {
            if selector == 1 && n >= 1 {
                LookupOutcome::Found(2)
            } else {
                LookupOutcome::NotFound
            }
        },
        &never,
    );
    assert!(matches!(t.result, QueryResult::Element(0)));
    assert_eq!(t.lookups, vec![0, 1, 0, 1]);
}

#[test]
fn deadline_ends_between_timeout_and_one_more_interval() {
    let q = ElementQuery::new(ElementPoller::TimeoutWithInterval(100, 30), By::Id("gone"));
    let t = drive(&q, q.first(), &|_, _| LookupOutcome::NotFound, &never);
    assert!(matches!(t.result, QueryResult::NoSuchElement(_)));
    assert_eq!(t.now, 120);
    assert!(t.now >= 100 && t.now < 130);
    assert_eq!(t.lookups.len(), 5);
}

#[test]
fn deadline_of_zero_makes_one_attempt() {
    let q = ElementQuery::new(ElementPoller::TimeoutWithInterval(0, 30), By::Id("gone"));
    let t = drive(&q, q.first(), &|_, _| LookupOutcome::NotFound, &never);
    assert!(matches!(t.result, QueryResult::NoSuchElement(_)));
    assert_eq!(t.now, 0);
    assert_eq!(t.lookups.len(), 1);
}

#[test]
fn tries_policy_counts_lookups() {
    let q = ElementQuery::new(ElementPoller::NumTriesWithInterval(3, 5), By::Id("gone"));
    let t = drive(&q, q.all(), &|_, _| LookupOutcome::NotFound, &never);
    match t.result {
        QueryResult::Elements(v) => assert!(v.is_empty()),
        _ => panic!("expected an empty list"),
    }
    assert_eq!(t.lookups.len(), 3);
    assert_eq!(t.sleeps, vec![5, 5]);
}

#[test]
fn tries_policy_with_two_selectors_looks_up_each_every_attempt() {
    let q = ElementQuery::new(ElementPoller::NumTriesWithInterval(2, 5), By::Id("a")).or(By::Id("b"));
    let t = drive(&q, q.all_required(), &|_, _| LookupOutcome::NotFound, &never);
    match t.result {
        QueryResult::NoSuchElement(m) => {
            assert_eq!(m, "Element(s) not found using selectors: [Id(a),Id(b)]")
        }
        _ => panic!("expected no match"),
    }
    assert_eq!(t.lookups, vec![0, 1, 0, 1]);
}

#[test]
fn min_tries_outlast_the_timeout() {
    let q = ElementQuery::new(ElementPoller::TimeoutWithIntervalAndMinTries(10, 20, 4), By::Id("gone"));
    let t = drive(&q, q.first(), &|_, _| LookupOutcome::NotFound, &never);
    assert!(matches!(t.result, QueryResult::NoSuchElement(_)));
    assert_eq!(t.lookups.len(), 4);
    assert_eq!(t.now, 60);
}

#[test]
fn timeout_outlasts_the_min_tries() {
    let q = ElementQuery::new(ElementPoller::TimeoutWithIntervalAndMinTries(100, 20, 2), By::Id("gone"));
    let t = drive(&q, q.first(), &|_, _| LookupOutcome::NotFound, &never);
    assert!(matches!(t.result, QueryResult::NoSuchElement(_)));
    assert_eq!(t.now, 100);
    assert_eq!(t.lookups.len(), 6);
}

#[test]
fn existence_check_never_sleeps() {
    let q = ElementQuery::new(ElementPoller::NumTriesWithInterval(5, 10), By::Id("a")).or(By::Id("b"));
    let t = drive(&q, q.check_exists(), &|_, _| LookupOutcome::NotFound, &never);
    assert!(matches!(t.result, QueryResult::Exists(false)));
    assert_eq!(t.lookups, vec![0, 1]);
    assert!(t.sleeps.is_empty());

    let t = drive(&q, q.check_exists(), &|s, _| if s == 1 { LookupOutcome::Found(1) } else { LookupOutcome::NotFound }, &never);
    assert!(matches!(t.result, QueryResult::Exists(true)));
}

#[test]
fn first_filter_rejecting_all_skips_the_second() {
    let q = ElementQuery::new(ElementPoller::NoWait, By::Css("li"))
        .with_text(TextMatch::new("never"))
        .and_enabled();
    let t = drive(
        &q,
        q.all(),
        &|_, _| LookupOutcome::Found(3),
        &|_, filter, _| if filter == 0 { Verdict::Holds(false) } else { Verdict::Holds(true) },
    );
    match t.result {
        QueryResult::Elements(v) => assert!(v.is_empty()),
        _ => panic!("expected an empty list"),
    }
    assert_eq!(t.judged, vec![(0, 0, 0), (0, 0, 1), (0, 0, 2)]);
}

#[test]
fn filters_run_in_order_on_the_survivors() {
    let q = ElementQuery::new(ElementPoller::NoWait, By::Css("li"))
        .and_not_enabled()
        .and_selected();
    let t = drive(
        &q,
        q.all(),
        &|_, _| LookupOutcome::Found(4),
        &|_, filter, element| {
            if filter == 0 {
                // elements 1 and 3 are disabled
                Verdict::Holds(element % 2 == 0)
            } else if element == 3 {
                Verdict::Holds(true)
            } else {
                Verdict::Failed
            }
        },
    );
    match t.result {
        QueryResult::Elements(v) => assert_eq!(v, vec![3]),
        _ => panic!("expected elements"),
    }
    assert_eq!(t.judged, vec![(0, 0, 0), (0, 0, 1), (0, 0, 2), (0, 0, 3), (0, 1, 1), (0, 1, 3)]);
}

#[test]
fn fatal_lookup_error_ends_the_query() {
    let q = ElementQuery::new(ElementPoller::NumTriesWithInterval(5, 10), By::Id("a")).or(By::Id("b"));
    let t = drive(&q, q.first(), &|_, _| LookupOutcome::Failed, &never);
    assert!(matches!(t.result, QueryResult::Fatal));
    assert_eq!(t.lookups, vec![0]);
}

#[test]
fn slow_first_selector_uses_up_the_deadline() {
    let q = ElementQuery::new(ElementPoller::TimeoutWithInterval(50, 10), By::Id("slow")).or(By::Id("fast"));
    let (run, action) = q.first();
    assert!(matches!(action, QueryAction::Lookup { selector: 0, single: false }));
    let (_, action) = run.on_lookup(&q, LookupOutcome::NotFound, 60);
    assert!(matches!(action, QueryAction::Done(QueryResult::NoSuchElement(_))));
}

#[test]
fn single_selector_is_reported_in_lookups() {
    let q = ElementQuery::new(ElementPoller::NoWait, By::Id("a")).with_single_selector();
    let (_, action) = q.first();
    assert!(matches!(action, QueryAction::Lookup { selector: 0, single: true }));
}

#[test]
fn selector_summary_lists_every_criterion() {
    let q = ElementQuery::new(ElementPoller::NoWait, By::Id("a"))
        .or(By::Css("div > p"))
        .or(By::XPath("//b"))
        .or(By::LinkText("Home"))
        .or(By::PartialLinkText("Ho"))
        .or(By::Name("n"))
        .or(By::Tag("span"))
        .or(By::ClassName("big"));
    assert_eq!(
        thirtyfour_query::get_selector_summary(&q.selectors),
        "[Id(a),CSS(div > p),XPath(//b),Link Text(Home),Partial Link Text(Ho),Name(n),Tag(span),Class(big)]"
    );
    assert_eq!(thirtyfour_query::get_selector_summary(&Vec::new()), "[]");
}
