//! Whole runs of the poll loops, driven by a model of the world, and what
//! holds of them.
use crate::condition::Verdict;
use crate::poller::{no_wait_options, options_of, ElementPoller, PollOptions};
use crate::query::{
    lookup_of, matched_result, next_attempt, no_match_result, query_on_lookup, query_on_verdict,
    query_start, ElementQuery, LookupOutcome, QueryActionView, QueryMode, QueryResultView,
    QueryRunView,
};
use crate::selector::{
    filter_accepts, filter_start, filter_step, index_seq, ElementFilter, FilterActionView,
    FilterRunView,
};
use crate::waiter::{
    attempt_misses, wait_next_attempt, wait_on_verdict, wait_start, WaitActionView,
    WaitResultView, WaitRunView,
};
use vstd::prelude::*;

verus! {

/// How a wait ends when every check of the condition gives `v` and the check at
/// step `k` is made at `clock(k)` milliseconds; `None` if it has not ended after
/// `fuel` steps.
pub open spec fn wait_drive(
    s: WaitRunView,
    a: WaitActionView,
    v: Verdict,
    clock: spec_fn(nat) -> nat,
    k: nat,
    fuel: nat,
) -> Option<WaitResultView>
    decreases fuel,
{
    match a {
        WaitActionView::Done(r) => Some(r),
        WaitActionView::Check => {
            if fuel == 0 {
                None
            } else {
                let (s2, a2) = wait_on_verdict(s, v, clock(k));
                wait_drive(s2, a2, v, clock, k + 1, (fuel - 1) as nat)
            }
        },
        WaitActionView::Sleep(_) => {
            if fuel == 0 {
                None
            } else {
                let (s2, a2) = wait_next_attempt(s);
                wait_drive(s2, a2, v, clock, k + 1, (fuel - 1) as nat)
            }
        },
    }
}

/// A wait whose every attempt misses never succeeds and never fails: if it
/// ends, it ends in a timeout with its message.
pub proof fn lemma_missing_wait_times_out(
    s: WaitRunView,
    a: WaitActionView,
    v: Verdict,
    clock: spec_fn(nat) -> nat,
    k: nat,
    fuel: nat,
)
    requires
        attempt_misses(s, v),
        !(a is Done),
    ensures
        wait_drive(s, a, v, clock, k, fuel) is None || wait_drive(s, a, v, clock, k, fuel) == Some(
            WaitResultView::Timeout(s.message),
        ),
    decreases fuel,
{
    if fuel > 0 {
        let (s2, a2) = match a {
            WaitActionView::Check => wait_on_verdict(s, v, clock(k)),
            _ => wait_next_attempt(s),
        };
        if !(a2 is Done) {
            lemma_missing_wait_times_out(s2, a2, v, clock, k + 1, (fuel - 1) as nat);
        }
    }
}

/// Waiting for a condition to be false succeeds exactly when waiting, under the
/// same policy and clock, for it to be true ends in a timeout, where the
/// condition's value does not change and its reads do not fail.
pub proof fn lemma_inverted_wait(
    options: PollOptions,
    ignore_errors: bool,
    message: Seq<char>,
    value: bool,
    clock: spec_fn(nat) -> nat,
    fuel: nat,
)
    ensures
        ({
            let (s0, a0) = wait_start(options, false, ignore_errors, message);
            let (s1, a1) = wait_start(options, true, ignore_errors, message);
            let plain = wait_drive(s0, a0, Verdict::Holds(value), clock, 0, fuel);
            let inverted = wait_drive(s1, a1, Verdict::Holds(value), clock, 0, fuel);
            plain is Some ==> (plain == Some(WaitResultView::Timeout(message)) <==> inverted == Some(
                WaitResultView::Satisfied,
            ))
        }),
{
    let (s0, a0) = wait_start(options, false, ignore_errors, message);
    let (s1, a1) = wait_start(options, true, ignore_errors, message);
    let v = Verdict::Holds(value);
    if fuel > 0 {
        if value {
            lemma_missing_wait_times_out(s1, a1, v, clock, 0, fuel);
            let (s2, a2) = wait_on_verdict(s0, v, clock(0));
            assert(wait_drive(s2, a2, v, clock, 1, (fuel - 1) as nat) == Some(
                WaitResultView::Satisfied,
            ));
        } else {
            lemma_missing_wait_times_out(s0, a0, v, clock, 0, fuel);
            let (s2, a2) = wait_on_verdict(s1, v, clock(0));
            assert(wait_drive(s2, a2, v, clock, 1, (fuel - 1) as nat) == Some(
                WaitResultView::Satisfied,
            ));
        }
    }
}

/// A wait whose condition's reads always fail ends, if it ends, in a timeout
/// when errors are ignored; when they are not, it ends with the failure at the
/// first check.
pub proof fn lemma_failing_reads(
    options: PollOptions,
    inverted: bool,
    message: Seq<char>,
    clock: spec_fn(nat) -> nat,
    fuel: nat,
)
    ensures
        ({
            let (s, a) = wait_start(options, inverted, true, message);
            let r = wait_drive(s, a, Verdict::Failed, clock, 0, fuel);
            r is None || r == Some(WaitResultView::Timeout(message))
        }),
        fuel > 0 ==> ({
            let (s, a) = wait_start(options, inverted, false, message);
            wait_drive(s, a, Verdict::Failed, clock, 0, fuel) == Some(WaitResultView::Failed)
        }),
{
    let (s, a) = wait_start(options, inverted, true, message);
    lemma_missing_wait_times_out(s, a, Verdict::Failed, clock, 0, fuel);
    if fuel > 0 {
        let (s1, a1) = wait_start(options, inverted, false, message);
        let (s2, a2) = wait_on_verdict(s1, Verdict::Failed, clock(0));
        assert(a2 is Done);
        assert(wait_drive(s2, a2, Verdict::Failed, clock, 1, (fuel - 1) as nat) == Some(
            WaitResultView::Failed,
        ));
    }
}

/// A wait under a timeout with a minimum number of tries gives up only once the
/// timeout has elapsed and the tries have been made.
pub proof fn lemma_wait_gives_up_late(s: WaitRunView, v: Verdict, elapsed: nat, timeout: u64, interval: u64, min_tries: u32)
    requires
        s.options == options_of(ElementPoller::TimeoutWithIntervalAndMinTries(timeout, interval, min_tries)),
    ensures
        wait_on_verdict(s, v, elapsed).1 == WaitActionView::Done(WaitResultView::Timeout(s.message))
            ==> elapsed >= timeout && s.tries >= min_tries,
{
}


/// A run that matched and a run that found nothing end differently.
proof fn lemma_match_is_not_no_match(q: ElementQuery<'_>, mode: QueryMode, kept: Seq<usize>)
    requires
        kept.len() > 0,
    ensures
        matched_result(mode, kept) != no_match_result(q, mode),
{
    if mode == QueryMode::All {
        let a = matched_result(mode, kept);
        let b = no_match_result(q, mode);
        assert(a->Elements_0.len() != b->Elements_0.len());
    }
}

/// A query under a timeout with a minimum number of tries gives up only once
/// the timeout has elapsed and the tries have been made, whatever the event.
pub proof fn lemma_query_gives_up_late(
    q: ElementQuery<'_>,
    s: QueryRunView,
    outcome: LookupOutcome,
    v: Verdict,
    elapsed: nat,
    timeout: u64,
    interval: u64,
    min_tries: u32,
)
    requires
        s.options == options_of(
            ElementPoller::TimeoutWithIntervalAndMinTries(timeout, interval, min_tries),
        ),
    ensures
        query_on_lookup(q, s, outcome, elapsed).1 == QueryActionView::Done(no_match_result(q, s.mode))
            ==> elapsed >= timeout && s.tries >= min_tries,
        query_on_verdict(q, s, v, elapsed).1 == QueryActionView::Done(no_match_result(q, s.mode))
            ==> elapsed >= timeout && s.tries >= min_tries,
{
    if let LookupOutcome::Found(n) = outcome {
        let (fr, fa) = filter_start(q.selectors@[s.selector as int].filters@.len(), n as nat);
        if let FilterActionView::Done(kept) = fa {
            if kept.len() > 0 {
                lemma_match_is_not_no_match(q, s.mode, kept);
            }
        }
    }
    let (fr, fa) = filter_step(q.selectors@[s.selector as int].filters@, s.filtering, v);
    if let FilterActionView::Done(kept) = fa {
        if kept.len() > 0 {
            lemma_match_is_not_no_match(q, s.mode, kept);
        }
    }
}

/// With no waiting (the existence check), a run never sleeps and never starts a
/// second attempt: each step either ends the run or looks up the next selector.
pub proof fn lemma_no_wait_single_attempt(
    q: ElementQuery<'_>,
    s: QueryRunView,
    outcome: LookupOutcome,
    v: Verdict,
    elapsed: nat,
)
    requires
        s.options == no_wait_options(),
        s.tries == 1,
    ensures
        query_start(q, QueryMode::Exists, no_wait_options()).0.tries == 1,
        ({
            let (s2, a2) = query_on_lookup(q, s, outcome, elapsed);
            &&& s2.tries == 1
            &&& !(a2 is Sleep)
            &&& a2 matches QueryActionView::Lookup { selector, .. } ==> selector == s.selector + 1
        }),
        ({
            let (s2, a2) = query_on_verdict(q, s, v, elapsed);
            &&& s2.tries == 1
            &&& !(a2 is Sleep)
            &&& a2 matches QueryActionView::Lookup { selector, .. } ==> selector == s.selector + 1
        }),
{
}

/// The filter evaluations, `(filter, element)`, that a filter chain asks for when
/// filter `f` gives verdict `verdict(f, e)` on element `e`, within `fuel` steps.
pub open spec fn filter_drive(
    filters: Seq<ElementFilter>,
    s: FilterRunView,
    a: FilterActionView,
    verdict: spec_fn(nat, nat) -> Verdict,
    fuel: nat,
) -> Seq<(nat, nat)>
    decreases fuel,
{
    match a {
        FilterActionView::Done(_) => Seq::empty(),
        FilterActionView::Judge { filter, element } => {
            if fuel == 0 {
                Seq::empty()
            } else {
                let (s2, a2) = filter_step(filters, s, verdict(filter, element));
                seq![(filter, element)] + filter_drive(filters, s2, a2, verdict, (fuel - 1) as nat)
            }
        },
    }
}

proof fn lemma_rejected_pass_stays_on_first_filter(
    filters: Seq<ElementFilter>,
    count: nat,
    s: FilterRunView,
    a: FilterActionView,
    verdict: spec_fn(nat, nat) -> Verdict,
    fuel: nat,
)
    requires
        filters.len() > 0,
        forall|e: nat| e < count ==> !filter_accepts(filters[0], #[trigger] verdict(0, e)),
        s.filter == 0,
        s.kept.len() == 0,
        s.candidates == index_seq(count),
        a is Judge ==> s.position < s.candidates.len() && a == (FilterActionView::Judge {
            filter: 0,
            element: s.candidates[s.position as int] as nat,
        }),
    ensures
        forall|i: int|
            0 <= i < filter_drive(filters, s, a, verdict, fuel).len() ==> (#[trigger] filter_drive(
                filters,
                s,
                a,
                verdict,
                fuel,
            )[i]).0 == 0,
    decreases fuel,
{
    if let FilterActionView::Judge { filter, element } = a {
        if fuel > 0 {
            assert(element < count);
            let (s2, a2) = filter_step(filters, s, verdict(filter, element));
            lemma_rejected_pass_stays_on_first_filter(filters, count, s2, a2, verdict, (fuel - 1) as nat);
            let rest = filter_drive(filters, s2, a2, verdict, (fuel - 1) as nat);
            let all = filter_drive(filters, s, a, verdict, fuel);
            assert(all == seq![(filter, element)] + rest);
            assert forall|i: int| 0 <= i < all.len() implies (#[trigger] all[i]).0 == 0 by {
                if i > 0 {
                    assert(all[i] == rest[i - 1]);
                }
            }
        }
    }
}

/// When the first filter of a chain rejects every element that the lookup
/// found, no later filter is ever evaluated.
pub proof fn lemma_filter_short_circuit(
    filters: Seq<ElementFilter>,
    count: nat,
    verdict: spec_fn(nat, nat) -> Verdict,
    fuel: nat,
)
    requires
        filters.len() > 0,
        forall|e: nat| e < count ==> !filter_accepts(filters[0], #[trigger] verdict(0, e)),
    ensures
        ({
            let (s, a) = filter_start(filters.len(), count);
            forall|i: int|
                0 <= i < filter_drive(filters, s, a, verdict, fuel).len() ==> (#[trigger] filter_drive(
                    filters,
                    s,
                    a,
                    verdict,
                    fuel,
                )[i]).0 == 0
        }),
{
    let (s, a) = filter_start(filters.len(), count);
    if count > 0 {
        assert(s.candidates[0] == 0);
    }
    assert(s.candidates =~= index_seq(count));
    lemma_rejected_pass_stays_on_first_filter(filters, count, s, a, verdict, fuel);
}


/// How a query run goes on a source whose every lookup finds nothing: the
/// lookup at step `k` takes `lag(k)` milliseconds, a sleep takes exactly its
/// length, and `now` is the time since the run started. The result (`None` if
/// the run has not ended within `fuel` steps), the number of lookups made, and
/// the time when the run ended.
pub open spec fn empty_drive(
    q: ElementQuery<'_>,
    s: QueryRunView,
    a: QueryActionView,
    now: nat,
    lag: spec_fn(nat) -> nat,
    k: nat,
    fuel: nat,
) -> (Option<QueryResultView>, nat, nat)
    decreases fuel,
{
    match a {
        QueryActionView::Done(r) => (Some(r), 0, now),
        QueryActionView::Lookup { .. } => {
            if fuel == 0 {
                (None, 0, now)
            } else {
                let t = now + lag(k);
                let (s2, a2) = query_on_lookup(q, s, LookupOutcome::NotFound, t);
                let (r, n, c) = empty_drive(q, s2, a2, t, lag, k + 1, (fuel - 1) as nat);
                (r, n + 1, c)
            }
        },
        QueryActionView::Sleep(d) => {
            if fuel == 0 {
                (None, 0, now)
            } else {
                let (s2, a2) = next_attempt(q, s);
                empty_drive(q, s2, a2, now + d, lag, k + 1, (fuel - 1) as nat)
            }
        },
        QueryActionView::Judge { .. } => (None, 0, now),
    }
}

proof fn lemma_tries_run(
    q: ElementQuery<'_>,
    s: QueryRunView,
    now: nat,
    lag: spec_fn(nat) -> nat,
    k: nat,
    fuel: nat,
    n: nat,
)
    requires
        q.selectors@.len() >= 1,
        s.options.timeout is None,
        s.options.min_tries == n,
        1 <= s.tries <= n,
        s.selector < q.selectors@.len(),
        fuel >= (q.selectors@.len() - s.selector) + (n - s.tries) * (q.selectors@.len() + 1),
    ensures
        ({
            let (r, m, _) = empty_drive(q, s, lookup_of(q, s.selector), now, lag, k, fuel);
            &&& r == Some(no_match_result(q, s.mode))
            &&& m == (q.selectors@.len() - s.selector) + (n - s.tries) * q.selectors@.len()
        }),
    decreases fuel,
{
    let count = q.selectors@.len();
    let t = now + lag(k);
    let a = lookup_of(q, s.selector);
    let (s2, a2) = query_on_lookup(q, s, LookupOutcome::NotFound, t);
    let (r2, m2, c2) = empty_drive(q, s2, a2, t, lag, k + 1, (fuel - 1) as nat);
    assert(empty_drive(q, s, a, now, lag, k, fuel) == (r2, m2 + 1, c2));
    if s.selector + 1 < count {
        assert(a2 == lookup_of(q, s2.selector));
        lemma_tries_run(q, s2, t, lag, k + 1, (fuel - 1) as nat, n);
    } else if s.tries < n {
        let left = n - s.tries;
        assert(left * (count + 1) == (left - 1) * (count + 1) + count + 1) by (nonlinear_arith);
        assert(left * count == (left - 1) * count + count) by (nonlinear_arith);
        if let QueryActionView::Sleep(d) = a2 {
            let (s3, a3) = next_attempt(q, s2);
            assert(a3 == lookup_of(q, s3.selector));
            assert(empty_drive(q, s2, a2, t, lag, k + 1, (fuel - 1) as nat) == empty_drive(
                q,
                s3,
                a3,
                t + d,
                lag,
                k + 2,
                (fuel - 2) as nat,
            ));
            lemma_tries_run(q, s3, t + d, lag, k + 2, (fuel - 2) as nat, n);
        } else {
            assert(a2 == lookup_of(q, s2.selector));
            lemma_tries_run(q, s2, t, lag, k + 1, (fuel - 1) as nat, n);
        }
    } else {
        assert(a2 == QueryActionView::Done(no_match_result(q, s.mode)));
    }
}

/// Under a policy of `n` tries (at least one), a query on a source that never
/// finds anything looks up each of its selectors exactly `n` times and then
/// reports that nothing matched, however long each lookup takes.
pub proof fn lemma_tries_are_counted(
    q: ElementQuery<'_>,
    mode: QueryMode,
    n: u32,
    interval: u64,
    lag: spec_fn(nat) -> nat,
    fuel: nat,
)
    requires
        n >= 1,
        fuel >= n * (q.selectors@.len() + 1),
    ensures
        ({
            let (s, a) = query_start(q, mode, options_of(ElementPoller::NumTriesWithInterval(n, interval)));
            let (r, m, _) = empty_drive(q, s, a, 0, lag, 0, fuel);
            &&& r == Some(no_match_result(q, mode))
            &&& m == n * q.selectors@.len()
        }),
{
    let count = q.selectors@.len();
    let (s, a) = query_start(q, mode, options_of(ElementPoller::NumTriesWithInterval(n, interval)));
    if count > 0 {
        assert(n * (count + 1) == (n - 1) * (count + 1) + count + 1) by (nonlinear_arith);
        assert(n * count == (n - 1) * count + count) by (nonlinear_arith);
        lemma_tries_run(q, s, 0, lag, 0, fuel, n as nat);
    } else {
        assert(n * count == 0) by (nonlinear_arith)
            requires
                count == 0,
        ;
    }
}

proof fn lemma_deadline_run(
    q: ElementQuery<'_>,
    s: QueryRunView,
    now: nat,
    lag: spec_fn(nat) -> nat,
    k: nat,
    fuel: nat,
    timeout: u64,
    interval: u64,
)
    requires
        q.selectors@.len() >= 1,
        s.options == options_of(ElementPoller::TimeoutWithInterval(timeout, interval)),
        forall|j: nat| #[trigger] lag(j) == 0,
        interval >= 1,
        timeout + interval <= u64::MAX,
        s.tries >= 1,
        now == interval * (s.tries - 1),
        now < timeout + interval,
        s.selector < q.selectors@.len(),
        fuel >= (timeout + 2 - s.tries) * (q.selectors@.len() + 1) - s.selector,
    ensures
        ({
            let (r, _, c) = empty_drive(q, s, lookup_of(q, s.selector), now, lag, k, fuel);
            &&& r == Some(no_match_result(q, s.mode))
            &&& timeout <= c < timeout + interval
        }),
    decreases fuel,
{
    let count = q.selectors@.len();
    let tries = s.tries;
    assert(now >= tries - 1) by (nonlinear_arith)
        requires
            now == interval * (tries - 1),
            interval >= 1,
            tries >= 1,
    ;
    assert(interval * tries == now + interval) by (nonlinear_arith)
        requires
            now == interval * (tries - 1),
    ;
    assert(tries <= timeout + 1) by (nonlinear_arith)
        requires
            now == interval * (tries - 1),
            now < timeout + interval,
            interval >= 1,
            tries >= 1,
    ;
    assert((timeout + 2 - tries) * (count + 1) >= count + 1) by (nonlinear_arith)
        requires
            tries <= timeout + 1,
    ;
    let t = now + lag(k);
    assert(t == now);
    let a = lookup_of(q, s.selector);
    let (s2, a2) = query_on_lookup(q, s, LookupOutcome::NotFound, t);
    let (r2, m2, c2) = empty_drive(q, s2, a2, t, lag, k + 1, (fuel - 1) as nat);
    assert(empty_drive(q, s, a, now, lag, k, fuel) == (r2, m2 + 1, c2));
    if now < timeout {
        assert(tries <= timeout);
        assert((timeout + 2 - tries) * (count + 1) == (timeout + 1 - tries) * (count + 1) + count + 1)
            by (nonlinear_arith);
        if s.selector + 1 < count {
            assert(a2 == lookup_of(q, s2.selector));
            lemma_deadline_run(q, s2, t, lag, k + 1, (fuel - 1) as nat, timeout, interval);
        } else {
            assert(a2 == QueryActionView::Sleep(interval as nat));
            let (s3, a3) = next_attempt(q, s2);
            assert(s3.tries == tries + 1);
            assert(a3 == lookup_of(q, s3.selector));
            assert(empty_drive(q, s2, a2, t, lag, k + 1, (fuel - 1) as nat) == empty_drive(
                q,
                s3,
                a3,
                now + interval as nat,
                lag,
                k + 2,
                (fuel - 2) as nat,
            ));
            lemma_deadline_run(q, s3, now + interval as nat, lag, k + 2, (fuel - 2) as nat, timeout, interval);
        }
    } else {
        assert(a2 == QueryActionView::Done(no_match_result(q, s.mode)));
    }
}

/// Under a timeout with an interval (at least 1 ms), a query with at least one
/// selector, on a source that never finds anything and answers at once, reports
/// that nothing matched at a time between the timeout and the timeout plus one
/// interval (where that sum fits in a `u64`).
pub proof fn lemma_deadline_bounds(
    q: ElementQuery<'_>,
    mode: QueryMode,
    timeout: u64,
    interval: u64,
    lag: spec_fn(nat) -> nat,
    fuel: nat,
)
    requires
        q.selectors@.len() >= 1,
        interval >= 1,
        timeout + interval <= u64::MAX,
        forall|j: nat| #[trigger] lag(j) == 0,
        fuel >= (timeout + 1) * (q.selectors@.len() + 1),
    ensures
        ({
            let (s, a) = query_start(q, mode, options_of(ElementPoller::TimeoutWithInterval(timeout, interval)));
            let (r, _, c) = empty_drive(q, s, a, 0, lag, 0, fuel);
            &&& r == Some(no_match_result(q, mode))
            &&& timeout <= c < timeout + interval
        }),
{
    let (s, a) = query_start(q, mode, options_of(ElementPoller::TimeoutWithInterval(timeout, interval)));
    assert(interval * 0 == 0) by (nonlinear_arith);
    lemma_deadline_run(q, s, 0, lag, 0, fuel, timeout, interval);
}


/// The elements of `s` that satisfy `pred`, in order.
pub open spec fn select(s: Seq<usize>, pred: spec_fn(usize) -> bool) -> Seq<usize>
    decreases s.len(),
{
    if s.len() == 0 {
        Seq::empty()
    } else {
        let rest = select(s.drop_last(), pred);
        if pred(s.last()) {
            rest.push(s.last())
        } else {
            rest
        }
    }
}

/// Element `e` passes the first `upto` filters, each judging it by `verdict`.
pub open spec fn passes(
    filters: Seq<ElementFilter>,
    verdict: spec_fn(nat, nat) -> Verdict,
    upto: nat,
) -> spec_fn(usize) -> bool {
    |e: usize|
        forall|g: nat| g < upto ==> filter_accepts(filters[g as int], #[trigger] verdict(g, e as nat))
}

/// Element `e` passes filter `g`.
pub open spec fn accepted_by(
    filters: Seq<ElementFilter>,
    verdict: spec_fn(nat, nat) -> Verdict,
    g: nat,
) -> spec_fn(usize) -> bool {
    |e: usize| filter_accepts(filters[g as int], verdict(g, e as nat))
}

/// The elements that a filter chain hands back when filter `f` gives verdict
/// `verdict(f, e)` on element `e`; `None` if it has not finished within `fuel`
/// steps.
pub open spec fn filter_outcome(
    filters: Seq<ElementFilter>,
    s: FilterRunView,
    a: FilterActionView,
    verdict: spec_fn(nat, nat) -> Verdict,
    fuel: nat,
) -> Option<Seq<usize>>
    decreases fuel,
{
    match a {
        FilterActionView::Done(kept) => Some(kept),
        FilterActionView::Judge { filter, element } => {
            if fuel == 0 {
                None
            } else {
                let (s2, a2) = filter_step(filters, s, verdict(filter, element));
                filter_outcome(filters, s2, a2, verdict, (fuel - 1) as nat)
            }
        },
    }
}

proof fn lemma_select_len(s: Seq<usize>, pred: spec_fn(usize) -> bool)
    ensures
        select(s, pred).len() <= s.len(),
    decreases s.len(),
{
    if s.len() > 0 {
        lemma_select_len(s.drop_last(), pred);
    }
}

proof fn lemma_select_all(s: Seq<usize>, pred: spec_fn(usize) -> bool)
    requires
        forall|i: int| 0 <= i < s.len() ==> #[trigger] pred(s[i]),
    ensures
        select(s, pred) == s,
    decreases s.len(),
{
    if s.len() > 0 {
        lemma_select_all(s.drop_last(), pred);
        assert(s.drop_last().push(s.last()) =~= s);
    } else {
        assert(s =~= Seq::empty());
    }
}

proof fn lemma_select_twice(
    s: Seq<usize>,
    p: spec_fn(usize) -> bool,
    q: spec_fn(usize) -> bool,
    r: spec_fn(usize) -> bool,
)
    requires
        forall|x: usize| #[trigger] r(x) == (p(x) && q(x)),
    ensures
        select(select(s, p), q) == select(s, r),
    decreases s.len(),
{
    if s.len() > 0 {
        lemma_select_twice(s.drop_last(), p, q, r);
        let rest = select(s.drop_last(), p);
        if p(s.last()) {
            assert(rest.push(s.last()).drop_last() =~= rest);
        }
    }
}

proof fn lemma_select_step(s: Seq<usize>, pred: spec_fn(usize) -> bool, p: int)
    requires
        0 <= p < s.len(),
    ensures
        select(s.take(p + 1), pred) == if pred(s[p]) {
            select(s.take(p), pred).push(s[p])
        } else {
            select(s.take(p), pred)
        },
{
    assert(s.take(p + 1).drop_last() =~= s.take(p));
}

proof fn lemma_filter_pass(
    filters: Seq<ElementFilter>,
    count: nat,
    verdict: spec_fn(nat, nat) -> Verdict,
    s: FilterRunView,
    a: FilterActionView,
    fuel: nat,
)
    requires
        s.filter < filters.len(),
        s.candidates == select(index_seq(count), passes(filters, verdict, s.filter)),
        s.position < s.candidates.len(),
        s.kept == select(s.candidates.take(s.position as int), accepted_by(filters, verdict, s.filter)),
        a == (FilterActionView::Judge { filter: s.filter, element: s.candidates[s.position as int] as nat }),
        fuel >= (s.candidates.len() - s.position) + (filters.len() - 1 - s.filter) * count,
    ensures
        filter_outcome(filters, s, a, verdict, fuel) == Some(
            select(index_seq(count), passes(filters, verdict, filters.len())),
        ),
    decreases fuel,
{
    let f = s.filter;
    let n = filters.len();
    let all = index_seq(count);
    let c = s.candidates;
    let p = s.position as int;
    let x = c[p];
    let v = verdict(f, x as nat);
    let (s2, a2) = filter_step(filters, s, v);
    lemma_select_step(c, accepted_by(filters, verdict, f), p);
    let kept = select(c.take(p + 1), accepted_by(filters, verdict, f));
    assert(kept == if filter_accepts(filters[f as int], v) { s.kept.push(x) } else { s.kept });
    if p + 1 < c.len() {
        lemma_filter_pass(filters, count, verdict, s2, a2, (fuel - 1) as nat);
    } else {
        assert(c.take(p + 1) =~= c);
        let next = passes(filters, verdict, f + 1);
        assert forall|e: usize| #[trigger] next(e) == (passes(filters, verdict, f)(e) && accepted_by(filters, verdict, f)(e)) by {
            if passes(filters, verdict, f)(e) && accepted_by(filters, verdict, f)(e) {
                assert forall|g: nat| g < f + 1 implies filter_accepts(filters[g as int], #[trigger] verdict(g, e as nat)) by {
                    if g < f {
                        assert(passes(filters, verdict, f)(e));
                    }
                }
            }
        }
        lemma_select_twice(all, passes(filters, verdict, f), accepted_by(filters, verdict, f), next);
        assert(kept == select(all, next));
        let last = passes(filters, verdict, n);
        assert forall|e: usize| #[trigger] last(e) == (next(e) && last(e)) by {
            if last(e) {
                assert forall|g: nat| g < f + 1 implies filter_accepts(filters[g as int], #[trigger] verdict(g, e as nat)) by {
                    assert(g < n);
                }
            }
        }
        lemma_select_twice(all, next, last, last);
        if kept.len() == 0 {
            assert(select(kept, last) =~= Seq::empty());
            assert(filter_outcome(filters, s2, a2, verdict, (fuel - 1) as nat) == Some(Seq::<usize>::empty()));
        } else if f + 1 < n {
            lemma_select_len(all, next);
            assert((n - 1 - f) * count == count + (n - 2 - f) * count) by (nonlinear_arith)
                requires
                    f + 1 < n,
            ;
            assert(kept.take(0) =~= Seq::<usize>::empty());
            lemma_filter_pass(filters, count, verdict, s2, a2, (fuel - 1) as nat);
        } else {
            assert(f + 1 == n);
        }
    }
}

/// A filter chain over the `count` elements that a lookup found hands back, in
/// their order, exactly the elements that pass every filter, where each filter's
/// verdict on an element is fixed.
pub proof fn lemma_filter_chain_keeps_passing_elements(
    filters: Seq<ElementFilter>,
    count: nat,
    verdict: spec_fn(nat, nat) -> Verdict,
    fuel: nat,
)
    requires
        fuel >= count * filters.len(),
    ensures
        ({
            let (s, a) = filter_start(filters.len(), count);
            filter_outcome(filters, s, a, verdict, fuel) == Some(
                select(index_seq(count), passes(filters, verdict, filters.len())),
            )
        }),
{
    let (s, a) = filter_start(filters.len(), count);
    let all = index_seq(count);
    lemma_select_all(all, passes(filters, verdict, 0));
    if count == 0 || filters.len() == 0 {
        if filters.len() == 0 {
            assert(select(all, passes(filters, verdict, 0)) == all);
        } else {
            assert(all =~= Seq::<usize>::empty());
        }
    } else {
        assert(s.kept =~= select(s.candidates.take(0), accepted_by(filters, verdict, 0)));
        assert(count * filters.len() == count + (filters.len() - 1) * count) by (nonlinear_arith)
            requires
                filters.len() >= 1,
        ;
        lemma_filter_pass(filters, count, verdict, s, a, fuel);
    }
}

} // verus!
