use crate::condition::{Condition, ElementRead, ReadView, Verdict};
use crate::text_match::TextMatch;
use crate::poller::{
    deadline_passed, no_wait_options, options_of, pacing_delay, stop_after_failure, ElementPoller,
    PollOptions,
};
use crate::selector::{
    by_text, by_to_string, filter_start, filter_step, ElementFilter, ElementSelector, FilterAction,
    FilterActionView, FilterRun, FilterRunView,
};
use thirtyfour::By;
use vstd::prelude::*;

verus! {

/// The criteria of `selectors`, as thirtyfour displays them, separated by commas.
pub open spec fn joined_criteria(selectors: Seq<ElementSelector<'_>>) -> Seq<char>
    decreases selectors.len(),
{
    if selectors.len() == 0 {
        Seq::empty()
    } else if selectors.len() == 1 {
        by_text(selectors[0].by)
    } else {
        joined_criteria(selectors.drop_last()) + ","@ + by_text(selectors.last().by)
    }
}

/// The criteria of `selectors` in brackets, for diagnostics.
pub open spec fn selector_summary(selectors: Seq<ElementSelector<'_>>) -> Seq<char> {
    "["@ + joined_criteria(selectors) + "]"@
}

/// The message of the error that reports that no selector matched.
pub open spec fn no_such_element_text(selectors: Seq<ElementSelector<'_>>) -> Seq<char> {
    "Element(s) not found using selectors: "@ + selector_summary(selectors)
}

/// The comma-separated criteria of `selectors`, in brackets.
pub fn get_selector_summary(selectors: &Vec<ElementSelector<'_>>) -> (r: String)
    ensures
        r@ == selector_summary(selectors@),
{
    let mut s = String::from_str("[");
    let mut i: usize = 0;
    while i < selectors.len()
        invariant
            i <= selectors@.len(),
            s@ == "["@ + joined_criteria(selectors@.take(i as int)),
        decreases selectors@.len() - i,
    {
        if i > 0 {
            s.append(",");
        }
        let criterion = by_to_string(&selectors[i].by);
        s.append(criterion.as_str());
        proof {
            let next = selectors@.take(i + 1);
            assert(next.drop_last() =~= selectors@.take(i as int));
            assert(next.last() == selectors@[i as int]);
            if i == 0 {
                assert(selectors@.take(0) =~= Seq::<ElementSelector>::empty());
            }
            assert(s@ =~= "["@ + joined_criteria(next));
        }
        i = i + 1;
    }
    assert(selectors@.take(selectors@.len() as int) =~= selectors@);
    s.append("]");
    s
}

/// The message of the error that reports that no selector matched.
pub fn no_such_element(selectors: &Vec<ElementSelector<'_>>) -> (r: String)
    ensures
        r@ == no_such_element_text(selectors@),
{
    let mut s = String::from_str("Element(s) not found using selectors: ");
    let summary = get_selector_summary(selectors);
    s.append(summary.as_str());
    s
}

/// A query: an ordered list of fallback selectors sharing one poller.
///
/// The session or element that the lookups go to is held by the caller.
pub struct ElementQuery<'a> {
    pub poller: ElementPoller,
    pub selectors: Vec<ElementSelector<'a>>,
}

/// The terminal operation that a query run serves.
#[derive(Debug, Clone, Copy, PartialEq, Eq, Structural)]
pub enum QueryMode {
    /// Whether anything matches, from a single attempt.
    Exists,
    /// The first element that matches.
    First,
    /// Every element that the winning selector kept; empty if nothing matches.
    All,
    /// Every element that the winning selector kept; an error if nothing matches.
    AllRequired,
}

/// What the remote lookup of one selector returned.
#[derive(Debug, Clone, Copy, PartialEq, Eq, Structural)]
pub enum LookupOutcome {
    /// This many elements, numbered from 0 in the order the session gave them.
    Found(usize),
    /// The session reported that no element matches.
    NotFound,
    /// Any other error: it ends the query.
    Failed,
}

/// What a query run waits for.
#[derive(Debug, Clone, Copy, PartialEq, Eq, Structural)]
pub enum QueryPhase {
    AwaitLookup,
    AwaitVerdict,
    AwaitWake,
    Finished,
}

/// How a query run ended.
pub enum QueryResult {
    Exists(bool),
    /// The element with this number in the winning lookup.
    Element(usize),
    /// The elements with these numbers in the winning lookup.
    Elements(Vec<usize>),
    /// No selector matched; the message names every criterion.
    NoSuchElement(String),
    /// The lookup just reported failed with an error other than "not found".
    Fatal,
}

/// A query result, with sequences in place of vectors and strings.
pub enum QueryResultView {
    Exists(bool),
    Element(nat),
    Elements(Seq<usize>),
    NoSuchElement(Seq<char>),
    Fatal,
}

impl View for QueryResult {
    type V = QueryResultView;

    open spec fn view(&self) -> QueryResultView {
        match self {
            QueryResult::Exists(b) => QueryResultView::Exists(*b),
            QueryResult::Element(e) => QueryResultView::Element(*e as nat),
            QueryResult::Elements(v) => QueryResultView::Elements(v@),
            QueryResult::NoSuchElement(m) => QueryResultView::NoSuchElement(m@),
            QueryResult::Fatal => QueryResultView::Fatal,
        }
    }
}

/// What a query run asks its caller to do next.
pub enum QueryAction {
    /// Look up selector `selector` (one element at most where `single`), then call
    /// `on_lookup`.
    Lookup { selector: usize, single: bool },
    /// Evaluate filter `filter` of selector `selector` on element `element` of its
    /// lookup, then call `on_verdict`.
    Judge { selector: usize, filter: usize, element: usize },
    /// Sleep this many milliseconds, then call `on_wake`.
    Sleep(u64),
    /// The run is over.
    Done(QueryResult),
}

/// A query action, with sequences in place of vectors and strings.
pub enum QueryActionView {
    Lookup { selector: nat, single: bool },
    Judge { selector: nat, filter: nat, element: nat },
    Sleep(nat),
    Done(QueryResultView),
}

impl View for QueryAction {
    type V = QueryActionView;

    open spec fn view(&self) -> QueryActionView {
        match self {
            QueryAction::Lookup { selector, single } => QueryActionView::Lookup {
                selector: *selector as nat,
                single: *single,
            },
            QueryAction::Judge { selector, filter, element } => QueryActionView::Judge {
                selector: *selector as nat,
                filter: *filter as nat,
                element: *element as nat,
            },
            QueryAction::Sleep(d) => QueryActionView::Sleep(*d as nat),
            QueryAction::Done(r) => QueryActionView::Done(r@),
        }
    }
}

/// The state of one run of a query's poll loop.
pub struct QueryRun {
    pub mode: QueryMode,
    pub options: PollOptions,
    /// The number of the current attempt, from 1 (it stays at the largest `u64`
    /// once it gets there).
    pub tries: u64,
    /// The selector being evaluated in this attempt.
    pub selector: usize,
    pub phase: QueryPhase,
    pub filtering: FilterRun,
}

/// A query run, with sequences in place of vectors.
pub struct QueryRunView {
    pub mode: QueryMode,
    pub options: PollOptions,
    pub tries: nat,
    pub selector: nat,
    pub phase: QueryPhase,
    pub filtering: FilterRunView,
}

impl View for QueryRun {
    type V = QueryRunView;

    open spec fn view(&self) -> QueryRunView {
        QueryRunView {
            mode: self.mode,
            options: self.options,
            tries: self.tries as nat,
            selector: self.selector as nat,
            phase: self.phase,
            filtering: self.filtering@,
        }
    }
}

/// The run's phase is the one that its last action leads to.
pub open spec fn awaits(s: QueryRunView, a: QueryActionView) -> bool {
    match a {
        QueryActionView::Lookup { .. } => s.phase == QueryPhase::AwaitLookup,
        QueryActionView::Judge { .. } => s.phase == QueryPhase::AwaitVerdict,
        QueryActionView::Sleep(_) => s.phase == QueryPhase::AwaitWake,
        QueryActionView::Done(_) => s.phase == QueryPhase::Finished,
    }
}

/// The lookup of selector `j`.
pub open spec fn lookup_of(q: ElementQuery<'_>, j: nat) -> QueryActionView {
    QueryActionView::Lookup { selector: j, single: q.selectors@[j as int].single }
}

/// The result of a run in which nothing matched.
pub open spec fn no_match_result(q: ElementQuery<'_>, mode: QueryMode) -> QueryResultView {
    match mode {
        QueryMode::Exists => QueryResultView::Exists(false),
        QueryMode::All => QueryResultView::Elements(Seq::empty()),
        _ => QueryResultView::NoSuchElement(no_such_element_text(q.selectors@)),
    }
}

/// The result of a run whose winning selector kept `kept` (not empty).
pub open spec fn matched_result(mode: QueryMode, kept: Seq<usize>) -> QueryResultView {
    match mode {
        QueryMode::Exists => QueryResultView::Exists(true),
        QueryMode::First => QueryResultView::Element(kept[0] as nat),
        _ => QueryResultView::Elements(kept),
    }
}

/// The run ends with `result`.
pub open spec fn finish(s: QueryRunView, result: QueryResultView) -> (QueryRunView, QueryActionView) {
    (QueryRunView { phase: QueryPhase::Finished, ..s }, QueryActionView::Done(result))
}

/// The attempt after this one starts with the first selector.
pub open spec fn next_attempt(q: ElementQuery<'_>, s: QueryRunView) -> (QueryRunView, QueryActionView) {
    (
        QueryRunView {
            tries: if s.tries < u64::MAX { s.tries + 1 } else { s.tries },
            selector: 0,
            phase: QueryPhase::AwaitLookup,
            ..s
        },
        lookup_of(q, 0),
    )
}

/// The current selector produced nothing, at `elapsed` milliseconds.
///
/// Before the last selector only the deadline can end the run; after the last
/// one the policy decides between stopping, sleeping and the next attempt.
pub open spec fn selector_failed(q: ElementQuery<'_>, s: QueryRunView, elapsed: nat) -> (QueryRunView, QueryActionView) {
    if s.selector + 1 < q.selectors@.len() {
        if deadline_passed(s.options, s.tries, elapsed) {
            finish(s, no_match_result(q, s.mode))
        } else {
            (
                QueryRunView { selector: s.selector + 1, phase: QueryPhase::AwaitLookup, ..s },
                lookup_of(q, s.selector + 1),
            )
        }
    } else if stop_after_failure(s.options, s.tries, elapsed) {
        finish(s, no_match_result(q, s.mode))
    } else if pacing_delay(s.options, s.tries, elapsed) > 0 {
        (
            QueryRunView { phase: QueryPhase::AwaitWake, ..s },
            QueryActionView::Sleep(pacing_delay(s.options, s.tries, elapsed)),
        )
    } else {
        next_attempt(q, s)
    }
}

/// Go on from what the filter chain of the current selector asks.
pub open spec fn after_filters(
    q: ElementQuery<'_>,
    s: QueryRunView,
    fr: FilterRunView,
    fa: FilterActionView,
    elapsed: nat,
) -> (QueryRunView, QueryActionView) {
    let s = QueryRunView { filtering: fr, ..s };
    match fa {
        FilterActionView::Judge { filter, element } => (
            QueryRunView { phase: QueryPhase::AwaitVerdict, ..s },
            QueryActionView::Judge { selector: s.selector, filter, element },
        ),
        FilterActionView::Done(kept) => {
            if kept.len() == 0 {
                selector_failed(q, s, elapsed)
            } else {
                finish(s, matched_result(s.mode, kept))
            }
        },
    }
}

/// A filter run that holds nothing.
pub open spec fn empty_filter_run() -> FilterRunView {
    FilterRunView { filter: 0, candidates: Seq::empty(), position: 0, kept: Seq::empty() }
}

/// The start of a run: attempt 1 begins with the first selector; with no
/// selectors the run ends at once, with no lookup.
pub open spec fn query_start(q: ElementQuery<'_>, mode: QueryMode, options: PollOptions) -> (QueryRunView, QueryActionView) {
    let s = QueryRunView {
        mode,
        options,
        tries: 1,
        selector: 0,
        phase: QueryPhase::AwaitLookup,
        filtering: empty_filter_run(),
    };
    if q.selectors@.len() == 0 {
        finish(s, no_match_result(q, mode))
    } else {
        (s, lookup_of(q, 0))
    }
}

/// The lookup of the current selector returned `outcome`, at `elapsed`.
pub open spec fn query_on_lookup(
    q: ElementQuery<'_>,
    s: QueryRunView,
    outcome: LookupOutcome,
    elapsed: nat,
) -> (QueryRunView, QueryActionView) {
    match outcome {
        LookupOutcome::Failed => finish(s, QueryResultView::Fatal),
        LookupOutcome::NotFound => selector_failed(q, s, elapsed),
        LookupOutcome::Found(n) => {
            let (fr, fa) = filter_start(q.selectors@[s.selector as int].filters@.len(), n as nat);
            after_filters(q, s, fr, fa, elapsed)
        },
    }
}

/// The filter being applied gave verdict `v` on the element being judged.
pub open spec fn query_on_verdict(
    q: ElementQuery<'_>,
    s: QueryRunView,
    v: Verdict,
    elapsed: nat,
) -> (QueryRunView, QueryActionView) {
    let (fr, fa) = filter_step(q.selectors@[s.selector as int].filters@, s.filtering, v);
    after_filters(q, s, fr, fa, elapsed)
}

impl QueryRun {
    /// The run belongs to query `q` and is ready for the event that its phase
    /// names.
    pub open spec fn wf(&self, q: ElementQuery<'_>) -> bool {
        &&& self.phase != QueryPhase::Finished ==> self.selector < q.selectors@.len()
        &&& self.phase == QueryPhase::AwaitVerdict ==> self.filtering.wf(
            q.selectors@[self.selector as int].filters@.len(),
        )
    }


    fn finish(self, result: QueryResult) -> (r: (QueryRun, QueryAction))
        ensures
            (r.0@, r.1@) == finish(self@, result@),
            r.0.phase == QueryPhase::Finished,
    {
        (QueryRun { phase: QueryPhase::Finished, ..self }, QueryAction::Done(result))
    }

    fn no_match(&self, q: &ElementQuery<'_>) -> (r: QueryResult)
        ensures
            r@ == no_match_result(*q, self.mode),
    {
        match self.mode {
            QueryMode::Exists => QueryResult::Exists(false),
            QueryMode::All => QueryResult::Elements(Vec::new()),
            _ => QueryResult::NoSuchElement(no_such_element(&q.selectors)),
        }
    }

    fn next_attempt(self, q: &ElementQuery<'_>) -> (r: (QueryRun, QueryAction))
        requires
            q.selectors@.len() > 0,
        ensures
            (r.0@, r.1@) == next_attempt(*q, self@),
            r.0.wf(*q),
    {
        let tries = if self.tries < u64::MAX {
            self.tries + 1
        } else {
            self.tries
        };
        let single = q.selectors[0].single;
        (
            QueryRun { tries, selector: 0, phase: QueryPhase::AwaitLookup, ..self },
            QueryAction::Lookup { selector: 0, single },
        )
    }

    fn selector_failed(self, q: &ElementQuery<'_>, elapsed: u64) -> (r: (QueryRun, QueryAction))
        requires
            self.selector < q.selectors@.len(),
        ensures
            (r.0@, r.1@) == selector_failed(*q, self@, elapsed as nat),
            r.0.wf(*q),
    {
        let count = q.selectors.len();
        if self.selector + 1 < count {
            if self.options.deadline_passed(self.tries, elapsed) {
                let result = self.no_match(q);
                self.finish(result)
            } else {
                let next = self.selector + 1;
                let single = q.selectors[next].single;
                (
                    QueryRun { selector: next, phase: QueryPhase::AwaitLookup, ..self },
                    QueryAction::Lookup { selector: next, single },
                )
            }
        } else if self.options.stop_after_failure(self.tries, elapsed) {
            let result = self.no_match(q);
            self.finish(result)
        } else {
            let delay = self.options.pacing_delay(self.tries, elapsed);
            if delay > 0 {
                (QueryRun { phase: QueryPhase::AwaitWake, ..self }, QueryAction::Sleep(delay))
            } else {
                self.next_attempt(q)
            }
        }
    }

    fn after_filters(
        self,
        q: &ElementQuery<'_>,
        fr: FilterRun,
        fa: FilterAction,
        elapsed: u64,
    ) -> (r: (QueryRun, QueryAction))
        requires
            self.selector < q.selectors@.len(),
            fa is Judge ==> fr.wf(q.selectors@[self.selector as int].filters@.len()),
        ensures
            (r.0@, r.1@) == after_filters(*q, self@, fr@, fa@, elapsed as nat),
            r.0.wf(*q),
    {
        let s = QueryRun { filtering: fr, ..self };
        match fa {
            FilterAction::Judge { filter, element } => {
                let selector = s.selector;
                (
                    QueryRun { phase: QueryPhase::AwaitVerdict, ..s },
                    QueryAction::Judge { selector, filter, element },
                )
            },
            FilterAction::Done(kept) => {
                if kept.len() == 0 {
                    s.selector_failed(q, elapsed)
                } else {
                    let result = match s.mode {
                        QueryMode::Exists => QueryResult::Exists(true),
                        QueryMode::First => QueryResult::Element(kept[0]),
                        _ => QueryResult::Elements(kept),
                    };
                    s.finish(result)
                }
            },
        }
    }

    /// Take the outcome of the lookup that the run asked for, made when `elapsed`
    /// milliseconds had passed since the run started.
    pub fn on_lookup(self, q: &ElementQuery<'_>, outcome: LookupOutcome, elapsed: u64) -> (r: (
        QueryRun,
        QueryAction,
    ))
        requires
            self.wf(*q),
            self.phase == QueryPhase::AwaitLookup,
        ensures
            (r.0@, r.1@) == query_on_lookup(*q, self@, outcome, elapsed as nat),
            r.0.wf(*q),
            awaits(r.0@, r.1@),
    {
        match outcome {
            LookupOutcome::Failed => self.finish(QueryResult::Fatal),
            LookupOutcome::NotFound => self.selector_failed(q, elapsed),
            LookupOutcome::Found(n) => {
                let (fr, fa) = q.selectors[self.selector].run_filters(n);
                self.after_filters(q, fr, fa, elapsed)
            },
        }
    }

    /// Take the verdict of the filter evaluation that the run asked for, made when
    /// `elapsed` milliseconds had passed since the run started.
    pub fn on_verdict(self, q: &ElementQuery<'_>, v: Verdict, elapsed: u64) -> (r: (
        QueryRun,
        QueryAction,
    ))
        requires
            self.wf(*q),
            self.phase == QueryPhase::AwaitVerdict,
        ensures
            (r.0@, r.1@) == query_on_verdict(*q, self@, v, elapsed as nat),
            r.0.wf(*q),
            awaits(r.0@, r.1@),
    {
        let QueryRun { mode, options, tries, selector, phase, filtering } = self;
        let (fr, fa) = filtering.on_verdict(&q.selectors[selector].filters, v);
        let s = QueryRun {
            mode,
            options,
            tries,
            selector,
            phase,
            filtering: FilterRun { filter: 0, candidates: Vec::new(), position: 0, kept: Vec::new() },
        };
        s.after_filters(q, fr, fa, elapsed)
    }

    /// The sleep that the run asked for is over: the next attempt starts.
    pub fn on_wake(self, q: &ElementQuery<'_>) -> (r: (QueryRun, QueryAction))
        requires
            self.wf(*q),
            self.phase == QueryPhase::AwaitWake,
        ensures
            (r.0@, r.1@) == next_attempt(*q, self@),
            r.0.wf(*q),
            awaits(r.0@, r.1@),
    {
        self.next_attempt(q)
    }
}

impl<'a> ElementQuery<'a> {
    /// Begin a run of this query for `mode` under `options`.
    pub fn start(&self, mode: QueryMode, options: PollOptions) -> (r: (QueryRun, QueryAction))
        ensures
            (r.0@, r.1@) == query_start(*self, mode, options),
            r.0.wf(*self),
            awaits(r.0@, r.1@),
    {
        let s = QueryRun {
            mode,
            options,
            tries: 1,
            selector: 0,
            phase: QueryPhase::AwaitLookup,
            filtering: FilterRun { filter: 0, candidates: Vec::new(), position: 0, kept: Vec::new() },
        };
        if self.selectors.len() == 0 {
            let result = s.no_match(self);
            s.finish(result)
        } else {
            let single = self.selectors[0].single;
            (s, QueryAction::Lookup { selector: 0, single })
        }
    }

    /// Begin the existence check: one attempt over the selectors, with no waiting,
    /// whatever the query's poller. It ends in `Exists`.
    pub fn check_exists(&self) -> (r: (QueryRun, QueryAction))
        ensures
            (r.0@, r.1@) == query_start(*self, QueryMode::Exists, no_wait_options()),
            r.0.wf(*self),
            awaits(r.0@, r.1@),
    {
        self.start(QueryMode::Exists, PollOptions::no_wait())
    }

    /// Begin a run for the first matching element under the query's poller. It
    /// ends in `Element` or `NoSuchElement`.
    pub fn first(&self) -> (r: (QueryRun, QueryAction))
        ensures
            (r.0@, r.1@) == query_start(*self, QueryMode::First, options_of(self.poller)),
            r.0.wf(*self),
            awaits(r.0@, r.1@),
    {
        self.start(QueryMode::First, self.poller.options())
    }

    /// Begin a run for every element that the winning selector keeps, under the
    /// query's poller. It ends in `Elements`, empty when nothing matched.
    pub fn all(&self) -> (r: (QueryRun, QueryAction))
        ensures
            (r.0@, r.1@) == query_start(*self, QueryMode::All, options_of(self.poller)),
            r.0.wf(*self),
            awaits(r.0@, r.1@),
    {
        self.start(QueryMode::All, self.poller.options())
    }

    /// As `all`, but a run in which nothing matched ends in `NoSuchElement`.
    pub fn all_required(&self) -> (r: (QueryRun, QueryAction))
        ensures
            (r.0@, r.1@) == query_start(*self, QueryMode::AllRequired, options_of(self.poller)),
            r.0.wf(*self),
            awaits(r.0@, r.1@),
    {
        self.start(QueryMode::AllRequired, self.poller.options())
    }
}


/// `new` is `old` with one more filter on its last selector (or `old` itself when
/// it has no selector).
pub open spec fn extends_last_selector(old: ElementQuery<'_>, new: ElementQuery<'_>) -> bool {
    let n = old.selectors@.len();
    &&& new.poller == old.poller
    &&& new.selectors@.len() == n
    &&& n == 0 ==> new.selectors@ == old.selectors@
    &&& n > 0 ==> {
        &&& forall|i: int| 0 <= i < n - 1 ==> new.selectors@[i] == old.selectors@[i]
        &&& new.selectors@[n - 1].by == old.selectors@[n - 1].by
        &&& new.selectors@[n - 1].single == old.selectors@[n - 1].single
        &&& new.selectors@[n - 1].filters@.drop_last() == old.selectors@[n - 1].filters@
        &&& new.selectors@[n - 1].filters@.len() == old.selectors@[n - 1].filters@.len() + 1
    }
}

/// The filter that was added last to the last selector.
pub open spec fn last_filter(q: ElementQuery<'_>) -> ElementFilter {
    q.selectors@.last().filters@.last()
}

/// `f` passes an element whose flag `read` equals `expected`.
pub open spec fn checks_state(f: ElementFilter, read: ReadView, expected: bool) -> bool {
    &&& f.expected == expected
    &&& f.condition matches Condition::State(r) && r@ == read
}

/// `f` passes an element whose values, read in order, all match their patterns.
pub open spec fn checks_values(f: ElementFilter, pairs: Seq<(ReadView, TextMatch)>) -> bool {
    &&& f.expected
    &&& f.condition matches Condition::Values(v) && v@.len() == pairs.len() && forall|i: int|
        0 <= i < pairs.len() ==> (#[trigger] v@[i]).0@ == pairs[i].0 && v@[i].1 == pairs[i].1
}

/// The kinds of named values that an element has.
pub enum NamedValue {
    Attribute,
    Property,
    CssProperty,
}

pub open spec fn named_read(kind: NamedValue, name: Seq<char>) -> ReadView {
    match kind {
        NamedValue::Attribute => ReadView::Attribute(name),
        NamedValue::Property => ReadView::Property(name),
        NamedValue::CssProperty => ReadView::CssProperty(name),
    }
}

/// The pairs of `wanted`, each name read as a value of `kind`.
pub open spec fn named_pairs(kind: NamedValue, wanted: Seq<(String, TextMatch)>) -> Seq<(ReadView, TextMatch)> {
    wanted.map_values(|p: (String, TextMatch)| (named_read(kind, p.0@), p.1))
}

fn state_filter(read: ElementRead, expected: bool) -> (f: ElementFilter)
    ensures
        checks_state(f, read@, expected),
{
    ElementFilter { condition: Condition::State(read), expected }
}

fn value_filter(read: ElementRead, pattern: TextMatch) -> (f: ElementFilter)
    ensures
        checks_values(f, seq![(read@, pattern)]),
{
    let ghost rv = read@;
    let ghost pv = pattern;
    let mut pairs: Vec<(ElementRead, TextMatch)> = Vec::new();
    pairs.push((read, pattern));
    let f = ElementFilter { condition: Condition::Values(pairs), expected: true };
    assert(pairs@.len() == 1 && pairs@[0].0@ == rv && pairs@[0].1 == pv);
    f
}

fn make_named_read(kind: &NamedValue, name: String) -> (r: ElementRead)
    ensures
        r@ == named_read(*kind, name@),
{
    match kind {
        NamedValue::Attribute => ElementRead::Attribute(name),
        NamedValue::Property => ElementRead::Property(name),
        NamedValue::CssProperty => ElementRead::CssProperty(name),
    }
}

pub(crate) fn named_values_filter(kind: NamedValue, wanted: Vec<(String, TextMatch)>) -> (f: ElementFilter)
    ensures
        checks_values(f, named_pairs(kind, wanted@)),
{
    let ghost target = named_pairs(kind, wanted@);
    let mut rest = wanted;
    let mut pairs: Vec<(ElementRead, TextMatch)> = Vec::new();
    while rest.len() > 0
        invariant
            pairs@.len() + rest@.len() == target.len(),
            target == named_pairs(kind, wanted@),
            forall|i: int| 0 <= i < pairs@.len() ==> (#[trigger] pairs@[i]).0@ == target[i].0 && pairs@[i].1 == target[i].1,
            forall|i: int| 0 <= i < rest@.len() ==> named_read(kind, (#[trigger] rest@[i]).0@) == target[pairs@.len() + i].0 && rest@[i].1 == target[pairs@.len() + i].1,
        decreases rest@.len(),
    {
        let ghost old_rest = rest@;
        let (name, pattern) = rest.remove(0);
        assert(forall|i: int| 0 <= i < rest@.len() ==> rest@[i] == old_rest[i + 1]);
        let read = make_named_read(&kind, name);
        pairs.push((read, pattern));
    }
    ElementFilter { condition: Condition::Values(pairs), expected: true }
}

impl<'a> ElementQuery<'a> {
    /// A query with one selector, on `by`, under `poller`.
    pub fn new(poller: ElementPoller, by: By<'a>) -> (r: Self)
        ensures
            r.poller == poller,
            r.selectors@.len() == 1,
            r.selectors@[0].by == by,
            !r.selectors@[0].single,
            r.selectors@[0].filters@.len() == 0,
    {
        let mut selectors = Vec::new();
        selectors.push(ElementSelector::new(by));
        ElementQuery { poller, selectors }
    }

    /// Use `poller` for this query only.
    pub fn with_poller(self, poller: ElementPoller) -> (r: Self)
        ensures
            r.poller == poller,
            r.selectors@ == self.selectors@,
    {
        ElementQuery { poller, ..self }
    }

    /// Poll until `timeout` milliseconds have elapsed, once per `interval`.
    pub fn wait(self, timeout: u64, interval: u64) -> (r: Self)
        ensures
            r.poller == ElementPoller::TimeoutWithInterval(timeout, interval),
            r.selectors@ == self.selectors@,
    {
        self.with_poller(ElementPoller::TimeoutWithInterval(timeout, interval))
    }

    /// Make a single attempt, with no waiting.
    pub fn nowait(self) -> (r: Self)
        ensures
            r.poller == ElementPoller::NoWait,
            r.selectors@ == self.selectors@,
    {
        self.with_poller(ElementPoller::NoWait)
    }

    fn add_selector(self, selector: ElementSelector<'a>) -> (r: Self)
        ensures
            r.poller == self.poller,
            r.selectors@ == self.selectors@.push(selector),
    {
        let mut q = self;
        q.selectors.push(selector);
        q
    }

    /// Add a fallback selector on `by`; the filters added after it apply to it.
    pub fn or(self, by: By<'a>) -> (r: Self)
        ensures
            r.poller == self.poller,
            r.selectors@.len() == self.selectors@.len() + 1,
            r.selectors@.drop_last() == self.selectors@,
            r.selectors@.last().by == by,
            !r.selectors@.last().single,
            r.selectors@.last().filters@.len() == 0,
    {
        let r = self.add_selector(ElementSelector::new(by));
        assert(r.selectors@.drop_last() =~= self.selectors@);
        r
    }

    /// Add `f` to the filters of the last selector.
    pub fn with_filter(self, f: ElementFilter) -> (r: Self)
        ensures
            extends_last_selector(self, r),
            self.selectors@.len() > 0 ==> last_filter(r) == f,
    {
        let mut q = self;
        let n = q.selectors.len();
        if n > 0 {
            let ghost before = q.selectors@;
            let mut last = q.selectors.pop().unwrap();
            last.add_filter(f);
            q.selectors.push(last);
            assert(q.selectors@.drop_last() =~= before.drop_last());
            assert(q.selectors@[n - 1].filters@.drop_last() =~= before[n - 1].filters@);
        }
        q
    }

    /// Make the last selector look up at most one raw match. Its filters then see
    /// only that element.
    pub fn with_single_selector(self) -> (r: Self)
        ensures
            r.poller == self.poller,
            r.selectors@.len() == self.selectors@.len(),
            self.selectors@.len() > 0 ==> {
                &&& r.selectors@.drop_last() == self.selectors@.drop_last()
                &&& r.selectors@.last().single
                &&& r.selectors@.last().by == self.selectors@.last().by
                &&& r.selectors@.last().filters@ == self.selectors@.last().filters@
            },
            self.selectors@.len() == 0 ==> r.selectors@ == self.selectors@,
    {
        let mut q = self;
        let n = q.selectors.len();
        if n > 0 {
            let ghost before = q.selectors@;
            let mut last = q.selectors.pop().unwrap();
            last.set_single();
            q.selectors.push(last);
            assert(q.selectors@.drop_last() =~= before.drop_last());
        }
        q
    }

    /// Keep only enabled elements.
    pub fn and_enabled(self) -> (r: Self)
        ensures
            extends_last_selector(self, r),
            self.selectors@.len() > 0 ==> checks_state(last_filter(r), ReadView::Enabled, true),
    {
        self.with_filter(state_filter(ElementRead::Enabled, true))
    }

    /// Keep only elements that are not enabled.
    pub fn and_not_enabled(self) -> (r: Self)
        ensures
            extends_last_selector(self, r),
            self.selectors@.len() > 0 ==> checks_state(last_filter(r), ReadView::Enabled, false),
    {
        self.with_filter(state_filter(ElementRead::Enabled, false))
    }

    /// Keep only selected elements.
    pub fn and_selected(self) -> (r: Self)
        ensures
            extends_last_selector(self, r),
            self.selectors@.len() > 0 ==> checks_state(last_filter(r), ReadView::Selected, true),
    {
        self.with_filter(state_filter(ElementRead::Selected, true))
    }

    /// Keep only elements that are not selected.
    pub fn and_not_selected(self) -> (r: Self)
        ensures
            extends_last_selector(self, r),
            self.selectors@.len() > 0 ==> checks_state(last_filter(r), ReadView::Selected, false),
    {
        self.with_filter(state_filter(ElementRead::Selected, false))
    }

    /// Keep only elements whose text matches `text`.
    pub fn with_text(self, text: TextMatch) -> (r: Self)
        ensures
            extends_last_selector(self, r),
            self.selectors@.len() > 0 ==> checks_values(last_filter(r), seq![(ReadView::Text, text)]),
    {
        self.with_filter(value_filter(ElementRead::Text, text))
    }

    /// Keep only elements whose id matches `id`.
    pub fn with_id(self, id: TextMatch) -> (r: Self)
        ensures
            extends_last_selector(self, r),
            self.selectors@.len() > 0 ==> checks_values(last_filter(r), seq![(ReadView::Id, id)]),
    {
        self.with_filter(value_filter(ElementRead::Id, id))
    }

    /// Keep only elements whose class name matches `class_name`.
    pub fn with_class(self, class_name: TextMatch) -> (r: Self)
        ensures
            extends_last_selector(self, r),
            self.selectors@.len() > 0 ==> checks_values(
                last_filter(r),
                seq![(ReadView::ClassName, class_name)],
            ),
    {
        self.with_filter(value_filter(ElementRead::ClassName, class_name))
    }

    /// Keep only elements whose tag name matches `tag_name`.
    pub fn with_tag(self, tag_name: TextMatch) -> (r: Self)
        ensures
            extends_last_selector(self, r),
            self.selectors@.len() > 0 ==> checks_values(
                last_filter(r),
                seq![(ReadView::TagName, tag_name)],
            ),
    {
        self.with_filter(value_filter(ElementRead::TagName, tag_name))
    }

    /// Keep only elements whose value matches `value`.
    pub fn with_value(self, value: TextMatch) -> (r: Self)
        ensures
            extends_last_selector(self, r),
            self.selectors@.len() > 0 ==> checks_values(last_filter(r), seq![(ReadView::Value, value)]),
    {
        self.with_filter(value_filter(ElementRead::Value, value))
    }

    /// Keep only elements whose attribute `attribute_name` matches `value`.
    pub fn with_attribute(self, attribute_name: &str, value: TextMatch) -> (r: Self)
        ensures
            extends_last_selector(self, r),
            self.selectors@.len() > 0 ==> checks_values(
                last_filter(r),
                seq![(ReadView::Attribute(attribute_name@), value)],
            ),
    {
        self.with_filter(value_filter(ElementRead::Attribute(attribute_name.to_owned()), value))
    }

    /// Keep only elements each of whose named attributes matches its pattern.
    pub fn with_attributes(self, desired_attributes: Vec<(String, TextMatch)>) -> (r: Self)
        ensures
            extends_last_selector(self, r),
            self.selectors@.len() > 0 ==> checks_values(
                last_filter(r),
                named_pairs(NamedValue::Attribute, desired_attributes@),
            ),
    {
        self.with_filter(named_values_filter(NamedValue::Attribute, desired_attributes))
    }

    /// Keep only elements whose property `property_name` matches `value`.
    pub fn with_property(self, property_name: &str, value: TextMatch) -> (r: Self)
        ensures
            extends_last_selector(self, r),
            self.selectors@.len() > 0 ==> checks_values(
                last_filter(r),
                seq![(ReadView::Property(property_name@), value)],
            ),
    {
        self.with_filter(value_filter(ElementRead::Property(property_name.to_owned()), value))
    }

    /// Keep only elements each of whose named properties matches its pattern.
    pub fn with_properties(self, desired_properties: Vec<(String, TextMatch)>) -> (r: Self)
        ensures
            extends_last_selector(self, r),
            self.selectors@.len() > 0 ==> checks_values(
                last_filter(r),
                named_pairs(NamedValue::Property, desired_properties@),
            ),
    {
        self.with_filter(named_values_filter(NamedValue::Property, desired_properties))
    }

    /// Keep only elements whose CSS property `css_property_name` matches `value`.
    pub fn with_css_property(self, css_property_name: &str, value: TextMatch) -> (r: Self)
        ensures
            extends_last_selector(self, r),
            self.selectors@.len() > 0 ==> checks_values(
                last_filter(r),
                seq![(ReadView::CssProperty(css_property_name@), value)],
            ),
    {
        self.with_filter(value_filter(ElementRead::CssProperty(css_property_name.to_owned()), value))
    }

    /// Keep only elements each of whose named CSS properties matches its pattern.
    pub fn with_css_properties(self, desired_css_properties: Vec<(String, TextMatch)>) -> (r: Self)
        ensures
            extends_last_selector(self, r),
            self.selectors@.len() > 0 ==> checks_values(
                last_filter(r),
                named_pairs(NamedValue::CssProperty, desired_css_properties@),
            ),
    {
        self.with_filter(named_values_filter(NamedValue::CssProperty, desired_css_properties))
    }
}

} // verus!
