use crate::condition::{Condition, Verdict};
use thirtyfour::By;
use vstd::prelude::*;

verus! {

#[verifier::external_type_specification]
pub struct ExBy<'a>(thirtyfour::By<'a>);

/// How thirtyfour displays a criterion.
pub open spec fn by_text(by: By<'_>) -> Seq<char> {
    match by {
        By::Id(x) => "Id("@ + x@ + ")"@,
        By::XPath(x) => "XPath("@ + x@ + ")"@,
        By::LinkText(x) => "Link Text("@ + x@ + ")"@,
        By::PartialLinkText(x) => "Partial Link Text("@ + x@ + ")"@,
        By::Name(x) => "Name("@ + x@ + ")"@,
        By::Tag(x) => "Tag("@ + x@ + ")"@,
        By::ClassName(x) => "Class("@ + x@ + ")"@,
        By::Css(x) => "CSS("@ + x@ + ")"@,
    }
}

/// Relies on thirtyfour's `Display` for `By`: the kind of criterion, then its
/// text in parentheses.
#[verifier::external_body]
pub(crate) fn by_to_string(by: &By<'_>) -> (r: String)
    ensures
        r@ == by_text(*by),
{
    by.to_string()
}

/// A local filter on the elements that a lookup found: the element passes when
/// the condition's verdict is `expected`; an element whose condition cannot be
/// read does not pass.
#[derive(Debug, Clone)]
pub struct ElementFilter {
    pub condition: Condition,
    pub expected: bool,
}

/// Whether an element with verdict `v` passes filter `f`.
pub open spec fn filter_accepts(f: ElementFilter, v: Verdict) -> bool {
    match v {
        Verdict::Holds(b) => b == f.expected,
        Verdict::Failed => false,
    }
}

impl ElementFilter {
    /// Whether an element with this verdict passes the filter.
    pub fn accepts(&self, v: Verdict) -> (r: bool)
        ensures
            r == filter_accepts(*self, v),
    {
        match v {
            Verdict::Holds(b) => b == self.expected,
            Verdict::Failed => false,
        }
    }
}

/// One lookup criterion with its ordered chain of filters.
pub struct ElementSelector<'a> {
    /// Look up at most one raw match rather than all of them. Filters then see only
    /// that one candidate.
    pub single: bool,
    pub by: By<'a>,
    pub filters: Vec<ElementFilter>,
}

impl<'a> ElementSelector<'a> {
    /// A selector on `by`, looking up every match, with no filters.
    pub fn new(by: By<'a>) -> (r: Self)
        ensures
            r.by == by,
            !r.single,
            r.filters@.len() == 0,
    {
        ElementSelector { single: false, by, filters: Vec::new() }
    }

    /// Look up at most one raw match.
    pub fn set_single(&mut self)
        ensures
            final(self).single,
            final(self).by == old(self).by,
            final(self).filters@ == old(self).filters@,
    {
        self.single = true;
    }

    /// Append a filter to the chain.
    pub fn add_filter(&mut self, f: ElementFilter)
        ensures
            final(self).single == old(self).single,
            final(self).by == old(self).by,
            final(self).filters@ == old(self).filters@.push(f),
    {
        self.filters.push(f);
    }

    /// Begin running the filter chain on the `count` elements that the lookup found,
    /// numbered from 0.
    pub fn run_filters(&self, count: usize) -> (r: (FilterRun, FilterAction))
        ensures
            (r.0@, r.1@) == filter_start(self.filters@.len(), count as nat),
            r.1 is Judge ==> r.0.wf(self.filters@.len()),
    {
        let mut all: Vec<usize> = Vec::new();
        let mut i: usize = 0;
        while i < count
            invariant
                i <= count,
                all@ == index_seq(i as nat),
            decreases count - i,
        {
            all.push(i);
            i = i + 1;
            assert(all@ =~= index_seq(i as nat));
        }
        if count == 0 || self.filters.len() == 0 {
            (FilterRun { filter: 0, candidates: Vec::new(), position: 0, kept: Vec::new() }, FilterAction::Done(all))
        } else {
            (FilterRun { filter: 0, candidates: all, position: 0, kept: Vec::new() }, FilterAction::Judge { filter: 0, element: 0 })
        }
    }
}

/// The numbers `0, 1, ..., n - 1`.
pub open spec fn index_seq(n: nat) -> Seq<usize> {
    Seq::new(n, |i: int| i as usize)
}

/// A filter chain part-way through: filter `filter` is being applied to
/// `candidates`, of which those before `position` have been judged and `kept`
/// passed.
pub struct FilterRun {
    pub filter: usize,
    pub candidates: Vec<usize>,
    pub position: usize,
    pub kept: Vec<usize>,
}

/// A filter run, with sequences in place of vectors.
pub struct FilterRunView {
    pub filter: nat,
    pub candidates: Seq<usize>,
    pub position: nat,
    pub kept: Seq<usize>,
}

impl View for FilterRun {
    type V = FilterRunView;

    open spec fn view(&self) -> FilterRunView {
        FilterRunView {
            filter: self.filter as nat,
            candidates: self.candidates@,
            position: self.position as nat,
            kept: self.kept@,
        }
    }
}

/// What the filter chain asks for next.
pub enum FilterAction {
    /// Evaluate filter `filter` on element `element` and report its verdict.
    Judge { filter: usize, element: usize },
    /// The chain is finished; these elements passed every filter.
    Done(Vec<usize>),
}

/// A filter action, with a sequence in place of the vector.
pub enum FilterActionView {
    Judge { filter: nat, element: nat },
    Done(Seq<usize>),
}

impl View for FilterAction {
    type V = FilterActionView;

    open spec fn view(&self) -> FilterActionView {
        match self {
            FilterAction::Judge { filter, element } => FilterActionView::Judge {
                filter: *filter as nat,
                element: *element as nat,
            },
            FilterAction::Done(v) => FilterActionView::Done(v@),
        }
    }
}

impl FilterRun {
    /// The run is in the middle of a pass of one of `filter_count` filters.
    pub open spec fn wf(&self, filter_count: nat) -> bool {
        &&& self.filter < filter_count
        &&& self.position < self.candidates@.len()
        &&& self.kept@.len() <= self.position
    }

    /// Take the verdict on the element being judged and move on.
    pub fn on_verdict(self, filters: &Vec<ElementFilter>, v: Verdict) -> (r: (FilterRun, FilterAction))
        requires
            self.wf(filters@.len()),
        ensures
            (r.0@, r.1@) == filter_step(filters@, self@, v),
            r.1 is Judge ==> r.0.wf(filters@.len()),
    {
        let FilterRun { filter, candidates, position, mut kept } = self;
        let count = candidates.len();
        let filter_count = filters.len();
        if filters[filter].accepts(v) {
            kept.push(candidates[position]);
        }
        let position = position + 1;
        if position < count {
            let element = candidates[position];
            (FilterRun { filter, candidates, position, kept }, FilterAction::Judge { filter, element })
        } else if kept.len() == 0 {
            (FilterRun { filter, candidates, position, kept }, FilterAction::Done(Vec::new()))
        } else if filter + 1 < filter_count {
            let element = kept[0];
            (
                FilterRun { filter: filter + 1, candidates: kept, position: 0, kept: Vec::new() },
                FilterAction::Judge { filter: filter + 1, element },
            )
        } else {
            (FilterRun { filter, candidates, position, kept: Vec::new() }, FilterAction::Done(kept))
        }
    }
}

/// The first step of a filter chain of `filter_count` filters on `count`
/// elements.
pub open spec fn filter_start(filter_count: nat, count: nat) -> (FilterRunView, FilterActionView) {
    if count == 0 || filter_count == 0 {
        (
            FilterRunView { filter: 0, candidates: Seq::empty(), position: 0, kept: Seq::empty() },
            FilterActionView::Done(index_seq(count)),
        )
    } else {
        (
            FilterRunView { filter: 0, candidates: index_seq(count), position: 0, kept: Seq::empty() },
            FilterActionView::Judge { filter: 0, element: 0 },
        )
    }
}

/// One step of a filter chain: verdict `v` on the candidate at `s.position`.
/// A pass that keeps nothing ends the chain; the later filters are skipped.
pub open spec fn filter_step(
    filters: Seq<ElementFilter>,
    s: FilterRunView,
    v: Verdict,
) -> (FilterRunView, FilterActionView) {
    let kept = if filter_accepts(filters[s.filter as int], v) {
        s.kept.push(s.candidates[s.position as int])
    } else {
        s.kept
    };
    let position = s.position + 1;
    if position < s.candidates.len() {
        (
            FilterRunView { position, kept, ..s },
            FilterActionView::Judge { filter: s.filter, element: s.candidates[position as int] as nat },
        )
    } else if kept.len() == 0 {
        (FilterRunView { position, kept, ..s }, FilterActionView::Done(Seq::empty()))
    } else if s.filter + 1 < filters.len() {
        (
            FilterRunView { filter: s.filter + 1, candidates: kept, position: 0, kept: Seq::empty() },
            FilterActionView::Judge { filter: s.filter + 1, element: kept[0] as nat },
        )
    } else {
        (FilterRunView { position, kept: Seq::empty(), ..s }, FilterActionView::Done(kept))
    }
}

} // verus!
