use crate::text_match::{text_matches, TextMatch};
use vstd::prelude::*;

verus! {

/// One value that a condition reads from a remote element.
#[derive(Debug, Clone)]
pub enum ElementRead {
    Displayed,
    Enabled,
    Selected,
    Clickable,
    Present,
    Text,
    Id,
    ClassName,
    TagName,
    Value,
    Attribute(String),
    Property(String),
    CssProperty(String),
    /// The caller-supplied predicate with this number.
    Custom(usize),
}

/// The same read, with names as character sequences.
pub enum ReadView {
    Displayed,
    Enabled,
    Selected,
    Clickable,
    Present,
    Text,
    Id,
    ClassName,
    TagName,
    Value,
    Attribute(Seq<char>),
    Property(Seq<char>),
    CssProperty(Seq<char>),
    Custom(usize),
}

impl View for ElementRead {
    type V = ReadView;

    open spec fn view(&self) -> ReadView {
        match self {
            ElementRead::Displayed => ReadView::Displayed,
            ElementRead::Enabled => ReadView::Enabled,
            ElementRead::Selected => ReadView::Selected,
            ElementRead::Clickable => ReadView::Clickable,
            ElementRead::Present => ReadView::Present,
            ElementRead::Text => ReadView::Text,
            ElementRead::Id => ReadView::Id,
            ElementRead::ClassName => ReadView::ClassName,
            ElementRead::TagName => ReadView::TagName,
            ElementRead::Value => ReadView::Value,
            ElementRead::Attribute(n) => ReadView::Attribute(n@),
            ElementRead::Property(n) => ReadView::Property(n@),
            ElementRead::CssProperty(n) => ReadView::CssProperty(n@),
            ElementRead::Custom(k) => ReadView::Custom(*k),
        }
    }
}

/// What a remote read returned.
#[derive(Debug, Clone)]
pub enum ReadAnswer {
    /// A state flag (displayed, enabled, ...) or a caller predicate's answer.
    Flag(bool),
    /// A text value; `None` where the element has no such value.
    Value(Option<String>),
    /// The remote call failed.
    Failed,
}

/// A boolean condition over one remote element.
#[derive(Debug, Clone)]
pub enum Condition {
    /// Holds when the flag read is true.
    State(ElementRead),
    /// Holds when every value read, in order, is present and matches its pattern.
    Values(Vec<(ElementRead, TextMatch)>),
}

/// Where the evaluation of a condition stands, given the answers so far.
#[derive(Debug, Clone)]
pub enum ConditionStep {
    /// Perform this read next and add its answer.
    Read(ElementRead),
    /// The condition is decided.
    Holds(bool),
    /// A read failed: the condition cannot be decided.
    Failed,
}

/// A condition step, with names as character sequences.
pub enum ConditionStepView {
    Read(ReadView),
    Holds(bool),
    Failed,
}

impl View for ConditionStep {
    type V = ConditionStepView;

    open spec fn view(&self) -> ConditionStepView {
        match self {
            ConditionStep::Read(r) => ConditionStepView::Read(r@),
            ConditionStep::Holds(b) => ConditionStepView::Holds(*b),
            ConditionStep::Failed => ConditionStepView::Failed,
        }
    }
}

/// The decided result of a condition: it holds or not, or a read failed.
#[derive(Debug, Clone, Copy, PartialEq, Eq, Structural)]
pub enum Verdict {
    Holds(bool),
    Failed,
}

/// The evaluation of `pairs` from pair `k` on, given the answers so far.
pub open spec fn values_step(
    pairs: Seq<(ElementRead, TextMatch)>,
    answers: Seq<ReadAnswer>,
    k: nat,
) -> ConditionStepView
    decreases pairs.len() - k,
{
    if k >= pairs.len() {
        ConditionStepView::Holds(true)
    } else if k >= answers.len() {
        ConditionStepView::Read(pairs[k as int].0@)
    } else {
        match answers[k as int] {
            ReadAnswer::Value(Some(s)) => {
                if text_matches(pairs[k as int].1, s@) {
                    values_step(pairs, answers, k + 1)
                } else {
                    ConditionStepView::Holds(false)
                }
            },
            ReadAnswer::Value(None) => ConditionStepView::Holds(false),
            _ => ConditionStepView::Failed,
        }
    }
}

/// The next step of evaluating `c` after `answers`, one answer per read made.
pub open spec fn condition_step(c: Condition, answers: Seq<ReadAnswer>) -> ConditionStepView {
    match c {
        Condition::State(r) => {
            if answers.len() == 0 {
                ConditionStepView::Read(r@)
            } else {
                match answers[0] {
                    ReadAnswer::Flag(b) => ConditionStepView::Holds(b),
                    _ => ConditionStepView::Failed,
                }
            }
        },
        Condition::Values(pairs) => values_step(pairs@, answers, 0),
    }
}

impl Condition {
    /// The next read to make, or the decided result, after `answers`.
    ///
    /// An answer of the wrong kind for its read counts as a failed read.
    pub fn next_step(&self, answers: &Vec<ReadAnswer>) -> (r: ConditionStep)
        ensures
            r@ == condition_step(*self, answers@),
    {
        match self {
            Condition::State(read) => {
                if answers.len() == 0 {
                    ConditionStep::Read(clone_read(read))
                } else {
                    match &answers[0] {
                        ReadAnswer::Flag(b) => ConditionStep::Holds(*b),
                        _ => ConditionStep::Failed,
                    }
                }
            },
            Condition::Values(pairs) => {
                let mut k: usize = 0;
                while k < pairs.len()
                    invariant
                        k <= pairs@.len(),
                        condition_step(*self, answers@) == values_step(
                            pairs@,
                            answers@,
                            k as nat,
                        ),
                    decreases pairs@.len() - k,
                {
                    if k >= answers.len() {
                        return ConditionStep::Read(clone_read(&pairs[k].0));
                    }
                    match &answers[k] {
                        ReadAnswer::Value(Some(s)) => {
                            if !pairs[k].1.is_match(s.as_str()) {
                                return ConditionStep::Holds(false);
                            }
                        },
                        ReadAnswer::Value(None) => {
                            return ConditionStep::Holds(false);
                        },
                        _ => {
                            return ConditionStep::Failed;
                        },
                    }
                    k = k + 1;
                }
                ConditionStep::Holds(true)
            },
        }
    }
}

/// A copy of a read.
pub fn clone_read(r: &ElementRead) -> (c: ElementRead)
    ensures
        c@ == r@,
{
    match r {
        ElementRead::Displayed => ElementRead::Displayed,
        ElementRead::Enabled => ElementRead::Enabled,
        ElementRead::Selected => ElementRead::Selected,
        ElementRead::Clickable => ElementRead::Clickable,
        ElementRead::Present => ElementRead::Present,
        ElementRead::Text => ElementRead::Text,
        ElementRead::Id => ElementRead::Id,
        ElementRead::ClassName => ElementRead::ClassName,
        ElementRead::TagName => ElementRead::TagName,
        ElementRead::Value => ElementRead::Value,
        ElementRead::Attribute(n) => ElementRead::Attribute(n.clone()),
        ElementRead::Property(n) => ElementRead::Property(n.clone()),
        ElementRead::CssProperty(n) => ElementRead::CssProperty(n.clone()),
        ElementRead::Custom(k) => ElementRead::Custom(*k),
    }
}

} // verus!
