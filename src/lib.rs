//! Resilient element queries and waits in front of a browser-automation session.
//!
//! The library holds the decisions: which selector to look up next, which filter
//! to run on which candidate, when to sleep, for how long, and when to give up.
//! Callers perform each requested action against the remote session and hand
//! the outcome back.
pub mod condition;
pub mod poller;
pub mod query;
pub mod runs;
pub mod selector;
pub mod text_match;
pub mod waiter;

pub use condition::{
    clone_read, Condition, ConditionStep, ConditionStepView, ElementRead, ReadAnswer, ReadView, Verdict,
};
pub use poller::{ElementPoller, PollOptions};
pub use query::{
    get_selector_summary, no_such_element, ElementQuery, LookupOutcome, NamedValue, QueryAction,
    QueryActionView, QueryMode, QueryPhase, QueryResult, QueryResultView, QueryRun, QueryRunView,
};
pub use selector::{
    ElementFilter, ElementSelector, FilterAction, FilterActionView, FilterRun, FilterRunView,
};
pub use stringmatch::StringMatchLength;
pub use text_match::TextMatch;
pub use waiter::{
    ElementWaitCondition, ElementWaiter, WaitAction, WaitActionView, WaitPhase, WaitResult,
    WaitResultView, WaitRun, WaitRunView,
};
