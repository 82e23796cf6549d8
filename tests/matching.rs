use thirtyfour_query::{
    Condition, ConditionStep, ElementFilter, ElementPoller, ElementRead, PollOptions, ReadAnswer,
    StringMatchLength, TextMatch, Verdict,
};

#[test]
fn full_match_is_exact() {
    let m = TextMatch::new("Submit");
    assert!(m.is_match("Submit"));
    assert!(!m.is_match("submit"));
    assert!(!m.is_match("Submit now"));
    assert!(!m.is_match(""));
}

#[test]
fn partial_match_finds_substrings() {
    let m = TextMatch::new("ub").partial();
    assert_eq!(m.length, StringMatchLength::Partial);
    assert!(m.is_match("Submit"));
    assert!(!m.is_match("UB"));
    assert!(TextMatch::new("").partial().is_match("anything"));
}

#[test]
fn word_match_needs_space_boundaries() {
    let m = TextMatch::new("a").word();
    assert!(m.is_match("a"));
    assert!(m.is_match("aa a aa"));
    assert!(!m.is_match("dad"));
    assert!(!m.is_match("aa"));
}

#[test]
fn case_insensitive_match_lowers_both_sides() {
    let m = TextMatch::new("SuBmIt").case_insensitive();
    assert!(!m.case_sensitive);
    assert!(m.is_match("submit"));
    assert!(m.is_match("SUBMIT"));
    assert!(!m.is_match("submitted"));
    let m = m.partial();
    assert!(m.is_match("RESUBMITTED"));
    let m = m.case_sensitive().full();
    assert!(m.case_sensitive);
    assert!(!m.is_match("submit"));
}

#[test]
fn text_condition_reads_then_decides() {
    let c = Condition::Values(vec![(ElementRead::Text, TextMatch::new("Go").partial())]);
    assert!(matches!(c.next_step(&Vec::new()), ConditionStep::Read(ElementRead::Text)));
    assert!(matches!(
        c.next_step(&vec![ReadAnswer::Value(Some("Let's Go".to_string()))]),
        ConditionStep::Holds(true)
    ));
    assert!(matches!(
        c.next_step(&vec![ReadAnswer::Value(Some("Stop".to_string()))]),
        ConditionStep::Holds(false)
    ));
    assert!(matches!(c.next_step(&vec![ReadAnswer::Flag(true)]), ConditionStep::Failed));
}

#[test]
fn empty_value_list_holds() {
    let c = Condition::Values(Vec::new());
    assert!(matches!(c.next_step(&Vec::new()), ConditionStep::Holds(true)));
}

#[test]
fn filter_accepts_its_expected_value_only() {
    let f = ElementFilter { condition: Condition::State(ElementRead::Enabled), expected: false };
    assert!(f.accepts(Verdict::Holds(false)));
    assert!(!f.accepts(Verdict::Holds(true)));
    assert!(!f.accepts(Verdict::Failed));
}

#[test]
fn poller_options() {
    assert_eq!(ElementPoller::NoWait.options(), PollOptions::no_wait());
    assert_eq!(
        ElementPoller::TimeoutWithInterval(5, 2).options(),
        PollOptions { timeout: Some(5), interval: Some(2), min_tries: 0 }
    );
    assert_eq!(
        ElementPoller::NumTriesWithInterval(3, 2).options(),
        PollOptions { timeout: None, interval: Some(2), min_tries: 3 }
    );
    assert_eq!(
        ElementPoller::TimeoutWithIntervalAndMinTries(5, 2, 3).options(),
        PollOptions { timeout: Some(5), interval: Some(2), min_tries: 3 }
    );
}

#[test]
fn pacing_measures_from_the_start() {
    let o = ElementPoller::TimeoutWithInterval(1000, 100).options();
    assert_eq!(o.pacing_delay(1, 30), 70);
    assert_eq!(o.pacing_delay(3, 250), 50);
    assert_eq!(o.pacing_delay(2, 250), 0);
    assert_eq!(o.pacing_delay(2, 200), 0);
    assert_eq!(PollOptions::no_wait().pacing_delay(1, 0), 0);
    let huge = ElementPoller::NumTriesWithInterval(u32::MAX, u64::MAX).options();
    assert_eq!(huge.pacing_delay(u64::MAX, 0), u64::MAX);
}

#[test]
fn stop_rules() {
    let o = ElementPoller::TimeoutWithIntervalAndMinTries(100, 10, 3).options();
    assert!(!o.stop_after_failure(2, 150));
    assert!(!o.stop_after_failure(3, 99));
    assert!(o.stop_after_failure(3, 100));
    assert!(o.deadline_passed(3, 100));
    assert!(!o.deadline_passed(2, 100));
    let n = ElementPoller::NumTriesWithInterval(2, 10).options();
    assert!(!n.stop_after_failure(1, 1_000_000));
    assert!(n.stop_after_failure(2, 0));
    assert!(!n.deadline_passed(5, 1_000_000));
    assert!(PollOptions::no_wait().stop_after_failure(1, 0));
}
