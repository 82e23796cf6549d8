use thirtyfour::By;
use thirtyfour_query::{
    Condition, ElementFilter, ElementPoller, ElementQuery, ElementRead, ElementSelector, TextMatch,
};

fn reads(f: &ElementFilter) -> Vec<String> {
    match &f.condition {
        Condition::State(r) => vec![format!("{:?}", r)],
        Condition::Values(pairs) => pairs.iter().map(|(r, m)| format!("{:?}={}", r, m.text)).collect(),
    }
}

#[test]
fn filters_go_to_the_last_selector() {
    let q = ElementQuery::new(ElementPoller::NoWait, By::Id("a"))
        .and_enabled()
        .or(By::Css("b"))
        .with_text(TextMatch::new("t"))
        .with_id(TextMatch::new("i"))
        .with_class(TextMatch::new("c"))
        .with_tag(TextMatch::new("g"))
        .with_value(TextMatch::new("v"));
    assert_eq!(q.selectors.len(), 2);
    assert_eq!(q.selectors[0].filters.len(), 1);
    assert!(q.selectors[0].filters[0].expected);
    let second: Vec<Vec<String>> = q.selectors[1].filters.iter().map(reads).collect();
    assert_eq!(
        second,
        vec![
            vec!["Text=t".to_string()],
            vec!["Id=i".to_string()],
            vec!["ClassName=c".to_string()],
            vec!["TagName=g".to_string()],
            vec!["Value=v".to_string()],
        ]
    );
}

#[test]
fn state_filters_expect_their_flag() {
    let q = ElementQuery::new(ElementPoller::NoWait, By::Id("a"))
        .and_enabled()
        .and_not_enabled()
        .and_selected()
        .and_not_selected();
    let f = &q.selectors[0].filters;
    assert_eq!(f.len(), 4);
    assert!(matches!(f[0].condition, Condition::State(ElementRead::Enabled)) && f[0].expected);
    assert!(matches!(f[1].condition, Condition::State(ElementRead::Enabled)) && !f[1].expected);
    assert!(matches!(f[2].condition, Condition::State(ElementRead::Selected)) && f[2].expected);
    assert!(matches!(f[3].condition, Condition::State(ElementRead::Selected)) && !f[3].expected);
}

#[test]
fn named_value_filters_keep_their_order() {
    let q = ElementQuery::new(ElementPoller::NoWait, By::Id("a"))
        .with_attribute("role", TextMatch::new("button"))
        .with_attributes(vec![
            ("x".to_string(), TextMatch::new("1")),
            ("y".to_string(), TextMatch::new("2")),
        ])
        .with_property("checked", TextMatch::new("true"))
        .with_properties(vec![("p".to_string(), TextMatch::new("3"))])
        .with_css_property("color", TextMatch::new("red"))
        .with_css_properties(vec![
            ("a".to_string(), TextMatch::new("4")),
            ("b".to_string(), TextMatch::new("5")),
        ]);
    let all: Vec<Vec<String>> = q.selectors[0].filters.iter().map(reads).collect();
    assert_eq!(
        all,
        vec![
            vec!["Attribute(\"role\")=button".to_string()],
            vec!["Attribute(\"x\")=1".to_string(), "Attribute(\"y\")=2".to_string()],
            vec!["Property(\"checked\")=true".to_string()],
            vec!["Property(\"p\")=3".to_string()],
            vec!["CssProperty(\"color\")=red".to_string()],
            vec!["CssProperty(\"a\")=4".to_string(), "CssProperty(\"b\")=5".to_string()],
        ]
    );
}

#[test]
fn builders_on_a_query_without_selectors_change_nothing() {
    let q = ElementQuery { poller: ElementPoller::NoWait, selectors: Vec::new() }
        .and_enabled()
        .with_single_selector();
    assert!(q.selectors.is_empty());
}

#[test]
fn poller_overrides() {
    let q = ElementQuery::new(ElementPoller::NoWait, By::Id("a")).wait(500, 50);
    assert_eq!(q.poller, ElementPoller::TimeoutWithInterval(500, 50));
    let q = q.nowait();
    assert_eq!(q.poller, ElementPoller::NoWait);
    let q = q.with_poller(ElementPoller::NumTriesWithInterval(2, 5));
    assert_eq!(q.poller, ElementPoller::NumTriesWithInterval(2, 5));
}

#[test]
fn selector_builders() {
    let mut s = ElementSelector::new(By::Tag("p"));
    assert!(!s.single);
    s.set_single();
    assert!(s.single);
    s.add_filter(ElementFilter { condition: Condition::State(ElementRead::Displayed), expected: true });
    assert_eq!(s.filters.len(), 1);
    let (_, action) = s.run_filters(0);
    assert!(matches!(action, thirtyfour_query::FilterAction::Done(ref v) if v.is_empty()));
    let (run, action) = s.run_filters(2);
    assert!(matches!(action, thirtyfour_query::FilterAction::Judge { filter: 0, element: 0 }));
    let (_, action) = run.on_verdict(&s.filters, thirtyfour_query::Verdict::Holds(true));
    assert!(matches!(action, thirtyfour_query::FilterAction::Judge { filter: 0, element: 1 }));
}

#[test]
fn selector_without_filters_keeps_every_element() {
    let s = ElementSelector::new(By::Tag("p"));
    match s.run_filters(3).1 {
        thirtyfour_query::FilterAction::Done(v) => assert_eq!(v, vec![0, 1, 2]),
        _ => panic!("expected the whole lookup"),
    }
}
