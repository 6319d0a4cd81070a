use zlaunch::filter::{filter_items_sync, fuzzy_score, BASE_SCORE};
use zlaunch::items::{ApplicationItem, CalculatorItem, ListItem, WindowItem};

fn app(name: &str) -> ListItem {
    ListItem::Application(ApplicationItem {
        id: format!("app-{name}"),
        name: name.to_string(),
        description: None,
        icon_path: None,
        exec_cmd: String::new(),
        terminal: false,
        desktop_path: None,
    })
}

fn window(title: &str) -> ListItem {
    ListItem::Window(WindowItem {
        id: format!("win-{title}"),
        title: title.to_string(),
        description: String::new(),
        icon_path: None,
        address: "0x1".to_string(),
    })
}

fn calc(expr: &str) -> ListItem {
    ListItem::Calculator(CalculatorItem {
        id: format!("calc-{expr}"),
        expression: expr.to_string(),
        display_result: "4".to_string(),
    })
}

#[test]
fn fuzzy_score_empty_query_is_base() {
    assert_eq!(fuzzy_score("anything", ""), Some(BASE_SCORE));
    assert_eq!(fuzzy_score("", ""), Some(BASE_SCORE));
}

#[test]
fn fuzzy_score_exact_values() {
    // "fire" matches greedily at positions 0..4 of "firefox": the match
    // completes at position 4.
    assert_eq!(fuzzy_score("firefox", "fire"), Some(BASE_SCORE - 4));
    // A later completion scores lower.
    assert_eq!(fuzzy_score("xfirefox", "fire"), Some(BASE_SCORE - 5));
    // Subsequence with gaps: f-i-r-e inside "for hire" completes at 8.
    assert_eq!(fuzzy_score("for hire", "fire"), Some(BASE_SCORE - 8));
}

#[test]
fn fuzzy_score_no_match() {
    assert_eq!(fuzzy_score("terminal", "fire"), None);
    assert_eq!(fuzzy_score("", "a"), None);
    // Order matters: a subsequence, not a bag of characters.
    assert_eq!(fuzzy_score("erif", "fire"), None);
}

#[test]
fn empty_query_orders_by_priority_then_index() {
    // The first testable property on a concrete collection: everything
    // kept, grouped by ascending priority, ties in original order.
    let items = vec![
        app("Zed"),      // priority 4, index 0
        window("Mail"),  // priority 2, index 1
        app("Emacs"),    // priority 4, index 2
        calc("2+2"),     // priority 0, index 3
        window("Chat"),  // priority 2, index 4
    ];
    let ranked = filter_items_sync(&items, "");
    assert_eq!(ranked, vec![3, 1, 4, 0, 2]);
}

#[test]
fn scenario_mixed_kinds_and_query() {
    let items = vec![app("Firefox"), window("Terminal"), calc("2+2")];
    let ranked = filter_items_sync(&items, "");
    // Calculator < Windows < Applications.
    assert_eq!(ranked, vec![2, 1, 0]);
    let ranked = filter_items_sync(&items, "fire");
    assert_eq!(ranked, vec![0]);
}

#[test]
fn query_is_case_insensitive() {
    // Fails if the pipeline hands strings through without folding them.
    let items = vec![app("Firefox")];
    assert_eq!(filter_items_sync(&items, "FIRE"), vec![0]);
    let items = vec![app("FIREFOX")];
    assert_eq!(filter_items_sync(&items, "fire"), vec![0]);
}

#[test]
fn non_matching_items_are_excluded() {
    let items = vec![app("Firefox"), app("Files"), app("Terminal")];
    let ranked = filter_items_sync(&items, "fi");
    // "Terminal" has no f; "Firefox" and "Files" both complete "fi" at 2,
    // so the tie breaks by original index.
    assert_eq!(ranked, vec![0, 1]);
}

#[test]
fn higher_score_comes_first_within_a_section() {
    let items = vec![app("for hire"), app("firefox")];
    // "firefox" completes "fire" earlier, so it scores higher and comes
    // first despite the larger original index.
    assert_eq!(filter_items_sync(&items, "fire"), vec![1, 0]);
}

#[test]
fn priority_dominates_score() {
    // A window matching worse still sorts before an application matching
    // better, because sections come first.
    let items = vec![app("firefox"), window("for hire")];
    assert_eq!(filter_items_sync(&items, "fire"), vec![1, 0]);
}
