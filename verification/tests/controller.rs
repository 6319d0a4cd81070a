use zlaunch::filter::filter_items_sync;
use zlaunch::items::{ApplicationItem, CalculatorItem, ListItem, WindowItem};
use zlaunch::list::ItemListDelegate;

fn app(name: &str) -> ListItem {
    ListItem::Application(ApplicationItem {
        id: format!("app-{name}"),
        name: name.to_string(),
        description: None,
        icon_path: None,
        exec_cmd: String::new(),
        terminal: false,
        desktop_path: None,
    })
}

fn window(title: &str) -> ListItem {
    ListItem::Window(WindowItem {
        id: format!("win-{title}"),
        title: title.to_string(),
        description: String::new(),
        icon_path: None,
        address: "0x1".to_string(),
    })
}

fn calc(expr: &str) -> ListItem {
    ListItem::Calculator(CalculatorItem {
        id: format!("calc-{expr}"),
        expression: expr.to_string(),
        display_result: "4".to_string(),
    })
}

fn five_apps() -> Vec<ListItem> {
    vec![app("a"), app("b"), app("c"), app("d"), app("e")]
}

#[test]
fn new_shows_everything_with_cursor_on_first() {
    let d = ItemListDelegate::new(vec![app("Firefox"), window("Terminal"), calc("2+2")]);
    assert_eq!(d.filtered_count(), 3);
    assert_eq!(d.selected_index(), Some(0));
    assert_eq!(d.query(), "");
    // Grouped by priority: calculator, window, application.
    assert_eq!(d.selected_item().unwrap().name(), "2+2");
}

#[test]
fn empty_collection_has_no_cursor() {
    let mut d = ItemListDelegate::new(vec![]);
    assert_eq!(d.filtered_count(), 0);
    assert_eq!(d.selected_index(), None);
    assert!(d.selected_item().is_none());
    assert!(d.do_confirm().is_none());
    // Navigation and lookups degrade to no-ops on the empty view.
    d.move_selection(1);
    assert_eq!(d.selected_index(), None);
    assert_eq!(d.global_to_section_row(3), (0, 0));
    assert_eq!(d.section_row_to_global(2, 2), 0);
}

#[test]
fn cursor_wraps_full_cycle() {
    // Stepping "next" five times on a five-item view returns to the
    // first position.
    let mut d = ItemListDelegate::new(five_apps());
    assert_eq!(d.selected_index(), Some(0));
    for _ in 0..5 {
        d.move_selection(1);
    }
    assert_eq!(d.selected_index(), Some(0));
}

#[test]
fn cursor_wraps_backward_from_first() {
    let mut d = ItemListDelegate::new(five_apps());
    d.move_selection(-1);
    assert_eq!(d.selected_index(), Some(4));
}

#[test]
fn cursor_wraps_forward_from_last() {
    // Cursor at the last index of a five-item view; "next" lands on 0.
    let mut d = ItemListDelegate::new(five_apps());
    d.set_selected(4);
    d.move_selection(1);
    assert_eq!(d.selected_index(), Some(0));
}

#[test]
fn larger_steps_wrap_too() {
    let mut d = ItemListDelegate::new(five_apps());
    d.move_selection(7);
    assert_eq!(d.selected_index(), Some(2));
    d.move_selection(-12);
    assert_eq!(d.selected_index(), Some(0));
}

#[test]
fn set_selected_clamps() {
    let mut d = ItemListDelegate::new(five_apps());
    d.set_selected(3);
    assert_eq!(d.selected_index(), Some(3));
    d.set_selected(99);
    assert_eq!(d.selected_index(), Some(4));
}

#[test]
fn section_row_round_trip() {
    // Two windows, one submenu, three applications: three sections.
    let items = vec![
        app("Alpha"),
        window("W1"),
        window("W2"),
        app("Beta"),
        app("Gamma"),
    ];
    let d = ItemListDelegate::new(items);
    assert_eq!(d.filtered_count(), 5);
    // Round trip is the identity for every valid global index.
    for i in 0..5 {
        let (s, r) = d.global_to_section_row(i);
        assert_eq!(d.section_row_to_global(s, r), i);
    }
    // The concrete mapping: windows first (section 0), then apps.
    assert_eq!(d.global_to_section_row(0), (0, 0));
    assert_eq!(d.global_to_section_row(1), (0, 1));
    assert_eq!(d.global_to_section_row(2), (1, 0));
    assert_eq!(d.global_to_section_row(4), (1, 2));
}

#[test]
fn section_lookups_clamp_out_of_range() {
    let items = vec![window("W1"), app("Alpha")];
    let d = ItemListDelegate::new(items);
    // A stale global index is clamped to the last position.
    assert_eq!(d.global_to_section_row(17), d.global_to_section_row(1));
    // Stale section ordinals and rows are clamped as well.
    assert_eq!(d.section_row_to_global(9, 9), 1);
}

#[test]
fn stale_filter_result_is_dropped() {
    // Generation guard: q2 is issued before q1's background result is
    // applied; the fresh result lands first and the stale one must not
    // overwrite it.
    let mut d = ItemListDelegate::new(vec![app("Firefox"), app("Files"), app("Terminal")]);
    let job1 = d.request_filter("f".to_string());
    let job2 = d.request_filter("term".to_string());
    let r1 = filter_items_sync(&job1.items, &job1.query);
    let r2 = filter_items_sync(&job2.items, &job2.query);
    // The newer result arrives first and is applied.
    d.apply_filter_results(job2.query.clone(), job2.generation, r2);
    assert_eq!(d.filtered_count(), 1);
    assert_eq!(d.selected_item().unwrap().name(), "Terminal");
    // The older result completes late; it is discarded without a trace.
    d.apply_filter_results(job1.query.clone(), job1.generation, r1);
    assert_eq!(d.query(), "term");
    assert_eq!(d.filtered_count(), 1);
    assert_eq!(d.selected_item().unwrap().name(), "Terminal");
}

#[test]
fn fresh_filter_result_is_applied() {
    let mut d = ItemListDelegate::new(vec![app("Firefox"), app("Files"), app("Terminal")]);
    let job = d.request_filter("fi".to_string());
    let r = filter_items_sync(&job.items, &job.query);
    d.apply_filter_results(job.query.clone(), job.generation, r);
    assert_eq!(d.filtered_count(), 2);
    assert_eq!(d.selected_index(), Some(0));
    assert_eq!(d.selected_item().unwrap().name(), "Firefox");
}

#[test]
fn result_with_bad_indices_is_ignored() {
    let mut d = ItemListDelegate::new(vec![app("Firefox")]);
    let job = d.request_filter("f".to_string());
    d.apply_filter_results(job.query.clone(), job.generation, vec![5]);
    // Defensive clamp: the malformed result does not corrupt the view.
    assert_eq!(d.filtered_count(), 1);
    assert_eq!(d.selected_item().unwrap().name(), "Firefox");
}

#[test]
fn clear_query_restores_full_view() {
    let mut d = ItemListDelegate::new(vec![app("Firefox"), app("Terminal")]);
    let job = d.request_filter("fire".to_string());
    let r = filter_items_sync(&job.items, &job.query);
    d.apply_filter_results(job.query.clone(), job.generation, r);
    assert_eq!(d.filtered_count(), 1);
    d.clear_query();
    assert_eq!(d.query(), "");
    assert_eq!(d.filtered_count(), 2);
    assert_eq!(d.selected_index(), Some(0));
}

#[test]
fn clear_query_invalidates_pending_results() {
    let mut d = ItemListDelegate::new(vec![app("Firefox"), app("Terminal")]);
    let job = d.request_filter("fire".to_string());
    let r = filter_items_sync(&job.items, &job.query);
    d.clear_query();
    // The job was superseded by the clear; its late result is dropped.
    d.apply_filter_results(job.query.clone(), job.generation, r);
    assert_eq!(d.filtered_count(), 2);
    assert_eq!(d.query(), "");
}

#[test]
fn set_query_only_defers_filtering() {
    let mut d = ItemListDelegate::new(vec![app("Firefox"), app("Terminal")]);
    d.set_query_only("fire".to_string());
    assert_eq!(d.query(), "fire");
    // The view has not been recomputed yet.
    assert_eq!(d.filtered_count(), 2);
}

#[test]
fn items_returns_a_snapshot() {
    let d = ItemListDelegate::new(vec![app("Firefox")]);
    let snap = d.items();
    assert_eq!(snap.len(), 1);
    assert_eq!(snap[0].name(), "Firefox");
}
