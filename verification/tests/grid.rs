use zlaunch::grid::{EmojiEntry, EmojiGridDelegate};

fn entries(names: &[&str]) -> Vec<EmojiEntry> {
    names
        .iter()
        .map(|n| EmojiEntry { emoji: format!("<{n}>"), name: n.to_string() })
        .collect()
}

#[test]
fn cursor_maps_to_row_and_column() {
    let mut g = EmojiGridDelegate::new(3);
    g.set_items(entries(&["a", "b", "c", "d", "e", "f", "g"]));
    assert_eq!(g.filtered_count(), 7);
    assert_eq!(g.selected_row(), Some(0));
    assert_eq!(g.selected_col(), Some(0));
    for _ in 0..5 {
        g.select_right();
    }
    assert_eq!(g.selected_index(), Some(5));
    assert_eq!(g.selected_row(), Some(1));
    assert_eq!(g.selected_col(), Some(2));
}

#[test]
fn vertical_arrows_alias_linear_steps() {
    let mut g = EmojiGridDelegate::new(3);
    g.set_items(entries(&["a", "b", "c", "d"]));
    g.select_down();
    assert_eq!(g.selected_index(), Some(1));
    g.select_up();
    assert_eq!(g.selected_index(), Some(0));
    // Wraparound at both ends, like the linear list.
    g.select_up();
    assert_eq!(g.selected_index(), Some(3));
    g.select_down();
    assert_eq!(g.selected_index(), Some(0));
}

#[test]
fn filter_narrows_and_resets_cursor() {
    let mut g = EmojiGridDelegate::new(8);
    g.set_items(entries(&["grinning face", "fire", "rocket", "campfire"]));
    g.select_right();
    g.set_query("fire".to_string());
    g.filter();
    assert_eq!(g.filtered_count(), 2);
    assert_eq!(g.selected_index(), Some(0));
    assert_eq!(g.do_confirm().unwrap().name, "fire");
}

#[test]
fn refreshing_entries_clamps_cursor() {
    let mut g = EmojiGridDelegate::new(4);
    g.set_items(entries(&["a", "b", "c"]));
    g.select_right();
    g.select_right();
    assert_eq!(g.selected_index(), Some(2));
    g.set_items(entries(&["a", "b"]));
    assert_eq!(g.selected_index(), Some(1));
    g.set_items(entries(&[]));
    assert_eq!(g.selected_index(), None);
    assert!(g.do_confirm().is_none());
}

#[test]
fn empty_grid_navigation_is_a_no_op() {
    let mut g = EmojiGridDelegate::new(8);
    g.select_right();
    g.select_left();
    assert_eq!(g.selected_index(), None);
    assert_eq!(g.selected_row(), None);
    assert_eq!(g.selected_col(), None);
}
