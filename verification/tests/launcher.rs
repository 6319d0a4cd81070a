use zlaunch::clipboard::{ClipboardContent, ClipboardItem};
use zlaunch::filter::filter_items_sync;
use zlaunch::grid::EmojiEntry;
use zlaunch::items::{
    ActionItem, ApplicationItem, CalculatorItem, ListItem, SubmenuItem, WindowItem,
};
use zlaunch::launcher::{ConfirmEffect, LauncherView, ViewMode};
use zlaunch::search::{SearchItem, SearchProvider};

fn app(name: &str) -> ListItem {
    ListItem::Application(ApplicationItem {
        id: format!("app-{name}"),
        name: name.to_string(),
        description: None,
        icon_path: None,
        exec_cmd: format!("/usr/bin/{name}"),
        terminal: false,
        desktop_path: None,
    })
}

fn submenu(id: &str, name: &str) -> ListItem {
    ListItem::Submenu(SubmenuItem {
        id: id.to_string(),
        name: name.to_string(),
        description: None,
    })
}

fn emoji(e: &str, name: &str) -> EmojiEntry {
    EmojiEntry { emoji: e.to_string(), name: name.to_string() }
}

fn text_entry(t: &str) -> ClipboardItem {
    ClipboardItem { content: ClipboardContent::Text(t.to_string()), timestamp_secs: 0 }
}

#[test]
fn starts_in_main_mode() {
    let l = LauncherView::new(vec![app("Firefox")]);
    assert_eq!(l.view_mode, ViewMode::Main);
    assert_eq!(l.placeholder(), "Search applications...");
    assert_eq!(l.active_query(), "");
}

#[test]
fn default_mode_is_main() {
    assert_eq!(ViewMode::default(), ViewMode::Main);
}

#[test]
fn confirm_submenu_emojis_enters_emoji_picker() {
    // The submenu sorts before the application, so it is selected.
    let mut l = LauncherView::new(vec![app("Firefox"), submenu("submenu-emojis", "Emojis")]);
    let eff = l.confirm();
    assert!(matches!(eff, ConfirmEffect::EnteredEmojiPicker));
    assert_eq!(l.view_mode, ViewMode::EmojiPicker);
    // The active controller's query is empty immediately after.
    assert_eq!(l.active_query(), "");
    assert_eq!(l.placeholder(), "Search emojis...");
}

#[test]
fn confirm_submenu_clipboard_enters_clipboard_history() {
    let mut l = LauncherView::new(vec![submenu("submenu-clipboard", "Clipboard")]);
    let eff = l.confirm();
    assert!(matches!(eff, ConfirmEffect::EnteredClipboardHistory));
    assert_eq!(l.view_mode, ViewMode::ClipboardHistory);
    assert_eq!(l.active_query(), "");
    assert_eq!(l.placeholder(), "Search clipboard history...");
}

#[test]
fn confirm_unknown_submenu_dismisses() {
    let mut l = LauncherView::new(vec![submenu("submenu-other", "Other")]);
    let eff = l.confirm();
    assert!(matches!(eff, ConfirmEffect::Dismiss));
    assert!(eff.dismisses());
    assert_eq!(l.view_mode, ViewMode::Main);
}

#[test]
fn confirm_application_launches() {
    let mut l = LauncherView::new(vec![app("Firefox")]);
    let eff = l.confirm();
    match eff {
        ConfirmEffect::LaunchApp(a) => assert_eq!(a.name, "Firefox"),
        _ => panic!("expected a launch effect"),
    }
}

#[test]
fn confirm_window_focuses_by_address() {
    let mut l = LauncherView::new(vec![ListItem::Window(WindowItem {
        id: "w".to_string(),
        title: "Terminal".to_string(),
        description: String::new(),
        icon_path: None,
        address: "0xabc".to_string(),
    })]);
    match l.confirm() {
        ConfirmEffect::FocusWindow(addr) => assert_eq!(addr, "0xabc"),
        _ => panic!("expected a focus effect"),
    }
}

#[test]
fn confirm_calculator_copies_result() {
    let mut l = LauncherView::new(vec![ListItem::Calculator(CalculatorItem {
        id: "c".to_string(),
        expression: "2+2".to_string(),
        display_result: "4".to_string(),
    })]);
    match l.confirm() {
        ConfirmEffect::CopyText(t) => assert_eq!(t, "4"),
        _ => panic!("expected a copy effect"),
    }
}

#[test]
fn confirm_action_runs_command() {
    let mut l = LauncherView::new(vec![ListItem::Action(ActionItem {
        id: "a".to_string(),
        name: "Shutdown".to_string(),
        description: None,
        command: "systemctl poweroff".to_string(),
    })]);
    match l.confirm() {
        ConfirmEffect::RunCommand(c) => assert_eq!(c, "systemctl poweroff"),
        _ => panic!("expected a run effect"),
    }
}

#[test]
fn confirm_search_opens_url() {
    let provider = SearchProvider {
        name: "Google".to_string(),
        url_prefix: "https://www.google.com/search?q=".to_string(),
        icon: "magnifier".to_string(),
    };
    let item = SearchItem::new(provider, "verus".to_string());
    let mut l = LauncherView::new(vec![ListItem::Search(item)]);
    match l.confirm() {
        ConfirmEffect::OpenUrl(u) => assert_eq!(u, "https://www.google.com/search?q=verus"),
        _ => panic!("expected an open-url effect"),
    }
}

#[test]
fn confirm_with_no_selection_does_nothing() {
    let mut l = LauncherView::new(vec![]);
    assert!(matches!(l.confirm(), ConfirmEffect::Nothing));
    assert!(!ConfirmEffect::Nothing.dismisses());
}

#[test]
fn emoji_flow_select_and_confirm() {
    let mut l = LauncherView::new(vec![submenu("submenu-emojis", "Emojis")]);
    l.confirm();
    l.set_emoji_items(vec![
        emoji("😀", "grinning face"),
        emoji("🔥", "fire"),
        emoji("🚀", "rocket"),
    ]);
    // Linear navigation in the grid: right from the first entry.
    l.select_next();
    let eff = l.confirm();
    assert!(eff.dismisses());
    match eff {
        ConfirmEffect::CopyText(t) => assert_eq!(t, "🔥"),
        _ => panic!("expected a copy effect"),
    }
}

#[test]
fn emoji_query_filters_grid() {
    let mut l = LauncherView::new(vec![submenu("submenu-emojis", "Emojis")]);
    l.confirm();
    l.set_emoji_items(vec![
        emoji("😀", "grinning face"),
        emoji("🔥", "fire"),
        emoji("🚀", "rocket"),
    ]);
    let _job = l.on_query_changed("fire".to_string());
    match l.confirm() {
        ConfirmEffect::CopyText(t) => assert_eq!(t, "🔥"),
        _ => panic!("expected a copy effect"),
    }
}

#[test]
fn emoji_navigation_wraps() {
    let mut l = LauncherView::new(vec![submenu("submenu-emojis", "Emojis")]);
    l.confirm();
    l.set_emoji_items(vec![emoji("😀", "a"), emoji("🔥", "b")]);
    l.select_prev();
    match l.confirm() {
        ConfirmEffect::CopyText(t) => assert_eq!(t, "🔥"),
        _ => panic!("expected a copy effect"),
    }
}

#[test]
fn clipboard_flow_text_entry() {
    let mut l = LauncherView::new(vec![submenu("submenu-clipboard", "Clipboard")]);
    l.confirm();
    l.set_clipboard_items(vec![text_entry("hello"), text_entry("world")]);
    l.select_next();
    match l.confirm() {
        ConfirmEffect::CopyText(t) => assert_eq!(t, "world"),
        _ => panic!("expected a copy effect"),
    }
}

#[test]
fn clipboard_paths_are_joined_on_copy() {
    let mut l = LauncherView::new(vec![submenu("submenu-clipboard", "Clipboard")]);
    l.confirm();
    l.set_clipboard_items(vec![ClipboardItem {
        content: ClipboardContent::FilePaths(vec![
            "/tmp/a.txt".to_string(),
            "/tmp/b.txt".to_string(),
        ]),
        timestamp_secs: 0,
    }]);
    match l.confirm() {
        ConfirmEffect::CopyText(t) => assert_eq!(t, "/tmp/a.txt\n/tmp/b.txt"),
        _ => panic!("expected a copy effect"),
    }
}

#[test]
fn clipboard_image_bytes_are_copied() {
    let mut l = LauncherView::new(vec![submenu("submenu-clipboard", "Clipboard")]);
    l.confirm();
    l.set_clipboard_items(vec![ClipboardItem {
        content: ClipboardContent::Image(vec![1, 2, 3]),
        timestamp_secs: 0,
    }]);
    match l.confirm() {
        ConfirmEffect::CopyImage(b) => assert_eq!(b, vec![1, 2, 3]),
        _ => panic!("expected a copy-image effect"),
    }
}

#[test]
fn cancel_dismisses_in_main_mode() {
    let mut l = LauncherView::new(vec![app("Firefox")]);
    assert!(l.cancel());
    assert_eq!(l.view_mode, ViewMode::Main);
}

#[test]
fn cancel_leaves_sub_mode_without_dismissing() {
    let mut l = LauncherView::new(vec![submenu("submenu-emojis", "Emojis")]);
    l.confirm();
    assert!(!l.cancel());
    assert_eq!(l.view_mode, ViewMode::Main);
    // The main list's query is reset on the way out.
    assert_eq!(l.active_query(), "");
}

#[test]
fn go_back_exits_sub_mode_only_when_query_is_empty() {
    let mut l = LauncherView::new(vec![submenu("submenu-emojis", "Emojis")]);
    l.confirm();
    l.set_emoji_items(vec![emoji("🔥", "fire")]);
    let _job = l.on_query_changed("fi".to_string());
    l.go_back();
    // Non-empty query: the key is consumed by the input layer instead.
    assert_eq!(l.view_mode, ViewMode::EmojiPicker);
    let _job = l.on_query_changed(String::new());
    l.go_back();
    assert_eq!(l.view_mode, ViewMode::Main);
}

#[test]
fn cancel_from_sub_mode_restores_full_main_view() {
    // Filter the main list down, enter a sub-mode from the match, then
    // cancel: the main view must show the whole grouped collection
    // again, not the stale filtered one.
    let mut l = LauncherView::new(vec![app("Firefox"), submenu("submenu-emojis", "Emojis")]);
    let job = l.on_query_changed("emo".to_string());
    let r = filter_items_sync(&job.items, &job.query);
    l.apply_filter_results(job.query.clone(), job.generation, r);
    assert_eq!(l.list_state.filtered_count(), 1);
    l.confirm();
    assert_eq!(l.view_mode, ViewMode::EmojiPicker);
    assert!(!l.cancel());
    assert_eq!(l.view_mode, ViewMode::Main);
    assert_eq!(l.list_state.filtered_count(), 2);
    assert_eq!(l.list_state.selected_index(), Some(0));
}

#[test]
fn go_back_from_sub_mode_restores_full_main_view() {
    let mut l = LauncherView::new(vec![
        app("Firefox"),
        submenu("submenu-clipboard", "Clipboard"),
    ]);
    let job = l.on_query_changed("clip".to_string());
    let r = filter_items_sync(&job.items, &job.query);
    l.apply_filter_results(job.query.clone(), job.generation, r);
    assert_eq!(l.list_state.filtered_count(), 1);
    l.confirm();
    assert_eq!(l.view_mode, ViewMode::ClipboardHistory);
    l.go_back();
    assert_eq!(l.view_mode, ViewMode::Main);
    assert_eq!(l.list_state.filtered_count(), 2);
    assert_eq!(l.list_state.selected_index(), Some(0));
}

#[test]
fn go_back_in_main_mode_does_nothing() {
    let mut l = LauncherView::new(vec![app("Firefox")]);
    l.go_back();
    assert_eq!(l.view_mode, ViewMode::Main);
}

#[test]
fn main_list_still_filters_while_sub_mode_is_active() {
    // The query subscription drives the main list in every mode, as a
    // late background result for it shows.
    let mut l = LauncherView::new(vec![app("Firefox"), submenu("submenu-emojis", "Emojis")]);
    let job = l.on_query_changed("fire".to_string());
    let r = filter_items_sync(&job.items, &job.query);
    l.apply_filter_results(job.query.clone(), job.generation, r);
    assert_eq!(l.list_state.filtered_count(), 1);
}

#[test]
fn reset_search_clears_main_query() {
    let mut l = LauncherView::new(vec![app("Firefox"), app("Terminal")]);
    let job = l.on_query_changed("fire".to_string());
    let r = filter_items_sync(&job.items, &job.query);
    l.apply_filter_results(job.query.clone(), job.generation, r);
    assert_eq!(l.list_state.filtered_count(), 1);
    l.reset_search();
    assert_eq!(l.active_query(), "");
    assert_eq!(l.list_state.filtered_count(), 2);
}

#[test]
fn navigation_routes_to_main_list() {
    let mut l = LauncherView::new(vec![app("a"), app("b"), app("c")]);
    l.select_next();
    assert_eq!(l.list_state.selected_index(), Some(1));
    l.select_tab();
    assert_eq!(l.list_state.selected_index(), Some(2));
    l.select_tab_prev();
    assert_eq!(l.list_state.selected_index(), Some(1));
    l.select_prev();
    assert_eq!(l.list_state.selected_index(), Some(0));
}
