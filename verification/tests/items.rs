use zlaunch::items::{
    ActionItem, ApplicationItem, CalculatorItem, ListItem, SubmenuItem, WindowItem,
};
use zlaunch::search::{SearchItem, SearchProvider};

fn app(name: &str) -> ApplicationItem {
    ApplicationItem {
        id: format!("app-{name}"),
        name: name.to_string(),
        description: Some("An application".to_string()),
        icon_path: Some("/usr/share/icons/app.png".to_string()),
        exec_cmd: "/usr/bin/app".to_string(),
        terminal: false,
        desktop_path: None,
    }
}

fn window(title: &str) -> WindowItem {
    WindowItem {
        id: format!("win-{title}"),
        title: title.to_string(),
        description: "A window".to_string(),
        icon_path: None,
        address: "0xdeadbeef".to_string(),
    }
}

#[test]
fn item_ids_and_names() {
    let a = ListItem::Application(app("Firefox"));
    assert_eq!(a.id(), "app-Firefox");
    assert_eq!(a.name(), "Firefox");
    let w = ListItem::Window(window("Terminal"));
    assert_eq!(w.id(), "win-Terminal");
    assert_eq!(w.name(), "Terminal");
    let c = ListItem::Calculator(CalculatorItem {
        id: "calc".to_string(),
        expression: "2+2".to_string(),
        display_result: "4".to_string(),
    });
    assert_eq!(c.name(), "2+2");
    assert_eq!(c.description(), Some("4"));
}

#[test]
fn item_descriptions() {
    let a = ListItem::Application(app("Firefox"));
    assert_eq!(a.description(), Some("An application"));
    let w = ListItem::Window(window("Terminal"));
    assert_eq!(w.description(), Some("A window"));
    let s = ListItem::Submenu(SubmenuItem {
        id: "submenu-emojis".to_string(),
        name: "Emojis".to_string(),
        description: None,
    });
    assert_eq!(s.description(), None);
}

#[test]
fn item_icon_paths() {
    let a = ListItem::Application(app("Firefox"));
    assert_eq!(
        a.icon_path().map(|p| p.as_str()),
        Some("/usr/share/icons/app.png")
    );
    let s = ListItem::Submenu(SubmenuItem {
        id: "submenu-emojis".to_string(),
        name: "Emojis".to_string(),
        description: None,
    });
    assert!(s.icon_path().is_none());
}

#[test]
fn item_kind_predicates() {
    let a = ListItem::Application(app("Firefox"));
    assert!(a.is_application());
    assert!(!a.is_window());
    assert!(!a.is_submenu());
    assert!(!a.is_action());
    assert!(!a.is_calculator());
    let s = ListItem::Submenu(SubmenuItem {
        id: "submenu-emojis".to_string(),
        name: "Emojis".to_string(),
        description: None,
    });
    assert!(s.is_submenu());
}

#[test]
fn action_labels() {
    let a = ListItem::Application(app("Firefox"));
    assert_eq!(a.action_label(), "Open");
    let w = ListItem::Window(window("Terminal"));
    assert_eq!(w.action_label(), "Switch");
    let act = ListItem::Action(ActionItem {
        id: "act".to_string(),
        name: "Shutdown".to_string(),
        description: None,
        command: "systemctl poweroff".to_string(),
    });
    assert_eq!(act.action_label(), "Run");
    let c = ListItem::Calculator(CalculatorItem {
        id: "calc".to_string(),
        expression: "2+2".to_string(),
        display_result: "4".to_string(),
    });
    assert_eq!(c.action_label(), "Copy");
}

#[test]
fn sort_priorities_and_sections() {
    let c = ListItem::Calculator(CalculatorItem {
        id: "calc".to_string(),
        expression: "2+2".to_string(),
        display_result: "4".to_string(),
    });
    assert_eq!(c.sort_priority(), 0);
    assert_eq!(c.section_name(), "Calculator");
    let w = ListItem::Window(window("Terminal"));
    assert_eq!(w.sort_priority(), 2);
    assert_eq!(w.section_name(), "Windows");
    let s = ListItem::Submenu(SubmenuItem {
        id: "submenu-emojis".to_string(),
        name: "Emojis".to_string(),
        description: None,
    });
    assert_eq!(s.sort_priority(), 3);
    assert_eq!(s.section_name(), "Commands");
    let act = ListItem::Action(ActionItem {
        id: "act".to_string(),
        name: "Shutdown".to_string(),
        description: None,
        command: "systemctl poweroff".to_string(),
    });
    assert_eq!(act.sort_priority(), 3);
    assert_eq!(act.section_name(), "Commands");
    let a = ListItem::Application(app("Firefox"));
    assert_eq!(a.sort_priority(), 4);
    assert_eq!(a.section_name(), "Applications");
}

#[test]
fn from_impls() {
    let a: ListItem = app("Firefox").into();
    assert!(a.is_application());
    let w: ListItem = window("Terminal").into();
    assert!(w.is_window());
    let c: ListItem = CalculatorItem {
        id: "calc".to_string(),
        expression: "2+2".to_string(),
        display_result: "4".to_string(),
    }
    .into();
    assert!(c.is_calculator());
}

#[test]
fn search_item_new_builds_id_name_url() {
    let provider = SearchProvider {
        name: "Google".to_string(),
        url_prefix: "https://www.google.com/search?q=".to_string(),
        icon: "magnifying-glass".to_string(),
    };
    let item = SearchItem::new(provider, "rust lang".to_string());
    assert_eq!(item.id, "search-google-rust lang");
    assert_eq!(item.name, "Search on Google");
    assert_eq!(item.url, "https://www.google.com/search?q=rust%20lang");
    assert_eq!(item.query, "rust lang");
    assert_eq!(item.icon(), "magnifying-glass");
    assert_eq!(item.action_label(), "Open");
}

#[test]
fn search_item_in_list() {
    let provider = SearchProvider {
        name: "DuckDuckGo".to_string(),
        url_prefix: "https://duckduckgo.com/?q=".to_string(),
        icon: "duck".to_string(),
    };
    let item = SearchItem::new(provider, "verus".to_string());
    let li = ListItem::Search(item);
    assert_eq!(li.name(), "Search on DuckDuckGo");
    assert_eq!(li.sort_priority(), 1);
    assert_eq!(li.section_name(), "Search");
    assert_eq!(li.description(), None);
}
