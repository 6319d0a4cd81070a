use zlaunch::clipboard::{
    format_timestamp, icon_for_item, parse_file_url, preview_plan, ClipboardContent,
    ClipboardIcon, ClipboardItem, ClipboardListDelegate, PreviewPlan,
};
use zlaunch::color::Color;

fn text_entry(t: &str) -> ClipboardItem {
    ClipboardItem { content: ClipboardContent::Text(t.to_string()), timestamp_secs: 0 }
}

fn paths_entry(ps: &[&str]) -> ClipboardItem {
    ClipboardItem {
        content: ClipboardContent::FilePaths(ps.iter().map(|p| p.to_string()).collect()),
        timestamp_secs: 0,
    }
}

#[test]
fn parse_file_url_decodes_percent_escapes() {
    assert_eq!(
        parse_file_url("file:///home/user/my%20file.txt"),
        Some("/home/user/my file.txt".to_string())
    );
}

#[test]
fn parse_file_url_trims_and_requires_scheme() {
    assert_eq!(
        parse_file_url("  file:///tmp/a.png\n"),
        Some("/tmp/a.png".to_string())
    );
    assert_eq!(parse_file_url("https://example.org"), None);
    assert_eq!(parse_file_url("/plain/path"), None);
}

#[test]
fn icon_for_color_text() {
    let icon = icon_for_item(&text_entry("#ff0000"));
    assert_eq!(
        icon,
        ClipboardIcon::ColorSwatch(Color { r: 255, g: 0, b: 0, a: 255 })
    );
}

#[test]
fn icon_for_file_urls_by_extension() {
    assert_eq!(
        icon_for_item(&text_entry("file:///tmp/shot.PNG")),
        ClipboardIcon::FileImage
    );
    assert_eq!(
        icon_for_item(&text_entry("file:///tmp/notes.md")),
        ClipboardIcon::FileText
    );
    assert_eq!(
        icon_for_item(&text_entry("file:///tmp/archive.zip")),
        ClipboardIcon::FileGeneric
    );
    assert_eq!(
        icon_for_item(&text_entry("file:///tmp/noext")),
        ClipboardIcon::FileGeneric
    );
}

#[test]
fn icon_for_plain_text_and_rich_text() {
    assert_eq!(
        icon_for_item(&text_entry("hello world")),
        ClipboardIcon::ClipboardText
    );
    let rich = ClipboardItem {
        content: ClipboardContent::RichText { plain: "hi".to_string() },
        timestamp_secs: 0,
    };
    assert_eq!(icon_for_item(&rich), ClipboardIcon::ClipboardText);
}

#[test]
fn icon_for_image_and_paths() {
    let img = ClipboardItem {
        content: ClipboardContent::Image(vec![0u8; 4]),
        timestamp_secs: 0,
    };
    assert_eq!(icon_for_item(&img), ClipboardIcon::ImageData);
    assert_eq!(
        icon_for_item(&paths_entry(&["/tmp/a.jpeg"])),
        ClipboardIcon::FileImage
    );
    assert_eq!(
        icon_for_item(&paths_entry(&["/tmp/a.rs"])),
        ClipboardIcon::FileText
    );
    assert_eq!(
        icon_for_item(&paths_entry(&["/tmp/a.rs", "/tmp/b.rs"])),
        ClipboardIcon::FileGeneric
    );
}

#[test]
fn hidden_files_have_no_extension() {
    assert_eq!(
        icon_for_item(&paths_entry(&["/home/user/.bashrc"])),
        ClipboardIcon::FileGeneric
    );
}

#[test]
fn preview_plan_for_color() {
    match preview_plan(&text_entry("rgb(0, 128, 255)")) {
        PreviewPlan::ColorCodes(c) => {
            assert_eq!(c, Color { r: 0, g: 128, b: 255, a: 255 });
        }
        other => panic!("expected a color plan, got {other:?}"),
    }
}

#[test]
fn preview_plan_for_file_urls() {
    match preview_plan(&text_entry("file:///tmp/shot.png")) {
        PreviewPlan::ImageFile(p) => assert_eq!(p, "/tmp/shot.png"),
        other => panic!("expected an image-file plan, got {other:?}"),
    }
    match preview_plan(&text_entry("file:///tmp/notes.md")) {
        PreviewPlan::TextFile { path, fallback } => {
            assert_eq!(path, "/tmp/notes.md");
            assert_eq!(fallback, "file:///tmp/notes.md");
        }
        other => panic!("expected a text-file plan, got {other:?}"),
    }
    match preview_plan(&text_entry("file:///tmp/a.zip")) {
        PreviewPlan::PlainText(t) => assert_eq!(t, "file:///tmp/a.zip"),
        other => panic!("expected a plain-text plan, got {other:?}"),
    }
}

#[test]
fn preview_plan_for_paths_and_images() {
    match preview_plan(&paths_entry(&["/tmp/a.gif"])) {
        PreviewPlan::ImageFile(p) => assert_eq!(p, "/tmp/a.gif"),
        other => panic!("expected an image-file plan, got {other:?}"),
    }
    match preview_plan(&paths_entry(&["/tmp/a", "/tmp/b"])) {
        PreviewPlan::FileList(l) => assert_eq!(l, "/tmp/a\n/tmp/b"),
        other => panic!("expected a file-list plan, got {other:?}"),
    }
    let img = ClipboardItem {
        content: ClipboardContent::Image(vec![9u8]),
        timestamp_secs: 0,
    };
    assert!(matches!(preview_plan(&img), PreviewPlan::ImageBytes));
}

#[test]
fn preview_text_per_content() {
    assert_eq!(text_entry("hello").preview(), "hello");
    let rich = ClipboardItem {
        content: ClipboardContent::RichText { plain: "plain".to_string() },
        timestamp_secs: 0,
    };
    assert_eq!(rich.preview(), "plain");
    assert_eq!(paths_entry(&["/a", "/b"]).preview(), "/a\n/b");
    let img = ClipboardItem {
        content: ClipboardContent::Image(vec![]),
        timestamp_secs: 0,
    };
    assert_eq!(img.preview(), "Image");
}

#[test]
fn timestamp_labels() {
    assert_eq!(format_timestamp(0), "Just now");
    assert_eq!(format_timestamp(59), "Just now");
    assert_eq!(format_timestamp(60), "1 min ago");
    assert_eq!(format_timestamp(119), "1 min ago");
    assert_eq!(format_timestamp(300), "5 mins ago");
    assert_eq!(format_timestamp(3600), "1 hour ago");
    assert_eq!(format_timestamp(7300), "2 hours ago");
    assert_eq!(format_timestamp(86399), "23 hours ago");
    assert_eq!(format_timestamp(86400), "Earlier");
}

#[test]
fn clipboard_list_filters_on_preview() {
    let mut d = ClipboardListDelegate::new();
    d.set_items(vec![
        text_entry("hello world"),
        text_entry("fire alarm"),
        text_entry("campfire"),
    ]);
    assert_eq!(d.filtered_count(), 3);
    d.set_query("fire".to_string());
    assert_eq!(d.filtered_count(), 2);
    // "fire alarm" completes the match earlier than "campfire".
    assert_eq!(
        d.selected_item().unwrap().preview(),
        "fire alarm"
    );
}

#[test]
fn clipboard_list_navigation_wraps() {
    let mut d = ClipboardListDelegate::new();
    d.set_items(vec![text_entry("a"), text_entry("b")]);
    assert_eq!(d.selected_index(), Some(0));
    d.select_down();
    assert_eq!(d.selected_index(), Some(1));
    d.select_down();
    assert_eq!(d.selected_index(), Some(0));
    d.select_up();
    assert_eq!(d.selected_index(), Some(1));
}

#[test]
fn clipboard_list_cursor_clamps_on_refresh() {
    let mut d = ClipboardListDelegate::new();
    d.set_items(vec![text_entry("a"), text_entry("b"), text_entry("c")]);
    d.select_down();
    d.select_down();
    assert_eq!(d.selected_index(), Some(2));
    // The history shrinks; the cursor is clamped, not reset.
    d.set_items(vec![text_entry("a"), text_entry("b")]);
    assert_eq!(d.selected_index(), Some(1));
}
