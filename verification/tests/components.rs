//! Component-level tests: geometry, visibility commands, the registry's
//! transactional operations, and the theme colors.

use tab_core::coordinator::{apply_visibility, compute_resize, SurfaceCommand};
use tab_core::errors::TabError;
use tab_core::geometry::{layout, LogicalSize, Rect, CHROME_HEIGHT};
use tab_core::registry::TabRegistry;
use tab_core::theme::{get_background_color, Color, Theme};

#[test]
fn layout_with_no_tabs_gives_chrome_the_full_window() {
    let l = layout(LogicalSize { width: 640, height: 480 }, 0);
    assert_eq!(l.chrome, Rect { x: 0, y: 0, width: 640, height: 480 });
    assert_eq!(l.content, None);
}

#[test]
fn layout_with_tabs_splits_off_the_chrome_strip() {
    let l = layout(LogicalSize { width: 640, height: 480 }, 3);
    assert_eq!(l.chrome, Rect { x: 0, y: 0, width: 640, height: CHROME_HEIGHT });
    assert_eq!(l.content, Some(Rect { x: 0, y: 40, width: 640, height: 440 }));
}

#[test]
fn layout_on_a_window_shorter_than_the_strip() {
    let l = layout(LogicalSize { width: 640, height: 25 }, 1);
    assert_eq!(l.chrome, Rect { x: 0, y: 0, width: 640, height: 40 });
    assert_eq!(l.content, Some(Rect { x: 0, y: 40, width: 640, height: 0 }));
}

#[test]
fn visibility_hides_all_others_before_showing_the_target() {
    let cmds = apply_visibility(Some(2), &vec![1, 2, 3]);
    assert_eq!(
        cmds,
        vec![
            SurfaceCommand::HideSurface { id: 1 },
            SurfaceCommand::HideSurface { id: 3 },
            SurfaceCommand::ShowSurface { id: 2 },
        ]
    );
}

#[test]
fn visibility_without_target_hides_everything() {
    let cmds = apply_visibility(None, &vec![4, 5]);
    assert_eq!(
        cmds,
        vec![SurfaceCommand::HideSurface { id: 4 }, SurfaceCommand::HideSurface { id: 5 }]
    );
}

#[test]
fn resize_commands_cover_every_surface() {
    let cmds = compute_resize(&vec![7], LogicalSize { width: 300, height: 200 });
    assert_eq!(
        cmds,
        vec![
            SurfaceCommand::ResizeChrome { rect: Rect { x: 0, y: 0, width: 300, height: 40 } },
            SurfaceCommand::ResizeSurface { id: 7, rect: Rect { x: 0, y: 40, width: 300, height: 160 } },
        ]
    );
}

#[test]
fn registry_insert_rejects_duplicate_ids() {
    let mut r = TabRegistry::new();
    assert!(r.insert(5, 5, "https://a.test".to_string(), "".to_string()).is_ok());
    assert_eq!(
        r.insert(5, 5, "https://b.test".to_string(), "".to_string()),
        Err(TabError::DuplicateId)
    );
    assert_eq!(r.count(), 1);
}

#[test]
fn registry_insert_does_not_change_the_active_selection() {
    let mut r = TabRegistry::new();
    r.insert(0, 0, "https://a.test".to_string(), "".to_string()).unwrap();
    assert_eq!(r.active(), None);
    r.set_active(0).unwrap();
    r.insert(1, 1, "https://b.test".to_string(), "".to_string()).unwrap();
    assert_eq!(r.active(), Some(0));
}

#[test]
fn registry_remove_reports_active_state_and_remaining_order() {
    let mut r = TabRegistry::new();
    r.insert(0, 0, "https://a.test".to_string(), "".to_string()).unwrap();
    r.insert(1, 1, "https://b.test".to_string(), "".to_string()).unwrap();
    r.insert(2, 2, "https://c.test".to_string(), "".to_string()).unwrap();
    r.set_active(1).unwrap();
    let (was_active, remaining) = r.remove(1).unwrap();
    assert!(was_active);
    assert_eq!(remaining, vec![0, 2]);
    assert_eq!(r.active(), None);
    let (was_active, remaining) = r.remove(0).unwrap();
    assert!(!was_active);
    assert_eq!(remaining, vec![2]);
    assert_eq!(r.remove(9), Err(TabError::NotFound));
}

#[test]
fn registry_set_title_overwrites_in_place() {
    let mut r = TabRegistry::new();
    r.insert(0, 0, "https://a.test".to_string(), "old".to_string()).unwrap();
    r.set_title(0, "new".to_string()).unwrap();
    let s = r.snapshot();
    assert_eq!(s.tabs[0].title, "new");
    assert_eq!(r.set_title(3, "x".to_string()), Err(TabError::NotFound));
}

#[test]
fn registry_snapshot_follows_presentation_order() {
    let mut r = TabRegistry::new();
    r.insert(0, 0, "https://a.test".to_string(), "alpha".to_string()).unwrap();
    r.insert(1, 1, "https://b.test".to_string(), "beta".to_string()).unwrap();
    r.set_active(0).unwrap();
    r.reorder(vec![1, 0]).unwrap();
    let s = r.snapshot();
    assert_eq!(s.tabs.len(), 2);
    assert_eq!(s.tabs[0].id, 1);
    assert_eq!(s.tabs[0].title, "beta");
    assert_eq!(s.tabs[0].locator, "https://b.test");
    assert_eq!(s.tabs[1].id, 0);
    assert_eq!(s.tabs[1].title, "alpha");
    assert_eq!(s.active, Some(0));
}

#[test]
fn background_color_matches_the_theme() {
    assert_eq!(
        get_background_color(Theme::Light),
        Color { red: 0xff, green: 0xff, blue: 0xff, alpha: 0xff }
    );
    assert_eq!(
        get_background_color(Theme::Dark),
        Color { red: 0x28, green: 0x0b, blue: 0x0b, alpha: 0xff }
    );
}

#[test]
fn error_descriptions_are_stable() {
    assert_eq!(TabError::NotFound.describe(), "tab not found");
    assert_eq!(TabError::InvalidLocator.describe(), "invalid locator");
    assert_eq!(TabError::OrderMismatch.describe(), "order mismatch");
    assert_eq!(TabError::DuplicateId.describe(), "duplicate tab id");
    assert_eq!(TabError::ToolkitError.describe(), "toolkit error");
}
