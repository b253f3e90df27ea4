//! End-to-end scenarios over the tab lifecycle manager.

use tab_core::coordinator::SurfaceCommand;
use tab_core::errors::TabError;
use tab_core::geometry::LogicalSize;
use tab_core::geometry::Rect;
use tab_core::lifecycle::TabManager;

fn window() -> LogicalSize {
    LogicalSize { width: 800, height: 600 }
}

fn open(m: &mut TabManager, url: &str) -> u32 {
    m.add_tab(url.to_string(), window()).expect("open failed").id
}

#[test]
fn open_first_tab_on_empty_registry() {
    let mut m = TabManager::new();
    let created = m.add_tab("https://a.test".to_string(), window()).unwrap();
    assert_eq!(created.id, 0);
    assert_eq!(created.request.id, 0);
    assert_eq!(created.request.locator, "https://a.test");
    assert_eq!(
        created.request.rect,
        Rect { x: 0, y: 40, width: 800, height: 560 }
    );
    let s = m.snapshot();
    assert_eq!(s.tabs.len(), 1);
    assert_eq!(s.tabs[0].id, 0);
    assert_eq!(s.tabs[0].title, "");
    assert_eq!(s.tabs[0].locator, "https://a.test");
    assert_eq!(s.active, Some(0));
}

#[test]
fn closing_active_tab_activates_first_remaining() {
    let mut m = TabManager::new();
    let a = open(&mut m, "https://a.test");
    let b = open(&mut m, "https://b.test");
    assert_eq!((a, b), (0, 1));
    assert_eq!(m.active(), Some(1));
    let out = m.close_tab(1, window()).unwrap();
    assert_eq!(out.new_active, Some(0));
    let s = m.snapshot();
    assert_eq!(s.active, Some(0));
    assert_eq!(s.tabs.len(), 1);
    assert_eq!(s.tabs[0].id, 0);
}

#[test]
fn closing_inactive_tab_keeps_active_and_order() {
    let mut m = TabManager::new();
    open(&mut m, "https://a.test");
    open(&mut m, "https://b.test");
    open(&mut m, "https://c.test");
    assert_eq!(m.active(), Some(2));
    let out = m.close_tab(0, window()).unwrap();
    assert_eq!(out.new_active, Some(2));
    assert_eq!(out.commands, vec![SurfaceCommand::CloseSurface { id: 0 }]);
    assert_eq!(m.active(), Some(2));
    assert_eq!(m.order_ids(), vec![1, 2]);
}

#[test]
fn reorder_accepts_permutation_and_rejects_subset() {
    let mut m = TabManager::new();
    open(&mut m, "https://a.test");
    open(&mut m, "https://b.test");
    assert!(m.reorder_tabs(vec![1, 0]).is_ok());
    assert_eq!(m.order_ids(), vec![1, 0]);
    assert_eq!(m.reorder_tabs(vec![0]), Err(TabError::OrderMismatch));
    assert_eq!(m.order_ids(), vec![1, 0]);
}

#[test]
fn reorder_rejects_duplicates_and_unknown_ids() {
    let mut m = TabManager::new();
    open(&mut m, "https://a.test");
    open(&mut m, "https://b.test");
    assert_eq!(m.reorder_tabs(vec![0, 0]), Err(TabError::OrderMismatch));
    assert_eq!(m.reorder_tabs(vec![0, 7]), Err(TabError::OrderMismatch));
    assert_eq!(m.reorder_tabs(vec![0, 1, 1]), Err(TabError::OrderMismatch));
    assert_eq!(m.order_ids(), vec![0, 1]);
}

#[test]
fn close_unknown_id_fails_and_changes_nothing() {
    let mut m = TabManager::new();
    open(&mut m, "https://a.test");
    let before = m.snapshot();
    let r = m.close_tab(99, window());
    assert!(matches!(r, Err(TabError::NotFound)));
    let after = m.snapshot();
    assert_eq!(before.active, after.active);
    assert_eq!(before.tabs.len(), after.tabs.len());
    assert_eq!(before.tabs[0].id, after.tabs[0].id);
    assert_eq!(before.tabs[0].title, after.tabs[0].title);
    assert_eq!(before.tabs[0].locator, after.tabs[0].locator);
}

#[test]
fn chrome_geometry_follows_tab_count_transitions() {
    let mut m = TabManager::new();
    let created = m.add_tab("https://a.test".to_string(), window()).unwrap();
    // the first tab shrinks the chrome to the strip, shows the new surface,
    // then hides it until its first page load
    assert_eq!(
        created.commands,
        vec![
            SurfaceCommand::ResizeChrome { rect: Rect { x: 0, y: 0, width: 800, height: 40 } },
            SurfaceCommand::ShowSurface { id: 0 },
            SurfaceCommand::HideSurface { id: 0 },
        ]
    );
    // closing the last tab returns the chrome to the full window
    let out = m.close_tab(0, window()).unwrap();
    assert_eq!(out.new_active, None);
    assert_eq!(
        out.commands,
        vec![
            SurfaceCommand::CloseSurface { id: 0 },
            SurfaceCommand::ResizeChrome { rect: Rect { x: 0, y: 0, width: 800, height: 600 } },
        ]
    );
    assert_eq!(m.count(), 0);
    assert_eq!(m.active(), None);
}

#[test]
fn second_tab_does_not_touch_chrome_geometry() {
    let mut m = TabManager::new();
    open(&mut m, "https://a.test");
    let created = m.add_tab("https://b.test".to_string(), window()).unwrap();
    assert_eq!(
        created.commands,
        vec![
            SurfaceCommand::HideSurface { id: 0 },
            SurfaceCommand::ShowSurface { id: 1 },
            SurfaceCommand::HideSurface { id: 1 },
        ]
    );
}

#[test]
fn activate_tab_twice_is_idempotent() {
    let mut m = TabManager::new();
    open(&mut m, "https://a.test");
    open(&mut m, "https://b.test");
    let c1 = m.set_active_tab(0).unwrap();
    let s1 = m.snapshot();
    let c2 = m.set_active_tab(0).unwrap();
    let s2 = m.snapshot();
    assert_eq!(c1, c2);
    assert_eq!(
        c1,
        vec![SurfaceCommand::HideSurface { id: 1 }, SurfaceCommand::ShowSurface { id: 0 }]
    );
    assert_eq!(s1.active, s2.active);
    assert_eq!(s1.tabs.len(), s2.tabs.len());
    for (t1, t2) in s1.tabs.iter().zip(s2.tabs.iter()) {
        assert_eq!(t1.id, t2.id);
        assert_eq!(t1.title, t2.title);
        assert_eq!(t1.locator, t2.locator);
    }
}

#[test]
fn reorder_round_trips_through_snapshot() {
    let mut m = TabManager::new();
    open(&mut m, "https://a.test");
    open(&mut m, "https://b.test");
    open(&mut m, "https://c.test");
    m.reorder_tabs(vec![2, 0, 1]).unwrap();
    let s = m.snapshot();
    let ids: Vec<u32> = s.tabs.iter().map(|t| t.id).collect();
    assert_eq!(ids, vec![2, 0, 1]);
    // reordering back to the open order round-trips as well
    m.reorder_tabs(vec![0, 1, 2]).unwrap();
    let s = m.snapshot();
    let ids: Vec<u32> = s.tabs.iter().map(|t| t.id).collect();
    assert_eq!(ids, vec![0, 1, 2]);
}

#[test]
fn invalid_locator_is_rejected_without_side_effects() {
    let mut m = TabManager::new();
    let r = m.add_tab("not a url".to_string(), window());
    assert!(matches!(r, Err(TabError::InvalidLocator)));
    let r = m.add_tab("relative/path".to_string(), window());
    assert!(matches!(r, Err(TabError::InvalidLocator)));
    assert_eq!(m.count(), 0);
    // ids are allocated only after validation, so the next open still gets 0
    assert_eq!(open(&mut m, "https://a.test"), 0);
}

#[test]
fn rename_updates_only_the_title() {
    let mut m = TabManager::new();
    open(&mut m, "https://a.test");
    open(&mut m, "https://b.test");
    m.update_tab(0, "first".to_string()).unwrap();
    let s = m.snapshot();
    assert_eq!(s.tabs[0].title, "first");
    assert_eq!(s.tabs[1].title, "");
    assert_eq!(s.tabs[0].locator, "https://a.test");
    assert_eq!(s.active, Some(1));
    assert_eq!(m.update_tab(99, "ghost".to_string()), Err(TabError::NotFound));
}

#[test]
fn activate_unknown_id_fails() {
    let mut m = TabManager::new();
    open(&mut m, "https://a.test");
    let r = m.set_active_tab(42);
    assert!(matches!(r, Err(TabError::NotFound)));
    assert_eq!(m.active(), Some(0));
}

#[test]
fn resize_recomputes_geometry_for_all_surfaces() {
    let mut m = TabManager::new();
    let size = LogicalSize { width: 1000, height: 500 };
    assert_eq!(
        m.on_window_resized(size),
        vec![SurfaceCommand::ResizeChrome { rect: Rect { x: 0, y: 0, width: 1000, height: 500 } }]
    );
    open(&mut m, "https://a.test");
    open(&mut m, "https://b.test");
    assert_eq!(
        m.on_window_resized(size),
        vec![
            SurfaceCommand::ResizeChrome { rect: Rect { x: 0, y: 0, width: 1000, height: 40 } },
            SurfaceCommand::ResizeSurface { id: 0, rect: Rect { x: 0, y: 40, width: 1000, height: 460 } },
            SurfaceCommand::ResizeSurface { id: 1, rect: Rect { x: 0, y: 40, width: 1000, height: 460 } },
        ]
    );
}

#[test]
fn page_load_reveals_live_tab_and_ignores_closed_tab() {
    let mut m = TabManager::new();
    open(&mut m, "https://a.test");
    assert_eq!(
        m.on_page_load_finished(0),
        Some(SurfaceCommand::ShowSurface { id: 0 })
    );
    m.close_tab(0, window()).unwrap();
    assert_eq!(m.on_page_load_finished(0), None);
}

#[test]
fn ids_are_never_reused() {
    let mut m = TabManager::new();
    open(&mut m, "https://a.test");
    open(&mut m, "https://b.test");
    m.close_tab(1, window()).unwrap();
    // the counter is monotone: a new tab gets a fresh id, not the freed one
    assert_eq!(open(&mut m, "https://c.test"), 2);
    assert_eq!(m.order_ids(), vec![0, 2]);
}
