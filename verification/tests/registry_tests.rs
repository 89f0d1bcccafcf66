use layerscape::backend::CountingBackend;
use layerscape::errors::SurfaceError;
use layerscape::geometry::Geometry;
use layerscape::registry::SurfaceRegistry;
use layerscape::surface::{parse_level_request, LevelState, SurfaceRole};

fn widget_geometry() -> Geometry {
    Geometry::new(100, 50, 300, 200)
}

#[test]
fn create_is_idempotent() {
    let mut reg = SurfaceRegistry::new(CountingBackend::new());
    let label = "ball".to_string();
    let url = "index.html#/ball".to_string();
    let first = reg.create_surface(&label, SurfaceRole::FloatingWidget, &url, widget_geometry(), true);
    assert_eq!(first, Ok(()));
    assert_eq!(reg.surface_count(), 1);
    let calls_after_first = reg.backend.total_calls();
    let second = reg.create_surface(&label, SurfaceRole::FloatingWidget, &url, widget_geometry(), true);
    assert_eq!(second, Ok(()));
    assert_eq!(reg.surface_count(), 1);
    assert_eq!(reg.backend.total_calls(), calls_after_first);
}

#[test]
fn destroy_absent_is_success_and_reposition_reports_not_found() {
    let mut reg = SurfaceRegistry::new(CountingBackend::new());
    let label = "ghost".to_string();
    assert_eq!(reg.destroy_surface(&label), Ok(()));
    assert_eq!(
        reg.reposition_surface(&label, widget_geometry()),
        Err(SurfaceError::NotFound)
    );
}

#[test]
fn destroy_then_reposition_reports_not_found() {
    let mut reg = SurfaceRegistry::new(CountingBackend::new());
    let label = "ball".to_string();
    let url = "index.html".to_string();
    reg.create_surface(&label, SurfaceRole::FloatingWidget, &url, widget_geometry(), false)
        .unwrap();
    assert_eq!(reg.destroy_surface(&label), Ok(()));
    assert_eq!(reg.backend.close_calls, 1);
    assert_eq!(reg.surface_count(), 0);
    assert_eq!(
        reg.reposition_surface(&label, widget_geometry()),
        Err(SurfaceError::NotFound)
    );
    assert_eq!(reg.destroy_surface(&label), Ok(()));
    assert_eq!(reg.backend.close_calls, 1);
}

#[test]
fn refused_window_creation_records_nothing() {
    let mut backend = CountingBackend::new();
    backend.refuse_creation = true;
    let mut reg = SurfaceRegistry::new(backend);
    let label = "ball".to_string();
    let url = "index.html".to_string();
    let r = reg.create_surface(&label, SurfaceRole::FloatingWidget, &url, widget_geometry(), false);
    assert_eq!(r, Err(SurfaceError::WindowCreationError));
    assert_eq!(reg.surface_count(), 0);
}

#[test]
fn leveling_failure_keeps_window_at_fallback() {
    let mut backend = CountingBackend::new();
    backend.refuse_leveling = true;
    let mut reg = SurfaceRegistry::new(backend);
    let label = "ball".to_string();
    let url = "index.html".to_string();
    let r = reg.create_surface(&label, SurfaceRole::FloatingWidget, &url, widget_geometry(), false);
    assert_eq!(r, Err(SurfaceError::LevelingError));
    assert_eq!(reg.surface_count(), 1);
    assert_eq!(reg.level_of(&label), Some(LevelState::AlwaysOnBottom));
}

#[test]
fn reposition_updates_geometry_only() {
    let mut reg = SurfaceRegistry::new(CountingBackend::new());
    let label = "ball".to_string();
    let url = "index.html".to_string();
    reg.create_surface(&label, SurfaceRole::FloatingWidget, &url, widget_geometry(), false)
        .unwrap();
    let moved = Geometry::new(5, -7, 300, 200);
    assert_eq!(reg.reposition_surface(&label, moved), Ok(()));
    assert_eq!(reg.geometry_of(&label), Some(moved));
    assert_eq!(reg.level_of(&label), Some(LevelState::AlwaysOnTop));
    assert_eq!(reg.backend.geometry_calls, 1);
}

#[test]
fn set_level_never_reports_window_creation_error() {
    let mut backend = CountingBackend::new();
    backend.refuse_leveling = true;
    let mut reg = SurfaceRegistry::new(backend);
    let label = "ball".to_string();
    let url = "index.html".to_string();
    let _ = reg.create_surface(&label, SurfaceRole::FloatingWidget, &url, widget_geometry(), false);
    let r = reg.set_surface_level(&label, LevelState::DesktopBackground);
    assert_eq!(r, Err(SurfaceError::LevelingError));
    assert_eq!(reg.level_of(&label), Some(LevelState::AlwaysOnBottom));
    let absent = reg.set_surface_level(&"ghost".to_string(), LevelState::AlwaysOnTop);
    assert_eq!(absent, Err(SurfaceError::NotFound));
}

#[test]
fn set_level_applies_when_backend_accepts() {
    let mut reg = SurfaceRegistry::new(CountingBackend::new());
    let label = "wall".to_string();
    let url = "index.html".to_string();
    reg.create_surface(&label, SurfaceRole::Wallpaper(0), &url, widget_geometry(), false)
        .unwrap();
    assert_eq!(reg.level_of(&label), Some(LevelState::DesktopBackground));
    assert_eq!(reg.set_surface_level(&label, LevelState::AlwaysOnTop), Ok(()));
    assert_eq!(reg.level_of(&label), Some(LevelState::AlwaysOnTop));
}

#[test]
fn set_shadow_requires_existing_label() {
    let mut reg = SurfaceRegistry::new(CountingBackend::new());
    let label = "ball".to_string();
    let url = "index.html".to_string();
    assert_eq!(
        reg.set_surface_shadow(&label, true),
        Err(SurfaceError::NotFound)
    );
    reg.create_surface(&label, SurfaceRole::FloatingWidget, &url, widget_geometry(), false)
        .unwrap();
    assert_eq!(reg.set_surface_shadow(&label, true), Ok(()));
    assert_eq!(reg.backend.shadow_calls, 1);
}

#[test]
fn a_fresh_label_is_always_built_even_on_a_backed_monitor() {
    let mut reg = SurfaceRegistry::new(CountingBackend::new());
    let url = "index.html".to_string();
    reg.create_surface(&"a".to_string(), SurfaceRole::Wallpaper(3), &url, widget_geometry(), false)
        .unwrap();
    let r = reg.create_surface(
        &"b".to_string(),
        SurfaceRole::Wallpaper(3),
        &url,
        widget_geometry(),
        false,
    );
    assert_eq!(r, Ok(()));
    assert_eq!(reg.surface_count(), 2);
    assert_eq!(reg.backend.create_calls, 2);
    assert!(reg.lookup(&"b".to_string()).is_some());
}

#[test]
fn floating_menu_is_created_visible_at_top_level() {
    let mut reg = SurfaceRegistry::new(CountingBackend::new());
    let label = "floating-menu".to_string();
    let url = "index.html#/menu".to_string();
    reg.create_surface(&label, SurfaceRole::FloatingMenu, &url, widget_geometry(), false)
        .unwrap();
    let surface = reg.lookup(&label).unwrap();
    assert!(surface.visible);
    assert_eq!(surface.level, LevelState::AlwaysOnTop);
}

#[test]
fn visibility_toggles_through_show_and_hide() {
    let mut reg = SurfaceRegistry::new(CountingBackend::new());
    let label = "floating-menu".to_string();
    let url = "index.html#/menu".to_string();
    assert_eq!(
        reg.set_surface_visible(&label, true),
        Err(SurfaceError::NotFound)
    );
    reg.create_surface(&label, SurfaceRole::FloatingMenu, &url, widget_geometry(), false)
        .unwrap();
    assert!(reg.lookup(&label).unwrap().visible);
    assert_eq!(reg.set_surface_visible(&label, false), Ok(()));
    assert!(!reg.lookup(&label).unwrap().visible);
    assert_eq!(reg.backend.visibility_calls, 1);
    assert_eq!(reg.set_surface_visible(&label, true), Ok(()));
    assert!(reg.lookup(&label).unwrap().visible);
}

#[test]
fn level_requests_parse_like_the_front_end_sends_them() {
    assert_eq!(
        parse_level_request(&"below".to_string()),
        LevelState::DesktopBackground
    );
    assert_eq!(parse_level_request(&"top".to_string()), LevelState::AlwaysOnTop);
    assert_eq!(
        parse_level_request(&"anything-else".to_string()),
        LevelState::AlwaysOnBottom
    );
}
