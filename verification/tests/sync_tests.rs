use layerscape::backend::CountingBackend;
use layerscape::errors::SurfaceError;
use layerscape::geometry::Geometry;
use layerscape::labels::wallpaper_label;
use layerscape::registry::SurfaceRegistry;
use layerscape::surface::{LevelState, SurfaceRole};

fn monitor(i: i32) -> Geometry {
    Geometry::new(1920 * i, 0, 1920, 1080)
}

fn url() -> String {
    "index.html#/wallpaper".to_string()
}

#[test]
fn wallpaper_labels_render_monitor_indices_in_decimal() {
    assert_eq!(wallpaper_label(0), "wallpaper-0");
    assert_eq!(wallpaper_label(7), "wallpaper-7");
    assert_eq!(wallpaper_label(10), "wallpaper-10");
    assert_eq!(wallpaper_label(123), "wallpaper-123");
}

#[test]
fn sync_creates_one_wallpaper_per_monitor() {
    let mut reg = SurfaceRegistry::new(CountingBackend::new());
    let snapshot = vec![monitor(0), monitor(1)];
    assert_eq!(reg.sync_wallpaper_to_monitors(&snapshot, &url()), Ok(()));
    assert_eq!(reg.surface_count(), 2);
    let first = reg.lookup(&"wallpaper-0".to_string()).unwrap();
    assert_eq!(first.role, SurfaceRole::Wallpaper(0));
    assert_eq!(first.geometry, monitor(0));
    assert_eq!(first.level, LevelState::DesktopBackground);
    assert!(first.visible);
    let second = reg.lookup(&"wallpaper-1".to_string()).unwrap();
    assert_eq!(second.geometry, monitor(1));
}

#[test]
fn second_sync_with_unchanged_monitors_issues_no_native_calls() {
    let mut reg = SurfaceRegistry::new(CountingBackend::new());
    let snapshot = vec![monitor(0), monitor(1), monitor(2)];
    assert_eq!(reg.sync_wallpaper_to_monitors(&snapshot, &url()), Ok(()));
    let calls_after_first = reg.backend.total_calls();
    assert_eq!(reg.sync_wallpaper_to_monitors(&snapshot, &url()), Ok(()));
    assert_eq!(reg.backend.total_calls(), calls_after_first);
    assert_eq!(reg.backend.geometry_calls, 0);
    assert_eq!(reg.surface_count(), 3);
}

#[test]
fn monitor_loss_removes_exactly_the_stale_wallpapers() {
    let mut reg = SurfaceRegistry::new(CountingBackend::new());
    let three = vec![monitor(0), monitor(1), monitor(2)];
    reg.sync_wallpaper_to_monitors(&three, &url()).unwrap();
    let two = vec![monitor(0), monitor(1)];
    assert_eq!(reg.sync_wallpaper_to_monitors(&two, &url()), Ok(()));
    assert_eq!(reg.surface_count(), 2);
    assert!(reg.lookup(&"wallpaper-2".to_string()).is_none());
    assert_eq!(reg.geometry_of(&"wallpaper-0".to_string()), Some(monitor(0)));
    assert_eq!(reg.geometry_of(&"wallpaper-1".to_string()), Some(monitor(1)));
    assert_eq!(reg.backend.close_calls, 1);
    assert_eq!(reg.backend.geometry_calls, 0);
}

#[test]
fn geometry_change_repositions_without_recreating() {
    let mut reg = SurfaceRegistry::new(CountingBackend::new());
    reg.sync_wallpaper_to_monitors(&vec![monitor(0)], &url()).unwrap();
    let creations = reg.backend.create_calls;
    let rearranged = vec![Geometry::new(0, 200, 2560, 1440)];
    assert_eq!(reg.sync_wallpaper_to_monitors(&rearranged, &url()), Ok(()));
    assert_eq!(reg.backend.create_calls, creations);
    assert_eq!(reg.backend.geometry_calls, 1);
    assert_eq!(
        reg.geometry_of(&"wallpaper-0".to_string()),
        Some(Geometry::new(0, 200, 2560, 1440))
    );
}

#[test]
fn refused_creation_reports_each_missing_monitor() {
    let mut backend = CountingBackend::new();
    backend.refuse_creation = true;
    let mut reg = SurfaceRegistry::new(backend);
    let snapshot = vec![monitor(0), monitor(1)];
    let failures = reg
        .sync_wallpaper_to_monitors(&snapshot, &url())
        .unwrap_err();
    assert_eq!(failures.len(), 2);
    assert_eq!(failures[0].monitor, 0);
    assert_eq!(failures[0].error, SurfaceError::WindowCreationError);
    assert_eq!(failures[1].monitor, 1);
    assert_eq!(reg.surface_count(), 0);
}

#[test]
fn leveling_failure_still_creates_the_wallpaper() {
    let mut backend = CountingBackend::new();
    backend.refuse_leveling = true;
    let mut reg = SurfaceRegistry::new(backend);
    let failures = reg
        .sync_wallpaper_to_monitors(&vec![monitor(0)], &url())
        .unwrap_err();
    assert_eq!(failures.len(), 1);
    assert_eq!(failures[0].error, SurfaceError::LevelingError);
    assert_eq!(reg.surface_count(), 1);
    assert_eq!(
        reg.level_of(&"wallpaper-0".to_string()),
        Some(LevelState::AlwaysOnBottom)
    );
}

#[test]
fn occupied_wallpaper_label_counts_as_creation_failure() {
    let mut reg = SurfaceRegistry::new(CountingBackend::new());
    reg.create_surface(
        &"wallpaper-0".to_string(),
        SurfaceRole::FloatingWidget,
        &url(),
        monitor(5),
        false,
    )
    .unwrap();
    let failures = reg
        .sync_wallpaper_to_monitors(&vec![monitor(0)], &url())
        .unwrap_err();
    assert_eq!(failures.len(), 1);
    assert_eq!(failures[0].monitor, 0);
    assert_eq!(failures[0].error, SurfaceError::WindowCreationError);
    let widget = reg.lookup(&"wallpaper-0".to_string()).unwrap();
    assert_eq!(widget.role, SurfaceRole::FloatingWidget);
}

#[test]
fn sync_repositions_every_wallpaper_of_a_monitor() {
    let mut reg = SurfaceRegistry::new(CountingBackend::new());
    reg.create_surface(
        &"a".to_string(),
        SurfaceRole::Wallpaper(0),
        &url(),
        Geometry::new(1, 2, 3, 4),
        false,
    )
    .unwrap();
    reg.create_surface(
        &"b".to_string(),
        SurfaceRole::Wallpaper(0),
        &url(),
        Geometry::new(5, 6, 7, 8),
        false,
    )
    .unwrap();
    assert_eq!(reg.sync_wallpaper_to_monitors(&vec![monitor(0)], &url()), Ok(()));
    assert_eq!(reg.surface_count(), 2);
    assert_eq!(reg.geometry_of(&"a".to_string()), Some(monitor(0)));
    assert_eq!(reg.geometry_of(&"b".to_string()), Some(monitor(0)));
    assert_eq!(reg.backend.geometry_calls, 2);
    assert_eq!(reg.backend.create_calls, 2);
}

#[test]
fn sync_leaves_floating_surfaces_alone() {
    let mut reg = SurfaceRegistry::new(CountingBackend::new());
    reg.create_surface(
        &"ball".to_string(),
        SurfaceRole::FloatingWidget,
        &url(),
        monitor(9),
        true,
    )
    .unwrap();
    reg.sync_wallpaper_to_monitors(&vec![monitor(0)], &url()).unwrap();
    reg.sync_wallpaper_to_monitors(&Vec::new(), &url()).unwrap();
    assert_eq!(reg.surface_count(), 1);
    assert_eq!(reg.geometry_of(&"ball".to_string()), Some(monitor(9)));
}
