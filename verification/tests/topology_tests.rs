use layerscape::backend::CountingBackend;
use layerscape::geometry::Geometry;
use layerscape::registry::SurfaceRegistry;
use layerscape::topology::{PollDecision, TopologyWatcher};

#[test]
fn unchanged_count_asks_for_nothing() {
    let mut watcher = TopologyWatcher::new(2);
    assert_eq!(watcher.poll(Some(2), true), PollDecision::Unchanged);
    assert_eq!(watcher.last_count, 2);
}

#[test]
fn changed_count_resyncs_only_while_wallpapers_exist() {
    let mut watcher = TopologyWatcher::new(2);
    assert_eq!(watcher.poll(Some(3), false), PollDecision::ChangedIdle);
    assert_eq!(watcher.last_count, 3);
    assert_eq!(watcher.poll(Some(1), true), PollDecision::ChangedResync);
    assert_eq!(watcher.last_count, 1);
}

#[test]
fn failed_enumeration_is_treated_as_unchanged() {
    let mut watcher = TopologyWatcher::new(4);
    assert_eq!(watcher.poll(None, true), PollDecision::EnumerationFailed);
    assert_eq!(watcher.last_count, 4);
    assert_eq!(watcher.poll(Some(4), true), PollDecision::Unchanged);
}

#[test]
fn registry_reports_wallpaper_presence_for_the_watcher_guard() {
    let mut reg = SurfaceRegistry::new(CountingBackend::new());
    assert!(!reg.has_any_wallpaper());
    let snapshot = vec![Geometry::new(0, 0, 1920, 1080)];
    reg.sync_wallpaper_to_monitors(&snapshot, &"index.html".to_string())
        .unwrap();
    assert!(reg.has_any_wallpaper());
    let mut watcher = TopologyWatcher::new(1);
    let decision = watcher.poll(Some(2), reg.has_any_wallpaper());
    assert_eq!(decision, PollDecision::ChangedResync);
}
