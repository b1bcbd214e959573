use adwapach::event::Observable;
use adwapach::geometry::Vec2i;
use adwapach::model::{Fitting, Monitor, MonitorId, Wallpaper};
use adwapach::thumbnail::{Thumbnail, ThumbnailCache};
use adwapach::viewmodel::{ApplicationViewModel, ApplicationViewModelEvent};

fn monitor(name: &str, x: i32, y: i32, w: i32, h: i32) -> Monitor {
    Monitor::new(
        MonitorId::new(vec![1, 0]),
        name.to_string(),
        Vec2i::new(x, y),
        Vec2i::new(w, h),
    )
}

#[test]
fn update_monitors_builds_records_and_selects_first() {
    let mut vm = ApplicationViewModel::new();
    assert_eq!(vm.selected_monitor_index(), None);
    let snapshot = vec![
        monitor("first", 0, 0, 1920, 1080),
        monitor("second", 1920, 0, 1280, 1024),
    ];
    vm.update_monitors(&snapshot);
    assert_eq!(vm.monitors().len(), 2);
    assert_eq!(vm.selected_monitor_index(), Some(0));
    let c = &vm.monitors()[0];
    assert_eq!(c.name, "first");
    assert_eq!(c.position, Vec2i::new(0, 0));
    assert_eq!(c.size, Vec2i::new(1920, 1080));
    assert_eq!(c.preview_rect.denom, 6400);
    assert_eq!(c.preview_rect.y0, 2120);
}

#[test]
fn update_monitors_empty_clears_selection() {
    let mut vm = ApplicationViewModel::new();
    vm.update_monitors(&vec![monitor("one", 0, 0, 800, 600)]);
    assert_eq!(vm.selected_monitor_index(), Some(0));
    vm.update_monitors(&Vec::new());
    assert_eq!(vm.selected_monitor_index(), None);
    assert!(vm.monitors().is_empty());
}

#[test]
fn empty_wallpapers_keep_monitor_selection() {
    // All wallpapers removed while monitors remain: the selection stays
    // on a monitor, the wallpaper display list is empty, and nothing
    // fails.
    let mut vm = ApplicationViewModel::new();
    vm.update_monitors(&vec![monitor("one", 0, 0, 800, 600)]);
    let cache = ThumbnailCache::new();
    vm.update_wallpapers(&Vec::new(), &cache);
    assert_eq!(vm.selected_monitor_index(), Some(0));
    assert!(vm.wallpapers().is_empty());
    assert_eq!(vm.monitors().len(), 1);
}

#[test]
fn update_wallpapers_fills_known_sizes_from_cache() {
    let a = Wallpaper::new("a.png".to_string(), Fitting::Cover);
    let b = Wallpaper::new("b.png".to_string(), Fitting::Tile);
    let snapshot = vec![a.clone(), b.clone()];

    let mut cache = ThumbnailCache::new();
    let only_a = vec![a.clone()];
    cache.complete_pass(&only_a, vec![(a.id(), Thumbnail::new(vec![0u8; 4], 1, 640, 480))]);

    let mut vm = ApplicationViewModel::new();
    vm.update_wallpapers(&snapshot, &cache);
    let records = vm.wallpapers();
    assert_eq!(records.len(), 2);
    assert_eq!(records[0].uuid, a.id());
    assert_eq!(records[0].filename, "a.png");
    assert_eq!(records[0].fitting, Fitting::Cover);
    assert_eq!(records[0].size, Some((640, 480)));
    assert_eq!(records[1].uuid, b.id());
    assert_eq!(records[1].size, None);
}

#[test]
fn set_wallpaper_size_resolves_by_identifier() {
    let a = Wallpaper::new("a.png".to_string(), Fitting::Cover);
    let b = Wallpaper::new("b.png".to_string(), Fitting::Cover);
    let mut vm = ApplicationViewModel::new();
    vm.update_wallpapers(&vec![a.clone(), b.clone()], &ThumbnailCache::new());
    vm.set_wallpaper_size(b.id(), 1024, 768);
    assert_eq!(vm.wallpapers()[0].size, None);
    assert_eq!(vm.wallpapers()[1].size, Some((1024, 768)));
}

#[test]
fn viewmodel_publishes_recomputation_events() {
    let mut vm = ApplicationViewModel::new();
    let sub = vm.subscribe();
    vm.update_monitors(&vec![monitor("one", 0, 0, 800, 600)]);
    vm.update_wallpapers(&Vec::new(), &ThumbnailCache::new());
    assert_eq!(
        vm.take_messages(&sub),
        vec![
            ApplicationViewModelEvent::MonitorsUpdated,
            ApplicationViewModelEvent::WallpapersUpdated,
        ]
    );
    // An empty monitor snapshot clears the caches without publishing.
    vm.update_monitors(&Vec::new());
    assert!(vm.take_messages(&sub).is_empty());
}
