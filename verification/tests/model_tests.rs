use adwapach::event::Observable;
use adwapach::geometry::Vec2i;
use adwapach::model::{
    Application, ApplicationEvent, Fitting, Monitor, MonitorId, Wallpaper, WallpaperListOperation,
};

fn monitor(name: &str, x: i32, y: i32, w: i32, h: i32) -> Monitor {
    Monitor::new(
        MonitorId::new(vec![7, 0]),
        name.to_string(),
        Vec2i::new(x, y),
        Vec2i::new(w, h),
    )
}

fn filenames(app: &Application) -> Vec<String> {
    app.wallpapers().iter().map(|w| w.filename().to_string()).collect()
}

#[test]
fn wallpaper_fields_and_set_fitting() {
    let mut w = Wallpaper::new("a.png".to_string(), Fitting::Cover);
    assert_eq!(w.filename(), "a.png");
    assert_eq!(w.fitting(), Fitting::Cover);
    w.set_fitting(Fitting::Tile);
    assert_eq!(w.fitting(), Fitting::Tile);
    assert_eq!(w.filename(), "a.png");
}

#[test]
fn fitting_is_totally_ordered() {
    let order = [
        Fitting::Center,
        Fitting::Tile,
        Fitting::Stretch,
        Fitting::Contain,
        Fitting::Cover,
    ];
    for i in 0..order.len() {
        for j in 0..order.len() {
            assert_eq!(order[i] < order[j], i < j);
        }
    }
}

#[test]
fn wallpaper_ids_are_distinct() {
    let a = Wallpaper::new("a.png".to_string(), Fitting::Cover);
    let b = Wallpaper::new("b.png".to_string(), Fitting::Cover);
    assert_ne!(a.id(), b.id());
}

#[test]
fn add_wallpaper_appends_in_order() {
    let mut app = Application::new();
    app.add_wallpaper(Wallpaper::new("a.png".to_string(), Fitting::Cover));
    app.add_wallpaper(Wallpaper::new("b.png".to_string(), Fitting::Contain));
    assert_eq!(filenames(&app), vec!["a.png".to_string(), "b.png".to_string()]);
}

#[test]
fn move_down_swaps_first_pair() {
    // Add wallpaper A then B; MoveDown at 0 makes the order [B, A].
    let mut app = Application::new();
    app.add_wallpaper(Wallpaper::new("A".to_string(), Fitting::Cover));
    app.add_wallpaper(Wallpaper::new("B".to_string(), Fitting::Cover));
    app.update_wallpaper(0, WallpaperListOperation::MoveDown);
    assert_eq!(filenames(&app), vec!["B".to_string(), "A".to_string()]);
}

#[test]
fn move_up_at_first_index_is_noop() {
    let mut app = Application::new();
    app.add_wallpaper(Wallpaper::new("A".to_string(), Fitting::Cover));
    app.add_wallpaper(Wallpaper::new("B".to_string(), Fitting::Cover));
    app.update_wallpaper(0, WallpaperListOperation::MoveUp);
    assert_eq!(filenames(&app), vec!["A".to_string(), "B".to_string()]);
}

#[test]
fn move_down_at_last_index_is_noop() {
    let mut app = Application::new();
    app.add_wallpaper(Wallpaper::new("A".to_string(), Fitting::Cover));
    app.add_wallpaper(Wallpaper::new("B".to_string(), Fitting::Cover));
    app.update_wallpaper(1, WallpaperListOperation::MoveDown);
    assert_eq!(filenames(&app), vec!["A".to_string(), "B".to_string()]);
}

#[test]
fn move_up_then_down_restores_order() {
    let mut app = Application::new();
    for name in ["A", "B", "C"] {
        app.add_wallpaper(Wallpaper::new(name.to_string(), Fitting::Cover));
    }
    app.update_wallpaper(1, WallpaperListOperation::MoveUp);
    assert_eq!(filenames(&app), vec!["B".to_string(), "A".to_string(), "C".to_string()]);
    app.update_wallpaper(0, WallpaperListOperation::MoveDown);
    assert_eq!(filenames(&app), vec!["A".to_string(), "B".to_string(), "C".to_string()]);
}

#[test]
fn remove_shortens_and_preserves_order() {
    let mut app = Application::new();
    for name in ["A", "B", "C", "D"] {
        app.add_wallpaper(Wallpaper::new(name.to_string(), Fitting::Cover));
    }
    app.update_wallpaper(1, WallpaperListOperation::Remove);
    assert_eq!(
        filenames(&app),
        vec!["A".to_string(), "C".to_string(), "D".to_string()]
    );
}

#[test]
fn set_fitting_by_index() {
    let mut app = Application::new();
    app.add_wallpaper(Wallpaper::new("A".to_string(), Fitting::Cover));
    app.add_wallpaper(Wallpaper::new("B".to_string(), Fitting::Cover));
    app.update_wallpaper(1, WallpaperListOperation::SetFitting(Fitting::Stretch));
    assert_eq!(app.wallpapers()[0].fitting(), Fitting::Cover);
    assert_eq!(app.wallpapers()[1].fitting(), Fitting::Stretch);
}

#[test]
fn set_monitors_replaces_wholesale() {
    let mut app = Application::new();
    app.set_monitors(vec![monitor("one", 0, 0, 800, 600)]);
    assert_eq!(app.monitors().len(), 1);
    assert_eq!(app.monitors()[0].name(), "one");
    app.set_monitors(vec![
        monitor("left", -800, 0, 800, 600),
        monitor("right", 0, 0, 800, 600),
    ]);
    assert_eq!(app.monitors().len(), 2);
    assert_eq!(app.monitors()[0].name(), "left");
}

#[test]
fn apply_wallpaper_resolves_request() {
    let mut app = Application::new();
    app.set_monitors(vec![monitor("one", 0, 0, 800, 600)]);
    app.add_wallpaper(Wallpaper::new("pic.png".to_string(), Fitting::Cover));
    let (id, path) = app.apply_wallpaper_for_monitor(0, 0);
    assert_eq!(id.units(), &vec![7u16, 0u16]);
    assert_eq!(path, "pic.png");
}

#[test]
fn model_events_are_delivered_in_order() {
    let mut app = Application::new();
    let sub = app.subscribe();
    app.set_monitors(vec![monitor("one", 0, 0, 800, 600)]);
    app.add_wallpaper(Wallpaper::new("A".to_string(), Fitting::Cover));
    app.update_wallpaper(0, WallpaperListOperation::MoveUp);
    let messages = app.take_messages(&sub);
    assert_eq!(
        messages,
        vec![
            ApplicationEvent::MonitorsUpdated,
            ApplicationEvent::WallpapersUpdated,
            ApplicationEvent::WallpapersUpdated,
        ]
    );
    // Drained: nothing more until the next mutation.
    assert!(app.take_messages(&sub).is_empty());
}

#[test]
fn dropped_model_subscription_receives_nothing() {
    let mut app = Application::new();
    let keep = app.subscribe();
    let drop_me = app.subscribe();
    app.unsubscribe(drop_me);
    app.add_wallpaper(Wallpaper::new("A".to_string(), Fitting::Cover));
    let messages = app.take_messages(&keep);
    assert_eq!(messages, vec![ApplicationEvent::WallpapersUpdated]);
}
