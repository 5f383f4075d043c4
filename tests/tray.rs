use site_tray::display::{smallest_display, DisplaySize};
use site_tray::rotation::RotationScheduler;
use site_tray::state::{AppState, Command, Effects, MenuItem, Progress, ToggleLabel};
use site_tray::website::{Catalog, ConfigError, WebSite, WebSiteInfo};

fn site(name: &str) -> WebSite {
    WebSite { name: name.to_string(), url: format!("https://{}.example.org", name.to_lowercase()) }
}

fn info(names: &[&str], default: &str, slider: Option<u64>) -> WebSiteInfo {
    WebSiteInfo {
        websites: names.iter().map(|n| site(n)).collect(),
        default: default.to_string(),
        slider,
    }
}

fn abc() -> Catalog {
    Catalog::load(info(&["A", "B", "C"], "B", Some(5))).unwrap()
}

fn effects(hide: Option<usize>, show: Option<usize>, label: Option<ToggleLabel>) -> Effects {
    Effects { hide, show, label }
}

#[test]
fn load_valid_catalog_starts_at_default() {
    let c = abc();
    assert_eq!(c.len(), 3);
    assert_eq!(c.default_index(), 1);
    assert_eq!(c.interval_secs(), Some(5));
    assert_eq!(c.entries()[2].name, "C");
    let s = AppState::start(&c);
    assert_eq!(s.active_index(), 1);
    assert!(s.is_visible());
    assert_eq!(s.entry_count(), 3);
}

#[test]
fn load_default_first_and_last() {
    let c = Catalog::load(info(&["x", "y", "z"], "x", None)).unwrap();
    assert_eq!(AppState::start(&c).active_index(), 0);
    let c = Catalog::load(info(&["x", "y", "z"], "z", None)).unwrap();
    assert_eq!(AppState::start(&c).active_index(), 2);
}

#[test]
fn load_rejects_duplicate_name() {
    let r = Catalog::load(info(&["A", "B", "A", "B"], "B", None));
    match r {
        Err(ConfigError::DuplicateName(n)) => assert_eq!(n, "A"),
        other => panic!("unexpected {:?}", other.map(|c| c.len())),
    }
}

#[test]
fn load_reports_first_repeated_name() {
    let r = Catalog::load(info(&["A", "B", "C", "B", "A"], "zzz", None));
    match r {
        Err(ConfigError::DuplicateName(n)) => assert_eq!(n, "B"),
        other => panic!("unexpected {:?}", other.map(|c| c.len())),
    }
}

#[test]
fn load_rejects_missing_default() {
    let r = Catalog::load(info(&["A", "B", "C"], "D", Some(5)));
    match r {
        Err(ConfigError::DefaultNotFound(n)) => assert_eq!(n, "D"),
        other => panic!("unexpected {:?}", other.map(|c| c.len())),
    }
}

#[test]
fn load_rejects_empty_catalog() {
    let r = Catalog::load(info(&[], "A", None));
    assert!(matches!(r, Err(ConfigError::DefaultNotFound(_))));
}

#[test]
fn load_rejects_zero_interval() {
    let r = Catalog::load(info(&["A", "B"], "A", Some(0)));
    assert!(matches!(r, Err(ConfigError::Malformed)));
}

#[test]
fn default_position_of_info() {
    assert_eq!(info(&["p", "q"], "q", None).default_position().unwrap(), 1);
}

#[test]
fn toggle_twice_restores_state() {
    let mut s = AppState::start(&abc());
    let e1 = s.toggle_visibility();
    assert_eq!(e1, effects(Some(1), None, Some(ToggleLabel::Show)));
    assert!(!s.is_visible());
    let e2 = s.toggle_visibility();
    assert_eq!(e2, effects(None, Some(1), Some(ToggleLabel::Hide)));
    assert!(s.is_visible());
    assert_eq!(s.active_index(), 1);
}

#[test]
fn select_entry_from_hidden_state() {
    let mut s = AppState::start(&abc());
    s.toggle_visibility();
    let e = s.select_entry(0);
    assert_eq!(e, effects(None, Some(0), Some(ToggleLabel::Hide)));
    assert_eq!(s.active_index(), 0);
    assert!(s.is_visible());
}

#[test]
fn select_active_entry_again_is_idempotent() {
    let mut s = AppState::start(&abc());
    let e = s.select_entry(1);
    assert_eq!(e, effects(None, Some(1), Some(ToggleLabel::Hide)));
    assert_eq!(s.active_index(), 1);
    assert!(s.is_visible());
}

#[test]
fn hidden_tick_is_noop() {
    let mut s = AppState::start(&abc());
    s.toggle_visibility();
    let e = s.rotate_tick();
    assert_eq!(e, effects(None, None, None));
    assert_eq!(s.active_index(), 1);
    assert!(!s.is_visible());
}

#[test]
fn rotation_full_cycle_returns_to_start() {
    let mut s = AppState::start(&abc());
    let mut seen = Vec::new();
    for _ in 0..3 {
        s.rotate_tick();
        seen.push(s.active_index());
    }
    assert_eq!(seen, vec![2, 0, 1]);
}

#[test]
fn rotation_wraps_with_hide_then_show() {
    let c = Catalog::load(info(&["A", "B", "C", "D"], "D", Some(1))).unwrap();
    let mut s = AppState::start(&c);
    let e = s.rotate_tick();
    assert_eq!(e, effects(Some(3), Some(0), Some(ToggleLabel::Hide)));
    assert_eq!(s.active_index(), 0);
}

#[test]
fn close_request_of_active_toggles() {
    let mut s = AppState::start(&abc());
    let e = s.handle_close_request(1);
    assert_eq!(e, effects(Some(1), None, Some(ToggleLabel::Show)));
    assert!(!s.is_visible());
    let e = s.handle_close_request(0);
    assert_eq!(e, effects(None, None, None));
    assert!(!s.is_visible());
    assert_eq!(s.active_index(), 1);
}

#[test]
fn screen_and_label_follow_state() {
    let mut s = AppState::start(&abc());
    assert!(!s.is_shown(0) && s.is_shown(1) && !s.is_shown(2));
    assert_eq!(s.label(), ToggleLabel::Hide);
    assert_eq!(s.label().title(), "Hide");
    s.toggle_visibility();
    assert!(!s.is_shown(0) && !s.is_shown(1) && !s.is_shown(2));
    assert_eq!(s.label().title(), "Show");
}

#[test]
fn dispatch_menu_items() {
    let mut s = AppState::start(&abc());
    assert_eq!(s.dispatch(MenuItem::Quit), Command::Exit(0));
    assert_eq!(s.dispatch(MenuItem::Restart), Command::Restart);
    assert_eq!(s.dispatch(MenuItem::Reset), Command::ResetLayout);
    assert_eq!(
        s.dispatch(MenuItem::SelectEntry(2)),
        Command::Update(effects(Some(1), Some(2), Some(ToggleLabel::Hide)))
    );
    assert_eq!(s.dispatch(MenuItem::SelectEntry(7)), Command::Update(effects(None, None, None)));
    assert_eq!(s.active_index(), 2);
    assert_eq!(
        s.dispatch(MenuItem::ToggleVisible),
        Command::Update(effects(Some(2), None, Some(ToggleLabel::Show)))
    );
}

#[test]
fn scheduler_idle_without_interval_or_entries() {
    let c = Catalog::load(info(&["A", "B"], "A", None)).unwrap();
    assert!(RotationScheduler::for_catalog(&c).is_none());
    let c = Catalog::load(info(&["A"], "A", Some(5))).unwrap();
    assert!(RotationScheduler::for_catalog(&c).is_none());
}

#[test]
fn scheduler_stops_on_request() {
    let c = abc();
    let mut s = AppState::start(&c);
    let mut t = RotationScheduler::for_catalog(&c).unwrap();
    assert_eq!(t.interval_secs(), 5);
    assert!(t.is_running());
    assert_eq!(t.on_wake(&mut s), Some(effects(Some(1), Some(2), Some(ToggleLabel::Hide))));
    t.stop();
    assert!(!t.is_running());
    assert_eq!(t.on_wake(&mut s), None);
    assert_eq!(s.active_index(), 2);
}

#[test]
fn walkthrough_select_toggle_and_rotate() {
    let c = abc();
    let mut s = AppState::start(&c);
    let mut t = RotationScheduler::for_catalog(&c).unwrap();
    assert_eq!(t.interval_secs(), 5);
    // startup
    assert_eq!(s.active_index(), 1);
    assert!(s.is_visible());
    assert!(!s.is_shown(0) && s.is_shown(1) && !s.is_shown(2));
    assert_eq!(s.label().title(), "Hide");
    // select C
    let e = s.select_entry(2);
    assert_eq!(e, effects(Some(1), Some(2), Some(ToggleLabel::Hide)));
    assert_eq!(s.active_index(), 2);
    assert_eq!(s.label().title(), "Hide");
    // toggle off
    let e = s.toggle_visibility();
    assert_eq!(e, effects(Some(2), None, Some(ToggleLabel::Show)));
    assert!(!s.is_visible());
    assert_eq!(s.label().title(), "Show");
    // tick while hidden
    assert_eq!(t.on_wake(&mut s), Some(effects(None, None, None)));
    assert_eq!(s.active_index(), 2);
    // toggle on
    let e = s.toggle_visibility();
    assert_eq!(e, effects(None, Some(2), Some(ToggleLabel::Hide)));
    assert!(s.is_visible());
    assert_eq!(s.label().title(), "Hide");
    // next tick
    assert_eq!(t.on_wake(&mut s), Some(effects(Some(2), Some(0), Some(ToggleLabel::Hide))));
    assert_eq!(s.active_index(), 0);
    t.stop();
}

#[test]
fn smallest_display_picks_first_least_area() {
    let cur = DisplaySize { width: 1920, height: 1080 };
    let v = vec![
        DisplaySize { width: 2560, height: 1440 },
        DisplaySize { width: 1280, height: 720 },
        DisplaySize { width: 720, height: 1280 },
    ];
    assert_eq!(smallest_display(cur, &v), Some(1));
    assert_eq!(smallest_display(DisplaySize { width: 800, height: 600 }, &v), None);
    assert_eq!(smallest_display(cur, &vec![cur]), None);
    assert_eq!(smallest_display(cur, &Vec::new()), None);
}

#[test]
fn display_area_does_not_overflow() {
    let d = DisplaySize { width: u32::MAX, height: u32::MAX };
    assert_eq!(d.area(), (u32::MAX as u64) * (u32::MAX as u64));
    assert_eq!(DisplaySize { width: 3, height: 7 }.area(), 21);
}

#[test]
fn settle_after_failed_show_leaves_nothing_shown() {
    let mut s = AppState::start(&abc());
    let before = s;
    let e = s.select_entry(2);
    s.settle(before, e, Progress::Hidden);
    assert_eq!(s.active_index(), 1);
    assert!(!s.is_visible());
    assert!(!s.is_shown(0) && !s.is_shown(1) && !s.is_shown(2));
}

#[test]
fn settle_after_failed_first_call_restores() {
    let mut s = AppState::start(&abc());
    let before = s;
    let e = s.select_entry(0);
    s.settle(before, e, Progress::Nothing);
    assert_eq!(s.active_index(), 1);
    assert!(s.is_visible());
}

#[test]
fn settle_after_failed_label_keeps_new_state() {
    let mut s = AppState::start(&abc());
    let before = s;
    let e = s.rotate_tick();
    s.settle(before, e, Progress::Surfaces);
    assert_eq!(s.active_index(), 2);
    assert!(s.is_visible());
}

#[test]
fn settle_when_show_fails_without_hide_restores() {
    let mut s = AppState::start(&abc());
    s.toggle_visibility();
    let before = s;
    let e = s.toggle_visibility();
    s.settle(before, e, Progress::Hidden);
    assert!(!s.is_visible());
    assert_eq!(s.active_index(), 1);
}
