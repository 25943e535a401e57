use floatview::actions::{
    change_opacity, dispatch, exit_click_through, home_address, navigate, navigate_home,
    open_settings, persist_window_geometry, preview_opacity, set_opacity, set_url,
    toggle_always_on_top, toggle_locked, toggle_maximized, toggle_visibility, update_config,
    update_window_geometry_config, Action, WindowStatus,
};
use floatview::address::InvalidUrl;
use floatview::config::{AppConfig, MAX_WINDOW_SIZE, MIN_WINDOW_SIZE, OPACITY_STEP};
use floatview::effect::{Attribute, Effect, Notice, Surface};

fn status(always_on_top: bool, visible: bool) -> WindowStatus {
    WindowStatus { always_on_top, visible }
}

#[test]
fn update_window_geometry_config_clamps_size() {
    let mut config = AppConfig::default();
    update_window_geometry_config(&mut config, 123, 456, 100, 25_000);

    assert_eq!(config.window.x, 123);
    assert_eq!(config.window.y, 456);
    assert_eq!(config.window.width, MIN_WINDOW_SIZE);
    assert_eq!(config.window.height, MAX_WINDOW_SIZE);
}

#[test]
fn update_window_geometry_config_keeps_sizes_in_range() {
    let mut config = AppConfig::default();
    let before = config.clone();
    update_window_geometry_config(&mut config, -5, i32::MIN, 200, 10_000);
    assert_eq!(config.window.x, -5);
    assert_eq!(config.window.y, i32::MIN);
    assert_eq!(config.window.width, 200);
    assert_eq!(config.window.height, 10_000);
    config.window.x = before.window.x;
    config.window.y = before.window.y;
    config.window.width = before.window.width;
    config.window.height = before.window.height;
    assert_eq!(config, before);
}

#[test]
fn persist_window_geometry_reads_sides_as_signed() {
    let mut config = AppConfig::default();
    let steps = persist_window_geometry(&mut config, 7, -8, 1280, 720);
    assert_eq!(steps, vec![Effect::Persist]);
    assert_eq!((config.window.x, config.window.y), (7, -8));
    assert_eq!((config.window.width, config.window.height), (1280, 720));
    persist_window_geometry(&mut config, 0, 0, u32::MAX, 3_000_000_000);
    assert_eq!((config.window.width, config.window.height), (200, 200));
    persist_window_geometry(&mut config, 0, 0, 2_147_483_647, 0);
    assert_eq!((config.window.width, config.window.height), (10_000, 200));
}

#[test]
fn toggling_the_lock_twice_restores_the_record() {
    let mut config = AppConfig::default();
    config.window.x = 11;
    config.window.y = 22;
    config.window.width = 333;
    config.window.height = 444;
    let before = config.clone();
    let first = toggle_locked(&mut config, Surface::Command);
    assert!(config.window.locked);
    assert_eq!(
        first,
        vec![
            Effect::Persist,
            Effect::Apply(Attribute::ClickThrough(true)),
            Effect::Emit(Notice::Locked(true)),
        ]
    );
    assert_eq!(config.window.x, 11);
    assert_eq!(config.window.y, 22);
    assert_eq!(config.window.width, 333);
    assert_eq!(config.window.height, 444);
    let second = toggle_locked(&mut config, Surface::Hotkey);
    assert_eq!(
        second,
        vec![
            Effect::Persist,
            Effect::Apply(Attribute::ClickThrough(false)),
            Effect::Emit(Notice::Locked(false)),
            Effect::CallHook(Notice::Locked(false)),
        ]
    );
    assert_eq!(config, before);
}

#[test]
fn exit_click_through_does_nothing_when_unlocked() {
    let mut config = AppConfig::default();
    let before = config.clone();
    assert_eq!(exit_click_through(&mut config, Surface::Tray), Vec::new());
    assert_eq!(config, before);
    config.window.locked = true;
    assert_eq!(
        exit_click_through(&mut config, Surface::Tray),
        vec![
            Effect::Persist,
            Effect::Apply(Attribute::ClickThrough(false)),
            Effect::Emit(Notice::Locked(false)),
            Effect::CallHook(Notice::Locked(false)),
        ]
    );
    assert_eq!(config, before);
    config.window.locked = true;
    assert_eq!(
        exit_click_through(&mut config, Surface::Command),
        vec![
            Effect::Persist,
            Effect::Apply(Attribute::ClickThrough(false)),
            Effect::Emit(Notice::Locked(false)),
        ]
    );
}

#[test]
fn toggle_always_on_top_goes_by_the_live_window() {
    let mut config = AppConfig::default();
    assert!(config.window.always_on_top);
    let steps = toggle_always_on_top(&mut config, false, Surface::Command);
    assert!(config.window.always_on_top);
    assert_eq!(
        steps,
        vec![
            Effect::Persist,
            Effect::Apply(Attribute::AlwaysOnTop(true)),
            Effect::Emit(Notice::AlwaysOnTop(true)),
        ]
    );
    let steps = toggle_always_on_top(&mut config, true, Surface::Tray);
    assert!(!config.window.always_on_top);
    assert_eq!(steps.last(), Some(&Effect::CallHook(Notice::AlwaysOnTop(false))));
    assert_eq!(steps.len(), 4);
}

#[test]
fn opacity_down_converges_to_the_floor() {
    let mut config = AppConfig::default();
    config.window.opacity = 120;
    change_opacity(&mut config, -OPACITY_STEP, Surface::Hotkey);
    assert_eq!(config.window.opacity, 100);
    for _ in 0..50 {
        let steps = change_opacity(&mut config, -OPACITY_STEP, Surface::Hotkey);
        assert_eq!(config.window.opacity, 100);
        assert_eq!(
            steps,
            vec![
                Effect::Persist,
                Effect::Apply(Attribute::Opacity(100)),
                Effect::Emit(Notice::Opacity(100)),
                Effect::CallHook(Notice::Opacity(100)),
            ]
        );
    }
}

#[test]
fn opacity_steps_are_fifty_thousandths() {
    let mut config = AppConfig::default();
    config.window.opacity = 500;
    change_opacity(&mut config, OPACITY_STEP, Surface::Hotkey);
    assert_eq!(config.window.opacity, 550);
    change_opacity(&mut config, -OPACITY_STEP, Surface::Hotkey);
    change_opacity(&mut config, -OPACITY_STEP, Surface::Hotkey);
    assert_eq!(config.window.opacity, 450);
    config.window.opacity = 980;
    change_opacity(&mut config, OPACITY_STEP, Surface::Hotkey);
    assert_eq!(config.window.opacity, 1000);
    change_opacity(&mut config, OPACITY_STEP, Surface::Hotkey);
    assert_eq!(config.window.opacity, 1000);
}

#[test]
fn opacity_changes_do_not_overflow() {
    let mut config = AppConfig::default();
    config.window.opacity = i32::MAX;
    change_opacity(&mut config, i32::MAX, Surface::Command);
    assert_eq!(config.window.opacity, 1000);
    config.window.opacity = i32::MIN;
    change_opacity(&mut config, i32::MIN, Surface::Command);
    assert_eq!(config.window.opacity, 100);
    config.window.opacity = i32::MIN;
    change_opacity(&mut config, i32::MAX, Surface::Command);
    assert_eq!(config.window.opacity, 100);
}

#[test]
fn set_opacity_clamps_and_announces() {
    let mut config = AppConfig::default();
    let steps = set_opacity(&mut config, 855, Surface::Command);
    assert_eq!(config.window.opacity, 855);
    assert_eq!(
        steps,
        vec![
            Effect::Persist,
            Effect::Apply(Attribute::Opacity(855)),
            Effect::Emit(Notice::Opacity(855)),
        ]
    );
    set_opacity(&mut config, 2000, Surface::Command);
    assert_eq!(config.window.opacity, 1000);
    set_opacity(&mut config, -3, Surface::Command);
    assert_eq!(config.window.opacity, 100);
    set_opacity(&mut config, 99, Surface::Command);
    assert_eq!(config.window.opacity, 100);
    set_opacity(&mut config, 100, Surface::Command);
    assert_eq!(config.window.opacity, 100);
    set_opacity(&mut config, 1001, Surface::Command);
    assert_eq!(config.window.opacity, 1000);
}

#[test]
fn preview_opacity_stores_nothing() {
    assert_eq!(preview_opacity(300), vec![Effect::Apply(Attribute::Opacity(300))]);
    assert_eq!(preview_opacity(0), vec![Effect::Apply(Attribute::Opacity(100))]);
    assert_eq!(preview_opacity(5000), vec![Effect::Apply(Attribute::Opacity(1000))]);
}

#[test]
fn set_url_moves_the_page_to_the_front() {
    let mut config = AppConfig::default();
    config.recent_urls = Some(vec![
        "https://a.example/".to_string(),
        "https://b.example/".to_string(),
        "https://c.example/".to_string(),
    ]);
    let steps = set_url(&mut config, "b.example").unwrap();
    assert_eq!(steps, vec![Effect::Persist]);
    assert_eq!(config.last_url, Some("https://b.example/".to_string()));
    assert_eq!(
        config.recent_urls,
        Some(vec![
            "https://b.example/".to_string(),
            "https://a.example/".to_string(),
            "https://c.example/".to_string(),
        ])
    );
    set_url(&mut config, "https://d.example").unwrap();
    assert_eq!(
        config.recent_urls,
        Some(vec![
            "https://d.example/".to_string(),
            "https://b.example/".to_string(),
            "https://a.example/".to_string(),
            "https://c.example/".to_string(),
        ])
    );
}

#[test]
fn set_url_keeps_ten_recent_pages() {
    let mut config = AppConfig::default();
    for i in 0..12 {
        set_url(&mut config, &format!("https://s{i}.example/")).unwrap();
    }
    let recent = config.recent_urls.clone().unwrap();
    let expected: Vec<String> = (2..12).rev().map(|i| format!("https://s{i}.example/")).collect();
    assert_eq!(recent, expected);
    set_url(&mut config, "https://s5.example/").unwrap();
    let recent = config.recent_urls.clone().unwrap();
    assert_eq!(recent.len(), 10);
    assert_eq!(recent[0], "https://s5.example/");
    assert_eq!(recent[1], "https://s11.example/");
    assert_eq!(recent[9], "https://s2.example/");
}

#[test]
fn set_url_removes_every_repetition() {
    let mut config = AppConfig::default();
    config.recent_urls = Some(vec![
        "https://a.example/".to_string(),
        "https://b.example/".to_string(),
        "https://a.example/".to_string(),
    ]);
    set_url(&mut config, "https://a.example/").unwrap();
    assert_eq!(
        config.recent_urls,
        Some(vec!["https://a.example/".to_string(), "https://b.example/".to_string()])
    );
    config.recent_urls = None;
    set_url(&mut config, "https://a.example/").unwrap();
    assert_eq!(config.recent_urls, Some(vec!["https://a.example/".to_string()]));
}

#[test]
fn set_url_refuses_what_is_no_address() {
    let mut config = AppConfig::default();
    config.last_url = Some("https://kept.example/".to_string());
    let before = config.clone();
    assert_eq!(set_url(&mut config, "ftp://example.com"), Err(InvalidUrl::Scheme));
    assert_eq!(set_url(&mut config, "  "), Err(InvalidUrl::Empty));
    assert_eq!(config, before);
}

#[test]
fn navigate_normalizes_the_target() {
    assert_eq!(
        navigate("example.com/x"),
        Ok(vec![Effect::Navigate("https://example.com/x".to_string())])
    );
    assert_eq!(navigate("javascript:alert(1)"), Err(InvalidUrl::Unparsable));
}

#[test]
fn navigate_home_stops_before_it_navigates() {
    let mut config = AppConfig::default();
    config.last_url = Some("https://left.example/".to_string());
    config.home_url = "home.example".to_string();
    let before = config.clone();
    let steps = navigate_home(&mut config);
    assert_eq!(
        steps,
        vec![
            Effect::Persist,
            Effect::StopLoading,
            Effect::Navigate("https://home.example/".to_string()),
        ]
    );
    assert_eq!(config.last_url, None);
    config.last_url = before.last_url.clone();
    assert_eq!(config, before);
}

#[test]
fn home_address_falls_back_to_the_default_as_written() {
    assert_eq!(home_address("ftp://x"), "https://www.google.com");
    assert_eq!(home_address(""), "https://www.google.com");
    assert_eq!(home_address("https://www.google.com"), "https://www.google.com/");
}

#[test]
fn update_config_sanitizes_what_comes_in() {
    let mut config = AppConfig::default();
    let mut incoming = AppConfig::default();
    incoming.window.width = 1;
    incoming.home_url = "example.org".to_string();
    incoming.hotkeys.toggle_visibility = "   ".to_string();
    let steps = update_config(&mut config, incoming);
    assert_eq!(steps, vec![Effect::Persist, Effect::Emit(Notice::Config)]);
    assert_eq!(config.window.width, 200);
    assert_eq!(config.home_url, "https://example.org/");
    assert_eq!(config.hotkeys.toggle_visibility, "Alt+Shift+H");
}

#[test]
fn open_settings_brings_the_window_up_when_nobody_asked_from_inside() {
    assert_eq!(open_settings(Surface::Command), vec![Effect::Emit(Notice::OpenSettings)]);
    for surface in [Surface::Tray, Surface::Hotkey] {
        assert_eq!(
            open_settings(surface),
            vec![
                Effect::Show,
                Effect::Focus,
                Effect::Emit(Notice::OpenSettings),
                Effect::CallHook(Notice::OpenSettings),
            ]
        );
    }
}

#[test]
fn toggle_visibility_hides_or_shows() {
    assert_eq!(toggle_visibility(true), vec![Effect::Hide]);
    assert_eq!(toggle_visibility(false), vec![Effect::Show, Effect::Focus]);
}

#[test]
fn toggle_maximized_restores_or_maximizes() {
    assert_eq!(toggle_maximized(true), vec![Effect::Unmaximize]);
    assert_eq!(toggle_maximized(false), vec![Effect::Maximize]);
}

#[test]
fn dispatch_does_what_the_single_actions_do() {
    for surface in [Surface::Hotkey, Surface::Tray, Surface::Command] {
        for action in [
            Action::OpenSettings,
            Action::NavigateHome,
            Action::ToggleAlwaysOnTop,
            Action::ToggleLock,
            Action::ExitClickThrough,
            Action::OpacityUp,
            Action::OpacityDown,
            Action::ToggleVisibility,
            Action::Quit,
        ] {
            let mut start = AppConfig::default();
            start.window.locked = true;
            start.window.opacity = 500;
            start.last_url = Some("https://left.example/".to_string());
            let mut by_dispatch = start.clone();
            let mut direct = start.clone();
            let got = dispatch(&mut by_dispatch, action, status(true, false), surface);
            let expected = match action {
                Action::OpenSettings => open_settings(surface),
                Action::NavigateHome => navigate_home(&mut direct),
                Action::ToggleAlwaysOnTop => toggle_always_on_top(&mut direct, true, surface),
                Action::ToggleLock => toggle_locked(&mut direct, surface),
                Action::ExitClickThrough => exit_click_through(&mut direct, surface),
                Action::OpacityUp => change_opacity(&mut direct, 50, surface),
                Action::OpacityDown => change_opacity(&mut direct, -50, surface),
                Action::ToggleVisibility => toggle_visibility(false),
                Action::Quit => vec![Effect::Quit],
            };
            assert_eq!(got, expected);
            assert_eq!(by_dispatch, direct);
            assert_eq!(by_dispatch.window.x, start.window.x);
            assert_eq!(by_dispatch.window.y, start.window.y);
            assert_eq!(by_dispatch.window.width, start.window.width);
            assert_eq!(by_dispatch.window.height, start.window.height);
        }
    }
}

#[test]
fn dispatch_changes_the_opacity_by_one_step() {
    let mut config = AppConfig::default();
    config.window.opacity = 500;
    dispatch(&mut config, Action::OpacityUp, status(false, true), Surface::Hotkey);
    assert_eq!(config.window.opacity, 550);
    dispatch(&mut config, Action::OpacityDown, status(false, true), Surface::Hotkey);
    dispatch(&mut config, Action::OpacityDown, status(false, true), Surface::Hotkey);
    assert_eq!(config.window.opacity, 450);
}
