//! The configuration record, its limits, its defaults, and its mathematical view.

use vstd::prelude::*;

verus! {

/// The smallest width and height of the window, in pixels.
pub const MIN_WINDOW_SIZE: i32 = 200;

/// The largest width and height of the window, in pixels.
pub const MAX_WINDOW_SIZE: i32 = 10_000;

/// The lowest opacity, in thousandths: a tenth.
pub const MIN_OPACITY: i32 = 100;

/// Full opacity, in thousandths.
pub const MAX_OPACITY: i32 = 1000;

/// What one press of an opacity hotkey adds or takes away, in thousandths.
pub const OPACITY_STEP: i32 = 50;

/// How many recent addresses are kept.
pub const MAX_RECENT_URLS: usize = 10;

/// The longest hotkey descriptor, in characters.
pub const MAX_HOTKEY_LEN: usize = 64;

/// Where the window stands and how it is shown.
#[derive(Clone, Copy, Debug, PartialEq, Eq, Structural)]
pub struct WindowConfig {
    pub x: i32,
    pub y: i32,
    pub width: i32,
    pub height: i32,
    pub monitor: i32,
    pub always_on_top: bool,
    /// In thousandths: 1000 is opaque.
    pub opacity: i32,
    /// Whether pointer input falls through the window.
    pub locked: bool,
}

impl WindowConfig {
    /// The window of a fresh configuration.
    pub open spec fn initial() -> WindowConfig {
        WindowConfig {
            x: 100,
            y: 100,
            width: 800,
            height: 450,
            monitor: 0,
            always_on_top: true,
            opacity: 1000,
            locked: false,
        }
    }

    /// Size, opacity and monitor are within their limits.
    pub open spec fn in_bounds(self) -> bool {
        &&& MIN_WINDOW_SIZE <= self.width <= MAX_WINDOW_SIZE
        &&& MIN_WINDOW_SIZE <= self.height <= MAX_WINDOW_SIZE
        &&& MIN_OPACITY <= self.opacity <= MAX_OPACITY
        &&& self.monitor >= 0
    }
}

impl Default for WindowConfig {
    fn default() -> (res: Self)
        ensures
            res == WindowConfig::initial(),
    {
        WindowConfig {
            x: 100,
            y: 100,
            width: 800,
            height: 450,
            monitor: 0,
            always_on_top: true,
            opacity: 1000,
            locked: false,
        }
    }
}

/// The five global key combinations, each as a descriptor such as `Alt+Shift+T`.
#[derive(Clone, Debug, PartialEq, Eq)]
pub struct HotkeyConfig {
    pub toggle_on_top: String,
    pub toggle_locked: String,
    pub opacity_up: String,
    pub opacity_down: String,
    pub toggle_visibility: String,
}

/// `HotkeyConfig` as a mathematical value.
pub struct HotkeyConfigView {
    pub toggle_on_top: Seq<char>,
    pub toggle_locked: Seq<char>,
    pub opacity_up: Seq<char>,
    pub opacity_down: Seq<char>,
    pub toggle_visibility: Seq<char>,
}

impl View for HotkeyConfig {
    type V = HotkeyConfigView;

    open spec fn view(&self) -> HotkeyConfigView {
        HotkeyConfigView {
            toggle_on_top: self.toggle_on_top@,
            toggle_locked: self.toggle_locked@,
            opacity_up: self.opacity_up@,
            opacity_down: self.opacity_down@,
            toggle_visibility: self.toggle_visibility@,
        }
    }
}

impl HotkeyConfigView {
    /// The documented default bindings.
    pub open spec fn initial() -> HotkeyConfigView {
        HotkeyConfigView {
            toggle_on_top: "Alt+Shift+T"@,
            toggle_locked: "Alt+Shift+D"@,
            opacity_up: "Alt+Shift+Up"@,
            opacity_down: "Alt+Shift+Down"@,
            toggle_visibility: "Alt+Shift+H"@,
        }
    }
}

impl Default for HotkeyConfig {
    fn default() -> (res: Self)
        ensures
            res@ == HotkeyConfigView::initial(),
    {
        HotkeyConfig {
            toggle_on_top: "Alt+Shift+T".to_owned(),
            toggle_locked: "Alt+Shift+D".to_owned(),
            opacity_up: "Alt+Shift+Up".to_owned(),
            opacity_down: "Alt+Shift+Down".to_owned(),
            toggle_visibility: "Alt+Shift+H".to_owned(),
        }
    }
}

/// The whole configuration.
#[derive(Clone, Debug, PartialEq, Eq)]
pub struct AppConfig {
    pub window: WindowConfig,
    /// The page to restore on the next launch.
    pub last_url: Option<String>,
    /// The pages visited, most recent first.
    pub recent_urls: Option<Vec<String>>,
    pub audio_device_id: Option<String>,
    pub launch_at_startup: bool,
    pub hotkeys: HotkeyConfig,
    pub home_url: String,
    pub first_run: bool,
}

/// `AppConfig` as a mathematical value.
pub struct AppConfigView {
    pub window: WindowConfig,
    pub last_url: Option<Seq<char>>,
    pub recent_urls: Option<Seq<Seq<char>>>,
    pub audio_device_id: Option<Seq<char>>,
    pub launch_at_startup: bool,
    pub hotkeys: HotkeyConfigView,
    pub home_url: Seq<char>,
    pub first_run: bool,
}

impl View for AppConfig {
    type V = AppConfigView;

    open spec fn view(&self) -> AppConfigView {
        AppConfigView {
            window: self.window,
            last_url: self.last_url.deep_view(),
            recent_urls: self.recent_urls.deep_view(),
            audio_device_id: self.audio_device_id.deep_view(),
            launch_at_startup: self.launch_at_startup,
            hotkeys: self.hotkeys@,
            home_url: self.home_url@,
            first_run: self.first_run,
        }
    }
}

impl AppConfigView {
    /// The configuration of a first launch, before it is sanitized.
    pub open spec fn initial() -> AppConfigView {
        AppConfigView {
            window: WindowConfig::initial(),
            last_url: None,
            recent_urls: Some(Seq::empty()),
            audio_device_id: None,
            launch_at_startup: false,
            hotkeys: HotkeyConfigView::initial(),
            home_url: default_home_text(),
            first_run: true,
        }
    }
}

/// The fallback home page.
pub open spec fn default_home_text() -> Seq<char> {
    "https://www.google.com"@
}

/// The fallback home page.
pub fn default_home_url() -> (res: String)
    ensures
        res@ == default_home_text(),
{
    "https://www.google.com".to_owned()
}

/// Whether a record that does not say so belongs to a first run: it does.
pub fn default_true() -> (res: bool)
    ensures
        res,
{
    true
}

impl Default for AppConfig {
    fn default() -> (res: Self)
        ensures
            res@ == AppConfigView::initial(),
    {
        let res = AppConfig {
            window: WindowConfig::default(),
            last_url: None,
            recent_urls: Some(Vec::new()),
            audio_device_id: None,
            launch_at_startup: false,
            hotkeys: HotkeyConfig::default(),
            home_url: default_home_url(),
            first_run: true,
        };
        assert(res.recent_urls.deep_view() == Some(Seq::<Seq<char>>::empty()));
        res
    }
}

} // verus!
