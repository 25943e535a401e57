//! The named actions. Each one changes the configuration and says which steps
//! the host takes next; a command, a hotkey and a tray item reach the same
//! action and differ only in the surface they name.

use crate::address::{is_web_address, normalize_spec, normalize_url, InvalidUrl};
use crate::config::{
    default_home_text, default_home_url, AppConfig, AppConfigView, WindowConfig, MAX_OPACITY,
    MAX_RECENT_URLS, MAX_WINDOW_SIZE, MIN_OPACITY, MIN_WINDOW_SIZE, OPACITY_STEP,
};
use crate::effect::{announce, change_effects, Attribute, Effect, EffectView, Notice, Surface};
use crate::validator::{clamp, clamped, first_n, sanitize_config, sanitize_spec};
use vstd::prelude::*;

verus! {

/// An action that takes no argument: what a hotkey or a tray item asks for.
#[derive(Clone, Copy, Debug, PartialEq, Eq, Structural)]
pub enum Action {
    OpenSettings,
    NavigateHome,
    ToggleAlwaysOnTop,
    ToggleLock,
    ExitClickThrough,
    OpacityUp,
    OpacityDown,
    ToggleVisibility,
    Quit,
}

/// What the host reads from the live window before an action.
#[derive(Clone, Copy, Debug, PartialEq, Eq, Structural)]
pub struct WindowStatus {
    pub always_on_top: bool,
    pub visible: bool,
}

/// `c` with the lock flag set to `v`.
pub open spec fn with_locked(c: AppConfigView, v: bool) -> AppConfigView {
    AppConfigView { window: WindowConfig { locked: v, ..c.window }, ..c }
}

/// `c` with the always-on-top flag set to `v`.
pub open spec fn with_always_on_top(c: AppConfigView, v: bool) -> AppConfigView {
    AppConfigView { window: WindowConfig { always_on_top: v, ..c.window }, ..c }
}

/// `c` with the opacity set to `v`.
pub open spec fn with_opacity(c: AppConfigView, v: i32) -> AppConfigView {
    AppConfigView { window: WindowConfig { opacity: v, ..c.window }, ..c }
}

/// `c` with the window at `x`, `y` and of the size `width` by `height`, each
/// side brought within its limits.
pub open spec fn with_geometry(c: AppConfigView, x: i32, y: i32, width: i32, height: i32)
    -> AppConfigView {
    AppConfigView {
        window: WindowConfig {
            x,
            y,
            width: clamped(width as int, MIN_WINDOW_SIZE as int, MAX_WINDOW_SIZE as int) as i32,
            height: clamped(height as int, MIN_WINDOW_SIZE as int, MAX_WINDOW_SIZE as int) as i32,
            ..c.window
        },
        ..c
    }
}

/// An opacity brought within its limits.
pub open spec fn bounded_opacity(v: int) -> i32 {
    clamped(v, MIN_OPACITY as int, MAX_OPACITY as int) as i32
}

/// `s` without the entries equal to `x`.
pub open spec fn without<A>(s: Seq<A>, x: A) -> Seq<A>
    decreases s.len(),
{
    if s.len() == 0 {
        Seq::empty()
    } else if s.last() == x {
        without(s.drop_last(), x)
    } else {
        without(s.drop_last(), x).push(s.last())
    }
}

/// The recent pages once `u` was visited: `u` first, then the others in their
/// order, `MAX_RECENT_URLS` in all.
pub open spec fn remembered(recent: Option<Seq<Seq<char>>>, u: Seq<char>) -> Seq<Seq<char>> {
    let before = match recent {
        Some(r) => r,
        None => Seq::empty(),
    };
    first_n(seq![u] + without(before, u), MAX_RECENT_URLS as int)
}

/// `c` once the page `u` is the active one.
pub open spec fn with_active_url(c: AppConfigView, u: Seq<char>) -> AppConfigView {
    AppConfigView { last_url: Some(u), recent_urls: Some(remembered(c.recent_urls, u)), ..c }
}

/// `c` with no page to restore.
pub open spec fn without_last_url(c: AppConfigView) -> AppConfigView {
    AppConfigView { last_url: None, ..c }
}

/// Where "home" leads: the canonical form of the home page, or the fallback
/// as written where it has none.
pub open spec fn home_target(home: Seq<char>) -> Seq<char> {
    match normalize_spec(home) {
        Ok(u) => u,
        Err(_) => default_home_text(),
    }
}

/// `without` drops every `x`, keeps only what `s` holds, and keeps a sequence
/// free of repetitions free of them.
pub proof fn lemma_without<A>(s: Seq<A>, x: A)
    ensures
        !without(s, x).contains(x),
        without(s, x).len() <= s.len(),
        forall|y: A| without(s, x).contains(y) ==> s.contains(y),
        s.no_duplicates() ==> without(s, x).no_duplicates(),
    decreases s.len(),
{
    if s.len() > 0 {
        let init = s.drop_last();
        let w = without(init, x);
        let out = without(s, x);
        lemma_without(init, x);
        assert forall|y: A| out.contains(y) implies s.contains(y) by {
            let j = choose|j: int| 0 <= j < out.len() && out[j] == y;
            if j < w.len() {
                assert(w[j] == y);
                assert(w.contains(y));
                assert(init.contains(y));
                let i = choose|i: int| 0 <= i < init.len() && init[i] == y;
                assert(s[i] == y);
            } else {
                assert(s[s.len() - 1] == y);
            }
        }
        if out.contains(x) {
            let j = choose|j: int| 0 <= j < out.len() && out[j] == x;
            if j < w.len() {
                assert(w[j] == x);
                assert(w.contains(x));
            }
        }
        if s.no_duplicates() {
            assert forall|i: int, j: int|
                0 <= i < init.len() && 0 <= j < init.len() && i != j implies init[i] != init[j] by {
                assert(init[i] == s[i] && init[j] == s[j]);
            }
            if s.last() != x {
                if w.contains(s.last()) {
                    assert(init.contains(s.last()));
                    let i = choose|i: int| 0 <= i < init.len() && init[i] == s.last();
                    assert(s[i] == s[s.len() - 1]);
                }
                assert forall|i: int, j: int|
                    0 <= i < out.len() && 0 <= j < out.len() && i != j implies out[i] != out[j] by {
                    if i < w.len() && j < w.len() {
                        assert(out[i] == w[i] && out[j] == w[j]);
                    } else if i < w.len() {
                        assert(w[i] == out[i]);
                        assert(w.contains(out[i]));
                    } else {
                        assert(w[j] == out[j]);
                        assert(w.contains(out[j]));
                    }
                }
            }
        }
    }
}

/// Leaving `x` out of the entries before `i` gives the beginning of what
/// leaving it out of all of them gives.
pub proof fn lemma_without_prefix<A>(s: Seq<A>, x: A, i: int)
    requires
        0 <= i <= s.len(),
    ensures
        without(s.subrange(0, i), x).is_prefix_of(without(s, x)),
        i < s.len() ==> without(s.subrange(0, i + 1), x) == (if s[i] == x {
            without(s.subrange(0, i), x)
        } else {
            without(s.subrange(0, i), x).push(s[i])
        }),
    decreases s.len() - i,
{
    if i == s.len() {
        assert(s.subrange(0, i) =~= s);
    } else {
        let next = s.subrange(0, i + 1);
        assert(next.drop_last() =~= s.subrange(0, i));
        assert(next.last() == s[i]);
        lemma_without_prefix(s, x, i + 1);
        let here = without(s.subrange(0, i), x);
        let all = without(s, x);
        assert(here.is_prefix_of(without(next, x)));
        assert(here =~= all.subrange(0, here.len() as int));
    }
}

/// The steps of "home": the record is written, the page is asked to stop, and
/// only then sent to `target`.
pub open spec fn home_effects(target: Seq<char>) -> Seq<EffectView> {
    seq![EffectView::Persist, EffectView::StopLoading, EffectView::Navigate(target)]
}

/// Showing the window, or hiding it if it is shown.
pub open spec fn visibility_effects(visible: bool) -> Seq<EffectView> {
    if visible {
        seq![EffectView::Hide]
    } else {
        seq![EffectView::Show, EffectView::Focus]
    }
}

/// Opening the settings: a command only sends the event; without a caller the
/// window is brought up first and the page's hook is called as well.
pub open spec fn settings_effects(surface: Surface) -> Seq<EffectView> {
    if surface == Surface::Command {
        seq![EffectView::Emit(Notice::OpenSettings)]
    } else {
        seq![
            EffectView::Show,
            EffectView::Focus,
            EffectView::Emit(Notice::OpenSettings),
            EffectView::CallHook(Notice::OpenSettings),
        ]
    }
}

/// Flips the lock: the window lets pointer input through exactly when the
/// new flag is set. Position, size and everything else stay as they are.
pub fn toggle_locked(config: &mut AppConfig, surface: Surface) -> (res: Vec<Effect>)
    ensures
        final(config)@ == with_locked(old(config)@, !old(config)@.window.locked),
        res.deep_view() == change_effects(
            Attribute::ClickThrough(!old(config)@.window.locked),
            Notice::Locked(!old(config)@.window.locked),
            surface,
        ),
        old(config)@.is_sanitized() ==> final(config)@.is_sanitized(),
{
    let locked = !config.window.locked;
    config.window.locked = locked;
    announce(Attribute::ClickThrough(locked), Notice::Locked(locked), surface)
}

/// Leaves click-through: unlocks a locked window, and does nothing at all to
/// one that is not locked.
pub fn exit_click_through(config: &mut AppConfig, surface: Surface) -> (res: Vec<Effect>)
    ensures
        final(config)@ == with_locked(old(config)@, false),
        res.deep_view() == (if old(config)@.window.locked {
            change_effects(Attribute::ClickThrough(false), Notice::Locked(false), surface)
        } else {
            Seq::empty()
        }),
        old(config)@.is_sanitized() ==> final(config)@.is_sanitized(),
{
    if config.window.locked {
        config.window.locked = false;
        announce(Attribute::ClickThrough(false), Notice::Locked(false), surface)
    } else {
        let steps: Vec<Effect> = Vec::new();
        assert(steps.deep_view() =~= Seq::<EffectView>::empty());
        steps
    }
}

/// Makes the window always-on-top if `current`, read from the live window,
/// says it is not, and ordinary if it is.
pub fn toggle_always_on_top(config: &mut AppConfig, current: bool, surface: Surface) -> (res:
    Vec<Effect>)
    ensures
        final(config)@ == with_always_on_top(old(config)@, !current),
        res.deep_view() == change_effects(
            Attribute::AlwaysOnTop(!current),
            Notice::AlwaysOnTop(!current),
            surface,
        ),
        old(config)@.is_sanitized() ==> final(config)@.is_sanitized(),
{
    config.window.always_on_top = !current;
    announce(Attribute::AlwaysOnTop(!current), Notice::AlwaysOnTop(!current), surface)
}

/// Sets the opacity to `value`, in thousandths, brought within
/// `MIN_OPACITY..=MAX_OPACITY`.
pub fn set_opacity(config: &mut AppConfig, value: i32, surface: Surface) -> (res: Vec<Effect>)
    ensures
        final(config)@ == with_opacity(old(config)@, bounded_opacity(value as int)),
        res.deep_view() == change_effects(
            Attribute::Opacity(bounded_opacity(value as int)),
            Notice::Opacity(bounded_opacity(value as int)),
            surface,
        ),
        MIN_OPACITY <= final(config)@.window.opacity <= MAX_OPACITY,
        old(config)@.is_sanitized() ==> final(config)@.is_sanitized(),
{
    let opacity = clamp(value, MIN_OPACITY, MAX_OPACITY);
    config.window.opacity = opacity;
    announce(Attribute::Opacity(opacity), Notice::Opacity(opacity), surface)
}

/// Adds `delta`, in thousandths, to the opacity and brings the sum within
/// `MIN_OPACITY..=MAX_OPACITY`.
pub fn change_opacity(config: &mut AppConfig, delta: i32, surface: Surface) -> (res: Vec<Effect>)
    ensures
        final(config)@ == with_opacity(
            old(config)@,
            bounded_opacity(old(config)@.window.opacity + delta),
        ),
        res.deep_view() == change_effects(
            Attribute::Opacity(bounded_opacity(old(config)@.window.opacity + delta)),
            Notice::Opacity(bounded_opacity(old(config)@.window.opacity + delta)),
            surface,
        ),
        MIN_OPACITY <= final(config)@.window.opacity <= MAX_OPACITY,
        old(config)@.is_sanitized() ==> final(config)@.is_sanitized(),
{
    let sum: i64 = config.window.opacity as i64 + delta as i64;
    let opacity: i32 = if sum < MIN_OPACITY as i64 {
        MIN_OPACITY
    } else if sum > MAX_OPACITY as i64 {
        MAX_OPACITY
    } else {
        sum as i32
    };
    config.window.opacity = opacity;
    announce(Attribute::Opacity(opacity), Notice::Opacity(opacity), surface)
}

/// Shows the window at `value`, brought within its limits, without storing
/// it: the configuration is not touched.
pub fn preview_opacity(value: i32) -> (res: Vec<Effect>)
    ensures
        res.deep_view() == seq![
            EffectView::Apply(Attribute::Opacity(bounded_opacity(value as int))),
        ],
{
    let mut steps: Vec<Effect> = Vec::new();
    steps.push(Effect::Apply(Attribute::Opacity(clamp(value, MIN_OPACITY, MAX_OPACITY))));
    assert(steps.deep_view() =~= seq![
        EffectView::Apply(Attribute::Opacity(bounded_opacity(value as int))),
    ]);
    steps
}

/// The opacity after `presses` presses of the opacity-down hotkey.
pub open spec fn pressed_down(opacity: int, presses: nat) -> int
    decreases presses,
{
    if presses == 0 {
        opacity
    } else {
        bounded_opacity(pressed_down(opacity, (presses - 1) as nat) - OPACITY_STEP) as int
    }
}

/// Pressing opacity-down lowers the opacity by a step each time until the
/// floor is reached, and from then on it stays there.
pub proof fn lemma_pressed_down(opacity: int, presses: nat)
    requires
        MIN_OPACITY <= opacity <= MAX_OPACITY,
    ensures
        pressed_down(opacity, presses) == if opacity - presses * OPACITY_STEP < MIN_OPACITY {
            MIN_OPACITY as int
        } else {
            opacity - presses * OPACITY_STEP
        },
    decreases presses,
{
    if presses > 0 {
        lemma_pressed_down(opacity, (presses - 1) as nat);
    }
}

/// Stores the position and size that the window has, the size brought within
/// `MIN_WINDOW_SIZE..=MAX_WINDOW_SIZE`.
pub fn update_window_geometry_config(
    config: &mut AppConfig,
    x: i32,
    y: i32,
    width: i32,
    height: i32,
)
    ensures
        final(config)@ == with_geometry(old(config)@, x, y, width, height),
        old(config)@.is_sanitized() ==> final(config)@.is_sanitized(),
{
    config.window.x = x;
    config.window.y = y;
    config.window.width = clamp(width, MIN_WINDOW_SIZE, MAX_WINDOW_SIZE);
    config.window.height = clamp(height, MIN_WINDOW_SIZE, MAX_WINDOW_SIZE);
}

/// Stores the outer position and size read from the window; the sides are
/// taken as signed 32-bit numbers, as the record holds them.
pub fn persist_window_geometry(
    config: &mut AppConfig,
    x: i32,
    y: i32,
    width: u32,
    height: u32,
) -> (res: Vec<Effect>)
    ensures
        final(config)@ == with_geometry(old(config)@, x, y, width as i32, height as i32),
        res.deep_view() == seq![EffectView::Persist],
        old(config)@.is_sanitized() ==> final(config)@.is_sanitized(),
{
    update_window_geometry_config(
        config,
        x,
        y,
        #[verifier::truncate]
        (width as i32),
        #[verifier::truncate]
        (height as i32),
    );
    let mut steps: Vec<Effect> = Vec::new();
    steps.push(Effect::Persist);
    assert(steps.deep_view() =~= seq![EffectView::Persist]);
    steps
}

/// The recent pages once `u` was visited.
fn remember(recent: Option<Vec<String>>, u: &String) -> (res: Vec<String>)
    ensures
        res.deep_view() == remembered(recent.deep_view(), u@),
{
    let before = match recent {
        Some(v) => v,
        None => Vec::new(),
    };
    let ghost b = before.deep_view();
    let mut out: Vec<String> = Vec::new();
    out.push(u.clone());
    let mut i: usize = 0;
    proof {
        assert(b.subrange(0, 0) =~= Seq::<Seq<char>>::empty());
        assert(out.deep_view() =~= seq![u@] + without(b.subrange(0, 0), u@));
        if recent is None {
            assert(b =~= Seq::<Seq<char>>::empty());
        }
    }
    while i < before.len() && out.len() < MAX_RECENT_URLS
        invariant
            b == before.deep_view(),
            i <= before.len(),
            out.len() <= MAX_RECENT_URLS,
            out.deep_view() == seq![u@] + without(b.subrange(0, i as int), u@),
        decreases before.len() - i,
    {
        proof {
            lemma_without_prefix(b, u@, i as int);
        }
        let ghost so_far = out.deep_view();
        if !(before[i] == *u) {
            out.push(before[i].clone());
            assert(out.deep_view() =~= so_far.push(b[i as int]));
        }
        i = i + 1;
        assert(out.deep_view() =~= seq![u@] + without(b.subrange(0, i as int), u@));
    }
    proof {
        lemma_without_prefix(b, u@, i as int);
        let all = seq![u@] + without(b, u@);
        if i < before.len() {
            assert(out.deep_view() =~= all.subrange(0, MAX_RECENT_URLS as int));
        } else {
            assert(b.subrange(0, i as int) =~= b);
        }
    }
    out
}

/// What `remembered` gives of a list of web addresses without repetitions,
/// and a web address, is again such a list, of at most `MAX_RECENT_URLS`.
pub proof fn lemma_remembered(recent: Option<Seq<Seq<char>>>, u: Seq<char>)
    requires
        is_web_address(u),
        recent matches Some(r) ==> r.no_duplicates() && forall|i: int|
            0 <= i < r.len() ==> is_web_address(#[trigger] r[i]),
    ensures
        remembered(recent, u).len() <= MAX_RECENT_URLS,
        remembered(recent, u).no_duplicates(),
        forall|i: int|
            0 <= i < remembered(recent, u).len() ==> is_web_address(
                #[trigger] remembered(recent, u)[i],
            ),
{
    let before = match recent {
        Some(r) => r,
        None => Seq::empty(),
    };
    let w = without(before, u);
    let all = seq![u] + w;
    lemma_without(before, u);
    assert forall|i: int, j: int| 0 <= i < all.len() && 0 <= j < all.len() && i != j implies all[i]
        != all[j] by {
        if i > 0 && j > 0 {
            assert(all[i] == w[i - 1] && all[j] == w[j - 1]);
        } else if i > 0 {
            assert(all[i] == w[i - 1]);
            assert(w.contains(all[i]));
        } else {
            assert(all[j] == w[j - 1]);
            assert(w.contains(all[j]));
        }
    }
    assert forall|i: int| 0 <= i < all.len() implies is_web_address(#[trigger] all[i]) by {
        if i > 0 {
            assert(all[i] == w[i - 1]);
            assert(w.contains(all[i]));
            assert(before.contains(all[i]));
            let k = choose|k: int| 0 <= k < before.len() && before[k] == all[i];
            assert(is_web_address(before[k]));
        }
    }
    let out = remembered(recent, u);
    assert forall|i: int| 0 <= i < out.len() implies out[i] == all[i] by {}
}

/// Makes `url` the active page: its canonical form becomes the page to
/// restore and moves to the front of the recent pages, of which the first
/// `MAX_RECENT_URLS` stay. A text that is no address changes nothing.
pub fn set_url(config: &mut AppConfig, url: &str) -> (res: Result<Vec<Effect>, InvalidUrl>)
    ensures
        match normalize_spec(url@) {
            Ok(u) => final(config)@ == with_active_url(old(config)@, u) && (res matches Ok(steps)
                && steps.deep_view() == seq![EffectView::Persist]),
            Err(e) => final(config)@ == old(config)@ && (res matches Err(why) && why == e),
        },
        old(config)@.is_sanitized() ==> final(config)@.is_sanitized(),
{
    match normalize_url(url) {
        Err(e) => Err(e),
        Ok(u) => {
            proof {
                if old(config)@.is_sanitized() {
                    lemma_remembered(old(config)@.recent_urls, u@);
                }
            }
            let recent = remember(config.recent_urls.take(), &u);
            config.recent_urls = Some(recent);
            config.last_url = Some(u);
            let mut steps: Vec<Effect> = Vec::new();
            steps.push(Effect::Persist);
            assert(steps.deep_view() =~= seq![EffectView::Persist]);
            Ok(steps)
        },
    }
}

/// Sends the page to `url` without touching the configuration.
pub fn navigate(url: &str) -> (res: Result<Vec<Effect>, InvalidUrl>)
    ensures
        match normalize_spec(url@) {
            Ok(u) => res matches Ok(steps) && steps.deep_view() == seq![EffectView::Navigate(u)],
            Err(e) => res matches Err(why) && why == e,
        },
{
    match normalize_url(url) {
        Err(e) => Err(e),
        Ok(u) => {
            let ghost target = u@;
            let mut steps: Vec<Effect> = Vec::new();
            steps.push(Effect::Navigate(u));
            assert(steps.deep_view() =~= seq![EffectView::Navigate(target)]);
            Ok(steps)
        },
    }
}

/// Where "home" leads for `home`: its canonical form, or the fallback as
/// written.
pub fn home_address(home: &str) -> (res: String)
    ensures
        res@ == home_target(home@),
{
    match normalize_url(home) {
        Ok(u) => u,
        Err(_) => default_home_url(),
    }
}

/// Goes home: forgets the page to restore, so that the next launch starts at
/// home, and has the page stop loading before it is sent there.
pub fn navigate_home(config: &mut AppConfig) -> (res: Vec<Effect>)
    ensures
        final(config)@ == without_last_url(old(config)@),
        res.deep_view() == home_effects(home_target(old(config)@.home_url)),
        old(config)@.is_sanitized() ==> final(config)@.is_sanitized(),
{
    config.last_url = None;
    let target = home_address(config.home_url.as_str());
    let ghost text = target@;
    let mut steps: Vec<Effect> = Vec::new();
    steps.push(Effect::Persist);
    steps.push(Effect::StopLoading);
    steps.push(Effect::Navigate(target));
    assert(steps.deep_view() =~= home_effects(text));
    steps
}

/// Replaces the record by `incoming`, sanitized.
pub fn update_config(config: &mut AppConfig, incoming: AppConfig) -> (res: Vec<Effect>)
    ensures
        final(config)@ == sanitize_spec(incoming@),
        final(config)@.is_sanitized(),
        res.deep_view() == seq![EffectView::Persist, EffectView::Emit(Notice::Config)],
{
    *config = sanitize_config(incoming);
    let mut steps: Vec<Effect> = Vec::new();
    steps.push(Effect::Persist);
    steps.push(Effect::Emit(Notice::Config));
    assert(steps.deep_view() =~= seq![EffectView::Persist, EffectView::Emit(Notice::Config)]);
    steps
}

/// Opens the settings.
pub fn open_settings(surface: Surface) -> (res: Vec<Effect>)
    ensures
        res.deep_view() == settings_effects(surface),
{
    let mut steps: Vec<Effect> = Vec::new();
    match surface {
        Surface::Command => {},
        _ => {
            steps.push(Effect::Show);
            steps.push(Effect::Focus);
        },
    }
    steps.push(Effect::Emit(Notice::OpenSettings));
    match surface {
        Surface::Command => {},
        _ => {
            steps.push(Effect::CallHook(Notice::OpenSettings));
        },
    }
    assert(steps.deep_view() =~= settings_effects(surface));
    steps
}

/// Hides the window if it is visible, else shows it and gives it the focus.
pub fn toggle_visibility(visible: bool) -> (res: Vec<Effect>)
    ensures
        res.deep_view() == visibility_effects(visible),
{
    let mut steps: Vec<Effect> = Vec::new();
    if visible {
        steps.push(Effect::Hide);
    } else {
        steps.push(Effect::Show);
        steps.push(Effect::Focus);
    }
    assert(steps.deep_view() =~= visibility_effects(visible));
    steps
}

/// Restores a maximized window, and maximizes any other.
pub fn toggle_maximized(maximized: bool) -> (res: Vec<Effect>)
    ensures
        res.deep_view() == (if maximized {
            seq![EffectView::Unmaximize]
        } else {
            seq![EffectView::Maximize]
        }),
{
    let mut steps: Vec<Effect> = Vec::new();
    if maximized {
        steps.push(Effect::Unmaximize);
        assert(steps.deep_view() =~= seq![EffectView::Unmaximize]);
    } else {
        steps.push(Effect::Maximize);
        assert(steps.deep_view() =~= seq![EffectView::Maximize]);
    }
    steps
}

/// The record after `action`.
pub open spec fn dispatch_config(c: AppConfigView, action: Action, window: WindowStatus)
    -> AppConfigView {
    match action {
        Action::NavigateHome => without_last_url(c),
        Action::ToggleAlwaysOnTop => with_always_on_top(c, !window.always_on_top),
        Action::ToggleLock => with_locked(c, !c.window.locked),
        Action::ExitClickThrough => with_locked(c, false),
        Action::OpacityUp => with_opacity(c, bounded_opacity(c.window.opacity + OPACITY_STEP)),
        Action::OpacityDown => with_opacity(c, bounded_opacity(c.window.opacity - OPACITY_STEP)),
        Action::OpenSettings | Action::ToggleVisibility | Action::Quit => c,
    }
}

/// The steps that `action` asks for.
pub open spec fn dispatch_effects(
    c: AppConfigView,
    action: Action,
    window: WindowStatus,
    surface: Surface,
) -> Seq<EffectView> {
    match action {
        Action::OpenSettings => settings_effects(surface),
        Action::NavigateHome => home_effects(home_target(c.home_url)),
        Action::ToggleAlwaysOnTop => change_effects(
            Attribute::AlwaysOnTop(!window.always_on_top),
            Notice::AlwaysOnTop(!window.always_on_top),
            surface,
        ),
        Action::ToggleLock => change_effects(
            Attribute::ClickThrough(!c.window.locked),
            Notice::Locked(!c.window.locked),
            surface,
        ),
        Action::ExitClickThrough => if c.window.locked {
            change_effects(Attribute::ClickThrough(false), Notice::Locked(false), surface)
        } else {
            Seq::empty()
        },
        Action::OpacityUp => change_effects(
            Attribute::Opacity(bounded_opacity(c.window.opacity + OPACITY_STEP)),
            Notice::Opacity(bounded_opacity(c.window.opacity + OPACITY_STEP)),
            surface,
        ),
        Action::OpacityDown => change_effects(
            Attribute::Opacity(bounded_opacity(c.window.opacity - OPACITY_STEP)),
            Notice::Opacity(bounded_opacity(c.window.opacity - OPACITY_STEP)),
            surface,
        ),
        Action::ToggleVisibility => visibility_effects(window.visible),
        Action::Quit => seq![EffectView::Quit],
    }
}

/// Carries out `action` on the record and gives the steps for the host.
/// `window` is what the host read from the live window just before.
pub fn dispatch(
    config: &mut AppConfig,
    action: Action,
    window: WindowStatus,
    surface: Surface,
) -> (res: Vec<Effect>)
    ensures
        final(config)@ == dispatch_config(old(config)@, action, window),
        res.deep_view() == dispatch_effects(old(config)@, action, window, surface),
        old(config)@.is_sanitized() ==> final(config)@.is_sanitized(),
{
    match action {
        Action::OpenSettings => open_settings(surface),
        Action::NavigateHome => navigate_home(config),
        Action::ToggleAlwaysOnTop => toggle_always_on_top(config, window.always_on_top, surface),
        Action::ToggleLock => toggle_locked(config, surface),
        Action::ExitClickThrough => exit_click_through(config, surface),
        Action::OpacityUp => change_opacity(config, OPACITY_STEP, surface),
        Action::OpacityDown => change_opacity(config, -OPACITY_STEP, surface),
        Action::ToggleVisibility => toggle_visibility(window.visible),
        Action::Quit => {
            let mut steps: Vec<Effect> = Vec::new();
            steps.push(Effect::Quit);
            assert(steps.deep_view() =~= seq![EffectView::Quit]);
            steps
        },
    }
}

/// Whether the record holds the value that `step` gives the window or tells
/// the page. A step that carries no value of the record agrees with any.
pub open spec fn agrees(c: AppConfigView, step: EffectView) -> bool {
    match step {
        EffectView::Apply(Attribute::AlwaysOnTop(v)) => c.window.always_on_top == v,
        EffectView::Apply(Attribute::Opacity(v)) => c.window.opacity == v,
        EffectView::Apply(Attribute::ClickThrough(v)) => c.window.locked == v,
        EffectView::Emit(Notice::AlwaysOnTop(v)) | EffectView::CallHook(Notice::AlwaysOnTop(v)) => {
            c.window.always_on_top == v
        },
        EffectView::Emit(Notice::Opacity(v)) | EffectView::CallHook(Notice::Opacity(v)) => {
            c.window.opacity == v
        },
        EffectView::Emit(Notice::Locked(v)) | EffectView::CallHook(Notice::Locked(v)) => {
            c.window.locked == v
        },
        _ => true,
    }
}

/// After any action the steps agree with the record: what the window is
/// given and what the page is told is what the record now holds. And a
/// record that changed is written to disk before anything else is done.
pub proof fn lemma_steps_agree_with_record(
    c: AppConfigView,
    action: Action,
    window: WindowStatus,
    surface: Surface,
)
    ensures
        forall|i: int|
            0 <= i < dispatch_effects(c, action, window, surface).len() ==> agrees(
                dispatch_config(c, action, window),
                #[trigger] dispatch_effects(c, action, window, surface)[i],
            ),
        dispatch_config(c, action, window) != c ==> dispatch_effects(
            c,
            action,
            window,
            surface,
        ).len() > 0 && dispatch_effects(c, action, window, surface)[0] == EffectView::Persist,
{
    if action == Action::ExitClickThrough && !c.window.locked {
        assert(c.window == WindowConfig { locked: false, ..c.window });
    }
}

/// Toggling the lock twice gives back the record as it was: the lock flag has
/// its first value again, and position, size and all else never changed.
pub proof fn lemma_toggle_lock_twice(c: AppConfigView)
    ensures
        with_locked(with_locked(c, !c.window.locked), c.window.locked) == c,
        with_locked(c, !c.window.locked).window.x == c.window.x,
        with_locked(c, !c.window.locked).window.y == c.window.y,
        with_locked(c, !c.window.locked).window.width == c.window.width,
        with_locked(c, !c.window.locked).window.height == c.window.height,
{
}

/// An action touches only the field it is about: none but `NavigateHome`
/// changes an address, and none changes where the window stands or how
/// large it is.
pub proof fn lemma_dispatch_leaves_the_rest(c: AppConfigView, action: Action, window: WindowStatus)
    ensures
        dispatch_config(c, action, window).window.x == c.window.x,
        dispatch_config(c, action, window).window.y == c.window.y,
        dispatch_config(c, action, window).window.width == c.window.width,
        dispatch_config(c, action, window).window.height == c.window.height,
        dispatch_config(c, action, window).window.monitor == c.window.monitor,
        dispatch_config(c, action, window).home_url == c.home_url,
        dispatch_config(c, action, window).recent_urls == c.recent_urls,
        dispatch_config(c, action, window).hotkeys == c.hotkeys,
        action != Action::NavigateHome ==> dispatch_config(c, action, window).last_url
            == c.last_url,
{
}

} // verus!
