//! What a launch does with the record it loaded.

use crate::address::{normalize_spec, normalize_url};
use crate::config::{default_home_text, default_home_url, AppConfig, AppConfigView};
use crate::effect::{Attribute, Effect, EffectView};
use vstd::prelude::*;

verus! {

/// The page that a launch opens: the page to restore if it is an address,
/// else the home page if it is one, else the fallback as written.
pub open spec fn startup_target(c: AppConfigView) -> Seq<char> {
    match c.last_url {
        Some(u) if normalize_spec(u) is Ok => normalize_spec(u)->Ok_0,
        _ => match normalize_spec(c.home_url) {
            Ok(home) => home,
            Err(_) => default_home_text(),
        },
    }
}

/// The page that a launch opens.
pub fn startup_url(config: &AppConfig) -> (res: String)
    ensures
        res@ == startup_target(config@),
{
    match &config.last_url {
        Some(last) => match normalize_url(last.as_str()) {
            Ok(u) => {
                return u;
            },
            Err(_) => {},
        },
        None => {},
    }
    match normalize_url(config.home_url.as_str()) {
        Ok(home) => home,
        Err(_) => default_home_url(),
    }
}

/// The attributes that the window is given at launch: always-on-top,
/// opacity, the size where both sides are positive, and the position, in
/// this order.
pub open spec fn startup_effects(c: AppConfigView) -> Seq<EffectView> {
    let first = seq![
        EffectView::Apply(Attribute::AlwaysOnTop(c.window.always_on_top)),
        EffectView::Apply(Attribute::Opacity(c.window.opacity)),
    ];
    let sized = if c.window.width > 0 && c.window.height > 0 {
        first.push(
            EffectView::Apply(
                Attribute::Size { width: c.window.width as u32, height: c.window.height as u32 },
            ),
        )
    } else {
        first
    };
    sized.push(EffectView::Apply(Attribute::Position { x: c.window.x, y: c.window.y }))
}

/// The attributes that the window is given at launch.
pub fn apply_window_state(config: &AppConfig) -> (res: Vec<Effect>)
    ensures
        res.deep_view() == startup_effects(config@),
{
    let mut steps: Vec<Effect> = Vec::new();
    steps.push(Effect::Apply(Attribute::AlwaysOnTop(config.window.always_on_top)));
    steps.push(Effect::Apply(Attribute::Opacity(config.window.opacity)));
    if config.window.width > 0 && config.window.height > 0 {
        steps.push(
            Effect::Apply(
                Attribute::Size {
                    width: config.window.width as u32,
                    height: config.window.height as u32,
                },
            ),
        );
    }
    steps.push(Effect::Apply(Attribute::Position { x: config.window.x, y: config.window.y }));
    assert(steps.deep_view() =~= startup_effects(config@));
    steps
}

} // verus!
