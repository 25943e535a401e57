//! What an action asks of the outside world: the steps that the host carries
//! out, in order, once the configuration has been changed.

use vstd::prelude::*;

verus! {

/// Where a request came from. A command has a caller that is answered; a
/// hotkey and a tray item have none.
#[derive(Clone, Copy, Debug, PartialEq, Eq, Structural)]
pub enum Surface {
    Command,
    Hotkey,
    Tray,
}

/// A native attribute of the window and the value it is given.
#[derive(Clone, Copy, Debug, PartialEq, Eq, Structural)]
pub enum Attribute {
    AlwaysOnTop(bool),
    /// In thousandths.
    Opacity(i32),
    ClickThrough(bool),
    Size { width: u32, height: u32 },
    Position { x: i32, y: i32 },
}

/// What the hosted page is told.
#[derive(Clone, Copy, Debug, PartialEq, Eq, Structural)]
pub enum Notice {
    AlwaysOnTop(bool),
    /// In thousandths.
    Opacity(i32),
    Locked(bool),
    /// The whole record was replaced.
    Config,
    OpenSettings,
}

/// One step for the host.
#[derive(Clone, Debug, PartialEq, Eq)]
pub enum Effect {
    /// Write the record to disk.
    Persist,
    /// Give the window this attribute.
    Apply(Attribute),
    /// Send the page the event named by the notice.
    Emit(Notice),
    /// Call the page's update hook with the notice.
    CallHook(Notice),
    /// Ask the page to stop what it is loading.
    StopLoading,
    /// Send the page to this address.
    Navigate(String),
    Show,
    Focus,
    Hide,
    Maximize,
    Unmaximize,
    Quit,
}

/// `Effect` as a mathematical value.
pub enum EffectView {
    Persist,
    Apply(Attribute),
    Emit(Notice),
    CallHook(Notice),
    StopLoading,
    Navigate(Seq<char>),
    Show,
    Focus,
    Hide,
    Maximize,
    Unmaximize,
    Quit,
}

impl DeepView for Effect {
    type V = EffectView;

    open spec fn deep_view(&self) -> EffectView {
        match self {
            Effect::Persist => EffectView::Persist,
            Effect::Apply(a) => EffectView::Apply(*a),
            Effect::Emit(n) => EffectView::Emit(*n),
            Effect::CallHook(n) => EffectView::CallHook(*n),
            Effect::StopLoading => EffectView::StopLoading,
            Effect::Navigate(u) => EffectView::Navigate(u@),
            Effect::Show => EffectView::Show,
            Effect::Focus => EffectView::Focus,
            Effect::Hide => EffectView::Hide,
            Effect::Maximize => EffectView::Maximize,
            Effect::Unmaximize => EffectView::Unmaximize,
            Effect::Quit => EffectView::Quit,
        }
    }
}

impl Notice {
    /// The name of the event that carries this notice.
    pub open spec fn event_name_spec(self) -> Seq<char> {
        match self {
            Notice::AlwaysOnTop(_) => "always-on-top-changed"@,
            Notice::Opacity(_) => "opacity-changed"@,
            Notice::Locked(_) => "locked-changed"@,
            Notice::Config => "config-changed"@,
            Notice::OpenSettings => "open-settings"@,
        }
    }

    /// The field that the page's update hook is called with, if this notice
    /// has one.
    pub open spec fn hook_field_spec(self) -> Option<Seq<char>> {
        match self {
            Notice::AlwaysOnTop(_) => Some("always_on_top"@),
            Notice::Opacity(_) => Some("opacity"@),
            Notice::Locked(_) => Some("locked"@),
            Notice::Config => None,
            Notice::OpenSettings => Some("open_settings"@),
        }
    }

    /// The name of the event that carries this notice.
    pub fn event_name(&self) -> (res: String)
        ensures
            res@ == self.event_name_spec(),
    {
        match self {
            Notice::AlwaysOnTop(_) => "always-on-top-changed".to_owned(),
            Notice::Opacity(_) => "opacity-changed".to_owned(),
            Notice::Locked(_) => "locked-changed".to_owned(),
            Notice::Config => "config-changed".to_owned(),
            Notice::OpenSettings => "open-settings".to_owned(),
        }
    }

    /// The field that the page's update hook is called with, if this notice
    /// has one.
    pub fn hook_field(&self) -> (res: Option<String>)
        ensures
            res.deep_view() == self.hook_field_spec(),
    {
        match self {
            Notice::AlwaysOnTop(_) => Some("always_on_top".to_owned()),
            Notice::Opacity(_) => Some("opacity".to_owned()),
            Notice::Locked(_) => Some("locked".to_owned()),
            Notice::Config => None,
            Notice::OpenSettings => Some("open_settings".to_owned()),
        }
    }
}

/// The steps after one attribute changed: the record is written, the window
/// is given the value, the page gets the event, and, where no caller is there
/// to answer, the page's hook is called too.
pub open spec fn change_effects(attribute: Attribute, notice: Notice, surface: Surface) -> Seq<
    EffectView,
> {
    let steps = seq![
        EffectView::Persist,
        EffectView::Apply(attribute),
        EffectView::Emit(notice),
    ];
    if surface == Surface::Command {
        steps
    } else {
        steps.push(EffectView::CallHook(notice))
    }
}

/// The steps after one attribute changed.
pub fn announce(attribute: Attribute, notice: Notice, surface: Surface) -> (res: Vec<Effect>)
    ensures
        res.deep_view() == change_effects(attribute, notice, surface),
{
    let mut steps: Vec<Effect> = Vec::new();
    steps.push(Effect::Persist);
    steps.push(Effect::Apply(attribute));
    steps.push(Effect::Emit(notice));
    match surface {
        Surface::Command => {},
        _ => {
            steps.push(Effect::CallHook(notice));
        },
    }
    assert(steps.deep_view() =~= change_effects(attribute, notice, surface));
    steps
}

} // verus!
