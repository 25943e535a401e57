//! The tray menu: its items, and what a click on an item or on the icon
//! asks for.

use crate::actions::Action;
use crate::text::same_text;
use vstd::prelude::*;

verus! {

/// An item of the tray menu.
#[derive(Clone, Copy, Debug, PartialEq, Eq, Structural)]
pub enum TrayItem {
    Settings,
    GoHome,
    ToggleTop,
    ToggleLock,
    ExitLock,
    Show,
    Quit,
}

/// A button of the pointer.
#[derive(Clone, Copy, Debug, PartialEq, Eq, Structural)]
pub enum MouseButton {
    Left,
    Right,
    Middle,
}

/// Whether a button went down or came up.
#[derive(Clone, Copy, Debug, PartialEq, Eq, Structural)]
pub enum ButtonState {
    Up,
    Down,
}

impl TrayItem {
    /// The identifier under which the item is registered.
    pub open spec fn id_spec(self) -> Seq<char> {
        match self {
            TrayItem::Settings => "settings"@,
            TrayItem::GoHome => "go_home"@,
            TrayItem::ToggleTop => "toggle_top"@,
            TrayItem::ToggleLock => "toggle_lock"@,
            TrayItem::ExitLock => "exit_lock"@,
            TrayItem::Show => "show"@,
            TrayItem::Quit => "quit"@,
        }
    }

    /// The text shown in the menu.
    pub open spec fn label_spec(self) -> Seq<char> {
        match self {
            TrayItem::Settings => "Settings"@,
            TrayItem::GoHome => "Go Home"@,
            TrayItem::ToggleTop => "Toggle Always on Top"@,
            TrayItem::ToggleLock => "Toggle Click-Through"@,
            TrayItem::ExitLock => "Exit Click-Through Mode"@,
            TrayItem::Show => "Show/Hide Window"@,
            TrayItem::Quit => "Quit"@,
        }
    }

    /// The action that the item invokes.
    pub open spec fn action_spec(self) -> Action {
        match self {
            TrayItem::Settings => Action::OpenSettings,
            TrayItem::GoHome => Action::NavigateHome,
            TrayItem::ToggleTop => Action::ToggleAlwaysOnTop,
            TrayItem::ToggleLock => Action::ToggleLock,
            TrayItem::ExitLock => Action::ExitClickThrough,
            TrayItem::Show => Action::ToggleVisibility,
            TrayItem::Quit => Action::Quit,
        }
    }

    /// The identifier under which the item is registered.
    pub fn id(&self) -> (res: String)
        ensures
            res@ == self.id_spec(),
    {
        match self {
            TrayItem::Settings => "settings".to_owned(),
            TrayItem::GoHome => "go_home".to_owned(),
            TrayItem::ToggleTop => "toggle_top".to_owned(),
            TrayItem::ToggleLock => "toggle_lock".to_owned(),
            TrayItem::ExitLock => "exit_lock".to_owned(),
            TrayItem::Show => "show".to_owned(),
            TrayItem::Quit => "quit".to_owned(),
        }
    }

    /// The text shown in the menu.
    pub fn label(&self) -> (res: String)
        ensures
            res@ == self.label_spec(),
    {
        match self {
            TrayItem::Settings => "Settings".to_owned(),
            TrayItem::GoHome => "Go Home".to_owned(),
            TrayItem::ToggleTop => "Toggle Always on Top".to_owned(),
            TrayItem::ToggleLock => "Toggle Click-Through".to_owned(),
            TrayItem::ExitLock => "Exit Click-Through Mode".to_owned(),
            TrayItem::Show => "Show/Hide Window".to_owned(),
            TrayItem::Quit => "Quit".to_owned(),
        }
    }

    /// The action that the item invokes.
    pub fn action(&self) -> (res: Action)
        ensures
            res == self.action_spec(),
    {
        match self {
            TrayItem::Settings => Action::OpenSettings,
            TrayItem::GoHome => Action::NavigateHome,
            TrayItem::ToggleTop => Action::ToggleAlwaysOnTop,
            TrayItem::ToggleLock => Action::ToggleLock,
            TrayItem::ExitLock => Action::ExitClickThrough,
            TrayItem::Show => Action::ToggleVisibility,
            TrayItem::Quit => Action::Quit,
        }
    }
}

/// The items of the menu, from top to bottom.
pub open spec fn menu_spec() -> Seq<TrayItem> {
    seq![
        TrayItem::Settings,
        TrayItem::GoHome,
        TrayItem::ToggleTop,
        TrayItem::ToggleLock,
        TrayItem::ExitLock,
        TrayItem::Show,
        TrayItem::Quit,
    ]
}

/// The items of the menu, from top to bottom.
pub fn tray_menu() -> (res: Vec<TrayItem>)
    ensures
        res@ == menu_spec(),
{
    let mut items: Vec<TrayItem> = Vec::new();
    items.push(TrayItem::Settings);
    items.push(TrayItem::GoHome);
    items.push(TrayItem::ToggleTop);
    items.push(TrayItem::ToggleLock);
    items.push(TrayItem::ExitLock);
    items.push(TrayItem::Show);
    items.push(TrayItem::Quit);
    assert(items@ =~= menu_spec());
    items
}

/// The item registered under `id`, if any.
pub open spec fn item_with_id(id: Seq<char>) -> Option<TrayItem> {
    if id == "settings"@ {
        Some(TrayItem::Settings)
    } else if id == "go_home"@ {
        Some(TrayItem::GoHome)
    } else if id == "toggle_top"@ {
        Some(TrayItem::ToggleTop)
    } else if id == "toggle_lock"@ {
        Some(TrayItem::ToggleLock)
    } else if id == "exit_lock"@ {
        Some(TrayItem::ExitLock)
    } else if id == "show"@ {
        Some(TrayItem::Show)
    } else if id == "quit"@ {
        Some(TrayItem::Quit)
    } else {
        None
    }
}

/// The item that a menu event with the identifier `id` is about. An unknown
/// identifier is about none.
pub fn tray_item(id: &str) -> (res: Option<TrayItem>)
    ensures
        res == item_with_id(id@),
{
    if same_text(id, "settings") {
        Some(TrayItem::Settings)
    } else if same_text(id, "go_home") {
        Some(TrayItem::GoHome)
    } else if same_text(id, "toggle_top") {
        Some(TrayItem::ToggleTop)
    } else if same_text(id, "toggle_lock") {
        Some(TrayItem::ToggleLock)
    } else if same_text(id, "exit_lock") {
        Some(TrayItem::ExitLock)
    } else if same_text(id, "show") {
        Some(TrayItem::Show)
    } else if same_text(id, "quit") {
        Some(TrayItem::Quit)
    } else {
        None
    }
}

/// Every item is found again by its own identifier.
pub proof fn lemma_item_found_by_id(item: TrayItem)
    ensures
        item_with_id(item.id_spec()) == Some(item),
{
    reveal_strlit("settings");
    reveal_strlit("go_home");
    reveal_strlit("toggle_top");
    reveal_strlit("toggle_lock");
    reveal_strlit("exit_lock");
    reveal_strlit("show");
    reveal_strlit("quit");
    let id = item.id_spec();
    if item != TrayItem::Settings {
        assert(id.len() != 8 || id[0] != 's' || id[1] != 'e');
    }
    if item != TrayItem::GoHome {
        assert(id.len() != 7 || id[0] != 'g');
    }
    if item != TrayItem::ToggleTop {
        assert(id.len() != 10);
    }
    if item != TrayItem::ToggleLock {
        assert(id.len() != 11);
    }
    if item != TrayItem::ExitLock {
        assert(id.len() != 9);
    }
    if item != TrayItem::Show {
        assert(id.len() != 4 || id[0] != 's');
    }
}

/// What a click on the tray icon asks for: releasing the left button toggles
/// the window's visibility, anything else asks for nothing.
pub fn tray_click(button: MouseButton, state: ButtonState) -> (res: Option<Action>)
    ensures
        res == (if button == MouseButton::Left && state == ButtonState::Up {
            Some(Action::ToggleVisibility)
        } else {
            None
        }),
{
    match (button, state) {
        (MouseButton::Left, ButtonState::Up) => Some(Action::ToggleVisibility),
        _ => None,
    }
}

} // verus!
