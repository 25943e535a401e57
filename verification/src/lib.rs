//! The window-state and configuration engine of a floating browser window:
//! one configuration record, the rules that bound what enters it, and the
//! actions that change it from the page, from global hotkeys and from the
//! tray, each with the steps it asks of the host.

pub mod actions;
pub mod address;
pub mod click_through;
pub mod config;
pub mod effect;
pub mod hotkey;
pub mod opacity;
pub mod startup;
pub mod store;
pub mod text;
pub mod tray;
pub mod validator;
