//! State of the individual bar widgets.

pub mod focused;
pub mod icon;
pub mod language;
pub mod menu;
pub mod systray;
pub mod tray_item;
pub mod workspace;
pub mod workspaces;
