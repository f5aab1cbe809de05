//! Synchronisation core of a desktop status bar.
//!
//! Two streams come in from outside: the events of the window manager and
//! the items of the desktop tray. This crate turns them into state that the
//! bar can draw: an ordered registry of workspaces, the focused window, the
//! layout of the tracked keyboard, and the tray items with their sectioned
//! menus and the actions behind them. It reads no socket and draws no
//! widget: it takes plain values and hands plain values back.
//!
//! - [`workers::hyprland_worker`] decodes the window manager's events.
//! - [`app_module`] routes the decoded messages to their consumers and
//!   chooses the monitor that the bar stands on.
//! - [`widgets`] holds the state of each widget.
//! - [`ext`] holds look-ups in what the outside services report.
//! - [`text`] and [`event`] hold the helpers and records they share.

pub mod app_module;
pub mod event;
pub mod ext;
pub mod text;
pub mod widgets;
pub mod workers;
