//! Background workers that feed the widgets.

pub mod hyprland_worker;
