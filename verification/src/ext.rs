//! Look-ups in what the outside services report.

pub mod by_id;
pub mod for_name;
pub mod keyboard_layout_ext;
pub mod monitor_ext;
