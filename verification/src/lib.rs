//! Brightness control for a display backlight: the device's cached state,
//! the text of its files, and the plan and pacing of a change of level.

pub mod backlight;
pub mod cli;
pub mod decimal;
pub mod engine;
pub mod error;
pub mod notification;
pub mod percent;
pub mod transition;
pub mod util;
