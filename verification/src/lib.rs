//! Core logic of an ambient-light backlight daemon: a smoothing engine that
//! turns raw illuminance readings into a stable ambient percentage, two
//! brightness mappers (keyboard and screen), the control-channel command
//! protocol, and the scheduler's event state machine.
//!
//! All I/O (the illuminance sensor, the backlight service, the control
//! socket) stays outside this crate; the functions here work on plain values
//! and plan the writes that a thin runtime layer performs.

pub mod ambient_brightness;
pub mod control;
pub mod controller;
pub mod device_value;
pub mod kbd_brightness;
pub mod screen_brightness;
