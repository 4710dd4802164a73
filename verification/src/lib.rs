//! Stepwise backlight brightness control.
//!
//! A single invocation reads the maximum and current brightness of a device
//! (screen or keyboard) from its sysfs files, moves the current value one
//! step toward 0 or toward the maximum, and writes the result back. This
//! crate holds the verified logic of that pipeline: token and argument
//! parsing, decoding and rendering of the decimal sysfs values, and the
//! clamped step arithmetic. The surrounding process (reading the argument
//! list and the environment, reading and writing the sysfs files) stays
//! outside and hands this crate plain byte strings and integers.

pub mod brightness;
pub mod cli;
pub mod device;
pub mod text;
