//! The report engine of a wireless keyboard with media keys and a mouse:
//! characters become usage codes, presses and releases become reports, and
//! the buttons of the device run their actions. Every operation hands back
//! the reports that it emits; delivering them is left to the caller.
//!
//! Beside it stand the frame buffer of the device's display and the
//! requests that its firmware updater takes.

pub mod bt_keyboard;
pub mod crab_img;
pub mod dispatch;
pub mod framebuffer;
pub mod keycode;
pub mod ota;
pub mod report;
pub mod wifi;
