//! The interaction and acquisition engine of a handheld colour identifier.
//!
//! The device reads the colour under its light sensor, names it after the
//! nearest entry of a fixed palette, lets its user capture readings into a
//! short history with a single button, and shows the result on a small
//! display.
//!
//! - [`input`] turns the samples of the button's contact into gestures.
//! - [`colors`] holds the palette and matches a colour to it.
//! - [`session`] keeps the mode, the history and the current reading, applies
//!   gestures and sensor readings, and decides when the display is redrawn.
//! - [`screen`] says what the two screens show.
//! - [`tcs34725`] and [`ssd1283a`] say which bytes the sensor and the display
//!   exchange with their buses.
//!
//! Nothing here touches a pin, a bus or a clock: whoever owns them samples,
//! moves the bytes, and hands over plain values.

pub mod colors;
pub mod input;
pub mod screen;
pub mod session;
pub mod ssd1283a;
pub mod tcs34725;
