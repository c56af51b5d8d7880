//! A WS2812 LED strip driver that bit-bangs the single-wire protocol on a
//! digital output pin, timed purely by busy-waiting on the ticks of a
//! periodic 3 MHz timer.
//!
//! The hardware is reached through the [`StripLink`] capability, whose
//! contract records every tick consumed and every pin transition as a trace
//! of [`Event`]s.  The driver is verified against that trace: a write emits,
//! for each color, the three channel bytes in wire order green, red, blue,
//! each bit as a three-tick symbol whose high time encodes the bit, and ends
//! with a 900-tick reset gap that leaves the pin low.

pub mod color;
pub mod driver;
pub mod laws;
pub mod protocol;

pub use color::Rgb8;
pub use driver::SimLink;
pub use driver::StripLink;
pub use driver::Ws2812;
pub use protocol::Event;
pub use protocol::Timing;
