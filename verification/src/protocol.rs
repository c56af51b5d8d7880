//! The tick-level model of the WS2812 single-wire protocol.
//!
//! The driver's only observable behaviour is the ordered sequence of timer
//! ticks it consumes and pin levels it drives.  This module defines that
//! trace: the five-event symbol of one data bit, the forty-event run of one
//! channel byte (most significant bit first), the wire order of the three
//! channels of a color (green, red, blue), and the reset/latch gap that ends
//! a frame.  It also defines the measures a receiver would take of such a
//! trace: ticks spent high and low within a bit symbol, the tick total of a
//! frame, and the pin level it leaves behind.

use crate::color::Rgb8;
use vstd::prelude::*;

verus! {

/// One observable action at the strip interface: the driver blocked until
/// the next boundary of the 3 MHz timer, or it drove the data pin to a level.
#[derive(Clone, Copy, PartialEq, Eq, Structural, Debug)]
pub enum Event {
    /// one full period of the reference timer passed
    Tick,
    /// the data pin was driven high
    High,
    /// the data pin was driven low
    Low,
}

/// Which of the two bit-symbol schedules the driver was built with.
///
/// Both spend three ticks per bit.  `Standard` keeps the pin high for one
/// tick (bit 0) or two ticks (bit 1).  `Degraded` drops the pin one tick
/// earlier on a 0 bit, so that hardware with a slow tick-to-toggle path
/// still produces a short-enough high pulse; its 0-bit high pulse lasts only
/// as long as the toggle latency itself.
#[derive(Clone, Copy, PartialEq, Eq, Structural, Debug)]
pub enum Timing {
    /// the default schedule
    Standard,
    /// the schedule for platforms whose pin toggles lag the timer
    Degraded,
}

/// Length of the reset/latch gap in timer ticks: 300 us at 3 MHz, well over
/// the minimum the strip needs to latch a frame.
pub const RESET_TICKS: usize = 900;

/// Bit `i` of a channel byte, counting from the most significant bit.
pub open spec fn byte_bit(b: u8, i: u8) -> bool
    recommends
        i < 8,
{
    b & (128u8 >> i) != 0
}

/// The five events that emit one bit symbol.
///
/// Every symbol starts on a tick boundary and raises the pin.  Under
/// `Standard` timing a 1 bit stays high for two ticks and low for one, a
/// 0 bit high for one tick and low for two.  Under `Degraded` timing a 1 bit
/// is scheduled as under `Standard`, while a 0 bit drops the pin within the
/// first tick, before any further boundary.
pub open spec fn bit_events(bit: bool, t: Timing) -> Seq<Event> {
    if bit {
        seq![Event::Tick, Event::High, Event::Tick, Event::Tick, Event::Low]
    } else if t is Standard {
        seq![Event::Tick, Event::High, Event::Tick, Event::Low, Event::Tick]
    } else {
        seq![Event::Tick, Event::High, Event::Low, Event::Tick, Event::Tick]
    }
}

/// The events of the first `n` bits of a byte, most significant first.
pub open spec fn byte_events_upto(b: u8, n: int, t: Timing) -> Seq<Event>
    decreases n,
{
    if n <= 0 {
        Seq::empty()
    } else {
        byte_events_upto(b, n - 1, t) + bit_events(byte_bit(b, (n - 1) as u8), t)
    }
}

/// The forty events that emit one channel byte, most significant bit first.
pub open spec fn byte_events(b: u8, t: Timing) -> Seq<Event> {
    byte_events_upto(b, 8, t)
}

/// The events of one color: its channels in wire order green, red, blue.
pub open spec fn color_events(c: Rgb8, t: Timing) -> Seq<Event> {
    byte_events(c.g, t) + byte_events(c.r, t) + byte_events(c.b, t)
}

/// The events of the first `n` colors of a frame.
pub open spec fn colors_events_upto(cs: Seq<Rgb8>, n: int, t: Timing) -> Seq<Event>
    decreases n,
{
    if n <= 0 {
        Seq::empty()
    } else {
        colors_events_upto(cs, n - 1, t) + color_events(cs[n - 1], t)
    }
}

/// A run of `n` bare ticks: the pin is left untouched while they pass.
pub open spec fn tick_run(n: nat) -> Seq<Event> {
    Seq::new(n, |i: int| Event::Tick)
}

/// The reset/latch gap that ends every frame.
pub open spec fn reset_events() -> Seq<Event> {
    tick_run(RESET_TICKS as nat)
}

/// The complete event trace of one write transaction: every color in wire
/// order, then the reset gap.
pub open spec fn frame_events(cs: Seq<Rgb8>, t: Timing) -> Seq<Event> {
    colors_events_upto(cs, cs.len() as int, t) + reset_events()
}

/// Bit `i` of the 24-bit wire form of a color, in transmission order.
pub open spec fn color_bit(c: Rgb8, i: int) -> bool
    recommends
        0 <= i < 24,
{
    if i < 8 {
        byte_bit(c.g, i as u8)
    } else if i < 16 {
        byte_bit(c.r, (i - 8) as u8)
    } else {
        byte_bit(c.b, (i - 16) as u8)
    }
}

/// Number of ticks consumed by `evs[i..]`.
pub open spec fn tick_count_from(evs: Seq<Event>, i: int) -> nat
    decreases evs.len() - i,
{
    if i < 0 || i >= evs.len() {
        0
    } else {
        (if evs[i] is Tick {
            1nat
        } else {
            0nat
        }) + tick_count_from(evs, i + 1)
    }
}

/// Number of ticks consumed by a trace.
pub open spec fn tick_count(evs: Seq<Event>) -> nat {
    tick_count_from(evs, 0)
}

/// Of the ticks in `evs[i..]`, how many pass while the pin is high, given the
/// pin level reached before `evs[i]`.
pub open spec fn ticks_high_from(evs: Seq<Event>, i: int, level: bool) -> nat
    decreases evs.len() - i,
{
    if i < 0 || i >= evs.len() {
        0
    } else {
        match evs[i] {
            Event::Tick => (if level {
                1nat
            } else {
                0nat
            }) + ticks_high_from(evs, i + 1, level),
            Event::High => ticks_high_from(evs, i + 1, true),
            Event::Low => ticks_high_from(evs, i + 1, false),
        }
    }
}

/// Ticks of a trace that pass while the pin is high.
pub open spec fn ticks_high(evs: Seq<Event>, init: bool) -> nat {
    ticks_high_from(evs, 0, init)
}

/// Of the ticks in `evs[i..]`, how many pass while the pin is low.
pub open spec fn ticks_low_from(evs: Seq<Event>, i: int, level: bool) -> nat
    decreases evs.len() - i,
{
    if i < 0 || i >= evs.len() {
        0
    } else {
        match evs[i] {
            Event::Tick => (if level {
                0nat
            } else {
                1nat
            }) + ticks_low_from(evs, i + 1, level),
            Event::High => ticks_low_from(evs, i + 1, true),
            Event::Low => ticks_low_from(evs, i + 1, false),
        }
    }
}

/// Ticks of a trace that pass while the pin is low.
pub open spec fn ticks_low(evs: Seq<Event>, init: bool) -> nat {
    ticks_low_from(evs, 0, init)
}

/// The pin level a trace leaves behind, given the level before it.
pub open spec fn level_after(evs: Seq<Event>, init: bool) -> bool
    decreases evs.len(),
{
    if evs.len() == 0 {
        init
    } else {
        match evs.last() {
            Event::Tick => level_after(evs.drop_last(), init),
            Event::High => true,
            Event::Low => false,
        }
    }
}

/// The three-tick measurement window of a bit symbol: the symbol's own events
/// after its leading tick, closed by the tick that opens whatever follows it
/// (the next symbol and the reset gap both begin with one).
pub open spec fn symbol_window(g: Seq<Event>) -> Seq<Event> {
    g.skip(1).push(Event::Tick)
}

/// A tolerant receiver's reading of one bit symbol: any high pulse of two or
/// more ticks is a 1, any shorter pulse a 0.
pub open spec fn decode_symbol(g: Seq<Event>) -> bool {
    ticks_high(symbol_window(g), false) >= 2
}

} // verus!
