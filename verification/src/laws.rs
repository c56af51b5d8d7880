//! The protocol-level guarantees of the driver, proved once and for all over
//! the trace model: pulse ratios, channel order, the empty frame, the tick
//! budget of a frame, restartability, and the equivalence of the two timing
//! schedules under a tolerant receiver.

use crate::color::Rgb8;
use crate::protocol::Event;
use crate::protocol::Timing;
use crate::protocol::RESET_TICKS;
use crate::protocol::bit_events;
use crate::protocol::byte_bit;
use crate::protocol::byte_events;
use crate::protocol::byte_events_upto;
use crate::protocol::color_bit;
use crate::protocol::color_events;
use crate::protocol::colors_events_upto;
use crate::protocol::decode_symbol;
use crate::protocol::frame_events;
use crate::protocol::level_after;
use crate::protocol::reset_events;
use crate::protocol::symbol_window;
use crate::protocol::tick_count;
use crate::protocol::tick_count_from;
use crate::protocol::tick_run;
use crate::protocol::ticks_high;
use crate::protocol::ticks_high_from;
use crate::protocol::ticks_low;
use crate::protocol::ticks_low_from;
use vstd::prelude::*;

verus! {

proof fn lemma_byte_events_upto_len(b: u8, n: int, t: Timing)
    requires
        0 <= n,
    ensures
        byte_events_upto(b, n, t).len() == 5 * n,
    decreases n,
{
    if n > 0 {
        lemma_byte_events_upto_len(b, n - 1, t);
    }
}

proof fn lemma_byte_symbol_upto(b: u8, t: Timing, j: int, n: int)
    requires
        0 <= j < n <= 8,
    ensures
        byte_events_upto(b, n, t).subrange(5 * j, 5 * j + 5) == bit_events(
            byte_bit(b, j as u8),
            t,
        ),
    decreases n,
{
    lemma_byte_events_upto_len(b, n - 1, t);
    if j == n - 1 {
        assert(byte_events_upto(b, n, t).subrange(5 * j, 5 * j + 5) =~= bit_events(
            byte_bit(b, j as u8),
            t,
        ));
    } else {
        lemma_byte_symbol_upto(b, t, j, n - 1);
        assert(byte_events_upto(b, n, t).subrange(5 * j, 5 * j + 5) =~= byte_events_upto(
            b,
            n - 1,
            t,
        ).subrange(5 * j, 5 * j + 5));
    }
}

/// A channel byte is emitted as eight five-event symbol groups, most
/// significant bit first: group `j` is exactly the symbol of bit `j`.
pub proof fn lemma_byte_symbol(b: u8, t: Timing, j: int)
    requires
        0 <= j < 8,
    ensures
        byte_events(b, t).len() == 40,
        byte_events(b, t).subrange(5 * j, 5 * j + 5) == bit_events(byte_bit(b, j as u8), t),
{
    lemma_byte_events_upto_len(b, 8, t);
    lemma_byte_symbol_upto(b, t, j, 8);
}

/// Channel order: of the three symbol groups of one color, the first eight
/// symbols carry the green channel, the next eight red, the last eight blue.
pub proof fn lemma_channel_order(c: Rgb8, t: Timing)
    ensures
        color_events(c, t).len() == 120,
        color_events(c, t).subrange(0, 40) == byte_events(c.g, t),
        color_events(c, t).subrange(40, 80) == byte_events(c.r, t),
        color_events(c, t).subrange(80, 120) == byte_events(c.b, t),
{
    lemma_byte_events_upto_len(c.g, 8, t);
    lemma_byte_events_upto_len(c.r, 8, t);
    lemma_byte_events_upto_len(c.b, 8, t);
    assert(color_events(c, t).subrange(0, 40) =~= byte_events(c.g, t));
    assert(color_events(c, t).subrange(40, 80) =~= byte_events(c.r, t));
    assert(color_events(c, t).subrange(80, 120) =~= byte_events(c.b, t));
}

/// Each of the 24 bit symbols of one color is the symbol of the matching bit
/// of the color's wire form.
pub proof fn lemma_color_symbol(c: Rgb8, t: Timing, i: int)
    requires
        0 <= i < 24,
    ensures
        color_events(c, t).subrange(5 * i, 5 * i + 5) == bit_events(color_bit(c, i), t),
{
    lemma_channel_order(c, t);
    if i < 8 {
        lemma_byte_symbol(c.g, t, i);
        assert(color_events(c, t).subrange(5 * i, 5 * i + 5) =~= byte_events(c.g, t).subrange(
            5 * i,
            5 * i + 5,
        ));
    } else if i < 16 {
        lemma_byte_symbol(c.r, t, i - 8);
        assert(color_events(c, t).subrange(5 * i, 5 * i + 5) =~= byte_events(c.r, t).subrange(
            5 * (i - 8),
            5 * (i - 8) + 5,
        ));
    } else {
        lemma_byte_symbol(c.b, t, i - 16);
        assert(color_events(c, t).subrange(5 * i, 5 * i + 5) =~= byte_events(c.b, t).subrange(
            5 * (i - 16),
            5 * (i - 16) + 5,
        ));
    }
}

proof fn lemma_tick_count_from_concat_tail(a: Seq<Event>, b: Seq<Event>, j: int)
    requires
        0 <= j <= b.len(),
    ensures
        tick_count_from(a + b, a.len() + j) == tick_count_from(b, j),
    decreases b.len() - j,
{
    if j < b.len() {
        assert((a + b)[a.len() + j] == b[j]);
        lemma_tick_count_from_concat_tail(a, b, j + 1);
    }
}

proof fn lemma_tick_count_from_concat(a: Seq<Event>, b: Seq<Event>, i: int)
    requires
        0 <= i <= a.len(),
    ensures
        tick_count_from(a + b, i) == tick_count_from(a, i) + tick_count(b),
    decreases a.len() - i,
{
    if i < a.len() {
        assert((a + b)[i] == a[i]);
        lemma_tick_count_from_concat(a, b, i + 1);
    } else {
        lemma_tick_count_from_concat_tail(a, b, 0);
    }
}

proof fn lemma_tick_count_concat(a: Seq<Event>, b: Seq<Event>)
    ensures
        tick_count(a + b) == tick_count(a) + tick_count(b),
{
    lemma_tick_count_from_concat(a, b, 0);
}

proof fn lemma_tick_count_from_tick_run(n: nat, i: int)
    requires
        0 <= i <= n,
    ensures
        tick_count_from(tick_run(n), i) == n - i,
    decreases n - i,
{
    if i < n {
        lemma_tick_count_from_tick_run(n, i + 1);
    }
}

proof fn lemma_tick_count_tick_run(n: nat)
    ensures
        tick_count(tick_run(n)) == n,
{
    lemma_tick_count_from_tick_run(n, 0);
}

proof fn lemma_tick_count_bit(bit: bool, t: Timing)
    ensures
        tick_count(bit_events(bit, t)) == 3,
{
    reveal_with_fuel(tick_count_from, 7);
}

proof fn lemma_tick_count_byte_upto(b: u8, n: int, t: Timing)
    requires
        0 <= n <= 8,
    ensures
        tick_count(byte_events_upto(b, n, t)) == 3 * n,
    decreases n,
{
    if n > 0 {
        lemma_tick_count_byte_upto(b, n - 1, t);
        lemma_tick_count_bit(byte_bit(b, (n - 1) as u8), t);
        lemma_tick_count_concat(
            byte_events_upto(b, n - 1, t),
            bit_events(byte_bit(b, (n - 1) as u8), t),
        );
    }
}

proof fn lemma_tick_count_color(c: Rgb8, t: Timing)
    ensures
        tick_count(color_events(c, t)) == 72,
{
    lemma_tick_count_byte_upto(c.g, 8, t);
    lemma_tick_count_byte_upto(c.r, 8, t);
    lemma_tick_count_byte_upto(c.b, 8, t);
    lemma_tick_count_concat(byte_events(c.g, t), byte_events(c.r, t));
    lemma_tick_count_concat(byte_events(c.g, t) + byte_events(c.r, t), byte_events(c.b, t));
}

proof fn lemma_tick_count_colors_upto(cs: Seq<Rgb8>, n: int, t: Timing)
    requires
        0 <= n,
    ensures
        tick_count(colors_events_upto(cs, n, t)) == 72 * n,
    decreases n,
{
    if n > 0 {
        lemma_tick_count_colors_upto(cs, n - 1, t);
        lemma_tick_count_color(cs[n - 1], t);
        lemma_tick_count_concat(colors_events_upto(cs, n - 1, t), color_events(cs[n - 1], t));
    }
}

proof fn lemma_colors_upto_len(cs: Seq<Rgb8>, n: int, t: Timing)
    requires
        0 <= n,
    ensures
        colors_events_upto(cs, n, t).len() == 120 * n,
    decreases n,
{
    if n > 0 {
        lemma_colors_upto_len(cs, n - 1, t);
        lemma_byte_events_upto_len(cs[n - 1].g, 8, t);
        lemma_byte_events_upto_len(cs[n - 1].r, 8, t);
        lemma_byte_events_upto_len(cs[n - 1].b, 8, t);
    }
}

proof fn lemma_level_after_concat(a: Seq<Event>, b: Seq<Event>, init: bool)
    ensures
        level_after(a + b, init) == level_after(b, level_after(a, init)),
    decreases b.len(),
{
    if b.len() == 0 {
        assert(a + b =~= a);
    } else {
        assert((a + b).drop_last() =~= a + b.drop_last());
        assert((a + b).last() == b.last());
        lemma_level_after_concat(a, b.drop_last(), init);
    }
}

proof fn lemma_level_after_bit(bit: bool, t: Timing, init: bool)
    ensures
        level_after(bit_events(bit, t), init) == false,
{
    let s = bit_events(bit, t);
    if bit {
        assert(s.last() is Low);
    } else if t is Standard {
        assert(s.last() is Tick);
        assert(s.drop_last() =~= seq![Event::Tick, Event::High, Event::Tick, Event::Low]);
        assert(level_after(s, init) == level_after(s.drop_last(), init));
    } else {
        assert(s.last() is Tick);
        assert(s.drop_last() =~= seq![Event::Tick, Event::High, Event::Low, Event::Tick]);
        assert(level_after(s, init) == level_after(s.drop_last(), init));
        assert(s.drop_last().drop_last() =~= seq![Event::Tick, Event::High, Event::Low]);
        assert(level_after(s.drop_last(), init) == level_after(s.drop_last().drop_last(), init));
    }
}

proof fn lemma_level_after_byte(b: u8, t: Timing, init: bool)
    ensures
        level_after(byte_events(b, t), init) == false,
{
    lemma_level_after_concat(byte_events_upto(b, 7, t), bit_events(byte_bit(b, 7u8), t), init);
    lemma_level_after_bit(byte_bit(b, 7u8), t, level_after(byte_events_upto(b, 7, t), init));
}

proof fn lemma_level_after_color(c: Rgb8, t: Timing, init: bool)
    ensures
        level_after(color_events(c, t), init) == false,
{
    lemma_level_after_concat(
        byte_events(c.g, t) + byte_events(c.r, t),
        byte_events(c.b, t),
        init,
    );
    lemma_level_after_byte(c.b, t, level_after(byte_events(c.g, t) + byte_events(c.r, t), init));
}

proof fn lemma_level_after_tick_run(n: nat, init: bool)
    ensures
        level_after(tick_run(n), init) == init,
    decreases n,
{
    if n > 0 {
        assert(tick_run(n).last() is Tick);
        assert(tick_run(n).drop_last() =~= tick_run((n - 1) as nat));
        lemma_level_after_tick_run((n - 1) as nat, init);
    }
}

proof fn lemma_level_after_colors_upto(cs: Seq<Rgb8>, n: int, t: Timing, init: bool)
    requires
        1 <= n,
    ensures
        level_after(colors_events_upto(cs, n, t), init) == false,
{
    lemma_level_after_concat(colors_events_upto(cs, n - 1, t), color_events(cs[n - 1], t), init);
    lemma_level_after_color(cs[n - 1], t, level_after(colors_events_upto(cs, n - 1, t), init));
}

/// The measured shape of one bit symbol: every symbol spans three ticks,
/// whatever the schedule.  Under the standard schedule the pin is high for
/// two of them on a 1 bit and one on a 0 bit.  The degraded schedule keeps
/// the 1-bit shape, but its 0-bit high pulse ends within the first tick,
/// before any boundary passes, so at tick granularity it measures zero: its
/// real length is the hardware's toggle latency.
pub proof fn lemma_symbol_measures(bit: bool, t: Timing)
    ensures
        tick_count(symbol_window(bit_events(bit, t))) == 3,
        ticks_high(symbol_window(bit_events(bit, t)), false) == (if bit {
            2nat
        } else if t is Standard {
            1nat
        } else {
            0nat
        }),
        ticks_low(symbol_window(bit_events(bit, t)), false) == (if bit {
            1nat
        } else if t is Standard {
            2nat
        } else {
            3nat
        }),
{
    reveal_with_fuel(tick_count_from, 7);
    reveal_with_fuel(ticks_high_from, 7);
    reveal_with_fuel(ticks_low_from, 7);
    if bit {
        assert(symbol_window(bit_events(bit, t)) =~= seq![
            Event::High,
            Event::Tick,
            Event::Tick,
            Event::Low,
            Event::Tick,
        ]);
    } else if t is Standard {
        assert(symbol_window(bit_events(bit, t)) =~= seq![
            Event::High,
            Event::Tick,
            Event::Low,
            Event::Tick,
            Event::Tick,
        ]);
    } else {
        assert(symbol_window(bit_events(bit, t)) =~= seq![
            Event::High,
            Event::Low,
            Event::Tick,
            Event::Tick,
            Event::Tick,
        ]);
    }
}

/// Pulse ratio under the standard schedule: each of the 24 bit symbols of a
/// color spans three ticks and holds the pin high for two of them on a 1 bit
/// and one of them on a 0 bit.  The window of symbol `i` runs from the
/// symbol's own pin-raise to the tick that opens whatever follows it.  (The
/// degraded schedule keeps this ratio only for 1 bits: its 0-bit high pulse
/// is shorter than one tick by design, see `lemma_variant_equivalence`.)
pub proof fn lemma_pulse_ratio(c: Rgb8, i: int)
    requires
        0 <= i < 24,
    ensures
        color_events(c, Timing::Standard).subrange(5 * i, 5 * i + 5) == bit_events(
            color_bit(c, i),
            Timing::Standard,
        ),
        tick_count(symbol_window(bit_events(color_bit(c, i), Timing::Standard))) == 3,
        ticks_high(symbol_window(bit_events(color_bit(c, i), Timing::Standard)), false) == (
        if color_bit(c, i) {
            2nat
        } else {
            1nat
        }),
        ticks_low(symbol_window(bit_events(color_bit(c, i), Timing::Standard)), false) == (
        if color_bit(c, i) {
            1nat
        } else {
            2nat
        }),
{
    lemma_color_symbol(c, Timing::Standard, i);
    lemma_symbol_measures(color_bit(c, i), Timing::Standard);
}

/// An empty write encodes no bits: its whole trace is the reset gap, 900
/// bare ticks that never touch the pin.
pub proof fn lemma_empty_frame(t: Timing)
    ensures
        frame_events(Seq::<Rgb8>::empty(), t) == reset_events(),
        reset_events().len() == 900,
        tick_count(reset_events()) == 900,
        forall|i: int| 0 <= i < 900 ==> reset_events()[i] is Tick,
{
    assert(frame_events(Seq::<Rgb8>::empty(), t) =~= reset_events());
    lemma_tick_count_tick_run(RESET_TICKS as nat);
}

/// The tick budget of a frame of N colors: 24 bits of 3 ticks each per color
/// plus the 900-tick reset gap, and the pin is left low at the end.
pub proof fn lemma_frame_budget(cs: Seq<Rgb8>, t: Timing)
    ensures
        frame_events(cs, t).len() == 120 * cs.len() + 900,
        tick_count(frame_events(cs, t)) == 72 * cs.len() + 900,
        level_after(frame_events(cs, t), false) == false,
{
    let n = cs.len() as int;
    let body = colors_events_upto(cs, n, t);
    lemma_colors_upto_len(cs, n, t);
    lemma_tick_count_colors_upto(cs, n, t);
    lemma_tick_count_concat(body, reset_events());
    lemma_tick_count_tick_run(RESET_TICKS as nat);
    lemma_level_after_concat(body, reset_events(), false);
    lemma_level_after_tick_run(RESET_TICKS as nat, level_after(body, false));
    if n > 0 {
        lemma_level_after_colors_upto(cs, n, t, false);
    }
}

/// Restartability: the trace segment a write appends is a function of the
/// colors and the schedule alone.  Two writes of the same colors append
/// identical segments, whatever traces they each started from.
pub proof fn lemma_write_restartable(pre1: Seq<Event>, pre2: Seq<Event>, cs: Seq<Rgb8>, t: Timing)
    ensures
        (pre1 + frame_events(cs, t)).skip(pre1.len() as int) == (pre2 + frame_events(cs, t)).skip(
            pre2.len() as int,
        ),
{
    assert((pre1 + frame_events(cs, t)).skip(pre1.len() as int) =~= frame_events(cs, t));
    assert((pre2 + frame_events(cs, t)).skip(pre2.len() as int) =~= frame_events(cs, t));
}

/// Variant equivalence: under either schedule, a tolerant receiver that
/// reads a symbol as 1 exactly when its high pulse lasts at least two ticks
/// recovers every bit of every channel byte.
pub proof fn lemma_variant_equivalence(b: u8, t: Timing, j: int)
    requires
        0 <= j < 8,
    ensures
        decode_symbol(byte_events(b, t).subrange(5 * j, 5 * j + 5)) == byte_bit(b, j as u8),
{
    lemma_byte_symbol(b, t, j);
    lemma_symbol_measures(byte_bit(b, j as u8), t);
}

} // verus!
