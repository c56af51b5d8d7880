//! The driver itself: the capability it needs from the hardware, the bit
//! encoder, and the frame writer.

use crate::color::Rgb8;
use crate::protocol::Event;
use crate::protocol::Timing;
use crate::protocol::RESET_TICKS;
use crate::protocol::byte_bit;
use crate::protocol::byte_events;
use crate::protocol::byte_events_upto;
use crate::protocol::colors_events_upto;
use crate::protocol::frame_events;
use crate::protocol::tick_run;
use vstd::prelude::*;

verus! {

/// The timer-and-pin pair the driver owns exclusively: a periodic timer the
/// caller has already set to 3 MHz, and the data pin of the strip.
///
/// An implementation keeps, as its view, the trace of everything done at this
/// interface; each operation appends exactly its own event.  [`SimLink`]
/// below is a verified implementation that records the trace in memory;
/// bindings to real timers and pins live outside the library, next to the
/// code that configures the hardware.
pub trait StripLink {
    /// The history of ticks consumed and pin levels driven, oldest first.
    /// The default stands for links whose history nothing observes, such as
    /// real hardware; a link that records its history overrides it.
    open spec fn events(&self) -> Seq<Event> {
        Seq::empty()
    }

    /// Block until the next tick boundary of the timer.  Ticks are never
    /// skipped or coalesced: each call consumes exactly one.
    fn wait_tick(&mut self)
        ensures
            final(self).events() == old(self).events().push(Event::Tick),
    ;

    /// Drive the data pin high.
    fn set_high(&mut self)
        ensures
            final(self).events() == old(self).events().push(Event::High),
    ;

    /// Drive the data pin low.
    fn set_low(&mut self)
        ensures
            final(self).events() == old(self).events().push(Event::Low),
    ;
}

/// A WS2812 strip driver bound to one timer-and-pin pair for its lifetime.
pub struct Ws2812<L: StripLink> {
    link: L,
    timing: Timing,
}

impl<L: StripLink> Ws2812<L> {
    /// Everything this driver has done at the strip interface so far.
    pub closed spec fn events(&self) -> Seq<Event> {
        self.link.events()
    }

    /// The bit-symbol schedule fixed at construction.
    pub closed spec fn timing(&self) -> Timing {
        self.timing
    }

    /// Binds the timer-and-pin pair and fixes the bit-symbol schedule.  The
    /// timer must already run at 3 MHz.  Drives the pin low at once: low is
    /// the idle state of the line.
    pub fn new(link: L, timing: Timing) -> (d: Ws2812<L>)
        ensures
            d.events() == link.events().push(Event::Low),
            d.timing() == timing,
    {
        let mut link = link;
        link.set_low();
        Ws2812 { link, timing }
    }

    /// Emits the eight bit symbols of one channel byte, most significant bit
    /// first, and leaves the pin low.
    pub fn write_byte(&mut self, data: u8)
        ensures
            final(self).events() == old(self).events() + byte_events(data, old(self).timing()),
            final(self).timing() == old(self).timing(),
    {
        let ghost pre = self.events();
        let ghost t = self.timing();
        let mode = self.timing;
        let mut i: usize = 0;
        while i < 8
            invariant
                i <= 8,
                mode == t,
                self.timing() == t,
                self.events() == pre + byte_events_upto(data, i as int, t),
            decreases 8 - i,
        {
            let bit = (data & (128u8 >> (i as u8))) != 0;
            if bit {
                self.link.wait_tick();
                self.link.set_high();
                self.link.wait_tick();
                self.link.wait_tick();
                self.link.set_low();
            } else {
                match mode {
                    Timing::Standard => {
                        self.link.wait_tick();
                        self.link.set_high();
                        self.link.wait_tick();
                        self.link.set_low();
                        self.link.wait_tick();
                    },
                    Timing::Degraded => {
                        self.link.wait_tick();
                        self.link.set_high();
                        self.link.set_low();
                        self.link.wait_tick();
                        self.link.wait_tick();
                    },
                }
            }
            proof {
                assert(bit == byte_bit(data, i as u8));
                assert(self.events() =~= pre + byte_events_upto(data, i as int + 1, t));
            }
            i = i + 1;
        }
    }

    /// Transmits one complete frame: every color's channels in wire order
    /// green, red, blue, then the reset/latch gap of 900 ticks.  Succeeds on
    /// every input; the result type exists for interface uniformity.
    pub fn write(&mut self, colors: &[Rgb8]) -> (r: Result<(), ()>)
        ensures
            final(self).events() == old(self).events() + frame_events(colors@, old(
                self,
            ).timing()),
            final(self).timing() == old(self).timing(),
            r == Ok::<(), ()>(()),
    {
        let ghost pre = self.events();
        let ghost t = self.timing();
        let mut i: usize = 0;
        while i < colors.len()
            invariant
                i <= colors.len(),
                self.timing() == t,
                self.events() == pre + colors_events_upto(colors@, i as int, t),
            decreases colors.len() - i,
        {
            let c = colors[i];
            self.write_byte(c.g);
            self.write_byte(c.r);
            self.write_byte(c.b);
            proof {
                assert(self.events() =~= pre + colors_events_upto(colors@, i as int + 1, t));
            }
            i = i + 1;
        }
        let ghost body = colors_events_upto(colors@, colors@.len() as int, t);
        let mut k: usize = 0;
        while k < RESET_TICKS
            invariant
                k <= RESET_TICKS,
                self.timing() == t,
                self.events() == pre + body + tick_run(k as nat),
            decreases RESET_TICKS - k,
        {
            self.link.wait_tick();
            proof {
                assert(self.events() =~= pre + body + tick_run(k as nat + 1));
            }
            k = k + 1;
        }
        proof {
            assert(self.events() =~= pre + frame_events(colors@, t));
        }
        Ok(())
    }

    /// A view of the bound timer-and-pin pair, for reading a recorded trace
    /// back out of a simulated link.
    pub fn link(&self) -> (l: &L)
        ensures
            l.events() == self.events(),
    {
        &self.link
    }
}

/// A software stand-in for the hardware: it performs no waiting and drives no
/// pin, it only records the trace, giving tests a virtual tick counter and
/// pin-level recorder to measure the driver against.
pub struct SimLink {
    /// the recorded events, oldest first
    pub log: Vec<Event>,
}

impl SimLink {
    /// A recorder with an empty history.
    pub fn new() -> (s: SimLink)
        ensures
            s.events() == Seq::<Event>::empty(),
    {
        SimLink { log: Vec::new() }
    }
}

impl StripLink for SimLink {
    open spec fn events(&self) -> Seq<Event> {
        self.log@
    }

    fn wait_tick(&mut self) {
        self.log.push(Event::Tick);
    }

    fn set_high(&mut self) {
        self.log.push(Event::High);
    }

    fn set_low(&mut self) {
        self.log.push(Event::Low);
    }
}

} // verus!
