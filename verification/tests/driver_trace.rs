//! Trace-level tests of the driver against a recording link: the simulator
//! stands in for the timer-and-pin pair and the tests measure the recorded
//! ticks and pin transitions.

use ws2812_timer_delay::Event;
use ws2812_timer_delay::Rgb8;
use ws2812_timer_delay::SimLink;
use ws2812_timer_delay::Timing;
use ws2812_timer_delay::Ws2812;

/// The five events of one bit symbol, per schedule.
fn bit_pattern(bit: bool, timing: Timing) -> Vec<Event> {
    if bit {
        vec![Event::Tick, Event::High, Event::Tick, Event::Tick, Event::Low]
    } else if matches!(timing, Timing::Standard) {
        vec![Event::Tick, Event::High, Event::Tick, Event::Low, Event::Tick]
    } else {
        vec![Event::Tick, Event::High, Event::Low, Event::Tick, Event::Tick]
    }
}

/// The forty events of one channel byte, most significant bit first.
fn byte_pattern(b: u8, timing: Timing) -> Vec<Event> {
    let mut out = Vec::new();
    for i in 0..8 {
        let bit = b & (128u8 >> i) != 0;
        out.extend(bit_pattern(bit, timing));
    }
    out
}

/// The events of one color in wire order green, red, blue.
fn color_pattern(c: Rgb8, timing: Timing) -> Vec<Event> {
    let mut out = byte_pattern(c.g, timing);
    out.extend(byte_pattern(c.r, timing));
    out.extend(byte_pattern(c.b, timing));
    out
}

/// The whole expected frame: every color, then 900 reset ticks.
fn frame_pattern(colors: &[Rgb8], timing: Timing) -> Vec<Event> {
    let mut out = Vec::new();
    for c in colors {
        out.extend(color_pattern(*c, timing));
    }
    for _ in 0..900 {
        out.push(Event::Tick);
    }
    out
}

/// Ticks spent high and low within one symbol's three-tick window: the
/// symbol's events after its leading tick, closed by the tick that opens
/// whatever follows.
fn window_ratio(group: &[Event]) -> (u32, u32) {
    let mut level = false;
    let mut high = 0;
    let mut low = 0;
    let mut window: Vec<Event> = group[1..].to_vec();
    window.push(Event::Tick);
    for e in window {
        match e {
            Event::Tick => {
                if level {
                    high += 1;
                } else {
                    low += 1;
                }
            }
            Event::High => level = true,
            Event::Low => level = false,
        }
    }
    (high, low)
}

/// A tolerant receiver: reads the bit stream back from a frame trace,
/// accepting any high pulse of two or more ticks as a 1.
fn decode_frame(trace: &[Event], n_colors: usize) -> Vec<Rgb8> {
    let mut colors = Vec::new();
    for ci in 0..n_colors {
        let mut bytes = [0u8; 3];
        for (k, byte) in bytes.iter_mut().enumerate() {
            for j in 0..8 {
                let start = (ci * 24 + k * 8 + j) * 5;
                let (high, _) = window_ratio(&trace[start..start + 5]);
                if high >= 2 {
                    *byte |= 128u8 >> j;
                }
            }
        }
        colors.push(Rgb8 { r: bytes[1], g: bytes[0], b: bytes[2] });
    }
    colors
}

/// The pin level a trace leaves behind, starting from low.
fn final_level(trace: &[Event]) -> bool {
    let mut level = false;
    for e in trace {
        match e {
            Event::Tick => {}
            Event::High => level = true,
            Event::Low => level = false,
        }
    }
    level
}

#[test]
fn new_drives_pin_low() {
    let d = Ws2812::new(SimLink::new(), Timing::Standard);
    assert_eq!(d.link().log, vec![Event::Low]);
}

#[test]
fn empty_write_emits_only_reset_gap() {
    let mut d = Ws2812::new(SimLink::new(), Timing::Standard);
    let r = d.write(&[]);
    assert_eq!(r, Ok(()));
    let log = &d.link().log;
    assert_eq!(log.len(), 1 + 900);
    for e in &log[1..] {
        assert_eq!(*e, Event::Tick);
    }
}

#[test]
fn single_color_trace_standard() {
    let c = Rgb8 { r: 0x12, g: 0xab, b: 0xff };
    let mut d = Ws2812::new(SimLink::new(), Timing::Standard);
    let r = d.write(&[c]);
    assert_eq!(r, Ok(()));
    let mut expected = vec![Event::Low];
    expected.extend(frame_pattern(&[c], Timing::Standard));
    assert_eq!(d.link().log, expected);
}

#[test]
fn single_color_trace_degraded() {
    let c = Rgb8 { r: 0x12, g: 0xab, b: 0xff };
    let mut d = Ws2812::new(SimLink::new(), Timing::Degraded);
    let r = d.write(&[c]);
    assert_eq!(r, Ok(()));
    let mut expected = vec![Event::Low];
    expected.extend(frame_pattern(&[c], Timing::Degraded));
    assert_eq!(d.link().log, expected);
}

#[test]
fn channel_order_green_red_blue() {
    let c = Rgb8 { r: 2, g: 1, b: 3 };
    let mut d = Ws2812::new(SimLink::new(), Timing::Standard);
    d.write(&[c]).unwrap();
    let log = &d.link().log;
    assert_eq!(&log[1..41], byte_pattern(1, Timing::Standard).as_slice());
    assert_eq!(&log[41..81], byte_pattern(2, Timing::Standard).as_slice());
    assert_eq!(&log[81..121], byte_pattern(3, Timing::Standard).as_slice());
}

#[test]
fn pulse_ratio_standard() {
    let c = Rgb8 { r: 0x5a, g: 0xc3, b: 0x0f };
    let wire = [c.g, c.r, c.b];
    let mut d = Ws2812::new(SimLink::new(), Timing::Standard);
    d.write(&[c]).unwrap();
    let trace = &d.link().log[1..];
    for i in 0..24 {
        let bit = wire[i / 8] & (128u8 >> (i % 8)) != 0;
        let (high, low) = window_ratio(&trace[5 * i..5 * i + 5]);
        if bit {
            assert_eq!((high, low), (2, 1));
        } else {
            assert_eq!((high, low), (1, 2));
        }
    }
}

#[test]
fn multi_color_tick_total() {
    let colors = [
        Rgb8 { r: 1, g: 2, b: 3 },
        Rgb8 { r: 0, g: 0, b: 0 },
        Rgb8 { r: 255, g: 255, b: 255 },
    ];
    let mut d = Ws2812::new(SimLink::new(), Timing::Standard);
    d.write(&colors).unwrap();
    let trace = &d.link().log[1..];
    let ticks = trace.iter().filter(|e| matches!(e, Event::Tick)).count();
    assert_eq!(ticks, 24 * 3 * 3 + 900);
    assert_eq!(trace.len(), 120 * 3 + 900);
    assert!(!final_level(trace));
}

#[test]
fn write_twice_appends_identical_segments() {
    let colors = [Rgb8 { r: 7, g: 130, b: 255 }, Rgb8 { r: 0, g: 64, b: 1 }];
    let mut d = Ws2812::new(SimLink::new(), Timing::Standard);
    d.write(&colors).unwrap();
    let first_end = d.link().log.len();
    d.write(&colors).unwrap();
    let log = &d.link().log;
    let seg1 = &log[1..first_end];
    let seg2 = &log[first_end..];
    assert_eq!(seg1, seg2);
}

#[test]
fn write_byte_msb_first() {
    let mut d = Ws2812::new(SimLink::new(), Timing::Standard);
    d.write_byte(0x80);
    let log = &d.link().log;
    let mut expected = vec![Event::Low];
    expected.extend(bit_pattern(true, Timing::Standard));
    for _ in 0..7 {
        expected.extend(bit_pattern(false, Timing::Standard));
    }
    assert_eq!(*log, expected);
}

#[test]
fn write_byte_degraded_pattern() {
    let mut d = Ws2812::new(SimLink::new(), Timing::Degraded);
    d.write_byte(0x0f);
    let log = &d.link().log;
    let mut expected = vec![Event::Low];
    expected.extend(byte_pattern(0x0f, Timing::Degraded));
    assert_eq!(*log, expected);
}

#[test]
fn variant_equivalence_decoded() {
    let colors = [Rgb8 { r: 0x12, g: 0xab, b: 0xff }, Rgb8 { r: 0x01, g: 0x80, b: 0x55 }];
    for timing in [Timing::Standard, Timing::Degraded] {
        let mut d = Ws2812::new(SimLink::new(), timing);
        d.write(&colors).unwrap();
        let trace = &d.link().log[1..];
        let decoded = decode_frame(trace, colors.len());
        assert_eq!(decoded.as_slice(), colors.as_slice());
    }
}
