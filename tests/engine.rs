use pico_probe::context::Context;
use pico_probe::line::{Hardware, Line, PinMode};
use pico_probe::protocol::{APnDP, DPRegister, DataPhase, SwdError, TurnaroundPeriod};
use pico_probe::swd::{Jtag, Swd};

#[derive(Debug, Clone, PartialEq)]
enum Ev {
    Mode(Line, PinMode),
    Level(Line, bool),
    Sample(Line, bool),
    Delay(u64),
}

/// A target that answers reads from a script and records every action.
struct Scripted {
    events: Vec<Ev>,
    script: Vec<bool>,
    pos: usize,
}

impl Scripted {
    fn new(script: Vec<bool>) -> Self {
        Scripted { events: Vec::new(), script, pos: 0 }
    }
}

impl Hardware for Scripted {
    fn set_mode(&mut self, line: Line, mode: PinMode) {
        self.events.push(Ev::Mode(line, mode));
    }
    fn set_level(&mut self, line: Line, high: bool) {
        self.events.push(Ev::Level(line, high));
    }
    fn is_high(&mut self, line: Line) -> bool {
        let b = if line == Line::Data && self.pos < self.script.len() {
            self.pos += 1;
            self.script[self.pos - 1]
        } else {
            false
        };
        self.events.push(Ev::Sample(line, b));
        b
    }
    fn delay_cycles(&mut self, cycles: u64) {
        self.events.push(Ev::Delay(cycles));
    }
}

fn bits(v: u32, n: usize) -> Vec<bool> {
    (0..n).map(|i| (v >> i) & 1 == 1).collect()
}

/// The bits clocked out on the data line, in order.
fn clocked_out(events: &[Ev]) -> Vec<bool> {
    let mut data = false;
    let mut out = Vec::new();
    for (i, e) in events.iter().enumerate() {
        match e {
            Ev::Level(Line::Data, b) => data = *b,
            Ev::Level(Line::Clock, true) => {
                if i >= 1 && !matches!(events[i - 1], Ev::Sample(..)) {
                    out.push(data);
                }
            }
            _ => {}
        }
    }
    out
}

fn ack_bits(code: u32, extra: usize) -> Vec<bool> {
    let mut s = vec![false];
    s.extend(bits(code, 3));
    for _ in 0..extra {
        s.push(false);
    }
    s
}

fn read_script(code: u32, data: u32, parity: bool) -> Vec<bool> {
    let mut s = ack_bits(code, 0);
    s.extend(bits(data, 32));
    s.push(parity);
    s.extend(vec![false; 8]);
    s
}

fn engine(script: Vec<bool>) -> Swd<Scripted> {
    Swd::new(Context::from_pins(Scripted::new(script), 125_000_000))
}

#[test]
fn read_returns_word_with_matching_parity() {
    // 0xDEADBEEF has 24 bits set: its parity bit is low
    assert_eq!(0xDEADBEEFu32.count_ones(), 24);
    let mut swd = engine(read_script(0b001, 0xDEADBEEF, false));
    assert_eq!(swd.read_inner(APnDP::DP, DPRegister::DPIDR), Ok(0xDEADBEEF));
    let out = clocked_out(&swd.0.hw.events);
    assert_eq!(out[..8].to_vec(), bits(0b1010_0101, 8));
    // drives the data line low at the end
    assert_eq!(*out.last().unwrap(), false);
    assert_eq!(swd.0.hw.pos, 45);
}

#[test]
fn read_reports_bad_parity_after_ok_ack() {
    let mut swd = engine(read_script(0b001, 0xDEADBEEF, true));
    assert_eq!(swd.read_inner(APnDP::DP, DPRegister::DPIDR), Err(SwdError::BadParity));
}

#[test]
fn read_detects_each_flipped_bit() {
    for k in 0..32 {
        let v = 0x1234_5678u32;
        let parity = v.count_ones() % 2 == 1;
        let mut swd = engine(read_script(0b001, v ^ (1 << k), parity));
        assert_eq!(swd.read_inner(APnDP::AP, DPRegister::SELECT), Err(SwdError::BadParity));
    }
}

#[test]
fn read_of_odd_word_with_parity_set() {
    let mut swd = engine(read_script(0b001, 0x8000_0003, true));
    assert_eq!(swd.read_inner(APnDP::DP, DPRegister::DPIDR), Ok(0x8000_0003));
}

#[test]
fn read_of_zero_word_with_even_parity() {
    let mut swd = engine(read_script(0b001, 0, false));
    assert_eq!(swd.read_inner(APnDP::DP, DPRegister::RDBUFF), Ok(0));
}

fn check_ack_flush(code: u32, expected: SwdError) {
    let mut swd = engine(ack_bits(code, 0));
    assert_eq!(swd.read_inner(APnDP::DP, DPRegister::CTRLSTAT), Err(expected));
    let events = &swd.0.hw.events;
    let out = clocked_out(events);
    assert_eq!(out.len(), 8 + 4);
    assert_eq!(out[8..].to_vec(), vec![false; 4]);
    assert_eq!(*events.last().unwrap(), Ev::Mode(Line::Data, PinMode::Input));
    assert_eq!(swd.0.swdio, PinMode::Input);
    assert_eq!(swd.0.hw.pos, 4);
}

#[test]
fn wait_ack_is_flushed() {
    check_ack_flush(0b010, SwdError::AckWait);
}

#[test]
fn fault_ack_is_flushed() {
    check_ack_flush(0b100, SwdError::AckFault);
}

#[test]
fn no_response_ack_is_flushed() {
    check_ack_flush(0b111, SwdError::AckProtocol);
}

#[test]
fn unknown_ack_is_flushed() {
    check_ack_flush(0b000, SwdError::AckUnknown(0));
}

#[test]
fn write_sends_data_and_parity() {
    let mut swd = engine(ack_bits(0b001, 1));
    assert_eq!(swd.write_inner(APnDP::AP, DPRegister::RDBUFF, 0xDEADBEEF), Ok(()));
    let out = clocked_out(&swd.0.hw.events);
    // request: start, AP, write, A2=1, A3=1, parity 1, stop, park
    assert_eq!(out[..8].to_vec(), bits(0b1011_1011, 8));
    assert_eq!(out[8..40].to_vec(), bits(0xDEADBEEF, 32));
    assert_eq!(out[40], false);
    assert_eq!(out[41..].to_vec(), vec![false; 8]);
}

#[test]
fn write_with_fault_ack_is_flushed() {
    let mut swd = engine(ack_bits(0b100, 1));
    assert_eq!(swd.write_inner(APnDP::DP, DPRegister::SELECT, 7), Err(SwdError::AckFault));
    let out = clocked_out(&swd.0.hw.events);
    assert_eq!(out[8..].to_vec(), vec![false; 4]);
    assert_eq!(swd.0.swdio, PinMode::Input);
}

#[test]
fn written_word_reads_back() {
    for v in [0u32, 1, 0xDEADBEEF, 0xFFFF_FFFF, 0x8000_0001] {
        let mut writer = engine(ack_bits(0b001, 1));
        writer.write_inner(APnDP::AP, DPRegister::DPIDR, v).unwrap();
        let out = clocked_out(&writer.0.hw.events);
        let mut script = ack_bits(0b001, 0);
        script.extend(out[8..41].to_vec());
        script.extend(vec![false; 8]);
        let mut reader = engine(script);
        assert_eq!(reader.read_inner(APnDP::AP, DPRegister::DPIDR), Ok(v));
    }
}

#[test]
fn clock_requests_at_or_above_cpu_frequency_are_rejected() {
    let mut ctx = Context::from_pins(Scripted::new(vec![]), 125_000_000);
    let before = ctx.half_period_ticks;
    assert!(!ctx.set_clock(200_000_000));
    assert!(!ctx.set_clock(125_000_000));
    assert_eq!(ctx.half_period_ticks, before);
    assert_eq!(ctx.max_frequency, 100_000);
    assert!(ctx.set_clock(100_000));
    assert_eq!(ctx.half_period_ticks, 625);
    assert!(ctx.set_clock(1_000_000));
    assert_eq!(ctx.half_period_ticks, 62);
    assert!(!ctx.set_clock(0));
    assert_eq!(ctx.half_period_ticks, 62);
}

#[test]
fn default_timing_from_cpu_frequency() {
    let ctx = Context::from_pins(Scripted::new(vec![]), 125_000_000);
    assert_eq!(ctx.max_frequency, 100_000);
    assert_eq!(ctx.cycles_per_us, 125);
    assert_eq!(ctx.half_period_ticks, 625);
}

#[test]
fn only_single_cycle_turnaround_without_data_phase_is_accepted() {
    let mut swd = engine(vec![]);
    let n = swd.0.hw.events.len();
    assert!(swd.configure(TurnaroundPeriod::Cycles1, DataPhase::NoDataPhase));
    assert!(!swd.configure(TurnaroundPeriod::Cycles2, DataPhase::NoDataPhase));
    assert!(!swd.configure(TurnaroundPeriod::Cycles4, DataPhase::NoDataPhase));
    assert!(!swd.configure(TurnaroundPeriod::Cycles1, DataPhase::AlwaysDataPhase));
    assert_eq!(swd.0.hw.events.len(), n);
}

#[test]
fn handoff_between_swd_and_jtag_floats_lines() {
    let ctx = Context::from_pins(Scripted::new(vec![]), 125_000_000);
    let swd = Swd::new(ctx);
    assert_eq!(swd.0.swdio, PinMode::Output);
    assert_eq!(swd.0.swclk, PinMode::Output);
    let ctx = swd.release();
    assert_eq!(ctx.swdio, PinMode::Input);
    assert_eq!(ctx.swclk, PinMode::Input);
    let mut jtag = Jtag::new(ctx);
    assert!(!Jtag::<Scripted>::available());
    assert!(Swd::<Scripted>::available());
    let mut rx = vec![1u8, 2];
    assert_eq!(jtag.sequences(&[0xff], &mut rx), 0);
    assert_eq!(rx, vec![1u8, 2]);
    assert!(jtag.set_clock(1_000_000));
    let ctx = jtag.release();
    assert_eq!(ctx.half_period_ticks, 62);
    assert_eq!(ctx.swdio, PinMode::Input);
}

#[test]
fn swd_write_sequence_keeps_lines_driven() {
    let mut swd = engine(vec![]);
    let n = swd.0.hw.events.len();
    swd.write_sequence(12, &[0xff, 0x0a]);
    let out = clocked_out(&swd.0.hw.events[n..]);
    let mut expected = vec![true; 8];
    expected.extend(vec![false, true, false, true]);
    assert_eq!(out, expected);
    assert_eq!(swd.0.swdio, PinMode::Output);
    assert_eq!(swd.0.swclk, PinMode::Output);
}

#[test]
fn swd_read_sequence_packs_bits_lsb_first() {
    let mut script = bits(0xa5, 8);
    script.extend(vec![true, true, false]);
    let mut swd = engine(script);
    let bytes = swd.read_sequence(11);
    assert_eq!(bytes, vec![0xa5, 0x03]);
    assert_eq!(swd.0.hw.pos, 11);
    assert_eq!(swd.0.swdio, PinMode::Input);
    assert_eq!(swd.read_sequence(0), Vec::<u8>::new());
}
