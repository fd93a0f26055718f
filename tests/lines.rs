use pico_probe::context::{Context, Wait, PIN_NRESET, PIN_SWCLK, PIN_SWDIO};
use pico_probe::dispatch::{reply_length, route, Action, DapVersion, ReportKind};
use pico_probe::line::{Hardware, Line, PinMode};
use pico_probe::winusb::{u16_high, u16_low, ControlReply, MicrosoftDescriptors, VENDOR_ID};

#[derive(Debug, Clone, PartialEq)]
enum Ev {
    Mode(Line, PinMode),
    Level(Line, bool),
    Sample(Line, bool),
    Delay(u64),
}

struct Recorder {
    events: Vec<Ev>,
    high: Vec<Line>,
}

impl Hardware for Recorder {
    fn set_mode(&mut self, line: Line, mode: PinMode) {
        self.events.push(Ev::Mode(line, mode));
    }
    fn set_level(&mut self, line: Line, high: bool) {
        self.events.push(Ev::Level(line, high));
    }
    fn is_high(&mut self, line: Line) -> bool {
        let b = self.high.contains(&line);
        self.events.push(Ev::Sample(line, b));
        b
    }
    fn delay_cycles(&mut self, cycles: u64) {
        self.events.push(Ev::Delay(cycles));
    }
}

fn context(high: Vec<Line>) -> Context<Recorder> {
    Context::from_pins(Recorder { events: Vec::new(), high }, 125_000_000)
}

#[test]
fn pins_drives_reset_low_and_samples() {
    let mut ctx = context(vec![Line::Data]);
    let r = ctx.pins(PIN_SWCLK, PIN_SWCLK | PIN_NRESET, 10);
    assert_eq!(r, PIN_SWDIO);
    assert_eq!(
        ctx.hw.events,
        vec![
            Ev::Mode(Line::Clock, PinMode::Output),
            Ev::Level(Line::Clock, true),
            Ev::Mode(Line::Reset, PinMode::Output),
            Ev::Level(Line::Reset, false),
            Ev::Delay(1250),
            Ev::Mode(Line::Clock, PinMode::Input),
            Ev::Mode(Line::Data, PinMode::Input),
            Ev::Mode(Line::Reset, PinMode::Input),
            Ev::Sample(Line::Clock, false),
            Ev::Sample(Line::Data, true),
            Ev::Sample(Line::Reset, false),
        ]
    );
}

#[test]
fn pins_releases_reset_when_driven_high() {
    let mut ctx = context(vec![Line::Clock, Line::Reset]);
    let r = ctx.pins(PIN_NRESET | PIN_SWDIO, PIN_NRESET | PIN_SWDIO, 0);
    assert_eq!(r, PIN_SWCLK | PIN_NRESET);
    assert_eq!(ctx.hw.events[0], Ev::Mode(Line::Data, PinMode::Output));
    assert_eq!(ctx.hw.events[1], Ev::Level(Line::Data, true));
    assert_eq!(ctx.hw.events[2], Ev::Mode(Line::Reset, PinMode::Disabled));
    assert_eq!(ctx.hw.events[3], Ev::Delay(0));
    assert_eq!((ctx.swclk, ctx.swdio, ctx.nreset), (PinMode::Input, PinMode::Input, PinMode::Input));
}

#[test]
fn sequence_clocks_bits_lsb_first_and_stops_at_count() {
    let mut ctx = context(vec![]);
    ctx.sequence(&[0b0000_0101, 0xff], 10);
    let levels: Vec<bool> = ctx
        .hw
        .events
        .iter()
        .filter_map(|e| match e {
            Ev::Level(Line::Data, b) => Some(*b),
            _ => None,
        })
        .collect();
    assert_eq!(levels, vec![true, false, true, false, false, false, false, false, true, true]);
    assert_eq!(ctx.hw.events.len(), 2 + 10 * 5 + 2);
    assert_eq!(ctx.hw.events[4], Ev::Delay(625));
    assert_eq!(*ctx.hw.events.last().unwrap(), Ev::Mode(Line::Data, PinMode::Input));
}

#[test]
fn sequence_never_reads_past_the_data() {
    let mut ctx = context(vec![]);
    ctx.sequence(&[0xff], 100);
    assert_eq!(ctx.hw.events.len(), 2 + 8 * 5 + 2);
}

#[test]
fn high_impedance_disables_all_lines() {
    let mut ctx = context(vec![]);
    ctx.high_impedance_mode();
    assert_eq!((ctx.swclk, ctx.swdio, ctx.nreset), (PinMode::Disabled, PinMode::Disabled, PinMode::Disabled));
    assert_eq!(ctx.hw.events.len(), 3);
}

#[test]
fn wait_converts_microseconds() {
    let w = Wait::new(125_000_000);
    assert_eq!(w.cycles_per_us, 125);
    assert_eq!(w.cycles(8), 1000);
    assert_eq!(Wait::new(4_000_000_000).cycles(u32::MAX), 4000 * u32::MAX as u64);
}

#[test]
fn u16_bytes() {
    assert_eq!(u16_low(168), 168);
    assert_eq!(u16_high(168), 0);
    assert_eq!(u16_low(0x1234), 0x34);
    assert_eq!(u16_high(0x1234), 0x12);
}

#[test]
fn vendor_control_requests() {
    let d = MicrosoftDescriptors;
    assert_eq!(d.control_in(true, VENDOR_ID, 7), ControlReply::SendDescriptor);
    assert_eq!(d.control_in(true, VENDOR_ID, 6), ControlReply::Reject);
    assert_eq!(d.control_in(true, 0x41, 7), ControlReply::Ignore);
    assert_eq!(d.control_in(false, VENDOR_ID, 7), ControlReply::Ignore);
    let cap = d.bos_capability();
    assert_eq!(cap.len(), 25);
    assert_eq!(&cap[21..], &[168, 0, 0x42, 0]);
}

#[test]
fn reports_are_routed_by_version() {
    assert_eq!(route(ReportKind::Dap1Command), Action::Process(DapVersion::V1));
    assert_eq!(route(ReportKind::Dap2Command), Action::Process(DapVersion::V2));
    assert_eq!(route(ReportKind::Suspend), Action::Suspend);
    assert_eq!(reply_length(0), None);
    assert_eq!(reply_length(12), Some(12));
    assert_eq!(reply_length(64), Some(64));
    assert_eq!(reply_length(65), Some(64));
}
