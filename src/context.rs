//! The transport context: the three signal lines, the timing derived from
//! the processor clock, and the raw line-level operations.
use vstd::prelude::*;
use crate::line::{Hardware, Line, PinMode, Op, out_ops, in_ops, outs, extends};

verus! {

/// Signalling frequency a context starts with, in hertz.
pub const DEFAULT_FREQUENCY: u32 = 100_000;

/// Bit of the clock line in a line mask.
pub const PIN_SWCLK: u8 = 0x01;

/// Bit of the data line in a line mask.
pub const PIN_SWDIO: u8 = 0x02;

/// Bit of the reset line in a line mask.
pub const PIN_NRESET: u8 = 0x80;

/// Cycles to wait for each half of a bit at signalling frequency `freq`.
pub open spec fn half_period(cpu: u32, freq: u32) -> u32
    recommends
        freq > 0,
{
    (cpu / freq / 2) as u32
}

/// Operations that drive the lines selected by `mask` to the levels in
/// `output`. The reset line is open drain: high lets it float, low drives it.
pub open spec fn drive_ops(output: u8, mask: u8) -> Seq<Op> {
    (if mask & PIN_SWCLK != 0 {
        seq![Op::Mode(Line::Clock, PinMode::Output), Op::Level(Line::Clock, output & PIN_SWCLK != 0)]
    } else {
        seq![]
    }) + (if mask & PIN_SWDIO != 0 {
        seq![Op::Mode(Line::Data, PinMode::Output), Op::Level(Line::Data, output & PIN_SWDIO != 0)]
    } else {
        seq![]
    }) + (if mask & PIN_NRESET != 0 {
        if output & PIN_NRESET != 0 {
            seq![Op::Mode(Line::Reset, PinMode::Disabled)]
        } else {
            seq![Op::Mode(Line::Reset, PinMode::Output), Op::Level(Line::Reset, false)]
        }
    } else {
        seq![]
    })
}

/// The line mask that reports the three sampled levels.
pub open spec fn pins_value(clock: bool, data: bool, reset: bool) -> int {
    (if clock { 1int } else { 0int }) + (if data { 2int } else { 0int }) + (if reset {
        0x80int
    } else {
        0int
    })
}

/// The first `n` bits of `data`, least significant bit of each byte first,
/// and no more bits than `data` holds.
pub open spec fn sequence_bits(data: Seq<u8>, n: nat) -> Seq<bool> {
    let total = if n < 8 * data.len() { n } else { 8 * data.len() };
    Seq::new(total, |i: int| (data[i / 8] >> ((i % 8) as u8)) & 1 == 1)
}

/// Owns the three signal lines and the timing state.
pub struct Context<H> {
    pub max_frequency: u32,
    pub cpu_frequency: u32,
    pub cycles_per_us: u32,
    pub half_period_ticks: u32,
    pub hw: H,
    pub swclk: PinMode,
    pub swdio: PinMode,
    pub nreset: PinMode,
    /// Every operation issued to the hardware so far.
    pub ops: Ghost<Seq<Op>>,
    /// Every level sampled so far.
    pub samples: Ghost<Seq<bool>>,
}

impl<H: Hardware> Context<H> {
    /// The timing state: maximum frequency, processor frequency, cycles per
    /// microsecond, half-period.
    pub open spec fn timing(&self) -> (u32, u32, u32, u32) {
        (self.max_frequency, self.cpu_frequency, self.cycles_per_us, self.half_period_ticks)
    }

    /// Modes of the clock, data and reset lines.
    pub open spec fn modes(&self) -> (PinMode, PinMode, PinMode) {
        (self.swclk, self.swdio, self.nreset)
    }

    pub open spec fn mode_of(&self, line: Line) -> PinMode {
        match line {
            Line::Clock => self.swclk,
            Line::Data => self.swdio,
            Line::Reset => self.nreset,
        }
    }

    /// Takes over lines that were handed over as floating inputs, at the
    /// default signalling frequency.
    pub fn from_pins(hw: H, cpu_frequency: u32) -> (r: Self)
        ensures
            r.max_frequency == DEFAULT_FREQUENCY,
            r.cpu_frequency == cpu_frequency,
            r.cycles_per_us == cpu_frequency / 1_000_000,
            r.half_period_ticks == half_period(cpu_frequency, DEFAULT_FREQUENCY),
            r.hw == hw,
            r.modes() == (PinMode::Input, PinMode::Input, PinMode::Input),
            r.ops@ == Seq::<Op>::empty(),
            r.samples@ == Seq::<bool>::empty(),
    {
        let max_frequency = DEFAULT_FREQUENCY;
        Context {
            max_frequency,
            cpu_frequency,
            cycles_per_us: cpu_frequency / 1_000_000,
            half_period_ticks: cpu_frequency / max_frequency / 2,
            hw,
            swclk: PinMode::Input,
            swdio: PinMode::Input,
            nreset: PinMode::Input,
            ops: Ghost(Seq::empty()),
            samples: Ghost(Seq::empty()),
        }
    }

    pub(crate) fn mode(&mut self, line: Line, mode: PinMode)
        ensures
            final(self).ops@ == old(self).ops@.push(Op::Mode(line, mode)),
            final(self).samples@ == old(self).samples@,
            final(self).timing() == old(self).timing(),
            final(self).swclk == (if line == Line::Clock { mode } else { old(self).swclk }),
            final(self).swdio == (if line == Line::Data { mode } else { old(self).swdio }),
            final(self).nreset == (if line == Line::Reset { mode } else { old(self).nreset }),
    {
        self.hw.set_mode(line, mode);
        match line {
            Line::Clock => self.swclk = mode,
            Line::Data => self.swdio = mode,
            Line::Reset => self.nreset = mode,
        }
        self.ops = Ghost(self.ops@.push(Op::Mode(line, mode)));
    }

    pub(crate) fn level(&mut self, line: Line, high: bool)
        ensures
            final(self).ops@ == old(self).ops@.push(Op::Level(line, high)),
            final(self).samples@ == old(self).samples@,
            final(self).timing() == old(self).timing(),
            final(self).modes() == old(self).modes(),
    {
        self.hw.set_level(line, high);
        self.ops = Ghost(self.ops@.push(Op::Level(line, high)));
    }

    pub(crate) fn sample(&mut self, line: Line) -> (r: bool)
        ensures
            final(self).ops@ == old(self).ops@.push(Op::Sample(line, r)),
            final(self).samples@ == old(self).samples@.push(r),
            final(self).timing() == old(self).timing(),
            final(self).modes() == old(self).modes(),
    {
        let r = self.hw.is_high(line);
        self.ops = Ghost(self.ops@.push(Op::Sample(line, r)));
        self.samples = Ghost(self.samples@.push(r));
        r
    }

    pub(crate) fn delay(&mut self, cycles: u64)
        ensures
            final(self).ops@ == old(self).ops@.push(Op::Delay(cycles)),
            final(self).samples@ == old(self).samples@,
            final(self).timing() == old(self).timing(),
            final(self).modes() == old(self).modes(),
    {
        self.hw.delay_cycles(cycles);
        self.ops = Ghost(self.ops@.push(Op::Delay(cycles)));
    }

    /// Clocks one bit out on the data line.
    pub(crate) fn write_bit(&mut self, b: bool)
        ensures
            final(self).ops@ == old(self).ops@ + out_ops(old(self).half_period_ticks, b),
            final(self).samples@ == old(self).samples@,
            final(self).timing() == old(self).timing(),
            final(self).modes() == old(self).modes(),
    {
        let half = self.half_period_ticks as u64;
        self.level(Line::Data, b);
        self.level(Line::Clock, false);
        self.delay(half);
        self.level(Line::Clock, true);
        self.delay(half);
        assert(self.ops@ =~= old(self).ops@ + out_ops(old(self).half_period_ticks, b));
    }

    /// Clocks one bit in from the data line.
    pub(crate) fn read_bit(&mut self) -> (r: bool)
        ensures
            final(self).ops@ == old(self).ops@ + in_ops(old(self).half_period_ticks, r),
            final(self).samples@ == old(self).samples@.push(r),
            final(self).timing() == old(self).timing(),
            final(self).modes() == old(self).modes(),
    {
        let half = self.half_period_ticks as u64;
        self.level(Line::Clock, false);
        self.delay(half);
        let r = self.sample(Line::Data);
        self.level(Line::Clock, true);
        self.delay(half);
        assert(self.ops@ =~= old(self).ops@ + in_ops(old(self).half_period_ticks, r));
        r
    }

    /// Disables all three lines.
    pub fn high_impedance_mode(&mut self)
        ensures
            final(self).ops@ == old(self).ops@ + seq![
                Op::Mode(Line::Data, PinMode::Disabled),
                Op::Mode(Line::Clock, PinMode::Disabled),
                Op::Mode(Line::Reset, PinMode::Disabled),
            ],
            final(self).samples@ == old(self).samples@,
            final(self).timing() == old(self).timing(),
            final(self).modes() == (PinMode::Disabled, PinMode::Disabled, PinMode::Disabled),
    {
        self.mode(Line::Data, PinMode::Disabled);
        self.mode(Line::Clock, PinMode::Disabled);
        self.mode(Line::Reset, PinMode::Disabled);
        assert(self.ops@ =~= old(self).ops@ + seq![
            Op::Mode(Line::Data, PinMode::Disabled),
            Op::Mode(Line::Clock, PinMode::Disabled),
            Op::Mode(Line::Reset, PinMode::Disabled),
        ]);
    }

    /// Accepts a signalling frequency that is positive and below the
    /// processor's, and derives the half-period from it; any other request
    /// leaves the context as it was.
    pub fn set_clock(&mut self, max_frequency: u32) -> (r: bool)
        ensures
            r == (0 < max_frequency && max_frequency < old(self).cpu_frequency),
            r ==> final(self).max_frequency == max_frequency,
            r ==> final(self).half_period_ticks == half_period(
                old(self).cpu_frequency,
                max_frequency,
            ),
            !r ==> final(self).max_frequency == old(self).max_frequency,
            !r ==> final(self).half_period_ticks == old(self).half_period_ticks,
            final(self).cpu_frequency == old(self).cpu_frequency,
            final(self).cycles_per_us == old(self).cycles_per_us,
            final(self).hw == old(self).hw,
            final(self).modes() == old(self).modes(),
            final(self).ops@ == old(self).ops@,
            final(self).samples@ == old(self).samples@,
    {
        if 0 < max_frequency && max_frequency < self.cpu_frequency {
            self.max_frequency = max_frequency;
            self.half_period_ticks = self.cpu_frequency / self.max_frequency / 2;
            true
        } else {
            false
        }
    }

    fn drive(&mut self, output: u8, mask: u8)
        ensures
            final(self).ops@ == old(self).ops@ + drive_ops(output, mask),
            final(self).samples@ == old(self).samples@,
            final(self).timing() == old(self).timing(),
    {
        if mask & PIN_SWCLK != 0 {
            self.mode(Line::Clock, PinMode::Output);
            self.level(Line::Clock, output & PIN_SWCLK != 0);
        }
        if mask & PIN_SWDIO != 0 {
            self.mode(Line::Data, PinMode::Output);
            self.level(Line::Data, output & PIN_SWDIO != 0);
        }
        if mask & PIN_NRESET != 0 {
            if output & PIN_NRESET != 0 {
                self.mode(Line::Reset, PinMode::Disabled);
            } else {
                self.mode(Line::Reset, PinMode::Output);
                self.level(Line::Reset, false);
            }
        }
        assert(self.ops@ =~= old(self).ops@ + drive_ops(output, mask));
    }

    /// Drives the lines selected by `mask` to the levels in `output` (the
    /// reset line as open drain), waits `wait_us` microseconds, floats all
    /// three lines and reports the levels they then show.
    pub fn pins(&mut self, output: u8, mask: u8, wait_us: u32) -> (r: u8)
        ensures
            ({
                let s = old(self).samples@.len() as int;
                let f = final(self).samples@;
                &&& extends(old(self).samples@, f)
                &&& f.len() == s + 3
                &&& final(self).ops@ == old(self).ops@ + drive_ops(output, mask) + seq![
                    Op::Delay((old(self).cycles_per_us as u64 * wait_us as u64) as u64),
                    Op::Mode(Line::Clock, PinMode::Input),
                    Op::Mode(Line::Data, PinMode::Input),
                    Op::Mode(Line::Reset, PinMode::Input),
                    Op::Sample(Line::Clock, f[s]),
                    Op::Sample(Line::Data, f[s + 1]),
                    Op::Sample(Line::Reset, f[s + 2]),
                ]
                &&& r as int == pins_value(f[s], f[s + 1], f[s + 2])
            }),
            final(self).timing() == old(self).timing(),
            final(self).modes() == (PinMode::Input, PinMode::Input, PinMode::Input),
    {
        self.drive(output, mask);
        let per_us = self.cycles_per_us as u64;
        let wait = wait_us as u64;
        assert(per_us * wait <= 0xffff_ffff_ffff_ffff) by (nonlinear_arith)
            requires
                per_us <= 0xffff_ffff,
                wait <= 0xffff_ffff,
        ;
        let cycles = per_us * wait;
        self.delay(cycles);
        self.mode(Line::Clock, PinMode::Input);
        self.mode(Line::Data, PinMode::Input);
        self.mode(Line::Reset, PinMode::Input);
        let clock = self.sample(Line::Clock);
        let data = self.sample(Line::Data);
        let reset = self.sample(Line::Reset);
        let mut ret: u8 = 0;
        if clock {
            ret = ret + PIN_SWCLK;
        }
        if data {
            ret = ret + PIN_SWDIO;
        }
        if reset {
            ret = ret + PIN_NRESET;
        }
        let ghost s = old(self).samples@.len() as int;
        assert(self.samples@.subrange(0, s) =~= old(self).samples@);
        assert(self.ops@ =~= old(self).ops@ + drive_ops(output, mask) + seq![
            Op::Delay((old(self).cycles_per_us as u64 * wait_us as u64) as u64),
            Op::Mode(Line::Clock, PinMode::Input),
            Op::Mode(Line::Data, PinMode::Input),
            Op::Mode(Line::Reset, PinMode::Input),
            Op::Sample(Line::Clock, self.samples@[s]),
            Op::Sample(Line::Data, self.samples@[s + 1]),
            Op::Sample(Line::Reset, self.samples@[s + 2]),
        ]);
        ret
    }

    /// Clocks out the first `bits` bits of `data`, least significant bit of
    /// each byte first, then floats the clock and data lines.
    pub fn sequence(&mut self, data: &[u8], bits: usize)
        ensures
            final(self).ops@ == old(self).ops@ + seq![
                Op::Mode(Line::Data, PinMode::Output),
                Op::Mode(Line::Clock, PinMode::Output),
            ] + outs(old(self).half_period_ticks, sequence_bits(data@, bits as nat)) + seq![
                Op::Mode(Line::Clock, PinMode::Input),
                Op::Mode(Line::Data, PinMode::Input),
            ],
            final(self).samples@ == old(self).samples@,
            final(self).timing() == old(self).timing(),
            final(self).modes() == (PinMode::Input, PinMode::Input, old(self).nreset),
    {
        self.mode(Line::Data, PinMode::Output);
        self.mode(Line::Clock, PinMode::Output);
        self.clock_out(data, bits);
        let ghost half = self.half_period_ticks;
        let ghost bs = sequence_bits(data@, bits as nat);
        self.mode(Line::Clock, PinMode::Input);
        self.mode(Line::Data, PinMode::Input);
        assert(self.ops@ =~= old(self).ops@ + seq![
            Op::Mode(Line::Data, PinMode::Output),
            Op::Mode(Line::Clock, PinMode::Output),
        ] + outs(half, bs) + seq![
            Op::Mode(Line::Clock, PinMode::Input),
            Op::Mode(Line::Data, PinMode::Input),
        ]);
    }

    /// Clocks out the first `bits` bits of `data`, least significant bit of
    /// each byte first, leaving the line modes as they are.
    pub(crate) fn clock_out(&mut self, data: &[u8], bits: usize)
        ensures
            final(self).ops@ == old(self).ops@ + outs(
                old(self).half_period_ticks,
                sequence_bits(data@, bits as nat),
            ),
            final(self).samples@ == old(self).samples@,
            final(self).timing() == old(self).timing(),
            final(self).modes() == old(self).modes(),
    {
        let ghost half = self.half_period_ticks;
        let ghost bs = sequence_bits(data@, bits as nat);
        let ghost head = self.ops@;
        let total: usize = if bits / 8 < data.len() {
            bits
        } else {
            data.len() * 8
        };
        assert(total == bs.len()) by (nonlinear_arith)
            requires
                total == (if bits / 8 < data@.len() { bits as int } else { data@.len() * 8 as int }),
                bs.len() == (if bits < 8 * data@.len() { bits as int } else { 8 * data@.len() as int }),
        ;
        let mut i: usize = 0;
        while i < total
            invariant
                i <= total,
                total == bs.len(),
                bs == sequence_bits(data@, bits as nat),
                half == self.half_period_ticks,
                self.ops@ == head + outs(half, bs.take(i as int)),
                self.samples@ == old(self).samples@,
                self.timing() == old(self).timing(),
                self.modes() == old(self).modes(),
            decreases total - i,
        {
            assert(i / 8 < data@.len()) by (nonlinear_arith)
                requires
                    i < total,
                    total <= 8 * data@.len(),
            ;
            let byte = data[i / 8];
            let bit = (byte >> ((i % 8) as u8)) & 1 == 1;
            assert(bs[i as int] == bit);
            self.write_bit(bit);
            assert(bs.take(i + 1).drop_last() =~= bs.take(i as int));
            assert(outs(half, bs.take(i + 1)) == outs(half, bs.take(i as int)) + out_ops(half, bit));
            assert(self.ops@ =~= head + outs(half, bs.take(i + 1)));
            i = i + 1;
        }
        assert(bs.take(total as int) =~= bs);
    }
}

/// Converts microseconds into processor cycles for busy waits.
pub struct Wait {
    pub cycles_per_us: u32,
}

impl Wait {
    pub fn new(cpu_frequency: u32) -> (r: Self)
        ensures
            r.cycles_per_us == cpu_frequency / 1_000_000,
    {
        Wait { cycles_per_us: cpu_frequency / 1_000_000 }
    }

    /// Processor cycles in `us` microseconds.
    pub fn cycles(&self, us: u32) -> (r: u64)
        ensures
            r == self.cycles_per_us as int * us as int,
    {
        let per_us = self.cycles_per_us as u64;
        let us = us as u64;
        assert(per_us * us <= 0xffff_ffff_ffff_ffff) by (nonlinear_arith)
            requires
                per_us <= 0xffff_ffff,
                us <= 0xffff_ffff,
        ;
        per_us * us
    }
}

/// Indicator lights; the host's status reports change nothing on them.
pub struct Leds;

/// Trace output; not offered by this probe.
pub struct Swo;

} // verus!
