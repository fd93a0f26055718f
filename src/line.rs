//! The three debug signal lines, their modes, and the record of every
//! operation issued to the pin hardware.
use vstd::prelude::*;

verus! {

/// One of the three debug signal lines.
#[derive(PartialEq, Eq, Structural, Clone, Copy, Debug)]
pub enum Line {
    Clock,
    Data,
    Reset,
}

/// Electrical mode of a signal line.
#[derive(PartialEq, Eq, Structural, Clone, Copy, Debug)]
pub enum PinMode {
    /// Push-pull output, driving its level.
    Output,
    /// Floating input, read by the probe.
    Input,
    /// Neither driven nor read.
    Disabled,
}

/// One operation on the pin hardware, as recorded in a transport's history.
#[derive(PartialEq, Eq, Structural, Clone, Copy, Debug)]
pub enum Op {
    /// The line was switched to a mode.
    Mode(Line, PinMode),
    /// An output line was driven high (`true`) or low.
    Level(Line, bool),
    /// An input line was read and showed this level.
    Sample(Line, bool),
    /// A busy wait of this many processor cycles.
    Delay(u64),
}

/// Access to the physical pins and the processor's cycle counter. Each
/// method performs one electrical action and returns at once, except
/// `delay_cycles`, which spins without yielding.
pub trait Hardware {
    fn set_mode(&mut self, line: Line, mode: PinMode);

    fn set_level(&mut self, line: Line, high: bool);

    fn is_high(&mut self, line: Line) -> bool;

    fn delay_cycles(&mut self, cycles: u64);
}

/// Operations that clock one bit out: data set, clock low, wait, clock
/// high, wait.
pub open spec fn out_ops(half: u32, b: bool) -> Seq<Op> {
    seq![
        Op::Level(Line::Data, b),
        Op::Level(Line::Clock, false),
        Op::Delay(half as u64),
        Op::Level(Line::Clock, true),
        Op::Delay(half as u64),
    ]
}

/// Operations that clock one bit in: clock low, wait, sample data, clock
/// high, wait.
pub open spec fn in_ops(half: u32, b: bool) -> Seq<Op> {
    seq![
        Op::Level(Line::Clock, false),
        Op::Delay(half as u64),
        Op::Sample(Line::Data, b),
        Op::Level(Line::Clock, true),
        Op::Delay(half as u64),
    ]
}

/// Clocking out each bit of `bits` in turn.
pub open spec fn outs(half: u32, bits: Seq<bool>) -> Seq<Op>
    decreases bits.len(),
{
    if bits.len() == 0 {
        seq![]
    } else {
        outs(half, bits.drop_last()) + out_ops(half, bits.last())
    }
}

/// Clocking in each bit of `bits` in turn.
pub open spec fn ins(half: u32, bits: Seq<bool>) -> Seq<Op>
    decreases bits.len(),
{
    if bits.len() == 0 {
        seq![]
    } else {
        ins(half, bits.drop_last()) + in_ops(half, bits.last())
    }
}

/// `n` low bits.
pub open spec fn zeros(n: nat) -> Seq<bool> {
    Seq::new(n, |i: int| false)
}

/// `new` starts with `old`.
pub open spec fn extends<T>(old: Seq<T>, new: Seq<T>) -> bool {
    old.len() <= new.len() && new.subrange(0, old.len() as int) == old
}

/// What `new` holds past the length of `old`.
pub open spec fn fresh<T>(old: Seq<T>, new: Seq<T>) -> Seq<T> {
    new.subrange(old.len() as int, new.len() as int)
}

} // verus!
