//! The SWD transaction engine and the JTAG placeholder, each owning the
//! transport context while it is active.
use vstd::prelude::*;
use crate::bits::{
    bits_of, ones, parity, count_ones, lemma_or_bit, lemma_bits_inject, lemma_ones_update,
};
use crate::context::{Context, half_period, sequence_bits};
use crate::line::{Hardware, Line, PinMode, Op, out_ops, in_ops, outs, ins, zeros, extends, fresh};
use crate::protocol::{
    APnDP, RnW, DPRegister, TurnaroundPeriod, DataPhase, SwdError, request_byte, ack_result,
    ack_error, make_request, try_ok,
};

verus! {

/// Operations that switch the data line to output and clock out `req`.
pub open spec fn request_ops(half: u32, req: int) -> Seq<Op> {
    seq![Op::Mode(Line::Data, PinMode::Output)] + outs(half, bits_of(req as u32, 8))
}

/// Operations that float the data line and clock in the bits `s`.
pub open spec fn receive_ops(half: u32, s: Seq<bool>) -> Seq<Op> {
    seq![Op::Mode(Line::Data, PinMode::Input)] + ins(half, s)
}

/// After a non-OK acknowledgment: take the data line, clock four low bits,
/// and float the data line again.
pub open spec fn flush_ops(half: u32) -> Seq<Op> {
    seq![Op::Mode(Line::Data, PinMode::Output)] + outs(half, zeros(4)) + seq![
        Op::Mode(Line::Data, PinMode::Input),
    ]
}

/// The acknowledgment code in the bits after the turnaround bit, least
/// significant first.
pub open spec fn ack_code(s: Seq<bool>) -> u8 {
    ((if s[1] { 1int } else { 0int }) + (if s[2] { 2int } else { 0int }) + (if s[3] {
        4int
    } else {
        0int
    })) as u8
}

/// The word whose 32 bits are `s`.
pub open spec fn word_of(s: Seq<bool>) -> u32 {
    choose|w: u32| bits_of(w, 32) == s
}

/// Outcome of a read, from the levels sampled during it: four for
/// turnaround and acknowledgment, then 32 data bits, the parity bit and
/// eight trailing bits.
pub open spec fn read_result(s: Seq<bool>) -> Result<u32, SwdError> {
    if ack_code(s) != 1 {
        Err(ack_error(ack_code(s)))
    } else if s[36] == (ones(s.subrange(4, 36)) % 2 == 1) {
        Ok(word_of(s.subrange(4, 36)))
    } else {
        Err(SwdError::BadParity)
    }
}

/// Operations of a read with request byte `req`, given the levels sampled.
pub open spec fn read_ops(half: u32, req: int, s: Seq<bool>) -> Seq<Op> {
    request_ops(half, req) + receive_ops(half, s.subrange(0, 4)) + if ack_code(s) != 1 {
        flush_ops(half)
    } else {
        receive_ops(half, s.subrange(4, 36)) + in_ops(half, s[36]) + receive_ops(
            half,
            s.subrange(37, 45),
        ) + seq![Op::Mode(Line::Data, PinMode::Output)] + out_ops(half, false)
    }
}

/// Operations of a write of `data` with request byte `req`, given the five
/// levels sampled around the acknowledgment.
pub open spec fn write_ops(half: u32, req: int, data: u32, s: Seq<bool>) -> Seq<Op> {
    request_ops(half, req) + receive_ops(half, s) + if ack_code(s) != 1 {
        flush_ops(half)
    } else {
        seq![Op::Mode(Line::Data, PinMode::Output)] + outs(half, bits_of(data, 32)) + out_ops(
            half,
            parity(data),
        ) + request_ops(half, 0)
    }
}

/// The SWD engine: holds the transport context while SWD drives the bus.
pub struct Swd<H>(pub Context<H>);

impl<H: Hardware> Swd<H> {
    pub open spec fn half(&self) -> u32 {
        self.0.half_period_ticks
    }

    /// Takes the bus: the data and clock lines become outputs.
    pub fn new(context: Context<H>) -> (r: Self)
        ensures
            r.0.ops@ == context.ops@ + seq![
                Op::Mode(Line::Data, PinMode::Output),
                Op::Mode(Line::Clock, PinMode::Output),
            ],
            r.0.samples@ == context.samples@,
            r.0.timing() == context.timing(),
            r.0.modes() == (PinMode::Output, PinMode::Output, context.nreset),
    {
        let ghost start = context.ops@;
        let mut context = context;
        context.mode(Line::Data, PinMode::Output);
        context.mode(Line::Clock, PinMode::Output);
        assert(context.ops@ =~= start + seq![
            Op::Mode(Line::Data, PinMode::Output),
            Op::Mode(Line::Clock, PinMode::Output),
        ]);
        Swd(context)
    }

    /// Gives the bus back with the clock and data lines floating.
    pub fn release(self) -> (r: Context<H>)
        ensures
            r.ops@ == self.0.ops@ + seq![
                Op::Mode(Line::Clock, PinMode::Input),
                Op::Mode(Line::Data, PinMode::Input),
            ],
            r.samples@ == self.0.samples@,
            r.timing() == self.0.timing(),
            r.modes() == (PinMode::Input, PinMode::Input, self.0.nreset),
    {
        let mut context = self.0;
        context.mode(Line::Clock, PinMode::Input);
        context.mode(Line::Data, PinMode::Input);
        assert(context.ops@ =~= self.0.ops@ + seq![
            Op::Mode(Line::Clock, PinMode::Input),
            Op::Mode(Line::Data, PinMode::Input),
        ]);
        context
    }

    /// Only a one-cycle turnaround without data phase is supported; the
    /// engine is left untouched either way.
    pub fn configure(&mut self, period: TurnaroundPeriod, data_phase: DataPhase) -> (r: bool)
        ensures
            r == (period == TurnaroundPeriod::Cycles1 && data_phase == DataPhase::NoDataPhase),
            *final(self) == *old(self),
    {
        period == TurnaroundPeriod::Cycles1 && data_phase == DataPhase::NoDataPhase
    }

    /// Passes a clock request on to the context.
    pub fn set_clock(&mut self, max_frequency: u32) -> (r: bool)
        ensures
            r == (0 < max_frequency && max_frequency < old(self).0.cpu_frequency),
            r ==> final(self).0.max_frequency == max_frequency,
            r ==> final(self).0.half_period_ticks == half_period(
                old(self).0.cpu_frequency,
                max_frequency,
            ),
            !r ==> final(self).0.timing() == old(self).0.timing(),
            final(self).0.cpu_frequency == old(self).0.cpu_frequency,
            final(self).0.cycles_per_us == old(self).0.cycles_per_us,
            final(self).0.modes() == old(self).0.modes(),
            final(self).0.ops@ == old(self).0.ops@,
            final(self).0.samples@ == old(self).0.samples@,
    {
        self.0.set_clock(max_frequency)
    }

    /// Clocks out the low `n` bits of `v`, least significant first.
    fn send_bits(&mut self, v: u32, n: u32)
        requires
            n <= 32,
        ensures
            final(self).0.ops@ == old(self).0.ops@ + outs(old(self).half(), bits_of(v, n as nat)),
            final(self).0.samples@ == old(self).0.samples@,
            final(self).0.timing() == old(self).0.timing(),
            final(self).0.modes() == old(self).0.modes(),
    {
        let ghost bs = bits_of(v, n as nat);
        let ghost half = self.half();
        let mut i: u32 = 0;
        while i < n
            invariant
                i <= n <= 32,
                bs == bits_of(v, n as nat),
                half == old(self).half(),
                self.0.ops@ == old(self).0.ops@ + outs(half, bs.take(i as int)),
                self.0.samples@ == old(self).0.samples@,
                self.0.timing() == old(self).0.timing(),
                self.0.modes() == old(self).0.modes(),
            decreases n - i,
        {
            let bit = (v >> i) & 1 == 1;
            assert(bs[i as int] == bit);
            self.0.write_bit(bit);
            assert(bs.take(i + 1).drop_last() =~= bs.take(i as int));
            assert(outs(half, bs.take(i + 1)) == outs(half, bs.take(i as int)) + out_ops(half, bit));
            assert(self.0.ops@ =~= old(self).0.ops@ + outs(half, bs.take(i + 1)));
            i = i + 1;
        }
        assert(bs.take(n as int) =~= bs);
    }

    /// Clocks in `n` bits; the result holds them, first one lowest.
    fn receive_bits(&mut self, n: u32) -> (r: u32)
        requires
            n <= 32,
        ensures
            extends(old(self).0.samples@, final(self).0.samples@),
            fresh(old(self).0.samples@, final(self).0.samples@).len() == n,
            bits_of(r, n as nat) == fresh(old(self).0.samples@, final(self).0.samples@),
            final(self).0.ops@ == old(self).0.ops@ + ins(
                old(self).half(),
                fresh(old(self).0.samples@, final(self).0.samples@),
            ),
            final(self).0.timing() == old(self).0.timing(),
            final(self).0.modes() == old(self).0.modes(),
    {
        let ghost half = self.half();
        let ghost start = old(self).0.samples@;
        let mut data: u32 = 0;
        let mut i: u32 = 0;
        assert(start.subrange(0, start.len() as int) =~= start);
        assert forall|j: u32| j < 32 implies (0u32 >> j) & 1 != 1 by {
            assert((0u32 >> j) & 1 == 0) by (bit_vector);
        }
        while i < n
            invariant
                i <= n <= 32,
                half == old(self).half(),
                start == old(self).0.samples@,
                extends(start, self.0.samples@),
                fresh(start, self.0.samples@).len() == i,
                forall|j: u32|
                    j < 32 ==> (((#[trigger] (data >> j)) & 1 == 1) == (j < i && fresh(
                        start,
                        self.0.samples@,
                    )[j as int])),
                self.0.ops@ == old(self).0.ops@ + ins(half, fresh(start, self.0.samples@)),
                self.0.timing() == old(self).0.timing(),
                self.0.modes() == old(self).0.modes(),
            decreases n - i,
        {
            let ghost before = self.0.samples@;
            let ghost prev = data;
            assert(forall|j: u32|
                j < 32 ==> (((#[trigger] (prev >> j)) & 1 == 1) == (j < i && fresh(
                    start,
                    before,
                )[j as int])));
            let bit = self.0.read_bit();
            let x: u32 = if bit { 1 } else { 0 };
            data = data | (x << i);
            let ghost f = fresh(start, self.0.samples@);
            assert(f.drop_last() =~= fresh(start, before));
            assert(f.last() == bit);
            assert(ins(half, f) == ins(half, fresh(start, before)) + in_ops(half, bit));
            assert(self.0.ops@ =~= old(self).0.ops@ + ins(half, f));
            assert(self.0.samples@.subrange(0, start.len() as int) =~= start);
            assert forall|j: u32|
                j < 32 implies (((#[trigger] (data >> j)) & 1 == 1) == (j < i + 1 && f[j as int])) by {
                lemma_or_bit(prev, x, i, j);
                assert(((prev >> j) & 1 == 1) == (j < i && fresh(start, before)[j as int]));
                if j < i {
                    assert(f[j as int] == fresh(start, before)[j as int]);
                }
            }
            i = i + 1;
        }
        let ghost f = fresh(start, self.0.samples@);
        assert(bits_of(data, n as nat) =~= f) by {
            assert forall|j: int| 0 <= j < n implies bits_of(data, n as nat)[j] == f[j] by {
                assert((j as u32) < 32);
            }
        }
        data
    }

    /// Takes the data line and clocks out the eight bits of `byte`.
    fn tx8(&mut self, byte: u8)
        ensures
            final(self).0.ops@ == old(self).0.ops@ + request_ops(old(self).half(), byte as int),
            final(self).0.samples@ == old(self).0.samples@,
            final(self).0.timing() == old(self).0.timing(),
            final(self).0.modes() == (old(self).0.swclk, PinMode::Output, old(self).0.nreset),
    {
        self.0.mode(Line::Data, PinMode::Output);
        self.send_bits(byte as u32, 8);
        assert(self.0.ops@ =~= old(self).0.ops@ + request_ops(old(self).half(), byte as int));
    }

    /// Floats the data line and clocks in `n` bits.
    fn rx(&mut self, n: u32) -> (r: u32)
        requires
            n <= 32,
        ensures
            extends(old(self).0.samples@, final(self).0.samples@),
            fresh(old(self).0.samples@, final(self).0.samples@).len() == n,
            bits_of(r, n as nat) == fresh(old(self).0.samples@, final(self).0.samples@),
            final(self).0.ops@ == old(self).0.ops@ + receive_ops(
                old(self).half(),
                fresh(old(self).0.samples@, final(self).0.samples@),
            ),
            final(self).0.timing() == old(self).0.timing(),
            final(self).0.modes() == (old(self).0.swclk, PinMode::Input, old(self).0.nreset),
    {
        self.0.mode(Line::Data, PinMode::Input);
        let r = self.receive_bits(n);
        assert(self.0.ops@ =~= old(self).0.ops@ + receive_ops(
            old(self).half(),
            fresh(old(self).0.samples@, self.0.samples@),
        ));
        r
    }

    /// Takes the data line, clocks four low bits and floats the data line.
    fn idle_low(&mut self)
        ensures
            final(self).0.ops@ == old(self).0.ops@ + flush_ops(old(self).half()),
            final(self).0.samples@ == old(self).0.samples@,
            final(self).0.timing() == old(self).0.timing(),
            final(self).0.modes() == (old(self).0.swclk, PinMode::Input, old(self).0.nreset),
    {
        self.0.mode(Line::Data, PinMode::Output);
        self.send_bits(0, 4);
        self.0.mode(Line::Data, PinMode::Input);
        assert(bits_of(0, 4) =~= zeros(4)) by {
            assert forall|j: u32| j < 4 implies (0u32 >> j) & 1 == 0 by {
                assert((0u32 >> j) & 1 == 0) by (bit_vector);
            }
            assert forall|j: int| 0 <= j < 4 implies bits_of(0, 4)[j] == zeros(4)[j] by {
                assert((0u32 >> (j as u32)) & 1 == 0);
            }
        }
        assert(self.0.ops@ =~= old(self).0.ops@ + flush_ops(old(self).half()));
    }

    /// Floats the data line and clocks in 32 data bits and the parity bit.
    fn read_data(&mut self) -> (r: (u32, bool))
        ensures
            extends(old(self).0.samples@, final(self).0.samples@),
            fresh(old(self).0.samples@, final(self).0.samples@).len() == 33,
            bits_of(r.0, 32) == fresh(old(self).0.samples@, final(self).0.samples@).subrange(0, 32),
            r.1 == fresh(old(self).0.samples@, final(self).0.samples@)[32],
            final(self).0.ops@ == old(self).0.ops@ + receive_ops(
                old(self).half(),
                fresh(old(self).0.samples@, final(self).0.samples@).subrange(0, 32),
            ) + in_ops(old(self).half(), r.1),
            final(self).0.timing() == old(self).0.timing(),
            final(self).0.modes() == (old(self).0.swclk, PinMode::Input, old(self).0.nreset),
    {
        let data = self.rx(32);
        let ghost mid = self.0.samples@;
        let parity = self.0.read_bit();
        let ghost f = fresh(old(self).0.samples@, self.0.samples@);
        assert(f.subrange(0, 32) =~= fresh(old(self).0.samples@, mid));
        assert(self.0.samples@.subrange(0, old(self).0.samples@.len() as int) =~= old(
            self,
        ).0.samples@);
        (data, parity)
    }

    /// Takes the data line and clocks out the 32 bits of `data`, then `parity`.
    fn send_data(&mut self, data: u32, parity: bool)
        ensures
            final(self).0.ops@ == old(self).0.ops@ + seq![Op::Mode(Line::Data, PinMode::Output)]
                + outs(old(self).half(), bits_of(data, 32)) + out_ops(old(self).half(), parity),
            final(self).0.samples@ == old(self).0.samples@,
            final(self).0.timing() == old(self).0.timing(),
            final(self).0.modes() == (old(self).0.swclk, PinMode::Output, old(self).0.nreset),
    {
        self.0.mode(Line::Data, PinMode::Output);
        self.send_bits(data, 32);
        self.0.write_bit(parity);
        assert(self.0.ops@ =~= old(self).0.ops@ + seq![Op::Mode(Line::Data, PinMode::Output)]
            + outs(old(self).half(), bits_of(data, 32)) + out_ops(old(self).half(), parity));
    }

    /// Takes the data line and clocks out the first `num_bits` bits of
    /// `data`, least significant bit of each byte first.
    pub fn write_sequence(&mut self, num_bits: usize, data: &[u8])
        ensures
            final(self).0.ops@ == old(self).0.ops@ + seq![Op::Mode(Line::Data, PinMode::Output)]
                + outs(old(self).half(), sequence_bits(data@, num_bits as nat)),
            final(self).0.samples@ == old(self).0.samples@,
            final(self).0.timing() == old(self).0.timing(),
            final(self).0.modes() == (old(self).0.swclk, PinMode::Output, old(self).0.nreset),
    {
        self.0.mode(Line::Data, PinMode::Output);
        self.0.clock_out(data, num_bits);
        assert(self.0.ops@ =~= old(self).0.ops@ + seq![Op::Mode(Line::Data, PinMode::Output)]
            + outs(old(self).half(), sequence_bits(data@, num_bits as nat)));
    }

    /// Floats the data line and clocks in `num_bits` bits, packed least
    /// significant bit of each byte first.
    pub fn read_sequence(&mut self, num_bits: usize) -> (r: Vec<u8>)
        ensures
            extends(old(self).0.samples@, final(self).0.samples@),
            r@.len() == (num_bits as int + 7) / 8,
            sequence_bits(r@, num_bits as nat) == fresh(
                old(self).0.samples@,
                final(self).0.samples@,
            ),
            final(self).0.ops@ == old(self).0.ops@ + receive_ops(
                old(self).half(),
                fresh(old(self).0.samples@, final(self).0.samples@),
            ),
            final(self).0.timing() == old(self).0.timing(),
            final(self).0.modes() == (old(self).0.swclk, PinMode::Input, old(self).0.nreset),
    {
        self.0.mode(Line::Data, PinMode::Input);
        let ghost half = self.half();
        let ghost start = self.0.samples@;
        let ghost head = self.0.ops@;
        let mut r: Vec<u8> = Vec::new();
        let mut done: usize = 0;
        assert(start.subrange(0, start.len() as int) =~= start);
        while done < num_bits
            invariant
                done <= num_bits,
                done < num_bits ==> done == 8 * r@.len(),
                done == num_bits ==> r@.len() == (num_bits as int + 7) / 8,
                r@.len() <= (num_bits as int + 7) / 8,
                half == self.half(),
                start == old(self).0.samples@,
                extends(start, self.0.samples@),
                fresh(start, self.0.samples@).len() == done,
                forall|i: int|
                    0 <= i < done ==> (#[trigger] fresh(start, self.0.samples@)[i]) == ((r@[i
                        / 8] >> ((i % 8) as u8)) & 1 == 1),
                self.0.ops@ == head + ins(half, fresh(start, self.0.samples@)),
                self.0.timing() == old(self).0.timing(),
                self.0.modes() == (old(self).0.swclk, PinMode::Input, old(self).0.nreset),
            decreases num_bits - done,
        {
            let n: usize = if num_bits - done >= 8 {
                8
            } else {
                num_bits - done
            };
            let ghost before = self.0.samples@;
            let ghost rb = r@;
            let v = self.receive_bits(n as u32);
            let byte = #[verifier::truncate] (v as u8);
            r.push(byte);
            let ghost f = fresh(start, self.0.samples@);
            let ghost g = fresh(before, self.0.samples@);
            proof {
                assert(self.0.samples@.subrange(0, start.len() as int) =~= start);
                assert(f =~= fresh(start, before) + g);
                assert(ins(half, f) == ins(half, fresh(start, before)) + ins(half, g)) by {
                    lemma_ins_append(half, fresh(start, before), g);
                }
                assert(self.0.ops@ =~= head + ins(half, f));
                assert forall|i: int| 0 <= i < done + n implies (#[trigger] f[i]) == ((r@[i
                    / 8] >> ((i % 8) as u8)) & 1 == 1) by {
                    if i < done {
                        assert(f[i] == fresh(start, before)[i]);
                        assert(r@[i / 8] == rb[i / 8]);
                    } else {
                        let j = i - done;
                        assert(i / 8 == rb.len() && i % 8 == j) by (nonlinear_arith)
                            requires
                                done == 8 * rb.len(),
                                i == done + j,
                                0 <= j < 8,
                        ;
                        assert(g[j] == bits_of(v, n as nat)[j]);
                        lemma_low_byte_bit(v, j);
                    }
                }
            }
            if n < 8 {
                assert(r@.len() == (num_bits as int + 7) / 8) by (nonlinear_arith)
                    requires
                        done == 8 * rb.len(),
                        r@.len() == rb.len() + 1,
                        num_bits == done + n,
                        0 < n < 8,
                ;
            } else {
                assert(done + 8 < num_bits ==> done + 8 == 8 * r@.len());
                assert(done + 8 == num_bits ==> r@.len() == (num_bits as int + 7) / 8) by (
                nonlinear_arith)
                    requires
                        done == 8 * rb.len(),
                        r@.len() == rb.len() + 1,
                ;
            }
            assert(r@.len() <= (num_bits as int + 7) / 8) by (nonlinear_arith)
                requires
                    done == 8 * rb.len(),
                    r@.len() == rb.len() + 1,
                    done < num_bits,
            ;
            done = done + n;
        }
        let ghost f = fresh(start, self.0.samples@);
        assert(sequence_bits(r@, num_bits as nat) =~= f) by {
            assert(num_bits as int <= 8 * r@.len()) by (nonlinear_arith)
                requires
                    r@.len() == (num_bits as int + 7) / 8,
            ;
        }
        assert(self.0.ops@ =~= old(self).0.ops@ + receive_ops(half, f));
        r
    }

    /// Reads a register: request, acknowledgment, then on OK the data and
    /// parity bits and eight trailing bits, after which the data line is
    /// driven low. A non-OK acknowledgment flushes the bus and is returned;
    /// a parity mismatch is reported even after an OK.
    pub fn read_inner(&mut self, apndp: APnDP, a: DPRegister) -> (r: Result<u32, SwdError>)
        ensures
            ({
                let s = fresh(old(self).0.samples@, final(self).0.samples@);
                &&& extends(old(self).0.samples@, final(self).0.samples@)
                &&& s.len() >= 4
                &&& s.len() == if ack_code(s) == 1 { 45nat } else { 4nat }
                &&& final(self).0.ops@ == old(self).0.ops@ + read_ops(
                    old(self).half(),
                    request_byte(apndp, RnW::R, a),
                    s,
                )
                &&& r == read_result(s)
                &&& final(self).0.modes() == (old(self).0.swclk, if ack_code(s) == 1 {
                    PinMode::Output
                } else {
                    PinMode::Input
                }, old(self).0.nreset)
            }),
            final(self).0.timing() == old(self).0.timing(),
    {
        let ghost half = self.half();
        let ghost g0 = self.0.samples@;
        let req = make_request(apndp, RnW::R, a);
        self.tx8(req);
        let ghost o1 = self.0.ops@;
        let raw = self.rx(4);
        let ghost g1 = self.0.samples@;
        let ghost o2 = self.0.ops@;
        let ack = (raw >> 1) & 0b111;
        proof {
            lemma_ack_bits(raw, fresh(g0, g1), 4);
        }
        match try_ok(ack as u8) {
            Ok(_) => {},
            Err(e) => {
                self.idle_low();
                let ghost s = fresh(g0, self.0.samples@);
                assert(s =~= fresh(g0, g1));
                assert(s.subrange(0, 4) =~= s);
                assert(self.0.ops@ =~= old(self).0.ops@ + read_ops(
                    half,
                    request_byte(apndp, RnW::R, a),
                    s,
                ));
                return Err(e);
            },
        }
        let (data, parity) = self.read_data();
        let ghost g2 = self.0.samples@;
        let ghost o3 = self.0.ops@;
        self.rx(8);
        let ghost g3 = self.0.samples@;
        self.0.mode(Line::Data, PinMode::Output);
        self.0.write_bit(false);
        let ones = count_ones(data);
        let ghost s = fresh(g0, self.0.samples@);
        proof {
            assert(self.0.samples@.subrange(0, g0.len() as int) =~= g0);
            assert(s.subrange(0, 4) =~= fresh(g0, g1));
            assert(s.subrange(4, 36) =~= fresh(g1, g2).subrange(0, 32));
            assert(s[36] == fresh(g1, g2)[32]);
            assert(s.subrange(37, 45) =~= fresh(g2, g3));
            let x = s.subrange(4, 36);
            assert(bits_of(data, 32) == x);
            assert(exists|w: u32| bits_of(w, 32) == x);
            lemma_bits_inject(word_of(x), data);
            assert(self.0.ops@ =~= old(self).0.ops@ + read_ops(
                half,
                request_byte(apndp, RnW::R, a),
                s,
            ));
        }
        if parity == (ones % 2 == 1) {
            Ok(data)
        } else {
            Err(SwdError::BadParity)
        }
    }

    /// Writes a register: request, acknowledgment over five bits, then on
    /// OK the data bits, their parity and eight idle bits. A non-OK
    /// acknowledgment flushes the bus and is returned.
    pub fn write_inner(&mut self, apndp: APnDP, a: DPRegister, data: u32) -> (r: Result<
        (),
        SwdError,
    >)
        ensures
            ({
                let s = fresh(old(self).0.samples@, final(self).0.samples@);
                &&& extends(old(self).0.samples@, final(self).0.samples@)
                &&& s.len() == 5
                &&& final(self).0.ops@ == old(self).0.ops@ + write_ops(
                    old(self).half(),
                    request_byte(apndp, RnW::W, a),
                    data,
                    s,
                )
                &&& r == ack_result(ack_code(s))
                &&& final(self).0.modes() == (old(self).0.swclk, if ack_code(s) == 1 {
                    PinMode::Output
                } else {
                    PinMode::Input
                }, old(self).0.nreset)
            }),
            final(self).0.timing() == old(self).0.timing(),
    {
        let ghost half = self.half();
        let ghost g0 = self.0.samples@;
        let req = make_request(apndp, RnW::W, a);
        self.tx8(req);
        let raw = self.rx(5);
        let ghost g1 = self.0.samples@;
        let ack = (raw >> 1) & 0b111;
        proof {
            lemma_ack_bits(raw, fresh(g0, g1), 5);
        }
        match try_ok(ack as u8) {
            Ok(_) => {},
            Err(e) => {
                self.idle_low();
                assert(self.0.ops@ =~= old(self).0.ops@ + write_ops(
                    half,
                    request_byte(apndp, RnW::W, a),
                    data,
                    fresh(g0, g1),
                ));
                return Err(e);
            },
        }
        let ones = count_ones(data);
        self.send_data(data, ones % 2 == 1);
        self.tx8(0);
        assert(self.0.ops@ =~= old(self).0.ops@ + write_ops(
            half,
            request_byte(apndp, RnW::W, a),
            data,
            fresh(g0, g1),
        ));
        Ok(())
    }
}

/// Clocking in two runs of bits is clocking in their concatenation.
proof fn lemma_ins_append(half: u32, a: Seq<bool>, b: Seq<bool>)
    ensures
        ins(half, a + b) == ins(half, a) + ins(half, b),
    decreases b.len(),
{
    if b.len() == 0 {
        assert(a + b =~= a);
        assert(ins(half, a) + ins(half, b) =~= ins(half, a));
    } else {
        lemma_ins_append(half, a, b.drop_last());
        assert((a + b).drop_last() =~= a + b.drop_last());
        assert(ins(half, a + b) =~= ins(half, a) + ins(half, b));
    }
}

/// A bit of the low byte of a word, as the byte shows it.
proof fn lemma_low_byte_bit(v: u32, j: int)
    requires
        0 <= j < 8,
    ensures
        (((v as u8) >> (j as u8)) & 1 == 1) == ((v >> (j as u32)) & 1 == 1),
{
    let a = j as u8;
    let b = j as u32;
    assert(a as u32 == b);
    assert((((v as u8) >> a) & 1 == 1) == ((v >> b) & 1 == 1)) by (bit_vector)
        requires
            b < 8,
            a as u32 == b,
    ;
}

/// The acknowledgment bits of a received word, after its turnaround bit.
proof fn lemma_ack_bits(r: u32, s: Seq<bool>, n: nat)
    requires
        4 <= n <= 32,
        bits_of(r, n) == s,
    ensures
        ((r >> 1) & 7) as u8 == ack_code(s),
        ((r >> 1) & 7) < 8,
{
    assert(s[1] == ((r >> 1u32) & 1 == 1));
    assert(s[2] == ((r >> 2u32) & 1 == 1));
    assert(s[3] == ((r >> 3u32) & 1 == 1));
    assert(((r >> 1) & 7) == ((r >> 1u32) & 1) + 2 * ((r >> 2u32) & 1) + 4 * ((r >> 3u32) & 1))
        by (bit_vector);
    assert((r >> 1u32) & 1 <= 1) by (bit_vector);
    assert((r >> 2u32) & 1 <= 1) by (bit_vector);
    assert((r >> 3u32) & 1 <= 1) by (bit_vector);
    assert(((r >> 1) & 7) < 8) by (bit_vector);
}

/// Placeholder for JTAG: holds the transport context while selected, but
/// performs no transactions.
pub struct Jtag<H>(pub Context<H>);

impl<H: Hardware> Jtag<H> {
    /// JTAG transactions are not offered.
    pub fn available() -> (r: bool)
        ensures
            !r,
    {
        false
    }

    /// Takes the bus without touching the lines.
    pub fn new(context: Context<H>) -> (r: Self)
        ensures
            r.0 == context,
    {
        Jtag(context)
    }

    /// Gives the bus back unchanged.
    pub fn release(self) -> (r: Context<H>)
        ensures
            r == self.0,
    {
        self.0
    }

    /// Consumes no bits and leaves the reply buffer alone.
    pub fn sequences(&mut self, data: &[u8], rxbuf: &mut Vec<u8>) -> (r: u32)
        ensures
            r == 0,
            *final(self) == *old(self),
            final(rxbuf)@ == old(rxbuf)@,
    {
        0
    }

    /// Passes a clock request on to the shared context.
    pub fn set_clock(&mut self, max_frequency: u32) -> (r: bool)
        ensures
            r == (0 < max_frequency && max_frequency < old(self).0.cpu_frequency),
            r ==> final(self).0.max_frequency == max_frequency,
            r ==> final(self).0.half_period_ticks == half_period(
                old(self).0.cpu_frequency,
                max_frequency,
            ),
            !r ==> final(self).0.timing() == old(self).0.timing(),
            final(self).0.cpu_frequency == old(self).0.cpu_frequency,
            final(self).0.cycles_per_us == old(self).0.cycles_per_us,
            final(self).0.modes() == old(self).0.modes(),
            final(self).0.ops@ == old(self).0.ops@,
            final(self).0.samples@ == old(self).0.samples@,
    {
        self.0.set_clock(max_frequency)
    }
}

impl<H: Hardware> Swd<H> {
    /// SWD transactions are offered.
    pub fn available() -> (r: bool)
        ensures
            r,
    {
        true
    }
}

/// A read whose data bits and parity bit are those that a write of `v`
/// sends, after an OK acknowledgment, returns `v`.
pub proof fn lemma_read_back(v: u32, s: Seq<bool>)
    requires
        s.len() == 45,
        ack_code(s) == 1,
        s.subrange(4, 36) == bits_of(v, 32),
        s[36] == parity(v),
    ensures
        read_result(s) == Ok::<u32, SwdError>(v),
{
    let x = s.subrange(4, 36);
    assert(exists|w: u32| bits_of(w, 32) == x);
    lemma_bits_inject(word_of(x), v);
}

/// A read that receives the bits a write of `v` sends, with one data bit
/// flipped, reports a parity error even after an OK acknowledgment.
pub proof fn lemma_flipped_bit_detected(v: u32, k: int, s: Seq<bool>)
    requires
        s.len() == 45,
        ack_code(s) == 1,
        0 <= k < 32,
        s.subrange(4, 36) == bits_of(v, 32).update(k, !bits_of(v, 32)[k]),
        s[36] == parity(v),
    ensures
        read_result(s) == Err::<u32, SwdError>(SwdError::BadParity),
{
    lemma_ones_update(bits_of(v, 32), k, !bits_of(v, 32)[k]);
}

} // verus!
