//! A cellular modem (Quectel EG25-G) on a UART, switched by GPIO lines:
//! power and reset pulses, readiness from its status line, raw sends, and
//! the assembly of AT command responses and received lines.
//!
//! Reading a line waits on the UART byte by byte for as long as bytes
//! keep coming, so the waiting loop belongs to the caller; this module
//! decides, for each byte (or its absence), what happens next.
use vstd::prelude::*;
use vstd::string::StringSliceAdditionalSpecFns;
use crate::clk::mmio::{IoEvent, RegisterIo, bit_wait, extends, lemma_extends_trans, poll_bit, reads, set_bits, clear_bits, since};
use crate::text::{bytes_eq, utf8_str};

verus! {

/// UART2 and GPIO4 on the RK3399.
pub const MODEM_UART_BASE: u64 = 0xFF18_0000;
pub const MODEM_GPIO_BASE: u64 = 0xFF79_0000;
/// Capacity of an AT response in bytes.
pub const AT_RESPONSE_CAP: usize = 256;

/// Modem errors.
#[derive(Debug, Clone, Copy, PartialEq, Eq, Structural)]
pub enum ModemError {
    NotInitialized,
    PowerFailed,
    Timeout,
    CommandFailed,
    UartError,
}

#[verifier::external_type_specification]
#[verifier::external_body]
pub struct ExHeaplessString<const N: usize>(heapless::String<N>);

/// The bytes held by a fixed-capacity response string.
pub uninterp spec fn response_bytes(s: heapless::String<256>) -> Seq<u8>;

/// An empty response, through `heapless::String::new`.
#[verifier::external_body]
fn response_new() -> (s: heapless::String<256>)
    ensures
        response_bytes(s) == Seq::<u8>::empty(),
{
    heapless::String::new()
}

/// Appends `t` through `heapless::String::push_str`, which appends the
/// bytes of `t` when they fit in the 256-byte capacity and otherwise
/// leaves the string as it was and fails.
#[verifier::external_body]
fn response_push_str(s: &mut heapless::String<256>, t: &str) -> (r: Result<(), ()>)
    ensures
        response_bytes(*old(s)).len() + t.spec_bytes().len() <= 256 ==> r is Ok
            && response_bytes(*final(s)) == response_bytes(*old(s)) + t.spec_bytes(),
        response_bytes(*old(s)).len() + t.spec_bytes().len() > 256 ==> r is Err
            && response_bytes(*final(s)) == response_bytes(*old(s)),
{
    s.push_str(t)
}

/// Length in bytes, through the `str` that `heapless::String` derefs to.
#[verifier::external_body]
fn response_len(s: &heapless::String<256>) -> (n: usize)
    ensures
        n == response_bytes(*s).len(),
{
    s.len()
}

/// The response after a received line: nothing for an empty line,
/// otherwise the line, after a newline when the response already has text
/// (each part only when it fits).
pub open spec fn appended(resp: Seq<u8>, line: Seq<u8>) -> Seq<u8> {
    let nl = "\n".spec_bytes();
    let r1 = if resp.len() > 0 && resp.len() + nl.len() <= 256 { resp + nl } else { resp };
    if line.len() == 0 {
        resp
    } else if r1.len() + line.len() <= 256 {
        r1 + line
    } else {
        r1
    }
}

/// Adds one received line to an AT response: `UartError` when it is not
/// UTF-8; otherwise the line is appended (see `appended`) and the result
/// says whether it was the final `OK` or `ERROR`.
pub fn at_response_step(response: &mut heapless::String<256>, line: &[u8]) -> (r: Result<bool, ModemError>)
    ensures
        r is Err <==> !vstd::utf8::valid_utf8(line@),
        r is Err ==> r == Err::<bool, ModemError>(ModemError::UartError) && response_bytes(*final(response))
            == response_bytes(*old(response)),
        r is Ok ==> response_bytes(*final(response)) == appended(response_bytes(*old(response)), line@),
        r is Ok ==> (r == Ok::<bool, ModemError>(true) <==> (line@ == "OK".spec_bytes() || line@ == "ERROR".spec_bytes())),
{
    let s = match utf8_str(line) {
        None => { return Err(ModemError::UartError); },
        Some(s) => s,
    };
    let done = bytes_eq(line, "OK".as_bytes()) || bytes_eq(line, "ERROR".as_bytes());
    if line.len() == 0 {
        return Ok(done);
    }
    if response_len(response) > 0 {
        let _ = response_push_str(response, "\n");
    }
    let _ = response_push_str(response, s);
    Ok(done)
}

/// What happens after one poll of the UART while a line is read.
#[derive(Debug, Clone, Copy, PartialEq, Eq, Structural)]
pub enum LineStep {
    /// Keep polling.
    More,
    /// A line of this many bytes is complete.
    Line(usize),
    /// The poll budget ran out.
    TimedOut,
}

/// A line being read into a buffer of `cap` bytes: carriage returns are
/// dropped, a newline ends the line, and each empty poll spends one of
/// `budget` polls.
pub struct LineReader {
    pub buf: Vec<u8>,
    pub cap: usize,
    pub budget: u32,
}

impl LineReader {
    /// An empty line with room for `cap` bytes and `budget` empty polls.
    pub fn new(cap: usize, budget: u32) -> (r: LineReader)
        ensures
            r.buf@.len() == 0 && r.cap == cap && r.budget == budget,
    {
        LineReader { buf: Vec::new(), cap, budget }
    }

    /// Takes the result of one poll (`None`: no byte). When the buffer is
    /// full or the budget spent the line ends (`Line` when budget is left,
    /// `TimedOut` otherwise) without looking at `byte`.
    pub fn feed(&mut self, byte: Option<u8>) -> (s: LineStep)
        requires
            old(self).buf@.len() <= old(self).cap,
        ensures
            final(self).buf@.len() <= final(self).cap,
            final(self).cap == old(self).cap,
            old(self).buf@.len() >= old(self).cap || old(self).budget == 0 ==> *final(self) == *old(self) && s == (
                if old(self).budget == 0 { LineStep::TimedOut } else { LineStep::Line(old(self).buf@.len() as usize) }),
            !(old(self).buf@.len() >= old(self).cap || old(self).budget == 0) ==> match byte {
                None => final(self).buf@ == old(self).buf@ && final(self).budget == old(self).budget - 1
                    && s == LineStep::More,
                Some(b) => final(self).budget == old(self).budget && if b == 0x0Au8 {
                    final(self).buf@ == old(self).buf@ && s == LineStep::Line(old(self).buf@.len() as usize)
                } else if b == 0x0Du8 {
                    final(self).buf@ == old(self).buf@ && s == LineStep::More
                } else {
                    final(self).buf@ == old(self).buf@.push(b) && s == LineStep::More
                },
            },
    {
        if self.buf.len() >= self.cap || self.budget == 0 {
            if self.budget == 0 {
                return LineStep::TimedOut;
            }
            return LineStep::Line(self.buf.len());
        }
        match byte {
            None => {
                self.budget = self.budget - 1;
                LineStep::More
            },
            Some(b) => {
                if b == 0x0A {
                    LineStep::Line(self.buf.len())
                } else if b == 0x0D {
                    LineStep::More
                } else {
                    self.buf.push(b);
                    LineStep::More
                }
            },
        }
    }
}

/// Busy-waits `n` iterations.
fn spin(n: u32) {
    let mut k: u32 = 0;
    while k < n
        invariant
            k <= n,
        decreases n - k,
    {
        k = k + 1;
    }
}

/// Busy-waits about `us` microseconds.
fn delay_us(us: u32) {
    let mut k: u32 = 0;
    while k < us
        invariant
            k <= us,
        decreases us - k,
    {
        spin(100);
        k = k + 1;
    }
}

/// Whether `t` is the sending of `byte` through the UART at `uart`: the
/// line-status polls (at most a million, until the transmitter is free),
/// then the byte written.
pub open spec fn byte_sent(uart: u64, byte: u8, t: Seq<IoEvent>) -> bool {
    exists|vals: Seq<u32>| #![trigger reads((uart + 0x7C) as u64, vals)]
        (bit_wait(vals, 0x20, 1_000_000, true) || bit_wait(vals, 0x20, 1_000_000, false)) && t == reads(
            (uart + 0x7C) as u64, vals).push(IoEvent::Write(uart, byte as u32))
}

/// Whether `t` cut at `cuts` is the sending of `bytes`, one byte per piece.
pub open spec fn bytes_sent_at(uart: u64, bytes: Seq<u8>, t: Seq<IoEvent>, cuts: Seq<int>) -> bool {
    &&& cuts.len() == bytes.len() + 1
    &&& cuts[0] == 0
    &&& cuts.last() == t.len()
    &&& forall|i: int| 0 <= i < bytes.len() ==> 0 <= #[trigger] cuts[i] <= cuts[i + 1] <= t.len()
    &&& forall|i: int| 0 <= i < bytes.len() ==> byte_sent(uart, #[trigger] bytes[i], t.subrange(cuts[i], cuts[i + 1]))
}

/// Whether `t` is the sending of `bytes`, in order.
pub open spec fn bytes_sent(uart: u64, bytes: Seq<u8>, t: Seq<IoEvent>) -> bool {
    exists|cuts: Seq<int>| #[trigger] bytes_sent_at(uart, bytes, t, cuts)
}

/// Sending one more byte extends a sending.
proof fn lemma_sent_push(uart: u64, bs: Seq<u8>, t: Seq<IoEvent>, cuts: Seq<int>, b: u8, u: Seq<IoEvent>)
    requires
        bytes_sent_at(uart, bs, t, cuts),
        byte_sent(uart, b, u),
    ensures
        bytes_sent_at(uart, bs.push(b), t + u, cuts.push((t.len() + u.len()) as int)),
{
    let nb = bs.push(b);
    let nc = cuts.push((t.len() + u.len()) as int);
    let tu = t + u;
    assert forall|i: int| 0 <= i < nb.len() implies 0 <= #[trigger] nc[i] <= nc[i + 1] <= tu.len() by {
        if i < bs.len() {
            assert(nc[i] == cuts[i] && nc[i + 1] == cuts[i + 1]);
        }
    }
    assert forall|i: int| 0 <= i < nb.len() implies byte_sent(uart, #[trigger] nb[i], tu.subrange(nc[i], nc[i + 1])) by {
        if i < bs.len() {
            assert(nb[i] == bs[i]);
            assert(nc[i] == cuts[i] && nc[i + 1] == cuts[i + 1]);
            assert(tu.subrange(nc[i], nc[i + 1]) =~= t.subrange(cuts[i], cuts[i + 1]));
        } else {
            assert(tu.subrange(nc[i], nc[i + 1]) =~= u);
        }
    }
}

/// Sending `xs` then `ys` is sending `xs + ys`.
proof fn lemma_sent_concat(uart: u64, xs: Seq<u8>, t: Seq<IoEvent>, ys: Seq<u8>, u: Seq<IoEvent>)
    requires
        bytes_sent(uart, xs, t),
        bytes_sent(uart, ys, u),
    ensures
        bytes_sent(uart, xs + ys, t + u),
{
    let c1 = choose|c: Seq<int>| #[trigger] bytes_sent_at(uart, xs, t, c);
    let c2 = choose|c: Seq<int>| #[trigger] bytes_sent_at(uart, ys, u, c);
    let n = xs.len();
    let nc = c1 + c2.subrange(1, c2.len() as int).map_values(|c: int| c + t.len());
    let zs = xs + ys;
    let tu = t + u;
    assert forall|i: int| 0 <= i < zs.len() implies 0 <= #[trigger] nc[i] <= nc[i + 1] <= tu.len() by {
        if i < n {
            assert(nc[i] == c1[i]);
            if i + 1 < n + 1 {
                assert(nc[i + 1] == c1[i + 1]);
            }
        } else {
            assert(nc[i] == c2[i - n] + t.len());
            assert(nc[i + 1] == c2[i - n + 1] + t.len());
            assert(0 <= c2[i - n] <= c2[i - n + 1] <= u.len());
        }
    }
    assert forall|i: int| 0 <= i < zs.len() implies byte_sent(uart, #[trigger] zs[i], tu.subrange(nc[i], nc[i + 1])) by {
        if i < n {
            assert(zs[i] == xs[i]);
            assert(nc[i] == c1[i] && nc[i + 1] == c1[i + 1]);
            assert(tu.subrange(nc[i], nc[i + 1]) =~= t.subrange(c1[i], c1[i + 1]));
        } else {
            assert(zs[i] == ys[i - n]);
            assert(0 <= c2[i - n] <= c2[i - n + 1] <= u.len());
            assert(nc[i] == c2[i - n] + t.len() && nc[i + 1] == c2[i - n + 1] + t.len());
            assert(tu.subrange(nc[i], nc[i + 1]) =~= u.subrange(c2[i - n], c2[i - n + 1]));
        }
    }
    assert(nc.last() == tu.len());
    assert(bytes_sent_at(uart, zs, tu, nc));
}

/// The accesses of a pulse on the line `bit` of the GPIO block at `g`: the
/// read giving `c1` and the write setting the bit, then (after the wait)
/// the read giving `c2` and the write clearing it.
pub open spec fn gpio_pulse(g: u64, bit: u32, c1: u32, c2: u32) -> Seq<IoEvent> {
    seq![IoEvent::Read(g, c1), IoEvent::Write(g, c1 | bit), IoEvent::Read(g, c2), IoEvent::Write(g, c2 & !bit)]
}

/// The accesses of one receive attempt: the line-status read giving
/// `lsr`, then, when a byte is waiting, the data read giving `v`.
pub open spec fn uart_rx_events(uart: u64, lsr: u32, v: u32) -> Seq<IoEvent> {
    seq![IoEvent::Read((uart + 0x7C) as u64, lsr)] + if lsr & 0x01 != 0 {
        seq![IoEvent::Read(uart, v)]
    } else {
        seq![]
    }
}

/// The modem: its UART and GPIO blocks, its power, reset and status lines,
/// and whether it is powered and ready.
pub struct ModemDriver {
    pub uart_base: u64,
    pub gpio_base: u64,
    pub power_pin: u32,
    pub reset_pin: u32,
    pub status_pin: u32,
    pub powered: bool,
    pub ready: bool,
}

/// The pins and blocks are those of the driver `new` makes.
pub open spec fn modem_wf(m: &ModemDriver) -> bool {
    m.uart_base == MODEM_UART_BASE && m.gpio_base == MODEM_GPIO_BASE && m.power_pin < 32 && m.reset_pin < 32
        && m.status_pin < 32
}

impl ModemDriver {
    /// Sets up the UART (115200 baud, 8N1, FIFO on) and returns the driver,
    /// neither powered nor ready.
    pub fn new<R: RegisterIo>(io: &mut R) -> (m: ModemDriver)
        ensures
            modem_wf(&m),
            m.power_pin == 16 && m.reset_pin == 26 && m.status_pin == 27,
            !m.powered && !m.ready,
    {
        io.write_reg(MODEM_UART_BASE + 0x30, 0);
        io.write_reg(MODEM_UART_BASE + 0x24, 0x0D);
        io.write_reg(MODEM_UART_BASE + 0x2C, 0x03);
        io.write_reg(MODEM_UART_BASE + 0x30, 0x01);
        ModemDriver {
            uart_base: MODEM_UART_BASE,
            gpio_base: MODEM_GPIO_BASE,
            power_pin: 16,
            reset_pin: 26,
            status_pin: 27,
            powered: false,
            ready: false,
        }
    }

    /// Whether the status line is high.
    fn status_high<R: RegisterIo>(&self, io: &mut R) -> (b: bool)
        requires
            modem_wf(self),
        ensures
            exists|v: u32| #![trigger reads((self.gpio_base + 0x50) as u64, seq![v])]
                final(io).trace() == old(io).trace() + reads((self.gpio_base + 0x50) as u64, seq![v]) && b == (v & (1u32
                    << self.status_pin) != 0),
    {
        let val = io.read_reg(self.gpio_base + 0x50);
        assert(io.trace() =~= old(io).trace() + reads((self.gpio_base + 0x50) as u64, seq![val]));
        (val & (1u32 << self.status_pin)) != 0
    }

    /// Drives line `pin` high, waits `us` microseconds, drives it low.
    fn pulse<R: RegisterIo>(&self, io: &mut R, pin: u32, us: u32)
        requires
            modem_wf(self),
            pin < 32,
        ensures
            exists|c1: u32, c2: u32| final(io).trace() == old(io).trace() + #[trigger] gpio_pulse(self.gpio_base,
                1u32 << pin, c1, c2),
    {
        let w1 = set_bits(io, self.gpio_base, 1u32 << pin);
        let ghost t1 = io.trace();
        delay_us(us);
        let w2 = clear_bits(io, self.gpio_base, 1u32 << pin);
        proof {
            let bit = 1u32 << pin;
            let c1 = choose|c: u32| w1 == #[trigger] (c | bit) && t1 == old(io).trace().push(IoEvent::Read(
                self.gpio_base, c)).push(IoEvent::Write(self.gpio_base, c | bit));
            let c2 = choose|c: u32| w2 == #[trigger] (c & !bit) && io.trace() == t1.push(IoEvent::Read(self.gpio_base,
                c)).push(IoEvent::Write(self.gpio_base, c & !bit));
            assert(io.trace() =~= old(io).trace() + gpio_pulse(self.gpio_base, bit, c1, c2));
        }
    }

    /// Polls the status line up to `tries` times, `us` microseconds apart,
    /// until it is high; returns whether it was.
    fn wait_status<R: RegisterIo>(&self, io: &mut R, tries: u32, us: u32) -> (hit: bool)
        requires
            modem_wf(self),
        ensures
            exists|vals: Seq<u32>| #![trigger reads((self.gpio_base + 0x50) as u64, vals)]
                bit_wait(vals, 1u32 << self.status_pin, tries as nat, hit) && final(io).trace() == old(io).trace()
                    + reads((self.gpio_base + 0x50) as u64, vals),
    {
        let ghost st = (self.gpio_base + 0x50) as u64;
        let ghost bit = 1u32 << self.status_pin;
        let ghost mut vals: Seq<u32> = seq![];
        assert(old(io).trace() + reads(st, vals) =~= old(io).trace());
        let mut k: u32 = 0;
        while k < tries
            invariant
                modem_wf(self),
                st == (self.gpio_base + 0x50) as u64,
                bit == 1u32 << self.status_pin,
                k <= tries,
                vals.len() == k,
                forall|i: int| 0 <= i < vals.len() ==> #[trigger] vals[i] & bit == 0,
                io.trace() == old(io).trace() + reads(st, vals),
            decreases tries - k,
        {
            let ghost tb = io.trace();
            let h = self.status_high(io);
            proof {
                let v = choose|v: u32| io.trace() == tb + #[trigger] reads(st, seq![v]) && h == (v & bit != 0);
                assert(reads(st, vals.push(v)) =~= reads(st, vals) + reads(st, seq![v]));
                vals = vals.push(v);
                assert(io.trace() =~= old(io).trace() + reads(st, vals));
            }
            if h {
                assert(bit_wait(vals, bit, tries as nat, true));
                return true;
            }
            delay_us(us);
            k = k + 1;
        }
        assert(bit_wait(vals, bit, tries as nat, false));
        false
    }

    /// A 1.5 s pulse on the power line, then up to 5 s for the status
    /// line: powered and ready when it rises, `Timeout` otherwise.
    pub fn power_on<R: RegisterIo>(&mut self, io: &mut R) -> (r: Result<(), ModemError>)
        requires
            modem_wf(old(self)),
        ensures
            modem_wf(final(self)),
            r is Ok ==> final(self).powered && final(self).ready,
            r is Err ==> r == Err::<(), ModemError>(ModemError::Timeout) && *final(self) == *old(self),
            exists|c1: u32, c2: u32, vals: Seq<u32>|
                #![trigger gpio_pulse(old(self).gpio_base, 1u32 << old(self).power_pin, c1, c2), reads((old(self).gpio_base + 0x50) as u64, vals)]
                bit_wait(vals, 1u32 << old(self).status_pin, 5000, r is Ok) && final(io).trace() == old(io).trace()
                    + gpio_pulse(old(self).gpio_base, 1u32 << old(self).power_pin, c1, c2) + reads(
                    (old(self).gpio_base + 0x50) as u64, vals),
    {
        self.pulse(io, self.power_pin, 1_500_000);
        if self.wait_status(io, 5000, 1000) {
            self.powered = true;
            self.ready = true;
            Ok(())
        } else {
            Err(ModemError::Timeout)
        }
    }

    /// A 3 s pulse on the power line; the modem is off.
    pub fn power_off<R: RegisterIo>(&mut self, io: &mut R) -> (r: Result<(), ModemError>)
        requires
            modem_wf(old(self)),
        ensures
            r is Ok,
            modem_wf(final(self)),
            !final(self).powered && !final(self).ready,
            exists|c1: u32, c2: u32| final(io).trace() == old(io).trace() + #[trigger] gpio_pulse(old(self).gpio_base,
                1u32 << old(self).power_pin, c1, c2),
    {
        self.pulse(io, self.power_pin, 3_000_000);
        self.powered = false;
        self.ready = false;
        Ok(())
    }

    /// A 200 ms pulse on the reset line, then up to 5 s for the status
    /// line: ready when it rises, not ready and `Timeout` otherwise.
    pub fn reset<R: RegisterIo>(&mut self, io: &mut R) -> (r: Result<(), ModemError>)
        requires
            modem_wf(old(self)),
        ensures
            modem_wf(final(self)),
            final(self).powered == old(self).powered,
            r is Ok <==> final(self).ready,
            r is Err ==> r == Err::<(), ModemError>(ModemError::Timeout),
            exists|c1: u32, c2: u32, vals: Seq<u32>|
                #![trigger gpio_pulse(old(self).gpio_base, 1u32 << old(self).reset_pin, c1, c2), reads((old(self).gpio_base + 0x50) as u64, vals)]
                bit_wait(vals, 1u32 << old(self).status_pin, 5000, r is Ok) && final(io).trace() == old(io).trace()
                    + gpio_pulse(old(self).gpio_base, 1u32 << old(self).reset_pin, c1, c2) + reads(
                    (old(self).gpio_base + 0x50) as u64, vals),
    {
        self.pulse(io, self.reset_pin, 200_000);
        self.ready = false;
        if self.wait_status(io, 5000, 1000) {
            self.ready = true;
            Ok(())
        } else {
            Err(ModemError::Timeout)
        }
    }

    /// Ready and the status line is high.
    pub fn is_ready<R: RegisterIo>(&self, io: &mut R) -> (b: bool)
        requires
            modem_wf(self),
        ensures
            b ==> self.ready,
    {
        self.ready && self.status_high(io)
    }

    /// Puts `byte` in the UART's transmit register once it is free (the wait
    /// is bounded; the byte is written when it ends).
    fn send_byte<R: RegisterIo>(&self, io: &mut R, byte: u8)
        requires
            modem_wf(self),
        ensures
            final(io).trace() == old(io).trace() + since(old(io).trace(), final(io).trace()),
            byte_sent(self.uart_base, byte, since(old(io).trace(), final(io).trace())),
    {
        let hit = poll_bit(io, self.uart_base + 0x7C, 0x20, 1_000_000);
        let ghost t1 = io.trace();
        io.write_reg(self.uart_base, byte as u32);
        proof {
            let st = (self.uart_base + 0x7C) as u64;
            let vals = choose|vals: Seq<u32>| bit_wait(vals, 0x20, 1_000_000, hit) && t1 == old(io).trace()
                + #[trigger] reads(st, vals);
            let t = since(old(io).trace(), io.trace());
            assert(t =~= reads(st, vals).push(IoEvent::Write(self.uart_base, byte as u32)));
            assert(io.trace() =~= old(io).trace() + t);
            assert(byte_sent(self.uart_base, byte, t));
        }
    }

    /// The received byte, when the UART holds one.
    pub fn recv_byte<R: RegisterIo>(&self, io: &mut R) -> (r: Option<u8>)
        requires
            modem_wf(self),
        ensures
            exists|lsr: u32, v: u32| #![trigger uart_rx_events(self.uart_base, lsr, v)]
                final(io).trace() == old(io).trace() + uart_rx_events(self.uart_base, lsr, v)
                    && r == (if lsr & 0x01 != 0 { Some((v & 0xFF) as u8) } else { None }),
    {
        let lsr = io.read_reg(self.uart_base + 0x7C);
        if (lsr & 0x01) != 0 {
            let v = io.read_reg(self.uart_base);
            assert(io.trace() =~= old(io).trace() + uart_rx_events(self.uart_base, lsr, v));
            Some((v & 0xFF) as u8)
        } else {
            assert(io.trace() =~= old(io).trace() + uart_rx_events(self.uart_base, lsr, 0));
            None
        }
    }

    /// Sends `bytes` as they are; `NotInitialized` unless ready.
    pub fn send_bytes<R: RegisterIo>(&mut self, io: &mut R, bytes: &[u8]) -> (r: Result<(), ModemError>)
        requires
            modem_wf(old(self)),
        ensures
            *final(self) == *old(self),
            r is Ok <==> old(self).ready,
            r is Err ==> r == Err::<(), ModemError>(ModemError::NotInitialized),
            !old(self).ready ==> final(io).trace() == old(io).trace(),
            old(self).ready ==> final(io).trace() == old(io).trace() + since(old(io).trace(), final(io).trace())
                && bytes_sent(old(self).uart_base, bytes@, since(old(io).trace(), final(io).trace())),
    {
        if !self.ready {
            return Err(ModemError::NotInitialized);
        }
        self.send_seq(io, bytes);
        Ok(())
    }

    /// Sends each byte of `bytes` in order.
    fn send_seq<R: RegisterIo>(&self, io: &mut R, bytes: &[u8])
        requires
            modem_wf(self),
        ensures
            final(io).trace() == old(io).trace() + since(old(io).trace(), final(io).trace()),
            bytes_sent(self.uart_base, bytes@, since(old(io).trace(), final(io).trace())),
    {
        let ghost t0 = io.trace();
        let ghost mut cuts: Seq<int> = seq![0int];
        proof {
            assert(since(t0, t0) =~= Seq::<IoEvent>::empty());
            assert(t0 =~= t0 + since(t0, t0));
            assert(bytes_sent_at(self.uart_base, bytes@.take(0), since(t0, t0), cuts));
        }
        let mut i: usize = 0;
        while i < bytes.len()
            invariant
                modem_wf(self),
                i <= bytes@.len(),
                io.trace() == t0 + since(t0, io.trace()),
                bytes_sent_at(self.uart_base, bytes@.take(i as int), since(t0, io.trace()), cuts),
            decreases bytes.len() - i,
        {
            let ghost t1 = io.trace();
            self.send_byte(io, bytes[i]);
            proof {
                let a = since(t0, t1);
                let u = since(t1, io.trace());
                assert(since(t0, io.trace()) =~= a + u);
                assert(io.trace() =~= t0 + since(t0, io.trace()));
                assert(bytes@.take(i + 1) =~= bytes@.take(i as int).push(bytes@[i as int]));
                lemma_sent_push(self.uart_base, bytes@.take(i as int), a, cuts, bytes@[i as int], u);
                cuts = cuts.push((a.len() + u.len()) as int);
            }
            i = i + 1;
        }
        proof {
            assert(bytes@.take(bytes@.len() as int) =~= bytes@);
        }
    }

    /// Sends an AT command line (`cmd`, then CR LF) and starts an empty
    /// response; `NotInitialized` unless ready. The response lines are then
    /// read and handed to `at_response_step` until it reports the end.
    pub fn send_at_command<R: RegisterIo>(&mut self, io: &mut R, cmd: &str) -> (r: Result<heapless::String<256>, ModemError>)
        requires
            modem_wf(old(self)),
        ensures
            *final(self) == *old(self),
            r is Ok <==> old(self).ready,
            r is Err ==> r == Err::<heapless::String<256>, ModemError>(ModemError::NotInitialized),
            r matches Ok(s) ==> response_bytes(s).len() == 0,
            !old(self).ready ==> final(io).trace() == old(io).trace(),
            old(self).ready ==> final(io).trace() == old(io).trace() + since(old(io).trace(), final(io).trace())
                && bytes_sent(old(self).uart_base, cmd.spec_bytes() + seq![0x0Du8, 0x0Au8], since(old(io).trace(),
                final(io).trace())),
    {
        if !self.ready {
            return Err(ModemError::NotInitialized);
        }
        let b = cmd.as_bytes();
        self.send_seq(io, b);
        let crlf = [0x0Du8, 0x0Au8];
        let ghost t1 = io.trace();
        self.send_seq(io, &crlf);
        proof {
            let a = since(old(io).trace(), t1);
            let u = since(t1, io.trace());
            assert(since(old(io).trace(), io.trace()) =~= a + u);
            assert(io.trace() =~= old(io).trace() + since(old(io).trace(), io.trace()));
            lemma_sent_concat(self.uart_base, b@, a, crlf@, u);
            assert(crlf@ =~= seq![0x0Du8, 0x0Au8]);
        }
        Ok(response_new())
    }

    /// Starts a quick line poll (100 empty polls) into a buffer of `cap`
    /// bytes; `NotInitialized` unless ready.
    pub fn recv_line_nonblock(&self, cap: usize) -> (r: Result<LineReader, ModemError>)
        ensures
            r is Ok <==> self.ready,
            r is Err ==> r == Err::<LineReader, ModemError>(ModemError::NotInitialized),
            r matches Ok(l) ==> l.buf@.len() == 0 && l.cap == cap && l.budget == 100,
    {
        if !self.ready {
            return Err(ModemError::NotInitialized);
        }
        Ok(LineReader::new(cap, 100))
    }
}

} // verus!
