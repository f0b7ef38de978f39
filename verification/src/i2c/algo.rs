//! The bit-banging I2C algorithm: START/STOP conditions, byte transfer
//! with ACK/NAK, clock stretching with a timeout, addressing (7- and
//! 10-bit) with retries, and whole transfers.
use vstd::prelude::*;
use crate::i2c::i2c_core::{
    Error, I2C_M_IGNORE_NAK, I2C_M_NO_RD_ACK, I2C_M_NOSTART, I2C_M_RD, I2C_M_RECV_LEN, I2C_M_REV_DIR_ADDR, I2C_M_STOP,
    I2C_M_TEN, I2cAdapter, I2cAlgorithm, I2cMsg,
};

verus! {

/// Largest SMBus block.
pub const I2C_SMBUS_BLOCK_MAX: usize = 32;

/// Direct control of the SDA and SCL lines.
pub trait I2cBitOps {
    /// The levels driven on SDA, in order. Every implementation in this
    /// library keeps it; the empty default stands only for implementations
    /// made outside it, which verification does not see.
    closed spec fn sda_sets(&self) -> Seq<bool> {
        Seq::empty()
    }

    fn set_sda(&mut self, val: bool)
        ensures
            final(self).sda_sets() == old(self).sda_sets().push(val);

    fn set_scl(&mut self, val: bool)
        ensures
            final(self).sda_sets() == old(self).sda_sets();

    /// SDA as read back, when the lines can be read.
    fn get_sda(&mut self) -> (r: Option<bool>)
        ensures
            final(self).sda_sets() == old(self).sda_sets(),
        default_ensures
            r is None,
    {
        None
    }

    /// SCL as read back, when the lines can be read.
    fn get_scl(&mut self) -> (r: Option<bool>)
        ensures
            final(self).sda_sets() == old(self).sda_sets(),
        default_ensures
            r is None,
    {
        None
    }

    /// Called before a transfer; an error cancels it.
    fn pre_xfer(&mut self) -> (r: Result<(), Error>)
        default_ensures
            r is Ok,
    {
        Ok(())
    }

    /// Called after a transfer.
    fn post_xfer(&mut self) {
    }
}

/// The bit-banging algorithm: line control, delay and clock-stretch
/// timeout (both in loop iterations).
pub struct I2cAlgoBitData<O: I2cBitOps> {
    pub ops: O,
    pub udelay: u32,
    pub timeout: u32,
    /// The results of the transfers run, in order.
    pub results: Ghost<Seq<Result<usize, Error>>>,
}

/// Busy-waits `n` iterations.
fn spin(n: u32) {
    let mut k: u32 = 0;
    while k < n
        invariant
            k <= n,
        decreases n - k,
    {
        k = k + 1;
    }
}

/// The address byte of a 7-bit message: address shifted left, read bit
/// from the flags, inverted when the direction is reversed.
pub open spec fn addr7_byte(addr: u16, flags: u16) -> u8 {
    let b = (((addr << 1u16) | (if flags & I2C_M_RD != 0 { 1u16 } else { 0u16 })) as u8);
    if flags & I2C_M_REV_DIR_ADDR != 0 { b ^ 1u8 } else { b }
}

/// The levels a byte puts on SDA: its bits, most significant first.
pub open spec fn byte_bits(c: u8) -> Seq<bool> {
    Seq::new(8, |k: int| (c >> ((7 - k) as u32)) & 1u8 != 0)
}

/// Whether `a` is `b` followed by more.
pub open spec fn sda_prefix(b: Seq<bool>, a: Seq<bool>) -> bool {
    b.len() <= a.len() && a.subrange(0, b.len() as int) == b
}

/// A prefix of a prefix is a prefix.
pub proof fn lemma_sda_prefix_trans(a: Seq<bool>, b: Seq<bool>, c: Seq<bool>)
    requires
        sda_prefix(a, b),
        sda_prefix(b, c),
    ensures
        sda_prefix(a, c),
{
    assert(c.subrange(0, a.len() as int) =~= c.subrange(0, b.len() as int).subrange(0, a.len() as int));
}

/// The first address byte of a 10-bit message: 0xf0 with address bits 9..8.
pub open spec fn addr10_hi(addr: u16) -> u8 {
    0xf0u8 | (((addr >> 7u16) & 0x06u16) as u8)
}

impl<O: I2cBitOps> I2cAlgoBitData<O> {
    /// The algorithm over `ops` with the given delay and timeout.
    pub fn new(ops: O, udelay: u32, timeout: u32) -> (a: I2cAlgoBitData<O>)
        ensures
            a.ops == ops && a.udelay == udelay && a.timeout == timeout,
    {
        I2cAlgoBitData { ops, udelay, timeout, results: Ghost(Seq::empty()) }
    }

    fn udelay_half(&self) {
        spin(self.udelay / 2 + self.udelay % 2);
    }

    fn sdalo(&mut self)
        ensures
            final(self).udelay == old(self).udelay && final(self).timeout == old(self).timeout,
            final(self).ops.sda_sets() == old(self).ops.sda_sets().push(false),
    {
        self.ops.set_sda(false);
        self.udelay_half();
    }

    fn sdahi(&mut self)
        ensures
            final(self).udelay == old(self).udelay && final(self).timeout == old(self).timeout,
            final(self).ops.sda_sets() == old(self).ops.sda_sets().push(true),
    {
        self.ops.set_sda(true);
        self.udelay_half();
    }

    fn scllo(&mut self)
        ensures
            final(self).udelay == old(self).udelay && final(self).timeout == old(self).timeout,
            final(self).ops.sda_sets() == old(self).ops.sda_sets(),
    {
        self.ops.set_scl(false);
        spin(self.udelay / 2);
    }

    /// Raises SCL and, when it can be read, waits while a slave holds it
    /// low; `Timeout` after `timeout * 1000` checks if it is still low.
    fn sclhi(&mut self) -> (r: Result<(), Error>)
        ensures
            r is Ok || r == Err::<(), Error>(Error::Timeout),
            final(self).udelay == old(self).udelay && final(self).timeout == old(self).timeout,
            final(self).ops.sda_sets() == old(self).ops.sda_sets(),
    {
        self.ops.set_scl(true);
        if self.ops.get_scl().is_some() {
            let mut iterations: u64 = 0;
            let max_iterations: u64 = self.timeout as u64 * 1000;
            loop
                invariant
                    iterations <= max_iterations,
                    max_iterations == self.timeout as u64 * 1000,
                    self.udelay == old(self).udelay && self.timeout == old(self).timeout,
                    self.ops.sda_sets() == old(self).ops.sda_sets(),
                decreases max_iterations - iterations,
            {
                match self.ops.get_scl() {
                    Some(false) => {
                        if iterations >= max_iterations {
                            let again = self.ops.get_scl();
                            let high = match again {
                                Some(v) => v,
                                None => true,
                            };
                            if high {
                                break;
                            }
                            return Err(Error::Timeout);
                        }
                        iterations = iterations + 1;
                    },
                    _ => break,
                }
            }
        }
        spin(self.udelay);
        Ok(())
    }

    /// START: SDA falls while SCL is high, then SCL goes low.
    pub fn i2c_start(&mut self)
        ensures
            final(self).udelay == old(self).udelay && final(self).timeout == old(self).timeout,
            final(self).ops.sda_sets() == old(self).ops.sda_sets().push(false),
    {
        self.ops.set_sda(false);
        spin(self.udelay);
        self.scllo();
    }

    /// Repeated START.
    fn i2c_repstart(&mut self) -> (r: Result<(), Error>)
        ensures
            r is Ok || r == Err::<(), Error>(Error::Timeout),
            final(self).udelay == old(self).udelay && final(self).timeout == old(self).timeout,
    {
        self.sdahi();
        self.sclhi()?;
        self.ops.set_sda(false);
        spin(self.udelay);
        self.scllo();
        Ok(())
    }

    /// STOP: SDA rises while SCL is high.
    pub fn i2c_stop(&mut self) -> (r: Result<(), Error>)
        ensures
            r is Ok || r == Err::<(), Error>(Error::Timeout),
            final(self).udelay == old(self).udelay && final(self).timeout == old(self).timeout,
            sda_prefix(old(self).ops.sda_sets(), final(self).ops.sda_sets()),
            r is Ok ==> final(self).ops.sda_sets() == old(self).ops.sda_sets().push(false).push(true),
    {
        self.sdalo();
        proof {
            assert(self.ops.sda_sets().subrange(0, old(self).ops.sda_sets().len() as int) =~= old(self).ops.sda_sets());
        }
        self.sclhi()?;
        self.ops.set_sda(true);
        spin(self.udelay);
        proof {
            assert(self.ops.sda_sets().subrange(0, old(self).ops.sda_sets().len() as int) =~= old(self).ops.sda_sets());
        }
        Ok(())
    }

    /// Sends byte `c`, most significant bit first, then samples the ACK
    /// bit: 1 for ACK (or when SDA cannot be read), 0 for NAK.
    pub fn i2c_outb(&mut self, c: u8) -> (r: Result<i32, Error>)
        ensures
            r matches Ok(v) ==> v == 0 || v == 1,
            r is Err ==> r == Err::<i32, Error>(Error::Timeout),
            final(self).udelay == old(self).udelay && final(self).timeout == old(self).timeout,
            sda_prefix(old(self).ops.sda_sets(), final(self).ops.sda_sets()),
            r is Ok ==> final(self).ops.sda_sets() == old(self).ops.sda_sets() + byte_bits(c).push(true),
    {
        let mut i: u32 = 8;
        proof {
            assert(old(self).ops.sda_sets() + byte_bits(c).take(0) =~= old(self).ops.sda_sets());
        }
        while i > 0
            invariant
                i <= 8,
                self.udelay == old(self).udelay && self.timeout == old(self).timeout,
                self.ops.sda_sets() == old(self).ops.sda_sets() + byte_bits(c).take(8 - i),
            decreases i,
        {
            i = i - 1;
            let sb = (c >> i) & 1 != 0;
            self.ops.set_sda(sb);
            proof {
                assert(byte_bits(c)[7 - i] == sb);
                assert(byte_bits(c).take(8 - i) =~= byte_bits(c).take(7 - i).push(sb));
                assert(self.ops.sda_sets() =~= old(self).ops.sda_sets() + byte_bits(c).take(8 - i));
                assert(self.ops.sda_sets().subrange(0, old(self).ops.sda_sets().len() as int) =~= old(self).ops.sda_sets());
            }
            self.udelay_half();
            self.sclhi()?;
            self.scllo();
        }
        self.sdahi();
        proof {
            assert(byte_bits(c).take(8) =~= byte_bits(c));
            assert(self.ops.sda_sets() =~= old(self).ops.sda_sets() + byte_bits(c).push(true));
            assert(self.ops.sda_sets().subrange(0, old(self).ops.sda_sets().len() as int) =~= old(self).ops.sda_sets());
        }
        self.sclhi()?;
        let ack = match self.ops.get_sda() {
            Some(sda) => !sda,
            None => true,
        };
        self.scllo();
        Ok(if ack { 1 } else { 0 })
    }

    /// Reads a byte, most significant bit first (bits read as 0 when SDA
    /// cannot be read).
    fn i2c_inb(&mut self) -> (r: Result<u8, Error>)
        ensures
            r is Ok || r == Err::<u8, Error>(Error::Timeout),
            final(self).udelay == old(self).udelay && final(self).timeout == old(self).timeout,
    {
        let mut indata: u8 = 0;
        self.sdahi();
        let mut i: u32 = 0;
        while i < 8
            invariant
                i <= 8,
                self.udelay == old(self).udelay && self.timeout == old(self).timeout,
            decreases 8 - i,
        {
            self.sclhi()?;
            indata = indata << 1u8;
            match self.ops.get_sda() {
                Some(true) => {
                    indata = indata | 0x01;
                },
                _ => {},
            }
            self.ops.set_scl(false);
            let delay = if i == 7 { self.udelay / 2 } else { self.udelay };
            spin(delay);
            i = i + 1;
        }
        Ok(indata)
    }

    /// Sends address byte `addr`, retrying (STOP, delay, START) up to
    /// `retries` more times while it is not acknowledged; the last ACK
    /// result comes back.
    fn try_address(&mut self, addr: u8, retries: u32) -> (r: Result<i32, Error>)
        ensures
            r matches Ok(v) ==> v == 0 || v == 1,
            r is Err ==> r == Err::<i32, Error>(Error::Timeout),
            final(self).udelay == old(self).udelay && final(self).timeout == old(self).timeout,
            r is Ok ==> sda_prefix(old(self).ops.sda_sets() + byte_bits(addr), final(self).ops.sda_sets()),
    {
        let mut ret: i32 = 0;
        let mut i: u32 = 0;
        loop
            invariant_except_break
                i <= retries,
                ret == 0 || ret == 1,
                self.udelay == old(self).udelay && self.timeout == old(self).timeout,
                i > 0 ==> sda_prefix(old(self).ops.sda_sets() + byte_bits(addr), self.ops.sda_sets()),
                i == 0 ==> self.ops.sda_sets() == old(self).ops.sda_sets(),
            ensures
                ret == 0 || ret == 1,
                self.udelay == old(self).udelay && self.timeout == old(self).timeout,
                sda_prefix(old(self).ops.sda_sets() + byte_bits(addr), self.ops.sda_sets()),
            decreases retries - i,
        {
            let ghost before = self.ops.sda_sets();
            ret = self.i2c_outb(addr)?;
            proof {
                let p = old(self).ops.sda_sets() + byte_bits(addr);
                if i == 0 {
                    assert(self.ops.sda_sets().subrange(0, p.len() as int) =~= p);
                } else {
                    lemma_sda_prefix_trans(p, before, self.ops.sda_sets());
                }
            }
            if ret == 1 || i == retries {
                break;
            }
            let ghost b2 = self.ops.sda_sets();
            self.i2c_stop()?;
            spin(self.udelay);
            let ghost b3 = self.ops.sda_sets();
            self.i2c_start();
            proof {
                let p = old(self).ops.sda_sets() + byte_bits(addr);
                assert(sda_prefix(b3, self.ops.sda_sets())) by {
                    assert(self.ops.sda_sets().subrange(0, b3.len() as int) =~= b3);
                }
                lemma_sda_prefix_trans(p, b2, b3);
                lemma_sda_prefix_trans(p, b3, self.ops.sda_sets());
            }
            i = i + 1;
        }
        Ok(ret)
    }

    /// Sends the message's bytes; a NAK is an `IoError` unless the message
    /// ignores NAKs. Returns how many bytes were sent.
    fn sendbytes(&mut self, msg: &I2cMsg) -> (r: Result<usize, Error>)
        ensures
            r matches Ok(n) ==> n == msg.buf@.len(),
            r is Err ==> r == Err::<usize, Error>(Error::IoError) || r == Err::<usize, Error>(Error::Timeout),
            final(self).udelay == old(self).udelay && final(self).timeout == old(self).timeout,
    {
        let nak_ok = msg.flags & I2C_M_IGNORE_NAK != 0;
        let mut wrcount: usize = 0;
        while wrcount < msg.buf.len()
            invariant
                wrcount <= msg.buf@.len(),
                self.udelay == old(self).udelay && self.timeout == old(self).timeout,
            decreases msg.buf.len() - wrcount,
        {
            let retval = self.i2c_outb(msg.buf[wrcount])?;
            if retval > 0 || (nak_ok && retval == 0) {
                wrcount = wrcount + 1;
            } else {
                return Err(Error::IoError);
            }
        }
        Ok(wrcount)
    }

    /// Sends ACK (SDA low) or leaves SDA high for NAK, and clocks it.
    fn acknak(&mut self, is_ack: bool) -> (r: Result<(), Error>)
        ensures
            r is Ok || r == Err::<(), Error>(Error::Timeout),
            final(self).udelay == old(self).udelay && final(self).timeout == old(self).timeout,
    {
        if is_ack {
            self.ops.set_sda(false);
        }
        self.udelay_half();
        self.sclhi()?;
        self.scllo();
        Ok(())
    }

    /// Reads the message's bytes into its buffer, acknowledging all but the
    /// last unless the message asks for no ACKs. With `I2C_M_RECV_LEN` the
    /// first byte is a length (1 to 32, else `IoError`) by which the buffer
    /// grows. `NotSupported` when SDA cannot be read.
    fn readbytes(&mut self, msg: &mut I2cMsg) -> (r: Result<usize, Error>)
        ensures
            r matches Ok(n) ==> n == old(msg).buf@.len(),
            final(msg).addr == old(msg).addr && final(msg).flags == old(msg).flags,
            final(self).udelay == old(self).udelay && final(self).timeout == old(self).timeout,
    {
        if self.ops.get_sda().is_none() {
            return Err(Error::NotSupported);
        }
        let mut rdcount: usize = 0;
        let flags = msg.flags;
        let n0 = msg.buf.len();
        let mut count: usize = n0;
        let mut i: usize = 0;
        while i < n0
            invariant
                i <= n0,
                rdcount == i,
                n0 <= count,
                msg.buf@.len() == count,
                n0 == old(msg).buf@.len(),
                msg.addr == old(msg).addr && msg.flags == old(msg).flags && flags == msg.flags,
                self.udelay == old(self).udelay && self.timeout == old(self).timeout,
            decreases n0 - i,
        {
            let inval = self.i2c_inb()?;
            msg.buf.set(i, inval);
            rdcount = rdcount + 1;
            if rdcount == 1 && (flags & I2C_M_RECV_LEN != 0) {
                if inval == 0 || inval as usize > I2C_SMBUS_BLOCK_MAX {
                    if flags & I2C_M_NO_RD_ACK == 0 {
                        self.acknak(false)?;
                    }
                    return Err(Error::IoError);
                }
                let grow = inval as usize;
                let mut g: usize = 0;
                while g < grow
                    invariant
                        g <= grow,
                        grow <= I2C_SMBUS_BLOCK_MAX,
                        msg.buf@.len() == count + g,
                        msg.addr == old(msg).addr && msg.flags == old(msg).flags,
                    decreases grow - g,
                {
                    msg.buf.push(0u8);
                    g = g + 1;
                }
                count = msg.buf.len();
            }
            if flags & I2C_M_NO_RD_ACK == 0 {
                let remaining = count - rdcount;
                self.acknak(remaining > 0)?;
            }
            i = i + 1;
        }
        Ok(rdcount)
    }

    /// Addresses the message's slave: one address byte for 7-bit addresses,
    /// two for 10-bit ones (plus a repeated START and the read address for
    /// reads). A missing ACK is `NotFound` (`IoError` for the 10-bit read
    /// address) unless the message ignores NAKs.
    fn bit_do_address(&mut self, msg: &I2cMsg, retries: u32) -> (r: Result<(), Error>)
        ensures
            final(self).udelay == old(self).udelay && final(self).timeout == old(self).timeout,
            msg.flags & I2C_M_TEN == 0 && (r is Ok || r == Err::<(), Error>(Error::NotFound)) ==> sda_prefix(
                old(self).ops.sda_sets() + byte_bits(addr7_byte(msg.addr, msg.flags)), final(self).ops.sda_sets()),
    {
        let flags = msg.flags;
        let nak_ok = flags & I2C_M_IGNORE_NAK != 0;
        if flags & I2C_M_TEN != 0 {
            let addr: u8 = 0xf0u8 | (((msg.addr >> 7u16) & 0x06u16) as u8);
            let ret = self.try_address(addr, retries)?;
            if ret != 1 && !nak_ok {
                return Err(Error::NotFound);
            }
            let ret = self.i2c_outb((msg.addr & 0xffu16) as u8)?;
            if ret != 1 && !nak_ok {
                return Err(Error::NotFound);
            }
            if flags & I2C_M_RD != 0 {
                self.i2c_repstart()?;
                let raddr = addr | 0x01;
                let ret = self.try_address(raddr, retries)?;
                if ret != 1 && !nak_ok {
                    return Err(Error::IoError);
                }
            }
        } else {
            let rd: u16 = if flags & I2C_M_RD != 0 { 1 } else { 0 };
            let mut addr: u8 = ((msg.addr << 1u16) | rd) as u8;
            if flags & I2C_M_REV_DIR_ADDR != 0 {
                addr = addr ^ 1;
            }
            assert(addr == addr7_byte(msg.addr, msg.flags));
            let ret = self.try_address(addr, retries)?;
            if ret != 1 && !nak_ok {
                return Err(Error::NotFound);
            }
        }
        Ok(())
    }

    /// A whole transfer: START, then for each message (unless it asks for no
    /// START) a STOP+START or repeated START and its address, then its
    /// bytes; STOP at the end. Addressing errors are passed over for
    /// messages that ignore NAKs; any other error stops the transfer after a
    /// STOP. Returns the number of messages.
    fn bit_xfer(&mut self, adapter: &I2cAdapter, msgs: &mut Vec<I2cMsg>) -> (r: Result<usize, Error>)
        ensures
            r matches Ok(n) ==> n == old(msgs)@.len(),
            final(msgs)@.len() == old(msgs)@.len(),
    {
        self.ops.pre_xfer()?;
        self.i2c_start();
        let mut i: usize = 0;
        while i < msgs.len()
            invariant
                i <= msgs@.len(),
                msgs@.len() == old(msgs)@.len(),
            decreases msgs.len() - i,
        {
            let nak_ok = msgs[i].flags & I2C_M_IGNORE_NAK != 0;
            if msgs[i].flags & I2C_M_NOSTART == 0 {
                if i > 0 {
                    if msgs[i - 1].flags & I2C_M_STOP != 0 {
                        self.i2c_stop()?;
                        self.i2c_start();
                    } else {
                        self.i2c_repstart()?;
                    }
                }
                if let Err(e) = self.bit_do_address(&msgs[i], adapter.retries) {
                    if !nak_ok {
                        let _ = self.i2c_stop();
                        self.ops.post_xfer();
                        return Err(e);
                    }
                }
            }
            if msgs[i].flags & I2C_M_RD != 0 {
                let ret = self.readbytes(&mut msgs[i]);
                if let Err(e) = ret {
                    let _ = self.i2c_stop();
                    self.ops.post_xfer();
                    return Err(e);
                }
            } else {
                let ret = self.sendbytes(&msgs[i]);
                if let Err(e) = ret {
                    let _ = self.i2c_stop();
                    self.ops.post_xfer();
                    return Err(e);
                }
            }
            i = i + 1;
        }
        self.i2c_stop()?;
        self.ops.post_xfer();
        Ok(msgs.len())
    }
}

impl<O: I2cBitOps> I2cAlgorithm for I2cAlgoBitData<O> {
    closed spec fn xfers(&self) -> Seq<Result<usize, Error>> {
        self.results@
    }

    fn master_xfer(&mut self, adapter: &I2cAdapter, msgs: &mut Vec<I2cMsg>) -> (r: Result<usize, Error>) {
        let r = self.bit_xfer(adapter, msgs);
        self.results = Ghost(old(self).results@.push(r));
        r
    }

    fn functionality(&self) -> u32 {
        0xFFFF_FFFF
    }
}

} // verus!
