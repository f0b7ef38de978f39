//! The ES8316 audio codec behind the RK3399's I2C0 controller: reset and
//! power-up, output routing, volume and mute.
//!
//! A codec register is written in two controller steps: the device
//! address and register number with a start command, then the value with
//! a write command, each followed by a bounded wait for the command bit
//! to clear.
use vstd::prelude::*;
use crate::clk::mmio::{IoEvent, RegisterIo, extends, lemma_extends_trans, since};

verus! {

/// I2C0 controller of the RK3399 and the codec's address on it.
pub const AUDIO_I2C_BASE: u64 = 0xFF3C_0000;
pub const ES8316_ADDR: u8 = 0x11;

/// Codec registers.
pub const REG_MUTE: u8 = 0x36;
pub const REG_VOLUME: u8 = 0x38;
pub const REG_ROUTE: u8 = 0x39;

/// Audio errors.
#[derive(Debug, Clone, Copy, PartialEq, Eq, Structural)]
pub enum AudioError {
    NotInitialized,
    DeviceError,
    InvalidParameter,
}

/// Where sound goes.
#[derive(Debug, Clone, Copy, PartialEq, Eq, Structural)]
pub enum AudioRoute {
    Earpiece,
    Speaker,
    Bluetooth,
    Headphones,
}

/// The route register value of a route; Bluetooth is routed elsewhere.
pub open spec fn route_value(route: AudioRoute) -> Option<u8> {
    match route {
        AudioRoute::Earpiece => Some(0x01u8),
        AudioRoute::Speaker => Some(0x02u8),
        AudioRoute::Headphones => Some(0x04u8),
        AudioRoute::Bluetooth => None,
    }
}

/// The volume register value of a volume in percent (above 100 counts as
/// 100): scaled to 0..=255.
pub open spec fn volume_value(volume: u8) -> int {
    (if volume > 100 { 100int } else { volume as int }) * 255 / 100
}

/// The route register value of `route` (see `route_value`).
pub fn route_reg(route: AudioRoute) -> (r: Option<u8>)
    ensures
        r == route_value(route),
{
    match route {
        AudioRoute::Earpiece => Some(0x01),
        AudioRoute::Speaker => Some(0x02),
        AudioRoute::Headphones => Some(0x04),
        AudioRoute::Bluetooth => None,
    }
}

/// The volume register value of `volume` (see `volume_value`).
pub fn volume_reg(volume: u8) -> (v: u8)
    ensures
        v == volume_value(volume),
{
    let pct: u32 = if volume > 100 { 100 } else { volume as u32 };
    (pct * 255 / 100) as u8
}

/// The codec and whether it has been brought up.
pub struct AudioDevice {
    pub i2c_base: u64,
    pub i2c_addr: u8,
    pub initialized: bool,
}

/// Whether `t` is the codec writes of `regs` (register and value pairs),
/// in order: `t` cut at `cuts` gives one codec write per pair.
pub open spec fn codec_writes_at(base: u64, addr: u8, regs: Seq<(u8, u8)>, t: Seq<IoEvent>, cuts: Seq<int>) -> bool {
    &&& cuts.len() == regs.len() + 1
    &&& cuts[0] == 0
    &&& cuts.last() == t.len()
    &&& forall|i: int| 0 <= i < regs.len() ==> 0 <= #[trigger] cuts[i] <= cuts[i + 1] <= t.len()
    &&& forall|i: int| 0 <= i < regs.len() ==> codec_write(base, addr, (#[trigger] regs[i]).0, regs[i].1,
        t.subrange(cuts[i], cuts[i + 1]))
}

/// Whether `t` is the codec writes of `regs` (register and value pairs),
/// in order.
pub open spec fn codec_writes(base: u64, addr: u8, regs: Seq<(u8, u8)>, t: Seq<IoEvent>) -> bool {
    exists|cuts: Seq<int>| #[trigger] codec_writes_at(base, addr, regs, t, cuts)
}

/// The codec bring-up: reset, power up, 8 kHz, DAC and ADC on, then half
/// volume.
pub open spec fn init_sequence() -> Seq<(u8, u8)> {
    seq![(0x00u8, 0x1Fu8), (0x01u8, 0x00u8), (0x02u8, 0x00u8), (0x03u8, 0x00u8), (REG_VOLUME, 0x80u8)]
}

/// Whether `t` consists of reads of register `reg` only.
pub open spec fn polls(reg: u64, t: Seq<IoEvent>) -> bool {
    forall|i: int| 0 <= i < t.len() ==> (#[trigger] t[i] matches IoEvent::Read(a, _) && a == reg)
}

/// Whether `t` is the accesses of writing `val` to codec register `reg`
/// through the I2C controller at `base` for the codec at `addr`: the
/// address byte and its command, a wait, the value and its command, a
/// wait (the waits only poll the command register).
pub open spec fn codec_write(base: u64, addr: u8, reg: u8, val: u8, t: Seq<IoEvent>) -> bool {
    exists|w1: Seq<IoEvent>, w2: Seq<IoEvent>| #![trigger polls((base + 4) as u64, w1), polls((base + 4) as u64, w2)]
        polls((base + 4) as u64, w1) && polls((base + 4) as u64, w2) && codec_addr_events(base, addr, reg) + w1
            + codec_val_events(base, val) + w2 == t
}

/// The address byte for register `reg` of the codec at `addr`, and its
/// send command.
pub open spec fn codec_addr_events(base: u64, addr: u8, reg: u8) -> Seq<IoEvent> {
    seq![
        IoEvent::Write(base, (((addr as u32) << 1u32) | (reg as u32)) as u32),
        IoEvent::Write((base + 4) as u64, 1u32),
    ]
}

/// The value byte `val` and its send command.
pub open spec fn codec_val_events(base: u64, val: u8) -> Seq<IoEvent> {
    seq![IoEvent::Write(base, val as u32), IoEvent::Write((base + 4) as u64, 2u32)]
}

/// Waits (boundedly) for the controller's command register to clear `bit`.
fn wait_clear<R: RegisterIo>(io: &mut R, cmd_reg: u64, bit: u32)
    ensures
        extends(old(io).trace(), final(io).trace()),
        polls(cmd_reg, since(old(io).trace(), final(io).trace())),
{
    let mut k: u32 = 0;
    proof {
        assert(io.trace().subrange(0, io.trace().len() as int) =~= io.trace());
    }
    while k < 1000
        invariant
            k <= 1000,
            extends(old(io).trace(), io.trace()),
            polls(cmd_reg, since(old(io).trace(), io.trace())),
        decreases 1000 - k,
    {
        let ghost tb = io.trace();
        let v = io.read_reg(cmd_reg);
        proof {
            assert(io.trace().subrange(0, tb.len() as int) =~= tb);
            lemma_extends_trans(old(io).trace(), tb, io.trace());
            assert(since(old(io).trace(), io.trace()) =~= since(old(io).trace(), tb).push(IoEvent::Read(cmd_reg, v)));
        }
        if (v & bit) == 0 {
            return;
        }
        k = k + 1;
    }
}

impl AudioDevice {
    /// The codec at address 0x11 on I2C0, not yet initialised.
    pub fn new() -> (d: AudioDevice)
        ensures
            d.i2c_base == AUDIO_I2C_BASE && d.i2c_addr == ES8316_ADDR && !d.initialized,
    {
        AudioDevice { i2c_base: AUDIO_I2C_BASE, i2c_addr: ES8316_ADDR, initialized: false }
    }

    /// Writes `val` to codec register `reg`.
    fn write_reg<R: RegisterIo>(&self, io: &mut R, reg: u8, val: u8) -> (r: Result<(), AudioError>)
        requires
            self.i2c_base == AUDIO_I2C_BASE,
        ensures
            r is Ok,
            extends(old(io).trace(), final(io).trace()),
            codec_write(self.i2c_base, self.i2c_addr, reg, val, since(old(io).trace(), final(io).trace())),
    {
        let data_reg = self.i2c_base;
        let cmd_reg = self.i2c_base + 0x04;
        let ghost t0 = io.trace();
        io.write_reg(data_reg, ((self.i2c_addr as u32) << 1u32) | (reg as u32));
        io.write_reg(cmd_reg, 0x01);
        let ghost t1 = io.trace();
        wait_clear(io, cmd_reg, 0x01);
        let ghost t2 = io.trace();
        io.write_reg(data_reg, val as u32);
        io.write_reg(cmd_reg, 0x02);
        let ghost t3 = io.trace();
        wait_clear(io, cmd_reg, 0x02);
        proof {
            let t4 = io.trace();
            let a = seq![
                IoEvent::Write(data_reg, ((self.i2c_addr as u32) << 1u32) | (reg as u32)),
                IoEvent::Write(cmd_reg, 1u32),
            ];
            let b = seq![IoEvent::Write(data_reg, val as u32), IoEvent::Write(cmd_reg, 2u32)];
            let w1 = since(t1, t2);
            let w2 = since(t3, t4);
            assert(t1 =~= t0 + a);
            assert(t2 =~= t1 + w1);
            assert(t3 =~= t2 + b);
            assert(t4 =~= t3 + w2);
            assert(t4.subrange(0, t0.len() as int) =~= t0);
            assert(since(t0, t4) =~= a + w1 + b + w2);
            assert(cmd_reg == (self.i2c_base + 4) as u64);
        }
        Ok(())
    }

    /// Resets and powers up the codec, selects 8 kHz, enables the DAC and
    /// ADC and sets half volume; the codec is then initialised.
    pub fn init<R: RegisterIo>(&mut self, io: &mut R) -> (r: Result<(), AudioError>)
        requires
            old(self).i2c_base == AUDIO_I2C_BASE,
        ensures
            r is Ok,
            final(self).initialized,
            final(self).i2c_base == old(self).i2c_base && final(self).i2c_addr == old(self).i2c_addr,
            extends(old(io).trace(), final(io).trace()),
            codec_writes(old(self).i2c_base, old(self).i2c_addr, init_sequence(), since(old(io).trace(),
                final(io).trace())),
    {
        let ghost t0 = io.trace();
        proof {
            assert(t0.subrange(0, t0.len() as int) =~= t0);
            assert(since(t0, t0) =~= Seq::<IoEvent>::empty());
            let e: Seq<(u8, u8)> = seq![];
            assert(codec_writes_at(self.i2c_base, self.i2c_addr, e, since(t0, t0), seq![0int]));
        }
        let ghost s0: Seq<(u8, u8)> = seq![];
        let ghost s1 = s0.push((0x00u8, 0x1Fu8));
        let ghost s2 = s1.push((0x01u8, 0x00u8));
        let ghost s3 = s2.push((0x02u8, 0x00u8));
        let ghost s4 = s3.push((0x03u8, 0x00u8));
        self.step(io, Ghost(t0), Ghost(s0), 0x00, 0x1F);
        self.step(io, Ghost(t0), Ghost(s1), 0x01, 0x00);
        self.step(io, Ghost(t0), Ghost(s2), 0x02, 0x00);
        self.step(io, Ghost(t0), Ghost(s3), 0x03, 0x00);
        self.step(io, Ghost(t0), Ghost(s4), REG_VOLUME, 0x80);
        assert(s4.push((REG_VOLUME, 0x80u8)) =~= init_sequence());
        self.initialized = true;
        Ok(())
    }

    /// One more write of the bring-up: `val` to `reg`, after the writes
    /// `done` made since history `t0`.
    fn step<R: RegisterIo>(&self, io: &mut R, t0: Ghost<Seq<IoEvent>>, done: Ghost<Seq<(u8, u8)>>, reg: u8, val: u8)
        requires
            self.i2c_base == AUDIO_I2C_BASE,
            extends(t0@, old(io).trace()),
            codec_writes(self.i2c_base, self.i2c_addr, done@, since(t0@, old(io).trace())),
        ensures
            extends(t0@, final(io).trace()),
            codec_writes(self.i2c_base, self.i2c_addr, done@.push((reg, val)), since(t0@, final(io).trace())),
    {
        let ghost t1 = io.trace();
        let _ = self.write_reg(io, reg, val);
        proof {
            let t2 = io.trace();
            lemma_extends_trans(t0@, t1, t2);
            let a = since(t0@, t1);
            let b = since(t1, t2);
            let t = since(t0@, t2);
            assert(t =~= a + b);
            let cuts = choose|cuts: Seq<int>| #[trigger] codec_writes_at(self.i2c_base, self.i2c_addr, done@, a, cuts);
            let regs = done@.push((reg, val));
            let nc = cuts.push(t.len() as int);
            assert forall|i: int| 0 <= i < regs.len() implies 0 <= #[trigger] nc[i] <= nc[i + 1] <= t.len() by {
                if i < done@.len() {
                    assert(nc[i] == cuts[i] && nc[i + 1] == cuts[i + 1]);
                }
            }
            assert forall|i: int| 0 <= i < regs.len() implies codec_write(self.i2c_base, self.i2c_addr,
                (#[trigger] regs[i]).0, regs[i].1, t.subrange(nc[i], nc[i + 1])) by {
                if i < done@.len() {
                    assert(regs[i] == done@[i]);
                    assert(nc[i] == cuts[i] && nc[i + 1] == cuts[i + 1]);
                    assert(t.subrange(nc[i], nc[i + 1]) =~= a.subrange(cuts[i], cuts[i + 1]));
                } else {
                    assert(nc[i] == a.len() && nc[i + 1] == t.len());
                    assert(t.subrange(nc[i], nc[i + 1]) =~= b);
                }
            }
            assert(codec_writes_at(self.i2c_base, self.i2c_addr, regs, t, nc));
        }
    }

    /// Routes output to `route` (writes `route_value(route)` to the route
    /// register; nothing for Bluetooth); `NotInitialized` before `init`.
    pub fn set_route<R: RegisterIo>(&mut self, io: &mut R, route: AudioRoute) -> (r: Result<(), AudioError>)
        requires
            old(self).i2c_base == AUDIO_I2C_BASE,
        ensures
            *final(self) == *old(self),
            r is Ok <==> old(self).initialized,
            r is Err ==> r == Err::<(), AudioError>(AudioError::NotInitialized),
            extends(old(io).trace(), final(io).trace()),
            old(self).initialized && route_value(route) is Some ==> codec_write(old(self).i2c_base, old(self).i2c_addr, REG_ROUTE,
                route_value(route).unwrap(), since(old(io).trace(), final(io).trace())),
            !old(self).initialized || route_value(route) is None ==> final(io).trace() == old(io).trace(),
    {
        proof {
            assert(io.trace().subrange(0, io.trace().len() as int) =~= io.trace());
        }
        if !self.initialized {
            return Err(AudioError::NotInitialized);
        }
        match route_reg(route) {
            Some(v) => { self.write_reg(io, REG_ROUTE, v)?; },
            None => {},
        }
        Ok(())
    }

    /// Sets the volume in percent (writes `volume_value(volume)`);
    /// `NotInitialized` before `init`.
    pub fn set_volume<R: RegisterIo>(&mut self, io: &mut R, volume: u8) -> (r: Result<(), AudioError>)
        requires
            old(self).i2c_base == AUDIO_I2C_BASE,
        ensures
            *final(self) == *old(self),
            r is Ok <==> old(self).initialized,
            r is Err ==> r == Err::<(), AudioError>(AudioError::NotInitialized),
            extends(old(io).trace(), final(io).trace()),
            old(self).initialized ==> codec_write(old(self).i2c_base, old(self).i2c_addr, REG_VOLUME, volume_value(volume) as u8,
                since(old(io).trace(), final(io).trace())),
            !old(self).initialized ==> final(io).trace() == old(io).trace(),
    {
        proof {
            assert(io.trace().subrange(0, io.trace().len() as int) =~= io.trace());
        }
        if !self.initialized {
            return Err(AudioError::NotInitialized);
        }
        let vol = volume_reg(volume);
        self.write_reg(io, REG_VOLUME, vol)?;
        Ok(())
    }

    /// Mutes (0x80) or unmutes (0x00) the output; `NotInitialized` before
    /// `init`.
    pub fn set_mute<R: RegisterIo>(&mut self, io: &mut R, muted: bool) -> (r: Result<(), AudioError>)
        requires
            old(self).i2c_base == AUDIO_I2C_BASE,
        ensures
            *final(self) == *old(self),
            r is Ok <==> old(self).initialized,
            r is Err ==> r == Err::<(), AudioError>(AudioError::NotInitialized),
            extends(old(io).trace(), final(io).trace()),
            old(self).initialized ==> codec_write(old(self).i2c_base, old(self).i2c_addr, REG_MUTE, if muted {
                0x80u8
            } else {
                0x00u8
            }, since(old(io).trace(), final(io).trace())),
            !old(self).initialized ==> final(io).trace() == old(io).trace(),
    {
        proof {
            assert(io.trace().subrange(0, io.trace().len() as int) =~= io.trace());
        }
        if !self.initialized {
            return Err(AudioError::NotInitialized);
        }
        if muted {
            self.write_reg(io, REG_MUTE, 0x80)?;
        } else {
            self.write_reg(io, REG_MUTE, 0x00)?;
        }
        Ok(())
    }
}

/// A codec brought up and ready for use; the error text is what the
/// caller reports when bring-up fails.
pub fn init<R: RegisterIo>(io: &mut R) -> (r: Result<AudioDevice, &'static str>)
    ensures
        r matches Ok(d) && d.initialized && d.i2c_base == AUDIO_I2C_BASE && d.i2c_addr == ES8316_ADDR,
{
    let mut device = AudioDevice::new();
    match device.init(io) {
        Ok(()) => Ok(device),
        Err(_) => Err("Audio init failed"),
    }
}

} // verus!
