//! The RK818 power-management IC: battery voltage and level, supply
//! status, the CPU rail voltage and the on/off state of its regulators,
//! all through registers on an I2C bus.
use vstd::prelude::*;

verus! {

/// Register of the chip id.
pub const REG_CHIP_ID: u8 = 0x17;
/// Regulator enable registers: DC-DC converters 0..4, LDOs 0..8.
pub const REG_DCDC_EN: u8 = 0x23;
pub const REG_LDO_EN: u8 = 0x27;
/// CPU rail (DCDC1) voltage selector.
pub const REG_DCDC1_VSEL: u8 = 0x2F;
/// Battery voltage monitor (12-bit ADC, little-endian) and supply status.
pub const REG_VB_MON: u8 = 0xA0;
pub const REG_SUP_STS: u8 = 0xA0;

/// Errors of an I2C bus.
#[derive(Debug, Clone, Copy, PartialEq, Eq, Structural)]
pub enum I2cError {
    /// The bus is missing or the device did not answer in time.
    Timeout,
    /// The device refused a byte.
    Nack,
}

/// An I2C bus controller.
pub trait I2cDriver {
    /// The transfers made on the bus, in order, with what they carried and
    /// whether they succeeded. Every implementation in this library keeps
    /// it; the empty default stands only for implementations made outside
    /// it, which verification does not see.
    closed spec fn transfers(&self) -> Seq<I2cTransfer> {
        Seq::empty()
    }

    /// Writes register number `reg` to device `addr`, then reads
    /// `buf.len()` bytes into `buf`.
    fn write_read(&mut self, addr: u8, reg: u8, buf: &mut Vec<u8>) -> (r: Result<(), I2cError>)
        ensures
            final(self).transfers() == old(self).transfers().push(I2cTransfer::WriteRead(addr, reg, final(buf)@, r is Ok));

    /// Writes `data` to device `addr`.
    fn write(&mut self, addr: u8, data: &[u8]) -> (r: Result<(), I2cError>)
        ensures
            final(self).transfers() == old(self).transfers().push(I2cTransfer::Write(addr, data@, r is Ok));
}

/// One bus transfer: a register-number write followed by a read (the
/// bytes read), or a plain write (the bytes written); each with whether
/// it succeeded.
pub enum I2cTransfer {
    WriteRead(u8, u8, Seq<u8>, bool),
    Write(u8, Seq<u8>, bool),
}

/// The register read of `reg` from the chip at `addr` that gave `data`
/// and succeeded when `ok`.
pub open spec fn pmic_read(addr: u8, reg: u8, data: Seq<u8>, ok: bool) -> Seq<I2cTransfer> {
    seq![I2cTransfer::WriteRead(addr, reg, data, ok)]
}

/// Millivolts of a battery ADC reading: 12 bits of the little-endian
/// word, 1.8 V reference, divided by four.
pub open spec fn adc_mv(lo: u8, hi: u8) -> int {
    (((lo as int) + 256 * (hi as int)) % 4096) * 7200 / 4096
}

/// Charge level of a battery voltage: 0 % at 3.0 V or less, 100 % above
/// 4.2 V, linear in between.
pub open spec fn level_of_mv(mv: int) -> int {
    if mv < 3000 {
        0
    } else if mv > 4200 {
        100
    } else {
        (mv - 3000) * 100 / 1200
    }
}

/// The DCDC1 selector for `mv` millivolts: Vout = 712.5 mV + sel × 12.5 mV,
/// so sel = (mv − 712.5) / 12.5 rounded down, 0 below 712.5 mV and at
/// most 63.
pub open spec fn cpu_vsel(mv: int) -> int {
    if 2 * mv < 1425 {
        0
    } else if (2 * mv - 1425) / 25 > 63 {
        63
    } else {
        (2 * mv - 1425) / 25
    }
}

/// The enable register and bit of regulator `id`: DC-DC converters 0..4,
/// LDOs 4..12; `None` for other ids.
pub open spec fn regulator_bit(id: u8) -> Option<(u8, u8)> {
    if id < 4 {
        Some((REG_DCDC_EN, (1u8 << id) as u8))
    } else if id < 12 {
        Some((REG_LDO_EN, (1u8 << ((id - 4) as u8)) as u8))
    } else {
        None
    }
}

/// Millivolts of a battery ADC reading (see `adc_mv`).
pub fn battery_mv(lo: u8, hi: u8) -> (mv: u16)
    ensures
        mv == adc_mv(lo, hi),
{
    let raw: u16 = ((hi as u16) << 8u16) | (lo as u16);
    assert(raw == (lo as int) + 256 * (hi as int)) by (bit_vector)
        requires raw == ((hi as u16) << 8u16) | (lo as u16);
    let adc = raw & 0x0FFF;
    assert(adc == raw % 4096) by (bit_vector)
        requires adc == raw & 0x0FFF;
    let mv = (adc as u32) * 1800 * 4 / 4096;
    mv as u16
}

/// Charge level of a battery voltage (see `level_of_mv`).
pub fn battery_level_of(mv: u16) -> (level: u8)
    ensures
        level == level_of_mv(mv as int),
        level <= 100,
{
    if mv < 3000 {
        0
    } else if mv > 4200 {
        100
    } else {
        (((mv - 3000) as u32) * 100 / 1200) as u8
    }
}

/// The DCDC1 selector for `mv` millivolts (see `cpu_vsel`).
pub fn cpu_voltage_sel(mv: u16) -> (sel: u8)
    ensures
        sel == cpu_vsel(mv as int),
        sel <= 63,
{
    let twice: u32 = 2 * (mv as u32);
    if twice < 1425 {
        0
    } else {
        let s = (twice - 1425) / 25;
        if s > 63 { 63 } else { s as u8 }
    }
}

/// The enable register and bit of regulator `id` (see `regulator_bit`).
pub fn regulator_reg_bit(id: u8) -> (r: Option<(u8, u8)>)
    ensures
        r == regulator_bit(id),
{
    if id < 4 {
        Some((REG_DCDC_EN, 1u8 << id))
    } else if id < 12 {
        Some((REG_LDO_EN, 1u8 << (id - 4)))
    } else {
        None
    }
}

/// The RK818 at address `i2c_addr` on bus `i2c_bus`.
pub struct PmicDriver {
    pub i2c_bus: u8,
    pub i2c_addr: u8,
}

impl PmicDriver {
    /// The driver for the chip at `i2c_addr` on bus `i2c_bus`.
    pub fn new(i2c_bus: u8, i2c_addr: u8) -> (p: PmicDriver)
        ensures
            p.i2c_bus == i2c_bus && p.i2c_addr == i2c_addr,
    {
        PmicDriver { i2c_bus, i2c_addr }
    }

    /// Reads `len` bytes from register `reg`.
    fn read_reg<B: I2cDriver>(&self, bus: &mut B, reg: u8, len: usize) -> (r: Result<Vec<u8>, I2cError>)
        ensures
            r matches Ok(v) ==> v@.len() == len,
            exists|data: Seq<u8>, ok: bool| #![trigger pmic_read(self.i2c_addr, reg, data, ok)]
                final(bus).transfers() == old(bus).transfers() + pmic_read(self.i2c_addr, reg, data, ok)
                    && (r is Ok <==> ok && data.len() == len) && (r matches Ok(v) ==> v@ == data),
    {
        let mut buf: Vec<u8> = Vec::new();
        let mut i: usize = 0;
        while i < len
            invariant
                i <= len,
                buf@.len() == i,
            decreases len - i,
        {
            buf.push(0);
            i = i + 1;
        }
        let res = bus.write_read(self.i2c_addr, reg, &mut buf);
        proof {
            assert(bus.transfers() =~= old(bus).transfers() + pmic_read(self.i2c_addr, reg, buf@, res is Ok));
        }
        match res {
            Ok(()) => {},
            Err(e) => { return Err(e); },
        }
        if buf.len() != len {
            return Err(I2cError::Nack);
        }
        Ok(buf)
    }

    /// Writes the one-byte value `val` to register `reg`: the frame is the
    /// register number, then the value.
    fn write_reg<B: I2cDriver>(&self, bus: &mut B, reg: u8, val: u8) -> (r: Result<(), I2cError>)
        ensures
            final(bus).transfers() == old(bus).transfers().push(I2cTransfer::Write(self.i2c_addr, seq![reg, val], r is Ok)),
    {
        let frame: [u8; 2] = [reg, val];
        let r = bus.write(self.i2c_addr, &frame);
        assert(frame@ =~= seq![reg, val]);
        r
    }

    /// Checks that the chip answers (reads its id), then switches on all
    /// DC-DC converters (0x0F) and all LDOs (0xFF).
    pub fn init<B: I2cDriver>(&mut self, bus: &mut B) -> (r: Result<(), I2cError>)
        ensures
            *final(self) == *old(self),
    {
        let _id = self.read_reg(bus, REG_CHIP_ID, 1)?;
        self.write_reg(bus, REG_DCDC_EN, 0x0F)?;
        self.write_reg(bus, REG_LDO_EN, 0xFF)?;
        Ok(())
    }

    /// The battery voltage in millivolts.
    pub fn read_battery_voltage<B: I2cDriver>(&mut self, bus: &mut B) -> (r: Result<u16, I2cError>)
        ensures
            *final(self) == *old(self),
            r matches Ok(mv) ==> exists|lo: u8, hi: u8| mv == adc_mv(lo, hi),
            exists|data: Seq<u8>, ok: bool| #![trigger pmic_read(old(self).i2c_addr, REG_VB_MON, data, ok)]
                final(bus).transfers() == old(bus).transfers() + pmic_read(old(self).i2c_addr, REG_VB_MON, data, ok)
                    && (r is Ok <==> ok && data.len() == 2) && (r matches Ok(mv) ==> mv == adc_mv(data[0], data[1])),
    {
        let data = self.read_reg(bus, REG_VB_MON, 2)?;
        Ok(battery_mv(data[0], data[1]))
    }

    /// The battery charge level in percent.
    pub fn read_battery_level<B: I2cDriver>(&mut self, bus: &mut B) -> (r: Result<u8, I2cError>)
        ensures
            *final(self) == *old(self),
            r matches Ok(l) ==> l <= 100 && exists|mv: u16| l == level_of_mv(mv as int),
            exists|data: Seq<u8>, ok: bool| #![trigger pmic_read(old(self).i2c_addr, REG_VB_MON, data, ok)]
                final(bus).transfers() == old(bus).transfers() + pmic_read(old(self).i2c_addr, REG_VB_MON, data, ok)
                    && (r is Ok <==> ok && data.len() == 2) && (r matches Ok(l) ==> l == level_of_mv(adc_mv(data[0],
                    data[1]))),
    {
        let mv = self.read_battery_voltage(bus)?;
        Ok(battery_level_of(mv))
    }

    /// Whether USB power is present (bit 1 of the supply status).
    pub fn is_usb_connected<B: I2cDriver>(&mut self, bus: &mut B) -> (r: Result<bool, I2cError>)
        ensures
            *final(self) == *old(self),
            exists|data: Seq<u8>, ok: bool| #![trigger pmic_read(old(self).i2c_addr, REG_SUP_STS, data, ok)]
                final(bus).transfers() == old(bus).transfers() + pmic_read(old(self).i2c_addr, REG_SUP_STS, data, ok)
                    && (r is Ok <==> ok && data.len() == 1) && (r matches Ok(b) ==> b == (data[0] & 0x02 != 0)),
    {
        let status = self.read_reg(bus, REG_SUP_STS, 1)?;
        Ok(status[0] & 0x02 != 0)
    }

    /// Whether the battery is charging (bit 0 of the supply status).
    pub fn is_charging<B: I2cDriver>(&mut self, bus: &mut B) -> (r: Result<bool, I2cError>)
        ensures
            *final(self) == *old(self),
            exists|data: Seq<u8>, ok: bool| #![trigger pmic_read(old(self).i2c_addr, REG_SUP_STS, data, ok)]
                final(bus).transfers() == old(bus).transfers() + pmic_read(old(self).i2c_addr, REG_SUP_STS, data, ok)
                    && (r is Ok <==> ok && data.len() == 1) && (r matches Ok(b) ==> b == (data[0] & 0x01 != 0)),
    {
        let status = self.read_reg(bus, REG_SUP_STS, 1)?;
        Ok(status[0] & 0x01 != 0)
    }

    /// Programs the CPU rail for `voltage_mv` millivolts (selector
    /// `cpu_vsel(voltage_mv)`).
    pub fn set_cpu_voltage<B: I2cDriver>(&mut self, bus: &mut B, voltage_mv: u16) -> (r: Result<(), I2cError>)
        ensures
            *final(self) == *old(self),
            final(bus).transfers() == old(bus).transfers().push(I2cTransfer::Write(
                old(self).i2c_addr,
                seq![REG_DCDC1_VSEL, cpu_vsel(voltage_mv as int) as u8],
                r is Ok,
            )),
    {
        let sel = cpu_voltage_sel(voltage_mv);
        self.write_reg(bus, REG_DCDC1_VSEL, sel)
    }

    /// Switches regulator `id` on (read-modify-write of its enable bit);
    /// other ids are left alone.
    pub fn enable_regulator<B: I2cDriver>(&mut self, bus: &mut B, id: u8) -> (r: Result<(), I2cError>)
        ensures
            *final(self) == *old(self),
            regulator_bit(id) is None ==> r is Ok && final(bus).transfers() == old(bus).transfers(),
            regulator_bit(id) matches Some((reg, bit)) ==> exists|data: Seq<u8>, ok: bool|
                #![trigger pmic_read(old(self).i2c_addr, reg, data, ok)] {
                &&& ok && data.len() == 1 ==> final(bus).transfers() == (old(bus).transfers() + pmic_read(old(self).i2c_addr, reg, data, ok)).push(I2cTransfer::Write(
                    old(self).i2c_addr,
                    seq![reg, (data[0] | bit) as u8],
                    r is Ok,
                ))
                &&& !(ok && data.len() == 1) ==> r is Err && final(bus).transfers() == (old(bus).transfers() + pmic_read(old(self).i2c_addr, reg, data, ok))
            },
    {
        match regulator_reg_bit(id) {
            None => Ok(()),
            Some((reg, bit)) => {
                let en = self.read_reg(bus, reg, 1)?;
                self.write_reg(bus, reg, en[0] | bit)
            },
        }
    }

    /// Switches regulator `id` off (read-modify-write of its enable bit);
    /// other ids are left alone.
    pub fn disable_regulator<B: I2cDriver>(&mut self, bus: &mut B, id: u8) -> (r: Result<(), I2cError>)
        ensures
            *final(self) == *old(self),
            regulator_bit(id) is None ==> r is Ok && final(bus).transfers() == old(bus).transfers(),
            regulator_bit(id) matches Some((reg, bit)) ==> exists|data: Seq<u8>, ok: bool|
                #![trigger pmic_read(old(self).i2c_addr, reg, data, ok)] {
                &&& ok && data.len() == 1 ==> final(bus).transfers() == (old(bus).transfers() + pmic_read(old(self).i2c_addr, reg, data, ok)).push(I2cTransfer::Write(
                    old(self).i2c_addr,
                    seq![reg, (data[0] & ! bit) as u8],
                    r is Ok,
                ))
                &&& !(ok && data.len() == 1) ==> r is Err && final(bus).transfers() == (old(bus).transfers() + pmic_read(old(self).i2c_addr, reg, data, ok))
            },
    {
        match regulator_reg_bit(id) {
            None => Ok(()),
            Some((reg, bit)) => {
                let en = self.read_reg(bus, reg, 1)?;
                self.write_reg(bus, reg, en[0] & !bit)
            },
        }
    }
}

/// Brings up the chip at `i2c_addr` on bus `i2c_bus`: the driver when its
/// initialisation succeeds.
pub fn init_pmic<B: I2cDriver>(bus: &mut B, i2c_bus: u8, i2c_addr: u8) -> (r: Option<PmicDriver>)
    ensures
        r matches Some(p) ==> p.i2c_bus == i2c_bus && p.i2c_addr == i2c_addr,
{
    let mut pmic = PmicDriver::new(i2c_bus, i2c_addr);
    match pmic.init(bus) {
        Ok(()) => Some(pmic),
        Err(_) => None,
    }
}

/// The battery level, when there is a chip and it answers.
pub fn battery_level<B: I2cDriver>(pmic: &mut Option<PmicDriver>, bus: &mut B) -> (r: Option<u8>)
    ensures
        *final(pmic) == *old(pmic),
        (*old(pmic)) is None ==> r is None,
        r matches Some(l) ==> l <= 100,
        (*old(pmic)) is None ==> final(bus).transfers() == old(bus).transfers(),
        (*old(pmic)) matches Some(p) ==> exists|data: Seq<u8>, ok: bool| #![trigger pmic_read(p.i2c_addr, REG_VB_MON, data, ok)]
            final(bus).transfers() == old(bus).transfers() + pmic_read(p.i2c_addr, REG_VB_MON, data, ok) && (r is Some
                <==> ok && data.len() == 2) && (r matches Some(l) ==> l == level_of_mv(adc_mv(data[0], data[1]))),
{
    match pmic {
        None => None,
        Some(p) => match p.read_battery_level(bus) {
            Ok(l) => Some(l),
            Err(_) => None,
        },
    }
}

/// Whether the battery is charging; `false` without a chip or an answer.
pub fn is_charging<B: I2cDriver>(pmic: &mut Option<PmicDriver>, bus: &mut B) -> (b: bool)
    ensures
        *final(pmic) == *old(pmic),
        (*old(pmic)) is None ==> !b,
        (*old(pmic)) is None ==> final(bus).transfers() == old(bus).transfers(),
        (*old(pmic)) matches Some(p) ==> exists|data: Seq<u8>, ok: bool| #![trigger pmic_read(p.i2c_addr, REG_SUP_STS, data, ok)]
            final(bus).transfers() == old(bus).transfers() + pmic_read(p.i2c_addr, REG_SUP_STS, data, ok) && b == (ok
                && data.len() == 1 && data[0] & 0x01 != 0),
{
    match pmic {
        None => false,
        Some(p) => match p.is_charging(bus) {
            Ok(c) => c,
            Err(_) => false,
        },
    }
}

} // verus!
