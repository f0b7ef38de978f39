//! Memory-mapped GPIO controllers: per-pin direction and level.
//!
//! A controller at `base` has a direction register at `base + 0x400` (bit
//! `n` set: pin `n` drives its line) and one data register per pin, at
//! `base + (4 << n)`.
use vstd::prelude::*;
use crate::clk::mmio::{IoEvent, RegisterIo, set_bits, clear_bits};
use crate::error::KernelError;

verus! {

/// Offset of the direction register.
pub const GPIO_DIR_OFFSET: u64 = 0x400;

/// Which way a pin works.
#[derive(Debug, Clone, Copy, PartialEq, Eq, Structural)]
pub enum GpioDirection {
    Input,
    Output,
}

/// A pin's level; `Low as u32` is 0 and `High as u32` is 1.
#[derive(Debug, Clone, Copy, PartialEq, Eq, Structural)]
pub enum GpioValue {
    Low,
    High,
}

/// Address of the data register of pin `pin` of the controller at `base`.
pub open spec fn gpio_data_reg(base: usize, pin: u32) -> int {
    base + (4u64 << (pin as u64))
}

/// One pin of a controller.
pub struct GpioPin {
    pub base: usize,
    pub pin: u32,
    pub direction: GpioDirection,
}

impl GpioPin {
    /// Pin `pin` of the controller at `base`, as an input.
    pub fn new(base: usize, pin: u32) -> (p: GpioPin)
        ensures
            p.base == base && p.pin == pin && p.direction == GpioDirection::Input,
    {
        GpioPin { base, pin, direction: GpioDirection::Input }
    }

    /// Makes the pin an input or an output: sets or clears bit `pin` of the
    /// direction register.
    pub fn set_direction<R: RegisterIo>(&mut self, io: &mut R, direction: GpioDirection) -> (r: Result<(), KernelError>)
        requires
            old(self).pin < 32,
            old(self).base + GPIO_DIR_OFFSET <= u64::MAX,
        ensures
            r is Ok,
            final(self).direction == direction,
            final(self).base == old(self).base && final(self).pin == old(self).pin,
            exists|cur: u32| final(io).trace() == old(io).trace() + #[trigger] dir_events(
                (old(self).base + GPIO_DIR_OFFSET) as u64, cur, old(self).pin, direction),
    {
        self.direction = direction;
        let dir_reg = self.base as u64 + GPIO_DIR_OFFSET;
        let bit = 1u32 << self.pin;
        match direction {
            GpioDirection::Output => {
                set_bits(io, dir_reg, bit);
                proof {
                    let cur = choose|cur: u32| #[trigger] io.trace() == old(io).trace().push(IoEvent::Read(dir_reg, cur)).push(
                        IoEvent::Write(dir_reg, cur | bit));
                    assert(io.trace() =~= old(io).trace() + dir_events(dir_reg, cur, self.pin, direction));
                }
            },
            GpioDirection::Input => {
                clear_bits(io, dir_reg, bit);
                proof {
                    let cur = choose|cur: u32| #[trigger] io.trace() == old(io).trace().push(IoEvent::Read(dir_reg, cur)).push(
                        IoEvent::Write(dir_reg, cur & !bit));
                    assert(io.trace() =~= old(io).trace() + dir_events(dir_reg, cur, self.pin, direction));
                }
            },
        }
        Ok(())
    }

    /// Drives the pin's line to `value`; `InvalidParameter` when the pin is
    /// not an output.
    pub fn set<R: RegisterIo>(&self, io: &mut R, value: GpioValue) -> (r: Result<(), KernelError>)
        requires
            self.pin < 62,
            gpio_data_reg(self.base, self.pin) <= u64::MAX,
        ensures
            self.direction == GpioDirection::Output <==> r is Ok,
            self.direction != GpioDirection::Output ==> r == Err::<(), KernelError>(
                KernelError::InvalidParameter("Pin not configured as output")),
            self.direction != GpioDirection::Output ==> final(io).trace() == old(io).trace(),
            self.direction == GpioDirection::Output ==> final(io).trace() == old(io).trace().push(IoEvent::Write(
                gpio_data_reg(self.base, self.pin) as u64, level_word(value))),
    {
        if self.direction != GpioDirection::Output {
            return Err(KernelError::InvalidParameter("Pin not configured as output"));
        }
        let data_reg = self.base as u64 + (4u64 << self.pin as u64);
        let word: u32 = match value {
            GpioValue::Low => 0,
            GpioValue::High => 1,
        };
        io.write_reg(data_reg, word);
        Ok(())
    }

    /// Reads the pin's line: `High` when its data register is not 0.
    pub fn get<R: RegisterIo>(&self, io: &mut R) -> (v: GpioValue)
        requires
            self.pin < 62,
            gpio_data_reg(self.base, self.pin) <= u64::MAX,
        ensures
            exists|val: u32| #![trigger gpio_read(gpio_data_reg(self.base, self.pin) as u64, val)]
                final(io).trace() == old(io).trace() + gpio_read(gpio_data_reg(self.base, self.pin) as u64, val)
                    && v == level_spec(val),
    {
        let data_reg = self.base as u64 + (4u64 << self.pin as u64);
        let val = io.read_reg(data_reg);
        assert(io.trace() =~= old(io).trace() + gpio_read(data_reg, val));
        level_of(val)
    }

    /// Drives the line to the level other than the one it reads;
    /// `InvalidParameter` when the pin is not an output.
    pub fn toggle<R: RegisterIo>(&self, io: &mut R) -> (r: Result<(), KernelError>)
        requires
            self.pin < 62,
            gpio_data_reg(self.base, self.pin) <= u64::MAX,
        ensures
            self.direction == GpioDirection::Output <==> r is Ok,
            self.direction != GpioDirection::Output ==> r == Err::<(), KernelError>(
                KernelError::InvalidParameter("Pin not configured as output")),
            exists|val: u32| #![trigger gpio_read(gpio_data_reg(self.base, self.pin) as u64, val)]
                final(io).trace() == old(io).trace() + gpio_read(gpio_data_reg(self.base, self.pin) as u64, val)
                    + if self.direction == GpioDirection::Output {
                    seq![IoEvent::Write(gpio_data_reg(self.base, self.pin) as u64, if val != 0 { 0u32 } else { 1u32 })]
                } else {
                    seq![]
                },
    {
        let ghost t0 = io.trace();
        let current = self.get(io);
        let ghost t1 = io.trace();
        let new_value = match current {
            GpioValue::Low => GpioValue::High,
            GpioValue::High => GpioValue::Low,
        };
        let r = self.set(io, new_value);
        proof {
            let d = gpio_data_reg(self.base, self.pin) as u64;
            let val = choose|val: u32| t1 == t0 + #[trigger] gpio_read(d, val) && current == level_spec(val);
            assert(level_word(new_value) == if val != 0 { 0u32 } else { 1u32 });
            assert(io.trace() =~= t0 + gpio_read(d, val) + if self.direction == GpioDirection::Output {
                seq![IoEvent::Write(d, if val != 0 { 0u32 } else { 1u32 })]
            } else {
                seq![]
            });
        }
        r
    }

    /// The pin's number.
    pub fn pin_number(&self) -> (n: u32)
        ensures
            n == self.pin,
    {
        self.pin
    }

    /// The pin's direction.
    pub fn direction(&self) -> (d: GpioDirection)
        ensures
            d == self.direction,
    {
        self.direction
    }
}

/// The read of the data register at `data_reg` that gave `val`.
pub open spec fn gpio_read(data_reg: u64, val: u32) -> Seq<IoEvent> {
    seq![IoEvent::Read(data_reg, val)]
}

/// The level a data register word stands for: `High` when not 0.
pub open spec fn level_spec(val: u32) -> GpioValue {
    if val != 0 { GpioValue::High } else { GpioValue::Low }
}

/// The data register word that drives `value`: 0 or 1.
pub open spec fn level_word(value: GpioValue) -> u32 {
    match value {
        GpioValue::Low => 0,
        GpioValue::High => 1,
    }
}

/// The accesses of setting the direction of pin `pin` through the
/// direction register at `dir_reg` that read `cur`: the read, then the
/// write with the pin's bit set (output) or cleared (input).
pub open spec fn dir_events(dir_reg: u64, cur: u32, pin: u32, direction: GpioDirection) -> Seq<IoEvent> {
    seq![IoEvent::Read(dir_reg, cur), IoEvent::Write(dir_reg, match direction {
        GpioDirection::Output => cur | (1u32 << pin),
        GpioDirection::Input => cur & !(1u32 << pin),
    })]
}

/// The level a data register word stands for.
pub fn level_of(val: u32) -> (v: GpioValue)
    ensures
        v == (if val != 0 { GpioValue::High } else { GpioValue::Low }),
{
    if val != 0 {
        GpioValue::High
    } else {
        GpioValue::Low
    }
}

/// A controller of `num_pins` pins at `base`.
pub struct GpioController {
    pub base: usize,
    pub num_pins: u32,
}

impl GpioController {
    /// The controller at `base` with `num_pins` pins.
    pub fn new(base: usize, num_pins: u32) -> (c: GpioController)
        ensures
            c.base == base && c.num_pins == num_pins,
    {
        GpioController { base, num_pins }
    }

    /// Pin `pin`, as an input; `InvalidParameter` when the controller has
    /// no such pin.
    pub fn pin(&self, pin: u32) -> (r: Result<GpioPin, KernelError>)
        ensures
            pin < self.num_pins <==> r is Ok,
            r matches Ok(p) ==> p.base == self.base && p.pin == pin && p.direction == GpioDirection::Input,
            pin >= self.num_pins ==> r == Err::<GpioPin, KernelError>(KernelError::InvalidParameter("Invalid pin number")),
    {
        if pin >= self.num_pins {
            return Err(KernelError::InvalidParameter("Invalid pin number"));
        }
        Ok(GpioPin::new(self.base, pin))
    }

    /// The number of pins.
    pub fn num_pins(&self) -> (n: u32)
        ensures
            n == self.num_pins,
    {
        self.num_pins
    }
}

} // verus!
