//! A configurable stand-in device: it counts the operations asked of it and
//! fails initialisation or shutdown on request; its streaming variant hands
//! out numbered samples.
use vstd::prelude::*;
use crate::traits::{BasicDevice, DeviceCapabilities, DeviceError, DeviceId, PowerState, Streamable};

verus! {

/// What a stand-in device reports and which operations fail.
#[derive(Debug, Clone, Default)]
pub struct MockConfig {
    pub device_id: DeviceId,
    pub name: &'static str,
    pub capabilities: DeviceCapabilities,
    pub fail_init: bool,
    pub fail_shutdown: bool,
}

/// The call counter after one more call (it wraps at `u32::MAX`).
pub open spec fn bumped(c: u32) -> u32 {
    if c == u32::MAX { 0 } else { (c + 1) as u32 }
}

fn bump(c: u32) -> (r: u32)
    ensures
        r == bumped(c),
{
    if c == u32::MAX { 0 } else { c + 1 }
}

/// A stand-in device.
pub struct MockDevice {
    pub config: MockConfig,
    pub initialized: bool,
    pub power_state: PowerState,
    pub call_count: u32,
}

impl MockDevice {
    /// A device that is off, with no calls counted.
    pub fn new(config: MockConfig) -> (d: MockDevice)
        ensures
            d.config == config && !d.initialized && d.power_state == PowerState::Off && d.call_count == 0,
    {
        MockDevice { config, initialized: false, power_state: PowerState::Off, call_count: 0 }
    }

    /// The number of `init`, `shutdown` and `power_save` calls so far.
    pub fn call_count(&self) -> (n: u32)
        ensures
            n == self.call_count,
    {
        self.call_count
    }
}

impl BasicDevice for MockDevice {
    /// Counts the call; `HardwareFailure` when configured to fail, else the
    /// device is initialised and active.
    fn init(&mut self) -> (r: Result<(), DeviceError>)
        ensures
            final(self).call_count == bumped(old(self).call_count),
            final(self).config == old(self).config,
            old(self).config.fail_init ==> r == Err::<(), DeviceError>(DeviceError::HardwareFailure)
                && final(self).initialized == old(self).initialized && final(self).power_state == old(self).power_state,
            !old(self).config.fail_init ==> r is Ok && final(self).initialized && final(self).power_state == PowerState::Active,
    {
        self.call_count = bump(self.call_count);
        if self.config.fail_init {
            return Err(DeviceError::HardwareFailure);
        }
        self.initialized = true;
        self.power_state = PowerState::Active;
        Ok(())
    }

    /// Counts the call; `HardwareFailure` when configured to fail, else the
    /// device is off.
    fn shutdown(&mut self) -> (r: Result<(), DeviceError>)
        ensures
            final(self).call_count == bumped(old(self).call_count),
            final(self).config == old(self).config,
            old(self).config.fail_shutdown ==> r == Err::<(), DeviceError>(DeviceError::HardwareFailure)
                && final(self).initialized == old(self).initialized && final(self).power_state == old(self).power_state,
            !old(self).config.fail_shutdown ==> r is Ok && !final(self).initialized && final(self).power_state == PowerState::Off,
    {
        self.call_count = bump(self.call_count);
        if self.config.fail_shutdown {
            return Err(DeviceError::HardwareFailure);
        }
        self.initialized = false;
        self.power_state = PowerState::Off;
        Ok(())
    }

    /// Counts the call; `NotInitialized` before `init`, else the device
    /// enters `state`.
    fn power_save(&mut self, state: PowerState) -> (r: Result<(), DeviceError>)
        ensures
            final(self).call_count == bumped(old(self).call_count),
            final(self).config == old(self).config,
            final(self).initialized == old(self).initialized,
            !old(self).initialized ==> r == Err::<(), DeviceError>(DeviceError::NotInitialized)
                && final(self).power_state == old(self).power_state,
            old(self).initialized ==> r is Ok && final(self).power_state == state,
    {
        self.call_count = bump(self.call_count);
        if !self.initialized {
            return Err(DeviceError::NotInitialized);
        }
        self.power_state = state;
        Ok(())
    }

    fn device_id(&self) -> (d: DeviceId)
        ensures
            d == self.config.device_id,
    {
        self.config.device_id
    }

    fn capabilities(&self) -> (c: DeviceCapabilities)
        ensures
            c == self.config.capabilities,
    {
        self.config.capabilities
    }

    fn name(&self) -> (n: &str)
        ensures
            n@ == self.config.name@,
    {
        self.config.name
    }
}

/// A stand-in streaming device; its samples are numbered from 0.
pub struct MockStreamDevice {
    pub base: MockDevice,
    pub streaming: bool,
    pub sample_rate: u32,
    pub sample_counter: u32,
}

impl MockStreamDevice {
    /// A stopped device sampling at `sample_rate`.
    pub fn new(config: MockConfig, sample_rate: u32) -> (d: MockStreamDevice)
        ensures
            d.base == MockDevice::new_spec(config) && !d.streaming && d.sample_rate == sample_rate
                && d.sample_counter == 0,
    {
        MockStreamDevice { base: MockDevice::new(config), streaming: false, sample_rate, sample_counter: 0 }
    }
}

impl MockDevice {
    /// The device `new` makes.
    pub open spec fn new_spec(config: MockConfig) -> MockDevice {
        MockDevice { config, initialized: false, power_state: PowerState::Off, call_count: 0 }
    }
}

impl BasicDevice for MockStreamDevice {
    fn init(&mut self) -> (r: Result<(), DeviceError>)
        ensures
            final(self).streaming == old(self).streaming && final(self).sample_counter == old(self).sample_counter,
            final(self).sample_rate == old(self).sample_rate,
            final(self).base.call_count == bumped(old(self).base.call_count),
            old(self).base.config.fail_init ==> r == Err::<(), DeviceError>(DeviceError::HardwareFailure)
                && final(self).base.initialized == old(self).base.initialized,
            !old(self).base.config.fail_init ==> r is Ok && final(self).base.initialized
                && final(self).base.power_state == PowerState::Active,
    {
        self.base.init()
    }

    /// Stops streaming, then shuts the device down.
    fn shutdown(&mut self) -> (r: Result<(), DeviceError>)
        ensures
            !final(self).streaming && final(self).sample_counter == old(self).sample_counter,
            final(self).sample_rate == old(self).sample_rate,
            final(self).base.call_count == bumped(old(self).base.call_count),
            old(self).base.config.fail_shutdown ==> r == Err::<(), DeviceError>(DeviceError::HardwareFailure)
                && final(self).base.initialized == old(self).base.initialized,
            !old(self).base.config.fail_shutdown ==> r is Ok && !final(self).base.initialized
                && final(self).base.power_state == PowerState::Off,
    {
        self.streaming = false;
        self.base.shutdown()
    }

    fn power_save(&mut self, state: PowerState) -> (r: Result<(), DeviceError>)
        ensures
            final(self).streaming == old(self).streaming && final(self).sample_counter == old(self).sample_counter,
            final(self).sample_rate == old(self).sample_rate,
            final(self).base.initialized == old(self).base.initialized,
            final(self).base.call_count == bumped(old(self).base.call_count),
            !old(self).base.initialized ==> r == Err::<(), DeviceError>(DeviceError::NotInitialized),
            old(self).base.initialized ==> r is Ok && final(self).base.power_state == state,
    {
        self.base.power_save(state)
    }

    fn device_id(&self) -> (d: DeviceId)
        ensures
            d == self.base.config.device_id,
    {
        self.base.device_id()
    }

    fn capabilities(&self) -> (c: DeviceCapabilities)
        ensures
            c == self.base.config.capabilities,
    {
        self.base.capabilities()
    }

    fn name(&self) -> (n: &str)
        ensures
            n@ == self.base.config.name@,
    {
        self.base.name()
    }
}

impl Streamable for MockStreamDevice {
    /// The number of the sample (its timestamp); the reading is a tenth of it.
    type Data = u32;

    /// While streaming, the next sample number (counting on, wrapping at
    /// `u32::MAX`); `None` while stopped.
    fn poll(&mut self) -> (r: Result<Option<u32>, DeviceError>)
        ensures
            final(self).base == old(self).base && final(self).streaming == old(self).streaming,
            final(self).sample_rate == old(self).sample_rate,
            !old(self).streaming ==> r == Ok::<Option<u32>, DeviceError>(None) && final(self).sample_counter == old(self).sample_counter,
            old(self).streaming ==> r == Ok::<Option<u32>, DeviceError>(Some(old(self).sample_counter))
                && final(self).sample_counter == bumped(old(self).sample_counter),
    {
        if !self.streaming {
            return Ok(None);
        }
        let counter = self.sample_counter;
        self.sample_counter = bump(counter);
        Ok(Some(counter))
    }

    /// Starts streaming; `NotInitialized` before `init`.
    fn start_stream(&mut self) -> (r: Result<(), DeviceError>)
        ensures
            final(self).base == old(self).base && final(self).sample_counter == old(self).sample_counter,
            final(self).sample_rate == old(self).sample_rate,
            !old(self).base.initialized ==> r == Err::<(), DeviceError>(DeviceError::NotInitialized)
                && final(self).streaming == old(self).streaming,
            old(self).base.initialized ==> r is Ok && final(self).streaming,
    {
        if !self.base.initialized {
            return Err(DeviceError::NotInitialized);
        }
        self.streaming = true;
        Ok(())
    }

    fn stop_stream(&mut self) -> (r: Result<(), DeviceError>)
        ensures
            r is Ok && !final(self).streaming,
            final(self).base == old(self).base && final(self).sample_counter == old(self).sample_counter,
            final(self).sample_rate == old(self).sample_rate,
    {
        self.streaming = false;
        Ok(())
    }

    fn sample_rate(&self) -> (n: u32)
        ensures
            n == self.sample_rate,
    {
        self.sample_rate
    }
}

} // verus!
