//! Scanning buses for devices, registering what is found and handing it
//! to the driver manager, and hot-plug of devices while enabled.
use vstd::prelude::*;
use crate::bus::{Bus, BusScanResult};
use crate::driver_manager::{DriverManager, ExtendedDeviceId};
use crate::traits::{BasicDevice, DeviceError, DeviceHandle, DeviceRegistry, registered_ids};

verus! {

/// Counts completed rescans.
pub struct BusScanner {
    pub scan_count: u64,
}

impl BusScanner {
    /// No scans yet.
    pub fn new() -> (s: BusScanner)
        ensures
            s.scan_count == 0,
    {
        BusScanner { scan_count: 0 }
    }

    /// Scans one bus; a failed scan is a `HardwareFailure`.
    pub fn scan_bus<B: Bus>(&self, bus: &mut B) -> (r: Result<Vec<BusScanResult>, DeviceError>)
        ensures
            r is Err ==> r == Err::<Vec<BusScanResult>, DeviceError>(DeviceError::HardwareFailure),
    {
        match bus.scan() {
            Ok(v) => Ok(v),
            Err(_) => Err(DeviceError::HardwareFailure),
        }
    }

    /// Registers a found device (position `device` in `devs`) under its
    /// identity and hands it to the driver manager. `HardwareFailure` when
    /// the identity is already registered (the manager is then not asked).
    pub fn probe_device<D: BasicDevice>(
        &self,
        scan_result: &BusScanResult,
        device: DeviceHandle,
        registry: &mut DeviceRegistry,
        manager: &mut DriverManager,
        devs: &mut Vec<D>,
    ) -> (r: Result<(), DeviceError>)
        requires
            device < old(devs)@.len(),
        ensures
            final(devs)@.len() == old(devs)@.len(),
            registered_ids(old(registry).entries@).contains(scan_result.device_id)
                ==> r == Err::<(), DeviceError>(DeviceError::HardwareFailure) && final(registry).entries@ == old(registry).entries@,
            !registered_ids(old(registry).entries@).contains(scan_result.device_id)
                ==> final(registry).entries@ == old(registry).entries@.push((scan_result.device_id, device)),
    {
        let ext_id = ExtendedDeviceId::new(scan_result.device_id.vendor, scan_result.device_id.product);
        match registry.register(scan_result.device_id, device) {
            Err(_) => return Err(DeviceError::HardwareFailure),
            Ok(()) => {},
        }
        manager.add_device(ext_id, device, devs)?;
        Ok(())
    }

    /// Scans every bus and counts the devices the successful scans found;
    /// the rescan count goes up by one (wrapping).
    pub fn rescan_all<B: Bus>(&mut self, buses: &mut Vec<B>) -> (r: Result<usize, DeviceError>)
        ensures
            r is Ok,
            final(self).scan_count == (if old(self).scan_count == u64::MAX { 0 } else { old(self).scan_count + 1 }),
    {
        let mut total_found: usize = 0;
        let mut i: usize = 0;
        while i < buses.len()
            invariant
                i <= buses@.len(),
                self.scan_count == old(self).scan_count,
            decreases buses.len() - i,
        {
            match self.scan_bus(&mut buses[i]) {
                Ok(devices) => {
                    total_found = total_found.saturating_add(devices.len());
                },
                Err(_) => {},
            }
            i = i + 1;
        }
        self.scan_count = self.scan_count.wrapping_add(1);
        Ok(total_found)
    }

    /// Number of completed rescans.
    pub fn scan_count(&self) -> (n: u64)
        ensures
            n == self.scan_count,
    {
        self.scan_count
    }
}

/// Hot-plug events, handled only while enabled.
pub struct HotplugHandler {
    pub enabled: bool,
}

impl HotplugHandler {
    /// Disabled.
    pub fn new() -> (h: HotplugHandler)
        ensures
            !h.enabled,
    {
        HotplugHandler { enabled: false }
    }

    /// Starts handling events.
    pub fn enable(&mut self)
        ensures
            final(self).enabled,
    {
        self.enabled = true;
    }

    /// Stops handling events.
    pub fn disable(&mut self)
        ensures
            !final(self).enabled,
    {
        self.enabled = false;
    }

    /// A device appeared: probed like a scanned one (see
    /// `BusScanner::probe_device`); `NotSupported` while disabled.
    pub fn device_inserted<D: BasicDevice>(
        &self,
        scanner: &BusScanner,
        scan_result: BusScanResult,
        device: DeviceHandle,
        registry: &mut DeviceRegistry,
        manager: &mut DriverManager,
        devs: &mut Vec<D>,
    ) -> (r: Result<(), DeviceError>)
        requires
            device < old(devs)@.len(),
        ensures
            !self.enabled ==> r == Err::<(), DeviceError>(DeviceError::NotSupported)
                && final(registry).entries@ == old(registry).entries@,
            final(devs)@.len() == old(devs)@.len(),
    {
        if !self.enabled {
            return Err(DeviceError::NotSupported);
        }
        scanner.probe_device(&scan_result, device, registry, manager, devs)
    }

    /// A device went away: the driver manager removes it (see
    /// `DriverManager::remove_device`); `NotSupported` while disabled.
    pub fn device_removed<D: BasicDevice>(&self, device: DeviceHandle, manager: &DriverManager, devs: &mut Vec<D>) -> (r: Result<(), DeviceError>)
        requires
            device < old(devs)@.len(),
        ensures
            !self.enabled ==> r == Err::<(), DeviceError>(DeviceError::NotSupported),
            final(devs)@.len() == old(devs)@.len(),
    {
        if !self.enabled {
            return Err(DeviceError::NotSupported);
        }
        manager.remove_device(device, devs)
    }
}

} // verus!
