//! Physical buses (I2C, SPI, UART, USB, PCI, platform) behind one
//! interface, and a manager that enables them, scans them and finds
//! devices on them.
use vstd::prelude::*;
use crate::traits::DeviceId;

verus! {

/// Kinds of buses.
#[derive(Debug, Clone, Copy, PartialEq, Eq, Structural)]
pub enum BusType {
    I2C,
    SPI,
    UART,
    USB,
    PCI,
    Platform,
}

impl BusType {
    /// The bus kind's name.
    pub fn as_str(&self) -> (s: &'static str)
        ensures
            *self == BusType::I2C ==> s@ == "I2C"@,
            *self == BusType::SPI ==> s@ == "SPI"@,
            *self == BusType::UART ==> s@ == "UART"@,
            *self == BusType::USB ==> s@ == "USB"@,
            *self == BusType::PCI ==> s@ == "PCI"@,
            *self == BusType::Platform ==> s@ == "Platform"@,
    {
        match self {
            BusType::I2C => "I2C",
            BusType::SPI => "SPI",
            BusType::UART => "UART",
            BusType::USB => "USB",
            BusType::PCI => "PCI",
            BusType::Platform => "Platform",
        }
    }
}

/// A device found on a bus, and where.
#[derive(Debug, Clone, Copy, PartialEq, Eq, Structural)]
pub struct BusScanResult {
    pub bus_type: BusType,
    pub device_id: DeviceId,
    pub address: u64,
}

/// Bus errors.
#[derive(Debug, Clone, Copy, PartialEq, Eq, Structural)]
pub enum BusError {
    BusNotAvailable,
    ScanFailed,
    DeviceNotResponding,
    InvalidAddress,
}

/// A bus controller.
pub trait Bus {
    fn bus_type(&self) -> BusType;

    fn scan(&mut self) -> Result<Vec<BusScanResult>, BusError>;

    fn probe(&self, address: u64) -> bool;

    fn enable(&mut self) -> Result<(), BusError>;

    fn disable(&mut self) -> Result<(), BusError>;
}

/// The buses in use.
pub struct BusManager<B: Bus> {
    buses: Vec<B>,
}

impl<B: Bus> BusManager<B> {
    /// Number of buses in use.
    pub closed spec fn count(&self) -> nat {
        self.buses@.len()
    }

    /// No buses.
    pub fn new() -> (m: BusManager<B>)
        ensures
            m.count() == 0,
    {
        BusManager { buses: Vec::new() }
    }

    /// Enables `bus` and takes it into use; the enable error is returned
    /// (and the bus not used) when it fails.
    pub fn register_bus(&mut self, bus: B) -> (r: Result<(), BusError>)
        ensures
            r is Ok ==> final(self).count() == old(self).count() + 1,
            r is Err ==> final(self).count() == old(self).count(),
    {
        let mut bus = bus;
        bus.enable()?;
        self.buses.push(bus);
        Ok(())
    }

    /// Scans every bus in turn and gathers what the successful scans
    /// found, in bus order.
    pub fn scan_all(&mut self) -> (results: Vec<BusScanResult>)
        ensures
            final(self).count() == old(self).count(),
    {
        let mut results: Vec<BusScanResult> = Vec::new();
        let mut i: usize = 0;
        while i < self.buses.len()
            invariant
                i <= self.buses@.len(),
                self.buses@.len() == old(self).buses@.len(),
            decreases self.buses.len() - i,
        {
            match self.buses[i].scan() {
                Ok(devices) => {
                    let mut k: usize = 0;
                    while k < devices.len()
                        invariant
                            k <= devices@.len(),
                        decreases devices.len() - k,
                    {
                        results.push(devices[k]);
                        k = k + 1;
                    }
                },
                Err(_) => {},
            }
            i = i + 1;
        }
        results
    }

    /// Scans the buses of kind `bus_type` in order and returns the first
    /// device found with identity `device_id`.
    pub fn find_device(&mut self, bus_type: BusType, device_id: DeviceId) -> (r: Option<BusScanResult>)
        ensures
            r matches Some(x) ==> x.device_id == device_id,
            final(self).count() == old(self).count(),
    {
        let mut i: usize = 0;
        while i < self.buses.len()
            invariant
                i <= self.buses@.len(),
                self.buses@.len() == old(self).buses@.len(),
            decreases self.buses.len() - i,
        {
            if self.buses[i].bus_type() == bus_type {
                match self.buses[i].scan() {
                    Ok(devices) => {
                        let mut k: usize = 0;
                        while k < devices.len()
                            invariant
                                k <= devices@.len(),
                                self.buses@.len() == old(self).buses@.len(),
                            decreases devices.len() - k,
                        {
                            if devices[k].device_id == device_id {
                                return Some(devices[k]);
                            }
                            k = k + 1;
                        }
                    },
                    Err(_) => {},
                }
            }
            i = i + 1;
        }
        None
    }

    /// Number of buses in use.
    pub fn bus_count(&self) -> (n: usize)
        ensures
            n == self.count(),
    {
        self.buses.len()
    }
}

} // verus!
