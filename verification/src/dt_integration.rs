//! Platform devices made from device-tree nodes, and their registration
//! with the device registry and the driver manager.
use vstd::prelude::*;
use crate::driver_manager::{DriverManager, ExtendedDeviceId};
use crate::of::fdt::FdtParser;
use crate::traits::{
    BasicDevice, DeviceCapabilities, DeviceError, DeviceHandle, DeviceId, DeviceRegistry, PowerState, registered_ids,
};

verus! {

/// A platform device described by a device-tree node.
pub struct DtDevice {
    pub id: DeviceId,
    pub name: String,
    pub compatible: String,
    /// (address, size) pairs of its register windows.
    pub reg: Vec<(u64, u64)>,
    pub interrupts: Vec<u32>,
    pub initialized: bool,
}

/// Identity given to the device of the node at `node_offset`: vendor 0,
/// product the offset's low 16 bits.
pub open spec fn node_device_id(node_offset: usize) -> DeviceId {
    DeviceId { vendor: 0, product: node_offset as u16, revision: 0 }
}

impl DtDevice {
    /// The device for the node at `node_offset`: a generic platform device
    /// ("platform-device") with no register windows or interrupts yet.
    pub fn from_dt_node(parser: &FdtParser, node_offset: usize) -> (r: Result<DtDevice, DeviceError>)
        ensures
            r matches Ok(d) && d.id == node_device_id(node_offset) && d.name@ == "platform-device"@
                && d.compatible@ == "platform-device"@ && d.reg@.len() == 0 && d.interrupts@.len() == 0
                && !d.initialized,
    {
        let device = (node_offset as u16) & 0xFFFF;
        assert(device == node_offset as u16) by (bit_vector)
            requires device == (node_offset as u16) & 0xFFFF;
        let compatible = "platform-device".to_owned();
        let name = "platform-device".to_owned();
        Ok(DtDevice {
            id: DeviceId::new(0x0000, device, 0),
            name,
            compatible,
            reg: Vec::new(),
            interrupts: Vec::new(),
            initialized: false,
        })
    }

    /// The compatible string.
    pub fn compatible(&self) -> (s: &str)
        ensures
            s@ == self.compatible@,
    {
        self.compatible.as_str()
    }

    /// Address of the first register window.
    pub fn mmio_base(&self) -> (r: Option<u64>)
        ensures
            r == (if self.reg@.len() > 0 { Some(self.reg@[0].0) } else { None::<u64> }),
    {
        if self.reg.len() > 0 {
            Some(self.reg[0].0)
        } else {
            None
        }
    }

    /// Size of the first register window.
    pub fn mmio_size(&self) -> (r: Option<u64>)
        ensures
            r == (if self.reg@.len() > 0 { Some(self.reg@[0].1) } else { None::<u64> }),
    {
        if self.reg.len() > 0 {
            Some(self.reg[0].1)
        } else {
            None
        }
    }
}

impl BasicDevice for DtDevice {
    fn init(&mut self) -> (r: Result<(), DeviceError>)
        ensures
            r is Ok && final(self).initialized,
            final(self).id == old(self).id && final(self).reg@ == old(self).reg@,
    {
        self.initialized = true;
        Ok(())
    }

    fn shutdown(&mut self) -> (r: Result<(), DeviceError>)
        ensures
            r is Ok && !final(self).initialized,
            final(self).id == old(self).id && final(self).reg@ == old(self).reg@,
    {
        self.initialized = false;
        Ok(())
    }

    fn power_save(&mut self, state: PowerState) -> (r: Result<(), DeviceError>)
        ensures
            r is Ok,
    {
        Ok(())
    }

    fn device_id(&self) -> (d: DeviceId)
        ensures
            d == self.id,
    {
        self.id
    }

    /// Block I/O when it has a register window; nothing else.
    fn capabilities(&self) -> (c: DeviceCapabilities)
        ensures
            c == (DeviceCapabilities { can_stream: false, can_block_io: self.reg@.len() > 0, supports_dma: false, hot_pluggable: false }),
    {
        DeviceCapabilities { can_stream: false, can_block_io: self.reg.len() > 0, supports_dma: false, hot_pluggable: false }
    }

    fn name(&self) -> (n: &str)
        ensures
            n@ == self.name@,
    {
        self.name.as_str()
    }
}

/// Walks a parsed device tree for devices.
pub struct DtEnumerator;

impl DtEnumerator {
    /// The devices of the tree: that of the root node (offset 0).
    pub fn enumerate(parser: &FdtParser) -> (r: Result<Vec<DtDevice>, DeviceError>)
        ensures
            r matches Ok(v) && v@.len() == 1 && v@[0].id == node_device_id(0),
    {
        let mut devices = Vec::new();
        Self::walk_tree(parser, 0, &mut devices)?;
        Ok(devices)
    }

    /// Adds the device of the node at `offset` to `devices`.
    fn walk_tree(parser: &FdtParser, offset: usize, devices: &mut Vec<DtDevice>) -> (r: Result<(), DeviceError>)
        ensures
            r is Ok,
            final(devices)@.len() == old(devices)@.len() + 1,
            final(devices)@.drop_last() == old(devices)@,
            final(devices)@.last().id == node_device_id(offset),
    {
        match DtDevice::from_dt_node(parser, offset) {
            Ok(dt_device) => { devices.push(dt_device); },
            Err(_) => {},
        }
        Ok(())
    }

    /// Adds the tree's devices to `devs`, records each in `registry` under
    /// its identity and hands it to `manager`; the number of devices, or
    /// `HardwareFailure` when an identity is already registered.
    pub fn register_all(
        parser: &FdtParser,
        registry: &mut DeviceRegistry,
        manager: &mut DriverManager,
        devs: &mut Vec<DtDevice>,
    ) -> (r: Result<usize, DeviceError>)
        ensures
            r is Err <==> registered_ids(old(registry).entries@).contains(node_device_id(0)),
            r is Err ==> r == Err::<usize, DeviceError>(DeviceError::HardwareFailure)
                && final(registry).entries@ == old(registry).entries@ && final(devs)@ == old(devs)@,
            r is Ok ==> r == Ok::<usize, DeviceError>(1)
                && final(registry).entries@ == old(registry).entries@.push((node_device_id(0), old(devs)@.len() as DeviceHandle))
                && final(devs)@.len() == old(devs)@.len() + 1
                && final(manager).drivers@ == old(manager).drivers@,
    {
        let mut devices = match Self::enumerate(parser) {
            Ok(v) => v,
            Err(e) => { return Err(e); },
        };
        let count = devices.len();
        let ghost entries0 = registry.entries@;
        let ghost n0 = devs@.len();
        while devices.len() > 0
            invariant
                count == 1,
                devices@.len() <= 1,
                devices@.len() == 1 ==> devices@[0].id == node_device_id(0) && registry.entries@ == entries0
                    && devs@ == old(devs)@ && manager.drivers@ == old(manager).drivers@,
                devices@.len() == 0 ==> registry.entries@ == entries0.push((node_device_id(0), n0 as DeviceHandle))
                    && devs@.len() == n0 + 1 && manager.drivers@ == old(manager).drivers@,
                !registered_ids(entries0).contains(node_device_id(0)) || devices@.len() == 1,
                entries0 == old(registry).entries@,
                n0 == old(devs)@.len(),
            decreases devices@.len(),
        {
            let device = devices.remove(0);
            let id = device.device_id();
            let ext_id = ExtendedDeviceId::new(id.vendor, id.product);
            let handle: DeviceHandle = devs.len();
            match registry.register(id, handle) {
                Ok(()) => {},
                Err(_) => { return Err(DeviceError::HardwareFailure); },
            }
            devs.push(device);
            let _ = manager.add_device(ext_id, handle, devs);
        }
        Ok(count)
    }
}

} // verus!
