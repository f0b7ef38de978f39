//! Ready-made driver registrations (network card, USB storage, I2C
//! sensors, a vendor-wide wildcard) and a boot-time sequence that registers
//! them all; matching devices are then probed automatically.
use vstd::prelude::*;
use crate::bus::BusType;
use crate::driver_manager::{
    Driver, DriverManager, ExtendedDeviceId, ID_ANY, ProbeType, ext_class_id, ext_id, pending_ok,
};
use crate::traits::BasicDevice;

verus! {

/// `m` has one more driver than `m0`: the last, with this name, bus,
/// probe timing and table.
pub open spec fn added_driver(m0: &DriverManager, m: &DriverManager, name: &'static str, bus: BusType, pt: ProbeType, ids: Seq<ExtendedDeviceId>) -> bool {
    &&& m.drivers@.len() == m0.drivers@.len() + 1
    &&& m.drivers@.drop_last() == m0.drivers@
    &&& m.drivers@.last().name == name
    &&& m.drivers@.last().bus_type == bus
    &&& m.drivers@.last().probe_type == pt
    &&& m.drivers@.last().id_table@ == ids
}

/// Registers "e1000_compat" for the Intel 82540EM, 82545EM and 82574L
/// network cards on PCI (probed asynchronously).
pub fn example_pci_network_driver<D: BasicDevice>(manager: &mut DriverManager, devs: &mut Vec<D>)
    requires
        pending_ok(old(manager), old(devs)@.len()),
    ensures
        pending_ok(final(manager), final(devs)@.len()),
        final(devs)@.len() == old(devs)@.len(),
        added_driver(old(manager), final(manager), "e1000_compat", BusType::PCI, ProbeType::Asynchronous,
            seq![ext_id(0x8086, 0x100E), ext_id(0x8086, 0x100F), ext_id(0x8086, 0x10D3)]),
{
    let ids = vec![
        ExtendedDeviceId::new(0x8086, 0x100E),
        ExtendedDeviceId::new(0x8086, 0x100F),
        ExtendedDeviceId::new(0x8086, 0x10D3),
    ];
    let driver = Driver::new("e1000_compat", BusType::PCI).with_ids(ids).with_probe_type(ProbeType::Asynchronous);
    let _ = manager.register_driver(driver, devs);
}

/// Registers "usb_storage" for any USB mass-storage (SCSI, bulk-only)
/// device (probed synchronously).
pub fn example_usb_storage_driver<D: BasicDevice>(manager: &mut DriverManager, devs: &mut Vec<D>)
    requires
        pending_ok(old(manager), old(devs)@.len()),
    ensures
        pending_ok(final(manager), final(devs)@.len()),
        final(devs)@.len() == old(devs)@.len(),
        added_driver(old(manager), final(manager), "usb_storage", BusType::USB, ProbeType::Synchronous,
            seq![ext_class_id(ID_ANY, ID_ANY, 0x080650, 0xFFFFFF)]),
{
    let mut ids: Vec<ExtendedDeviceId> = Vec::new();
    ids.push(ExtendedDeviceId::with_class(ID_ANY, ID_ANY, 0x080650, 0xFFFFFF));
    let driver = Driver::new("usb_storage", BusType::USB).with_ids(ids).with_probe_type(ProbeType::Synchronous);
    let _ = manager.register_driver(driver, devs);
}

/// Registers "bmp280_sensor" for the Bosch BMP280 and BME280 on I2C
/// (probed asynchronously).
pub fn example_i2c_sensor_driver<D: BasicDevice>(manager: &mut DriverManager, devs: &mut Vec<D>)
    requires
        pending_ok(old(manager), old(devs)@.len()),
    ensures
        pending_ok(final(manager), final(devs)@.len()),
        final(devs)@.len() == old(devs)@.len(),
        added_driver(old(manager), final(manager), "bmp280_sensor", BusType::I2C, ProbeType::Asynchronous,
            seq![ext_id(0x0077, 0x0280), ext_id(0x0077, 0x0680)]),
{
    let ids = vec![ExtendedDeviceId::new(0x0077, 0x0280), ExtendedDeviceId::new(0x0077, 0x0680)];
    let driver = Driver::new("bmp280_sensor", BusType::I2C).with_ids(ids).with_probe_type(ProbeType::Asynchronous);
    let _ = manager.register_driver(driver, devs);
}

/// Registers "generic_qualcomm" for every Qualcomm device on the platform
/// bus.
pub fn example_wildcard_driver<D: BasicDevice>(manager: &mut DriverManager, devs: &mut Vec<D>)
    requires
        pending_ok(old(manager), old(devs)@.len()),
    ensures
        pending_ok(final(manager), final(devs)@.len()),
        final(devs)@.len() == old(devs)@.len(),
        added_driver(old(manager), final(manager), "generic_qualcomm", BusType::Platform, ProbeType::Synchronous,
            seq![ext_id(0x17CB, ID_ANY)]),
{
    let mut ids: Vec<ExtendedDeviceId> = Vec::new();
    ids.push(ExtendedDeviceId::new(0x17CB, ID_ANY));
    let driver = Driver::new("generic_qualcomm", BusType::Platform).with_ids(ids);
    let _ = manager.register_driver(driver, devs);
}

/// The names of the registered drivers.
pub fn example_list_drivers(manager: &DriverManager) -> (names: Vec<String>)
    ensures
        names@.len() == manager.drivers@.len(),
        forall|i: int| 0 <= i < names@.len() ==> (#[trigger] names@[i])@ == manager.drivers@[i].name@,
{
    manager.list_drivers()
}

/// Registers the four drivers above, in order.
pub fn example_system_init<D: BasicDevice>(manager: &mut DriverManager, devs: &mut Vec<D>)
    requires
        pending_ok(old(manager), old(devs)@.len()),
    ensures
        pending_ok(final(manager), final(devs)@.len()),
        final(devs)@.len() == old(devs)@.len(),
        final(manager).drivers@.len() == old(manager).drivers@.len() + 4,
        final(manager).drivers@.subrange(0, old(manager).drivers@.len() as int) == old(manager).drivers@,
        final(manager).drivers@[old(manager).drivers@.len() as int].name == "e1000_compat",
        final(manager).drivers@[old(manager).drivers@.len() as int + 1].name == "usb_storage",
        final(manager).drivers@[old(manager).drivers@.len() as int + 2].name == "bmp280_sensor",
        final(manager).drivers@[old(manager).drivers@.len() as int + 3].name == "generic_qualcomm",
{
    let ghost d0 = manager.drivers@;
    example_pci_network_driver(manager, devs);
    let ghost d1 = manager.drivers@;
    example_usb_storage_driver(manager, devs);
    let ghost d2 = manager.drivers@;
    example_i2c_sensor_driver(manager, devs);
    let ghost d3 = manager.drivers@;
    example_wildcard_driver(manager, devs);
    proof {
        let n = d0.len() as int;
        assert(d1.drop_last() == d0);
        assert(d2.drop_last() == d1);
        assert(d3.drop_last() == d2);
        assert(manager.drivers@.drop_last() == d3);
        assert(manager.drivers@.subrange(0, n) =~= d0) by {
            assert(manager.drivers@.subrange(0, n + 3) =~= d3);
            assert(d3.subrange(0, n + 2) =~= d2);
            assert(d2.subrange(0, n + 1) =~= d1);
            assert(d1.subrange(0, n) =~= d0);
        }
        assert(manager.drivers@[n] == d1[n]);
        assert(manager.drivers@[n + 1] == d2[n + 1]);
        assert(manager.drivers@[n + 2] == d3[n + 2]);
    }
}

} // verus!
