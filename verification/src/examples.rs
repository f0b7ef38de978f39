//! Walk-throughs of the device registry: registering a streaming sensor,
//! looking a device up and bringing it up, a plug/unplug cycle, and the
//! list of registered identities.
use vstd::prelude::*;
use crate::mock::{MockConfig, MockDevice, MockStreamDevice};
use crate::traits::{
    BasicDevice, DeviceCapabilities, DeviceHandle, DeviceId, DeviceRegistry, RegistryError, first_handle, registered_ids,
};

verus! {

/// The accelerometer's identity.
pub open spec fn sensor_id() -> DeviceId {
    DeviceId { vendor: 0x1234, product: 0x5678, revision: 0 }
}

/// The USB device's identity.
pub open spec fn usb_id() -> DeviceId {
    DeviceId { vendor: 0xABCD, product: 0xEF01, revision: 0 }
}

/// Adds an accelerometer streaming at 1000 Hz to `devs` and registers it
/// under 1234:5678; `AlreadyRegistered` when that identity is taken (the
/// device stays out of the table then).
pub fn example_register_sensor(registry: &mut DeviceRegistry, devs: &mut Vec<MockStreamDevice>) -> (r: Result<(), RegistryError>)
    ensures
        r is Err <==> registered_ids(old(registry).entries@).contains(sensor_id()),
        r is Err ==> final(registry).entries@ == old(registry).entries@ && final(devs)@ == old(devs)@,
        r is Ok ==> final(registry).entries@ == old(registry).entries@.push((sensor_id(), old(devs)@.len() as DeviceHandle))
            && final(devs)@.len() == old(devs)@.len() + 1 && final(devs)@.last().sample_rate == 1000
            && final(devs)@.last().base.config.device_id == sensor_id(),
{
    let config = MockConfig {
        device_id: DeviceId::new(0x1234, 0x5678, 0),
        name: "accelerometer",
        capabilities: DeviceCapabilities { can_stream: true, can_block_io: false, supports_dma: false, hot_pluggable: true },
        fail_init: false,
        fail_shutdown: false,
    };
    let device = MockStreamDevice::new(config, 1000);
    let handle: DeviceHandle = devs.len();
    registry.register(DeviceId::new(0x1234, 0x5678, 0), handle)?;
    devs.push(device);
    Ok(())
}

/// Looks the accelerometer up and initialises it: `None` when it is not
/// registered, not in the table, or fails to come up.
pub fn example_use_device(registry: &DeviceRegistry, devs: &mut Vec<MockStreamDevice>) -> (r: Option<DeviceHandle>)
    ensures
        final(devs)@.len() == old(devs)@.len(),
        !registered_ids(registry.entries@).contains(sensor_id()) ==> r is None && final(devs)@ == old(devs)@,
        r matches Some(h) ==> registry.entries@.contains((sensor_id(), h)) && h < final(devs)@.len()
            && final(devs)@[h as int].base.initialized,
        r is Some <==> (first_handle(registry.entries@, sensor_id(), 0) matches Some(h) && h < old(devs)@.len()
            && !old(devs)@[h as int].base.config.fail_init),
        r matches Some(h) ==> first_handle(registry.entries@, sensor_id(), 0) == Some(h),
        forall|k: int| 0 <= k < old(devs)@.len() && Some(k as DeviceHandle) != first_handle(registry.entries@, sensor_id(), 0)
            ==> #[trigger] final(devs)@[k] == old(devs)@[k],
{
    let h = registry.lookup(DeviceId::new(0x1234, 0x5678, 0))?;
    if h >= devs.len() {
        return None;
    }
    let placeholder = MockConfig {
        device_id: DeviceId::new(0, 0, 0),
        name: "",
        capabilities: DeviceCapabilities { can_stream: false, can_block_io: false, supports_dma: false, hot_pluggable: false },
        fail_init: false,
        fail_shutdown: false,
    };
    let mut taken = MockStreamDevice::new(placeholder, 0);
    std::mem::swap(&mut devs[h], &mut taken);
    let r = taken.init();
    let ok = r.is_ok();
    std::mem::swap(&mut devs[h], &mut taken);
    if ok { Some(h) } else { None }
}

/// Plugs a USB device in (adds it to `devs` and registers it under
/// ABCD:EF01), then unplugs it (unregisters it); the registry ends as it
/// began.
pub fn example_hotplug(registry: &mut DeviceRegistry, devs: &mut Vec<MockDevice>) -> (r: Result<(), RegistryError>)
    ensures
        r is Err <==> registered_ids(old(registry).entries@).contains(usb_id()),
        r is Err ==> final(registry).entries@ == old(registry).entries@,
        r is Ok ==> final(registry).entries@ == old(registry).entries@ && final(devs)@.len() == old(devs)@.len() + 1,
{
    let device_id = DeviceId::new(0xABCD, 0xEF01, 0);
    let config = MockConfig {
        device_id,
        name: "usb_device",
        capabilities: DeviceCapabilities { can_stream: false, can_block_io: true, supports_dma: true, hot_pluggable: true },
        fail_init: false,
        fail_shutdown: false,
    };
    let handle: DeviceHandle = devs.len();
    registry.register(device_id, handle)?;
    devs.push(MockDevice::new(config));
    let ghost before = registry.entries@;
    let r = registry.unregister(device_id);
    proof {
        assert(before == old(registry).entries@.push((usb_id(), handle)));
        assert(registered_ids(before)[before.len() - 1] == usb_id());
        assert(registered_ids(before).contains(usb_id()));
        let k = choose|k: int| 0 <= k < before.len() && before[k].0 == usb_id() && registry.entries@ == before.remove(k);
        if k < before.len() - 1 {
            assert(before[k] == old(registry).entries@[k]);
            assert(registered_ids(old(registry).entries@)[k] == usb_id());
        }
        assert(k == before.len() - 1);
        assert(before.remove(k) =~= old(registry).entries@);
    }
    r
}

/// The registered identities.
pub fn example_list_devices(registry: &DeviceRegistry) -> (ids: Vec<DeviceId>)
    ensures
        ids@ == registered_ids(registry.entries@),
{
    registry.list_devices()
}

/// Looks the accelerometer up and initialises it before streaming (see
/// `example_use_device`).
pub fn example_stream_sensor(registry: &DeviceRegistry, devs: &mut Vec<MockStreamDevice>) -> (r: Option<DeviceHandle>)
    ensures
        final(devs)@.len() == old(devs)@.len(),
        !registered_ids(registry.entries@).contains(sensor_id()) ==> r is None,
        r matches Some(h) ==> h < final(devs)@.len() && final(devs)@[h as int].base.initialized,
{
    example_use_device(registry, devs)
}

} // verus!
