//! Device objects: identity, parent link, resources and the reference
//! count that decides when a device is released.
use vstd::prelude::*;
use crate::base::resource::{Resource, count_upto, find_nth, nth_match};
use vstd::string::StringSliceAdditionalSpecFns;

verus! {

/// Source of device ids, handed out in increasing order from 1.
pub struct DeviceIds {
    pub next: usize,
}

impl DeviceIds {
    /// A fresh counter; the first id is 1.
    pub fn new() -> (ids: DeviceIds)
        ensures
            ids.next == 1,
    {
        DeviceIds { next: 1 }
    }

    /// Hands out the next id (the counter wraps at the top of `usize`).
    pub fn take_next(&mut self) -> (id: usize)
        ensures
            id == old(self).next,
            final(self).next == (if old(self).next == usize::MAX { 0 } else { old(self).next + 1 }),
    {
        let id = self.next;
        self.next = self.next.wrapping_add(1);
        id
    }
}

/// A device: id, name, parent (by id), reference count and resources.
pub struct DeviceCore {
    pub id: usize,
    pub name: String,
    pub parent: Option<usize>,
    pub refcount: usize,
    pub resources: Vec<Resource>,
}

/// Device core errors.
#[derive(Debug, Clone, Copy, PartialEq, Eq, Structural)]
pub enum DeviceError {
    InvalidDevice,
    AlreadyRegistered,
    NotRegistered,
    NoMemory,
}

impl DeviceCore {
    /// Current reference count.
    pub open spec fn count(&self) -> nat {
        self.refcount as nat
    }

    /// The resources, in the order they were added.
    pub open spec fn res(&self) -> Seq<Resource> {
        self.resources@
    }

    /// A new device named `name`, with the next id from `ids`, no parent,
    /// one reference and no resources.
    pub fn new(name: String, ids: &mut DeviceIds) -> (d: DeviceCore)
        ensures
            d.id == old(ids).next,
            final(ids).next == (if old(ids).next == usize::MAX { 0 } else { old(ids).next + 1 }),
            d.name@ == name@,
            d.parent is None,
            d.count() == 1,
            d.res() == Seq::<Resource>::empty(),
    {
        let id = ids.take_next();
        DeviceCore { id, name, parent: None, refcount: 1, resources: Vec::new() }
    }

    /// The device's name.
    pub fn name(&self) -> (s: &str)
        ensures
            s@ == self.name@,
    {
        self.name.as_str()
    }

    /// The device's id.
    pub fn id(&self) -> (i: usize)
        ensures
            i == self.id,
    {
        self.id
    }

    /// The current reference count.
    pub fn refcount(&self) -> (n: usize)
        ensures
            n == self.count(),
    {
        self.refcount
    }

    /// Links the device to the parent with id `parent`.
    pub fn set_parent(&mut self, parent: usize)
        ensures
            final(self).parent == Some(parent),
            final(self).id == old(self).id,
            final(self).name == old(self).name,
            final(self).count() == old(self).count(),
            final(self).res() == old(self).res(),
    {
        self.parent = Some(parent);
    }

    /// The parent's id, if any.
    pub fn parent(&self) -> (p: Option<usize>)
        ensures
            p == self.parent,
    {
        self.parent
    }

    /// Appends a resource.
    pub fn add_resource(&mut self, resource: Resource)
        ensures
            final(self).res() == old(self).res().push(resource),
            final(self).id == old(self).id,
            final(self).name == old(self).name,
            final(self).parent == old(self).parent,
            final(self).count() == old(self).count(),
    {
        self.resources.push(resource);
    }

    /// The resource at `index`, if there is one.
    pub fn get_resource(&self, index: usize) -> (r: Option<&Resource>)
        ensures
            r is Some <==> index < self.res().len(),
            r is Some ==> *r.unwrap() == self.res()[index as int],
    {
        if index < self.resources.len() {
            Some(&self.resources[index])
        } else {
            None
        }
    }

    /// The `index`-th resource (from 0) whose flags share a bit with `flags`.
    pub fn get_resource_by_type(&self, flags: u64, index: usize) -> (r: Option<&Resource>)
        ensures
            ({
                let p = |x: Resource| x.flags & flags != 0;
                &&& r is None <==> count_upto(self.res(), p, self.res().len() as int) <= index
                &&& r is Some ==> exists|k: int| nth_match(self.res(), p, index as int, k) && *r.unwrap() == self.res()[k]
            }),
    {
        let len = self.resources.len();
        let found = find_nth(self.resources.as_slice(), len, flags, false, index);
        proof {
            assert(self.resources@.subrange(0, len as int) =~= self.res());
        }
        match found {
            Some(k) => Some(&self.resources[k]),
            None => None,
        }
    }

    /// All resources.
    pub fn resources(&self) -> (s: &[Resource])
        ensures
            s@ == self.res(),
    {
        self.resources.as_slice()
    }

    /// Number of resources.
    pub fn num_resources(&self) -> (n: usize)
        ensures
            n == self.res().len(),
    {
        self.resources.len()
    }
}

/// Prepares a device for use: its reference count becomes 1.
pub fn device_initialize(dev: &mut DeviceCore)
    ensures
        final(dev).count() == 1,
        final(dev).id == old(dev).id,
        final(dev).name == old(dev).name,
        final(dev).parent == old(dev).parent,
        final(dev).res() == old(dev).res(),
{
    dev.refcount = 1;
}

/// Adds a device to the hierarchy (always succeeds).
pub fn device_add(dev: &DeviceCore) -> (r: Result<(), DeviceError>)
    ensures
        r is Ok,
{
    Ok(())
}

/// A name that registration accepts: 1 to 64 bytes.
pub open spec fn name_ok(name: &String) -> bool {
    0 < name@.len() && vstd::utf8::encode_utf8(name@).len() <= 64
}

/// Initializes and adds a device. Fails with `InvalidDevice` when its name
/// is empty or longer than 64 bytes, and the device is then left as it was.
pub fn device_register(dev: &mut DeviceCore) -> (r: Result<(), DeviceError>)
    ensures
        r is Ok <==> name_ok(&old(dev).name),
        r is Err ==> r == Err::<(), DeviceError>(DeviceError::InvalidDevice),
        final(dev).id == old(dev).id,
        final(dev).name == old(dev).name,
        final(dev).parent == old(dev).parent,
        final(dev).res() == old(dev).res(),
        final(dev).count() == (if r is Ok { 1 } else { old(dev).count() }),
{
    let n = dev.name.as_str().as_bytes().len();
    if dev.name.as_str().is_empty() || n > 64 {
        return Err(DeviceError::InvalidDevice);
    }
    device_initialize(dev);
    device_add(&*dev)
}

/// Removes a device from the hierarchy (always succeeds).
pub fn device_del(dev: &DeviceCore) -> (r: Result<(), DeviceError>)
    ensures
        r is Ok,
{
    Ok(())
}

/// Takes a reference: the count goes up by one; returns the device's id.
pub fn get_device(dev: &mut DeviceCore) -> (id: usize)
    requires
        old(dev).count() < usize::MAX,
    ensures
        id == old(dev).id,
        final(dev).count() == old(dev).count() + 1,
        final(dev).id == old(dev).id,
        final(dev).name == old(dev).name,
        final(dev).parent == old(dev).parent,
        final(dev).res() == old(dev).res(),
{
    dev.refcount = dev.refcount + 1;
    dev.id
}

/// Drops a reference: the count goes down by one (not below 0). Returns
/// whether this was the last reference, after which the device is
/// released.
pub fn put_device(dev: &mut DeviceCore) -> (released: bool)
    ensures
        released == (old(dev).count() == 1),
        final(dev).count() == (if old(dev).count() == 0 { 0 } else { old(dev).count() - 1 }),
        final(dev).id == old(dev).id,
        final(dev).name == old(dev).name,
        final(dev).parent == old(dev).parent,
        final(dev).res() == old(dev).res(),
{
    let old_count = dev.refcount;
    if old_count > 0 {
        dev.refcount = old_count - 1;
    }
    old_count == 1
}

/// Deletes the device and drops the reference that registration took.
pub fn device_unregister(dev: &mut DeviceCore) -> (r: Result<(), DeviceError>)
    ensures
        r is Ok,
        final(dev).count() == (if old(dev).count() == 0 { 0 } else { old(dev).count() - 1 }),
        final(dev).id == old(dev).id,
        final(dev).name == old(dev).name,
        final(dev).parent == old(dev).parent,
        final(dev).res() == old(dev).res(),
{
    device_del(&*dev)?;
    put_device(dev);
    Ok(())
}

/// Visits the children of `parent`. Children are not tracked, so no
/// callback runs and the walk always succeeds.
pub fn device_for_each_child(parent: &DeviceCore) -> (r: Result<(), DeviceError>)
    ensures
        r is Ok,
{
    Ok(())
}

/// A device counts as registered while it holds a reference.
pub fn device_is_registered(dev: &DeviceCore) -> (b: bool)
    ensures
        b == (dev.count() > 0),
{
    dev.refcount > 0
}

/// Owner of a device.
pub struct DeviceHandle {
    dev: DeviceCore,
}

impl DeviceHandle {
    /// The device it owns.
    pub closed spec fn inner(&self) -> DeviceCore {
        self.dev
    }

    /// Takes ownership of `dev`.
    pub fn new(dev: DeviceCore) -> (h: DeviceHandle)
        ensures
            h.inner() == dev,
    {
        DeviceHandle { dev }
    }

    /// The owned device.
    pub fn as_ref(&self) -> (d: &DeviceCore)
        ensures
            *d == self.inner(),
    {
        &self.dev
    }

    /// The owned device, for changes.
    pub fn as_mut(&mut self) -> (d: &mut DeviceCore)
        ensures
            *d == old(self).inner(),
            final(self).inner() == *final(d),
    {
        &mut self.dev
    }

    /// Gives the device up to the caller, who then owns its reference.
    pub fn leak(self) -> (d: DeviceCore)
        ensures
            d == self.inner(),
    {
        self.dev
    }
}

} // verus!
