//! DMA engine core: devices and channels with reference counts, a ring
//! queue of descriptors, completion cookies with callbacks, and the device
//! registry.
use vstd::prelude::*;
use crate::base::bus::Device;
use crate::dma::dma_caps;

verus! {

/// Transfer directions.
#[derive(Debug, Clone, Copy, PartialEq, Eq, Structural)]
pub enum DmaDirection {
    MemToMem,
    MemToDev,
    DevToMem,
    DevToDev,
}

/// Transfer states.
#[derive(Debug, Clone, Copy, PartialEq, Eq, Structural)]
pub enum DmaStatus {
    Complete,
    InProgress,
    Paused,
    Error,
}

/// A DMA controller.
pub struct DmaDevice {
    pub dev_id: u32,
    pub dev: Device,
    pub cap_mask: u32,
    pub chancnt: u32,
    pub privatecnt: u32,
}

impl DmaDevice {
    /// A controller for `dev` with id 0, no capabilities and no channels.
    pub fn new(dev: Device) -> (d: DmaDevice)
        ensures
            d.dev_id == 0 && d.dev == dev && d.cap_mask == 0 && d.chancnt == 0 && d.privatecnt == 0,
    {
        DmaDevice { dev_id: 0, dev, cap_mask: 0, chancnt: 0, privatecnt: 0 }
    }

    /// Whether the controller has any of the capabilities in `cap`.
    pub fn has_cap(&self, cap: u32) -> (b: bool)
        ensures
            b == (self.cap_mask & cap != 0),
    {
        (self.cap_mask & cap) != 0
    }
}

/// A channel of a controller, with its count of clients.
pub struct DmaChannel {
    pub chan_id: u32,
    pub device: DmaDevice,
    pub client_count: u32,
    pub name: &'static str,
}

/// A transfer descriptor.
#[derive(Debug, Clone, Copy)]
pub struct DmaDescriptor {
    pub cookie: u32,
    pub phys: u64,
    pub len: usize,
    pub direction: DmaDirection,
}

/// One piece of a scatter-gather list.
#[derive(Debug, Clone, Copy)]
pub struct ScatterGatherEntry {
    pub addr: u64,
    pub len: usize,
}

/// What to run when a transfer completes.
pub trait DmaCallback {
    fn call(&mut self, cookie: u32);
}

/// Controller operations, supplied by the controller driver.
pub trait DmaDeviceOps {
    fn device_prep_dma_memcpy(&self, dest: u64, src: u64, len: usize) -> Result<DmaDescriptor, i32>;

    fn device_prep_slave_sg(&self, sgl: &[ScatterGatherEntry], direction: DmaDirection) -> Result<DmaDescriptor, i32>;

    fn device_issue_pending(&self, chan: &DmaChannel);

    fn device_tx_status(&self, chan: &DmaChannel, cookie: u32) -> DmaStatus;

    fn device_terminate_all(&self, chan: &DmaChannel) -> Result<(), i32>;

    fn device_pause(&self, chan: &DmaChannel) -> Result<(), i32>;

    fn device_resume(&self, chan: &DmaChannel) -> Result<(), i32>;
}

impl DmaChannel {
    /// Channel `chan_id` of `device`, named `name`, with no clients.
    pub fn new(chan_id: u32, device: DmaDevice, name: &'static str) -> (c: DmaChannel)
        ensures
            c.chan_id == chan_id && c.device == device && c.name == name && c.client_count == 0,
    {
        DmaChannel { chan_id, device, client_count: 0, name }
    }

    /// As `new`; the queue size is not used.
    pub fn new_with_queue(chan_id: u32, device: DmaDevice, name: &'static str, queue_size: usize) -> (c: DmaChannel)
        ensures
            c.chan_id == chan_id && c.device == device && c.name == name && c.client_count == 0,
    {
        DmaChannel { chan_id, device, client_count: 0, name }
    }
}

/// A ring of descriptors with one slot kept free: `head` is the oldest,
/// `tail` the next free slot.
pub struct DmaDescriptorQueue {
    descriptors: Vec<DmaDescriptor>,
    head: usize,
    tail: usize,
    capacity: usize,
}

impl DmaDescriptorQueue {
    /// The ring's shape: indices within capacity; before the first wrap the
    /// slots are filled up to `tail` and the queue lies in `head..tail`.
    pub closed spec fn wf(&self) -> bool {
        &&& self.capacity > 0
        &&& self.head < self.capacity && self.tail < self.capacity
        &&& self.descriptors@.len() <= self.capacity
        &&& (self.descriptors@.len() == self.capacity || (self.head <= self.tail && self.tail == self.descriptors@.len()))
    }

    /// The ring's capacity.
    pub closed spec fn cap(&self) -> nat {
        self.capacity as nat
    }

    /// The queued descriptors, oldest first.
    pub closed spec fn view(&self) -> Seq<DmaDescriptor> {
        if self.head <= self.tail {
            self.descriptors@.subrange(self.head as int, self.tail as int)
        } else {
            self.descriptors@.subrange(self.head as int, self.capacity as int) + self.descriptors@.subrange(0, self.tail as int)
        }
    }

    /// A well-formed ring holds fewer descriptors than its capacity, so
    /// `enqueue` either appends or reports that the ring is full.
    pub proof fn lemma_len_bound(&self)
        requires
            self.wf(),
        ensures
            self.view().len() + 1 <= self.cap(),
            self.cap() > 0,
    {
    }

    /// An empty ring with `capacity` slots (it holds at most `capacity - 1`).
    pub fn new(capacity: usize) -> (q: DmaDescriptorQueue)
        requires
            capacity > 0,
        ensures
            q.wf(),
            q.cap() == capacity,
            q.view() == Seq::<DmaDescriptor>::empty(),
    {
        let q = DmaDescriptorQueue { descriptors: Vec::new(), head: 0, tail: 0, capacity };
        assert(q.view() =~= Seq::<DmaDescriptor>::empty());
        q
    }

    /// Appends `desc`; `-28` (no space) when the ring holds `capacity - 1`.
    pub fn enqueue(&mut self, desc: DmaDescriptor) -> (r: Result<(), i32>)
        requires
            old(self).wf(),
        ensures
            final(self).wf(),
            final(self).cap() == old(self).cap(),
            old(self).view().len() + 1 == old(self).cap() ==> r == Err::<(), i32>(-28i32) && final(self).view() == old(self).view(),
            old(self).view().len() + 1 < old(self).cap() ==> r is Ok && final(self).view() == old(self).view().push(desc),
    {
        let tail = self.tail;
        let head = self.head;
        let next = if tail + 1 == self.capacity { 0 } else { tail + 1 };
        if next == head {
            return Err(-28);
        }
        let ghost before = self.view();
        if tail < self.descriptors.len() {
            self.descriptors.set(tail, desc);
        } else {
            self.descriptors.push(desc);
        }
        self.tail = next;
        proof {
            if head <= tail {
                if next == 0 {
                    assert(self.view() =~= before.push(desc));
                } else {
                    assert(self.view() =~= before.push(desc));
                }
            } else {
                assert(self.view() =~= before.push(desc));
            }
        }
        Ok(())
    }

    /// Takes the oldest descriptor, if any.
    pub fn dequeue(&mut self) -> (r: Option<DmaDescriptor>)
        requires
            old(self).wf(),
        ensures
            final(self).wf(),
            final(self).cap() == old(self).cap(),
            old(self).view().len() == 0 ==> r is None && final(self).view() == old(self).view(),
            old(self).view().len() > 0 ==> r == Some(old(self).view()[0]) && final(self).view() == old(self).view().drop_first(),
    {
        let head = self.head;
        let tail = self.tail;
        if head == tail {
            return None;
        }
        let ghost before = self.view();
        let desc = self.descriptors[head];
        self.head = if head + 1 == self.capacity { 0 } else { head + 1 };
        proof {
            assert(self.view() =~= before.drop_first());
        }
        Some(desc)
    }

    /// Whether nothing is queued.
    pub fn is_empty(&self) -> (b: bool)
        requires
            self.wf(),
        ensures
            b == (self.view().len() == 0),
    {
        self.head == self.tail
    }
}


/// Hands out cookies (counting up from 1), records completions, and runs
/// the callback registered for a cookie when it completes.
pub struct DmaCookieTracker<C: DmaCallback> {
    pub next_cookie: u32,
    pub completed: Vec<u32>,
    pub callbacks: Vec<(u32, C)>,
}

/// Cookies of the registered callbacks.
pub open spec fn callback_cookies<C>(cbs: Seq<(u32, C)>) -> Seq<u32> {
    cbs.map_values(|e: (u32, C)| e.0)
}

impl<C: DmaCallback> DmaCookieTracker<C> {
    /// Next cookie 1, nothing completed, no callbacks.
    pub fn new() -> (t: DmaCookieTracker<C>)
        ensures
            t.next_cookie == 1 && t.completed@.len() == 0 && t.callbacks@.len() == 0,
    {
        DmaCookieTracker { next_cookie: 1, completed: Vec::new(), callbacks: Vec::new() }
    }

    /// The next cookie (the counter wraps at the top of `u32`).
    pub fn assign_cookie(&mut self) -> (c: u32)
        ensures
            c == old(self).next_cookie,
            final(self).next_cookie == (if old(self).next_cookie == u32::MAX { 0 } else { old(self).next_cookie + 1 }),
            final(self).completed@ == old(self).completed@,
            final(self).callbacks@ == old(self).callbacks@,
    {
        let c = self.next_cookie;
        self.next_cookie = self.next_cookie.wrapping_add(1);
        c
    }

    /// Records `cookie` as complete and runs (and forgets) the first
    /// callback registered for it.
    pub fn mark_complete(&mut self, cookie: u32)
        ensures
            final(self).completed@ == old(self).completed@.push(cookie),
            final(self).next_cookie == old(self).next_cookie,
            !callback_cookies(old(self).callbacks@).contains(cookie) ==> final(self).callbacks@ == old(self).callbacks@,
            callback_cookies(old(self).callbacks@).contains(cookie) ==> exists|k: int|
                0 <= k < old(self).callbacks@.len() && old(self).callbacks@[k].0 == cookie
                && (forall|j: int| 0 <= j < k ==> (#[trigger] old(self).callbacks@[j]).0 != cookie)
                && final(self).callbacks@ == old(self).callbacks@.remove(k),
    {
        self.completed.push(cookie);
        let mut i: usize = 0;
        while i < self.callbacks.len()
            invariant
                i <= self.callbacks@.len(),
                self.callbacks@ == old(self).callbacks@,
                self.completed@ == old(self).completed@.push(cookie),
                self.next_cookie == old(self).next_cookie,
                forall|j: int| 0 <= j < i ==> (#[trigger] self.callbacks@[j]).0 != cookie,
            decreases self.callbacks.len() - i,
        {
            if self.callbacks[i].0 == cookie {
                proof { assert(callback_cookies(self.callbacks@)[i as int] == cookie); }
                let (c, mut cb) = self.callbacks.remove(i);
                cb.call(c);
                return;
            }
            i = i + 1;
        }
        proof {
            if callback_cookies(old(self).callbacks@).contains(cookie) {
                let k = choose|k: int| 0 <= k < callback_cookies(old(self).callbacks@).len()
                    && callback_cookies(old(self).callbacks@)[k] == cookie;
                assert(old(self).callbacks@[k].0 == cookie);
            }
        }
    }

    /// Registers `callback` for `cookie`.
    pub fn register_callback(&mut self, cookie: u32, callback: C)
        ensures
            final(self).callbacks@ == old(self).callbacks@.push((cookie, callback)),
            final(self).completed@ == old(self).completed@,
            final(self).next_cookie == old(self).next_cookie,
    {
        self.callbacks.push((cookie, callback));
    }

    /// Whether `cookie` has completed (since the last clear).
    pub fn is_complete(&self, cookie: u32) -> (b: bool)
        ensures
            b == self.completed@.contains(cookie),
    {
        let mut i: usize = 0;
        while i < self.completed.len()
            invariant
                i <= self.completed@.len(),
                forall|j: int| 0 <= j < i ==> self.completed@[j] != cookie,
            decreases self.completed.len() - i,
        {
            if self.completed[i] == cookie {
                return true;
            }
            i = i + 1;
        }
        false
    }

    /// Forgets all completions.
    pub fn clear_completed(&mut self)
        ensures
            final(self).completed@.len() == 0,
            final(self).callbacks@ == old(self).callbacks@,
            final(self).next_cookie == old(self).next_cookie,
    {
        self.completed.clear();
    }
}

/// Completion interrupt of a channel: records `cookie` as complete (see
/// `mark_complete`).
pub fn dma_irq_handler<C: DmaCallback>(chan: &DmaChannel, cookie: u32, tracker: &mut DmaCookieTracker<C>)
    ensures
        final(tracker).completed@ == old(tracker).completed@.push(cookie),
        final(tracker).next_cookie == old(tracker).next_cookie,
{
    tracker.mark_complete(cookie);
}

impl DmaChannel {
    /// Gives `desc` the tracker's next cookie and returns it.
    pub fn submit_descriptor<C: DmaCallback>(&self, desc: DmaDescriptor, tracker: &mut DmaCookieTracker<C>) -> (c: u32)
        ensures
            c == old(tracker).next_cookie,
            final(tracker).next_cookie == (if old(tracker).next_cookie == u32::MAX { 0 } else { old(tracker).next_cookie + 1 }),
            final(tracker).completed@ == old(tracker).completed@,
            final(tracker).callbacks@ == old(tracker).callbacks@,
    {
        let mut d = desc;
        d.cookie = tracker.assign_cookie();
        d.cookie
    }
}

/// The registered controllers, the engine's user count and the next
/// controller id.
pub struct DmaEngine {
    pub devices: Vec<DmaDevice>,
    pub ref_count: usize,
    pub next_dev_id: u32,
}

impl DmaEngine {
    /// No controllers, no users, ids from 0.
    pub fn new() -> (e: DmaEngine)
        ensures
            e.devices@.len() == 0 && e.ref_count == 0 && e.next_dev_id == 0,
    {
        DmaEngine { devices: Vec::new(), ref_count: 0, next_dev_id: 0 }
    }
}

/// Registers a controller under the next id; `-22` (invalid) for a
/// controller without channels.
pub fn dma_async_device_register(eng: &mut DmaEngine, device: DmaDevice) -> (r: Result<(), i32>)
    ensures
        device.chancnt == 0 ==> r == Err::<(), i32>(-22i32) && final(eng).devices@ == old(eng).devices@
            && final(eng).next_dev_id == old(eng).next_dev_id,
        device.chancnt != 0 ==> r is Ok
            && final(eng).devices@ == old(eng).devices@.push(DmaDevice { dev_id: old(eng).next_dev_id, ..device })
            && final(eng).next_dev_id == (if old(eng).next_dev_id == u32::MAX { 0 } else { old(eng).next_dev_id + 1 }),
        final(eng).ref_count == old(eng).ref_count,
{
    if device.chancnt == 0 {
        return Err(-22);
    }
    let mut device = device;
    device.dev_id = eng.next_dev_id;
    eng.next_dev_id = eng.next_dev_id.wrapping_add(1);
    eng.devices.push(device);
    Ok(())
}

/// Unregisters every controller with `device`'s id (order of the others
/// kept).
pub fn dma_async_device_unregister(eng: &mut DmaEngine, device: &DmaDevice)
    ensures
        final(eng).devices@ == old(eng).devices@.filter(|d: DmaDevice| d.dev_id != device.dev_id),
        final(eng).ref_count == old(eng).ref_count,
        final(eng).next_dev_id == old(eng).next_dev_id,
{
    let ghost orig = eng.devices@;
    let ghost p = |d: DmaDevice| d.dev_id != device.dev_id;
    let mut i: usize = 0;
    let ghost mut j: int = 0;
    while i < eng.devices.len()
        invariant
            0 <= i <= j <= orig.len(),
            eng.devices@.len() == i + (orig.len() - j),
            eng.devices@.subrange(0, i as int) == orig.subrange(0, j).filter(p),
            eng.devices@.subrange(i as int, eng.devices@.len() as int) == orig.subrange(j, orig.len() as int),
            p == (|d: DmaDevice| d.dev_id != device.dev_id),
            eng.ref_count == old(eng).ref_count && eng.next_dev_id == old(eng).next_dev_id,
        decreases eng.devices.len() - i,
    {
        let ghost before = eng.devices@;
        let ghost tl = before.subrange(i as int, before.len() as int);
        let ghost ot = orig.subrange(j, orig.len() as int);
        assert(before[i as int] == orig[j]) by {
            assert(tl[0] == ot[0]);
        }
        proof {
            reveal(Seq::filter);
            assert(orig.subrange(0, j + 1).drop_last() =~= orig.subrange(0, j));
            assert(orig.subrange(0, j + 1).last() == orig[j]);
        }
        if eng.devices[i].dev_id == device.dev_id {
            let _ = eng.devices.remove(i);
            proof {
                assert(eng.devices@.subrange(0, i as int) =~= before.subrange(0, i as int));
                assert forall|k: int| 0 <= k < eng.devices@.len() - i implies
                    #[trigger] eng.devices@.subrange(i as int, eng.devices@.len() as int)[k] == orig.subrange(j + 1, orig.len() as int)[k] by {
                    assert(tl[k + 1] == ot[k + 1]);
                }
                assert(eng.devices@.subrange(i as int, eng.devices@.len() as int) =~= orig.subrange(j + 1, orig.len() as int));
                j = j + 1;
            }
        } else {
            proof {
                assert(before.subrange(0, i as int + 1) =~= before.subrange(0, i as int).push(orig[j]));
                assert forall|k: int| 0 <= k < before.len() - i - 1 implies
                    #[trigger] before.subrange(i as int + 1, before.len() as int)[k] == orig.subrange(j + 1, orig.len() as int)[k] by {
                    assert(tl[k + 1] == ot[k + 1]);
                }
                assert(before.subrange(i as int + 1, before.len() as int) =~= orig.subrange(j + 1, orig.len() as int));
            }
            i = i + 1;
            proof { j = j + 1; }
        }
    }
    proof {
        assert(orig.subrange(0, j) =~= orig);
        assert(eng.devices@ =~= eng.devices@.subrange(0, i as int));
    }
}

/// Takes a reference on the engine (the count wraps at the top of `usize`).
pub fn dmaengine_get(eng: &mut DmaEngine)
    ensures
        final(eng).ref_count == (if old(eng).ref_count == usize::MAX { 0 } else { old(eng).ref_count + 1 }),
        final(eng).devices@ == old(eng).devices@ && final(eng).next_dev_id == old(eng).next_dev_id,
{
    eng.ref_count = eng.ref_count.wrapping_add(1);
}

/// Drops a reference on the engine; there must be one.
pub fn dmaengine_put(eng: &mut DmaEngine)
    requires
        old(eng).ref_count > 0,
    ensures
        final(eng).ref_count == old(eng).ref_count - 1,
        final(eng).devices@ == old(eng).devices@ && final(eng).next_dev_id == old(eng).next_dev_id,
{
    eng.ref_count = eng.ref_count - 1;
}

/// Takes a client reference on a channel (the count wraps at the top).
pub fn dma_chan_get(chan: &mut DmaChannel) -> (r: Result<(), i32>)
    ensures
        r is Ok,
        final(chan).client_count == (if old(chan).client_count == u32::MAX { 0 } else { old(chan).client_count + 1 }),
        final(chan).chan_id == old(chan).chan_id && final(chan).name == old(chan).name && final(chan).device == old(chan).device,
{
    chan.client_count = chan.client_count.wrapping_add(1);
    Ok(())
}

/// Drops a client reference on a channel; there must be one.
pub fn dma_chan_put(chan: &mut DmaChannel)
    requires
        old(chan).client_count > 0,
    ensures
        final(chan).client_count == old(chan).client_count - 1,
        final(chan).chan_id == old(chan).chan_id && final(chan).name == old(chan).name && final(chan).device == old(chan).device,
{
    chan.client_count = chan.client_count - 1;
}

/// Looks for a public channel offering `tx_type`; controllers do not list
/// their channels here, so none is found.
pub fn dma_find_channel(eng: &DmaEngine, tx_type: u32) -> (r: Option<DmaChannel>)
    ensures
        r is None,
{
    let mut i: usize = 0;
    while i < eng.devices.len()
        invariant
            i <= eng.devices@.len(),
        decreases eng.devices.len() - i,
    {
        if eng.devices[i].has_cap(tx_type) && !eng.devices[i].has_cap(dma_caps::PRIVATE) {
            return None;
        }
        i = i + 1;
    }
    None
}

/// Looks for an exclusive channel with all capabilities of `mask`;
/// controllers do not list their channels here, so none is found.
pub fn dma_request_channel(eng: &DmaEngine, mask: u32) -> (r: Option<DmaChannel>)
    ensures
        r is None,
{
    let mut i: usize = 0;
    while i < eng.devices.len()
        invariant
            i <= eng.devices@.len(),
        decreases eng.devices.len() - i,
    {
        if (eng.devices[i].cap_mask & mask) == mask {
            return None;
        }
        i = i + 1;
    }
    None
}

/// Releases a channel: drops a client reference.
pub fn dma_release_channel(chan: &mut DmaChannel)
    requires
        old(chan).client_count > 0,
    ensures
        final(chan).client_count == old(chan).client_count - 1,
        final(chan).chan_id == old(chan).chan_id && final(chan).name == old(chan).name && final(chan).device == old(chan).device,
{
    dma_chan_put(chan);
}

} // verus!
