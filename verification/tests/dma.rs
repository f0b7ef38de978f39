use staros_drivers::base::bus::Device;
use staros_drivers::dma::dma_attrs;
use staros_drivers::dma::dma_caps;
use staros_drivers::dma::engine::{
    dma_async_device_register, dma_chan_get, dma_chan_put, dmaengine_get, dmaengine_put, DmaCallback, DmaChannel,
    DmaCookieTracker, DmaDescriptor, DmaDescriptorQueue, DmaDevice, DmaDirection, DmaEngine, ScatterGatherEntry,
};
use staros_drivers::dma::mapping::{
    dma_alloc_attrs, dma_alloc_coherent, dma_free_attrs, dma_free_coherent, dma_get_mask, dma_map_single,
    dma_set_mask, dma_unmap_single, dmam_alloc_coherent, dmam_free_coherent, DmaAddr, DmaDataDirection, DmaMemory,
};
use staros_drivers::dma::pool::{dma_pool_alloc, dma_pool_create, dma_pool_free};

/// Hands out page-aligned addresses from 0x10_0000 up; never runs out.
struct BumpMemory {
    next: u64,
    live: usize,
}

impl BumpMemory {
    fn new() -> Self {
        BumpMemory { next: 0x10_0000, live: 0 }
    }
}

impl DmaMemory for BumpMemory {
    fn alloc_zeroed(&mut self, size: usize, align: usize) -> u64 {
        let a = align as u64;
        let start = (self.next + a - 1) / a * a;
        self.next = start + size as u64;
        self.live += 1;
        start
    }
    fn dealloc(&mut self, _vaddr: u64, _size: usize, _align: usize) {
        self.live -= 1;
    }
}

fn mock_device() -> Device {
    Device::new("mock".to_string())
}

struct NoCallback;

impl DmaCallback for NoCallback {
    fn call(&mut self, _cookie: u32) {}
}

#[test]
fn test_dma_device_new() {
    let dma_dev = DmaDevice::new(mock_device());
    assert_eq!(dma_dev.chancnt, 0);
    assert_eq!(dma_dev.cap_mask, 0);
}

#[test]
fn test_dma_device_has_cap() {
    let mut dma_dev = DmaDevice::new(mock_device());
    dma_dev.cap_mask = dma_caps::MEMCPY | dma_caps::INTERRUPT;
    assert!(dma_dev.has_cap(dma_caps::MEMCPY));
    assert!(dma_dev.has_cap(dma_caps::INTERRUPT));
    assert!(!dma_dev.has_cap(dma_caps::XOR));
}

#[test]
fn test_dma_async_device_register() {
    let mut eng = DmaEngine::new();
    let mut dma_dev = DmaDevice::new(mock_device());
    dma_dev.chancnt = 4;
    dma_dev.cap_mask = dma_caps::MEMCPY;
    let result = dma_async_device_register(&mut eng, dma_dev);
    assert!(result.is_ok());
    assert_eq!(eng.devices.len(), 1);
}

#[test]
fn controller_without_channels_is_refused() {
    let mut eng = DmaEngine::new();
    assert_eq!(dma_async_device_register(&mut eng, DmaDevice::new(mock_device())), Err(-22));
    assert_eq!(eng.devices.len(), 0);
}

#[test]
fn test_dmaengine_get_put() {
    let mut eng = DmaEngine::new();
    let initial = eng.ref_count;
    dmaengine_get(&mut eng);
    assert_eq!(eng.ref_count, initial + 1);
    dmaengine_put(&mut eng);
    assert_eq!(eng.ref_count, initial);
}

#[test]
fn test_dma_channel_new() {
    let dma_dev = DmaDevice::new(mock_device());
    let chan = DmaChannel::new(0, dma_dev, "dma0chan0");
    assert_eq!(chan.chan_id, 0);
    assert_eq!(chan.name, "dma0chan0");
    assert_eq!(chan.client_count, 0);
}

#[test]
fn test_dma_chan_get_put() {
    let dma_dev = DmaDevice::new(mock_device());
    let mut chan = DmaChannel::new(0, dma_dev, "test");
    let result = dma_chan_get(&mut chan);
    assert!(result.is_ok());
    assert_eq!(chan.client_count, 1);
    dma_chan_put(&mut chan);
    assert_eq!(chan.client_count, 0);
}

#[test]
fn test_dma_descriptor_queue() {
    let mut queue = DmaDescriptorQueue::new(4);
    let desc1 = DmaDescriptor { cookie: 1, phys: 0x1000, len: 1024, direction: DmaDirection::MemToMem };
    assert!(queue.enqueue(desc1.clone()).is_ok());
    assert!(!queue.is_empty());
    let dequeued = queue.dequeue();
    assert!(dequeued.is_some());
    assert_eq!(dequeued.unwrap().cookie, 1);
    assert!(queue.is_empty());
}

#[test]
fn descriptor_queue_is_first_in_first_out_and_keeps_a_slot_free() {
    let mut queue = DmaDescriptorQueue::new(3);
    let d = |c| DmaDescriptor { cookie: c, phys: 0, len: 0, direction: DmaDirection::MemToDev };
    assert!(queue.enqueue(d(1)).is_ok());
    assert!(queue.enqueue(d(2)).is_ok());
    assert_eq!(queue.enqueue(d(3)), Err(-28));
    assert_eq!(queue.dequeue().unwrap().cookie, 1);
    assert!(queue.enqueue(d(3)).is_ok());
    assert_eq!(queue.dequeue().unwrap().cookie, 2);
    assert_eq!(queue.dequeue().unwrap().cookie, 3);
    assert!(queue.dequeue().is_none());
}

#[test]
fn test_dma_cookie_tracker() {
    let mut tracker: DmaCookieTracker<NoCallback> = DmaCookieTracker::new();
    let cookie1 = tracker.assign_cookie();
    let cookie2 = tracker.assign_cookie();
    assert_eq!(cookie1, 1);
    assert_eq!(cookie2, 2);
    tracker.mark_complete(cookie1);
    assert!(tracker.is_complete(cookie1));
    assert!(!tracker.is_complete(cookie2));
}

#[test]
fn test_scatter_gather_entry() {
    let sg = ScatterGatherEntry { addr: 0x1000, len: 4096 };
    assert_eq!(sg.addr, 0x1000);
    assert_eq!(sg.len, 4096);
}

#[test]
fn test_dma_alloc_free_coherent() {
    let dev = mock_device();
    let mut mem = BumpMemory::new();
    let mut dma_handle: DmaAddr = 0;
    let vaddr = dma_alloc_coherent(&mut mem, &dev, 4096, &mut dma_handle);
    assert_ne!(vaddr, 0);
    assert_ne!(dma_handle, 0);
    dma_free_coherent(&mut mem, &dev, 4096, vaddr, dma_handle);
    assert_eq!(mem.live, 0);
}

#[test]
fn test_dma_map_unmap_single() {
    let dev = mock_device();
    let buffer = vec![0u8; 1024];
    let ptr = buffer.as_ptr() as u64;
    let dma_addr = dma_map_single(&dev, ptr, 1024, DmaDataDirection::ToDevice);
    assert_ne!(dma_addr, 0);
    assert_eq!(dma_addr, ptr);
    dma_unmap_single(&dev, dma_addr, 1024, DmaDataDirection::ToDevice);
    assert_eq!(dma_map_single(&dev, ptr, 0, DmaDataDirection::ToDevice), 0);
}

#[test]
fn test_dma_set_get_mask() {
    let mut dev = mock_device();
    let result = dma_set_mask(&mut dev, 0xFFFFFFFF);
    assert!(result.is_ok());
    let mask = dma_get_mask(&dev);
    assert_eq!(mask, 0xFFFFFFFF);
}

#[test]
fn test_dma_alloc_attrs() {
    let dev = mock_device();
    let mut mem = BumpMemory::new();
    let mut dma_handle: DmaAddr = 0;
    let vaddr = dma_alloc_attrs(&mut mem, &dev, 8192, &mut dma_handle, dma_attrs::WRITE_COMBINE);
    assert_ne!(vaddr, 0);
    dma_free_attrs(&mut mem, &dev, 8192, vaddr, dma_handle, dma_attrs::WRITE_COMBINE);
    assert_eq!(dma_alloc_attrs(&mut mem, &dev, 0, &mut dma_handle, 0), 0);
}

#[test]
fn test_dmam_alloc_free() {
    let dev = mock_device();
    let mut mem = BumpMemory::new();
    let mut dma_handle: DmaAddr = 0;
    let vaddr = dmam_alloc_coherent(&mut mem, &dev, 4096, &mut dma_handle);
    assert_ne!(vaddr, 0);
    dmam_free_coherent(&mut mem, &dev, 4096, vaddr, dma_handle);
}

#[test]
fn test_dma_pool_create() {
    let pool = dma_pool_create("test_pool", mock_device(), 64, 64, 0);
    assert!(pool.is_some());
    let pool = pool.unwrap();
    assert_eq!(pool.size, 64);
    assert_eq!(pool.name, "test_pool");
}

#[test]
fn test_dma_pool_alloc_free() {
    let mut mem = BumpMemory::new();
    let mut pool = dma_pool_create("test", mock_device(), 128, 64, 0).unwrap();
    let mut handle: DmaAddr = 0;
    let ptr = dma_pool_alloc(&mut pool, &mut mem, &mut handle);
    assert_ne!(ptr, 0);
    assert_ne!(handle, 0);
    dma_pool_free(&mut pool, ptr, handle);
}

#[test]
fn test_dma_pool_multiple_allocs() {
    let mut mem = BumpMemory::new();
    let mut pool = dma_pool_create("multi", mock_device(), 64, 64, 0).unwrap();
    let mut handles = Vec::new();
    let mut ptrs = Vec::new();
    for _ in 0..10 {
        let mut handle: DmaAddr = 0;
        let ptr = dma_pool_alloc(&mut pool, &mut mem, &mut handle);
        assert_ne!(ptr, 0);
        handles.push(handle);
        ptrs.push(ptr);
    }
    for (ptr, handle) in ptrs.iter().zip(handles.iter()) {
        dma_pool_free(&mut pool, *ptr, *handle);
    }
}

#[test]
fn test_dma_pool_alignment() {
    let pool = dma_pool_create("aligned", mock_device(), 64, 128, 0);
    assert!(pool.is_some());
    let pool = pool.unwrap();
    assert_eq!(pool.size & 127, 0);
}

#[test]
fn pool_hands_back_the_block_freed_last() {
    let mut mem = BumpMemory::new();
    let mut pool = dma_pool_create("lifo", mock_device(), 64, 64, 0).unwrap();
    let mut h1: DmaAddr = 0;
    let a = dma_pool_alloc(&mut pool, &mut mem, &mut h1);
    dma_pool_free(&mut pool, a, h1);
    let mut h2: DmaAddr = 0;
    let b = dma_pool_alloc(&mut pool, &mut mem, &mut h2);
    assert_eq!(a, b);
    assert_eq!(h1, h2);
    assert!(dma_pool_create("bad", mock_device(), 64, 3, 0).is_none());
    assert!(dma_pool_create("zero", mock_device(), 0, 8, 0).is_none());
}
