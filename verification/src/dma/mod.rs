//! DMA: the engine registry with channels, descriptor queues and cookie
//! tracking; coherent and streaming mappings; block pools.
pub mod dma_caps;
pub mod engine;
pub mod dma_attrs;
pub mod mapping;
pub mod pool;
