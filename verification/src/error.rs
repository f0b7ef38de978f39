use vstd::prelude::*;

verus! {

/// Device-level error codes carried inside [`KernelError::Device`].
#[derive(Debug, Clone, Copy, PartialEq, Eq)]
pub enum DeviceError {
    NotInitialized,
    HardwareError,
    NotSupported,
}

/// Kernel-wide error type used by the display, media and wireless layers.
#[derive(Debug, Clone, Copy, PartialEq, Eq)]
pub enum KernelError {
    InvalidParameter(&'static str),
    ResourceExhausted,
    NotFound,
    OperationFailed,
    Timeout,
    InvalidAddress,
    Device(DeviceError),
}

} // verus!
