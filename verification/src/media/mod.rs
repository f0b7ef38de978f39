//! Media: V4L2 capture devices with their buffer queues, and the MIPI CSI-2
//! camera receiver.
pub mod v4l2;
pub mod mipi_csi;
