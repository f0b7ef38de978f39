# staros_drivers

Device-driver core of a small kernel, written in Verus: the driver model
(buses, devices, drivers, platform devices), the device tree (flattened
tree parsing, unflattening, addresses, interrupts, platform population),
the clock framework and its providers, DMA mapping, pools and engines, I2C
(core, bit-banging algorithm, device-tree clients), DRM and MIPI DSI
panels, V4L2 and CSI capture, Bluetooth transports (H4 reassembly, UART,
USB, Qualcomm), wireless chip drivers, PMIC, audio codec, modem and GPIO.

## Layout

- `src/` — the verified library. Every function carries a contract that
  Verus proves. Hardware is reached through small traits (`RegisterIo`,
  `ClkHardware`, `I2cDriver`, `DrmOps`, `MipiDsiOps`, `V4l2Ops`,
  `I2cAlgorithm`, `I2cRecoveryOps`, ...). Each keeps a history of the
  calls made through it (`trace`, `transfers`, `mode_sets`, `sent`, ...),
  and the contracts state which accesses a function makes, in which order,
  with which values, in terms of that history. `RegisterFile` is an
  in-memory register bank that implements `RegisterIo` with its history.
- `src/laws.rs`, `src/clk/laws.rs` — proved properties that relate
  several operations (what one call undoes of another, round trips).
- `tests/` — executable tests run against the compiled library.
- `app/` — the kernel side: volatile register and framebuffer access,
  the interrupt-safe lock around shared clock registers, the DMA
  allocator, the shared driver tables behind spin locks, and the loops
  that wait on hardware without bound.
