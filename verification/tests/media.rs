use staros_drivers::clk::mmio::RegisterIo;
use staros_drivers::error::KernelError;
use staros_drivers::media::mipi_csi::csi_dt;
use staros_drivers::media::mipi_csi::{csi_probe, csi_vfe_irq_handler, CsiDev, CsiDevTable, CsiSensorCfg, CsiState};
use staros_drivers::media::v4l2::{
    v4l2_buf_done, v4l2_dqbuf, v4l2_qbuf, v4l2_register, v4l2_reqbufs, v4l2_stream_on, BufState, V4l2Dev,
    V4l2DevTable, V4l2Fmt, V4l2Ops, V4l2PixFmt, V4l2State, MAX_V4L2_DEVS,
};

struct NoRegs;

impl RegisterIo for NoRegs {
    fn read_reg(&mut self, _addr: u64) -> u32 {
        0
    }
    fn write_reg(&mut self, _addr: u64, _val: u32) {}
}

struct DummyOps;

impl V4l2Ops for DummyOps {
    fn open(&mut self, _hw_idx: u8) -> Result<(), KernelError> {
        Ok(())
    }
    fn close(&mut self, _hw_idx: u8) {}
    fn set_fmt(&mut self, _hw_idx: u8, fmt: &V4l2Fmt) -> Result<V4l2Fmt, KernelError> {
        Ok(*fmt)
    }
    fn stream_on(&mut self, _hw_idx: u8) -> Result<(), KernelError> {
        Ok(())
    }
    fn stream_off(&mut self, _hw_idx: u8) {}
    fn queue_buf(&mut self, _hw_idx: u8, _buf_idx: u32) -> Result<(), KernelError> {
        Ok(())
    }
    fn get_frame(&mut self, _hw_idx: u8) -> Option<(u32, u32, u64)> {
        None
    }
}

fn make_dev() -> V4l2Dev {
    V4l2Dev::new(0, b"test-camera")
}

fn registered(tbl: &mut V4l2DevTable, hw: u8, name: &[u8], fmt: V4l2Fmt) -> u8 {
    let mut dev = V4l2Dev::new(hw, name);
    dev.fmt = fmt;
    v4l2_register(tbl, dev).unwrap()
}

#[test]
fn test_csi_sensor_cfg_raw10() {
    let cfg = CsiSensorCfg::new_raw10_4lane(4032, 3024);
    assert_eq!(cfg.lanes, 4);
    assert_eq!(cfg.data_type, csi_dt::RAW10);
    assert_eq!(cfg.width, 4032);
}

#[test]
fn test_csi_probe() {
    let mut tbl = CsiDevTable::new();
    let cfg = CsiSensorCfg::new_raw10_4lane(3264, 2448);
    let slot = csi_probe(&mut tbl, cfg);
    assert!(slot.is_ok());
}

#[test]
fn test_csi_initial_state_off() {
    let cfg = CsiSensorCfg::new_raw10_4lane(1920, 1080);
    let dev = CsiDev::new(99, cfg);
    assert_eq!(dev.state, CsiState::Off);
}

#[test]
fn test_csi_frame_seq_increments() {
    let mut tbl = CsiDevTable::new();
    let mut io = NoRegs;
    let cfg = CsiSensorCfg::new_raw10_4lane(640, 480);
    let slot = csi_probe(&mut tbl, cfg).unwrap();
    let s0 = csi_vfe_irq_handler(&mut tbl, &mut io, slot);
    let s1 = csi_vfe_irq_handler(&mut tbl, &mut io, slot);
    assert_eq!(s1, s0 + 1);
}

#[test]
fn test_csi_dt_constants() {
    assert_eq!(csi_dt::RAW10, 0x2B);
    assert_eq!(csi_dt::YUV422_8BIT, 0x1E);
}

#[test]
fn test_v4l2_fmt_bpp() {
    assert_eq!(V4l2PixFmt::Yuyv.bpp(), 2);
    assert_eq!(V4l2PixFmt::Argb32.bpp(), 4);
    assert_eq!(V4l2PixFmt::Rgb24.bpp(), 3);
}

#[test]
fn test_v4l2_fmt_sizeimage() {
    let fmt = V4l2Fmt::new(1920, 1080, V4l2PixFmt::Yuyv);
    assert_eq!(fmt.bytesperline, 1920 * 2);
    assert_eq!(fmt.sizeimage, 1920 * 2 * 1080);
}

#[test]
fn test_v4l2_dev_name() {
    let dev = make_dev();
    assert_eq!(dev.name_str(), b"test-camera");
}

#[test]
fn test_v4l2_register() {
    let mut tbl = V4l2DevTable::new();
    let mut dev = make_dev();
    dev.fmt = V4l2Fmt::new(1920, 1080, V4l2PixFmt::Nv12);
    let slot = v4l2_register(&mut tbl, dev).unwrap();
    assert!(slot < MAX_V4L2_DEVS as u8);
}

#[test]
fn test_v4l2_reqbufs() {
    let mut tbl = V4l2DevTable::new();
    let slot = registered(&mut tbl, 10, b"cam-reqbufs", V4l2Fmt::new(640, 480, V4l2PixFmt::Yuyv));
    let n = v4l2_reqbufs(&mut tbl, slot, 4, 0x9000_0000).unwrap();
    assert_eq!(n, 4);
    let d = tbl.devs[slot as usize].as_ref().unwrap();
    assert_eq!(d.buf_count, 4);
    assert_eq!(d.bufs[0].state, BufState::Dequeued);
    assert_eq!(d.bufs[0].phys_addr, 0x9000_0000);
    let stride = 640u64 * 2 * 480;
    assert_eq!(d.bufs[1].phys_addr, 0x9000_0000 + stride);
}

#[test]
fn test_v4l2_qbuf_dqbuf() {
    let mut tbl = V4l2DevTable::new();
    let mut ops = DummyOps;
    let slot = registered(&mut tbl, 11, b"cam-qbuf", V4l2Fmt::new(640, 480, V4l2PixFmt::Yuyv));
    v4l2_reqbufs(&mut tbl, slot, 2, 0xA000_0000).unwrap();
    assert!(v4l2_qbuf(&mut tbl, &mut ops, slot, 0).is_ok());
    v4l2_buf_done(&mut tbl, slot, 0, 640 * 2 * 480, 1_000_000);
    let buf = v4l2_dqbuf(&mut tbl, slot).unwrap();
    assert_eq!(buf.index, 0);
    assert_eq!(buf.sequence, 0);
    assert!(buf.bytesused > 0);
}

#[test]
fn test_v4l2_dqbuf_empty_returns_not_found() {
    let mut tbl = V4l2DevTable::new();
    let slot = registered(&mut tbl, 12, b"cam-empty", V4l2Fmt::new(640, 480, V4l2PixFmt::Yuyv));
    v4l2_reqbufs(&mut tbl, slot, 2, 0xB000_0000).unwrap();
    assert!(v4l2_dqbuf(&mut tbl, slot).is_err());
    assert_eq!(v4l2_dqbuf(&mut tbl, slot).err(), Some(KernelError::NotFound));
}

#[test]
fn test_v4l2_stream_on() {
    let mut tbl = V4l2DevTable::new();
    let mut ops = DummyOps;
    let slot = registered(&mut tbl, 13, b"cam-stream", V4l2Fmt::new(1280, 720, V4l2PixFmt::Nv12));
    v4l2_reqbufs(&mut tbl, slot, 3, 0xC000_0000).unwrap();
    assert!(v4l2_stream_on(&mut tbl, &mut ops, slot).is_ok());
    assert_eq!(tbl.devs[slot as usize].as_ref().unwrap().state, V4l2State::Streaming);
}

#[test]
fn test_v4l2_buf_sequence_increments() {
    let mut tbl = V4l2DevTable::new();
    let mut ops = DummyOps;
    let slot = registered(&mut tbl, 14, b"cam-seq", V4l2Fmt::new(640, 480, V4l2PixFmt::Yuyv));
    v4l2_reqbufs(&mut tbl, slot, 2, 0xD000_0000).unwrap();
    v4l2_qbuf(&mut tbl, &mut ops, slot, 0).unwrap();
    v4l2_buf_done(&mut tbl, slot, 0, 100, 1000);
    let b0 = v4l2_dqbuf(&mut tbl, slot).unwrap();
    v4l2_qbuf(&mut tbl, &mut ops, slot, 0).unwrap();
    v4l2_buf_done(&mut tbl, slot, 0, 100, 2000);
    let b1 = v4l2_dqbuf(&mut tbl, slot).unwrap();
    assert_eq!(b1.sequence, b0.sequence + 1);
}

#[test]
fn queued_buffer_cannot_be_queued_again() {
    let mut tbl = V4l2DevTable::new();
    let mut ops = DummyOps;
    let slot = registered(&mut tbl, 15, b"cam-twice", V4l2Fmt::new(64, 48, V4l2PixFmt::Yuyv));
    v4l2_reqbufs(&mut tbl, slot, 1, 0).unwrap();
    v4l2_qbuf(&mut tbl, &mut ops, slot, 0).unwrap();
    assert_eq!(v4l2_qbuf(&mut tbl, &mut ops, slot, 0), Err(KernelError::OperationFailed));
    assert_eq!(v4l2_qbuf(&mut tbl, &mut ops, slot, 5), Err(KernelError::InvalidParameter("buf_idx")));
}
