use staros_drivers::error::KernelError;
use staros_drivers::gpu::drm::drm_core::{
    drm_flip, drm_register, drm_set_mode, ConnectorStatus, ConnectorType, CrtcState, DrmConnector, DrmCrtc, DrmDev,
    DrmDevTable, DrmEncoder, DrmFb, DrmMode, DrmOps, EncoderType, PixelFormat,
};
use staros_drivers::gpu::drm::mipi_dsi::dcs;
use staros_drivers::gpu::drm::mipi_dsi::dt;
use staros_drivers::gpu::drm::mipi_dsi::{
    mipi_dsi_probe, DsiPixelFmt, MipiDevTable, MipiDsiDev, MipiDsiMsg, MipiDsiOps, PanelState,
};

/// Hardware that accepts every request.
struct DummyOps;

impl DrmOps for DummyOps {
    fn enable_vblank(&mut self, _hw_idx: u8, _crtc_id: u8) -> Result<(), KernelError> {
        Ok(())
    }
    fn disable_vblank(&mut self, _hw_idx: u8, _crtc_id: u8) {}
    fn atomic_commit(&mut self, _hw_idx: u8, _crtc: &DrmCrtc, _fb: &DrmFb) -> Result<(), KernelError> {
        Ok(())
    }
    fn mode_set(&mut self, _hw_idx: u8, _crtc_id: u8, _mode: &DrmMode) -> Result<(), KernelError> {
        Ok(())
    }
    fn connector_detect(&mut self, _hw_idx: u8, _conn_id: u8) -> ConnectorStatus {
        ConnectorStatus::Connected
    }
    fn get_modes(&mut self, _hw_idx: u8, _conn_id: u8, _out: &mut Vec<DrmMode>) -> u8 {
        0
    }
}

/// A DSI host that sends every message whole.
struct DummyDsi {
    sent: Vec<Vec<u8>>,
}

impl MipiDsiOps for DummyDsi {
    fn transfer(&mut self, _hw_idx: u8, msg: &mut MipiDsiMsg) -> Result<usize, KernelError> {
        self.sent.push(msg.tx_data().to_vec());
        Ok(msg.tx_len)
    }
    fn power_on(&mut self, _hw_idx: u8) -> Result<(), KernelError> {
        Ok(())
    }
    fn power_off(&mut self, _hw_idx: u8) {}
    fn set_lanes(&mut self, _hw_idx: u8, _lanes: u8) {}
    fn set_format(&mut self, _hw_idx: u8, _format: DsiPixelFmt) {}
}

fn make_dev() -> DrmDev {
    DrmDev::new(0)
}

#[test]
fn test_drm_mode_valid() {
    let m = DrmMode::new_simple(1920, 1080, 60, 148_500);
    assert!(m.is_valid());
    assert_eq!(m.hdisplay, 1920);
    assert_eq!(m.vdisplay, 1080);
    assert_eq!(m.vrefresh, 60);
}

#[test]
fn test_drm_mode_zero_invalid() {
    assert!(!DrmMode::zero().is_valid());
}

#[test]
fn test_drm_fb_alloc() {
    let mut dev = make_dev();
    let id = dev.alloc_fb(1920, 1080, PixelFormat::Xrgb8888, 0x8000_0000).unwrap();
    assert_eq!(id, 1);
    let fb = dev.find_fb(id).unwrap();
    assert!(fb.valid);
    assert_eq!(fb.width, 1920);
    assert_eq!(fb.height, 1080);
    assert_eq!(fb.pitch, 1920 * 4);
}

#[test]
fn test_drm_fb_not_found() {
    let dev = make_dev();
    assert!(dev.find_fb(999).is_none());
}

#[test]
fn test_drm_add_crtc_encoder_connector() {
    let mut dev = make_dev();
    dev.add_crtc(DrmCrtc::new(0)).unwrap();
    dev.add_encoder(DrmEncoder::new(0, EncoderType::DsiCmd)).unwrap();
    let mut conn = DrmConnector::new(0, ConnectorType::MipiDsi);
    let mode = DrmMode::new_simple(1080, 2340, 60, 163_000);
    conn.add_mode(mode).unwrap();
    dev.add_connector(conn).unwrap();
    assert_eq!(dev.crtc_count, 1);
    assert_eq!(dev.enc_count, 1);
    assert_eq!(dev.conn_count, 1);
    assert_eq!(dev.connectors[0].mode_count, 1);
}

#[test]
fn test_drm_register_and_set_mode() {
    let mut tbl = DrmDevTable::new();
    let mut ops = DummyOps;
    let mut dev = DrmDev::new(55);
    dev.add_crtc(DrmCrtc::new(0)).unwrap();
    let mut conn = DrmConnector::new(0, ConnectorType::MipiDsi);
    conn.status = ConnectorStatus::Connected;
    dev.add_connector(conn).unwrap();
    let fb_id = dev.alloc_fb(1080, 2340, PixelFormat::Xrgb8888, 0x8800_0000).unwrap();
    let slot = drm_register(&mut tbl, dev).unwrap();
    let mode = DrmMode::new_simple(1080, 2340, 60, 163_000);
    assert!(drm_set_mode(&mut tbl, &mut ops, slot, 0, 0, mode, fb_id).is_ok());
    let d = tbl.devs[slot as usize].as_ref().unwrap();
    assert_eq!(d.crtcs[0].state, CrtcState::Active);
    assert_eq!(d.crtcs[0].fb_id, fb_id);
    assert!(drm_flip(&mut tbl, &mut ops, slot, 0, fb_id).is_ok());
    assert!(drm_flip(&mut tbl, &mut ops, slot, 0, 999).is_err());
}

#[test]
fn test_crtc_state_after_mode_set() {
    let mut dev = make_dev();
    dev.add_crtc(DrmCrtc::new(0)).unwrap();
    assert_eq!(dev.crtcs[0].state, CrtcState::Disabled);
    dev.crtcs[0].mode = DrmMode::new_simple(720, 1280, 60, 75_000);
    dev.crtcs[0].state = CrtcState::Active;
    assert_eq!(dev.crtcs[0].state, CrtcState::Active);
    assert_eq!(dev.crtcs[0].mode.hdisplay, 720);
}

#[test]
fn test_connector_modes() {
    let mut conn = DrmConnector::new(0, ConnectorType::HDMIA);
    let m1080 = DrmMode::new_simple(1920, 1080, 60, 148_500);
    let m720 = DrmMode::new_simple(1280, 720, 60, 74_250);
    conn.add_mode(m1080).unwrap();
    conn.add_mode(m720).unwrap();
    assert_eq!(conn.mode_count, 2);
    assert_eq!(conn.modes[0].hdisplay, 1920);
    assert_eq!(conn.modes[1].hdisplay, 1280);
}

#[test]
fn connector_mode_table_fills_up() {
    let mut conn = DrmConnector::new(0, ConnectorType::DP);
    for _ in 0..8 {
        conn.add_mode(DrmMode::new_simple(640, 480, 60, 25_175)).unwrap();
    }
    assert_eq!(conn.add_mode(DrmMode::new_simple(640, 480, 60, 25_175)), Err(KernelError::ResourceExhausted));
}

#[test]
fn test_mipi_msg_dcs_short_write() {
    let msg = MipiDsiMsg::dcs_write(0, &[dcs::EXIT_SLEEP_MODE]).unwrap();
    assert_eq!(msg.data_type, dt::DCS_SHORT_W_0P);
    assert_eq!(msg.tx_len, 1);
    assert_eq!(msg.tx_data()[0], dcs::EXIT_SLEEP_MODE);
}

#[test]
fn test_mipi_msg_dcs_long_write() {
    let data = [dcs::SET_COLUMN_ADDRESS, 0x00, 0x00, 0x04, 0x37];
    let msg = MipiDsiMsg::dcs_write(0, &data).unwrap();
    assert_eq!(msg.data_type, dt::DCS_LONG_W);
    assert_eq!(msg.tx_len, 5);
}

#[test]
fn test_mipi_msg_empty_fails() {
    assert!(MipiDsiMsg::dcs_write(0, &[]).is_err());
}

#[test]
fn test_panel_init() {
    let mut ops = DummyDsi { sent: Vec::new() };
    let mut dev = MipiDsiDev::new(0, 4);
    assert_eq!(dev.state, PanelState::Off);
    dev.panel_init(&mut ops).unwrap();
    assert_eq!(dev.state, PanelState::Initialized);
    assert_eq!(ops.sent, vec![vec![dcs::SOFT_RESET], vec![dcs::EXIT_SLEEP_MODE]]);
}

#[test]
fn test_display_on_off() {
    let mut ops = DummyDsi { sent: Vec::new() };
    let mut dev = MipiDsiDev::new(0, 4);
    dev.panel_init(&mut ops).unwrap();
    dev.display_on(&mut ops).unwrap();
    assert_eq!(dev.state, PanelState::On);
    dev.display_off(&mut ops).unwrap();
    assert_eq!(dev.state, PanelState::Initialized);
}

#[test]
fn test_set_brightness() {
    let mut ops = DummyDsi { sent: Vec::new() };
    let mut dev = MipiDsiDev::new(0, 4);
    dev.set_brightness(&mut ops, 200).unwrap();
    assert_eq!(dev.backlight.brightness, 200);
    assert!(dev.backlight.enabled);
    dev.set_brightness(&mut ops, 0).unwrap();
    assert!(!dev.backlight.enabled);
}

#[test]
fn test_set_column_address() {
    let mut ops = DummyDsi { sent: Vec::new() };
    let mut dev = MipiDsiDev::new(0, 4);
    assert!(dev.set_column_address(&mut ops, 0, 1079).is_ok());
    assert_eq!(ops.sent[0], vec![dcs::SET_COLUMN_ADDRESS, 0x00, 0x00, 0x04, 0x37]);
}

#[test]
fn test_mipi_dsi_probe_registration() {
    let mut tbl = MipiDevTable::new();
    let dev = MipiDsiDev::new(88, 2);
    let slot = mipi_dsi_probe(&mut tbl, dev);
    assert!(slot.is_ok());
    assert_eq!(slot.unwrap(), 0);
    assert_eq!(mipi_dsi_probe(&mut tbl, MipiDsiDev::new(1, 2)), Ok(1));
    assert_eq!(mipi_dsi_probe(&mut tbl, MipiDsiDev::new(2, 2)), Err(KernelError::ResourceExhausted));
}
