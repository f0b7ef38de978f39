//! MIPI DSI: DCS command messages and a panel driven through them
//! (power-up sequence, display on/off, brightness, address windows).
use vstd::prelude::*;
use crate::error::KernelError;

pub mod dt;
pub mod dcs;

verus! {

pub const MAX_MIPI_DEVS: usize = 2;
pub const MIPI_MSG_MAX_LEN: usize = 256;

/// A DSI message: transmit buffer (256 bytes, `tx_len` used) and receive
/// buffer (64 bytes, `rx_len` expected).
pub struct MipiDsiMsg {
    pub channel: u8,
    pub data_type: u8,
    pub flags: u16,
    pub tx_buf: Vec<u8>,
    pub tx_len: usize,
    pub rx_buf: Vec<u8>,
    pub rx_len: usize,
}

/// The DCS write data type for a payload of `n` bytes: short without
/// parameter for 1, short with one parameter for 2, long otherwise.
pub open spec fn dcs_write_type(n: int) -> u8 {
    if n == 1 { dt::DCS_SHORT_W_0P } else if n == 2 { dt::DCS_SHORT_W_1P } else { dt::DCS_LONG_W }
}

/// Buffers of the message's fixed sizes, with the used lengths inside them.
pub open spec fn msg_wf(m: &MipiDsiMsg) -> bool {
    m.tx_buf@.len() == MIPI_MSG_MAX_LEN && m.rx_buf@.len() == 64 && m.tx_len <= MIPI_MSG_MAX_LEN && m.rx_len <= 64
}

/// `n` zero bytes.
fn zeros(n: usize) -> (v: Vec<u8>)
    ensures
        v@ == Seq::new(n as nat, |i: int| 0u8),
{
    let mut v: Vec<u8> = Vec::new();
    let mut i: usize = 0;
    while i < n
        invariant
            i <= n,
            v@ == Seq::new(i as nat, |k: int| 0u8),
        decreases n - i,
    {
        v.push(0u8);
        i = i + 1;
        assert(v@ =~= Seq::new(i as nat, |k: int| 0u8));
    }
    v
}

impl MipiDsiMsg {
    /// A long-write message on `channel` with an empty payload (the data is
    /// not copied).
    pub fn new_dcs_write(channel: u8, data: &'static [u8]) -> (m: MipiDsiMsg)
        ensures
            msg_wf(&m),
            m.channel == channel && m.data_type == dt::DCS_LONG_W && m.flags == 0,
            m.tx_len == 0 && m.rx_len == 0,
    {
        MipiDsiMsg {
            channel,
            data_type: dt::DCS_LONG_W,
            flags: 0,
            tx_buf: zeros(MIPI_MSG_MAX_LEN),
            tx_len: 0,
            rx_buf: zeros(64),
            rx_len: 0,
        }
    }

    /// A DCS write of `data` (1 to 256 bytes) on `channel`, typed by its
    /// length (see `dcs_write_type`); `InvalidParameter` for an empty or
    /// longer payload.
    pub fn dcs_write(channel: u8, data: &[u8]) -> (r: Result<MipiDsiMsg, KernelError>)
        ensures
            (data@.len() == 0 || data@.len() > MIPI_MSG_MAX_LEN) <==> r is Err,
            r is Err ==> r == Err::<MipiDsiMsg, KernelError>(KernelError::InvalidParameter("")),
            r matches Ok(m) ==> msg_wf(&m) && m.channel == channel && m.data_type == dcs_write_type(data@.len() as int)
                && m.flags == 0 && m.tx_len == data@.len() && m.rx_len == 0
                && m.tx_buf@.subrange(0, data@.len() as int) == data@
                && (forall|i: int| data@.len() <= i < MIPI_MSG_MAX_LEN ==> #[trigger] m.tx_buf@[i] == 0),
    {
        if data.len() == 0 || data.len() > MIPI_MSG_MAX_LEN {
            return Err(KernelError::InvalidParameter(""));
        }
        let data_type = if data.len() == 1 {
            dt::DCS_SHORT_W_0P
        } else if data.len() == 2 {
            dt::DCS_SHORT_W_1P
        } else {
            dt::DCS_LONG_W
        };
        let mut tx: Vec<u8> = Vec::new();
        let mut i: usize = 0;
        while i < MIPI_MSG_MAX_LEN
            invariant
                i <= MIPI_MSG_MAX_LEN,
                0 < data@.len() <= MIPI_MSG_MAX_LEN,
                tx@.len() == i,
                forall|k: int| 0 <= k < i ==> #[trigger] tx@[k] == (if k < data@.len() { data@[k] } else { 0u8 }),
            decreases MIPI_MSG_MAX_LEN - i,
        {
            if i < data.len() {
                tx.push(data[i]);
            } else {
                tx.push(0u8);
            }
            i = i + 1;
        }
        assert(tx@.subrange(0, data@.len() as int) =~= data@);
        Ok(MipiDsiMsg { channel, data_type, flags: 0, tx_buf: tx, tx_len: data.len(), rx_buf: zeros(64), rx_len: 0 })
    }

    /// A DCS read of command `cmd` on `channel`, expecting `rx_len` bytes
    /// (at most 64).
    pub fn dcs_read(channel: u8, cmd: u8, rx_len: usize) -> (m: MipiDsiMsg)
        ensures
            msg_wf(&m),
            m.channel == channel && m.data_type == dt::DCS_READ_0P && m.flags == 0,
            m.tx_len == 1 && m.tx_buf@[0] == cmd,
            forall|i: int| 1 <= i < MIPI_MSG_MAX_LEN ==> #[trigger] m.tx_buf@[i] == 0,
            m.rx_len == (if rx_len < 64 { rx_len } else { 64 }),
    {
        let mut tx = zeros(MIPI_MSG_MAX_LEN);
        tx.set(0, cmd);
        let n = if rx_len < 64 { rx_len } else { 64 };
        MipiDsiMsg { channel, data_type: dt::DCS_READ_0P, flags: 0, tx_buf: tx, tx_len: 1, rx_buf: zeros(64), rx_len: n }
    }

    /// The transmitted bytes.
    pub fn tx_data(&self) -> (s: &[u8])
        requires
            msg_wf(self),
        ensures
            s@ == self.tx_buf@.subrange(0, self.tx_len as int),
    {
        &self.tx_buf.as_slice()[0..self.tx_len]
    }

    /// The received bytes.
    pub fn rx_data(&self) -> (s: &[u8])
        requires
            msg_wf(self),
        ensures
            s@ == self.rx_buf@.subrange(0, self.rx_len as int),
    {
        &self.rx_buf.as_slice()[0..self.rx_len]
    }
}

/// DSI host operations, supplied by the host controller driver.
pub trait MipiDsiOps {
    /// The messages transferred, in order: host, virtual channel, data
    /// type, payload and result. Every implementation in this library keeps
    /// it; the empty default stands only for implementations made outside
    /// it, which verification does not see.
    closed spec fn sent(&self) -> Seq<(u8, u8, u8, Seq<u8>, Result<usize, KernelError>)> {
        Seq::empty()
    }

    fn transfer(&mut self, hw_idx: u8, msg: &mut MipiDsiMsg) -> (r: Result<usize, KernelError>)
        ensures
            final(self).sent() == old(self).sent().push((
                hw_idx,
                old(msg).channel,
                old(msg).data_type,
                old(msg).tx_buf@.subrange(0, old(msg).tx_len as int),
                r,
            ));

    fn power_on(&mut self, hw_idx: u8) -> Result<(), KernelError>;

    fn power_off(&mut self, hw_idx: u8);

    fn set_lanes(&mut self, hw_idx: u8, lanes: u8);

    fn set_format(&mut self, hw_idx: u8, format: DsiPixelFmt);
}

/// Whether `after` is `before` with one more message: host `hw_idx`,
/// channel `channel`, the DCS write type of `data` and payload `data`; the
/// call's result `r` is `Ok` exactly when the transfer's was, else the
/// transfer's error.
pub open spec fn sent_one(
    before: Seq<(u8, u8, u8, Seq<u8>, Result<usize, KernelError>)>,
    after: Seq<(u8, u8, u8, Seq<u8>, Result<usize, KernelError>)>,
    hw_idx: u8,
    channel: u8,
    data: Seq<u8>,
    r: Result<(), KernelError>,
) -> bool {
    &&& after.len() == before.len() + 1
    &&& after.drop_last() == before
    &&& after.last().0 == hw_idx && after.last().1 == channel
    &&& after.last().2 == dcs_write_type(data.len() as int) && after.last().3 == data
    &&& (r is Ok <==> after.last().4 is Ok)
    &&& (after.last().4 matches Err(e) ==> r == Err::<(), KernelError>(e))
}

/// A DCS address-window payload: the command, then `start` and `end`,
/// each high byte first.
pub open spec fn window_payload(cmd: u8, start: u16, end: u16) -> Seq<u8> {
    seq![cmd, (start >> 8u16) as u8, (start & 0xffu16) as u8, (end >> 8u16) as u8, (end & 0xffu16) as u8]
}

/// DSI pixel formats.
#[derive(Debug, Clone, Copy, PartialEq, Eq, Structural)]
pub enum DsiPixelFmt {
    Rgb888,
    Rgb666,
    Rgb565,
}

/// Backlight level (0-255) and whether it is lit.
#[derive(Clone, Copy)]
pub struct BacklightState {
    pub brightness: u8,
    pub enabled: bool,
}

impl BacklightState {
    /// Dark.
    pub fn off() -> (b: BacklightState)
        ensures
            b.brightness == 0 && !b.enabled,
    {
        BacklightState { brightness: 0, enabled: false }
    }
}

/// Panel power states.
#[derive(Debug, Clone, Copy, PartialEq, Eq, Structural)]
pub enum PanelState {
    Off,
    Initialized,
    On,
    Sleeping,
}

/// A DSI panel.
pub struct MipiDsiDev {
    pub hw_idx: u8,
    pub state: PanelState,
    pub lanes: u8,
    pub format: DsiPixelFmt,
    pub channel: u8,
    pub backlight: BacklightState,
}

/// `b` is panel `a` with possibly another state and backlight.
pub open spec fn same_panel(a: &MipiDsiDev, b: &MipiDsiDev) -> bool {
    a.hw_idx == b.hw_idx && a.lanes == b.lanes && a.format == b.format && a.channel == b.channel
}

impl MipiDsiDev {
    /// A panel that is off, on channel 0, RGB888, backlight dark.
    pub fn new(hw_idx: u8, lanes: u8) -> (d: MipiDsiDev)
        ensures
            d.hw_idx == hw_idx && d.lanes == lanes,
            d.state == PanelState::Off && d.format == DsiPixelFmt::Rgb888 && d.channel == 0,
            d.backlight.brightness == 0 && !d.backlight.enabled,
    {
        MipiDsiDev {
            hw_idx,
            state: PanelState::Off,
            lanes,
            format: DsiPixelFmt::Rgb888,
            channel: 0,
            backlight: BacklightState::off(),
        }
    }

    /// Hands DCS payload `data` to the host in one write message; the
    /// transfer's error is handed on.
    fn send_dcs<O: MipiDsiOps>(&self, ops: &mut O, data: &[u8]) -> (r: Result<(), KernelError>)
        requires
            0 < data@.len() <= MIPI_MSG_MAX_LEN,
        ensures
            sent_one(old(ops).sent(), final(ops).sent(), self.hw_idx, self.channel, data@, r),
    {
        let mut msg = match MipiDsiMsg::dcs_write(self.channel, data) {
            Ok(m) => m,
            Err(e) => {
                return Err(e);
            },
        };
        let hw = self.hw_idx;
        let t = ops.transfer(hw, &mut msg);
        proof {
            assert(ops.sent().drop_last() =~= old(ops).sent());
        }
        match t {
            Ok(_) => Ok(()),
            Err(e) => Err(e),
        }
    }

    /// Sends a one-byte DCS command.
    fn dcs_short_write<O: MipiDsiOps>(&mut self, ops: &mut O, cmd: u8) -> (r: Result<(), KernelError>)
        ensures
            *final(self) == *old(self),
            sent_one(old(ops).sent(), final(ops).sent(), old(self).hw_idx, old(self).channel, seq![cmd], r),
    {
        let data = [cmd];
        assert(data@ =~= seq![cmd]);
        self.send_dcs(ops, &data)
    }

    /// Sends a DCS command with one parameter.
    fn dcs_short_write_param<O: MipiDsiOps>(&mut self, ops: &mut O, cmd: u8, param: u8) -> (r: Result<(), KernelError>)
        ensures
            *final(self) == *old(self),
            sent_one(old(ops).sent(), final(ops).sent(), old(self).hw_idx, old(self).channel, seq![cmd, param], r),
    {
        let data = [cmd, param];
        assert(data@ =~= seq![cmd, param]);
        self.send_dcs(ops, &data)
    }

    /// Powers the panel up, sets lanes and format, and sends soft reset and
    /// exit-sleep; on success the panel is initialized. The first failing
    /// step's error is returned and the state is then left as it was.
    pub fn panel_init<O: MipiDsiOps>(&mut self, ops: &mut O) -> (r: Result<(), KernelError>)
        ensures
            same_panel(old(self), final(self)),
            final(self).backlight == old(self).backlight,
            r is Ok ==> final(self).state == PanelState::Initialized,
            r is Err ==> final(self).state == old(self).state,
    {
        ops.power_on(self.hw_idx)?;
        ops.set_lanes(self.hw_idx, self.lanes);
        ops.set_format(self.hw_idx, self.format);
        self.dcs_short_write(ops, dcs::SOFT_RESET)?;
        self.dcs_short_write(ops, dcs::EXIT_SLEEP_MODE)?;
        self.state = PanelState::Initialized;
        Ok(())
    }

    /// Sends display-on; on success the panel is on.
    pub fn display_on<O: MipiDsiOps>(&mut self, ops: &mut O) -> (r: Result<(), KernelError>)
        ensures
            same_panel(old(self), final(self)),
            final(self).backlight == old(self).backlight,
            r is Ok ==> final(self).state == PanelState::On,
            r is Err ==> final(self).state == old(self).state,
            sent_one(old(ops).sent(), final(ops).sent(), old(self).hw_idx, old(self).channel, seq![dcs::SET_DISPLAY_ON], r),
    {
        self.dcs_short_write(ops, dcs::SET_DISPLAY_ON)?;
        self.state = PanelState::On;
        Ok(())
    }

    /// Sends display-off; on success the panel is back to initialized.
    pub fn display_off<O: MipiDsiOps>(&mut self, ops: &mut O) -> (r: Result<(), KernelError>)
        ensures
            same_panel(old(self), final(self)),
            final(self).backlight == old(self).backlight,
            r is Ok ==> final(self).state == PanelState::Initialized,
            r is Err ==> final(self).state == old(self).state,
            sent_one(old(ops).sent(), final(ops).sent(), old(self).hw_idx, old(self).channel, seq![dcs::SET_DISPLAY_OFF], r),
    {
        self.dcs_short_write(ops, dcs::SET_DISPLAY_OFF)?;
        self.state = PanelState::Initialized;
        Ok(())
    }

    /// Sends the brightness command with `level`; on success the backlight
    /// is at `level` and lit exactly when `level > 0`.
    pub fn set_brightness<O: MipiDsiOps>(&mut self, ops: &mut O, level: u8) -> (r: Result<(), KernelError>)
        ensures
            same_panel(old(self), final(self)),
            final(self).state == old(self).state,
            r is Ok ==> final(self).backlight.brightness == level && final(self).backlight.enabled == (level > 0),
            r is Err ==> final(self).backlight == old(self).backlight,
            sent_one(old(ops).sent(), final(ops).sent(), old(self).hw_idx, old(self).channel, seq![dcs::SET_BRIGHTNESS, level], r),
    {
        let data = [dcs::SET_BRIGHTNESS, level];
        assert(data@ =~= seq![dcs::SET_BRIGHTNESS, level]);
        self.send_dcs(ops, &data)?;
        self.backlight.brightness = level;
        self.backlight.enabled = level > 0;
        Ok(())
    }

    /// Sends the pixel-format command with `fmt_byte`.
    pub fn set_pixel_format<O: MipiDsiOps>(&mut self, ops: &mut O, fmt_byte: u8) -> (r: Result<(), KernelError>)
        ensures
            *final(self) == *old(self),
            sent_one(old(ops).sent(), final(ops).sent(), old(self).hw_idx, old(self).channel, seq![dcs::SET_PIXEL_FORMAT, fmt_byte],
                r),
    {
        self.dcs_short_write_param(ops, dcs::SET_PIXEL_FORMAT, fmt_byte)
    }

    /// Sends the column window `x_start..=x_end` (big-endian halves).
    pub fn set_column_address<O: MipiDsiOps>(&mut self, ops: &mut O, x_start: u16, x_end: u16) -> (r: Result<(), KernelError>)
        ensures
            *final(self) == *old(self),
            sent_one(old(ops).sent(), final(ops).sent(), old(self).hw_idx, old(self).channel, window_payload(dcs::SET_COLUMN_ADDRESS, x_start, x_end), r),
    {
        let data = [
            dcs::SET_COLUMN_ADDRESS,
            (x_start >> 8u16) as u8,
            (x_start & 0xffu16) as u8,
            (x_end >> 8u16) as u8,
            (x_end & 0xffu16) as u8,
        ];
        assert(data@ =~= window_payload(dcs::SET_COLUMN_ADDRESS, x_start, x_end));
        self.send_dcs(ops, &data)
    }

    /// Sends the page window `y_start..=y_end` (big-endian halves).
    pub fn set_page_address<O: MipiDsiOps>(&mut self, ops: &mut O, y_start: u16, y_end: u16) -> (r: Result<(), KernelError>)
        ensures
            *final(self) == *old(self),
            sent_one(old(ops).sent(), final(ops).sent(), old(self).hw_idx, old(self).channel, window_payload(dcs::SET_PAGE_ADDRESS, y_start, y_end), r),
    {
        let data = [
            dcs::SET_PAGE_ADDRESS,
            (y_start >> 8u16) as u8,
            (y_start & 0xffu16) as u8,
            (y_end >> 8u16) as u8,
            (y_end & 0xffu16) as u8,
        ];
        assert(data@ =~= window_payload(dcs::SET_PAGE_ADDRESS, y_start, y_end));
        self.send_dcs(ops, &data)
    }
}

/// The registered panels: two slots, the first `count` in use.
pub struct MipiDevTable {
    pub devs: Vec<Option<MipiDsiDev>>,
    pub count: usize,
}

/// Two slots with the count within them.
pub open spec fn mipi_table_wf(t: &MipiDevTable) -> bool {
    t.devs@.len() == MAX_MIPI_DEVS && t.count <= MAX_MIPI_DEVS
}

impl MipiDevTable {
    /// Two empty slots.
    pub fn new() -> (t: MipiDevTable)
        ensures
            mipi_table_wf(&t),
            t.count == 0,
            t.devs@[0] is None && t.devs@[1] is None,
    {
        let mut devs: Vec<Option<MipiDsiDev>> = Vec::new();
        devs.push(None);
        devs.push(None);
        MipiDevTable { devs, count: 0 }
    }
}

/// Registers `dev` in the next free slot and returns the slot;
/// `ResourceExhausted` when both are taken.
pub fn mipi_dsi_probe(tbl: &mut MipiDevTable, dev: MipiDsiDev) -> (r: Result<u8, KernelError>)
    requires
        mipi_table_wf(old(tbl)),
    ensures
        mipi_table_wf(final(tbl)),
        old(tbl).count >= MAX_MIPI_DEVS ==> r == Err::<u8, KernelError>(KernelError::ResourceExhausted)
            && final(tbl).devs@ == old(tbl).devs@ && final(tbl).count == old(tbl).count,
        old(tbl).count < MAX_MIPI_DEVS ==> r == Ok::<u8, KernelError>(old(tbl).count as u8)
            && final(tbl).devs@ == old(tbl).devs@.update(old(tbl).count as int, Some(dev))
            && final(tbl).count == old(tbl).count + 1,
{
    if tbl.count >= MAX_MIPI_DEVS {
        return Err(KernelError::ResourceExhausted);
    }
    let slot = tbl.count;
    tbl.devs.set(slot, Some(dev));
    tbl.count = tbl.count + 1;
    Ok(slot as u8)
}

} // verus!
