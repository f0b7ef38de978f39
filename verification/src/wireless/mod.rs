//! Wireless LAN devices: the chip-independent device (state, scan results,
//! statistics), the operations each chip driver supplies, and the table of
//! registered devices. The chip drivers are in the submodules.
use vstd::prelude::*;
use crate::error::{DeviceError, KernelError};
use crate::text::utf8_str;
use vstd::string::StringSliceAdditionalSpecFns;

pub mod chip;
pub mod ath10k;
pub mod wcn36xx;
pub mod mt76;
pub mod brcmfmac;

verus! {

/// Longest SSID.
pub const SSID_MAX_LEN: usize = 32;
/// Scan results kept (a ring).
pub const MAX_SCAN_RESULTS: usize = 32;
pub const MAX_RATES: usize = 32;
pub const MAX_CHANNELS: usize = 64;
/// Registered devices at most.
pub const MAX_WIRELESS_DEVS: usize = 8;

/// Channel flags.
pub const CHANNEL_DISABLED: u32 = 0x1;
pub const CHANNEL_NO_IR: u32 = 0x2;
pub const CHANNEL_RADAR: u32 = 0x8;
pub const CHANNEL_INDOOR_ONLY: u32 = 0x200;

/// Frequency bands.
#[derive(Clone, Copy, Debug, PartialEq, Eq, Structural)]
pub enum Band {
    Band2GHz,
    Band5GHz,
    Band6GHz,
}

/// A channel: centre frequency (MHz), number, power limit (dBm x 100),
/// flags and band.
#[derive(Clone, Copy, Debug, PartialEq, Eq, Structural)]
pub struct Channel {
    pub center_freq: u32,
    pub hw_value: u16,
    pub max_power: i16,
    pub flags: u32,
    pub band: Band,
}

/// One network seen by a scan.
#[derive(Clone, Copy)]
pub struct ScanResult {
    pub bssid: [u8; 6],
    pub ssid: [u8; SSID_MAX_LEN],
    pub ssid_len: u8,
    pub signal_dbm: i8,
    pub beacon_int: u16,
    pub capability: u16,
    pub channel: Channel,
    pub tsf: u64,
    pub valid: bool,
}

/// The channel of an empty scan result.
pub open spec fn no_channel() -> Channel {
    Channel { center_freq: 0, hw_value: 0, max_power: 0, flags: 0, band: Band::Band2GHz }
}

impl ScanResult {
    /// An unused entry: no SSID, -100 dBm, beacon interval 100.
    pub fn empty() -> (r: ScanResult)
        ensures
            r.ssid_len == 0 && r.signal_dbm == -100 && r.beacon_int == 100 && r.capability == 0 && r.tsf == 0
                && !r.valid && r.channel == no_channel() && r.bssid@ == seq![0u8; 6],
    {
        ScanResult {
            bssid: [0; 6],
            ssid: [0; SSID_MAX_LEN],
            ssid_len: 0,
            signal_dbm: -100,
            beacon_int: 100,
            capability: 0,
            channel: Channel { center_freq: 0, hw_value: 0, max_power: 0, flags: 0, band: Band::Band2GHz },
            tsf: 0,
            valid: false,
        }
    }

    /// The SSID as text; empty when its bytes are not UTF-8.
    pub fn ssid_str(&self) -> (s: &str)
        requires
            self.ssid_len as int <= SSID_MAX_LEN,
        ensures
            vstd::utf8::valid_utf8(self.ssid@.subrange(0, self.ssid_len as int)) ==> s.spec_bytes()
                == self.ssid@.subrange(0, self.ssid_len as int),
            !vstd::utf8::valid_utf8(self.ssid@.subrange(0, self.ssid_len as int)) ==> s@.len() == 0,
    {
        let n = self.ssid_len as usize;
        let bytes = self.ssid.as_slice();
        let part = &bytes[0..n];
        match utf8_str(part) {
            Some(s) => s,
            None => {
                proof { reveal_strlit(""); }
                ""
            },
        }
    }

    /// Whether the network asks for encryption (capability bit 4).
    pub fn has_privacy(&self) -> (b: bool)
        ensures
            b == (self.capability & 0x0010 != 0),
    {
        (self.capability & 0x0010) != 0
    }
}

/// States of a wireless device.
#[derive(Clone, Copy, Debug, PartialEq, Eq, Structural)]
pub enum WifiDriverState {
    Uninitialized,
    Initialized,
    Scanning,
    Connecting,
    Connected,
    Error,
}

/// The number a state is stored as.
pub open spec fn state_code(s: WifiDriverState) -> u32 {
    match s {
        WifiDriverState::Uninitialized => 0,
        WifiDriverState::Initialized => 1,
        WifiDriverState::Scanning => 2,
        WifiDriverState::Connecting => 3,
        WifiDriverState::Connected => 4,
        WifiDriverState::Error => 5,
    }
}

/// The state a stored number stands for (unknown numbers: `Error`).
pub open spec fn state_of(code: u32) -> WifiDriverState {
    if code == 0 {
        WifiDriverState::Uninitialized
    } else if code == 1 {
        WifiDriverState::Initialized
    } else if code == 2 {
        WifiDriverState::Scanning
    } else if code == 3 {
        WifiDriverState::Connecting
    } else if code == 4 {
        WifiDriverState::Connected
    } else {
        WifiDriverState::Error
    }
}

/// Authentication kinds.
#[derive(Clone, Copy, Debug, PartialEq, Eq, Structural)]
pub enum AuthType {
    Open,
    Wpa2Psk,
    Wpa3Sae,
}

/// What to connect to: BSSID (zeros: any), SSID, authentication, the
/// pairwise master key, and a channel hint (0: any).
#[derive(Clone, Copy)]
pub struct ConnectReq {
    pub bssid: [u8; 6],
    pub ssid: [u8; SSID_MAX_LEN],
    pub ssid_len: u8,
    pub auth_type: AuthType,
    pub pmk: [u8; 32],
    pub channel: u16,
}

/// The device operations whose calls a driver records.
pub enum WifiOp {
    Init,
    Scan,
    Connect,
    Disconnect,
    Tx,
}

/// Whether `r` is what an operation's result `op_r` hands on: `Ok`
/// exactly when it was, its error otherwise.
pub open spec fn hands_on(r: Result<(), KernelError>, op_r: Result<(), KernelError>) -> bool {
    &&& (r is Ok <==> op_r is Ok)
    &&& (op_r matches Err(e) ==> r == Err::<(), KernelError>(e))
}

/// Whether history `after` is `before` with one more call of `op` on chip
/// slot `hw_idx`, whose result `r` hands on.
pub open spec fn called(
    before: Seq<(WifiOp, u8, Result<(), KernelError>)>,
    after: Seq<(WifiOp, u8, Result<(), KernelError>)>,
    op: WifiOp,
    hw_idx: u8,
    r: Result<(), KernelError>,
) -> bool {
    &&& after.len() == before.len() + 1
    &&& after.drop_last() == before
    &&& after.last().0 == op && after.last().1 == hw_idx
    &&& hands_on(r, after.last().2)
}

/// The operations a chip driver supplies for its devices.
pub trait WirelessOps {
    /// The `init`, `scan`, `connect`, `disconnect` and `tx` calls made, in
    /// order: operation, chip slot and result (`Ok` for `disconnect`).
    /// Every implementation in this library keeps it; the empty default
    /// stands only for implementations made outside it, which verification
    /// does not see.
    closed spec fn wcalls(&self) -> Seq<(WifiOp, u8, Result<(), KernelError>)> {
        Seq::empty()
    }

    fn init(&mut self, dev: &WirelessDev) -> (r: Result<(), KernelError>)
        ensures
            final(self).wcalls() == old(self).wcalls().push((WifiOp::Init, dev.hw_idx, r));

    fn deinit(&mut self, dev: &WirelessDev);

    /// Starts a scan; results come through the chip's interrupt handler.
    fn scan(&mut self, dev: &WirelessDev, ssid: Option<&[u8]>) -> (r: Result<(), KernelError>)
        ensures
            final(self).wcalls() == old(self).wcalls().push((WifiOp::Scan, dev.hw_idx, r));

    fn abort_scan(&mut self, dev: &WirelessDev);

    fn connect(&mut self, dev: &WirelessDev, req: &ConnectReq) -> (r: Result<(), KernelError>)
        ensures
            final(self).wcalls() == old(self).wcalls().push((WifiOp::Connect, dev.hw_idx, r));

    fn disconnect(&mut self, dev: &WirelessDev, reason: u16)
        ensures
            final(self).wcalls() == old(self).wcalls().push((WifiOp::Disconnect, dev.hw_idx, Ok(())));

    fn tx(&mut self, dev: &WirelessDev, data: &[u8]) -> (r: Result<(), KernelError>)
        ensures
            final(self).wcalls() == old(self).wcalls().push((WifiOp::Tx, dev.hw_idx, r));

    fn set_tx_power(&mut self, dev: &WirelessDev, dbm: i8) -> Result<(), KernelError>;

    fn get_signal(&mut self, dev: &WirelessDev) -> i8;
}

/// Position of a device in the device table.
#[derive(Clone, Copy, Debug, PartialEq, Eq, Structural)]
pub struct WirelessDevIdx(pub u8);

/// A wireless device: its chip slot, state, MAC address, the scan-result
/// ring with the count of results ever added, the BSSID it is joined to,
/// and traffic counters (all counters wrap).
pub struct WirelessDev {
    pub hw_idx: u8,
    pub state: u32,
    pub flags: u32,
    pub mac_addr: [u8; 6],
    pub scan_results: Vec<ScanResult>,
    pub scan_count: u32,
    pub bssid: [u8; 6],
    pub tx_packets: u32,
    pub tx_bytes: u32,
    pub rx_packets: u32,
    pub rx_bytes: u32,
}

/// The ring holds its 32 entries.
pub open spec fn wdev_wf(d: &WirelessDev) -> bool {
    d.scan_results@.len() == MAX_SCAN_RESULTS
}

/// `a + b` wrapping at 2^32.
pub open spec fn wrap_add(a: u32, b: int) -> u32 {
    ((a + b) % 0x1_0000_0000) as u32
}

/// `a + b` wrapping at 2^32.
pub fn wrapping_add_u32(a: u32, b: u32) -> (r: u32)
    ensures
        r == wrap_add(a, b as int),
{
    let s: u64 = a as u64 + b as u64;
    (s % 0x1_0000_0000) as u32
}

/// `b` is `a` with only the state, BSSID or scan fields changed.
pub open spec fn same_identity(a: &WirelessDev, b: &WirelessDev) -> bool {
    a.hw_idx == b.hw_idx && a.flags == b.flags && a.mac_addr == b.mac_addr
}

impl WirelessDev {
    /// An uninitialised device for chip slot `hw_idx` with address `mac`.
    pub fn new(hw_idx: u8, mac: [u8; 6]) -> (d: WirelessDev)
        ensures
            wdev_wf(&d),
            d.hw_idx == hw_idx && d.mac_addr == mac && d.state == 0 && d.flags == 0 && d.scan_count == 0,
            d.tx_packets == 0 && d.tx_bytes == 0 && d.rx_packets == 0 && d.rx_bytes == 0,
            d.bssid@ == seq![0u8; 6],
            forall|i: int| 0 <= i < MAX_SCAN_RESULTS ==> !(#[trigger] d.scan_results@[i]).valid,
    {
        let mut results: Vec<ScanResult> = Vec::new();
        let mut i: usize = 0;
        while i < MAX_SCAN_RESULTS
            invariant
                i <= MAX_SCAN_RESULTS,
                results@.len() == i,
                forall|k: int| 0 <= k < i ==> !(#[trigger] results@[k]).valid,
            decreases MAX_SCAN_RESULTS - i,
        {
            results.push(ScanResult::empty());
            i = i + 1;
        }
        WirelessDev {
            hw_idx,
            state: 0,
            flags: 0,
            mac_addr: mac,
            scan_results: results,
            scan_count: 0,
            bssid: [0; 6],
            tx_packets: 0,
            tx_bytes: 0,
            rx_packets: 0,
            rx_bytes: 0,
        }
    }

    /// The current state.
    pub fn get_state(&self) -> (s: WifiDriverState)
        ensures
            s == state_of(self.state),
    {
        if self.state == 0 {
            WifiDriverState::Uninitialized
        } else if self.state == 1 {
            WifiDriverState::Initialized
        } else if self.state == 2 {
            WifiDriverState::Scanning
        } else if self.state == 3 {
            WifiDriverState::Connecting
        } else if self.state == 4 {
            WifiDriverState::Connected
        } else {
            WifiDriverState::Error
        }
    }

    /// Enters state `s`.
    pub fn set_state(&mut self, s: WifiDriverState)
        ensures
            final(self).state == state_code(s),
            state_of(final(self).state) == s,
            same_identity(old(self), final(self)),
            final(self).scan_results@ == old(self).scan_results@ && final(self).scan_count == old(self).scan_count,
            final(self).bssid == old(self).bssid,
            final(self).tx_packets == old(self).tx_packets && final(self).tx_bytes == old(self).tx_bytes,
    {
        self.state = match s {
            WifiDriverState::Uninitialized => 0,
            WifiDriverState::Initialized => 1,
            WifiDriverState::Scanning => 2,
            WifiDriverState::Connecting => 3,
            WifiDriverState::Connected => 4,
            WifiDriverState::Error => 5,
        };
    }

    /// Stores `result` in ring slot `scan_count % 32` and counts it.
    pub fn add_scan_result(&mut self, result: ScanResult)
        requires
            wdev_wf(old(self)),
        ensures
            wdev_wf(final(self)),
            final(self).scan_results@ == old(self).scan_results@.update(
                (old(self).scan_count % (MAX_SCAN_RESULTS as u32)) as int, result),
            final(self).scan_count == wrap_add(old(self).scan_count, 1),
            same_identity(old(self), final(self)),
            final(self).state == old(self).state && final(self).bssid == old(self).bssid,
            final(self).tx_packets == old(self).tx_packets && final(self).tx_bytes == old(self).tx_bytes,
    {
        let idx = (self.scan_count % (MAX_SCAN_RESULTS as u32)) as usize;
        self.scan_results.set(idx, result);
        self.scan_count = wrapping_add_u32(self.scan_count, 1);
    }

    /// Brings the chip up; `Initialized` when it comes up, the chip's
    /// error otherwise (the state then stays).
    pub fn init<O: WirelessOps>(&mut self, ops: &mut O) -> (r: Result<(), KernelError>)
        requires
            wdev_wf(old(self)),
        ensures
            wdev_wf(final(self)),
            same_identity(old(self), final(self)),
            r is Ok ==> final(self).state == state_code(WifiDriverState::Initialized),
            r is Err ==> final(self).state == old(self).state,
            called(old(ops).wcalls(), final(ops).wcalls(), WifiOp::Init, old(self).hw_idx, r),
    {
        let ri = ops.init(self);
        assert(ops.wcalls().drop_last() =~= old(ops).wcalls());
        match ri {
            Err(e) => { return Err(e); },
            Ok(()) => {},
        }
        self.set_state(WifiDriverState::Initialized);
        Ok(())
    }

    /// Starts a scan: `NotInitialized` (device error) before `init`;
    /// otherwise the device is `Scanning` and the chip's answer returned.
    pub fn scan<O: WirelessOps>(&mut self, ops: &mut O, ssid: Option<&[u8]>) -> (r: Result<(), KernelError>)
        requires
            wdev_wf(old(self)),
        ensures
            wdev_wf(final(self)),
            same_identity(old(self), final(self)),
            state_of(old(self).state) == WifiDriverState::Uninitialized ==> r == Err::<(), KernelError>(
                KernelError::Device(DeviceError::NotInitialized)) && final(self).state == old(self).state,
            state_of(old(self).state) != WifiDriverState::Uninitialized ==> final(self).state == state_code(
                WifiDriverState::Scanning),
            state_of(old(self).state) == WifiDriverState::Uninitialized ==> final(ops).wcalls() == old(ops).wcalls(),
            state_of(old(self).state) != WifiDriverState::Uninitialized ==> called(old(ops).wcalls(),
                final(ops).wcalls(), WifiOp::Scan, old(self).hw_idx, r),
    {
        if self.get_state() == WifiDriverState::Uninitialized {
            return Err(KernelError::Device(DeviceError::NotInitialized));
        }
        self.set_state(WifiDriverState::Scanning);
        let r = ops.scan(self, ssid);
        assert(ops.wcalls().drop_last() =~= old(ops).wcalls());
        r
    }

    /// Asks the chip to join `req`; the device is `Connecting`.
    pub fn connect<O: WirelessOps>(&mut self, ops: &mut O, req: &ConnectReq) -> (r: Result<(), KernelError>)
        requires
            wdev_wf(old(self)),
        ensures
            wdev_wf(final(self)),
            same_identity(old(self), final(self)),
            final(self).state == state_code(WifiDriverState::Connecting),
            called(old(ops).wcalls(), final(ops).wcalls(), WifiOp::Connect, old(self).hw_idx, r),
    {
        self.set_state(WifiDriverState::Connecting);
        let r = ops.connect(self, req);
        assert(ops.wcalls().drop_last() =~= old(ops).wcalls());
        r
    }

    /// Leaves the network: back to `Initialized`, BSSID cleared.
    pub fn disconnect<O: WirelessOps>(&mut self, ops: &mut O, reason: u16)
        requires
            wdev_wf(old(self)),
        ensures
            wdev_wf(final(self)),
            same_identity(old(self), final(self)),
            final(self).state == state_code(WifiDriverState::Initialized),
            final(self).bssid@ == seq![0u8; 6],
            final(ops).wcalls() == old(ops).wcalls().push((WifiOp::Disconnect, old(self).hw_idx, Ok(()))),
    {
        ops.disconnect(self, reason);
        self.set_state(WifiDriverState::Initialized);
        self.bssid = [0; 6];
    }

    /// Sends a frame; when the chip takes it the packet and byte counters
    /// go up.
    pub fn tx<O: WirelessOps>(&mut self, ops: &mut O, data: &[u8]) -> (r: Result<(), KernelError>)
        requires
            wdev_wf(old(self)),
        ensures
            wdev_wf(final(self)),
            same_identity(old(self), final(self)),
            final(self).state == old(self).state,
            r is Ok ==> final(self).tx_packets == wrap_add(old(self).tx_packets, 1)
                && final(self).tx_bytes == wrap_add(old(self).tx_bytes, (data@.len() % 0x1_0000_0000) as int),
            r is Err ==> final(self).tx_packets == old(self).tx_packets && final(self).tx_bytes == old(self).tx_bytes,
            called(old(ops).wcalls(), final(ops).wcalls(), WifiOp::Tx, old(self).hw_idx, r),
    {
        let r = ops.tx(self, data);
        assert(ops.wcalls().drop_last() =~= old(ops).wcalls());
        if r.is_ok() {
            self.tx_packets = wrapping_add_u32(self.tx_packets, 1);
            let n = (data.len() as u64 % 0x1_0000_0000) as u32;
            self.tx_bytes = wrapping_add_u32(self.tx_bytes, n);
        }
        r
    }
}

/// The registered devices: eight slots, `count` of them taken.
pub struct WirelessDevTable {
    pub entries: Vec<Option<WirelessDev>>,
    pub count: usize,
}

/// Eight slots, the count within them.
pub open spec fn wtable_wf(t: &WirelessDevTable) -> bool {
    t.entries@.len() == MAX_WIRELESS_DEVS && t.count <= MAX_WIRELESS_DEVS
}

/// Position of the first free slot from `i` on.
pub open spec fn first_free(e: Seq<Option<WirelessDev>>, i: int) -> Option<int>
    decreases e.len() - i,
{
    if i < 0 || i >= e.len() {
        None
    } else if e[i] is None {
        Some(i)
    } else {
        first_free(e, i + 1)
    }
}

proof fn lemma_first_free(e: Seq<Option<WirelessDev>>, i: int)
    requires
        0 <= i,
    ensures
        first_free(e, i) matches Some(k) ==> i <= k < e.len() && e[k] is None,
    decreases e.len() - i,
{
    if 0 <= i < e.len() && !(e[i] is None) {
        lemma_first_free(e, i + 1);
    }
}

impl WirelessDevTable {
    /// Eight free slots.
    pub fn new() -> (t: WirelessDevTable)
        ensures
            wtable_wf(&t) && t.count == 0,
            forall|i: int| 0 <= i < MAX_WIRELESS_DEVS ==> #[trigger] t.entries@[i] is None,
    {
        let mut entries: Vec<Option<WirelessDev>> = Vec::new();
        let mut i: usize = 0;
        while i < MAX_WIRELESS_DEVS
            invariant
                i <= MAX_WIRELESS_DEVS,
                entries@.len() == i,
                forall|k: int| 0 <= k < i ==> #[trigger] entries@[k] is None,
            decreases MAX_WIRELESS_DEVS - i,
        {
            entries.push(None);
            i = i + 1;
        }
        WirelessDevTable { entries, count: 0 }
    }
}

/// Puts `dev` in the first free slot and returns its position;
/// `ResourceExhausted` when eight are registered or no slot is free.
pub fn register_wireless_dev(tbl: &mut WirelessDevTable, dev: WirelessDev) -> (r: Result<WirelessDevIdx, KernelError>)
    requires
        wtable_wf(old(tbl)),
    ensures
        wtable_wf(final(tbl)),
        (old(tbl).count >= MAX_WIRELESS_DEVS || first_free(old(tbl).entries@, 0) is None) ==> r == Err::<
            WirelessDevIdx,
            KernelError,
        >(KernelError::ResourceExhausted) && final(tbl).entries@ == old(tbl).entries@ && final(tbl).count == old(tbl).count,
        r matches Ok(WirelessDevIdx(i)) ==> old(tbl).count < MAX_WIRELESS_DEVS && first_free(old(tbl).entries@, 0) == Some(i as int)
            && final(tbl).entries@ == old(tbl).entries@.update(i as int, Some(dev)) && final(tbl).count == old(tbl).count + 1,
        r is Err ==> r == Err::<WirelessDevIdx, KernelError>(KernelError::ResourceExhausted),
{
    if tbl.count >= MAX_WIRELESS_DEVS {
        return Err(KernelError::ResourceExhausted);
    }
    proof { lemma_first_free(tbl.entries@, 0); }
    let mut i: usize = 0;
    while i < tbl.entries.len()
        invariant
            wtable_wf(tbl),
            tbl.count < MAX_WIRELESS_DEVS,
            *tbl == *old(tbl),
            i <= tbl.entries@.len(),
            first_free(tbl.entries@, 0) == first_free(tbl.entries@, i as int),
        decreases tbl.entries.len() - i,
    {
        if tbl.entries[i].is_none() {
            tbl.entries.set(i, Some(dev));
            tbl.count = tbl.count + 1;
            return Ok(WirelessDevIdx(i as u8));
        }
        i = i + 1;
    }
    Err(KernelError::ResourceExhausted)
}

/// Number of registered devices.
pub fn wireless_dev_count(tbl: &WirelessDevTable) -> (n: usize)
    ensures
        n == tbl.count,
{
    tbl.count
}

} // verus!
