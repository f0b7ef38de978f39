//! H4 framing of HCI packets over a UART: a one-byte packet type followed
//! by the packet. The receive side is a byte-at-a-time state machine that
//! reassembles event and ACL packets.
use vstd::prelude::*;

verus! {

/// HCI command packet indicator.
pub const HCI_COMMAND_PKT: u8 = 0x01;

/// HCI ACL data packet indicator.
pub const HCI_ACLDATA_PKT: u8 = 0x02;

/// HCI SCO data packet indicator.
pub const HCI_SCODATA_PKT: u8 = 0x03;

/// HCI event packet indicator.
pub const HCI_EVENT_PKT: u8 = 0x04;

/// Receive buffer size of the H4 reassembler.
pub const H4_BUF_SIZE: usize = 512;

/// Reassembler state.
#[derive(Clone, Copy, Debug, PartialEq, Eq, Structural)]
pub enum H4State {
    /// Waiting for a packet type byte.
    Idle,
    /// Reading the packet header.
    Header,
    /// Reading the payload.
    Payload,
}

/// H4 receive state.
pub struct H4Rx {
    pub state: H4State,
    pub pkt_type: u8,
    pub buf: [u8; H4_BUF_SIZE],
    pub buf_len: usize,
    /// Total bytes expected (header + payload).
    pub expected: usize,
}

/// A reassembled packet: its type and its bytes (header and payload).
pub struct H4Packet {
    pub pkt_type: u8,
    pub data: Vec<u8>,
}

/// Abstract reassembler state: (state, packet type, bytes so far, expected length).
pub type H4View = (H4State, u8, Seq<u8>, nat);

/// The reassembler right after a packet or at start.
pub open spec fn h4_idle() -> H4View {
    (H4State::Idle, 0u8, seq![], 0nat)
}

/// Header length of a packet type (0 for types the reassembler ignores).
pub open spec fn h4_header_len(t: u8) -> nat {
    if t == HCI_EVENT_PKT {
        2
    } else if t == HCI_ACLDATA_PKT {
        4
    } else {
        0
    }
}

/// Payload length announced by a complete header: the event's parameter
/// length byte, or the ACL data length (little-endian).
pub open spec fn h4_payload_len(t: u8, hdr: Seq<u8>) -> nat {
    if t == HCI_EVENT_PKT {
        hdr[1] as nat
    } else if t == HCI_ACLDATA_PKT {
        (hdr[2] as nat) + (hdr[3] as nat) * 256
    } else {
        0
    }
}

/// One byte through the reassembler: the next state and the packet it
/// completes, if any. Bytes past the buffer size are dropped.
pub open spec fn h4_step(s: H4View, byte: u8) -> (H4View, Option<(u8, Seq<u8>)>) {
    let (st, t, data, exp) = s;
    match st {
        H4State::Idle => {
            let e = h4_header_len(byte);
            ((if e > 0 { H4State::Header } else { H4State::Idle }, byte, seq![], e), None)
        },
        _ => {
            let d1 = if data.len() < H4_BUF_SIZE { data.push(byte) } else { data };
            let header_done = st == H4State::Header && d1.len() == exp;
            let st2 = if header_done { H4State::Payload } else { st };
            let e2 = if header_done { exp + h4_payload_len(t, d1) } else { exp };
            if d1.len() == e2 && e2 > 0 {
                (h4_idle(), Some((t, d1)))
            } else {
                ((st2, t, d1, e2), None)
            }
        },
    }
}

/// A byte sequence through the reassembler: the final state and the
/// packets completed, in order.
pub open spec fn h4_feed(s: H4View, bytes: Seq<u8>) -> (H4View, Seq<(u8, Seq<u8>)>)
    decreases bytes.len(),
{
    if bytes.len() == 0 {
        (s, seq![])
    } else {
        let (s1, o) = h4_step(s, bytes[0]);
        let (s2, out) = h4_feed(s1, bytes.drop_first());
        (s2, match o {
            Some(p) => seq![p] + out,
            None => out,
        })
    }
}

impl H4Rx {
    /// The abstract state.
    pub open spec fn view_h4(&self) -> H4View {
        (self.state, self.pkt_type, self.buf@.subrange(0, self.buf_len as int), self.expected as nat)
    }

    /// Bounds the reassembler keeps.
    pub open spec fn wf(&self) -> bool {
        &&& self.buf_len <= H4_BUF_SIZE
        &&& self.expected <= 4 + 0xFFFF
        &&& self.state != H4State::Idle ==> self.buf_len < self.expected
        &&& self.state == H4State::Idle ==> self.buf_len == 0
        &&& self.state == H4State::Header ==> self.expected == h4_header_len(self.pkt_type) && self.expected > 0
    }

    /// A reassembler waiting for a packet.
    pub fn new() -> (r: Self)
        ensures
            r.wf(),
            r.view_h4() == h4_idle(),
    {
        let r = H4Rx { state: H4State::Idle, pkt_type: 0, buf: [0u8; H4_BUF_SIZE], buf_len: 0, expected: 0 };
        assert(r.buf@.subrange(0, 0) =~= Seq::<u8>::empty());
        r
    }

    /// Back to waiting for a packet.
    pub fn reset(&mut self)
        ensures
            final(self).wf(),
            final(self).view_h4() == h4_idle(),
    {
        self.state = H4State::Idle;
        self.pkt_type = 0;
        self.buf_len = 0;
        self.expected = 0;
        assert(self.buf@.subrange(0, 0) =~= Seq::<u8>::empty());
    }
}

/// Feeds one received byte to the reassembler; returns the packet it
/// completes, if any.
pub fn h4_push_byte(rx: &mut H4Rx, byte: u8) -> (r: Option<H4Packet>)
    requires
        old(rx).wf(),
    ensures
        final(rx).wf(),
        final(rx).view_h4() == h4_step(old(rx).view_h4(), byte).0,
        h4_step(old(rx).view_h4(), byte).1 is None ==> r is None,
        h4_step(old(rx).view_h4(), byte).1 matches Some(p) ==> r matches Some(q) && q.pkt_type == p.0 && q.data@ == p.1,
{
    let ghost before = rx.view_h4();
    match rx.state {
        H4State::Idle => {
            rx.pkt_type = byte;
            rx.buf_len = 0;
            rx.expected = if byte == HCI_EVENT_PKT {
                2
            } else if byte == HCI_ACLDATA_PKT {
                4
            } else {
                0
            };
            if rx.expected > 0 {
                rx.state = H4State::Header;
            }
            assert(rx.buf@.subrange(0, 0) =~= Seq::<u8>::empty());
            None
        },
        _ => {
            if rx.buf_len < H4_BUF_SIZE {
                rx.buf[rx.buf_len] = byte;
                rx.buf_len = rx.buf_len + 1;
                assert(rx.buf@.subrange(0, rx.buf_len as int) =~= before.2.push(byte));
            }
            let ghost d1 = rx.buf@.subrange(0, rx.buf_len as int);
            if rx.state == H4State::Header && rx.buf_len == rx.expected {
                let payload_len: usize = if rx.pkt_type == HCI_EVENT_PKT {
                    rx.buf[1] as usize
                } else if rx.pkt_type == HCI_ACLDATA_PKT {
                    (rx.buf[2] as usize) + (rx.buf[3] as usize) * 256
                } else {
                    0
                };
                assert(payload_len == h4_payload_len(rx.pkt_type, d1));
                rx.expected = rx.expected + payload_len;
                rx.state = H4State::Payload;
            }
            if rx.buf_len == rx.expected && rx.expected > 0 {
                let mut data: Vec<u8> = Vec::new();
                let mut i: usize = 0;
                while i < rx.buf_len
                    invariant
                        rx.buf_len <= H4_BUF_SIZE,
                        i <= rx.buf_len,
                        data@ == rx.buf@.subrange(0, i as int),
                    decreases rx.buf_len - i,
                {
                    data.push(rx.buf[i]);
                    i = i + 1;
                    assert(data@ =~= rx.buf@.subrange(0, i as int));
                }
                let t = rx.pkt_type;
                rx.reset();
                Some(H4Packet { pkt_type: t, data })
            } else {
                None
            }
        },
    }
}

proof fn lemma_h4_payload_phase(t: u8, d: Seq<u8>, e: nat, p: Seq<u8>)
    requires
        d.len() + p.len() == e,
        d.len() < e,
        e <= H4_BUF_SIZE,
    ensures
        h4_feed((H4State::Payload, t, d, e), p) == (h4_idle(), seq![(t, d + p)]),
    decreases p.len(),
{
    let s = (H4State::Payload, t, d, e);
    let d1 = d.push(p[0]);
    if p.len() == 1 {
        assert(h4_step(s, p[0]) == (h4_idle(), Some((t, d1))));
        assert(p.drop_first() =~= Seq::<u8>::empty());
        assert(h4_feed(h4_idle(), p.drop_first()) == (h4_idle(), Seq::<(u8, Seq<u8>)>::empty()));
        assert(d + p =~= d1);
        assert(seq![(t, d1)] + Seq::<(u8, Seq<u8>)>::empty() =~= seq![(t, d1)]);
    } else {
        assert(h4_step(s, p[0]) == ((H4State::Payload, t, d1, e), Option::<(u8, Seq<u8>)>::None));
        lemma_h4_payload_phase(t, d1, e, p.drop_first());
        assert(d1 + p.drop_first() =~= d + p);
        assert(h4_feed(s, p) == h4_feed((H4State::Payload, t, d1, e), p.drop_first()));
    }
}

/// Feeding a byte that completes nothing continues from the next state.
proof fn lemma_h4_feed_quiet(s: H4View, bytes: Seq<u8>)
    requires
        bytes.len() > 0,
        h4_step(s, bytes[0]).1 is None,
    ensures
        h4_feed(s, bytes) == h4_feed(h4_step(s, bytes[0]).0, bytes.drop_first()),
{
}

/// An HCI event framed as H4 (type byte, event code, parameter length,
/// parameters) and fed to an idle reassembler comes out as exactly one
/// event packet holding the code, length and parameters, and leaves the
/// reassembler idle. Holds when the packet fits the receive buffer.
pub proof fn law_h4_reassembles_event(code: u8, params: Seq<u8>)
    requires
        params.len() <= 0xFF,
        2 + params.len() <= H4_BUF_SIZE,
    ensures
        h4_feed(h4_idle(), seq![HCI_EVENT_PKT, code, params.len() as u8] + params) == (
            h4_idle(),
            seq![(HCI_EVENT_PKT, seq![code, params.len() as u8] + params)],
        ),
{
    let t = HCI_EVENT_PKT;
    let plen = params.len() as u8;
    let bytes = seq![t, code, plen] + params;
    let hdr = seq![code, plen];
    let s1 = (H4State::Header, t, Seq::<u8>::empty(), 2nat);
    let s2 = (H4State::Header, t, seq![code], 2nat);
    let b1 = bytes.drop_first();
    let b2 = b1.drop_first();
    let b3 = b2.drop_first();
    assert(b1 =~= seq![code, plen] + params);
    assert(b2 =~= seq![plen] + params);
    assert(b3 =~= params);
    assert(Seq::<u8>::empty().push(code) =~= seq![code]);
    assert(seq![code].push(plen) =~= hdr);
    assert(h4_step(h4_idle(), t) == (s1, Option::<(u8, Seq<u8>)>::None));
    lemma_h4_feed_quiet(h4_idle(), bytes);
    assert(h4_step(s1, code) == (s2, Option::<(u8, Seq<u8>)>::None));
    lemma_h4_feed_quiet(s1, b1);
    assert(h4_payload_len(t, hdr) == params.len());
    if params.len() == 0 {
        assert(h4_step(s2, plen) == (h4_idle(), Some((t, hdr))));
        assert(h4_feed(h4_idle(), b3) == (h4_idle(), Seq::<(u8, Seq<u8>)>::empty()));
        assert(hdr + params =~= hdr);
        assert(seq![(t, hdr)] + Seq::<(u8, Seq<u8>)>::empty() =~= seq![(t, hdr)]);
    } else {
        let s3 = (H4State::Payload, t, hdr, 2 + params.len());
        assert(h4_step(s2, plen) == (s3, Option::<(u8, Seq<u8>)>::None));
        lemma_h4_feed_quiet(s2, b2);
        lemma_h4_payload_phase(t, hdr, 2 + params.len(), b3);
    }
}

/// An HCI ACL packet framed as H4 (type byte, 2-byte handle, 2-byte
/// little-endian length, data) and fed to an idle reassembler comes out as
/// exactly one ACL packet holding the header and data, and leaves the
/// reassembler idle. Holds when the packet fits the receive buffer.
pub proof fn law_h4_reassembles_acl(h0: u8, h1: u8, data: Seq<u8>)
    requires
        4 + data.len() <= H4_BUF_SIZE,
    ensures
        h4_feed(
            h4_idle(),
            seq![HCI_ACLDATA_PKT, h0, h1, (data.len() % 256) as u8, (data.len() / 256) as u8] + data,
        ) == (h4_idle(), seq![(HCI_ACLDATA_PKT, seq![h0, h1, (data.len() % 256) as u8, (data.len() / 256) as u8] + data)]),
{
    let l0 = (data.len() % 256) as u8;
    let l1 = (data.len() / 256) as u8;
    let t = HCI_ACLDATA_PKT;
    let bytes = seq![t, h0, h1, l0, l1] + data;
    let hdr = seq![h0, h1, l0, l1];
    let s1 = (H4State::Header, t, Seq::<u8>::empty(), 4nat);
    let s2 = (H4State::Header, t, seq![h0], 4nat);
    let s3 = (H4State::Header, t, seq![h0, h1], 4nat);
    let s4 = (H4State::Header, t, seq![h0, h1, l0], 4nat);
    let b1 = bytes.drop_first();
    let b2 = b1.drop_first();
    let b3 = b2.drop_first();
    let b4 = b3.drop_first();
    let b5 = b4.drop_first();
    assert(b1 =~= seq![h0, h1, l0, l1] + data);
    assert(b2 =~= seq![h1, l0, l1] + data);
    assert(b3 =~= seq![l0, l1] + data);
    assert(b4 =~= seq![l1] + data);
    assert(b5 =~= data);
    assert(Seq::<u8>::empty().push(h0) =~= seq![h0]);
    assert(seq![h0].push(h1) =~= seq![h0, h1]);
    assert(seq![h0, h1].push(l0) =~= seq![h0, h1, l0]);
    assert(seq![h0, h1, l0].push(l1) =~= hdr);
    assert(h4_step(h4_idle(), t) == (s1, Option::<(u8, Seq<u8>)>::None));
    lemma_h4_feed_quiet(h4_idle(), bytes);
    assert(h4_step(s1, h0) == (s2, Option::<(u8, Seq<u8>)>::None));
    lemma_h4_feed_quiet(s1, b1);
    assert(h4_step(s2, h1) == (s3, Option::<(u8, Seq<u8>)>::None));
    lemma_h4_feed_quiet(s2, b2);
    assert(h4_step(s3, l0) == (s4, Option::<(u8, Seq<u8>)>::None));
    lemma_h4_feed_quiet(s3, b3);
    assert(h4_payload_len(t, hdr) == data.len());
    if data.len() == 0 {
        assert(h4_step(s4, l1) == (h4_idle(), Some((t, hdr))));
        assert(h4_feed(h4_idle(), b5) == (h4_idle(), Seq::<(u8, Seq<u8>)>::empty()));
        assert(hdr + data =~= hdr);
        assert(seq![(t, hdr)] + Seq::<(u8, Seq<u8>)>::empty() =~= seq![(t, hdr)]);
    } else {
        let s5 = (H4State::Payload, t, hdr, 4 + data.len());
        assert(h4_step(s4, l1) == (s5, Option::<(u8, Seq<u8>)>::None));
        lemma_h4_feed_quiet(s4, b4);
        lemma_h4_payload_phase(t, hdr, 4 + data.len(), b5);
    }
}

} // verus!
