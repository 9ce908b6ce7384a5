use vstd::prelude::*;

use crate::codec::{copy_range, DecodeError};

verus! {

/// Control flags of the network-layer header.
#[derive(Clone, Copy, PartialEq, Eq, Structural, Debug)]
pub struct NpduControl {
    /// Set on network-layer control traffic; this engine never produces it
    /// and ignores frames that carry it.
    pub network_message: bool,
    /// A destination routing specifier follows the header.
    pub destination_present: bool,
    /// A source routing specifier follows the header.
    pub source_present: bool,
    /// The sender expects a reply to this frame.
    pub expecting_reply: bool,
    /// Network priority, two bits.
    pub priority: u8,
}

/// A routed network address: network number and MAC address on that network.
#[derive(Clone, PartialEq, Eq, Debug)]
pub struct NetworkAddress {
    pub network: u16,
    pub address: Vec<u8>,
}

pub ghost struct NetworkAddressView {
    pub network: u16,
    pub address: Seq<u8>,
}

impl View for NetworkAddress {
    type V = NetworkAddressView;

    open spec fn view(&self) -> NetworkAddressView {
        NetworkAddressView { network: self.network, address: self.address@ }
    }
}

/// The network-layer header wrapping every application message.
#[derive(Clone, PartialEq, Eq, Debug)]
pub struct Npdu {
    /// Protocol version, always 1.
    pub version: u8,
    pub control: NpduControl,
    /// Destination routing specifier, unused by this engine's own traffic.
    pub destination: Option<NetworkAddress>,
    /// Source routing specifier, unused by this engine's own traffic.
    pub source: Option<NetworkAddress>,
    /// Hop count, present exactly when a destination is.
    pub hop_count: Option<u8>,
}

pub ghost struct NpduView {
    pub version: u8,
    pub control: NpduControl,
    pub destination: Option<NetworkAddressView>,
    pub source: Option<NetworkAddressView>,
    pub hop_count: Option<u8>,
}

impl View for Npdu {
    type V = NpduView;

    open spec fn view(&self) -> NpduView {
        NpduView {
            version: self.version,
            control: self.control,
            destination: match self.destination {
                Some(d) => Some(d@),
                None => None,
            },
            source: match self.source {
                Some(s) => Some(s@),
                None => None,
            },
            hop_count: self.hop_count,
        }
    }
}

impl NpduView {
    /// Structural soundness: the control flags match the optional fields, the
    /// version is the one this protocol defines, and each routed address fits
    /// its one-byte length field.
    pub open spec fn wf(self) -> bool {
        &&& self.version == 1
        &&& self.control.priority <= 3
        &&& (self.control.destination_present <==> self.destination is Some)
        &&& (self.control.source_present <==> self.source is Some)
        &&& (self.hop_count is Some <==> self.destination is Some)
        &&& (self.destination matches Some(d) ==> d.address.len() <= 255)
        &&& (self.source matches Some(s) ==> s.address.len() <= 255)
    }

    /// True when the header carries no routing fields, the only form this
    /// engine itself emits.
    pub open spec fn no_routing(self) -> bool {
        &&& !self.control.destination_present
        &&& !self.control.source_present
        &&& self.destination is None
        &&& self.source is None
        &&& self.hop_count is None
    }
}

impl Npdu {
    /// A local-traffic header: version 1, all flags clear.
    pub fn new() -> (r: Npdu)
        ensures
            r@ == (NpduView {
                version: 1,
                control: NpduControl {
                    network_message: false,
                    destination_present: false,
                    source_present: false,
                    expecting_reply: false,
                    priority: 0,
                },
                destination: None,
                source: None,
                hop_count: None,
            }),
            r@.wf(),
            r@.no_routing(),
    {
        Npdu {
            version: 1,
            control: NpduControl {
                network_message: false,
                destination_present: false,
                source_present: false,
                expecting_reply: false,
                priority: 0,
            },
            destination: None,
            source: None,
            hop_count: None,
        }
    }

    /// Whether the frame is network-layer control traffic.
    pub fn is_network_message(&self) -> (r: bool)
        ensures
            r == self@.control.network_message,
    {
        self.control.network_message
    }
}

/// The control octet: bit 7 network message, bit 5 destination present,
/// bit 3 source present, bit 2 expecting reply, bits 1-0 priority.
pub open spec fn control_byte(c: NpduControl) -> u8
    recommends
        c.priority <= 3,
{
    ((if c.network_message {
        0x80int
    } else {
        0int
    }) + (if c.destination_present {
        0x20int
    } else {
        0int
    }) + (if c.source_present {
        0x08int
    } else {
        0int
    }) + (if c.expecting_reply {
        0x04int
    } else {
        0int
    }) + c.priority) as u8
}

/// The flags a control octet carries.
pub open spec fn control_of_byte(b: u8) -> NpduControl {
    NpduControl {
        network_message: b / 128 % 2 == 1,
        destination_present: b / 32 % 2 == 1,
        source_present: b / 8 % 2 == 1,
        expecting_reply: b / 4 % 2 == 1,
        priority: b % 4,
    }
}

/// Decoding a control octet recovers every flag that encoding laid down.
pub proof fn lemma_control_byte_round_trip(c: NpduControl)
    requires
        c.priority <= 3,
    ensures
        control_of_byte(control_byte(c)) == c,
{
    let nm: u8 = if c.network_message {
        1
    } else {
        0
    };
    let dp: u8 = if c.destination_present {
        1
    } else {
        0
    };
    let sp: u8 = if c.source_present {
        1
    } else {
        0
    };
    let er: u8 = if c.expecting_reply {
        1
    } else {
        0
    };
    let p = c.priority;
    let b = control_byte(c);
    assert(b == (nm * 0x80 + dp * 0x20 + sp * 0x08 + er * 0x04 + p) as u8);
    assert((nm * 0x80 + dp * 0x20 + sp * 0x08 + er * 0x04 + p) as u8 / 128 % 2 == nm && (nm * 0x80
        + dp * 0x20 + sp * 0x08 + er * 0x04 + p) as u8 / 32 % 2 == dp && (nm * 0x80 + dp * 0x20 + sp
        * 0x08 + er * 0x04 + p) as u8 / 8 % 2 == sp && (nm * 0x80 + dp * 0x20 + sp * 0x08 + er
        * 0x04 + p) as u8 / 4 % 2 == er && (nm * 0x80 + dp * 0x20 + sp * 0x08 + er * 0x04
        + p) as u8 % 4 == p) by (bit_vector)
        requires
            nm <= 1 && dp <= 1 && sp <= 1 && er <= 1 && p <= 3,
    ;
}

/// A routed address on the wire: network number big-endian, address length,
/// address bytes.
pub open spec fn enc_addr(a: NetworkAddressView) -> Seq<u8>
    recommends
        a.address.len() <= 255,
{
    seq![(a.network / 0x100) as u8, (a.network % 0x100) as u8, a.address.len() as u8] + a.address
}

/// Parses a routed address specifier at `pos`.
pub open spec fn parse_addr(s: Seq<u8>, pos: int) -> Option<(NetworkAddressView, int)> {
    if 0 <= pos && pos + 3 <= s.len() {
        let network = (s[pos] as int * 0x100 + s[pos + 1] as int) as u16;
        let alen = s[pos + 2] as int;
        if pos + 3 + alen <= s.len() {
            Some(
                (
                    NetworkAddressView { network, address: s.subrange(pos + 3, pos + 3 + alen) },
                    pos + 3 + alen,
                ),
            )
        } else {
            None
        }
    } else {
        None
    }
}

/// The header on the wire: version octet, control octet, then the optional
/// destination specifier, source specifier and hop count.
pub open spec fn enc_npdu(n: NpduView) -> Seq<u8>
    recommends
        n.wf(),
{
    seq![n.version, control_byte(n.control)] + (match n.destination {
        Some(d) => enc_addr(d),
        None => seq![],
    }) + (match n.source {
        Some(s) => enc_addr(s),
        None => seq![],
    }) + (match n.hop_count {
        Some(h) => seq![h],
        None => seq![],
    })
}

/// Parses a network-layer header: version must be 1; routing specifiers are
/// consumed when their control flags announce them.
pub open spec fn parse_npdu(s: Seq<u8>) -> Option<(NpduView, int)> {
    if s.len() < 2 || s[0] != 1 {
        None
    } else {
        let c = control_of_byte(s[1]);
        let dstep: Option<(Option<NetworkAddressView>, int)> = if c.destination_present {
            match parse_addr(s, 2) {
                Some((a, p)) => Some((Some(a), p)),
                None => None,
            }
        } else {
            Some((None, 2))
        };
        match dstep {
            None => None,
            Some((dest, p1)) => {
                let sstep: Option<(Option<NetworkAddressView>, int)> = if c.source_present {
                    match parse_addr(s, p1) {
                        Some((a, p)) => Some((Some(a), p)),
                        None => None,
                    }
                } else {
                    Some((None, p1))
                };
                match sstep {
                    None => None,
                    Some((src, p2)) => {
                        if c.destination_present {
                            if p2 < s.len() {
                                Some(
                                    (
                                        NpduView {
                                            version: 1,
                                            control: c,
                                            destination: dest,
                                            source: src,
                                            hop_count: Some(s[p2]),
                                        },
                                        p2 + 1,
                                    ),
                                )
                            } else {
                                None
                            }
                        } else {
                            Some(
                                (
                                    NpduView {
                                        version: 1,
                                        control: c,
                                        destination: dest,
                                        source: src,
                                        hop_count: None,
                                    },
                                    p2,
                                ),
                            )
                        }
                    },
                }
            },
        }
    }
}

/// Encodes a network-layer header.
pub fn encode_npdu(n: &Npdu) -> (r: Vec<u8>)
    requires
        n@.wf(),
    ensures
        r@ == enc_npdu(n@),
        r@.len() >= 2,
{
    let mut out: Vec<u8> = Vec::new();
    out.push(n.version);
    let mut cb: u8 = 0;
    if n.control.network_message {
        cb = cb + 0x80;
    }
    if n.control.destination_present {
        cb = cb + 0x20;
    }
    if n.control.source_present {
        cb = cb + 0x08;
    }
    if n.control.expecting_reply {
        cb = cb + 0x04;
    }
    cb = cb + n.control.priority;
    out.push(cb);
    assert(cb == control_byte(n.control));
    match &n.destination {
        Some(d) => {
            out.push((d.network / 0x100) as u8);
            out.push((d.network % 0x100) as u8);
            out.push(d.address.len() as u8);
            let mut i: usize = 0;
            while i < d.address.len()
                invariant
                    i <= d.address@.len() <= 255,
                    out@ == seq![n@.version, control_byte(n@.control)] + enc_addr(d@).take(
                        3 + i as int,
                    ),
                decreases d.address@.len() - i,
            {
                out.push(d.address[i]);
                i = i + 1;
                assert(out@ =~= seq![n@.version, control_byte(n@.control)] + enc_addr(d@).take(
                    3 + i as int,
                ));
            }
            assert(enc_addr(d@).take(3 + i as int) =~= enc_addr(d@));
        },
        None => {
            assert(out@ =~= seq![n@.version, control_byte(n@.control)]);
        },
    }
    match &n.source {
        Some(sa) => {
            let ghost pre = out@;
            out.push((sa.network / 0x100) as u8);
            out.push((sa.network % 0x100) as u8);
            out.push(sa.address.len() as u8);
            let mut i: usize = 0;
            while i < sa.address.len()
                invariant
                    i <= sa.address@.len() <= 255,
                    out@ == pre + enc_addr(sa@).take(3 + i as int),
                decreases sa.address@.len() - i,
            {
                out.push(sa.address[i]);
                i = i + 1;
                assert(out@ =~= pre + enc_addr(sa@).take(3 + i as int));
            }
            assert(enc_addr(sa@).take(3 + i as int) =~= enc_addr(sa@));
        },
        None => {},
    }
    match &n.hop_count {
        Some(h) => {
            out.push(*h);
        },
        None => {},
    }
    assert(out@ =~= enc_npdu(n@));
    out
}

/// Decodes a network-layer header and reports how many bytes it occupied.
/// Fails with `InvalidLength` when fewer than two bytes are available, and
/// never panics on truncated input.
pub fn decode_npdu(data: &Vec<u8>) -> (r: Result<(Npdu, usize), DecodeError>)
    ensures
        match r {
            Ok((n, consumed)) => parse_npdu(data@) == Some((n@, consumed as int)) && n@.wf()
                && 2 <= consumed <= data@.len(),
            Err(_) => parse_npdu(data@) is None,
        },
        data@.len() < 2 ==> r == Err::<(Npdu, usize), DecodeError>(DecodeError::InvalidLength),
{
    if data.len() < 2 {
        return Err(DecodeError::InvalidLength);
    }
    if data[0] != 1 {
        return Err(DecodeError::UnsupportedType);
    }
    let cb = data[1];
    let control = NpduControl {
        network_message: cb / 128 % 2 == 1,
        destination_present: cb / 32 % 2 == 1,
        source_present: cb / 8 % 2 == 1,
        expecting_reply: cb / 4 % 2 == 1,
        priority: cb % 4,
    };
    assert(control == control_of_byte(data@[1]));
    let mut pos: usize = 2;
    let destination: Option<NetworkAddress> = if control.destination_present {
        match read_addr(data, pos) {
            Ok((a, next)) => {
                pos = next;
                Some(a)
            },
            Err(e) => {
                return Err(e);
            },
        }
    } else {
        None
    };
    let source: Option<NetworkAddress> = if control.source_present {
        match read_addr(data, pos) {
            Ok((a, next)) => {
                pos = next;
                Some(a)
            },
            Err(e) => {
                return Err(e);
            },
        }
    } else {
        None
    };
    let hop_count: Option<u8> = if control.destination_present {
        if pos < data.len() {
            let h = data[pos];
            pos = pos + 1;
            Some(h)
        } else {
            return Err(DecodeError::InvalidLength);
        }
    } else {
        None
    };
    let n = Npdu { version: 1, control, destination, source, hop_count };
    Ok((n, pos))
}

/// Reads a routed address specifier.
fn read_addr(data: &Vec<u8>, pos: usize) -> (r: Result<(NetworkAddress, usize), DecodeError>)
    requires
        pos <= data@.len(),
    ensures
        match r {
            Ok((a, next)) => parse_addr(data@, pos as int) == Some((a@, next as int)) && pos < next
                <= data@.len() && a@.address.len() <= 255,
            Err(_) => parse_addr(data@, pos as int) is None,
        },
{
    if data.len() - pos < 3 {
        return Err(DecodeError::InvalidLength);
    }
    let network: u16 = (data[pos] as u16) * 0x100 + (data[pos + 1] as u16);
    let alen = data[pos + 2] as usize;
    if data.len() - pos - 3 < alen {
        return Err(DecodeError::InvalidLength);
    }
    let address = copy_range(data, pos + 3, pos + 3 + alen);
    Ok((NetworkAddress { network, address }, pos + 3 + alen))
}

/// A routed address specifier parses back from wherever its encoding stands
/// in a longer buffer.
proof fn lemma_parse_addr_at(s: Seq<u8>, pos: int, a: NetworkAddressView)
    requires
        0 <= pos,
        a.address.len() <= 255,
        pos + enc_addr(a).len() <= s.len(),
        s.subrange(pos, pos + enc_addr(a).len()) == enc_addr(a),
    ensures
        parse_addr(s, pos) == Some((a, pos + enc_addr(a).len())),
{
    let e = enc_addr(a);
    let alen = a.address.len() as int;
    assert(s[pos] == e[0] && s[pos + 1] == e[1] && s[pos + 2] == e[2]);
    let nw = a.network;
    assert(((nw / 0x100) as int * 0x100 + (nw % 0x100) as int) as u16 == nw) by (bit_vector);
    assert(s.subrange(pos + 3, pos + 3 + alen) =~= a.address) by {
        assert(forall|i: int|
            0 <= i < alen ==> (#[trigger] s.subrange(pos + 3, pos + 3 + alen)[i]) == s.subrange(
                pos,
                pos + 3 + alen,
            )[i + 3]);
    }
}

/// Every well-formed header, routed ones included, decodes back to itself
/// and consumes exactly its own encoding.
pub proof fn lemma_npdu_round_trip_general(n: NpduView)
    requires
        n.wf(),
    ensures
        parse_npdu(enc_npdu(n)) == Some((n, enc_npdu(n).len() as int)),
{
    let s = enc_npdu(n);
    let dpart = match n.destination {
        Some(d) => enc_addr(d),
        None => seq![],
    };
    let spart = match n.source {
        Some(a) => enc_addr(a),
        None => seq![],
    };
    let hpart = match n.hop_count {
        Some(h) => seq![h],
        None => seq![],
    };
    assert(s[0] == 1);
    assert(s[1] == control_byte(n.control));
    lemma_control_byte_round_trip(n.control);
    let p1 = 2 + dpart.len() as int;
    let p2 = p1 + spart.len() as int;
    match n.destination {
        Some(d) => {
            assert(s.subrange(2, p1) =~= dpart);
            lemma_parse_addr_at(s, 2, d);
        },
        None => {},
    }
    match n.source {
        Some(a) => {
            assert(s.subrange(p1, p2) =~= spart);
            lemma_parse_addr_at(s, p1, a);
        },
        None => {},
    }
    match n.hop_count {
        Some(h) => {
            assert(s[p2] == h);
        },
        None => {},
    }
}

/// A routing-free header at the head of a longer frame parses to itself,
/// consuming exactly its own two bytes.
pub proof fn lemma_parse_npdu_prefix(n: NpduView, rest: Seq<u8>)
    requires
        n.wf(),
        n.no_routing(),
    ensures
        parse_npdu(enc_npdu(n) + rest) == Some((n, 2int)),
{
    let s = enc_npdu(n) + rest;
    assert(enc_npdu(n) =~= seq![n.version, control_byte(n.control)]);
    assert(s[0] == 1);
    assert(s[1] == control_byte(n.control));
    lemma_control_byte_round_trip(n.control);
}

/// A routing-free header decodes back to itself, consuming exactly the two
/// bytes its encoding occupies and preserving every control flag.
pub proof fn lemma_npdu_round_trip(n: NpduView)
    requires
        n.wf(),
        n.no_routing(),
    ensures
        enc_npdu(n).len() == 2,
        parse_npdu(enc_npdu(n)) == Some((n, 2int)),
{
    let s = enc_npdu(n);
    assert(s =~= seq![n.version, control_byte(n.control)]);
    lemma_control_byte_round_trip(n.control);
}

} // verus!
