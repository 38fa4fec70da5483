use vstd::prelude::*;

use pnet::packet::ethernet::EthernetPacket;
use pnet::packet::ipv4::Ipv4Packet;
use pnet::packet::ipv6::Ipv6Packet;
use pnet::packet::tcp::TcpPacket;
use pnet::packet::Packet;
use pnet::util::MacAddr;

verus! {

/// Bytes in an Ethernet II header: two hardware addresses and the ethertype.
pub const ETHERNET_HEADER_LEN: usize = 14;

/// Ethertype of IPv4.
pub const ETHERTYPE_IPV4: u16 = 0x0800;

/// Ethertype of IPv6.
pub const ETHERTYPE_IPV6: u16 = 0x86DD;

/// Protocol number of TCP, in the IPv4 protocol field and the IPv6 next-header field.
pub const PROTOCOL_TCP: u8 = 6;

/// The Ethernet layer of a decoded frame.
pub struct EthPkt {
    pub src: String,
    pub dst: String,
    pub packet_payload: Vec<u8>,
}

/// A network-layer address, in network byte order.
#[derive(Clone, Copy, Debug)]
pub enum IpAddress {
    V4([u8; 4]),
    V6([u8; 16]),
}

/// The IP layer of a decoded frame.
pub struct IpPkt {
    pub src: IpAddress,
    pub dst: IpAddress,
    pub packet_payload: Vec<u8>,
}

/// The TCP layer of a decoded frame.
pub struct TcpPkt {
    pub src: u16,
    pub dst: u16,
    pub packet_payload: Vec<u8>,
}

/// A frame decoded as far as its headers allow. The Ethernet layer is
/// recorded twice, under both of its names.
pub struct PacketDefinition {
    pub ethernet_packet: Option<EthPkt>,
    pub eth_packet: Option<EthPkt>,
    pub ip_packet: Option<IpPkt>,
    pub tcp_packet: Option<TcpPkt>,
}

// ---------------------------------------------------------------------------
// Byte-level model of the headers.

/// A big-endian 16-bit field at offset `i`.
pub open spec fn be16(b: Seq<u8>, i: int) -> int {
    b[i] as int * 256 + b[i + 1] as int
}

pub open spec fn ethertype_of(raw: Seq<u8>) -> int {
    be16(raw, 12)
}

/// What follows the Ethernet header.
pub open spec fn eth_payload(raw: Seq<u8>) -> Seq<u8> {
    raw.subrange(ETHERNET_HEADER_LEN as int, raw.len() as int)
}

pub open spec fn hex_char(n: int) -> char {
    seq!['0', '1', '2', '3', '4', '5', '6', '7', '8', '9', 'a', 'b', 'c', 'd', 'e', 'f'][n]
}

pub open spec fn hex_pair(b: u8) -> Seq<char> {
    seq![hex_char(b as int / 16), hex_char(b as int % 16)]
}

/// A hardware address written as six lower-case hex pairs joined by colons.
pub open spec fn mac_text(m: Seq<u8>) -> Seq<char> {
    hex_pair(m[0]) + seq![':'] + hex_pair(m[1]) + seq![':'] + hex_pair(m[2]) + seq![':']
        + hex_pair(m[3]) + seq![':'] + hex_pair(m[4]) + seq![':'] + hex_pair(m[5])
}

/// Where an IPv4 payload starts: after the header and its options, never before byte 20.
pub open spec fn ipv4_header_len(b: Seq<u8>) -> int {
    let h = (b[0] as int % 16) * 4;
    if h > 20 { h } else { 20 }
}

/// The payload of an IPv4 packet: the bytes after the header, up to the declared
/// total length, cut at the end of the buffer.
pub open spec fn ipv4_payload(b: Seq<u8>) -> Seq<u8> {
    let start = ipv4_header_len(b);
    let declared = (b[0] as int % 16) * 4;
    let total = be16(b, 2);
    let plen = if total > declared { total - declared } else { 0 };
    let end = if start + plen < b.len() { start + plen } else { b.len() as int };
    if b.len() <= start { Seq::empty() } else { b.subrange(start, end) }
}

/// The payload of an IPv6 packet: the bytes after the fixed 40-byte header, up to
/// the declared payload length, cut at the end of the buffer. Extension headers
/// are not skipped.
pub open spec fn ipv6_payload(b: Seq<u8>) -> Seq<u8> {
    let end = if 40 + be16(b, 4) < b.len() { 40 + be16(b, 4) } else { b.len() as int };
    if b.len() <= 40 { Seq::empty() } else { b.subrange(40, end) }
}

/// Where a TCP payload starts: after the header and its options, never before byte 20.
pub open spec fn tcp_header_len(t: Seq<u8>) -> int {
    let off = t[12] as int / 16;
    if off > 5 { off * 4 } else { 20 }
}

pub open spec fn tcp_payload(t: Seq<u8>) -> Seq<u8> {
    if t.len() <= tcp_header_len(t) { Seq::empty() } else { t.subrange(tcp_header_len(t), t.len() as int) }
}

/// 4 for a frame that carries a whole IPv4 header, 6 for one that carries a whole
/// IPv6 header, 0 otherwise.
pub open spec fn ip_version(raw: Seq<u8>) -> int {
    if raw.len() < ETHERNET_HEADER_LEN {
        0
    } else if ethertype_of(raw) == ETHERTYPE_IPV4 && eth_payload(raw).len() >= 20 {
        4
    } else if ethertype_of(raw) == ETHERTYPE_IPV6 && eth_payload(raw).len() >= 40 {
        6
    } else {
        0
    }
}

/// The transport protocol that the IP header declares.
pub open spec fn ip_protocol(raw: Seq<u8>) -> int {
    if ip_version(raw) == 4 { eth_payload(raw)[9] as int } else { eth_payload(raw)[6] as int }
}

/// The IP layer's payload, where there is an IP layer.
pub open spec fn ip_payload(raw: Seq<u8>) -> Seq<u8> {
    if ip_version(raw) == 4 { ipv4_payload(eth_payload(raw)) } else { ipv6_payload(eth_payload(raw)) }
}

pub open spec fn has_tcp(raw: Seq<u8>) -> bool {
    ip_version(raw) != 0 && ip_protocol(raw) == PROTOCOL_TCP && ip_payload(raw).len() >= 20
}

pub open spec fn addr_is(a: IpAddress, v: int, s: Seq<u8>) -> bool {
    match a {
        IpAddress::V4(o) => v == 4 && o@ == s,
        IpAddress::V6(o) => v == 6 && o@ == s,
    }
}

pub open spec fn eth_layer_is(l: Option<EthPkt>, raw: Seq<u8>) -> bool {
    if raw.len() < ETHERNET_HEADER_LEN {
        l is None
    } else {
        &&& l is Some
        &&& l.unwrap().dst@ == mac_text(raw.subrange(0, 6))
        &&& l.unwrap().src@ == mac_text(raw.subrange(6, 12))
        &&& l.unwrap().packet_payload@ == eth_payload(raw)
    }
}

pub open spec fn ip_layer_is(l: Option<IpPkt>, raw: Seq<u8>) -> bool {
    let b = eth_payload(raw);
    let v = ip_version(raw);
    if v == 0 {
        l is None
    } else {
        &&& l is Some
        &&& addr_is(l.unwrap().src, v, if v == 4 { b.subrange(12, 16) } else { b.subrange(8, 24) })
        &&& addr_is(l.unwrap().dst, v, if v == 4 { b.subrange(16, 20) } else { b.subrange(24, 40) })
        &&& l.unwrap().packet_payload@ == ip_payload(raw)
    }
}

pub open spec fn tcp_layer_is(l: Option<TcpPkt>, raw: Seq<u8>) -> bool {
    let t = ip_payload(raw);
    if !has_tcp(raw) {
        l is None
    } else {
        &&& l is Some
        &&& l.unwrap().src == be16(t, 0)
        &&& l.unwrap().dst == be16(t, 2)
        &&& l.unwrap().packet_payload@ == tcp_payload(t)
    }
}

/// `p` is what decoding the frame `raw` gives.
pub open spec fn decoded(p: PacketDefinition, raw: Seq<u8>) -> bool {
    &&& eth_layer_is(p.ethernet_packet, raw)
    &&& eth_layer_is(p.eth_packet, raw)
    &&& ip_layer_is(p.ip_packet, raw)
    &&& tcp_layer_is(p.tcp_packet, raw)
}

// ---------------------------------------------------------------------------
// Header views, read through pnet.

struct EthernetFields {
    dst: [u8; 6],
    src: [u8; 6],
    ethertype: u16,
    payload: Vec<u8>,
}

struct IpFields {
    src: IpAddress,
    dst: IpAddress,
    protocol: u8,
    payload: Vec<u8>,
}

struct TcpFields {
    src: u16,
    dst: u16,
    payload: Vec<u8>,
}

/// Relies on pnet's `EthernetPacket::new` (a view of any buffer of at least 14
/// bytes), its address and ethertype getters, and `payload` (all bytes after 14).
#[verifier::external_body]
fn ethernet_view(raw: &[u8]) -> (r: Option<EthernetFields>)
    ensures
        r is None <==> raw@.len() < ETHERNET_HEADER_LEN,
        r is Some ==> {
            &&& r.unwrap().dst@ == raw@.subrange(0, 6)
            &&& r.unwrap().src@ == raw@.subrange(6, 12)
            &&& r.unwrap().ethertype == ethertype_of(raw@)
            &&& r.unwrap().payload@ == eth_payload(raw@)
        },
{
    match EthernetPacket::new(raw) {
        Some(p) => Some(EthernetFields {
            dst: p.get_destination().octets(),
            src: p.get_source().octets(),
            ethertype: p.get_ethertype().0,
            payload: p.payload().to_vec(),
        }),
        None => None,
    }
}

/// Relies on pnet's `Ipv4Packet::new` (a view of any buffer of at least 20 bytes),
/// its address and protocol getters, and `payload`, which starts after the header
/// length and ends at the total length, both cut to the buffer.
#[verifier::external_body]
fn ipv4_view(b: &[u8]) -> (r: Option<IpFields>)
    ensures
        r is None <==> b@.len() < 20,
        r is Some ==> {
            &&& addr_is(r.unwrap().src, 4, b@.subrange(12, 16))
            &&& addr_is(r.unwrap().dst, 4, b@.subrange(16, 20))
            &&& r.unwrap().protocol == b@[9]
            &&& r.unwrap().payload@ == ipv4_payload(b@)
        },
{
    match Ipv4Packet::new(b) {
        Some(p) => Some(IpFields {
            src: IpAddress::V4(p.get_source().octets()),
            dst: IpAddress::V4(p.get_destination().octets()),
            protocol: p.get_next_level_protocol().0,
            payload: p.payload().to_vec(),
        }),
        None => None,
    }
}

/// Relies on pnet's `Ipv6Packet::new` (a view of any buffer of at least 40 bytes),
/// its address and next-header getters, and `payload`, which starts at byte 40 and
/// ends at the declared payload length, cut to the buffer.
#[verifier::external_body]
fn ipv6_view(b: &[u8]) -> (r: Option<IpFields>)
    ensures
        r is None <==> b@.len() < 40,
        r is Some ==> {
            &&& addr_is(r.unwrap().src, 6, b@.subrange(8, 24))
            &&& addr_is(r.unwrap().dst, 6, b@.subrange(24, 40))
            &&& r.unwrap().protocol == b@[6]
            &&& r.unwrap().payload@ == ipv6_payload(b@)
        },
{
    match Ipv6Packet::new(b) {
        Some(p) => Some(IpFields {
            src: IpAddress::V6(p.get_source().octets()),
            dst: IpAddress::V6(p.get_destination().octets()),
            protocol: p.get_next_header().0,
            payload: p.payload().to_vec(),
        }),
        None => None,
    }
}

/// Relies on pnet's `TcpPacket::new` (a view of any buffer of at least 20 bytes),
/// its port getters, and `payload`, which starts after the data offset.
#[verifier::external_body]
fn tcp_view(t: &[u8]) -> (r: Option<TcpFields>)
    ensures
        r is None <==> t@.len() < 20,
        r is Some ==> {
            &&& r.unwrap().src == be16(t@, 0)
            &&& r.unwrap().dst == be16(t@, 2)
            &&& r.unwrap().payload@ == tcp_payload(t@)
        },
{
    match TcpPacket::new(t) {
        Some(p) => Some(TcpFields { src: p.get_source(), dst: p.get_destination(), payload: p.payload().to_vec() }),
        None => None,
    }
}

/// Relies on the `Display` of pnet's `MacAddr`: six `{:02x}` pairs joined by colons.
#[verifier::external_body]
fn mac_to_string(m: [u8; 6]) -> (r: String)
    ensures
        r@ == mac_text(m@),
{
    MacAddr::new(m[0], m[1], m[2], m[3], m[4], m[5]).to_string()
}

// ---------------------------------------------------------------------------
// Decoding.

fn eth_layer(f: &EthernetFields) -> (r: EthPkt)
    ensures
        r.src@ == mac_text(f.src@),
        r.dst@ == mac_text(f.dst@),
        r.packet_payload@ == f.payload@,
{
    EthPkt { src: mac_to_string(f.src), dst: mac_to_string(f.dst), packet_payload: f.payload.clone() }
}

/// Decodes the layers above Ethernet from the Ethernet payload `payload`, whose
/// ethertype is `ethertype`, into `packet_def`.
fn handle_ethertype(raw: Ghost<Seq<u8>>, ethertype: u16, payload: &[u8], packet_def: &mut PacketDefinition)
    requires
        raw@.len() >= ETHERNET_HEADER_LEN,
        ethertype == ethertype_of(raw@),
        payload@ == eth_payload(raw@),
    ensures
        ip_version(raw@) != 0 ==> ip_layer_is(final(packet_def).ip_packet, raw@),
        ip_version(raw@) == 0 ==> final(packet_def).ip_packet == old(packet_def).ip_packet,
        has_tcp(raw@) ==> tcp_layer_is(final(packet_def).tcp_packet, raw@),
        !has_tcp(raw@) ==> final(packet_def).tcp_packet == old(packet_def).tcp_packet,
        final(packet_def).ethernet_packet == old(packet_def).ethernet_packet,
        final(packet_def).eth_packet == old(packet_def).eth_packet,
{
    let ip = if ethertype == ETHERTYPE_IPV4 {
        ipv4_view(payload)
    } else if ethertype == ETHERTYPE_IPV6 {
        ipv6_view(payload)
    } else {
        None
    };
    if let Some(ip) = ip {
        if ip.protocol == PROTOCOL_TCP {
            if let Some(tcp) = tcp_view(ip.payload.as_slice()) {
                packet_def.tcp_packet = Some(TcpPkt { src: tcp.src, dst: tcp.dst, packet_payload: tcp.payload });
            }
        }
        packet_def.ip_packet = Some(IpPkt { src: ip.src, dst: ip.dst, packet_payload: ip.payload });
    }
}

/// Decodes a captured frame as far as its headers allow. A frame too short for
/// an Ethernet header gives no layer; a malformed or unsupported upper layer is
/// left out. Every payload is copied out of `raw`.
pub fn decode(raw: &[u8]) -> (r: PacketDefinition)
    ensures
        decoded(r, raw@),
{
    let mut packet_def = PacketDefinition { ethernet_packet: None, eth_packet: None, ip_packet: None, tcp_packet: None };
    if let Some(eth) = ethernet_view(raw) {
        packet_def.ethernet_packet = Some(eth_layer(&eth));
        packet_def.eth_packet = Some(eth_layer(&eth));
        handle_ethertype(Ghost(raw@), eth.ethertype, eth.payload.as_slice(), &mut packet_def);
    }
    packet_def
}


// ---------------------------------------------------------------------------
// Laws of decoding.

/// A frame shorter than an Ethernet header decodes to a packet with no layer.
pub proof fn lemma_short_frame_is_empty(p: PacketDefinition, raw: Seq<u8>)
    requires
        raw.len() < ETHERNET_HEADER_LEN,
        decoded(p, raw),
    ensures
        p.ethernet_packet is None,
        p.eth_packet is None,
        p.ip_packet is None,
        p.tcp_packet is None,
{
}

/// Length of the IPv4 header of a frame, as its header-length field declares.
pub open spec fn frame_ipv4_header_len(raw: Seq<u8>) -> int {
    (raw[14] as int % 16) * 4
}

/// Length of the TCP header of a frame, as its data-offset field declares.
pub open spec fn frame_tcp_header_len(raw: Seq<u8>) -> int {
    (raw[14 + frame_ipv4_header_len(raw) + 12] as int / 16) * 4
}

/// An Ethernet frame that carries an IPv4 packet filling the rest of the frame,
/// which carries a TCP segment; both headers are whole and declare sane lengths.
pub open spec fn is_ipv4_tcp_frame(raw: Seq<u8>) -> bool {
    let h = frame_ipv4_header_len(raw);
    &&& raw.len() >= 34
    &&& ethertype_of(raw) == ETHERTYPE_IPV4
    &&& h >= 20
    &&& h + 20 <= raw.len() - 14
    &&& be16(raw, 16) == raw.len() - 14
    &&& raw[23] == PROTOCOL_TCP
    &&& frame_tcp_header_len(raw) >= 20
    &&& h + frame_tcp_header_len(raw) <= raw.len() - 14
}

/// In a valid Ethernet, IPv4 and TCP frame, each layer's addresses are its header's
/// fields, and each layer's payload is exactly the bytes after its header.
pub proof fn lemma_ipv4_tcp_frame_layers(p: PacketDefinition, raw: Seq<u8>)
    requires
        is_ipv4_tcp_frame(raw),
        decoded(p, raw),
    ensures
        p.eth_packet is Some,
        p.eth_packet.unwrap().dst@ == mac_text(raw.subrange(0, 6)),
        p.eth_packet.unwrap().src@ == mac_text(raw.subrange(6, 12)),
        p.eth_packet.unwrap().packet_payload@ == raw.subrange(14, raw.len() as int),
        p.ip_packet is Some,
        addr_is(p.ip_packet.unwrap().src, 4, raw.subrange(26, 30)),
        addr_is(p.ip_packet.unwrap().dst, 4, raw.subrange(30, 34)),
        p.ip_packet.unwrap().packet_payload@ == raw.subrange(14 + frame_ipv4_header_len(raw), raw.len() as int),
        p.tcp_packet is Some,
        p.tcp_packet.unwrap().src == be16(raw, 14 + frame_ipv4_header_len(raw)),
        p.tcp_packet.unwrap().dst == be16(raw, 16 + frame_ipv4_header_len(raw)),
        p.tcp_packet.unwrap().packet_payload@ == raw.subrange(
            14 + frame_ipv4_header_len(raw) + frame_tcp_header_len(raw),
            raw.len() as int,
        ),
{
    let b = eth_payload(raw);
    let h = frame_ipv4_header_len(raw);
    let n = raw.len() as int;
    assert(ip_version(raw) == 4);
    assert(b.subrange(12, 16) =~= raw.subrange(26, 30));
    assert(b.subrange(16, 20) =~= raw.subrange(30, 34));
    assert(ipv4_header_len(b) == h);
    assert(be16(b, 2) == n - 14);
    let t = ip_payload(raw);
    assert(t =~= raw.subrange(14 + h, n));
    assert(ip_protocol(raw) == PROTOCOL_TCP);
    assert(has_tcp(raw));
    assert(t[12] == raw[14 + h + 12]);
    assert(tcp_header_len(t) == frame_tcp_header_len(raw));
    assert(t[0] == raw[14 + h] && t[1] == raw[15 + h] && t[2] == raw[16 + h] && t[3] == raw[17 + h]);
    assert(tcp_payload(t) =~= raw.subrange(14 + h + frame_tcp_header_len(raw), n));
}

/// The version and bytes of an address.
pub open spec fn addr_view(a: IpAddress) -> (int, Seq<u8>) {
    match a {
        IpAddress::V4(o) => (4, o@),
        IpAddress::V6(o) => (6, o@),
    }
}

/// `p` and `q` have the same layers, holding the same values.
pub open spec fn same_values(p: PacketDefinition, q: PacketDefinition) -> bool {
    &&& p.ethernet_packet is Some == q.ethernet_packet is Some
    &&& p.ethernet_packet is Some ==> {
        let (a, b) = (p.ethernet_packet.unwrap(), q.ethernet_packet.unwrap());
        a.src@ == b.src@ && a.dst@ == b.dst@ && a.packet_payload@ == b.packet_payload@
    }
    &&& p.eth_packet is Some == q.eth_packet is Some
    &&& p.eth_packet is Some ==> {
        let (a, b) = (p.eth_packet.unwrap(), q.eth_packet.unwrap());
        a.src@ == b.src@ && a.dst@ == b.dst@ && a.packet_payload@ == b.packet_payload@
    }
    &&& p.ip_packet is Some == q.ip_packet is Some
    &&& p.ip_packet is Some ==> {
        let (a, b) = (p.ip_packet.unwrap(), q.ip_packet.unwrap());
        addr_view(a.src) == addr_view(b.src) && addr_view(a.dst) == addr_view(b.dst)
            && a.packet_payload@ == b.packet_payload@
    }
    &&& p.tcp_packet is Some == q.tcp_packet is Some
    &&& p.tcp_packet is Some ==> {
        let (a, b) = (p.tcp_packet.unwrap(), q.tcp_packet.unwrap());
        a.src == b.src && a.dst == b.dst && a.packet_payload@ == b.packet_payload@
    }
}

/// Two observers that decode the same frame get the same layers with the same
/// values, each in a packet of its own.
pub proof fn lemma_decoding_agrees(p: PacketDefinition, q: PacketDefinition, raw: Seq<u8>)
    requires
        decoded(p, raw),
        decoded(q, raw),
    ensures
        same_values(p, q),
{
}

} // verus!
