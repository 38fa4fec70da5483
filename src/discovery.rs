use vstd::prelude::*;

use crate::interfaces::InterfaceInfo;

verus! {

/// Ethertype of ARP.
pub const ETHERTYPE_ARP: u16 = 0x0806;

/// Bytes in an ARP request or reply for IPv4 over Ethernet, Ethernet header included.
pub const ARP_FRAME_LEN: usize = 42;

/// ARP operation code of a request.
pub const ARP_REQUEST: u8 = 1;

/// ARP operation code of a reply.
pub const ARP_REPLY: u8 = 2;

/// A /24 network, given by its first three octets.
#[derive(Clone, Copy, Debug)]
pub struct Subnet24 {
    pub octets: [u8; 3],
}

/// A host that answered discovery.
#[derive(Clone, Copy, Debug)]
pub struct Host {
    pub ip: [u8; 4],
    pub mac: [u8; 6],
}

/// Why discovery could not run.
#[derive(Clone, Copy, Debug, PartialEq, Eq, Structural)]
pub enum DiscoveryError {
    /// The interface has no IPv4 address.
    NoAddressConfigured,
    /// The link-layer channel could not be opened.
    ChannelOpenFailed,
}

pub open spec fn in_subnet(net: Subnet24, ip: Seq<u8>) -> bool {
    ip[0] == net.octets[0] && ip[1] == net.octets[1] && ip[2] == net.octets[2]
}

/// The last octets that discovery probes: 1 to `n`, in order, but `own`.
pub open spec fn probe_hosts(own: int, n: int) -> Seq<int>
    decreases n,
{
    if n <= 0 {
        Seq::empty()
    } else if n == own {
        probe_hosts(own, n - 1)
    } else {
        probe_hosts(own, n - 1).push(n)
    }
}

/// `h` stands in `s`.
pub open spec fn lists_host(s: Seq<int>, h: int) -> bool {
    exists|i: int| 0 <= i < s.len() && #[trigger] s[i] == h
}

/// Discovery from `own` probes the address of its /24 whose last octet is `h`.
pub open spec fn probes_host(own: Seq<u8>, h: int) -> bool {
    exists|i: int| 0 <= i < probe_addresses(own).len() && #[trigger] probe_addresses(own)[i] == seq![own[0], own[1], own[2], h as u8]
}

/// The addresses that discovery probes from `own`: every host address of its /24
/// but the network address, the broadcast address and `own` itself.
pub open spec fn probe_addresses(own: Seq<u8>) -> Seq<Seq<u8>> {
    probe_hosts(own[3] as int, 254).map_values(|h: int| seq![own[0], own[1], own[2], h as u8])
}

pub open spec fn be16_bytes(v: int) -> Seq<u8> {
    seq![(v / 256) as u8, (v % 256) as u8]
}

/// An ARP request for IPv4 over Ethernet, broadcast from `mac`/`ip`, asking for `target`.
pub open spec fn arp_request_bytes(mac: Seq<u8>, ip: Seq<u8>, target: Seq<u8>) -> Seq<u8> {
    seq![0xffu8, 0xff, 0xff, 0xff, 0xff, 0xff] + mac + be16_bytes(ETHERTYPE_ARP as int)
        + seq![0u8, 1, 0x08, 0x00, 6, 4, 0, ARP_REQUEST] + mac + ip
        + seq![0u8, 0, 0, 0, 0, 0] + target
}

/// `f` is an ARP reply for IPv4 over Ethernet.
pub open spec fn is_arp_reply(f: Seq<u8>) -> bool {
    &&& f.len() >= ARP_FRAME_LEN
    &&& f[12] == 0x08 && f[13] == 0x06
    &&& f[14] == 0 && f[15] == 1
    &&& f[16] == 0x08 && f[17] == 0x00
    &&& f[18] == 6 && f[19] == 4
    &&& f[20] == 0 && f[21] == ARP_REPLY
}

pub open spec fn reply_mac(f: Seq<u8>) -> Seq<u8> {
    f.subrange(22, 28)
}

pub open spec fn reply_ip(f: Seq<u8>) -> Seq<u8> {
    f.subrange(28, 32)
}

/// The subnet that interface address `ip` lies in, under the /24 assumption.
pub fn get_network_addr(ip: [u8; 4]) -> (r: Subnet24)
    ensures
        r.octets@ == ip@.subrange(0, 3),
{
    let r = Subnet24 { octets: [ip[0], ip[1], ip[2]] };
    assert(r.octets@ =~= ip@.subrange(0, 3));
    r
}

/// Whether `ip` lies in `net`.
pub fn subnet_contains(net: &Subnet24, ip: [u8; 4]) -> (r: bool)
    ensures
        r == in_subnet(*net, ip@),
{
    ip[0] == net.octets[0] && ip[1] == net.octets[1] && ip[2] == net.octets[2]
}

/// The address discovery works from: the interface's first IPv4 address.
pub fn interface_ip(iface: &InterfaceInfo) -> (r: Result<[u8; 4], DiscoveryError>)
    ensures
        iface.ipv4@.len() == 0 ==> r == Err::<[u8; 4], DiscoveryError>(DiscoveryError::NoAddressConfigured),
        iface.ipv4@.len() > 0 ==> r is Ok && r.unwrap() == iface.ipv4@[0],
{
    if iface.ipv4.len() == 0 {
        Err(DiscoveryError::NoAddressConfigured)
    } else {
        Ok(iface.ipv4[0])
    }
}

proof fn lemma_probe_hosts(own: int, n: int)
    requires
        0 <= n <= 254,
    ensures
        probe_hosts(own, n).len() == if 1 <= own <= n { n - 1 } else { n },
        forall|i: int| 0 <= i < probe_hosts(own, n).len() ==> {
            let h = #[trigger] probe_hosts(own, n)[i];
            1 <= h <= n && h != own
        },
        forall|i: int, j: int|
            0 <= i < j < probe_hosts(own, n).len() ==> probe_hosts(own, n)[i] < probe_hosts(own, n)[j],
        forall|h: int| 1 <= h <= n && h != own ==> #[trigger] lists_host(probe_hosts(own, n), h),
    decreases n,
{
    if n > 0 {
        lemma_probe_hosts(own, n - 1);
        let p = probe_hosts(own, n - 1);
        assert forall|h: int| 1 <= h <= n && h != own implies #[trigger] lists_host(probe_hosts(own, n), h) by {
            if h == n {
                assert(probe_hosts(own, n)[p.len() as int] == h);
            } else {
                assert(lists_host(p, h));
                let i = choose|i: int| 0 <= i < p.len() && #[trigger] p[i] == h;
                assert(probe_hosts(own, n)[i] == h);
            }
        }
    }
}

/// The addresses to probe from interface address `own`, in ascending order.
pub fn probe_targets(own: [u8; 4]) -> (r: Vec<[u8; 4]>)
    ensures
        r@.len() == probe_addresses(own@).len(),
        forall|i: int| 0 <= i < r@.len() ==> #[trigger] r@[i]@ == probe_addresses(own@)[i],
{
    let mut r: Vec<[u8; 4]> = Vec::new();
    let mut h: u8 = 1;
    proof {
        lemma_probe_hosts(own[3] as int, 0);
    }
    while h <= 254
        invariant
            1 <= h <= 255,
            r@.len() == probe_hosts(own[3] as int, h - 1).len(),
            forall|i: int| 0 <= i < r@.len() ==>
                #[trigger] r@[i]@ == seq![own[0], own[1], own[2], probe_hosts(own[3] as int, h - 1)[i] as u8],
        decreases 255 - h,
    {
        proof {
            lemma_probe_hosts(own[3] as int, h as int);
        }
        if h != own[3] {
            let a: [u8; 4] = [own[0], own[1], own[2], h];
            assert(a@ =~= seq![own[0], own[1], own[2], h]);
            r.push(a);
        }
        h = h + 1;
    }
    proof {
        lemma_probe_hosts(own[3] as int, 254);
    }
    r
}

/// Discovery from address `own` probes each host address of its /24 once, but
/// the network and broadcast addresses and `own`: 253 addresses where `own` is
/// itself a host address, 254 otherwise; and every one lies in that /24.
pub proof fn lemma_probe_addresses(own: Seq<u8>)
    requires
        own.len() == 4,
    ensures
        probe_addresses(own).len() == if 1 <= own[3] <= 254 { 253int } else { 254int },
        forall|i: int| 0 <= i < probe_addresses(own).len() ==> {
            let a = #[trigger] probe_addresses(own)[i];
            &&& a.len() == 4
            &&& a[0] == own[0] && a[1] == own[1] && a[2] == own[2]
            &&& 1 <= a[3] <= 254
            &&& a[3] != own[3]
        },
        forall|i: int, j: int|
            0 <= i < j < probe_addresses(own).len() ==> probe_addresses(own)[i] != probe_addresses(own)[j],
        forall|h: int| 1 <= h <= 254 && h != own[3] ==> #[trigger] probes_host(own, h),
{
    lemma_probe_hosts(own[3] as int, 254);
    let hs = probe_hosts(own[3] as int, 254);
    assert forall|h: int| 1 <= h <= 254 && h != own[3] implies #[trigger] probes_host(own, h) by {
        assert(lists_host(hs, h));
        let i = choose|i: int| 0 <= i < hs.len() && #[trigger] hs[i] == h;
        assert(probe_addresses(own)[i] == seq![own[0], own[1], own[2], h as u8]);
    }
    assert forall|i: int, j: int| 0 <= i < j < probe_addresses(own).len() implies probe_addresses(own)[i]
        != probe_addresses(own)[j] by {
        assert(hs[i] < hs[j]);
        assert(probe_addresses(own)[i][3] != probe_addresses(own)[j][3]);
    }
}

/// A /24 holds 254 host addresses, `.1` to `.254`, one for each last octet; from
/// a host address `own`, discovery probes all of them but `own`: 254 less one.
pub proof fn lemma_host_addresses(own: Seq<u8>)
    requires
        own.len() == 4,
        1 <= own[3] <= 254,
    ensures
        probe_hosts(0, 254).len() == 254,
        forall|h: int| 1 <= h <= 254 <==> #[trigger] lists_host(probe_hosts(0, 254), h),
        lists_host(probe_hosts(0, 254), own[3] as int),
        probe_addresses(own).len() == probe_hosts(0, 254).len() - 1,
{
    lemma_probe_hosts(0, 254);
    lemma_probe_addresses(own);
    assert forall|h: int| 1 <= h <= 254 <==> #[trigger] lists_host(probe_hosts(0, 254), h) by {
        if lists_host(probe_hosts(0, 254), h) {
            let i = choose|i: int| 0 <= i < 254 && #[trigger] probe_hosts(0, 254)[i] == h;
            assert(1 <= probe_hosts(0, 254)[i] <= 254);
        }
    }
    assert(1 <= own[3] as int <= 254);
}

/// From an address that is the network or broadcast address of its /24,
/// discovery probes exactly 254 addresses.
pub proof fn lemma_probe_count_254(own: Seq<u8>)
    requires
        own.len() == 4,
        own[3] == 0 || own[3] == 255,
    ensures
        probe_addresses(own).len() == 254,
{
    lemma_probe_addresses(own);
}

fn push_all(v: &mut Vec<u8>, s: &[u8])
    ensures
        final(v)@ == old(v)@ + s@,
{
    let mut i: usize = 0;
    while i < s.len()
        invariant
            i <= s@.len(),
            v@ == old(v)@ + s@.subrange(0, i as int),
        decreases s@.len() - i,
    {
        v.push(s[i]);
        i = i + 1;
        assert(s@.subrange(0, i as int) =~= s@.subrange(0, i - 1) + seq![s@[i - 1]]);
        assert(v@ =~= old(v)@ + s@.subrange(0, i as int));
    }
    assert(s@.subrange(0, s@.len() as int) =~= s@);
}

/// The ARP request that asks, from `mac`/`ip`, who holds `target`.
pub fn arp_request(mac: [u8; 6], ip: [u8; 4], target: [u8; 4]) -> (r: Vec<u8>)
    ensures
        r@ == arp_request_bytes(mac@, ip@, target@),
{
    let mut r: Vec<u8> = Vec::new();
    push_all(&mut r, &[0xffu8, 0xff, 0xff, 0xff, 0xff, 0xff]);
    push_all(&mut r, &mac);
    push_all(&mut r, &[0x08u8, 0x06, 0, 1, 0x08, 0x00, 6, 4, 0, ARP_REQUEST]);
    push_all(&mut r, &mac);
    push_all(&mut r, &ip);
    push_all(&mut r, &[0u8, 0, 0, 0, 0, 0]);
    push_all(&mut r, &target);
    assert(r@ =~= arp_request_bytes(mac@, ip@, target@));
    r
}

/// The sender of `frame` where it is an ARP reply.
pub fn parse_arp_reply(frame: &[u8]) -> (r: Option<Host>)
    ensures
        r is Some <==> is_arp_reply(frame@),
        r is Some ==> r.unwrap().ip@ == reply_ip(frame@) && r.unwrap().mac@ == reply_mac(frame@),
{
    if frame.len() < ARP_FRAME_LEN {
        return None;
    }
    if !(frame[12] == 0x08 && frame[13] == 0x06 && frame[14] == 0 && frame[15] == 1 && frame[16] == 0x08
        && frame[17] == 0x00 && frame[18] == 6 && frame[19] == 4 && frame[20] == 0 && frame[21] == ARP_REPLY) {
        return None;
    }
    let h = Host {
        ip: [frame[28], frame[29], frame[30], frame[31]],
        mac: [frame[22], frame[23], frame[24], frame[25], frame[26], frame[27]],
    };
    assert(h.ip@ =~= reply_ip(frame@));
    assert(h.mac@ =~= reply_mac(frame@));
    Some(h)
}

fn same_ip(a: [u8; 4], b: [u8; 4]) -> (r: bool)
    ensures
        r == (a@ == b@),
{
    if a[0] == b[0] && a[1] == b[1] && a[2] == b[2] && a[3] == b[3] {
        assert(a@ =~= b@);
        true
    } else {
        false
    }
}

fn find_host(hosts: &Vec<Host>, ip: [u8; 4]) -> (r: Option<usize>)
    ensures
        r is None <==> forall|k: int| 0 <= k < hosts@.len() ==> hosts@[k].ip@ != ip@,
        r is Some ==> r.unwrap() < hosts@.len() && hosts@[r.unwrap() as int].ip@ == ip@,
{
    let mut i: usize = 0;
    while i < hosts.len()
        invariant
            i <= hosts@.len(),
            forall|k: int| 0 <= k < i ==> hosts@[k].ip@ != ip@,
        decreases hosts@.len() - i,
    {
        if same_ip(hosts[i].ip, ip) {
            return Some(i);
        }
        i = i + 1;
    }
    None
}

/// `f` is an ARP reply from an address in `net`.
pub open spec fn is_reply_from(net: Subnet24, f: Seq<u8>) -> bool {
    is_arp_reply(f) && in_subnet(net, reply_ip(f))
}

/// `n` is the host list `h` after the frame `f` was read while probing `net`: a
/// reply from an address in `net` is recorded, updating the hardware address of a
/// known IP address or appending a new host; any other frame changes nothing.
pub open spec fn records_frame(h: Seq<Host>, net: Subnet24, f: Seq<u8>, n: Seq<Host>) -> bool {
    if !is_reply_from(net, f) {
        n == h
    } else if exists|i: int| 0 <= i < h.len() && h[i].ip@ == reply_ip(f) {
        &&& n.len() == h.len()
        &&& forall|i: int| 0 <= i < h.len() ==> #[trigger] n[i].ip@ == h[i].ip@
        &&& forall|i: int| 0 <= i < h.len() && h[i].ip@ == reply_ip(f) ==> #[trigger] n[i].mac@ == reply_mac(f)
        &&& forall|i: int| 0 <= i < h.len() && h[i].ip@ != reply_ip(f) ==> #[trigger] n[i] == h[i]
    } else {
        &&& n.len() == h.len() + 1
        &&& n.subrange(0, h.len() as int) == h
        &&& n[h.len() as int].ip@ == reply_ip(f)
        &&& n[h.len() as int].mac@ == reply_mac(f)
    }
}

/// Where no frame read during discovery is a reply from the probed /24, the
/// discovery that started with no host ends with no host: the result is the empty
/// set, not an error. `runs[k]` is the host list after the first `k` frames.
pub proof fn lemma_no_reply_no_host(net: Subnet24, frames: Seq<Seq<u8>>, runs: Seq<Seq<Host>>)
    requires
        runs.len() == frames.len() + 1,
        runs[0].len() == 0,
        forall|k: int| 0 <= k < frames.len() ==> records_frame(runs[k], net, #[trigger] frames[k], runs[k + 1]),
        forall|k: int| 0 <= k < frames.len() ==> !is_reply_from(net, #[trigger] frames[k]),
    ensures
        runs[frames.len() as int].len() == 0,
    decreases frames.len(),
{
    if frames.len() > 0 {
        let m = frames.len() - 1;
        assert(records_frame(runs[m], net, frames[m], runs[m + 1]));
        lemma_no_reply_no_host(net, frames.subrange(0, m), runs.subrange(0, m + 1));
    }
}

/// One run of host discovery on an interface: what to probe, and the hosts that
/// have answered so far, one per IP address.
pub struct Discovery {
    pub own_ip: [u8; 4],
    pub own_mac: [u8; 6],
    pub net: Subnet24,
    pub hosts: Vec<Host>,
}

impl Discovery {
    /// Every recorded host lies in the probed /24, and no IP address is recorded twice.
    pub open spec fn wf(&self) -> bool {
        &&& self.net.octets@ == self.own_ip@.subrange(0, 3)
        &&& forall|i: int| 0 <= i < self.hosts@.len() ==> in_subnet(self.net, #[trigger] self.hosts@[i].ip@)
        &&& forall|i: int, j: int|
            0 <= i < j < self.hosts@.len() ==> self.hosts@[i].ip@ != self.hosts@[j].ip@
    }

    /// Starts discovery on `iface`, from its first IPv4 address, with no host found yet.
    pub fn start(iface: &InterfaceInfo) -> (r: Result<Discovery, DiscoveryError>)
        ensures
            iface.ipv4@.len() == 0 ==> r == Err::<Discovery, DiscoveryError>(DiscoveryError::NoAddressConfigured),
            iface.ipv4@.len() > 0 ==> {
                &&& r is Ok
                &&& r.unwrap().wf()
                &&& r.unwrap().own_ip == iface.ipv4@[0]
                &&& r.unwrap().own_mac == iface.mac
                &&& r.unwrap().hosts@.len() == 0
            },
    {
        match interface_ip(iface) {
            Err(e) => Err(e),
            Ok(ip) => Ok(Discovery { own_ip: ip, own_mac: iface.mac, net: get_network_addr(ip), hosts: Vec::new() }),
        }
    }

    /// The ARP requests to send: one for each address that `probe_targets` gives.
    pub fn probes(&self) -> (r: Vec<Vec<u8>>)
        ensures
            r@.len() == probe_addresses(self.own_ip@).len(),
            forall|i: int| 0 <= i < r@.len() ==>
                #[trigger] r@[i]@ == arp_request_bytes(self.own_mac@, self.own_ip@, probe_addresses(self.own_ip@)[i]),
    {
        let targets = probe_targets(self.own_ip);
        let mut r: Vec<Vec<u8>> = Vec::new();
        let mut i: usize = 0;
        while i < targets.len()
            invariant
                i <= targets@.len(),
                targets@.len() == probe_addresses(self.own_ip@).len(),
                forall|k: int| 0 <= k < targets@.len() ==> #[trigger] targets@[k]@ == probe_addresses(self.own_ip@)[k],
                r@.len() == i,
                forall|k: int| 0 <= k < i ==>
                    #[trigger] r@[k]@ == arp_request_bytes(self.own_mac@, self.own_ip@, targets@[k]@),
            decreases targets@.len() - i,
        {
            r.push(arp_request(self.own_mac, self.own_ip, targets[i]));
            i = i + 1;
        }
        r
    }

    /// Takes in a frame read during the observation window. An ARP reply from an
    /// address in the probed /24 records its sender: a new IP address is appended,
    /// a known one gets the newer hardware address. Any other frame changes nothing.
    pub fn on_frame(&mut self, frame: &[u8])
        requires
            old(self).wf(),
        ensures
            final(self).wf(),
            final(self).own_ip == old(self).own_ip,
            final(self).own_mac == old(self).own_mac,
            final(self).net == old(self).net,
            records_frame(old(self).hosts@, old(self).net, frame@, final(self).hosts@),
    {
        let reply = parse_arp_reply(frame);
        if let Some(host) = reply {
            if subnet_contains(&self.net, host.ip) {
                match find_host(&self.hosts, host.ip) {
                    Some(i) => {
                        assert(forall|k: int| 0 <= k < old(self).hosts@.len() && k != i
                            ==> old(self).hosts@[k].ip@ != old(self).hosts@[i as int].ip@);
                        self.hosts.set(i, host);
                    },
                    None => {
                        self.hosts.push(host);
                        assert(self.hosts@.subrange(0, old(self).hosts@.len() as int) =~= old(self).hosts@);
                    },
                }
            }
        }
    }

    /// The hosts that answered, one per IP address.
    pub fn finish(self) -> (r: Vec<Host>)
        requires
            self.wf(),
        ensures
            r@ == self.hosts@,
            forall|i: int| 0 <= i < r@.len() ==> in_subnet(self.net, #[trigger] r@[i].ip@),
            forall|i: int, j: int| 0 <= i < j < r@.len() ==> r@[i].ip@ != r@[j].ip@,
    {
        self.hosts
    }
}

} // verus!
