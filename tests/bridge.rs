use packet_scope::bridge::{bridge_step, BridgeAction, Delivery};
use packet_scope::decode::{IpAddress, PacketDefinition};
use tokio::sync::broadcast;
use tokio::sync::broadcast::error::TryRecvError;

fn frame() -> Vec<u8> {
    let mut f = vec![0x00, 0x11, 0x22, 0x33, 0x44, 0x55, 0xaa, 0xbb, 0xcc, 0xdd, 0xee, 0xff, 0x08, 0x00];
    let mut ip = vec![0x45, 0, 0, 43, 0, 0, 0, 0, 64, 6, 0, 0, 10, 0, 0, 1, 10, 0, 0, 2];
    let mut tcp = vec![0u8; 20];
    tcp[0..2].copy_from_slice(&1234u16.to_be_bytes());
    tcp[2..4].copy_from_slice(&80u16.to_be_bytes());
    tcp[12] = 5 << 4;
    tcp.extend_from_slice(b"GET");
    ip.extend_from_slice(&tcp);
    f.extend_from_slice(&ip);
    f
}

fn sent(a: BridgeAction) -> PacketDefinition {
    match a {
        BridgeAction::Send(p) => p,
        _ => panic!("expected a packet to send"),
    }
}

fn ip_octets(a: IpAddress) -> Vec<u8> {
    match a {
        IpAddress::V4(o) => o.to_vec(),
        IpAddress::V6(o) => o.to_vec(),
    }
}

#[test]
fn frame_is_decoded_and_sent() {
    let p = sent(bridge_step(Delivery::Frame(frame())));
    assert_eq!(p.eth_packet.unwrap().src, "aa:bb:cc:dd:ee:ff");
    assert_eq!(p.ethernet_packet.unwrap().dst, "00:11:22:33:44:55");
    let t = p.tcp_packet.unwrap();
    assert_eq!((t.src, t.dst), (1234, 80));
    assert_eq!(t.packet_payload, b"GET".to_vec());
}

#[test]
fn runt_frame_is_sent_empty() {
    let p = sent(bridge_step(Delivery::Frame(vec![1, 2, 3])));
    assert!(p.eth_packet.is_none() && p.ethernet_packet.is_none() && p.ip_packet.is_none() && p.tcp_packet.is_none());
}

#[test]
fn lag_is_skipped_and_close_stops() {
    assert!(matches!(bridge_step(Delivery::Lagged(12)), BridgeAction::Wait));
    assert!(matches!(bridge_step(Delivery::Closed), BridgeAction::Stop));
    assert!(matches!(bridge_step(Delivery::SessionGone), BridgeAction::Stop));
}

#[test]
fn two_bridges_get_the_same_values() {
    let (tx, _) = broadcast::channel::<Vec<u8>>(16);
    let mut a = tx.subscribe();
    let mut b = tx.subscribe();
    tx.send(frame()).unwrap();
    let pa = sent(bridge_step(Delivery::Frame(a.try_recv().unwrap())));
    let pb = sent(bridge_step(Delivery::Frame(b.try_recv().unwrap())));
    let (ea, eb) = (pa.eth_packet.unwrap(), pb.eth_packet.unwrap());
    assert_eq!((ea.src, ea.dst, ea.packet_payload), (eb.src, eb.dst, eb.packet_payload));
    let (ia, ib) = (pa.ip_packet.unwrap(), pb.ip_packet.unwrap());
    assert_eq!(ip_octets(ia.src), ip_octets(ib.src));
    assert_eq!(ip_octets(ia.dst), ip_octets(ib.dst));
    assert_eq!(ia.packet_payload, ib.packet_payload);
    let (ta, tb) = (pa.tcp_packet.unwrap(), pb.tcp_packet.unwrap());
    assert_eq!((ta.src, ta.dst, ta.packet_payload), (tb.src, tb.dst, tb.packet_payload));
}

#[test]
fn late_subscriber_sees_only_later_frames() {
    let (tx, _keep) = broadcast::channel::<Vec<u8>>(16);
    for n in 0..5u8 {
        tx.send(vec![n]).unwrap();
    }
    let mut rx = tx.subscribe();
    assert!(matches!(rx.try_recv(), Err(TryRecvError::Empty)));
    tx.send(vec![5]).unwrap();
    assert_eq!(rx.try_recv().unwrap(), vec![5]);
}

#[test]
fn stalled_subscriber_resumes_with_recent_frames() {
    let (tx, mut rx) = broadcast::channel::<Vec<u8>>(4);
    for n in 0..10u8 {
        tx.send(vec![n]).unwrap();
    }
    let lagged = match rx.try_recv() {
        Err(TryRecvError::Lagged(k)) => k,
        other => panic!("expected a lag, got {:?}", other),
    };
    assert_eq!(lagged, 6);
    assert!(matches!(bridge_step(Delivery::Lagged(lagged)), BridgeAction::Wait));
    let rest: Vec<u8> = (0..4).map(|_| rx.try_recv().unwrap()[0]).collect();
    assert_eq!(rest, vec![6, 7, 8, 9]);
}
