use dezap::addr::{IpAddress, PeerAddr};
use dezap::discovery::{collect_peers, discovery_reply, discovery_window_ms, is_probe, parse_discovery_reply, probe_target};

fn v4(a: u8, b: u8, c: u8, d: u8) -> IpAddress {
    IpAddress::V4(u32::from_be_bytes([a, b, c, d]))
}

#[test]
fn reply_names_magic_and_port() {
    assert_eq!(discovery_reply("dezap-discovery", 5000), b"dezap-discovery:5000".to_vec());
    assert_eq!(discovery_reply("m", 0), b"m:0".to_vec());
    assert_eq!(discovery_reply("m", 65535), b"m:65535".to_vec());
}

#[test]
fn probes_start_with_magic() {
    assert!(is_probe(b"dezap-discovery", "dezap-discovery"));
    assert!(is_probe(b"dezap-discovery-extra", "dezap-discovery"));
    assert!(!is_probe(b"dezap-disco", "dezap-discovery"));
    assert!(!is_probe(b"other-discovery", "dezap-discovery"));
}

#[test]
fn reply_parses_to_sender_and_port() {
    let ip = v4(192, 168, 1, 20);
    let reply = discovery_reply("dezap-discovery", 5000);
    assert_eq!(parse_discovery_reply(&reply, ip), Some(PeerAddr { ip, port: 5000 }));
    assert_eq!(parse_discovery_reply(b"x:+42", ip), Some(PeerAddr { ip, port: 42 }));
    assert_eq!(parse_discovery_reply(b"x:007", ip), Some(PeerAddr { ip, port: 7 }));
}

#[test]
fn bad_replies_yield_nothing() {
    let ip = v4(10, 0, 0, 1);
    assert_eq!(parse_discovery_reply(b"no-colon", ip), None);
    assert_eq!(parse_discovery_reply(b"x:", ip), None);
    assert_eq!(parse_discovery_reply(b"x:65536", ip), None);
    assert_eq!(parse_discovery_reply(b"x:12a", ip), None);
    assert_eq!(parse_discovery_reply(b"x:-1", ip), None);
    assert_eq!(parse_discovery_reply(b"a:b:1", ip), None);
    assert_eq!(parse_discovery_reply(&[0xff, b':', b'1'], ip), None);
}

#[test]
fn peers_are_sorted_and_deduplicated() {
    let a = PeerAddr { ip: v4(10, 0, 0, 2), port: 5000 };
    let b = PeerAddr { ip: v4(10, 0, 0, 1), port: 6000 };
    let c = PeerAddr { ip: v4(10, 0, 0, 1), port: 5000 };
    let d = PeerAddr { ip: IpAddress::V6(1), port: 1 };
    let out = collect_peers(&vec![d, a, b, a, c, b]);
    assert_eq!(out, vec![c, b, a, d]);
    assert!(collect_peers(&vec![]).is_empty());
}

#[test]
fn window_has_a_floor() {
    assert_eq!(discovery_window_ms(2000), 2000);
    assert_eq!(discovery_window_ms(10), 100);
}

#[test]
fn probes_go_to_broadcast_by_default() {
    assert_eq!(probe_target(None, 54095), PeerAddr { ip: IpAddress::V4(0xffff_ffff), port: 54095 });
    let net = u32::from_be_bytes([192, 168, 1, 255]);
    assert_eq!(probe_target(Some(net), 1), PeerAddr { ip: IpAddress::V4(net), port: 1 });
}

#[test]
fn responder_answers_probes_only() {
    assert_eq!(
        dezap::discovery::respond_to_datagram(b"dezap-discovery", "dezap-discovery", 5000),
        Some(b"dezap-discovery:5000".to_vec())
    );
    assert_eq!(dezap::discovery::respond_to_datagram(b"hello", "dezap-discovery", 5000), None);
}

#[test]
fn repeated_replies_collapse_to_one_peer() {
    let ip = v4(192, 168, 1, 7);
    let reply = discovery_reply("dezap-discovery", 5000);
    let found: Vec<PeerAddr> = (0..3).filter_map(|_| parse_discovery_reply(&reply, ip)).collect();
    assert_eq!(collect_peers(&found), vec![PeerAddr { ip, port: 5000 }]);
}
