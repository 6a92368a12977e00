//! End-to-end tests of the capture pipeline: frames in, flow records and
//! notification events out.

use sniffnet::classifier::{DiscardReason, LINK_ETHERNET};
use sniffnet::engine::CaptureEngine;
use sniffnet::flow::{Address, AppProtocol, CountryCode, TrafficDirection};
use sniffnet::notifications::Notifications;
use sniffnet::notifier::NotificationEvent;
use sniffnet::Sound;

fn v4(a: u8, b: u8, c: u8, d: u8) -> Address {
    Address::V4(u32::from_be_bytes([a, b, c, d]))
}

/// An Ethernet II frame carrying an IPv4 TCP packet, padded to `total_len`.
fn ipv4_tcp_frame(src: [u8; 4], sport: u16, dst: [u8; 4], dport: u16, total_len: usize) -> Vec<u8> {
    let mut f = vec![0u8; 12];
    f.extend_from_slice(&[0x08, 0x00]);
    let mut ip = vec![0x45u8, 0, 0, 0, 0, 0, 0, 0, 64, 6, 0, 0];
    ip.extend_from_slice(&src);
    ip.extend_from_slice(&dst);
    f.extend_from_slice(&ip);
    f.extend_from_slice(&sport.to_be_bytes());
    f.extend_from_slice(&dport.to_be_bytes());
    while f.len() < total_len {
        f.push(0);
    }
    f
}

fn demo_engine() -> CaptureEngine {
    CaptureEngine::new(
        vec![v4(10, 0, 0, 1)],
        1000,
        60,
        Notifications::default(),
    )
}

#[test]
fn first_packet_creates_flow() {
    let mut engine = demo_engine();
    let syn = ipv4_tcp_frame([10, 0, 0, 1], 55000, [93, 184, 216, 34], 443, 74);
    let events = engine.handle_frame(&syn, 0, LINK_ETHERNET);
    assert!(events.is_empty());
    assert_eq!(engine.table.records.len(), 1);
    let r = engine.table.get(0).unwrap();
    assert_eq!(r.packets_out, 1);
    assert_eq!(r.packets_in, 0);
    assert_eq!(r.bytes_out, 74);
    assert_eq!(r.app_protocol, AppProtocol::Https);
    assert_eq!(r.country, CountryCode { c0: b'Z', c1: b'Z' });
    assert_eq!(r.traffic_direction, TrafficDirection::LocalToRemote);
    assert_eq!(r.remote, v4(93, 184, 216, 34));
    assert_eq!(r.index, 0);
}

#[test]
fn reverse_direction_updates_same_flow() {
    let mut engine = demo_engine();
    let syn = ipv4_tcp_frame([10, 0, 0, 1], 55000, [93, 184, 216, 34], 443, 74);
    engine.handle_frame(&syn, 5, LINK_ETHERNET);
    let reply = ipv4_tcp_frame([93, 184, 216, 34], 443, [10, 0, 0, 1], 55000, 60);
    engine.handle_frame(&reply, 9, LINK_ETHERNET);
    assert_eq!(engine.table.records.len(), 1);
    let r = engine.table.get(0).unwrap();
    assert_eq!(r.packets_out, 1);
    assert_eq!(r.packets_in, 1);
    assert_eq!(r.bytes_out, 74);
    assert_eq!(r.bytes_in, 60);
    assert_eq!(r.first_seen, 5);
    assert_eq!(r.last_seen, 9);
}

#[test]
fn discard_reasons() {
    let engine = demo_engine();
    let classifier = &engine.classifier;
    let good = ipv4_tcp_frame([10, 0, 0, 1], 1, [10, 0, 0, 2], 2, 60);
    assert!(classifier.classify(&good, LINK_ETHERNET).is_ok());
    assert_eq!(
        classifier.classify(&good, 2).unwrap_err(),
        DiscardReason::UnsupportedLink
    );
    let short = vec![0u8; 13];
    assert_eq!(
        classifier.classify(&short, LINK_ETHERNET).unwrap_err(),
        DiscardReason::Truncated
    );
    let mut arp = vec![0u8; 12];
    arp.extend_from_slice(&[0x08, 0x06]);
    arp.extend_from_slice(&[0u8; 40]);
    assert_eq!(
        classifier.classify(&arp, LINK_ETHERNET).unwrap_err(),
        DiscardReason::NotIp
    );
    let mut cut = good.clone();
    cut.truncate(30);
    assert_eq!(
        classifier.classify(&cut, LINK_ETHERNET).unwrap_err(),
        DiscardReason::Truncated
    );
}

#[test]
fn ipv6_tcp_flow_and_app_protocols() {
    let engine = demo_engine();
    let mut f = vec![0u8; 12];
    f.extend_from_slice(&[0x86, 0xdd]);
    let mut v6hdr = vec![0x60u8, 0, 0, 0, 0, 20, 6, 64];
    let src6 = [0x20u8, 1, 0, 0, 0, 0, 0, 0, 0, 0, 0, 0, 0, 0, 0, 1];
    let dst6 = [0x20u8, 1, 0, 0, 0, 0, 0, 0, 0, 0, 0, 0, 0, 0, 0, 2];
    v6hdr.extend_from_slice(&src6);
    v6hdr.extend_from_slice(&dst6);
    f.extend_from_slice(&v6hdr);
    f.extend_from_slice(&53u16.to_be_bytes());
    f.extend_from_slice(&40000u16.to_be_bytes());
    while f.len() < 80 {
        f.push(0);
    }
    let c = engine.classifier.classify(&f, LINK_ETHERNET).unwrap();
    assert_eq!(c.app, AppProtocol::Dns);
    assert_eq!(c.bytes, 80);
    match c.key.addr_a {
        Address::V6(a) => assert_eq!(a, u128::from_be_bytes(src6)),
        Address::V4(_) => panic!("expected an IPv6 endpoint"),
    }
}

#[test]
fn multicast_destination_direction() {
    let mut engine = demo_engine();
    let frame = ipv4_tcp_frame([10, 0, 0, 1], 5000, [224, 0, 0, 251], 5353, 60);
    engine.handle_frame(&frame, 0, LINK_ETHERNET);
    let r = engine.table.get(0).unwrap();
    assert_eq!(r.traffic_direction, TrafficDirection::Multicast);
}

#[test]
fn packet_threshold_notification() {
    let mut config = Notifications::default();
    config.packets_notification.enable(10);
    let mut engine = CaptureEngine::new(vec![v4(10, 0, 0, 1)], 1000, 60, config);
    let frame = ipv4_tcp_frame([10, 0, 0, 1], 55000, [93, 184, 216, 34], 443, 74);
    for i in 0..9 {
        let events = engine.handle_frame(&frame, i, LINK_ETHERNET);
        assert!(events.is_empty());
    }
    // The first tick completes with 9 packets: below threshold, no event.
    let events = engine.handle_frame(&frame, 1000, LINK_ETHERNET);
    assert!(events.is_empty());
    for i in 1..10 {
        engine.handle_frame(&frame, 1000 + i, LINK_ETHERNET);
    }
    // The second tick completes with 10 packets: the rule fires.
    let events = engine.handle_frame(&frame, 2000, LINK_ETHERNET);
    assert_eq!(events.len(), 1);
    match events[0] {
        NotificationEvent::PacketsExceeded { count, sound, .. } => {
            assert!(count >= 10);
            assert_eq!(sound, Sound::Bubble);
        }
        _ => panic!("expected the packet-threshold event"),
    }
}

#[test]
fn favorite_once_guarantee() {
    let mut config = Notifications::default();
    config.on_favorite_notification.notify_on_favorite = true;
    let mut engine = CaptureEngine::new(vec![v4(10, 0, 0, 1)], 1000, 60, config);
    engine.notifier.add_favorite(v4(93, 184, 216, 34));
    let frame = ipv4_tcp_frame([10, 0, 0, 1], 55000, [93, 184, 216, 34], 443, 74);
    let mut favorite_events = 0;
    for events in [
        engine.handle_frame(&frame, 0, LINK_ETHERNET),
        engine.handle_frame(&frame, 1, LINK_ETHERNET),
    ] {
        favorite_events += events
            .iter()
            .filter(|e| matches!(e, NotificationEvent::FavoriteSeen { .. }))
            .count();
    }
    assert_eq!(favorite_events, 1);
}

#[test]
fn geo_enrichment_is_written_once_resolved() {
    let mut engine = demo_engine();
    let frame = ipv4_tcp_frame([10, 0, 0, 1], 55000, [93, 184, 216, 34], 443, 74);
    engine.handle_frame(&frame, 0, LINK_ETHERNET);
    engine.set_country(0, CountryCode { c0: b'U', c1: b'S' });
    let r = engine.table.get(0).unwrap();
    assert_eq!(r.country, CountryCode { c0: b'U', c1: b'S' });
    assert_eq!(r.packets_out, 1);
}

#[test]
fn parse_errors_are_counted_and_dropped() {
    let mut engine = demo_engine();
    let events = engine.handle_frame(&vec![0u8; 5], 0, LINK_ETHERNET);
    assert!(events.is_empty());
    assert_eq!(engine.parse_errors, 1);
    assert_eq!(engine.table.records.len(), 0);
}
