//! Tests of the notification configuration and the rule engine on
//! completed buckets.

use sniffnet::aggregator::{IntervalAggregator, TrafficBucket};
use sniffnet::flow::Address;
use sniffnet::notifications::Notifications;
use sniffnet::notifier::{NotificationEngine, NotificationEvent};
use sniffnet::Sound;

fn bucket(packets: u64, bytes: u64) -> TrafficBucket {
    TrafficBucket {
        tick: 7,
        packets_out: packets,
        packets_in: 0,
        bytes_out: bytes,
        bytes_in: 0,
    }
}

#[test]
fn default_configuration() {
    let n = Notifications::default();
    assert_eq!(n.packets_notification.threshold, None);
    assert_eq!(n.packets_notification.previous_threshold, 500);
    assert_eq!(n.packets_notification.sound, Sound::Bubble);
    assert_eq!(n.bytes_notification.threshold, None);
    assert_eq!(n.bytes_notification.previous_threshold, 100_000);
    assert_eq!(n.bytes_notification.sound, Sound::Pop);
    assert!(!n.on_favorite_notification.notify_on_favorite);
    assert_eq!(n.on_favorite_notification.sound, Sound::Tic);
}

#[test]
fn threshold_rule_state_machine() {
    let mut n = Notifications::default();
    n.packets_notification.enable(42);
    assert_eq!(n.packets_notification.threshold, Some(42));
    n.packets_notification.disable();
    assert_eq!(n.packets_notification.threshold, None);
    assert_eq!(n.packets_notification.previous_threshold, 42);
    n.packets_notification.enable_previous();
    assert_eq!(n.packets_notification.threshold, Some(42));
    // Disabling a disabled rule keeps the remembered value.
    n.packets_notification.disable();
    n.packets_notification.disable();
    assert_eq!(n.packets_notification.previous_threshold, 42);
}

#[test]
fn threshold_equal_fires_one_above_does_not() {
    let mut config = Notifications::default();
    config.packets_notification.enable(10);
    let engine = NotificationEngine::new(config);
    let events = engine.on_tick_completed(&bucket(10, 0));
    assert_eq!(events.len(), 1);
    assert!(matches!(events[0], NotificationEvent::PacketsExceeded { count: 10, .. }));

    let mut config_above = Notifications::default();
    config_above.packets_notification.enable(11);
    let engine_above = NotificationEngine::new(config_above);
    assert!(engine_above.on_tick_completed(&bucket(10, 0)).is_empty());
}

#[test]
fn byte_rule_and_packet_rule_fire_independently() {
    let mut config = Notifications::default();
    config.packets_notification.enable(5);
    config.bytes_notification.enable(1000);
    let engine = NotificationEngine::new(config);
    let events = engine.on_tick_completed(&bucket(5, 1000));
    assert_eq!(events.len(), 2);
    assert!(matches!(events[0], NotificationEvent::PacketsExceeded { .. }));
    assert!(matches!(events[1], NotificationEvent::BytesExceeded { count: 1000, sound: Sound::Pop, .. }));
    let only_bytes = engine.on_tick_completed(&bucket(4, 1000));
    assert_eq!(only_bytes.len(), 1);
    assert!(matches!(only_bytes[0], NotificationEvent::BytesExceeded { .. }));
    assert!(engine.on_tick_completed(&bucket(4, 999)).is_empty());
}

#[test]
fn disabled_rules_stay_silent() {
    let engine = NotificationEngine::new(Notifications::default());
    assert!(engine.on_tick_completed(&bucket(u64::MAX, u64::MAX)).is_empty());
}

#[test]
fn favorite_rule_respects_enable_flag_and_list() {
    let mut config = Notifications::default();
    config.on_favorite_notification.notify_on_favorite = true;
    let mut engine = NotificationEngine::new(config);
    let host = Address::V4(0x5db8_d822);
    // Not a favorite yet: silent.
    assert!(engine.on_flow_activity(0, &host).is_none());
    engine.add_favorite(host);
    let event = engine.on_flow_activity(0, &host);
    assert!(matches!(
        event,
        Some(NotificationEvent::FavoriteSeen { flow_index: 0, sound: Sound::Tic })
    ));
    // The same flow is never announced twice.
    assert!(engine.on_flow_activity(0, &host).is_none());
    // Another flow touching the same favorite is announced.
    assert!(engine.on_flow_activity(3, &host).is_some());
    engine.remove_favorite(host);
    assert!(engine.on_flow_activity(9, &host).is_none());
}

#[test]
fn aggregator_buckets_by_tick_and_reports_rollover() {
    let mut agg = IntervalAggregator::new(1000, 3);
    assert_eq!(agg.record(10, true, 100), None);
    assert_eq!(agg.record(999, false, 50), None);
    assert_eq!(agg.current.packets_out, 1);
    assert_eq!(agg.current.packets_in, 1);
    assert_eq!(agg.current.bytes_out, 100);
    assert_eq!(agg.current.bytes_in, 50);
    let closed = agg.record(1000, true, 10).unwrap();
    assert_eq!(closed.tick, 0);
    assert_eq!(closed.packets_out + closed.packets_in, 2);
    assert_eq!(agg.current.tick, 1);
    assert_eq!(agg.current.packets_out, 1);
    assert_eq!(agg.history.len(), 1);
    // The history ring stays bounded.
    for t in 2..10u64 {
        agg.record(t * 1000, true, 1).unwrap();
    }
    assert_eq!(agg.history.len(), 3);
}
