//! The notification engine: evaluates threshold rules on each completed
//! interval and announces favorite-host activity once per flow.

use vstd::prelude::*;
use crate::aggregator::TrafficBucket;
use crate::flow::{sat_add, sat_add_spec, Address};
use crate::notifications::Notifications;
use crate::sound::Sound;

verus! {

/// An event handed to notification subscribers.
#[derive(Clone, Copy, Debug, PartialEq, Eq, Structural)]
pub enum NotificationEvent {
    /// The just-completed bucket's packet total reached the packet
    /// threshold.
    PacketsExceeded { bucket_ts: u64, count: u64, sound: Sound },
    /// The just-completed bucket's byte total reached the byte threshold.
    BytesExceeded { bucket_ts: u64, count: u64, sound: Sound },
    /// A flow involving a favorite host showed activity for the first time.
    FavoriteSeen { flow_index: usize, sound: Sound },
}

/// Packet total of a bucket, both directions, clamped at `u64::MAX`.
pub open spec fn bucket_packets(b: TrafficBucket) -> u64 {
    sat_add_spec(b.packets_out, b.packets_in)
}

/// Byte total of a bucket, both directions, clamped at `u64::MAX`.
pub open spec fn bucket_bytes(b: TrafficBucket) -> u64 {
    sat_add_spec(b.bytes_out, b.bytes_in)
}

/// Whether the packet rule fires on a completed bucket: armed, and the
/// total at or above the threshold.
pub open spec fn packets_rule_fires(config: Notifications, b: TrafficBucket) -> bool {
    match config.packets_notification.threshold {
        Some(t) => bucket_packets(b) >= t,
        None => false,
    }
}

/// Whether the byte rule fires on a completed bucket.
pub open spec fn bytes_rule_fires(config: Notifications, b: TrafficBucket) -> bool {
    match config.bytes_notification.threshold {
        Some(t) => bucket_bytes(b) >= t,
        None => false,
    }
}

/// The events one completed bucket produces: the packet event if and only
/// if the packet rule fires, then the byte event if and only if the byte
/// rule fires. At most one of each per tick.
pub open spec fn threshold_events(config: Notifications, b: TrafficBucket)
    -> Seq<NotificationEvent> {
    let after_packets: Seq<NotificationEvent> = if packets_rule_fires(config, b) {
        seq![
            NotificationEvent::PacketsExceeded {
                bucket_ts: b.tick,
                count: bucket_packets(b),
                sound: config.packets_notification.sound,
            },
        ]
    } else {
        Seq::empty()
    };
    if bytes_rule_fires(config, b) {
        after_packets.push(
            NotificationEvent::BytesExceeded {
                bucket_ts: b.tick,
                count: bucket_bytes(b),
                sound: config.bytes_notification.sound,
            },
        )
    } else {
        after_packets
    }
}

/// Whether `a` is in the favorites list.
pub open spec fn in_favorites(favorites: Seq<Address>, a: Address) -> bool {
    exists|i: int| 0 <= i < favorites.len() && favorites[i] == a
}

/// Whether flow `idx` was already announced.
pub open spec fn already_notified(notified: Seq<usize>, idx: usize) -> bool {
    exists|i: int| 0 <= i < notified.len() && notified[i] == idx
}

/// The notification engine: the user's configuration, the favorite hosts,
/// and the flows already announced by the favorite rule.
pub struct NotificationEngine {
    pub config: Notifications,
    pub favorites: Vec<Address>,
    /// Indexes of flows the favorite rule has announced, each at most once.
    pub notified: Vec<usize>,
}

/// Whether activity of flow `idx` with remote endpoint `remote` fires the
/// favorite rule now: rule enabled, remote a favorite, flow not yet
/// announced.
pub open spec fn favorite_fires(e: NotificationEngine, idx: usize, remote: Address) -> bool {
    &&& e.config.on_favorite_notification.notify_on_favorite
    &&& in_favorites(e.favorites@, remote)
    &&& !already_notified(e.notified@, idx)
}

impl NotificationEngine {
    pub fn new(config: Notifications) -> (r: NotificationEngine)
        ensures
            r.config == config,
            r.favorites@ == Seq::<Address>::empty(),
            r.notified@ == Seq::<usize>::empty(),
    {
        NotificationEngine { config, favorites: Vec::new(), notified: Vec::new() }
    }

    /// Replace the configuration; no retroactive firing, the next completed
    /// bucket is judged by the new rules.
    pub fn set_config(&mut self, config: Notifications)
        ensures
            final(self).config == config,
            final(self).favorites@ == old(self).favorites@,
            final(self).notified@ == old(self).notified@,
    {
        self.config = config;
    }

    /// Mark a host as favorite.
    pub fn add_favorite(&mut self, a: Address)
        ensures
            final(self).favorites@ == old(self).favorites@.push(a),
            final(self).config == old(self).config,
            final(self).notified@ == old(self).notified@,
    {
        self.favorites.push(a);
    }

    /// Unmark every occurrence of a favorite host, keeping the order of the
    /// rest.
    pub fn remove_favorite(&mut self, a: Address)
        ensures
            final(self).favorites@ == old(self).favorites@.filter(|x: Address| x != a),
            final(self).config == old(self).config,
            final(self).notified@ == old(self).notified@,
    {
        let n = self.favorites.len();
        let mut kept: Vec<Address> = Vec::new();
        let mut i: usize = 0;
        proof {
            reveal(Seq::filter);
        }
        while i < n
            invariant
                i <= n,
                n == self.favorites@.len(),
                kept@ == self.favorites@.subrange(0, i as int).filter(|x: Address| x != a),
            decreases n - i,
        {
            proof {
                reveal(Seq::filter);
                let pre = self.favorites@.subrange(0, i as int);
                let post = self.favorites@.subrange(0, i + 1 as int);
                assert(post.drop_last() =~= pre);
                assert(post.last() == self.favorites@[i as int]);
            }
            if !(self.favorites[i] == a) {
                kept.push(self.favorites[i]);
            }
            i += 1;
        }
        proof {
            reveal(Seq::filter);
            assert(self.favorites@.subrange(0, n as int) =~= self.favorites@);
        }
        self.favorites = kept;
    }

    /// Judge one completed bucket against the two threshold rules. The
    /// events are exactly the ones `threshold_events` names: each rule
    /// fires if and only if it is armed and its total reached the
    /// threshold, at most once per completed bucket.
    pub fn on_tick_completed(&self, b: &TrafficBucket) -> (events: Vec<NotificationEvent>)
        ensures
            events@ == threshold_events(self.config, *b),
    {
        let mut events: Vec<NotificationEvent> = Vec::new();
        let packets = sat_add(b.packets_out, b.packets_in);
        match self.config.packets_notification.threshold {
            Some(t) => {
                if packets >= t as u64 {
                    events.push(
                        NotificationEvent::PacketsExceeded {
                            bucket_ts: b.tick,
                            count: packets,
                            sound: self.config.packets_notification.sound,
                        },
                    );
                }
            },
            None => {},
        }
        let bytes = sat_add(b.bytes_out, b.bytes_in);
        match self.config.bytes_notification.threshold {
            Some(t) => {
                if bytes >= t as u64 {
                    events.push(
                        NotificationEvent::BytesExceeded {
                            bucket_ts: b.tick,
                            count: bytes,
                            sound: self.config.bytes_notification.sound,
                        },
                    );
                }
            },
            None => {},
        }
        events
    }

    /// Judge activity of one flow against the favorite rule. Fires if and
    /// only if the rule is enabled, the flow's remote endpoint is a
    /// favorite, and this flow was never announced before; the flow is then
    /// remembered, so a later call for it stays silent.
    pub fn on_flow_activity(&mut self, flow_index: usize, remote: &Address) -> (event: Option<
        NotificationEvent,
    >)
        ensures
            favorite_fires(*old(self), flow_index, *remote) ==> event == Some(
                NotificationEvent::FavoriteSeen {
                    flow_index,
                    sound: old(self).config.on_favorite_notification.sound,
                },
            ) && final(self).notified@ == old(self).notified@.push(flow_index),
            !favorite_fires(*old(self), flow_index, *remote) ==> event is None
                && final(self).notified@ == old(self).notified@,
            final(self).config == old(self).config,
            final(self).favorites@ == old(self).favorites@,
    {
        if !self.config.on_favorite_notification.notify_on_favorite {
            return None;
        }
        if !self.is_favorite(remote) {
            return None;
        }
        if self.was_notified(flow_index) {
            return None;
        }
        self.notified.push(flow_index);
        Some(
            NotificationEvent::FavoriteSeen {
                flow_index,
                sound: self.config.on_favorite_notification.sound,
            },
        )
    }

    fn is_favorite(&self, a: &Address) -> (r: bool)
        ensures
            r == in_favorites(self.favorites@, *a),
    {
        let n = self.favorites.len();
        let mut i: usize = 0;
        while i < n
            invariant
                i <= n,
                n == self.favorites@.len(),
                forall|j: int| 0 <= j < i ==> self.favorites@[j] != *a,
            decreases n - i,
        {
            if self.favorites[i] == *a {
                assert(self.favorites@[i as int] == *a);
                return true;
            }
            i += 1;
        }
        false
    }

    fn was_notified(&self, idx: usize) -> (r: bool)
        ensures
            r == already_notified(self.notified@, idx),
    {
        let n = self.notified.len();
        let mut i: usize = 0;
        while i < n
            invariant
                i <= n,
                n == self.notified@.len(),
                forall|j: int| 0 <= j < i ==> self.notified@[j] != idx,
            decreases n - i,
        {
            if self.notified[i] == idx {
                assert(self.notified@[i as int] == idx);
                return true;
            }
            i += 1;
        }
        false
    }
}

/// An announced flow stays announced: whatever `notified` later grows
/// into, the favorite rule cannot fire for that flow again.
pub proof fn lemma_favorite_once(e: NotificationEngine, idx: usize, remote: Address)
    requires
        already_notified(e.notified@, idx),
    ensures
        !favorite_fires(e, idx, remote),
{
}

/// The favorite rule announces each flow at most once: after the call
/// whose contract recorded flow `idx` (its `notified` grew by `idx`), a
/// later activity of the same flow — whatever remote endpoint it shows —
/// cannot fire again.
pub proof fn lemma_favorite_once_per_flow(
    pre: NotificationEngine,
    post: NotificationEngine,
    idx: usize,
    remote: Address,
)
    requires
        post.notified@ == pre.notified@.push(idx),
    ensures
        !favorite_fires(post, idx, remote),
{
    assert(post.notified@[post.notified@.len() - 1] == idx);
}

} // verus!
