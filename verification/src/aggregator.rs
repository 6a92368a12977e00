//! The interval aggregator: fixed-width time buckets of per-tick totals,
//! the source for charts and for threshold evaluation.

use vstd::prelude::*;
use crate::flow::{sat_add, sat_add_spec};

verus! {

/// Totals of one tick-wide interval. `tick` is the interval's ordinal:
/// the packet timestamp divided by the tick width.
#[derive(Clone, Copy, Debug, PartialEq, Eq, Structural)]
pub struct TrafficBucket {
    pub tick: u64,
    pub packets_out: u64,
    pub packets_in: u64,
    pub bytes_out: u64,
    pub bytes_in: u64,
}

/// The empty bucket of tick `t`.
pub open spec fn fresh_bucket(t: u64) -> TrafficBucket {
    TrafficBucket { tick: t, packets_out: 0, packets_in: 0, bytes_out: 0, bytes_in: 0 }
}

/// One packet of `bytes` bytes added to a bucket, on the side `forward`
/// picks; counters clamp at `u64::MAX`.
pub open spec fn bucket_add(b: TrafficBucket, forward: bool, bytes: u64) -> TrafficBucket {
    TrafficBucket {
        packets_out: if forward { sat_add_spec(b.packets_out, 1) } else { b.packets_out },
        packets_in: if forward { b.packets_in } else { sat_add_spec(b.packets_in, 1) },
        bytes_out: if forward { sat_add_spec(b.bytes_out, bytes) } else { b.bytes_out },
        bytes_in: if forward { b.bytes_in } else { sat_add_spec(b.bytes_in, bytes) },
        ..b
    }
}

/// A completed bucket appended to the history ring: the oldest entry leaves
/// once the ring is full.
pub open spec fn push_capped(h: Seq<TrafficBucket>, b: TrafficBucket, cap: int)
    -> Seq<TrafficBucket> {
    if h.len() < cap {
        h.push(b)
    } else {
        h.subrange(1, h.len() as int).push(b)
    }
}

/// Everything one packet does to the aggregator: the bucket it lands in,
/// the bucket it closes, and the history it leaves behind.
pub open spec fn agg_step(
    pre: IntervalAggregator,
    post: IntervalAggregator,
    completed: Option<TrafficBucket>,
    ts: u64,
    forward: bool,
    bytes: u64,
) -> bool {
    let t = ts / pre.tick_width;
    &&& post.tick_width == pre.tick_width
    &&& post.capacity == pre.capacity
    &&& post.started
    &&& if !pre.started {
        &&& completed is None
        &&& post.current == bucket_add(fresh_bucket(t), forward, bytes)
        &&& post.history@ == pre.history@
    } else if t <= pre.current.tick {
        &&& completed is None
        &&& post.current == bucket_add(pre.current, forward, bytes)
        &&& post.history@ == pre.history@
    } else {
        &&& completed == Some(pre.current)
        &&& post.current == bucket_add(fresh_bucket(t), forward, bytes)
        &&& post.history@ == push_capped(pre.history@, pre.current, pre.capacity as int)
    }
}

/// The interval aggregator. The current bucket accumulates until a packet
/// of a later tick arrives; then it is closed, kept in the bounded history,
/// and handed out as the completed interval.
pub struct IntervalAggregator {
    /// Width of one tick, in the capture clock's unit; at least 1.
    pub tick_width: u64,
    /// How many completed buckets the history keeps.
    pub capacity: usize,
    /// False until the first packet is seen.
    pub started: bool,
    /// The bucket of the tick now accumulating.
    pub current: TrafficBucket,
    /// Completed buckets, oldest first.
    pub history: Vec<TrafficBucket>,
}

impl IntervalAggregator {
    pub open spec fn wf(self) -> bool {
        &&& self.tick_width >= 1
        &&& self.capacity >= 1
        &&& self.history@.len() <= self.capacity
    }

    pub fn new(tick_width: u64, capacity: usize) -> (r: IntervalAggregator)
        requires
            tick_width >= 1,
            capacity >= 1,
        ensures
            r.wf(),
            r.tick_width == tick_width,
            r.capacity == capacity,
            !r.started,
            r.history@ == Seq::<TrafficBucket>::empty(),
    {
        IntervalAggregator {
            tick_width,
            capacity,
            started: false,
            current: TrafficBucket { tick: 0, packets_out: 0, packets_in: 0, bytes_out: 0, bytes_in: 0 },
            history: Vec::new(),
        }
    }

    /// Account one classified packet. A packet of a later tick first closes
    /// the current bucket and returns it (the tick-completed event); a
    /// packet of the current tick — or a late one — accumulates silently.
    pub fn record(&mut self, ts: u64, forward: bool, bytes: u64) -> (completed: Option<
        TrafficBucket,
    >)
        requires
            old(self).wf(),
        ensures
            final(self).wf(),
            agg_step(*old(self), *final(self), completed, ts, forward, bytes),
    {
        let t = ts / self.tick_width;
        if !self.started {
            self.started = true;
            self.current = TrafficBucket { tick: t, packets_out: 0, packets_in: 0, bytes_out: 0, bytes_in: 0 };
            self.bump(forward, bytes);
            None
        } else if t <= self.current.tick {
            self.bump(forward, bytes);
            None
        } else {
            let closed = self.current;
            if self.history.len() >= self.capacity {
                self.history.remove(0);
            }
            self.history.push(closed);
            self.current = TrafficBucket { tick: t, packets_out: 0, packets_in: 0, bytes_out: 0, bytes_in: 0 };
            self.bump(forward, bytes);
            Some(closed)
        }
    }

    fn bump(&mut self, forward: bool, bytes: u64)
        ensures
            final(self).current == bucket_add(old(self).current, forward, bytes),
            final(self).tick_width == old(self).tick_width,
            final(self).capacity == old(self).capacity,
            final(self).started == old(self).started,
            final(self).history@ == old(self).history@,
    {
        if forward {
            self.current.packets_out = sat_add(self.current.packets_out, 1);
            self.current.bytes_out = sat_add(self.current.bytes_out, bytes);
        } else {
            self.current.packets_in = sat_add(self.current.packets_in, 1);
            self.current.bytes_in = sat_add(self.current.bytes_in, bytes);
        }
    }
}

} // verus!
