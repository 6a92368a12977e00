//! The capture engine: the single writer that feeds each classified frame
//! into the flow table and the interval aggregator, and collects the
//! notification events the frame causes.

use vstd::prelude::*;
use crate::aggregator::{agg_step, IntervalAggregator};
use crate::classifier::{classify_spec, ClassifiedPacket, Classifier};
use crate::flow::{sat_add, sat_add_spec, Address, CountryCode, FlowRecord};
use crate::notifications::Notifications;
use crate::notifier::{favorite_fires, threshold_events, NotificationEngine, NotificationEvent};
use crate::table::{has_key, key_index, upsert_spec, FlowTable};

verus! {

/// The long-lived state of one capture run.
pub struct CaptureEngine {
    pub classifier: Classifier,
    pub table: FlowTable,
    pub intervals: IntervalAggregator,
    pub notifier: NotificationEngine,
    /// Frames dropped for a parse reason; never fatal.
    pub parse_errors: u64,
}

/// What one accepted packet does to the engine: the table is upserted, the
/// aggregator steps, the completed bucket (if any) is judged by the
/// threshold rules, and the favorite rule sees the touched flow.
pub open spec fn engine_accept_post(
    pre: CaptureEngine,
    post: CaptureEngine,
    events: Seq<NotificationEvent>,
    c: ClassifiedPacket,
    ts: u64,
) -> bool {
    let t = ts / pre.intervals.tick_width;
    let rollover = pre.intervals.started && t > pre.intervals.current.tick;
    let tick_events = if rollover {
        threshold_events(pre.notifier.config, pre.intervals.current)
    } else {
        Seq::empty()
    };
    let idx = if has_key(pre.table@, c.key) {
        key_index(pre.table@, c.key)
    } else {
        pre.table@.len() as int
    };
    let fav = favorite_fires(pre.notifier, idx as usize, c.remote);
    &&& post.table@ == upsert_spec(pre.table@, c, ts)
    &&& agg_step(
        pre.intervals,
        post.intervals,
        if rollover {
            Some(pre.intervals.current)
        } else {
            None
        },
        ts,
        c.forward,
        c.bytes,
    )
    &&& post.notifier.notified@ == if fav {
        pre.notifier.notified@.push(idx as usize)
    } else {
        pre.notifier.notified@
    }
    &&& events == if fav {
        tick_events.push(
            NotificationEvent::FavoriteSeen {
                flow_index: idx as usize,
                sound: pre.notifier.config.on_favorite_notification.sound,
            },
        )
    } else {
        tick_events
    }
    &&& post.parse_errors == pre.parse_errors
}

impl CaptureEngine {
    pub open spec fn wf(self) -> bool {
        &&& self.table.wf()
        &&& self.intervals.wf()
    }

    /// Nothing the user configured moves while a frame is handled.
    pub open spec fn config_unchanged(pre: CaptureEngine, post: CaptureEngine) -> bool {
        &&& post.classifier.locals@ == pre.classifier.locals@
        &&& post.notifier.config == pre.notifier.config
        &&& post.notifier.favorites@ == pre.notifier.favorites@
    }

    pub fn new(locals: Vec<Address>, tick_width: u64, capacity: usize, config: Notifications)
        -> (r: CaptureEngine)
        requires
            tick_width >= 1,
            capacity >= 1,
        ensures
            r.wf(),
            r.classifier.locals@ == locals@,
            r.table@ == Seq::<FlowRecord>::empty(),
            r.notifier.config == config,
            r.notifier.favorites@ == Seq::<Address>::empty(),
            r.notifier.notified@ == Seq::<usize>::empty(),
            r.intervals.tick_width == tick_width,
            r.intervals.capacity == capacity,
            !r.intervals.started,
            r.parse_errors == 0,
    {
        CaptureEngine {
            classifier: Classifier::new(locals),
            table: FlowTable::new(),
            intervals: IntervalAggregator::new(tick_width, capacity),
            notifier: NotificationEngine::new(config),
            parse_errors: 0,
        }
    }

    /// Feed one captured frame through the pipeline. A frame the classifier
    /// rejects is counted and changes nothing else; an accepted frame steps
    /// the table, the intervals and the notification engine exactly as
    /// `engine_accept_post` says.
    pub fn handle_frame(&mut self, frame: &Vec<u8>, ts: u64, link: u16) -> (events: Vec<
        NotificationEvent,
    >)
        requires
            old(self).wf(),
        ensures
            final(self).wf(),
            CaptureEngine::config_unchanged(*old(self), *final(self)),
            match classify_spec(old(self).classifier.locals@, frame@, link) {
                Err(_) => {
                    &&& final(self).table@ == old(self).table@
                    &&& final(self).intervals == old(self).intervals
                    &&& final(self).notifier.notified@ == old(self).notifier.notified@
                    &&& final(self).parse_errors == sat_add_spec(old(self).parse_errors, 1)
                    &&& events@ == Seq::<NotificationEvent>::empty()
                },
                Ok(c) => engine_accept_post(*old(self), *final(self), events@, c, ts),
            },
    {
        let verdict = self.classifier.classify(frame, link);
        match verdict {
            Err(_) => {
                self.parse_errors = sat_add(self.parse_errors, 1);
                Vec::new()
            },
            Ok(c) => {
                let idx = self.table.upsert(&c, ts);
                let completed = self.intervals.record(ts, c.forward, c.bytes);
                let mut events: Vec<NotificationEvent> = match completed {
                    Some(b) => self.notifier.on_tick_completed(&b),
                    None => Vec::new(),
                };
                match self.notifier.on_flow_activity(idx, &c.remote) {
                    Some(e) => {
                        events.push(e);
                    },
                    None => {},
                }
                events
            },
        }
    }

    /// Write the resolved country of one flow; what the geolocation task
    /// reports lands here.
    pub fn set_country(&mut self, index: usize, country: CountryCode)
        requires
            old(self).wf(),
        ensures
            final(self).wf(),
            index < old(self).table@.len() ==> final(self).table@ == old(self).table@.update(
                index as int,
                FlowRecord { country, ..old(self).table@[index as int] },
            ),
            index >= old(self).table@.len() ==> final(self).table@ == old(self).table@,
    {
        self.table.set_country(index, country);
    }

    /// An internally consistent snapshot of the flow table for the read
    /// side.
    pub fn snapshot(&self) -> (s: Vec<FlowRecord>)
        ensures
            s@ == self.table@,
    {
        self.table.snapshot()
    }
}

} // verus!
