//! The flow table: the canonical, append-or-update store of flow records,
//! indexed by creation order.

use vstd::prelude::*;
use vstd::pervasive::VecAdditionalExecFns;
use crate::classifier::ClassifiedPacket;
use crate::flow::{sat_add, sat_add_spec, CountryCode, FlowKey, FlowRecord};

verus! {

/// Table invariant: every record is well formed, sits at the position its
/// `index` names, and no two records share a key.
pub open spec fn wf_records(s: Seq<FlowRecord>) -> bool {
    &&& forall|i: int| 0 <= i < s.len() ==> (#[trigger] s[i]).wf() && s[i].index == i
    &&& forall|i: int, j: int|
        0 <= i < s.len() && 0 <= j < s.len() && i != j ==> (#[trigger] s[i]).key != (
        #[trigger] s[j]).key
}

/// Whether some record of `s` holds `key`.
pub open spec fn has_key(s: Seq<FlowRecord>, key: FlowKey) -> bool {
    exists|i: int| 0 <= i < s.len() && (#[trigger] s[i]).key == key
}

/// The position of the record holding `key`; meaningful only under `has_key`.
pub open spec fn key_index(s: Seq<FlowRecord>, key: FlowKey) -> int {
    choose|i: int| 0 <= i < s.len() && (#[trigger] s[i]).key == key
}

/// In a well-formed table the position of a key is the only one holding it.
pub proof fn lemma_key_index_unique(s: Seq<FlowRecord>, key: FlowKey, i: int)
    requires
        wf_records(s),
        0 <= i < s.len(),
        s[i].key == key,
    ensures
        has_key(s, key),
        key_index(s, key) == i,
{
    assert(has_key(s, key));
    let j = key_index(s, key);
    assert(s[j].key == key);
    if i != j {
        assert(s[i].key != s[j].key);
    }
}

/// The record an existing flow becomes when one more packet of it arrives:
/// `last_seen` advances, one packet counter and one byte counter grow
/// (clamped at `u64::MAX`); key, classification, enrichment and index stay.
pub open spec fn updated_record(r: FlowRecord, c: ClassifiedPacket, ts: u64) -> FlowRecord {
    FlowRecord {
        last_seen: if ts > r.last_seen { ts } else { r.last_seen },
        packets_out: if c.forward { sat_add_spec(r.packets_out, 1) } else { r.packets_out },
        packets_in: if c.forward { r.packets_in } else { sat_add_spec(r.packets_in, 1) },
        bytes_out: if c.forward { sat_add_spec(r.bytes_out, c.bytes) } else { r.bytes_out },
        bytes_in: if c.forward { r.bytes_in } else { sat_add_spec(r.bytes_in, c.bytes) },
        ..r
    }
}

/// The record a new flow starts with: both timestamps at `ts`, the packet's
/// own classification, country still unresolved.
pub open spec fn new_record(idx: int, c: ClassifiedPacket, ts: u64) -> FlowRecord {
    FlowRecord {
        key: c.key,
        first_seen: ts,
        last_seen: ts,
        packets_out: if c.forward { 1 } else { 0 },
        packets_in: if c.forward { 0 } else { 1 },
        bytes_out: if c.forward { c.bytes } else { 0 },
        bytes_in: if c.forward { 0 } else { c.bytes },
        app_protocol: c.app,
        country: CountryCode { c0: 90, c1: 90 },
        traffic_direction: c.direction,
        remote: c.remote,
        index: idx as usize,
    }
}

/// What one classified packet does to the table's records.
pub open spec fn upsert_spec(s: Seq<FlowRecord>, c: ClassifiedPacket, ts: u64)
    -> Seq<FlowRecord> {
    if has_key(s, c.key) {
        s.update(key_index(s, c.key), updated_record(s[key_index(s, c.key)], c, ts))
    } else {
        s.push(new_record(s.len() as int, c, ts))
    }
}

/// The standing invariants of a well-formed table, spelled out: every
/// record orders its timestamps and counts at least one packet, and no two
/// distinct records share an index or a key.
pub proof fn lemma_table_invariants(s: Seq<FlowRecord>)
    requires
        wf_records(s),
    ensures
        forall|i: int|
            0 <= i < s.len() ==> (#[trigger] s[i]).first_seen <= s[i].last_seen && s[i].packets_out
                + s[i].packets_in >= 1,
        forall|i: int, j: int|
            0 <= i < s.len() && 0 <= j < s.len() && i != j ==> (#[trigger] s[i]).index != (
            #[trigger] s[j]).index && s[i].key != s[j].key,
{
}

/// The flow table. Its records stand in creation order; a record's `index`
/// is its position, assigned once and never reused.
pub struct FlowTable {
    pub records: Vec<FlowRecord>,
}

impl View for FlowTable {
    type V = Seq<FlowRecord>;

    open spec fn view(&self) -> Seq<FlowRecord> {
        self.records@
    }
}

impl FlowTable {
    pub open spec fn wf(self) -> bool {
        wf_records(self@)
    }

    pub fn new() -> (r: FlowTable)
        ensures
            r@ == Seq::<FlowRecord>::empty(),
            r.wf(),
    {
        FlowTable { records: Vec::new() }
    }

    pub fn len(&self) -> (n: usize)
        ensures
            n == self@.len(),
    {
        self.records.len()
    }

    /// The record a classified packet belongs to, if the flow exists:
    /// its position, else the length of the table.
    fn find(&self, key: &FlowKey) -> (i: usize)
        requires
            self.wf(),
        ensures
            has_key(self@, *key) ==> i == key_index(self@, *key) && i < self@.len(),
            !has_key(self@, *key) ==> i == self@.len(),
    {
        let n = self.records.len();
        let mut i: usize = 0;
        while i < n
            invariant
                i <= n,
                n == self@.len(),
                self.wf(),
                forall|j: int| 0 <= j < i ==> (#[trigger] self@[j]).key != *key,
            decreases n - i,
        {
            if self.records[i].key == *key {
                proof {
                    lemma_key_index_unique(self@, *key, i as int);
                }
                return i;
            }
            i += 1;
        }
        assert(!has_key(self@, *key));
        i
    }

    /// Apply one classified packet: update the flow it belongs to, or create
    /// it with the next index. Returns the record's index either way.
    pub fn upsert(&mut self, c: &ClassifiedPacket, ts: u64) -> (idx: usize)
        requires
            old(self).wf(),
            c.key.wf(),
        ensures
            final(self)@ == upsert_spec(old(self)@, *c, ts),
            final(self).wf(),
            idx < final(self)@.len(),
            final(self)@[idx as int].key == c.key,
            !has_key(old(self)@, c.key) ==> idx == old(self)@.len(),
            has_key(old(self)@, c.key) ==> idx == key_index(old(self)@, c.key),
    {
        let i = self.find(&c.key);
        if i < self.records.len() {
            let r = self.records[i];
            let updated = FlowRecord {
                last_seen: if ts > r.last_seen {
                    ts
                } else {
                    r.last_seen
                },
                packets_out: if c.forward {
                    sat_add(r.packets_out, 1)
                } else {
                    r.packets_out
                },
                packets_in: if c.forward {
                    r.packets_in
                } else {
                    sat_add(r.packets_in, 1)
                },
                bytes_out: if c.forward {
                    sat_add(r.bytes_out, c.bytes)
                } else {
                    r.bytes_out
                },
                bytes_in: if c.forward {
                    r.bytes_in
                } else {
                    sat_add(r.bytes_in, c.bytes)
                },
                ..r
            };
            self.records.set(i, updated);
            i
        } else {
            let idx = self.records.len();
            let fresh = FlowRecord {
                key: c.key,
                first_seen: ts,
                last_seen: ts,
                packets_out: if c.forward {
                    1
                } else {
                    0
                },
                packets_in: if c.forward {
                    0
                } else {
                    1
                },
                bytes_out: if c.forward {
                    c.bytes
                } else {
                    0
                },
                bytes_in: if c.forward {
                    0
                } else {
                    c.bytes
                },
                app_protocol: c.app,
                country: CountryCode { c0: 90, c1: 90 },
                traffic_direction: c.direction,
                remote: c.remote,
                index: idx,
            };
            self.records.push(fresh);
            idx
        }
    }

    /// The record at `index`, if the table has one.
    pub fn get(&self, index: usize) -> (r: Option<&FlowRecord>)
        ensures
            match r {
                Some(rec) => index < self@.len() && *rec == self@[index as int],
                None => index >= self@.len(),
            },
    {
        if index < self.records.len() {
            Some(&self.records[index])
        } else {
            None
        }
    }

    /// Record the resolved country of the flow at `index`; the placeholder
    /// stays if the table has no such flow. Nothing else changes.
    pub fn set_country(&mut self, index: usize, country: CountryCode)
        requires
            old(self).wf(),
        ensures
            index < old(self)@.len() ==> final(self)@ == old(self)@.update(
                index as int,
                FlowRecord { country, ..old(self)@[index as int] },
            ),
            index >= old(self)@.len() ==> final(self)@ == old(self)@,
            final(self).wf(),
    {
        if index < self.records.len() {
            let r = self.records[index];
            self.records.set(index, FlowRecord { country, ..r });
        }
    }

    /// An internally consistent copy of the whole table, in creation order,
    /// for the read-only view side.
    pub fn snapshot(&self) -> (s: Vec<FlowRecord>)
        ensures
            s@ == self@,
    {
        let n = self.records.len();
        let mut out: Vec<FlowRecord> = Vec::new();
        let mut i: usize = 0;
        while i < n
            invariant
                i <= n,
                n == self@.len(),
                out@ == self@.subrange(0, i as int),
            decreases n - i,
        {
            out.push(self.records[i]);
            assert(out@ == self@.subrange(0, i + 1 as int));
            i += 1;
        }
        assert(self@.subrange(0, n as int) == self@);
        out
    }
}

} // verus!
