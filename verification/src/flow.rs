//! Data model of the flow table: addresses, protocols, flow keys and flow
//! records.

use vstd::prelude::*;

verus! {

/// An IPv4 or IPv6 address, held as its numeric (big-endian) value.
#[derive(Clone, Copy, Debug, PartialEq, Eq, Structural)]
pub enum Address {
    V4(u32),
    V6(u128),
}

impl Address {
    /// Total strict order on addresses: every IPv4 address sorts before
    /// every IPv6 address; within one family the numeric values decide.
    pub open spec fn lt_spec(self, other: Address) -> bool {
        match (self, other) {
            (Address::V4(a), Address::V4(b)) => a < b,
            (Address::V4(_), Address::V6(_)) => true,
            (Address::V6(_), Address::V4(_)) => false,
            (Address::V6(a), Address::V6(b)) => a < b,
        }
    }

    pub fn lt(&self, other: &Address) -> (r: bool)
        ensures
            r == self.lt_spec(*other),
    {
        match (self, other) {
            (Address::V4(a), Address::V4(b)) => a < b,
            (Address::V4(_), Address::V6(_)) => true,
            (Address::V6(_), Address::V4(_)) => false,
            (Address::V6(a), Address::V6(b)) => a < b,
        }
    }

    /// A multicast destination: `224.0.0.0/4` for IPv4, `ff00::/8` for IPv6.
    pub open spec fn is_multicast_spec(self) -> bool {
        match self {
            Address::V4(a) => a >> 28 == 0xe,
            Address::V6(a) => a >> 120 == 0xff,
        }
    }

    pub fn is_multicast(&self) -> (r: bool)
        ensures
            r == self.is_multicast_spec(),
    {
        match self {
            Address::V4(a) => *a >> 28 == 0xe,
            Address::V6(a) => *a >> 120 == 0xff,
        }
    }
}

/// `(a, pa)` is the lower endpoint, or equal: the order that decides which
/// endpoint stands first in a canonical flow key.
pub open spec fn endpoint_le(a: Address, pa: u16, b: Address, pb: u16) -> bool {
    a.lt_spec(b) || (a == b && pa <= pb)
}

/// The transport-layer protocol of a flow.
#[derive(Clone, Copy, Debug, PartialEq, Eq, Structural)]
pub enum TransProtocol {
    Tcp,
    Udp,
    Icmp,
    Other,
}

/// The application-layer protocol tag, inferred from well-known ports.
#[derive(Clone, Copy, Debug, PartialEq, Eq, Structural)]
pub enum AppProtocol {
    Http,
    Https,
    Dns,
    Tls,
    Ssh,
    Quic,
    Unknown,
}

/// Where the traffic of a flow goes, judged from the first observed packet
/// against the local interface addresses.
#[derive(Clone, Copy, Debug, PartialEq, Eq, Structural)]
pub enum TrafficDirection {
    LocalToRemote,
    RemoteToLocal,
    LocalToLocal,
    Multicast,
}

/// An ISO-3166 alpha-2 country code held as its two ASCII bytes;
/// `ZZ` stands for "unresolved".
#[derive(Clone, Copy, Debug, PartialEq, Eq, Structural)]
pub struct CountryCode {
    pub c0: u8,
    pub c1: u8,
}

impl CountryCode {
    /// The placeholder for an address whose country is not (yet) known.
    pub fn unresolved() -> (r: CountryCode)
        ensures
            r == (CountryCode { c0: 90u8, c1: 90u8 }),
    {
        CountryCode { c0: 90, c1: 90 }
    }
}

/// The canonical 5-tuple identifying a flow independent of packet direction:
/// the lower endpoint (by address, then port) stands first.
#[derive(Clone, Copy, Debug, PartialEq, Eq, Structural)]
pub struct FlowKey {
    pub addr_a: Address,
    pub port_a: u16,
    pub addr_b: Address,
    pub port_b: u16,
    pub proto: TransProtocol,
}

impl FlowKey {
    /// A key is well formed when it is canonical.
    pub open spec fn wf(self) -> bool {
        endpoint_le(self.addr_a, self.port_a, self.addr_b, self.port_b)
    }
}

/// One flow of the table: its key, counters, timestamps, classification and
/// enrichment. `index` is assigned at creation and never reused.
#[derive(Clone, Copy, Debug, PartialEq, Eq, Structural)]
pub struct FlowRecord {
    pub key: FlowKey,
    pub first_seen: u64,
    pub last_seen: u64,
    pub packets_out: u64,
    pub packets_in: u64,
    pub bytes_out: u64,
    pub bytes_in: u64,
    pub app_protocol: AppProtocol,
    pub country: CountryCode,
    pub traffic_direction: TrafficDirection,
    /// The non-local endpoint, kept for geolocation and favorite matching.
    pub remote: Address,
    pub index: usize,
}

impl FlowRecord {
    /// Record invariant: a canonical key, ordered timestamps, and at least
    /// one packet counted.
    pub open spec fn wf(self) -> bool {
        &&& self.key.wf()
        &&& self.first_seen <= self.last_seen
        &&& self.packets_out + self.packets_in >= 1
    }
}

/// `a + b`, clamped at `u64::MAX`: the counters of a record never wrap.
pub open spec fn sat_add_spec(a: u64, b: u64) -> u64 {
    if a + b <= u64::MAX {
        (a + b) as u64
    } else {
        u64::MAX
    }
}

pub fn sat_add(a: u64, b: u64) -> (r: u64)
    ensures
        r == sat_add_spec(a, b),
{
    if a <= u64::MAX - b {
        a + b
    } else {
        u64::MAX
    }
}

} // verus!
