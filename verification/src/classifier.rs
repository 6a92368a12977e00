//! The packet classifier: turns one raw link-layer frame into a canonical
//! flow key, a direction, protocol tags and a byte count, or a discard
//! reason. The byte-level meaning of every accepted frame is fixed by the
//! spec functions of this module.

use vstd::prelude::*;
use crate::flow::{
    endpoint_le, Address, AppProtocol, FlowKey, TrafficDirection, TransProtocol,
};

verus! {

/// The link type of a frame delivered by the capture device, as the capture
/// library numbers them; Ethernet is `1`.
pub const LINK_ETHERNET: u16 = 1;

/// Why a frame was dropped instead of classified.
#[derive(Clone, Copy, Debug, PartialEq, Eq, Structural)]
pub enum DiscardReason {
    /// The frame ends before the headers it announces.
    Truncated,
    /// The link layer is not one the classifier understands.
    UnsupportedLink,
    /// The frame does not carry a valid IPv4 or IPv6 packet.
    NotIp,
}

/// The classifier's verdict on one accepted frame.
#[derive(Clone, Copy, Debug, PartialEq, Eq, Structural)]
pub struct ClassifiedPacket {
    /// The canonical flow key.
    pub key: FlowKey,
    /// True when the packet travelled from the key's first endpoint to its
    /// second; decides which counters (out vs in) the packet feeds.
    pub forward: bool,
    /// Direction judged against the local interface addresses.
    pub direction: TrafficDirection,
    /// Application protocol inferred from the well-known ports.
    pub app: AppProtocol,
    /// The whole frame's length in bytes.
    pub bytes: u64,
    /// The non-local endpoint, for geolocation and favorite matching.
    pub remote: Address,
}

/// The big-endian 16-bit value at offset `i`.
pub open spec fn be16(b: Seq<u8>, i: int) -> u16 {
    (b[i] * 0x100 + b[i + 1]) as u16
}

/// The big-endian 32-bit value at offset `i`.
pub open spec fn be32(b: Seq<u8>, i: int) -> u32 {
    (b[i] * 0x1000000 + b[i + 1] * 0x10000 + b[i + 2] * 0x100 + b[i + 3]) as u32
}

/// The big-endian 64-bit value at offset `i`.
pub open spec fn be64(b: Seq<u8>, i: int) -> u64 {
    (b[i] * 0x100000000000000 + b[i + 1] * 0x1000000000000 + b[i + 2] * 0x10000000000
        + b[i + 3] * 0x100000000 + b[i + 4] * 0x1000000 + b[i + 5] * 0x10000 + b[i + 6] * 0x100
        + b[i + 7]) as u64
}

/// The big-endian 128-bit value at offset `i`.
pub open spec fn be128(b: Seq<u8>, i: int) -> u128 {
    (be64(b, i) * 0x10000000000000000 + be64(b, i + 8)) as u128
}

/// The application protocol a single well-known port announces.
pub open spec fn app_of_port(port: u16, proto: TransProtocol) -> AppProtocol {
    if port == 53 {
        AppProtocol::Dns
    } else if port == 80 {
        AppProtocol::Http
    } else if port == 443 && proto == TransProtocol::Tcp {
        AppProtocol::Https
    } else if port == 443 && proto == TransProtocol::Udp {
        AppProtocol::Quic
    } else if port == 22 {
        AppProtocol::Ssh
    } else if port == 853 && proto == TransProtocol::Tcp {
        AppProtocol::Tls
    } else {
        AppProtocol::Unknown
    }
}

/// The application protocol of a packet: the destination port decides if it
/// is well known, else the source port; ambiguity ends in `Unknown`.
pub open spec fn app_of_ports(sp: u16, dp: u16, proto: TransProtocol) -> AppProtocol {
    if app_of_port(dp, proto) != AppProtocol::Unknown {
        app_of_port(dp, proto)
    } else {
        app_of_port(sp, proto)
    }
}

/// Whether `a` is one of the local interface addresses.
pub open spec fn is_local(locals: Seq<Address>, a: Address) -> bool {
    exists|i: int| 0 <= i < locals.len() && locals[i] == a
}

/// Traffic direction of a packet from `src` to `dst`. Traffic addressed to
/// neither local endpoint is treated as inbound.
pub open spec fn direction_of(locals: Seq<Address>, src: Address, dst: Address)
    -> TrafficDirection {
    if dst.is_multicast_spec() {
        TrafficDirection::Multicast
    } else if is_local(locals, src) && is_local(locals, dst) {
        TrafficDirection::LocalToLocal
    } else if is_local(locals, src) {
        TrafficDirection::LocalToRemote
    } else {
        TrafficDirection::RemoteToLocal
    }
}

/// The non-local endpoint of a packet; the destination when both or neither
/// endpoint is local.
pub open spec fn remote_of(locals: Seq<Address>, src: Address, dst: Address) -> Address {
    if !is_local(locals, src) && is_local(locals, dst) {
        src
    } else {
        dst
    }
}

/// The canonical key of a packet, and whether the packet travelled in the
/// key's own orientation (lower endpoint first).
pub open spec fn canonical(src: Address, sp: u16, dst: Address, dp: u16, proto: TransProtocol)
    -> (FlowKey, bool) {
    if endpoint_le(src, sp, dst, dp) {
        (FlowKey { addr_a: src, port_a: sp, addr_b: dst, port_b: dp, proto }, true)
    } else {
        (FlowKey { addr_a: dst, port_a: dp, addr_b: src, port_b: sp, proto }, false)
    }
}

/// The classifier's verdict assembled from the parsed fields of a frame.
pub open spec fn assemble(
    locals: Seq<Address>,
    frame: Seq<u8>,
    src: Address,
    sp: u16,
    dst: Address,
    dp: u16,
    proto: TransProtocol,
) -> ClassifiedPacket {
    ClassifiedPacket {
        key: canonical(src, sp, dst, dp, proto).0,
        forward: canonical(src, sp, dst, dp, proto).1,
        direction: direction_of(locals, src, dst),
        app: app_of_ports(sp, dp, proto),
        bytes: frame.len() as u64,
        remote: remote_of(locals, src, dst),
    }
}

/// Classification of an Ethernet frame whose ethertype announced IPv4.
pub open spec fn classify_v4_spec(locals: Seq<Address>, frame: Seq<u8>)
    -> Result<ClassifiedPacket, DiscardReason> {
    if frame.len() < 34 {
        Err(DiscardReason::Truncated)
    } else {
        let ihl = frame[14] & 0x0f;
        if frame[14] >> 4 != 4 || ihl < 5 {
            Err(DiscardReason::NotIp)
        } else if frame.len() < 14 + 4 * ihl {
            Err(DiscardReason::Truncated)
        } else {
            let src = Address::V4(be32(frame, 26));
            let dst = Address::V4(be32(frame, 30));
            let proto_num = frame[23];
            if proto_num == 6 || proto_num == 17 {
                let hdr = 14 + 4 * (ihl as int);
                if frame.len() < hdr + 4 {
                    Err(DiscardReason::Truncated)
                } else {
                    Ok(assemble(
                        locals,
                        frame,
                        src,
                        be16(frame, hdr),
                        dst,
                        be16(frame, hdr + 2),
                        if proto_num == 6 { TransProtocol::Tcp } else { TransProtocol::Udp },
                    ))
                }
            } else {
                Ok(assemble(
                    locals,
                    frame,
                    src,
                    0,
                    dst,
                    0,
                    if proto_num == 1 { TransProtocol::Icmp } else { TransProtocol::Other },
                ))
            }
        }
    }
}

/// Classification of an Ethernet frame whose ethertype announced IPv6.
pub open spec fn classify_v6_spec(locals: Seq<Address>, frame: Seq<u8>)
    -> Result<ClassifiedPacket, DiscardReason> {
    if frame.len() < 54 {
        Err(DiscardReason::Truncated)
    } else if frame[14] >> 4 != 6 {
        Err(DiscardReason::NotIp)
    } else {
        let src = Address::V6(be128(frame, 22));
        let dst = Address::V6(be128(frame, 38));
        let next = frame[20];
        if next == 6 || next == 17 {
            if frame.len() < 58 {
                Err(DiscardReason::Truncated)
            } else {
                Ok(assemble(
                    locals,
                    frame,
                    src,
                    be16(frame, 54),
                    dst,
                    be16(frame, 56),
                    if next == 6 { TransProtocol::Tcp } else { TransProtocol::Udp },
                ))
            }
        } else {
            Ok(assemble(
                locals,
                frame,
                src,
                0,
                dst,
                0,
                if next == 58 { TransProtocol::Icmp } else { TransProtocol::Other },
            ))
        }
    }
}

/// What the classifier says of one frame: the single place where the
/// accepted wire format is written down.
pub open spec fn classify_spec(locals: Seq<Address>, frame: Seq<u8>, link: u16)
    -> Result<ClassifiedPacket, DiscardReason> {
    if link != LINK_ETHERNET {
        Err(DiscardReason::UnsupportedLink)
    } else if frame.len() < 14 {
        Err(DiscardReason::Truncated)
    } else {
        let ethertype = be16(frame, 12);
        if ethertype == 0x0800 {
            classify_v4_spec(locals, frame)
        } else if ethertype == 0x86dd {
            classify_v6_spec(locals, frame)
        } else {
            Err(DiscardReason::NotIp)
        }
    }
}

fn read_be16(b: &Vec<u8>, i: usize) -> (r: u16)
    requires
        i + 2 <= b.len(),
    ensures
        r == be16(b@, i as int),
{
    (b[i] as u16) * 0x100 + (b[i + 1] as u16)
}

fn read_be32(b: &Vec<u8>, i: usize) -> (r: u32)
    requires
        i + 4 <= b.len(),
    ensures
        r == be32(b@, i as int),
{
    (b[i] as u32) * 0x1000000 + (b[i + 1] as u32) * 0x10000 + (b[i + 2] as u32) * 0x100
        + (b[i + 3] as u32)
}

fn read_be64(b: &Vec<u8>, i: usize) -> (r: u64)
    requires
        i + 8 <= b.len(),
    ensures
        r == be64(b@, i as int),
{
    (b[i] as u64) * 0x100000000000000 + (b[i + 1] as u64) * 0x1000000000000
        + (b[i + 2] as u64) * 0x10000000000 + (b[i + 3] as u64) * 0x100000000
        + (b[i + 4] as u64) * 0x1000000 + (b[i + 5] as u64) * 0x10000 + (b[i + 6] as u64) * 0x100
        + (b[i + 7] as u64)
}

fn read_be128(b: &Vec<u8>, i: usize) -> (r: u128)
    requires
        i + 16 <= b.len(),
    ensures
        r == be128(b@, i as int),
{
    let hi = read_be64(b, i);
    let lo = read_be64(b, i + 8);
    (hi as u128) * 0x10000000000000000 + (lo as u128)
}

fn endpoint_le_exec(a: &Address, pa: u16, b: &Address, pb: u16) -> (r: bool)
    ensures
        r == endpoint_le(*a, pa, *b, pb),
{
    if a.lt(b) {
        true
    } else {
        *a == *b && pa <= pb
    }
}

fn app_of_port_exec(port: u16, proto: TransProtocol) -> (r: AppProtocol)
    ensures
        r == app_of_port(port, proto),
{
    if port == 53 {
        AppProtocol::Dns
    } else if port == 80 {
        AppProtocol::Http
    } else if port == 443 && proto == TransProtocol::Tcp {
        AppProtocol::Https
    } else if port == 443 && proto == TransProtocol::Udp {
        AppProtocol::Quic
    } else if port == 22 {
        AppProtocol::Ssh
    } else if port == 853 && proto == TransProtocol::Tcp {
        AppProtocol::Tls
    } else {
        AppProtocol::Unknown
    }
}

fn app_of_ports_exec(sp: u16, dp: u16, proto: TransProtocol) -> (r: AppProtocol)
    ensures
        r == app_of_ports(sp, dp, proto),
{
    let by_dst = app_of_port_exec(dp, proto);
    if by_dst != AppProtocol::Unknown {
        by_dst
    } else {
        app_of_port_exec(sp, proto)
    }
}

/// The classifier, configured at capture start with the local interface
/// addresses that decide traffic direction.
pub struct Classifier {
    pub locals: Vec<Address>,
}

impl Classifier {
    pub fn new(locals: Vec<Address>) -> (r: Classifier)
        ensures
            r.locals@ == locals@,
    {
        Classifier { locals }
    }

    fn is_local_exec(&self, a: &Address) -> (r: bool)
        ensures
            r == is_local(self.locals@, *a),
    {
        let n = self.locals.len();
        let mut i: usize = 0;
        while i < n
            invariant
                i <= n,
                n == self.locals@.len(),
                forall|j: int| 0 <= j < i ==> self.locals@[j] != *a,
            decreases n - i,
        {
            if self.locals[i] == *a {
                assert(self.locals@[i as int] == *a);
                return true;
            }
            i += 1;
        }
        false
    }

    fn direction_exec(&self, src: &Address, dst: &Address) -> (r: TrafficDirection)
        ensures
            r == direction_of(self.locals@, *src, *dst),
    {
        if dst.is_multicast() {
            TrafficDirection::Multicast
        } else {
            let src_local = self.is_local_exec(src);
            let dst_local = self.is_local_exec(dst);
            if src_local && dst_local {
                TrafficDirection::LocalToLocal
            } else if src_local {
                TrafficDirection::LocalToRemote
            } else {
                TrafficDirection::RemoteToLocal
            }
        }
    }

    fn remote_exec(&self, src: &Address, dst: &Address) -> (r: Address)
        ensures
            r == remote_of(self.locals@, *src, *dst),
    {
        if !self.is_local_exec(src) && self.is_local_exec(dst) {
            *src
        } else {
            *dst
        }
    }

    fn assemble_exec(
        &self,
        frame: &Vec<u8>,
        src: Address,
        sp: u16,
        dst: Address,
        dp: u16,
        proto: TransProtocol,
    ) -> (r: ClassifiedPacket)
        ensures
            r == assemble(self.locals@, frame@, src, sp, dst, dp, proto),
    {
        let (key, forward) = if endpoint_le_exec(&src, sp, &dst, dp) {
            (FlowKey { addr_a: src, port_a: sp, addr_b: dst, port_b: dp, proto }, true)
        } else {
            (FlowKey { addr_a: dst, port_a: dp, addr_b: src, port_b: sp, proto }, false)
        };
        ClassifiedPacket {
            key,
            forward,
            direction: self.direction_exec(&src, &dst),
            app: app_of_ports_exec(sp, dp, proto),
            bytes: frame.len() as u64,
            remote: self.remote_exec(&src, &dst),
        }
    }

    /// Classify one captured frame. The whole verdict — acceptance, discard
    /// reason, key, direction, tags and byte count — is the one
    /// `classify_spec` gives for the frame's bytes.
    pub fn classify(&self, frame: &Vec<u8>, link: u16) -> (r: Result<
        ClassifiedPacket,
        DiscardReason,
    >)
        ensures
            r == classify_spec(self.locals@, frame@, link),
            r matches Ok(c) ==> c.key.wf(),
    {
        let verdict = self.classify_inner(frame, link);
        proof {
            lemma_classify_spec_wf(self.locals@, frame@, link);
        }
        verdict
    }

    fn classify_inner(&self, frame: &Vec<u8>, link: u16) -> (r: Result<
        ClassifiedPacket,
        DiscardReason,
    >)
        ensures
            r == classify_spec(self.locals@, frame@, link),
    {
        if link != LINK_ETHERNET {
            return Err(DiscardReason::UnsupportedLink);
        }
        if frame.len() < 14 {
            return Err(DiscardReason::Truncated);
        }
        let ethertype = read_be16(frame, 12);
        if ethertype == 0x0800 {
            self.classify_v4(frame)
        } else if ethertype == 0x86dd {
            self.classify_v6(frame)
        } else {
            Err(DiscardReason::NotIp)
        }
    }

    fn classify_v4(&self, frame: &Vec<u8>) -> (r: Result<ClassifiedPacket, DiscardReason>)
        ensures
            r == classify_v4_spec(self.locals@, frame@),
    {
        if frame.len() < 34 {
            return Err(DiscardReason::Truncated);
        }
        let first = frame[14];
        let ihl = first & 0x0f;
        if first >> 4 != 4 || ihl < 5 {
            return Err(DiscardReason::NotIp);
        }
        if frame.len() < 14 + 4 * (ihl as usize) {
            return Err(DiscardReason::Truncated);
        }
        let src = Address::V4(read_be32(frame, 26));
        let dst = Address::V4(read_be32(frame, 30));
        let proto_num = frame[23];
        if proto_num == 6 || proto_num == 17 {
            let hdr = 14 + 4 * (ihl as usize);
            if frame.len() < hdr + 4 {
                return Err(DiscardReason::Truncated);
            }
            let sp = read_be16(frame, hdr);
            let dp = read_be16(frame, hdr + 2);
            let proto = if proto_num == 6 { TransProtocol::Tcp } else { TransProtocol::Udp };
            Ok(self.assemble_exec(frame, src, sp, dst, dp, proto))
        } else {
            let proto = if proto_num == 1 { TransProtocol::Icmp } else { TransProtocol::Other };
            Ok(self.assemble_exec(frame, src, 0, dst, 0, proto))
        }
    }

    fn classify_v6(&self, frame: &Vec<u8>) -> (r: Result<ClassifiedPacket, DiscardReason>)
        ensures
            r == classify_v6_spec(self.locals@, frame@),
    {
        if frame.len() < 54 {
            return Err(DiscardReason::Truncated);
        }
        if frame[14] >> 4 != 6 {
            return Err(DiscardReason::NotIp);
        }
        let src = Address::V6(read_be128(frame, 22));
        let dst = Address::V6(read_be128(frame, 38));
        let next = frame[20];
        if next == 6 || next == 17 {
            if frame.len() < 58 {
                return Err(DiscardReason::Truncated);
            }
            let sp = read_be16(frame, 54);
            let dp = read_be16(frame, 56);
            let proto = if next == 6 { TransProtocol::Tcp } else { TransProtocol::Udp };
            Ok(self.assemble_exec(frame, src, sp, dst, dp, proto))
        } else {
            let proto = if next == 58 { TransProtocol::Icmp } else { TransProtocol::Other };
            Ok(self.assemble_exec(frame, src, 0, dst, 0, proto))
        }
    }
}

/// Every packet the classifier accepts carries a canonical (well-formed)
/// flow key.
pub proof fn lemma_classify_spec_wf(locals: Seq<Address>, frame: Seq<u8>, link: u16)
    ensures
        classify_spec(locals, frame, link) matches Ok(c) ==> c.key.wf(),
{
}

} // verus!
