//! Bidirectional flows: the running counters, per-update deltas with a
//! short-term throughput estimate, and the persistence flags.

use crate::fields::TrafficType;
use vstd::prelude::*;

verus! {

/// An idle gap of this many seconds or more zeroes the rate estimate.
pub const CONN_TIMEOUT_SEC: i64 = 3900;

/// The delta ring keeps at most this many entries.
pub const MAX_DELTAS: usize = 64;

/// One update observed on a flow: the increment and the rate derived for it.
#[derive(Clone, Copy, PartialEq, Eq, Structural, Debug)]
pub struct NetFlowDelta {
    pub updated_time: i64,
    pub in_octets: u64,
    pub in_pkts: u64,
    pub bps: u64,
    pub pps: u64,
}

/// One bidirectional conversation for one sender: endpoints, protocol,
/// monotonic counters, classification, the bounded delta history and the
/// persistence flags.
#[derive(Clone, Debug)]
pub struct NetFlow {
    pub src_ip: u32,
    pub dst_ip: u32,
    pub src_port: u16,
    pub dst_port: u16,
    pub protocol: u8,
    pub in_octets: u64,
    pub in_packets: u64,
    pub in_db: bool,
    pub needs_db_update: bool,
    pub traffic_type: TrafficType,
    pub deltas: Vec<NetFlowDelta>,
    pub created_time: i64,
}

/// The mathematical shape of a flow.
#[verifier::ext_equal]
pub ghost struct FlowModel {
    pub src_ip: u32,
    pub dst_ip: u32,
    pub src_port: u16,
    pub dst_port: u16,
    pub protocol: u8,
    pub in_octets: u64,
    pub in_packets: u64,
    pub in_db: bool,
    pub needs_db_update: bool,
    pub traffic_type: TrafficType,
    pub deltas: Seq<NetFlowDelta>,
    pub created_time: i64,
}

impl View for NetFlow {
    type V = FlowModel;

    open spec fn view(&self) -> FlowModel {
        FlowModel {
            src_ip: self.src_ip,
            dst_ip: self.dst_ip,
            src_port: self.src_port,
            dst_port: self.dst_port,
            protocol: self.protocol,
            in_octets: self.in_octets,
            in_packets: self.in_packets,
            in_db: self.in_db,
            needs_db_update: self.needs_db_update,
            traffic_type: self.traffic_type,
            deltas: self.deltas@,
            created_time: self.created_time,
        }
    }
}

/// A flow is well formed when its delta history is bounded, its timestamps
/// are non-negative and in non-decreasing order.
pub open spec fn spec_flow_wf(f: NetFlow) -> bool {
    &&& f.deltas@.len() <= MAX_DELTAS
    &&& forall|i: int| 0 <= i < f.deltas@.len() ==> 0 <= (#[trigger] f.deltas@[i]).updated_time
        <= i64::MAX - 60
    &&& forall|i: int, j: int|
        0 <= i <= j < f.deltas@.len() ==> (#[trigger] f.deltas@[i]).updated_time
            <= (#[trigger] f.deltas@[j]).updated_time
}

/// The instant the rate estimate compares the newest delta against: the
/// second-newest delta's time, or one minute before the newest when the
/// history holds fewer than two.
pub open spec fn spec_throughput_old_time(deltas: Seq<NetFlowDelta>) -> int
    recommends
        deltas.len() > 0,
{
    if deltas.len() >= 2 {
        deltas[deltas.len() - 2].updated_time as int
    } else {
        deltas[deltas.len() - 1].updated_time - 60
    }
}

/// The rate a counter increment earns over a gap of `dt` seconds: an idle
/// gap of `CONN_TIMEOUT_SEC` or more zeroes it; a positive increment over a
/// positive shorter gap is averaged; otherwise the previous value stands.
pub open spec fn spec_new_rate(old_rate: u64, amount: u64, dt: int) -> int {
    if dt >= CONN_TIMEOUT_SEC {
        0
    } else if 0 < dt && amount > 0 {
        amount as int / dt
    } else {
        old_rate as int
    }
}

impl NetFlow {
    /// Recomputes the newest delta's `bps`/`pps` from the gap between the
    /// two newest updates, per the rate rule of `spec_new_rate`. Everything
    /// else about the flow is unchanged.
    pub fn update_throughput(&mut self)
        requires
            old(self).deltas@.len() > 0,
            spec_flow_wf(*old(self)),
        ensures
            spec_flow_wf(*final(self)),
            final(self).deltas@.len() == old(self).deltas@.len(),
            forall|i: int|
                0 <= i < old(self).deltas@.len() - 1 ==> final(self).deltas@[i] == old(
                    self,
                ).deltas@[i],
            ({
                let last = old(self).deltas@.last();
                let dt = last.updated_time - spec_throughput_old_time(old(self).deltas@);
                final(self).deltas@.last() == NetFlowDelta {
                    bps: spec_new_rate(last.bps, last.in_octets, dt) as u64,
                    pps: spec_new_rate(last.pps, last.in_pkts, dt) as u64,
                    ..last
                }
            }),
            final(self).src_ip == old(self).src_ip,
            final(self).dst_ip == old(self).dst_ip,
            final(self).src_port == old(self).src_port,
            final(self).dst_port == old(self).dst_port,
            final(self).protocol == old(self).protocol,
            final(self).in_octets == old(self).in_octets,
            final(self).in_packets == old(self).in_packets,
            final(self).in_db == old(self).in_db,
            final(self).needs_db_update == old(self).needs_db_update,
            final(self).traffic_type == old(self).traffic_type,
            final(self).created_time == old(self).created_time,
    {
        let n = self.deltas.len();
        let last = self.deltas[n - 1];
        let current_time = last.updated_time;
        let old_time = if n >= 2 {
            self.deltas[n - 2].updated_time
        } else {
            current_time - 60
        };
        let diff_sec = crate::utils::get_time_delta_in_sec(current_time, old_time);
        let new_bps: u64 = if diff_sec >= CONN_TIMEOUT_SEC {
            0
        } else if 0 < diff_sec && last.in_octets > 0 {
            last.in_octets / (diff_sec as u64)
        } else {
            last.bps
        };
        let new_pps: u64 = if diff_sec >= CONN_TIMEOUT_SEC {
            0
        } else if 0 < diff_sec && last.in_pkts > 0 {
            last.in_pkts / (diff_sec as u64)
        } else {
            last.pps
        };
        let updated = NetFlowDelta { bps: new_bps, pps: new_pps, ..last };
        self.deltas.set(n - 1, updated);
    }

    /// Appends one delta to the history, evicting the oldest entry when the
    /// ring is full. The new entry must not be older than the newest one.
    pub fn push_delta(&mut self, d: NetFlowDelta)
        requires
            spec_flow_wf(*old(self)),
            0 <= d.updated_time <= i64::MAX - 60,
            old(self).deltas@.len() > 0 ==> old(self).deltas@.last().updated_time
                <= d.updated_time,
        ensures
            spec_flow_wf(*final(self)),
            final(self).deltas@.len() > 0,
            final(self).deltas@.last() == d,
            old(self).deltas@.len() < MAX_DELTAS ==> final(self).deltas@ == old(
                self,
            ).deltas@.push(d),
            old(self).deltas@.len() == MAX_DELTAS ==> final(self).deltas@ == old(
                self,
            ).deltas@.drop_first().push(d),
            final(self).src_ip == old(self).src_ip,
            final(self).dst_ip == old(self).dst_ip,
            final(self).src_port == old(self).src_port,
            final(self).dst_port == old(self).dst_port,
            final(self).protocol == old(self).protocol,
            final(self).in_octets == old(self).in_octets,
            final(self).in_packets == old(self).in_packets,
            final(self).in_db == old(self).in_db,
            final(self).needs_db_update == old(self).needs_db_update,
            final(self).traffic_type == old(self).traffic_type,
            final(self).created_time == old(self).created_time,
    {
        if self.deltas.len() == MAX_DELTAS {
            self.deltas.remove(0);
            proof {
                assert(self.deltas@ =~= old(self).deltas@.drop_first());
            }
        }
        self.deltas.push(d);
    }
}

} // verus!
