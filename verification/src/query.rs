//! The reader query surface: the client-side folds over flow rows the row
//! store hands back — per-host, per-port and per-protocol aggregations, the
//! JSON row shapes, the display table's cells and the statement the reader
//! runs. The caller fetches the rows; everything computed from them is
//! verified here.

use crate::fields::TrafficType;
use crate::settings::FlowsToShow;
use crate::settings::ServerSettings;
use crate::settings::SortBy;
use crate::utils::handle_icmp_code;
use crate::utils::i32_to_string;
use crate::utils::spec_i32_chars;
use crate::utils::spec_icmp_label;
use crate::utils::spec_icmp_zeroed;
use vstd::prelude::*;

verus! {

/// One row of the flows table, in the columns the reader uses.
#[derive(Clone, Debug)]
pub struct FlowRow {
    pub sender_ip: String,
    pub src_addr: String,
    pub dst_addr: String,
    pub protocol: i32,
    pub src_port: i32,
    pub dst_port: i32,
    pub in_pkts: i32,
    pub in_bytes: i32,
    pub traffic_type: String,
}

/// The mathematical shape of a flow row.
pub ghost struct FlowRowModel {
    pub sender_ip: Seq<char>,
    pub src_addr: Seq<char>,
    pub dst_addr: Seq<char>,
    pub protocol: int,
    pub src_port: int,
    pub dst_port: int,
    pub in_pkts: int,
    pub in_bytes: int,
    pub traffic_type: Seq<char>,
}

impl View for FlowRow {
    type V = FlowRowModel;

    open spec fn view(&self) -> FlowRowModel {
        FlowRowModel {
            sender_ip: self.sender_ip@,
            src_addr: self.src_addr@,
            dst_addr: self.dst_addr@,
            protocol: self.protocol as int,
            src_port: self.src_port as int,
            dst_port: self.dst_port as int,
            in_pkts: self.in_pkts as int,
            in_bytes: self.in_bytes as int,
            traffic_type: self.traffic_type@,
        }
    }
}

/// A per-host aggregation entry: a source address and its summed octets.
#[derive(Clone, Debug)]
pub struct NetflowBytesJson {
    pub flow_src_ip: String,
    pub flow_bytes: i32,
}

/// The mathematical shape of a per-host octet entry.
pub ghost struct BytesJsonModel {
    pub flow_src_ip: Seq<char>,
    pub flow_bytes: int,
}

impl View for NetflowBytesJson {
    type V = BytesJsonModel;

    open spec fn view(&self) -> BytesJsonModel {
        BytesJsonModel { flow_src_ip: self.flow_src_ip@, flow_bytes: self.flow_bytes as int }
    }
}

/// A per-host aggregation entry: a source address and its summed packets.
#[derive(Clone, Debug)]
pub struct NetflowPacketsJson {
    pub flow_src_ip: String,
    pub flow_packets: i32,
}

/// The mathematical shape of a per-host packet entry.
pub ghost struct PacketsJsonModel {
    pub flow_src_ip: Seq<char>,
    pub flow_packets: int,
}

impl View for NetflowPacketsJson {
    type V = PacketsJsonModel;

    open spec fn view(&self) -> PacketsJsonModel {
        PacketsJsonModel { flow_src_ip: self.flow_src_ip@, flow_packets: self.flow_packets as int }
    }
}

/// A host listed by the reader.
#[derive(Clone, Debug)]
pub struct NetflowIpsJson {
    pub flow_ip: String,
}

/// A per-port or per-protocol aggregation entry.
#[derive(Clone, Copy, PartialEq, Eq, Structural, Debug)]
pub struct NetflowPortsAndProtocolsJson {
    pub flow_src_port: i32,
    pub flow_dst_port: i32,
    pub flow_protocol: i32,
    pub flow_bytes: i32,
}

/// One flow shaped for the JSON surface.
#[derive(Clone, Debug)]
pub struct NetFlowJson {
    pub src_ip: String,
    pub dst_ip: String,
    pub src_port: u16,
    pub dst_port: u16,
    pub protocol: u8,
    pub in_octets: u32,
    pub in_packets: u32,
    pub traffic_type: TrafficType,
    pub icmp: String,
}

/// The mathematical shape of a JSON flow.
pub ghost struct FlowJsonModel {
    pub src_ip: Seq<char>,
    pub dst_ip: Seq<char>,
    pub src_port: u16,
    pub dst_port: u16,
    pub protocol: u8,
    pub in_octets: u32,
    pub in_packets: u32,
    pub traffic_type: TrafficType,
    pub icmp: Seq<char>,
}

impl View for NetFlowJson {
    type V = FlowJsonModel;

    open spec fn view(&self) -> FlowJsonModel {
        FlowJsonModel {
            src_ip: self.src_ip@,
            dst_ip: self.dst_ip@,
            src_port: self.src_port,
            dst_port: self.dst_port,
            protocol: self.protocol,
            in_octets: self.in_octets,
            in_packets: self.in_packets,
            traffic_type: self.traffic_type,
            icmp: self.icmp@,
        }
    }
}

/// A sum clamped into the store's 32-bit signed column.
pub open spec fn spec_clamp_i32(x: int) -> int {
    if x > i32::MAX {
        i32::MAX as int
    } else if x < i32::MIN {
        i32::MIN as int
    } else {
        x
    }
}

/// Adds two 32-bit values with saturation.
fn add_clamp_i32(a: i32, b: i32) -> (r: i32)
    ensures
        r as int == spec_clamp_i32(a as int + b as int),
{
    let s: i64 = a as i64 + b as i64;
    if s > i32::MAX as i64 {
        i32::MAX
    } else if s < i32::MIN as i64 {
        i32::MIN
    } else {
        s as i32
    }
}

/// One (key, amount) pair folded into per-key groups: the first entry with
/// the key absorbs the amount, saturating; an unseen key starts a group.
pub open spec fn spec_group_add(acc: Seq<(Seq<char>, int)>, key: Seq<char>, val: int) -> Seq<
    (Seq<char>, int),
>
    decreases acc.len(),
{
    if acc.len() == 0 {
        seq![(key, val)]
    } else if acc[0].0 == key {
        seq![(acc[0].0, spec_clamp_i32(acc[0].1 + val))] + acc.drop_first()
    } else {
        seq![acc[0]] + spec_group_add(acc.drop_first(), key, val)
    }
}

/// The per-key groups of a pair list, folded left to right.
pub open spec fn spec_groups(pairs: Seq<(Seq<char>, int)>) -> Seq<(Seq<char>, int)>
    decreases pairs.len(),
{
    if pairs.len() == 0 {
        Seq::empty()
    } else {
        spec_group_add(spec_groups(pairs.drop_last()), pairs.last().0, pairs.last().1)
    }
}

/// Folding into groups whose match sits at index `i` updates exactly that
/// entry; folding a key no group carries appends a fresh one.
proof fn lemma_group_add_at(acc: Seq<(Seq<char>, int)>, key: Seq<char>, val: int, i: int)
    requires
        0 <= i <= acc.len(),
        forall|j: int| 0 <= j < i ==> (#[trigger] acc[j]).0 != key,
        i < acc.len() ==> acc[i].0 == key,
    ensures
        i < acc.len() ==> spec_group_add(acc, key, val) == acc.update(
            i,
            (acc[i].0, spec_clamp_i32(acc[i].1 + val)),
        ),
        i == acc.len() ==> spec_group_add(acc, key, val) == acc.push((key, val)),
    decreases i,
{
    if acc.len() == 0 {
        assert(spec_group_add(acc, key, val) =~= acc.push((key, val)));
    } else if i == 0 {
        assert(spec_group_add(acc, key, val) =~= acc.update(
            0,
            (acc[0].0, spec_clamp_i32(acc[0].1 + val)),
        ));
    } else {
        assert(forall|j: int| 0 <= j < i - 1 ==> acc.drop_first()[j] == acc[j + 1]);
        lemma_group_add_at(acc.drop_first(), key, val, i - 1);
        if i < acc.len() {
            assert(acc.drop_first()[i - 1] == acc[i]);
            assert(spec_group_add(acc, key, val) =~= acc.update(
                i,
                (acc[i].0, spec_clamp_i32(acc[i].1 + val)),
            ));
        } else {
            assert(spec_group_add(acc, key, val) =~= acc.push((key, val)));
        }
    }
}

/// The (source address, octets) pairs of a row list.
pub open spec fn spec_bytes_pairs(rows: Seq<FlowRowModel>) -> Seq<(Seq<char>, int)> {
    rows.map_values(|m: FlowRowModel| (m.src_addr, m.in_bytes))
}

/// The (source address, packets) pairs of a row list.
pub open spec fn spec_packets_pairs(rows: Seq<FlowRowModel>) -> Seq<(Seq<char>, int)> {
    rows.map_values(|m: FlowRowModel| (m.src_addr, m.in_pkts))
}

/// Sums octets per source address, in first-seen order.
pub fn get_top_10_flows_by_bytes_as_json(rows: &Vec<FlowRow>) -> (r: Vec<NetflowBytesJson>)
    ensures
        r@.map_values(|j: NetflowBytesJson| j@.flow_src_ip) == spec_groups(
            spec_bytes_pairs(rows@.map_values(|f: FlowRow| f@)),
        ).map_values(|p: (Seq<char>, int)| p.0),
        r@.map_values(|j: NetflowBytesJson| j@.flow_bytes) == spec_groups(
            spec_bytes_pairs(rows@.map_values(|f: FlowRow| f@)),
        ).map_values(|p: (Seq<char>, int)| p.1),
{
    let ghost pairs = spec_bytes_pairs(rows@.map_values(|f: FlowRow| f@));
    let mut out: Vec<NetflowBytesJson> = Vec::new();
    let n = rows.len();
    let mut x: usize = 0;
    proof {
        assert(pairs.take(0) =~= Seq::<(Seq<char>, int)>::empty());
        assert(out@.map_values(|j: NetflowBytesJson| j@.flow_src_ip) =~= Seq::<Seq<char>>::empty());
        assert(out@.map_values(|j: NetflowBytesJson| j@.flow_bytes) =~= Seq::<int>::empty());
    }
    while x < n
        invariant
            x <= n,
            n == rows@.len(),
            pairs == spec_bytes_pairs(rows@.map_values(|f: FlowRow| f@)),
            out@.map_values(|j: NetflowBytesJson| j@.flow_src_ip) == spec_groups(
                pairs.take(x as int),
            ).map_values(|p: (Seq<char>, int)| p.0),
            out@.map_values(|j: NetflowBytesJson| j@.flow_bytes) == spec_groups(
                pairs.take(x as int),
            ).map_values(|p: (Seq<char>, int)| p.1),
        decreases n - x,
    {
        let ghost acc = spec_groups(pairs.take(x as int));
        let key = &rows[x].src_addr;
        let val = rows[x].in_bytes;
        let m = out.len();
        let mut i: usize = 0;
        let mut found = false;
        while i < m
            invariant_except_break
                i <= m,
                m == out@.len(),
                !found,
                forall|j: int| 0 <= j < i ==> (#[trigger] out@[j]).flow_src_ip@ != key@,
            ensures
                i <= m,
                m == out@.len(),
                forall|j: int| 0 <= j < i ==> (#[trigger] out@[j]).flow_src_ip@ != key@,
                found ==> i < m && out@[i as int].flow_src_ip@ == key@,
                !found ==> i == m,
            decreases m - i,
        {
            if out[i].flow_src_ip == *key {
                found = true;
                break ;
            }
            i = i + 1;
        }
        proof {
            assert(out@.map_values(|j: NetflowBytesJson| j@.flow_src_ip).len() == out@.len());
            assert(acc.map_values(|p: (Seq<char>, int)| p.0).len() == acc.len());
            assert(acc.len() == out@.len());
            assert forall|j: int|
                0 <= j < out@.len() implies (#[trigger] acc[j]).0 == out@[j].flow_src_ip@ && acc[
                j].1 == out@[j].flow_bytes as int by {
                assert(out@.map_values(|jj: NetflowBytesJson| jj@.flow_src_ip)[j]
                    == out@[j]@.flow_src_ip);
                assert(acc.map_values(|p: (Seq<char>, int)| p.0)[j] == acc[j].0);
                assert(out@.map_values(|jj: NetflowBytesJson| jj@.flow_bytes)[j]
                    == out@[j]@.flow_bytes);
                assert(acc.map_values(|p: (Seq<char>, int)| p.1)[j] == acc[j].1);
            }
            if found {
                lemma_group_add_at(acc, key@, val as int, i as int);
            } else {
                lemma_group_add_at(acc, key@, val as int, acc.len() as int);
            }
            assert(pairs.take(x as int + 1).drop_last() =~= pairs.take(x as int));
            assert(pairs.take(x as int + 1).last() == pairs[x as int]);
            assert(pairs[x as int] == (rows@[x as int]@.src_addr, rows@[x as int]@.in_bytes));
        }
        if found {
            let updated = NetflowBytesJson {
                flow_src_ip: out[i].flow_src_ip.clone(),
                flow_bytes: add_clamp_i32(out[i].flow_bytes, val),
            };
            out.set(i, updated);
            proof {
                assert(out@.map_values(|j: NetflowBytesJson| j@.flow_src_ip) =~= spec_groups(
                    pairs.take(x as int + 1),
                ).map_values(|p: (Seq<char>, int)| p.0));
                assert(out@.map_values(|j: NetflowBytesJson| j@.flow_bytes) =~= spec_groups(
                    pairs.take(x as int + 1),
                ).map_values(|p: (Seq<char>, int)| p.1));
            }
        } else {
            out.push(NetflowBytesJson { flow_src_ip: key.clone(), flow_bytes: val });
            proof {
                assert(out@.map_values(|j: NetflowBytesJson| j@.flow_src_ip) =~= spec_groups(
                    pairs.take(x as int + 1),
                ).map_values(|p: (Seq<char>, int)| p.0));
                assert(out@.map_values(|j: NetflowBytesJson| j@.flow_bytes) =~= spec_groups(
                    pairs.take(x as int + 1),
                ).map_values(|p: (Seq<char>, int)| p.1));
            }
        }
        x = x + 1;
    }
    proof {
        assert(pairs.take(n as int) =~= pairs);
    }
    out
}

/// Sums packets per source address, in first-seen order.
pub fn get_top_10_flows_by_packets_as_json(rows: &Vec<FlowRow>) -> (r: Vec<NetflowPacketsJson>)
    ensures
        r@.map_values(|j: NetflowPacketsJson| j@.flow_src_ip) == spec_groups(
            spec_packets_pairs(rows@.map_values(|f: FlowRow| f@)),
        ).map_values(|p: (Seq<char>, int)| p.0),
        r@.map_values(|j: NetflowPacketsJson| j@.flow_packets) == spec_groups(
            spec_packets_pairs(rows@.map_values(|f: FlowRow| f@)),
        ).map_values(|p: (Seq<char>, int)| p.1),
{
    let ghost pairs = spec_packets_pairs(rows@.map_values(|f: FlowRow| f@));
    let mut out: Vec<NetflowPacketsJson> = Vec::new();
    let n = rows.len();
    let mut x: usize = 0;
    proof {
        assert(pairs.take(0) =~= Seq::<(Seq<char>, int)>::empty());
        assert(out@.map_values(|j: NetflowPacketsJson| j@.flow_src_ip) =~= Seq::<
            Seq<char>,
        >::empty());
        assert(out@.map_values(|j: NetflowPacketsJson| j@.flow_packets) =~= Seq::<int>::empty());
    }
    while x < n
        invariant
            x <= n,
            n == rows@.len(),
            pairs == spec_packets_pairs(rows@.map_values(|f: FlowRow| f@)),
            out@.map_values(|j: NetflowPacketsJson| j@.flow_src_ip) == spec_groups(
                pairs.take(x as int),
            ).map_values(|p: (Seq<char>, int)| p.0),
            out@.map_values(|j: NetflowPacketsJson| j@.flow_packets) == spec_groups(
                pairs.take(x as int),
            ).map_values(|p: (Seq<char>, int)| p.1),
        decreases n - x,
    {
        let ghost acc = spec_groups(pairs.take(x as int));
        let key = &rows[x].src_addr;
        let val = rows[x].in_pkts;
        let m = out.len();
        let mut i: usize = 0;
        let mut found = false;
        while i < m
            invariant_except_break
                i <= m,
                m == out@.len(),
                !found,
                forall|j: int| 0 <= j < i ==> (#[trigger] out@[j]).flow_src_ip@ != key@,
            ensures
                i <= m,
                m == out@.len(),
                forall|j: int| 0 <= j < i ==> (#[trigger] out@[j]).flow_src_ip@ != key@,
                found ==> i < m && out@[i as int].flow_src_ip@ == key@,
                !found ==> i == m,
            decreases m - i,
        {
            if out[i].flow_src_ip == *key {
                found = true;
                break ;
            }
            i = i + 1;
        }
        proof {
            assert(out@.map_values(|j: NetflowPacketsJson| j@.flow_src_ip).len() == out@.len());
            assert(acc.map_values(|p: (Seq<char>, int)| p.0).len() == acc.len());
            assert(acc.len() == out@.len());
            assert forall|j: int|
                0 <= j < out@.len() implies (#[trigger] acc[j]).0 == out@[j].flow_src_ip@ && acc[
                j].1 == out@[j].flow_packets as int by {
                assert(out@.map_values(|jj: NetflowPacketsJson| jj@.flow_src_ip)[j]
                    == out@[j]@.flow_src_ip);
                assert(acc.map_values(|p: (Seq<char>, int)| p.0)[j] == acc[j].0);
                assert(out@.map_values(|jj: NetflowPacketsJson| jj@.flow_packets)[j]
                    == out@[j]@.flow_packets);
                assert(acc.map_values(|p: (Seq<char>, int)| p.1)[j] == acc[j].1);
            }
            if found {
                lemma_group_add_at(acc, key@, val as int, i as int);
            } else {
                lemma_group_add_at(acc, key@, val as int, acc.len() as int);
            }
            assert(pairs.take(x as int + 1).drop_last() =~= pairs.take(x as int));
            assert(pairs.take(x as int + 1).last() == pairs[x as int]);
            assert(pairs[x as int] == (rows@[x as int]@.src_addr, rows@[x as int]@.in_pkts));
        }
        if found {
            let updated = NetflowPacketsJson {
                flow_src_ip: out[i].flow_src_ip.clone(),
                flow_packets: add_clamp_i32(out[i].flow_packets, val),
            };
            out.set(i, updated);
            proof {
                assert(out@.map_values(|j: NetflowPacketsJson| j@.flow_src_ip) =~= spec_groups(
                    pairs.take(x as int + 1),
                ).map_values(|p: (Seq<char>, int)| p.0));
                assert(out@.map_values(|j: NetflowPacketsJson| j@.flow_packets) =~= spec_groups(
                    pairs.take(x as int + 1),
                ).map_values(|p: (Seq<char>, int)| p.1));
            }
        } else {
            out.push(NetflowPacketsJson { flow_src_ip: key.clone(), flow_packets: val });
            proof {
                assert(out@.map_values(|j: NetflowPacketsJson| j@.flow_src_ip) =~= spec_groups(
                    pairs.take(x as int + 1),
                ).map_values(|p: (Seq<char>, int)| p.0));
                assert(out@.map_values(|j: NetflowPacketsJson| j@.flow_packets) =~= spec_groups(
                    pairs.take(x as int + 1),
                ).map_values(|p: (Seq<char>, int)| p.1));
            }
        }
        x = x + 1;
    }
    proof {
        assert(pairs.take(n as int) =~= pairs);
    }
    out
}

/// Whether a row's interesting port hits an aggregation entry: a source
/// port below the ephemeral range is matched against the entry's source
/// port, else a low destination port against the entry's destination port;
/// a row with neither stands alone. In protocol mode the protocol number
/// decides.
pub open spec fn spec_pp_match(
    e: NetflowPortsAndProtocolsJson,
    r: NetflowPortsAndProtocolsJson,
    by_port: bool,
) -> bool {
    if by_port {
        if r.flow_src_port < 32768 {
            e.flow_src_port == r.flow_src_port
        } else if r.flow_dst_port < 32768 {
            e.flow_dst_port == r.flow_dst_port
        } else {
            false
        }
    } else {
        e.flow_protocol == r.flow_protocol
    }
}

/// One row folded into port or protocol groups: the first matching entry
/// absorbs the octets, saturating; a row matching nothing starts a group.
pub open spec fn spec_pp_add(
    acc: Seq<NetflowPortsAndProtocolsJson>,
    r: NetflowPortsAndProtocolsJson,
    by_port: bool,
) -> Seq<NetflowPortsAndProtocolsJson>
    decreases acc.len(),
{
    if acc.len() == 0 {
        seq![r]
    } else if spec_pp_match(acc[0], r, by_port) {
        seq![
            NetflowPortsAndProtocolsJson {
                flow_bytes: spec_clamp_i32(acc[0].flow_bytes + r.flow_bytes) as i32,
                ..acc[0]
            },
        ] + acc.drop_first()
    } else {
        seq![acc[0]] + spec_pp_add(acc.drop_first(), r, by_port)
    }
}

/// The port or protocol groups of a row list, folded left to right.
pub open spec fn spec_pp_groups(rows: Seq<NetflowPortsAndProtocolsJson>, by_port: bool) -> Seq<
    NetflowPortsAndProtocolsJson,
>
    decreases rows.len(),
{
    if rows.len() == 0 {
        Seq::empty()
    } else {
        spec_pp_add(spec_pp_groups(rows.drop_last(), by_port), rows.last(), by_port)
    }
}

/// Folding into groups whose first match sits at index `i` updates exactly
/// that entry; a row matching nothing appends itself.
proof fn lemma_pp_add_at(
    acc: Seq<NetflowPortsAndProtocolsJson>,
    r: NetflowPortsAndProtocolsJson,
    by_port: bool,
    i: int,
)
    requires
        0 <= i <= acc.len(),
        forall|j: int| 0 <= j < i ==> !spec_pp_match(#[trigger] acc[j], r, by_port),
        i < acc.len() ==> spec_pp_match(acc[i], r, by_port),
    ensures
        i < acc.len() ==> spec_pp_add(acc, r, by_port) == acc.update(
            i,
            NetflowPortsAndProtocolsJson {
                flow_bytes: spec_clamp_i32(acc[i].flow_bytes + r.flow_bytes) as i32,
                ..acc[i]
            },
        ),
        i == acc.len() ==> spec_pp_add(acc, r, by_port) == acc.push(r),
    decreases i,
{
    if acc.len() == 0 {
        assert(spec_pp_add(acc, r, by_port) =~= acc.push(r));
    } else if i == 0 {
        assert(spec_pp_add(acc, r, by_port) =~= acc.update(
            0,
            NetflowPortsAndProtocolsJson {
                flow_bytes: spec_clamp_i32(acc[0].flow_bytes + r.flow_bytes) as i32,
                ..acc[0]
            },
        ));
    } else {
        assert(forall|j: int| 0 <= j < i - 1 ==> acc.drop_first()[j] == acc[j + 1]);
        lemma_pp_add_at(acc.drop_first(), r, by_port, i - 1);
        if i < acc.len() {
            assert(acc.drop_first()[i - 1] == acc[i]);
            assert(spec_pp_add(acc, r, by_port) =~= acc.update(
                i,
                NetflowPortsAndProtocolsJson {
                    flow_bytes: spec_clamp_i32(acc[i].flow_bytes + r.flow_bytes) as i32,
                    ..acc[i]
                },
            ));
        } else {
            assert(spec_pp_add(acc, r, by_port) =~= acc.push(r));
        }
    }
}

/// A flow row reduced to the port and protocol columns.
pub open spec fn spec_pp_of(m: FlowRowModel) -> NetflowPortsAndProtocolsJson {
    NetflowPortsAndProtocolsJson {
        flow_src_port: m.src_port as i32,
        flow_dst_port: m.dst_port as i32,
        flow_protocol: m.protocol as i32,
        flow_bytes: m.in_bytes as i32,
    }
}

/// The shared fold behind the port and protocol aggregations.
fn pp_fold(rows: &Vec<FlowRow>, by_port: bool) -> (r: Vec<NetflowPortsAndProtocolsJson>)
    ensures
        r@ == spec_pp_groups(
            rows@.map_values(|f: FlowRow| f@).map_values(|m: FlowRowModel| spec_pp_of(m)),
            by_port,
        ),
{
    let ghost pp_rows = rows@.map_values(|f: FlowRow| f@).map_values(
        |m: FlowRowModel| spec_pp_of(m),
    );
    let mut out: Vec<NetflowPortsAndProtocolsJson> = Vec::new();
    let n = rows.len();
    let mut x: usize = 0;
    proof {
        assert(pp_rows.take(0) =~= Seq::<NetflowPortsAndProtocolsJson>::empty());
    }
    while x < n
        invariant
            x <= n,
            n == rows@.len(),
            n == pp_rows.len(),
            pp_rows == rows@.map_values(|f: FlowRow| f@).map_values(
                |m: FlowRowModel| spec_pp_of(m),
            ),
            out@ == spec_pp_groups(pp_rows.take(x as int), by_port),
        decreases n - x,
    {
        let ghost acc = out@;
        let row = NetflowPortsAndProtocolsJson {
            flow_src_port: rows[x].src_port,
            flow_dst_port: rows[x].dst_port,
            flow_protocol: rows[x].protocol,
            flow_bytes: rows[x].in_bytes,
        };
        proof {
            assert(pp_rows[x as int] == spec_pp_of(rows@[x as int]@));
            assert(row == pp_rows[x as int]);
        }
        let m = out.len();
        let mut i: usize = 0;
        let mut found = false;
        while i < m
            invariant_except_break
                i <= m,
                m == out@.len(),
                !found,
                forall|j: int| 0 <= j < i ==> !spec_pp_match(#[trigger] out@[j], row, by_port),
            ensures
                i <= m,
                m == out@.len(),
                forall|j: int| 0 <= j < i ==> !spec_pp_match(#[trigger] out@[j], row, by_port),
                found ==> i < m && spec_pp_match(out@[i as int], row, by_port),
                !found ==> i == m,
            decreases m - i,
        {
            let hit: bool = if by_port {
                if row.flow_src_port < 32768 {
                    out[i].flow_src_port == row.flow_src_port
                } else if row.flow_dst_port < 32768 {
                    out[i].flow_dst_port == row.flow_dst_port
                } else {
                    false
                }
            } else {
                out[i].flow_protocol == row.flow_protocol
            };
            if hit {
                found = true;
                break ;
            }
            i = i + 1;
        }
        proof {
            assert(pp_rows.take(x as int + 1).drop_last() =~= pp_rows.take(x as int));
            assert(pp_rows.take(x as int + 1).last() == pp_rows[x as int]);
            if found {
                lemma_pp_add_at(acc, row, by_port, i as int);
            } else {
                lemma_pp_add_at(acc, row, by_port, acc.len() as int);
            }
        }
        if found {
            let updated = NetflowPortsAndProtocolsJson {
                flow_bytes: add_clamp_i32(out[i].flow_bytes, row.flow_bytes),
                ..out[i]
            };
            out.set(i, updated);
        } else {
            out.push(row);
        }
        x = x + 1;
    }
    proof {
        assert(pp_rows.take(n as int) =~= pp_rows);
    }
    out
}

/// Sums octets per interesting port, in first-seen order.
pub fn get_top_10_flows_by_ports_as_json(rows: &Vec<FlowRow>) -> (r: Vec<
    NetflowPortsAndProtocolsJson,
>)
    ensures
        r@ == spec_pp_groups(
            rows@.map_values(|f: FlowRow| f@).map_values(|m: FlowRowModel| spec_pp_of(m)),
            true,
        ),
{
    pp_fold(rows, true)
}

/// Sums octets per protocol number, in first-seen order.
pub fn get_top_10_flows_by_protocols_as_json(rows: &Vec<FlowRow>) -> (r: Vec<
    NetflowPortsAndProtocolsJson,
>)
    ensures
        r@ == spec_pp_groups(
            rows@.map_values(|f: FlowRow| f@).map_values(|m: FlowRowModel| spec_pp_of(m)),
            false,
        ),
{
    pp_fold(rows, false)
}

/// A row value squeezed into a port field: out-of-range values become 0.
pub open spec fn spec_port_of(v: int) -> u16 {
    if 0 <= v <= 0xFFFF {
        v as u16
    } else {
        0
    }
}

/// A row value squeezed into a protocol octet: out-of-range values become 0.
pub open spec fn spec_proto_of(v: int) -> u8 {
    if 0 <= v <= 0xFF {
        v as u8
    } else {
        0
    }
}

/// A row counter squeezed into an unsigned column: negatives become 0.
pub open spec fn spec_count_of(v: int) -> u32 {
    if v >= 0 {
        v as u32
    } else {
        0
    }
}

/// The traffic type a stored label denotes; anything unrecognised reads as
/// unicast.
pub open spec fn spec_traffic_of_label(s: Seq<char>) -> TrafficType {
    if s == "Multicast"@ {
        TrafficType::Multicast
    } else if s == "Broadcast"@ {
        TrafficType::Broadcast
    } else {
        TrafficType::Unicast
    }
}

/// The JSON shape of one flow row: addresses kept as text, numeric columns
/// squeezed into their wire-sized types, the traffic label re-read as its
/// enum and the ICMP name attached.
pub open spec fn spec_flow_json_of(m: FlowRowModel) -> FlowJsonModel {
    FlowJsonModel {
        src_ip: m.src_addr,
        dst_ip: m.dst_addr,
        src_port: spec_port_of(m.src_port),
        dst_port: spec_port_of(m.dst_port),
        protocol: spec_proto_of(m.protocol),
        in_octets: spec_count_of(m.in_bytes),
        in_packets: spec_count_of(m.in_pkts),
        traffic_type: spec_traffic_of_label(m.traffic_type),
        icmp: spec_icmp_label(m.protocol, m.src_port, m.dst_port),
    }
}

/// Squeezes a row value into a port field.
fn port_of(v: i32) -> (r: u16)
    ensures
        r == spec_port_of(v as int),
{
    if 0 <= v && v <= 0xFFFF {
        v as u16
    } else {
        0
    }
}

/// Shapes every row for the JSON surface.
pub fn get_all_flows_as_json(rows: &Vec<FlowRow>) -> (r: Vec<NetFlowJson>)
    ensures
        r@.len() == rows@.len(),
        forall|i: int|
            0 <= i < rows@.len() ==> (#[trigger] r@[i])@ == spec_flow_json_of(rows@[i]@),
{
    let mut out: Vec<NetFlowJson> = Vec::new();
    let n = rows.len();
    let mut x: usize = 0;
    while x < n
        invariant
            x <= n,
            n == rows@.len(),
            out@.len() == x,
            forall|i: int| 0 <= i < x ==> (#[trigger] out@[i])@ == spec_flow_json_of(rows@[i]@),
        decreases n - x,
    {
        proof {
            reveal_strlit("Multicast");
            reveal_strlit("Broadcast");
        }
        let row = &rows[x];
        let tt = if crate::utils::str_eq(row.traffic_type.as_str(), "Multicast") {
            TrafficType::Multicast
        } else if crate::utils::str_eq(row.traffic_type.as_str(), "Broadcast") {
            TrafficType::Broadcast
        } else {
            TrafficType::Unicast
        };
        let (icmp, _p1, _p2) = handle_icmp_code(row.protocol, row.src_port, row.dst_port);
        let proto: u8 = if 0 <= row.protocol && row.protocol <= 0xFF {
            row.protocol as u8
        } else {
            0
        };
        let oct: u32 = if row.in_bytes >= 0 {
            row.in_bytes as u32
        } else {
            0
        };
        let pk: u32 = if row.in_pkts >= 0 {
            row.in_pkts as u32
        } else {
            0
        };
        let j = NetFlowJson {
            src_ip: row.src_addr.clone(),
            dst_ip: row.dst_addr.clone(),
            src_port: port_of(row.src_port),
            dst_port: port_of(row.dst_port),
            protocol: proto,
            in_octets: oct,
            in_packets: pk,
            traffic_type: tt,
            icmp,
        };
        out.push(j);
        x = x + 1;
    }
    out
}

/// Shapes the rows naming one host on either side; the caller's statement
/// already filtered and ordered them.
pub fn get_all_flows_for_ip_as_json(rows: &Vec<FlowRow>) -> (r: Vec<NetFlowJson>)
    ensures
        r@.len() == rows@.len(),
        forall|i: int|
            0 <= i < rows@.len() ==> (#[trigger] r@[i])@ == spec_flow_json_of(rows@[i]@),
{
    get_all_flows_as_json(rows)
}

/// The ten cells the display table shows for one row: the three addresses,
/// protocol and ICMP-adjusted ports in decimal, the two counters in
/// decimal, the ICMP name and the stored traffic label.
pub open spec fn spec_row_record(m: FlowRowModel) -> Seq<Seq<char>> {
    seq![
        m.sender_ip,
        m.src_addr,
        m.dst_addr,
        spec_i32_chars(m.protocol),
        spec_i32_chars(
            if spec_icmp_zeroed(m.protocol, m.src_port, m.dst_port) {
                0
            } else {
                m.src_port
            },
        ),
        spec_i32_chars(
            if spec_icmp_zeroed(m.protocol, m.src_port, m.dst_port) {
                0
            } else {
                m.dst_port
            },
        ),
        spec_i32_chars(m.in_pkts),
        spec_i32_chars(m.in_bytes),
        spec_icmp_label(m.protocol, m.src_port, m.dst_port),
        m.traffic_type,
    ]
}

/// Renders every row into the display table's cells.
pub fn get_all_flows_from_sender(rows: &Vec<FlowRow>) -> (r: Vec<Vec<String>>)
    ensures
        r@.len() == rows@.len(),
        forall|i: int|
            0 <= i < rows@.len() ==> (#[trigger] r@[i])@.map_values(|s: String| s@)
                == spec_row_record(rows@[i]@),
{
    let mut out: Vec<Vec<String>> = Vec::new();
    let n = rows.len();
    let mut x: usize = 0;
    while x < n
        invariant
            x <= n,
            n == rows@.len(),
            out@.len() == x,
            forall|i: int|
                0 <= i < x ==> (#[trigger] out@[i])@.map_values(|s: String| s@) == spec_row_record(
                    rows@[i]@,
                ),
        decreases n - x,
    {
        let row = &rows[x];
        let (icmp, p1, p2) = handle_icmp_code(row.protocol, row.src_port, row.dst_port);
        let mut rec: Vec<String> = Vec::new();
        rec.push(row.sender_ip.clone());
        rec.push(row.src_addr.clone());
        rec.push(row.dst_addr.clone());
        rec.push(i32_to_string(row.protocol));
        rec.push(i32_to_string(p1));
        rec.push(i32_to_string(p2));
        rec.push(i32_to_string(row.in_pkts));
        rec.push(i32_to_string(row.in_bytes));
        rec.push(icmp);
        rec.push(row.traffic_type.clone());
        proof {
            assert(rec@.map_values(|s: String| s@) =~= spec_row_record(rows@[x as int]@));
        }
        out.push(rec);
        x = x + 1;
    }
    out
}

/// A host list with runs of equal neighbours collapsed to one.
pub open spec fn spec_dedup(s: Seq<Seq<char>>) -> Seq<Seq<char>>
    decreases s.len(),
{
    if s.len() == 0 {
        Seq::empty()
    } else if s.len() == 1 {
        s
    } else {
        let d = spec_dedup(s.drop_last());
        if d.len() > 0 && d.last() == s.last() {
            d
        } else {
            d.push(s.last())
        }
    }
}

/// The collapsed list still ends with the input's last element.
proof fn lemma_dedup_last(s: Seq<Seq<char>>)
    requires
        s.len() > 0,
    ensures
        spec_dedup(s).len() > 0,
        spec_dedup(s).last() == s.last(),
    decreases s.len(),
{
    if s.len() > 1 {
        lemma_dedup_last(s.drop_last());
    }
}

/// Collapses runs of equal neighbouring hosts, as the host listing does
/// after sorting.
pub fn get_all_hosts_ip_as_json(hosts: &Vec<String>) -> (r: Vec<String>)
    ensures
        r@.map_values(|s: String| s@) == spec_dedup(hosts@.map_values(|s: String| s@)),
{
    let ghost hs = hosts@.map_values(|s: String| s@);
    let mut out: Vec<String> = Vec::new();
    let n = hosts.len();
    let mut x: usize = 0;
    proof {
        assert(hs.take(0) =~= Seq::<Seq<char>>::empty());
        assert(out@.map_values(|s: String| s@) =~= Seq::<Seq<char>>::empty());
    }
    while x < n
        invariant
            x <= n,
            n == hosts@.len(),
            hs == hosts@.map_values(|s: String| s@),
            out@.map_values(|s: String| s@) == spec_dedup(hs.take(x as int)),
        decreases n - x,
    {
        proof {
            assert(hs.take(x as int + 1).drop_last() =~= hs.take(x as int));
            assert(hs.take(x as int + 1).last() == hs[x as int]);
            if x > 0 {
                lemma_dedup_last(hs.take(x as int));
            }
            assert(out@.map_values(|s: String| s@).len() == out@.len());
        }
        let keep: bool = if out.len() > 0 {
            !crate::utils::str_eq(out[out.len() - 1].as_str(), hosts[x].as_str())
        } else {
            true
        };
        if keep {
            out.push(hosts[x].clone());
            proof {
                assert(out@.map_values(|s: String| s@) =~= spec_dedup(hs.take(x as int)).push(
                    hs[x as int],
                ));
            }
        } else {
            proof {
                assert(out@.map_values(|s: String| s@)[out@.len() - 1] == out@[out@.len()
                    - 1]@);
            }
        }
        x = x + 1;
    }
    proof {
        assert(hs.take(n as int) =~= hs);
    }
    out
}

/// The row limit the settings grant the reader.
pub fn flow_limit_of(settings: &ServerSettings) -> (r: i32)
    ensures
        settings.flow_limit matches FlowsToShow::Limit { flows } ==> r == flows,
        settings.flow_limit is NoLimit ==> r == 1000,
{
    match settings.flow_limit {
        FlowsToShow::Limit { flows } => flows,
        FlowsToShow::NoLimit => 1000,
    }
}

/// The statement the reader prepares: the flows table, the unicast filter
/// when asked for, and the configured order with its row limit.
pub fn flows_query_statement(settings: &ServerSettings) -> (r: String)
    ensures
        r@ == "SELECT * FROM flows "@ + (if settings.unicast_only {
            "WHERE traffic_type = 'Unicast'"@
        } else {
            Seq::<char>::empty()
        }) + (match settings.sort_by {
            SortBy::Bytes => " ORDER BY in_octets DESC LIMIT ?"@,
            SortBy::Pkts => " ORDER BY in_pkts DESC LIMIT ?"@,
            SortBy::Unsorted => " LIMIT ?"@,
        }),
{
    let mut s = String::from_str("SELECT * FROM flows ");
    if settings.unicast_only {
        s.append("WHERE traffic_type = 'Unicast'");
    }
    match settings.sort_by {
        SortBy::Bytes => s.append(" ORDER BY in_octets DESC LIMIT ?"),
        SortBy::Pkts => s.append(" ORDER BY in_pkts DESC LIMIT ?"),
        SortBy::Unsorted => s.append(" LIMIT ?"),
    }
    proof {
        if !settings.unicast_only {
            assert(s@ =~= "SELECT * FROM flows "@ + Seq::<char>::empty() + (
            match settings.sort_by {
                SortBy::Bytes => " ORDER BY in_octets DESC LIMIT ?"@,
                SortBy::Pkts => " ORDER BY in_pkts DESC LIMIT ?"@,
                SortBy::Unsorted => " LIMIT ?"@,
            }));
        }
    }
    s
}

} // verus!
