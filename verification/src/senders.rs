//! Per-sender state and the flow aggregator: templates learned from the
//! sender, the queue of decoded records still to fold, and the live flow
//! table with its bidirectional-uniqueness invariant.

use crate::fields::Ipv4Field;
use crate::fields::U16Field;
use crate::fields::U64Field;
use crate::fields::U8Field;
use crate::flow::spec_flow_wf;
use crate::flow::FlowModel;
use crate::flow::NetFlow;
use crate::flow::NetFlowDelta;
use crate::flow::MAX_DELTAS;
use crate::templates::spec_template_wf;
use crate::templates::TemplateModel;
use crate::templates::DecodedRecord;
use crate::templates::NetflowTemplate;
use crate::utils::is_flow_match;
use crate::utils::record_traffic_type;
use crate::utils::spec_is_flow_match;
use crate::utils::spec_record_traffic_type;
use vstd::prelude::*;

verus! {

/// One exporting device: its address, the templates it advertised, the
/// records decoded but not yet folded, and its live flows.
#[derive(Debug)]
pub struct NetflowSender {
    pub ip_addr: u32,
    pub templates: Vec<NetflowTemplate>,
    pub flow_packets: Vec<DecodedRecord>,
    pub flow_stats: Vec<NetFlow>,
}

/// The source address a record names, defaulting to 0.0.0.0.
pub open spec fn spec_rec_src_ip(r: DecodedRecord) -> u32 {
    match r.src_addr {
        Ipv4Field::Value(v) => v,
        _ => 0,
    }
}

/// The destination address a record names, defaulting to 0.0.0.0.
pub open spec fn spec_rec_dst_ip(r: DecodedRecord) -> u32 {
    match r.dst_addr {
        Ipv4Field::Value(v) => v,
        _ => 0,
    }
}

/// The source port a record names, defaulting to 0.
pub open spec fn spec_rec_src_port(r: DecodedRecord) -> u16 {
    match r.src_port {
        U16Field::Value(v) => v,
        _ => 0,
    }
}

/// The destination port a record names, defaulting to 0.
pub open spec fn spec_rec_dst_port(r: DecodedRecord) -> u16 {
    match r.dst_port {
        U16Field::Value(v) => v,
        _ => 0,
    }
}

/// The protocol a record names, defaulting to 0.
pub open spec fn spec_rec_protocol(r: DecodedRecord) -> u8 {
    match r.protocol {
        U8Field::Value(v) => v,
        _ => 0,
    }
}

/// The octet count a record carries, 0 when absent.
pub open spec fn spec_rec_octets(r: DecodedRecord) -> int {
    match r.in_octets {
        U64Field::Value(v) => v as int,
        _ => 0,
    }
}

/// The packet count a record carries, 0 when absent.
pub open spec fn spec_rec_packets(r: DecodedRecord) -> int {
    match r.in_packets {
        U64Field::Value(v) => v as int,
        _ => 0,
    }
}

/// The destination MAC a record carries, when it carries one.
pub open spec fn spec_rec_mac(r: DecodedRecord) -> Option<u64> {
    match r.in_dst_mac {
        U64Field::Value(v) => Some(v),
        _ => None,
    }
}

/// The models of a flow table.
pub open spec fn spec_flow_models(flows: Seq<NetFlow>) -> Seq<FlowModel> {
    flows.map_values(|f: NetFlow| f@)
}

/// Whether a record's 5-tuple names the same conversation as a flow, in
/// either orientation and with the protocol agreeing.
pub open spec fn spec_rec_matches_flow(f: FlowModel, r: DecodedRecord) -> bool {
    spec_is_flow_match(
        f.src_ip,
        f.dst_ip,
        spec_rec_src_ip(r),
        spec_rec_dst_ip(r),
        f.src_port,
        f.dst_port,
        spec_rec_src_port(r),
        spec_rec_dst_port(r),
    ) && f.protocol == spec_rec_protocol(r)
}

/// The flow a record that matched nothing becomes: the record's endpoints,
/// ports and protocol (absent fields defaulting to 0), its counters, its
/// classification with the broadcast-MAC rescue, stamped `now`, dirty, not
/// yet stored, with an empty history.
pub open spec fn spec_new_flow(r: DecodedRecord, now: i64) -> FlowModel {
    FlowModel {
        src_ip: spec_rec_src_ip(r),
        dst_ip: spec_rec_dst_ip(r),
        src_port: spec_rec_src_port(r),
        dst_port: spec_rec_dst_port(r),
        protocol: spec_rec_protocol(r),
        in_octets: spec_rec_octets(r) as u64,
        in_packets: spec_rec_packets(r) as u64,
        in_db: false,
        needs_db_update: true,
        traffic_type: spec_record_traffic_type(
            spec_rec_src_ip(r),
            spec_rec_dst_ip(r),
            spec_rec_mac(r),
        ),
        deltas: Seq::empty(),
        created_time: now,
    }
}

/// The flow a matching record folds into: one delta with the record's
/// counters, stamped `now` (never before the newest entry), appended to the
/// ring with the oldest entry evicted at the cap; the rate recomputed on it;
/// the counters grown by the record's amounts, saturating; the dirty flag
/// set. Key, classification and creation stamp stay.
pub open spec fn spec_updated_flow(f: FlowModel, r: DecodedRecord, now: i64) -> FlowModel {
    let oct = spec_rec_octets(r);
    let pk = spec_rec_packets(r);
    let stamp: i64 = if f.deltas.len() > 0 && f.deltas.last().updated_time > now {
        f.deltas.last().updated_time
    } else {
        now
    };
    let trimmed = if f.deltas.len() == MAX_DELTAS {
        f.deltas.drop_first()
    } else {
        f.deltas
    };
    let pushed = trimmed.push(
        NetFlowDelta {
            updated_time: stamp,
            in_octets: oct as u64,
            in_pkts: pk as u64,
            bps: 0,
            pps: 0,
        },
    );
    let last = pushed.last();
    let dt = last.updated_time - crate::flow::spec_throughput_old_time(pushed);
    let deltas = pushed.update(
        pushed.len() - 1,
        NetFlowDelta {
            bps: crate::flow::spec_new_rate(last.bps, last.in_octets, dt) as u64,
            pps: crate::flow::spec_new_rate(last.pps, last.in_pkts, dt) as u64,
            ..last
        },
    );
    FlowModel {
        in_octets: if oct <= u64::MAX - f.in_octets {
            (f.in_octets + oct) as u64
        } else {
            u64::MAX
        },
        in_packets: if pk <= u64::MAX - f.in_packets {
            (f.in_packets + pk) as u64
        } else {
            u64::MAX
        },
        needs_db_update: true,
        deltas,
        ..f
    }
}

/// One record folded into the table: the first flow it matches absorbs it;
/// a record matching nothing becomes a new flow at the end.
pub open spec fn spec_fold_record(flows: Seq<FlowModel>, r: DecodedRecord, now: i64) -> Seq<
    FlowModel,
>
    decreases flows.len(),
{
    if flows.len() == 0 {
        seq![spec_new_flow(r, now)]
    } else if spec_rec_matches_flow(flows[0], r) {
        seq![spec_updated_flow(flows[0], r, now)] + flows.drop_first()
    } else {
        seq![flows[0]] + spec_fold_record(flows.drop_first(), r, now)
    }
}

/// The whole pending queue folded into the table, newest-queued first, as
/// the drain pops it.
pub open spec fn spec_fold_queue(flows: Seq<FlowModel>, q: Seq<DecodedRecord>, now: i64) -> Seq<
    FlowModel,
>
    decreases q.len(),
{
    if q.len() == 0 {
        flows
    } else {
        spec_fold_queue(spec_fold_record(flows, q.last(), now), q.drop_last(), now)
    }
}

/// A table is some instant's drain of another: the whole queue folded in at
/// a single clamped timestamp.
pub open spec fn spec_drained(
    new_flows: Seq<FlowModel>,
    flows: Seq<FlowModel>,
    q: Seq<DecodedRecord>,
) -> bool {
    exists|t: i64| 0 <= t <= i64::MAX - 60 && new_flows == spec_fold_queue(flows, q, t)
}

/// Folding a record whose first match sits at index `i` updates exactly
/// that flow; a record matching nothing appends its new flow.
proof fn lemma_fold_record_at(flows: Seq<FlowModel>, r: DecodedRecord, now: i64, i: int)
    requires
        0 <= i <= flows.len(),
        forall|j: int| 0 <= j < i ==> !spec_rec_matches_flow(#[trigger] flows[j], r),
        i < flows.len() ==> spec_rec_matches_flow(flows[i], r),
    ensures
        i < flows.len() ==> spec_fold_record(flows, r, now) == flows.update(
            i,
            spec_updated_flow(flows[i], r, now),
        ),
        i == flows.len() ==> spec_fold_record(flows, r, now) == flows.push(spec_new_flow(r, now)),
    decreases i,
{
    if flows.len() == 0 {
        assert(spec_fold_record(flows, r, now) =~= flows.push(spec_new_flow(r, now)));
    } else if i == 0 {
        assert(spec_fold_record(flows, r, now) =~= flows.update(
            0,
            spec_updated_flow(flows[0], r, now),
        ));
    } else {
        assert(forall|j: int| 0 <= j < i - 1 ==> flows.drop_first()[j] == flows[j + 1]);
        lemma_fold_record_at(flows.drop_first(), r, now, i - 1);
        if i < flows.len() {
            assert(flows.drop_first()[i - 1] == flows[i]);
            assert(spec_fold_record(flows, r, now) =~= flows.update(
                i,
                spec_updated_flow(flows[i], r, now),
            ));
        } else {
            assert(spec_fold_record(flows, r, now) =~= flows.push(spec_new_flow(r, now)));
        }
    }
}

/// Two flows describe the same bidirectional conversation: endpoints match
/// in either orientation and the protocol agrees.
pub open spec fn spec_flow_pair_match(a: NetFlow, b: NetFlow) -> bool {
    spec_is_flow_match(
        a.src_ip,
        a.dst_ip,
        b.src_ip,
        b.dst_ip,
        a.src_port,
        a.dst_port,
        b.src_port,
        b.dst_port,
    ) && a.protocol == b.protocol
}

/// Two flows carry the identical 5-tuple in the same orientation.
pub open spec fn spec_same_key(a: NetFlow, b: NetFlow) -> bool {
    &&& a.src_ip == b.src_ip
    &&& a.dst_ip == b.dst_ip
    &&& a.src_port == b.src_port
    &&& a.dst_port == b.dst_port
    &&& a.protocol == b.protocol
}

/// At most one flow per bidirectional conversation, and every flow well
/// formed.
pub open spec fn spec_flows_wf(flows: Seq<NetFlow>) -> bool {
    &&& forall|i: int, j: int|
        0 <= i < j < flows.len() ==> !spec_flow_pair_match(
            #[trigger] flows[i],
            #[trigger] flows[j],
        )
    &&& forall|i: int| 0 <= i < flows.len() ==> spec_flow_wf(#[trigger] flows[i])
}

/// Bidirectional uniqueness: in a well-formed flow table, two flows that
/// describe the same conversation — in either orientation — are the same
/// flow.
pub proof fn lemma_flows_unique(flows: Seq<NetFlow>, i: int, j: int)
    requires
        spec_flows_wf(flows),
        0 <= i < flows.len(),
        0 <= j < flows.len(),
        spec_flow_pair_match(flows[i], flows[j]),
    ensures
        i == j,
{
    if j < i {
        crate::utils::lemma_flow_match_symmetric(
            flows[i].src_ip,
            flows[i].dst_ip,
            flows[j].src_ip,
            flows[j].dst_ip,
            flows[i].src_port,
            flows[i].dst_port,
            flows[j].src_port,
            flows[j].dst_port,
        );
    }
}

/// Installed templates carry distinct identifiers and are each well formed.
pub open spec fn spec_templates_wf(ts: Seq<NetflowTemplate>) -> bool {
    &&& forall|i: int| 0 <= i < ts.len() ==> spec_template_wf((#[trigger] ts[i])@)
    &&& forall|i: int, j: int|
        0 <= i < j < ts.len() ==> (#[trigger] ts[i])@.id != (#[trigger] ts[j])@.id
}

/// The models of an installed template list.
pub open spec fn spec_template_models(ts: Seq<NetflowTemplate>) -> Seq<TemplateModel> {
    ts.map_values(|t: NetflowTemplate| t@)
}

/// The first template model carrying an identifier, scanned from the front.
pub open spec fn spec_find_model(ts: Seq<TemplateModel>, id: u16) -> Option<TemplateModel>
    decreases ts.len(),
{
    if ts.len() == 0 {
        None
    } else if ts[0].id == Some(id) {
        Some(ts[0])
    } else {
        spec_find_model(ts.drop_first(), id)
    }
}

/// Looking a template up in a list or in its models is the same.
pub proof fn lemma_find_model_bridge(ts: Seq<NetflowTemplate>, id: u16)
    ensures
        spec_find_template(ts, id) == spec_find_model(spec_template_models(ts), id),
    decreases ts.len(),
{
    if ts.len() > 0 {
        assert(spec_template_models(ts)[0] == ts[0]@);
        assert(spec_template_models(ts).drop_first() =~= spec_template_models(ts.drop_first()));
        lemma_find_model_bridge(ts.drop_first(), id);
    }
}

/// One advertised template installed into a model list: a template without
/// an identifier changes nothing; a re-advertised identifier is overwritten
/// in place; a new identifier is appended.
pub open spec fn spec_install(ts: Seq<TemplateModel>, t: TemplateModel) -> Seq<TemplateModel>
    decreases ts.len(),
{
    if t.id is None {
        ts
    } else if ts.len() == 0 {
        seq![t]
    } else if ts[0].id == t.id {
        seq![t] + ts.drop_first()
    } else {
        seq![ts[0]] + spec_install(ts.drop_first(), t)
    }
}

/// Installing where the identifier's first holder sits at index `i`
/// overwrites exactly that entry; an unseen identifier appends.
proof fn lemma_install_at(ts: Seq<TemplateModel>, t: TemplateModel, i: int)
    requires
        t.id is Some,
        0 <= i <= ts.len(),
        forall|j: int| 0 <= j < i ==> (#[trigger] ts[j]).id != t.id,
        i < ts.len() ==> ts[i].id == t.id,
    ensures
        i < ts.len() ==> spec_install(ts, t) == ts.update(i, t),
        i == ts.len() ==> spec_install(ts, t) == ts.push(t),
    decreases i,
{
    if ts.len() == 0 {
        assert(spec_install(ts, t) =~= ts.push(t));
    } else if i == 0 {
        assert(spec_install(ts, t) =~= ts.update(0, t));
    } else {
        assert(forall|j: int| 0 <= j < i - 1 ==> ts.drop_first()[j] == ts[j + 1]);
        lemma_install_at(ts.drop_first(), t, i - 1);
        if i < ts.len() {
            assert(ts.drop_first()[i - 1] == ts[i]);
            assert(spec_install(ts, t) =~= ts.update(i, t));
        } else {
            assert(spec_install(ts, t) =~= ts.push(t));
        }
    }
}

/// A sender's whole invariant.
pub open spec fn spec_sender_wf(s: NetflowSender) -> bool {
    &&& spec_templates_wf(s.templates@)
    &&& spec_flows_wf(s.flow_stats@)
}

/// The octets of all flows of a table, summed without bound.
pub open spec fn spec_total_octets(flows: Seq<NetFlow>) -> int
    decreases flows.len(),
{
    if flows.len() == 0 {
        0
    } else {
        spec_total_octets(flows.drop_last()) + flows.last().in_octets
    }
}

/// The packets of all flows of a table, summed without bound.
pub open spec fn spec_total_packets(flows: Seq<NetFlow>) -> int
    decreases flows.len(),
{
    if flows.len() == 0 {
        0
    } else {
        spec_total_packets(flows.drop_last()) + flows.last().in_packets
    }
}

/// The octets of all records still queued, summed without bound.
pub open spec fn spec_queue_octets(q: Seq<DecodedRecord>) -> int
    decreases q.len(),
{
    if q.len() == 0 {
        0
    } else {
        spec_queue_octets(q.drop_last()) + spec_rec_octets(q.last())
    }
}

/// The packets of all records still queued, summed without bound.
pub open spec fn spec_queue_packets(q: Seq<DecodedRecord>) -> int
    decreases q.len(),
{
    if q.len() == 0 {
        0
    } else {
        spec_queue_packets(q.drop_last()) + spec_rec_packets(q.last())
    }
}

/// Flow totals are sums of non-negative counters.
pub proof fn lemma_totals_nonneg(flows: Seq<NetFlow>)
    ensures
        spec_total_octets(flows) >= 0,
        spec_total_packets(flows) >= 0,
    decreases flows.len(),
{
    if flows.len() > 0 {
        lemma_totals_nonneg(flows.drop_last());
    }
}

/// Queue totals are sums of non-negative counters.
pub proof fn lemma_queue_totals_nonneg(q: Seq<DecodedRecord>)
    ensures
        spec_queue_octets(q) >= 0,
        spec_queue_packets(q) >= 0,
    decreases q.len(),
{
    if q.len() > 0 {
        lemma_queue_totals_nonneg(q.drop_last());
    }
}

/// One flow's counters never exceed the table's totals.
proof fn lemma_total_element_bound(flows: Seq<NetFlow>, i: int)
    requires
        0 <= i < flows.len(),
    ensures
        flows[i].in_octets <= spec_total_octets(flows),
        flows[i].in_packets <= spec_total_packets(flows),
    decreases flows.len(),
{
    lemma_totals_nonneg(flows.drop_last());
    if i < flows.len() - 1 {
        lemma_total_element_bound(flows.drop_last(), i);
    }
}

/// Replacing one flow changes the totals by exactly the counter difference.
proof fn lemma_total_update(flows: Seq<NetFlow>, i: int, v: NetFlow)
    requires
        0 <= i < flows.len(),
    ensures
        spec_total_octets(flows.update(i, v)) == spec_total_octets(flows) - flows[i].in_octets
            + v.in_octets,
        spec_total_packets(flows.update(i, v)) == spec_total_packets(flows) - flows[i].in_packets
            + v.in_packets,
    decreases flows.len(),
{
    if i == flows.len() - 1 {
        assert(flows.update(i, v).drop_last() =~= flows.drop_last());
        assert(flows.update(i, v).last() == v);
    } else {
        assert(flows.update(i, v).drop_last() =~= flows.drop_last().update(i, v));
        assert(flows.update(i, v).last() == flows.last());
        lemma_total_update(flows.drop_last(), i, v);
    }
}

/// Appending one flow adds exactly its counters to the totals.
proof fn lemma_total_push(flows: Seq<NetFlow>, v: NetFlow)
    ensures
        spec_total_octets(flows.push(v)) == spec_total_octets(flows) + v.in_octets,
        spec_total_packets(flows.push(v)) == spec_total_packets(flows) + v.in_packets,
{
    assert(flows.push(v).drop_last() =~= flows);
    assert(flows.push(v).last() == v);
}

/// Folds one decoded record into the flow table: a bidirectional match gets
/// the record's counters added (saturating), a fresh delta and a recomputed
/// rate; a record matching nothing becomes a new flow stamped `now`.
/// Applies one matching record to a flow, exactly as `spec_updated_flow`
/// says: delta pushed and rated, counters grown saturating, flag set.
#[verifier::rlimit(60)]
fn apply_record_to_flow(f: &mut NetFlow, rec: &DecodedRecord, now: i64)
    requires
        spec_flow_wf(*old(f)),
        0 <= now <= i64::MAX - 60,
    ensures
        spec_flow_wf(*final(f)),
        final(f)@ == spec_updated_flow(old(f)@, *rec, now),
        spec_same_key(*final(f), *old(f)),
        final(f).in_octets >= old(f).in_octets,
        final(f).in_packets >= old(f).in_packets,
        old(f).in_octets + spec_rec_octets(*rec) <= u64::MAX ==> final(f).in_octets == old(
            f,
        ).in_octets + spec_rec_octets(*rec),
        old(f).in_packets + spec_rec_packets(*rec) <= u64::MAX ==> final(f).in_packets == old(
            f,
        ).in_packets + spec_rec_packets(*rec),
        final(f).in_octets <= old(f).in_octets + spec_rec_octets(*rec),
        final(f).in_packets <= old(f).in_packets + spec_rec_packets(*rec),
        final(f).created_time == old(f).created_time,
        final(f).in_db == old(f).in_db,
        final(f).needs_db_update,
        final(f).traffic_type == old(f).traffic_type,
{
    let oct: u64 = match rec.in_octets {
        U64Field::Value(v) => v,
        _ => 0,
    };
    let pk: u64 = match rec.in_packets {
        U64Field::Value(v) => v,
        _ => 0,
    };
    proof {
        assert(oct == spec_rec_octets(*rec));
        assert(pk == spec_rec_packets(*rec));
    }
    let last_time: i64 = if f.deltas.len() > 0 {
        f.deltas[f.deltas.len() - 1].updated_time
    } else {
        0
    };
    let stamp: i64 = if last_time > now {
        last_time
    } else {
        now
    };
    proof {
        let fm = old(f)@;
        assert(stamp == (if fm.deltas.len() > 0 && fm.deltas.last().updated_time > now {
            fm.deltas.last().updated_time
        } else {
            now
        }));
    }
    let ghost trimmed = if old(f)@.deltas.len() == MAX_DELTAS {
        old(f)@.deltas.drop_first()
    } else {
        old(f)@.deltas
    };
    let ghost pushed = trimmed.push(
        NetFlowDelta { updated_time: stamp, in_octets: oct, in_pkts: pk, bps: 0, pps: 0 },
    );
    f.push_delta(NetFlowDelta { updated_time: stamp, in_octets: oct, in_pkts: pk, bps: 0, pps: 0 });
    proof {
        assert(f.deltas@ == pushed);
    }
    f.update_throughput();
    proof {
        let lastd = pushed.last();
        let dt = lastd.updated_time - crate::flow::spec_throughput_old_time(pushed);
        assert(f.deltas@ =~= pushed.update(
            pushed.len() - 1,
            NetFlowDelta {
                bps: crate::flow::spec_new_rate(lastd.bps, lastd.in_octets, dt) as u64,
                pps: crate::flow::spec_new_rate(lastd.pps, lastd.in_pkts, dt) as u64,
                ..lastd
            },
        ));
    }
    if oct <= u64::MAX - f.in_octets {
        f.in_octets = f.in_octets + oct;
    } else {
        f.in_octets = u64::MAX;
    }
    if pk <= u64::MAX - f.in_packets {
        f.in_packets = f.in_packets + pk;
    } else {
        f.in_packets = u64::MAX;
    }
    f.needs_db_update = true;
    proof {
        assert(f@ =~= spec_updated_flow(old(f)@, *rec, now));
    }
}

#[verifier::rlimit(60)]
fn fold_record_into_flows(flows: &mut Vec<NetFlow>, rec: &DecodedRecord, now: i64)
    requires
        spec_flows_wf(old(flows)@),
        0 <= now <= i64::MAX - 60,
    ensures
        spec_flows_wf(final(flows)@),
        old(flows)@.len() <= final(flows)@.len() <= old(flows)@.len() + 1,
        forall|i: int|
            0 <= i < old(flows)@.len() ==> spec_same_key(
                #[trigger] final(flows)@[i],
                old(flows)@[i],
            ),
        forall|i: int|
            0 <= i < old(flows)@.len() ==> (#[trigger] final(flows)@[i]).in_octets >= old(flows)@[i].in_octets && final(flows)@[i].in_packets >= old(flows)@[i].in_packets,
        forall|i: int|
            0 <= i < old(flows)@.len() ==> (#[trigger] final(flows)@[i]).created_time == old(flows)@[i].created_time && final(flows)@[i].in_db == old(flows)@[i].in_db && (old(flows)@[i].needs_db_update ==> final(flows)@[i].needs_db_update),
        final(flows)@.len() == old(flows)@.len() + 1 ==> {
            let f = final(flows)@.last();
            &&& f.src_ip == spec_rec_src_ip(*rec)
            &&& f.dst_ip == spec_rec_dst_ip(*rec)
            &&& f.src_port == spec_rec_src_port(*rec)
            &&& f.dst_port == spec_rec_dst_port(*rec)
            &&& f.protocol == spec_rec_protocol(*rec)
            &&& f.in_octets == spec_rec_octets(*rec)
            &&& f.in_packets == spec_rec_packets(*rec)
            &&& f.traffic_type == spec_record_traffic_type(
                spec_rec_src_ip(*rec),
                spec_rec_dst_ip(*rec),
                match rec.in_dst_mac {
                    U64Field::Value(v) => Some(v),
                    _ => None,
                },
            )
            &&& f.created_time == now
            &&& !f.in_db
            &&& f.needs_db_update
        },
        spec_total_octets(final(flows)@) <= spec_total_octets(old(flows)@) + spec_rec_octets(*rec),
        spec_total_packets(final(flows)@) <= spec_total_packets(old(flows)@) + spec_rec_packets(
            *rec,
        ),
        spec_total_octets(old(flows)@) + spec_rec_octets(*rec) <= u64::MAX ==> spec_total_octets(
            final(flows)@,
        ) == spec_total_octets(old(flows)@) + spec_rec_octets(*rec),
        spec_total_packets(old(flows)@) + spec_rec_packets(*rec) <= u64::MAX
            ==> spec_total_packets(final(flows)@) == spec_total_packets(old(flows)@)
            + spec_rec_packets(*rec),
        spec_flow_models(final(flows)@) == spec_fold_record(
            spec_flow_models(old(flows)@),
            *rec,
            now,
        ),
{
    let proto: u8 = match rec.protocol {
        U8Field::Value(v) => v,
        _ => 0,
    };
    let oct: u64 = match rec.in_octets {
        U64Field::Value(v) => v,
        _ => 0,
    };
    let pk: u64 = match rec.in_packets {
        U64Field::Value(v) => v,
        _ => 0,
    };
    let src_ip: u32 = match rec.src_addr {
        Ipv4Field::Value(v) => v,
        _ => 0,
    };
    let dst_ip: u32 = match rec.dst_addr {
        Ipv4Field::Value(v) => v,
        _ => 0,
    };
    let src_port: u16 = match rec.src_port {
        U16Field::Value(v) => v,
        _ => 0,
    };
    let dst_port: u16 = match rec.dst_port {
        U16Field::Value(v) => v,
        _ => 0,
    };
    let mac: Option<u64> = match rec.in_dst_mac {
        U64Field::Value(v) => Some(v),
        _ => None,
    };
    let cast = record_traffic_type(src_ip, dst_ip, mac);
    proof {
        assert(proto == spec_rec_protocol(*rec));
        assert(oct == spec_rec_octets(*rec));
        assert(pk == spec_rec_packets(*rec));
        assert(src_ip == spec_rec_src_ip(*rec));
        assert(dst_ip == spec_rec_dst_ip(*rec));
        assert(src_port == spec_rec_src_port(*rec));
        assert(dst_port == spec_rec_dst_port(*rec));
        assert(mac == spec_rec_mac(*rec));
    }
    let n = flows.len();
    let mut idx: usize = 0;
    let mut found = false;
    while idx < n
        invariant_except_break
            n == flows.len(),
            idx <= n,
            !found,
            forall|i: int|
                0 <= i < idx ==> !(spec_is_flow_match(
                    (#[trigger] flows@[i]).src_ip,
                    flows@[i].dst_ip,
                    src_ip,
                    dst_ip,
                    flows@[i].src_port,
                    flows@[i].dst_port,
                    src_port,
                    dst_port,
                ) && flows@[i].protocol == proto),
        ensures
            n == flows.len(),
            idx <= n,
            found ==> idx < n && spec_is_flow_match(
                flows@[idx as int].src_ip,
                flows@[idx as int].dst_ip,
                src_ip,
                dst_ip,
                flows@[idx as int].src_port,
                flows@[idx as int].dst_port,
                src_port,
                dst_port,
            ) && flows@[idx as int].protocol == proto,
            !found ==> forall|i: int|
                0 <= i < n ==> !(spec_is_flow_match(
                    (#[trigger] flows@[i]).src_ip,
                    flows@[i].dst_ip,
                    src_ip,
                    dst_ip,
                    flows@[i].src_port,
                    flows@[i].dst_port,
                    src_port,
                    dst_port,
                ) && flows@[i].protocol == proto),
        decreases n - idx,
    {
        let f = &flows[idx];
        if is_flow_match(
            f.src_ip,
            f.dst_ip,
            src_ip,
            dst_ip,
            f.src_port,
            f.dst_port,
            src_port,
            dst_port,
        ) && f.protocol == proto {
            found = true;
            break ;
        }
        idx = idx + 1;
    }

    if found {
        let mut f = flows.remove(idx);
        let ghost old_f = f;
        apply_record_to_flow(&mut f, rec, now);
        flows.insert(idx, f);
        proof {
            assert(flows@ =~= old(flows)@.update(idx as int, f));
            lemma_total_update(old(flows)@, idx as int, f);
            lemma_total_element_bound(old(flows)@, idx as int);
            lemma_totals_nonneg(old(flows)@);
            let models = spec_flow_models(old(flows)@);
            assert(models.len() == old(flows)@.len());
            assert forall|j: int| 0 <= j < idx implies !spec_rec_matches_flow(
                #[trigger] models[j],
                *rec,
            ) by {
                assert(models[j] == old(flows)@[j]@);
            }
            assert(models[idx as int] == old(flows)@[idx as int]@);
            assert(spec_rec_matches_flow(models[idx as int], *rec));
            lemma_fold_record_at(models, *rec, now, idx as int);
            assert(spec_flow_models(flows@) =~= models.update(idx as int, f@));
        }
    } else {
        let new_flow = NetFlow {
            src_ip,
            dst_ip,
            src_port,
            dst_port,
            protocol: proto,
            in_octets: oct,
            in_packets: pk,
            in_db: false,
            needs_db_update: true,
            traffic_type: cast,
            deltas: Vec::new(),
            created_time: now,
        };
        proof {
            lemma_total_push(flows@, new_flow);
            assert(spec_flow_wf(new_flow));
            assert(new_flow@ =~= spec_new_flow(*rec, now));
        }
        flows.push(new_flow);
        proof {
            let models = spec_flow_models(old(flows)@);
            assert(models.len() == old(flows)@.len());
            assert forall|j: int| 0 <= j < models.len() implies !spec_rec_matches_flow(
                #[trigger] models[j],
                *rec,
            ) by {
                assert(models[j] == old(flows)@[j]@);
            }
            lemma_fold_record_at(models, *rec, now, models.len() as int);
            assert(spec_flow_models(flows@) =~= models.push(new_flow@));
        }
    }
}

/// The first installed template carrying an identifier, scanned from the
/// front.
pub open spec fn spec_find_template(ts: Seq<NetflowTemplate>, id: u16) -> Option<TemplateModel>
    decreases ts.len(),
{
    if ts.len() == 0 {
        None
    } else if ts[0]@.id == Some(id) {
        Some(ts[0]@)
    } else {
        spec_find_template(ts.drop_first(), id)
    }
}

/// A lookup skips any prefix free of the identifier.
proof fn lemma_find_template_skip(ts: Seq<NetflowTemplate>, id: u16, i: int)
    requires
        0 <= i <= ts.len(),
        forall|j: int| 0 <= j < i ==> (#[trigger] ts[j])@.id != Some(id),
    ensures
        spec_find_template(ts, id) == spec_find_template(ts.skip(i), id),
    decreases i,
{
    if i > 0 {
        assert(ts.skip(0) =~= ts);
        assert(ts.drop_first().skip(i - 1) =~= ts.skip(i));
        lemma_find_template_skip(ts.drop_first(), id, i - 1);
    } else {
        assert(ts.skip(0) =~= ts);
    }
}

/// Replacing the entry that carries an identifier redirects that lookup to
/// the new template and leaves every other lookup unchanged.
proof fn lemma_find_template_update(ts: Seq<NetflowTemplate>, i: int, t: NetflowTemplate, id: u16)
    requires
        0 <= i < ts.len(),
        ts[i]@.id == t@.id,
        forall|j: int, k: int|
            0 <= j < k < ts.len() ==> (#[trigger] ts[j])@.id != (#[trigger] ts[k])@.id,
    ensures
        t@.id == Some(id) ==> spec_find_template(ts.update(i, t), id) == Some(t@),
        t@.id != Some(id) ==> spec_find_template(ts.update(i, t), id) == spec_find_template(
            ts,
            id,
        ),
    decreases ts.len(),
{
    if i == 0 {
        assert(ts.update(0, t)[0] == t);
        assert(ts.update(0, t).drop_first() =~= ts.drop_first());
    } else {
        assert(ts.update(i, t)[0] == ts[0]);
        assert(ts.update(i, t).drop_first() =~= ts.drop_first().update(i - 1, t));
        assert(forall|j: int|
            0 <= j < ts.drop_first().len() ==> (#[trigger] ts.drop_first()[j])@ == ts[j + 1]@);
        lemma_find_template_update(ts.drop_first(), i - 1, t, id);
        assert(ts[0]@.id != t@.id);
    }
}

/// Appending a template whose identifier is absent serves that identifier
/// from the new entry and leaves every other lookup unchanged.
proof fn lemma_find_template_push(ts: Seq<NetflowTemplate>, t: NetflowTemplate, id: u16)
    requires
        forall|j: int| 0 <= j < ts.len() ==> (#[trigger] ts[j])@.id != t@.id,
    ensures
        t@.id == Some(id) ==> spec_find_template(ts.push(t), id) == Some(t@),
        t@.id != Some(id) ==> spec_find_template(ts.push(t), id) == spec_find_template(ts, id),
    decreases ts.len(),
{
    if ts.len() == 0 {
        assert(ts.push(t)[0] == t);
        assert(ts.push(t).drop_first() =~= Seq::<NetflowTemplate>::empty());
        if t@.id != Some(id) {
            assert(spec_find_template(ts.push(t), id) == spec_find_template(
                ts.push(t).drop_first(),
                id,
            ));
            assert(spec_find_template(Seq::<NetflowTemplate>::empty(), id) is None);
        }
    } else {
        assert(ts.push(t)[0] == ts[0]);
        assert(ts.push(t).drop_first() =~= ts.drop_first().push(t));
        assert forall|j: int|
            0 <= j < ts.drop_first().len() implies (#[trigger] ts.drop_first()[j])@.id
            != t@.id by {
            assert(ts.drop_first()[j] == ts[j + 1]);
        }
        lemma_find_template_push(ts.drop_first(), t, id);
    }
}

/// Finds the installed template carrying an identifier.
pub fn find_template_index(ts: &Vec<NetflowTemplate>, id: u16) -> (r: Option<usize>)
    ensures
        r matches Some(i) ==> i < ts@.len() && ts@[i as int]@.id == Some(id)
            && spec_find_template(ts@, id) == Some(ts@[i as int]@) && (forall|j: int|
            0 <= j < i ==> (#[trigger] ts@[j])@.id != Some(id)),
        r is None <==> spec_find_template(ts@, id) is None,
{
    let n = ts.len();
    let mut i: usize = 0;
    while i < n
        invariant
            i <= n,
            n == ts@.len(),
            forall|j: int| 0 <= j < i ==> (#[trigger] ts@[j])@.id != Some(id),
        decreases n - i,
    {
        let matches_id = match ts[i].id {
            Some(tid) => tid == id,
            None => false,
        };
        if matches_id {
            proof {
                lemma_find_template_skip(ts@, id, i as int);
                assert(ts@.skip(i as int)[0] == ts@[i as int]);
            }
            return Some(i);
        }
        i = i + 1;
    }
    proof {
        lemma_find_template_skip(ts@, id, n as int);
        assert(ts@.skip(n as int) =~= Seq::<NetflowTemplate>::empty());
    }
    None
}

/// Every sender well formed, each source address owned by at most one.
pub open spec fn spec_registry_wf(senders: Seq<NetflowSender>) -> bool {
    &&& forall|i: int| 0 <= i < senders.len() ==> spec_sender_wf(#[trigger] senders[i])
    &&& forall|i: int, j: int|
        0 <= i < j < senders.len() ==> (#[trigger] senders[i]).ip_addr != (#[trigger]
        senders[j]).ip_addr
}

/// Finds the sender owning a source address.
pub fn match_sender(senders: &Vec<NetflowSender>, sender_ip: u32) -> (r: Result<usize, ()>)
    ensures
        r matches Ok(i) ==> i < senders@.len() && senders@[i as int].ip_addr == sender_ip,
        r is Err <==> forall|j: int|
            0 <= j < senders@.len() ==> (#[trigger] senders@[j]).ip_addr != sender_ip,
{
    let n = senders.len();
    let mut i: usize = 0;
    while i < n
        invariant
            i <= n,
            n == senders@.len(),
            forall|j: int| 0 <= j < i ==> (#[trigger] senders@[j]).ip_addr != sender_ip,
        decreases n - i,
    {
        if senders[i].ip_addr == sender_ip {
            return Ok(i);
        }
        i = i + 1;
    }
    Err(())
}

impl NetflowSender {
    /// Installs one advertised template: a re-advertised identifier is
    /// overwritten in place, a new identifier is appended. Lookups of every
    /// other identifier are untouched, as are the queue and the flows.
    pub fn install_template(&mut self, t: NetflowTemplate)
        requires
            spec_sender_wf(*old(self)),
            spec_template_wf(t@),
        ensures
            spec_sender_wf(*final(self)),
            final(self).ip_addr == old(self).ip_addr,
            final(self).flow_packets@ == old(self).flow_packets@,
            final(self).flow_stats@ == old(self).flow_stats@,
            forall|id: u16|
                Some(id) == t@.id ==> spec_find_template(final(self).templates@, id) == Some(t@),
            forall|id: u16|
                Some(id) != t@.id ==> spec_find_template(final(self).templates@, id)
                    == spec_find_template(old(self).templates@, id),
            spec_template_models(final(self).templates@) == spec_install(
                spec_template_models(old(self).templates@),
                t@,
            ),
    {
        let tid = match t.id {
            Some(v) => v,
            None => {
                return ;
            },
        };
        proof {
            assert(t@.id == Some(tid));
        }
        match find_template_index(&self.templates, tid) {
            Some(i) => {
                self.templates.set(i, t);
                proof {
                    let ts = old(self).templates@;
                    assert(self.templates@ =~= ts.update(i as int, t));
                    assert forall|id: u16| true implies {
                        &&& Some(id) == t@.id ==> spec_find_template(self.templates@, id) == Some(
                            t@,
                        )
                        &&& Some(id) != t@.id ==> spec_find_template(self.templates@, id)
                            == spec_find_template(ts, id)
                    } by {
                        lemma_find_template_update(ts, i as int, t, id);
                    }
                    let ms = spec_template_models(ts);
                    assert forall|j: int| 0 <= j < i implies (#[trigger] ms[j]).id != t@.id by {
                        assert(ms[j] == ts[j]@);
                    }
                    assert(ms[i as int] == ts[i as int]@);
                    lemma_install_at(ms, t@, i as int);
                    assert(spec_template_models(self.templates@) =~= ms.update(i as int, t@));
                }
            },
            None => {
                proof {
                    let ts = old(self).templates@;
                    assert forall|j: int| 0 <= j < ts.len() implies (#[trigger] ts[j])@.id
                        != t@.id by {
                        if ts[j]@.id == Some(tid) {
                            lemma_find_template_skip(ts, tid, j);
                        }
                    }
                }
                self.templates.push(t);
                proof {
                    let ts = old(self).templates@;
                    assert forall|id: u16| true implies {
                        &&& Some(id) == t@.id ==> spec_find_template(self.templates@, id) == Some(
                            t@,
                        )
                        &&& Some(id) != t@.id ==> spec_find_template(self.templates@, id)
                            == spec_find_template(ts, id)
                    } by {
                        lemma_find_template_push(ts, t, id);
                    }
                    let ms = spec_template_models(ts);
                    assert forall|j: int| 0 <= j < ms.len() implies (#[trigger] ms[j]).id
                        != t@.id by {
                        assert(ms[j] == ts[j]@);
                    }
                    lemma_install_at(ms, t@, ms.len() as int);
                    assert(spec_template_models(self.templates@) =~= ms.push(t@));
                }
            },
        }
    }
}

/// Installs a template for the sender owning `source_ip`, creating the
/// sender first when none exists. Returns whether a sender was created, so
/// the caller can write the senders row.
pub fn update_or_create_sender(
    senders: &mut Vec<NetflowSender>,
    source_ip: u32,
    template: NetflowTemplate,
) -> (created: bool)
    requires
        spec_registry_wf(old(senders)@),
        spec_template_wf(template@),
    ensures
        spec_registry_wf(final(senders)@),
        created <==> (forall|j: int|
            0 <= j < old(senders)@.len() ==> (#[trigger] old(senders)@[j]).ip_addr != source_ip),
        created ==> final(senders)@.len() == old(senders)@.len() + 1 && final(senders)@.last().ip_addr
            == source_ip && forall|i: int|
            0 <= i < old(senders)@.len() ==> final(senders)@[i] == old(senders)@[i],
        !created ==> final(senders)@.len() == old(senders)@.len() && exists|i: int|
            0 <= i < old(senders)@.len() && (#[trigger] old(senders)@[i]).ip_addr == source_ip
                && (forall|j: int|
                0 <= j < old(senders)@.len() && j != i ==> final(senders)@[j] == old(senders)@[j])
                && final(senders)@[i].ip_addr == source_ip && final(senders)@[i].flow_stats@ == old(senders)@[i].flow_stats@ && final(senders)@[i].flow_packets@ == old(senders)@[
                i].flow_packets@ && spec_template_models(final(senders)@[i].templates@)
                == spec_install(spec_template_models(old(senders)@[i].templates@), template@),
        exists|i: int|
            0 <= i < final(senders)@.len() && (#[trigger] final(senders)@[i]).ip_addr == source_ip
                && (template@.id matches Some(id) ==> spec_find_template(
                final(senders)@[i].templates@,
                id,
            ) == Some(template@)),
{
    match match_sender(senders, source_ip) {
        Ok(i) => {
            let mut s = senders.remove(i);
            s.install_template(template);
            senders.insert(i, s);
            proof {
                assert(senders@ =~= old(senders)@.update(i as int, s));
                assert(senders@[i as int] == s);
                assert(s.ip_addr == source_ip);
                if template@.id is Some {
                    let tid = template@.id->0;
                    assert(spec_find_template(s.templates@, tid) == Some(template@));
                }
            }
            false
        },
        Err(()) => {
            let s = NetflowSender::new(source_ip, template);
            senders.push(s);
            proof {
                let k = old(senders)@.len() as int;
                assert(senders@[k] == s);
                assert(s.ip_addr == source_ip);
                if template@.id is Some {
                    let tid = template@.id->0;
                    assert(s.templates@[0]@.id == Some(tid));
                    assert(spec_find_template(s.templates@, tid) == Some(s.templates@[0]@));
                }
            }
            true
        },
    }
}

impl NetflowSender {
    /// A fresh sender with one advertised template and nothing pending.
    pub fn new(new_sender_ip: u32, template: NetflowTemplate) -> (r: NetflowSender)
        requires
            spec_template_wf(template@),
        ensures
            spec_sender_wf(r),
            r.ip_addr == new_sender_ip,
            r.templates@.len() == 1 && r.templates@[0]@ == template@,
            r.flow_packets@.len() == 0,
            r.flow_stats@.len() == 0,
    {
        let mut templates: Vec<NetflowTemplate> = Vec::new();
        templates.push(template);
        NetflowSender { ip_addr: new_sender_ip, templates, flow_packets: Vec::new(), flow_stats: Vec::new() }
    }

    /// Drains the pending queue into the flow table, stamping updates with
    /// `now`. Counters of existing flows never decrease, no second flow
    /// appears for a conversation already present, and — barring counter
    /// saturation — the table's totals grow by exactly the queued amounts:
    /// each record is counted once.
    pub fn fold_pending_records(&mut self, now: i64)
        requires
            spec_sender_wf(*old(self)),
            0 <= now <= i64::MAX - 60,
        ensures
            spec_sender_wf(*final(self)),
            final(self).ip_addr == old(self).ip_addr,
            final(self).templates@ == old(self).templates@,
            final(self).flow_packets@.len() == 0,
            final(self).flow_stats@.len() >= old(self).flow_stats@.len(),
            forall|i: int|
                0 <= i < old(self).flow_stats@.len() ==> spec_same_key(
                    #[trigger] final(self).flow_stats@[i],
                    old(self).flow_stats@[i],
                ),
            forall|i: int|
                0 <= i < old(self).flow_stats@.len() ==> (#[trigger] final(self).flow_stats@[i]).in_octets >= old(self).flow_stats@[i].in_octets && final(self).flow_stats@[i].in_packets >= old(self).flow_stats@[i].in_packets,
            forall|i: int|
                old(self).flow_stats@.len() <= i < final(self).flow_stats@.len() ==> (#[trigger]
                final(self).flow_stats@[i]).needs_db_update && !final(self).flow_stats@[i].in_db,
            spec_total_octets(final(self).flow_stats@) <= spec_total_octets(
                old(self).flow_stats@,
            ) + spec_queue_octets(old(self).flow_packets@),
            spec_total_packets(final(self).flow_stats@) <= spec_total_packets(
                old(self).flow_stats@,
            ) + spec_queue_packets(old(self).flow_packets@),
            spec_total_octets(old(self).flow_stats@) + spec_queue_octets(old(self).flow_packets@)
                <= u64::MAX ==> spec_total_octets(final(self).flow_stats@) == spec_total_octets(
                old(self).flow_stats@,
            ) + spec_queue_octets(old(self).flow_packets@),
            spec_total_packets(old(self).flow_stats@) + spec_queue_packets(
                old(self).flow_packets@,
            ) <= u64::MAX ==> spec_total_packets(final(self).flow_stats@) == spec_total_packets(
                old(self).flow_stats@,
            ) + spec_queue_packets(old(self).flow_packets@),
            spec_flow_models(final(self).flow_stats@) == spec_fold_queue(
                spec_flow_models(old(self).flow_stats@),
                old(self).flow_packets@,
                now,
            ),
    {
        let ghost full_oct = spec_queue_octets(old(self).flow_packets@);
        let ghost full_pk = spec_queue_packets(old(self).flow_packets@);
        let ghost old_total_oct = spec_total_octets(old(self).flow_stats@);
        let ghost old_total_pk = spec_total_packets(old(self).flow_stats@);
        proof {
            lemma_queue_totals_nonneg(self.flow_packets@);
        }
        loop
            invariant
                0 <= now <= i64::MAX - 60,
                spec_flows_wf(self.flow_stats@),
                self.ip_addr == old(self).ip_addr,
                self.templates@ == old(self).templates@,
                spec_templates_wf(self.templates@),
                self.flow_stats@.len() >= old(self).flow_stats@.len(),
                forall|i: int|
                    0 <= i < old(self).flow_stats@.len() ==> spec_same_key(
                        #[trigger] self.flow_stats@[i],
                        old(self).flow_stats@[i],
                    ),
                forall|i: int|
                    0 <= i < old(self).flow_stats@.len() ==> (#[trigger]
                    self.flow_stats@[i]).in_octets >= old(self).flow_stats@[i].in_octets
                        && self.flow_stats@[i].in_packets >= old(self).flow_stats@[i].in_packets,
                forall|i: int|
                    old(self).flow_stats@.len() <= i < self.flow_stats@.len() ==> (#[trigger]
                    self.flow_stats@[i]).needs_db_update && !self.flow_stats@[i].in_db,
                full_oct == spec_queue_octets(old(self).flow_packets@),
                full_pk == spec_queue_packets(old(self).flow_packets@),
                old_total_oct == spec_total_octets(old(self).flow_stats@),
                old_total_pk == spec_total_packets(old(self).flow_stats@),
                spec_queue_octets(self.flow_packets@) >= 0,
                spec_queue_packets(self.flow_packets@) >= 0,
                spec_queue_octets(self.flow_packets@) <= full_oct,
                spec_queue_packets(self.flow_packets@) <= full_pk,
                spec_total_octets(self.flow_stats@) <= old_total_oct + full_oct
                    - spec_queue_octets(self.flow_packets@),
                spec_total_packets(self.flow_stats@) <= old_total_pk + full_pk
                    - spec_queue_packets(self.flow_packets@),
                old_total_oct + full_oct <= u64::MAX ==> spec_total_octets(self.flow_stats@)
                    == old_total_oct + full_oct - spec_queue_octets(self.flow_packets@),
                old_total_pk + full_pk <= u64::MAX ==> spec_total_packets(self.flow_stats@)
                    == old_total_pk + full_pk - spec_queue_packets(self.flow_packets@),
                spec_fold_queue(
                    spec_flow_models(self.flow_stats@),
                    self.flow_packets@,
                    now,
                ) == spec_fold_queue(
                    spec_flow_models(old(self).flow_stats@),
                    old(self).flow_packets@,
                    now,
                ),
            ensures
                self.flow_packets@.len() == 0,
                spec_fold_queue(
                    spec_flow_models(self.flow_stats@),
                    self.flow_packets@,
                    now,
                ) == spec_fold_queue(
                    spec_flow_models(old(self).flow_stats@),
                    old(self).flow_packets@,
                    now,
                ),
            decreases self.flow_packets@.len(),
        {
            proof {
                if self.flow_packets@.len() > 0 {
                    lemma_queue_totals_nonneg(self.flow_packets@.drop_last());
                }
            }
            let pkt = match self.flow_packets.pop() {
                Some(p) => p,
                None => {
                    break ;
                },
            };
            fold_record_into_flows(&mut self.flow_stats, &pkt, now);
        }
        proof {
            assert(spec_queue_octets(self.flow_packets@) == 0);
            assert(spec_queue_packets(self.flow_packets@) == 0);
        }
    }

    /// Drains the pending queue, stamping updates with the wall clock.
    pub fn parse_packet_to_flow(&mut self)
        requires
            spec_sender_wf(*old(self)),
        ensures
            spec_sender_wf(*final(self)),
            final(self).ip_addr == old(self).ip_addr,
            final(self).templates@ == old(self).templates@,
            final(self).flow_packets@.len() == 0,
            final(self).flow_stats@.len() >= old(self).flow_stats@.len(),
            forall|i: int|
                0 <= i < old(self).flow_stats@.len() ==> spec_same_key(
                    #[trigger] final(self).flow_stats@[i],
                    old(self).flow_stats@[i],
                ),
            forall|i: int|
                0 <= i < old(self).flow_stats@.len() ==> (#[trigger] final(self).flow_stats@[i]).in_octets >= old(self).flow_stats@[i].in_octets && final(self).flow_stats@[i].in_packets >= old(self).flow_stats@[i].in_packets,
            forall|i: int|
                old(self).flow_stats@.len() <= i < final(self).flow_stats@.len() ==> (#[trigger]
                final(self).flow_stats@[i]).needs_db_update && !final(self).flow_stats@[i].in_db,
            spec_total_octets(old(self).flow_stats@) + spec_queue_octets(old(self).flow_packets@)
                <= u64::MAX ==> spec_total_octets(final(self).flow_stats@) == spec_total_octets(
                old(self).flow_stats@,
            ) + spec_queue_octets(old(self).flow_packets@),
            spec_total_packets(old(self).flow_stats@) + spec_queue_packets(
                old(self).flow_packets@,
            ) <= u64::MAX ==> spec_total_packets(final(self).flow_stats@) == spec_total_packets(
                old(self).flow_stats@,
            ) + spec_queue_packets(old(self).flow_packets@),
            spec_drained(
                spec_flow_models(final(self).flow_stats@),
                spec_flow_models(old(self).flow_stats@),
                old(self).flow_packets@,
            ),
    {
        let raw = crate::clock::now_seconds();
        let now: i64 = if raw < 0 {
            0
        } else if raw > i64::MAX - 60 {
            i64::MAX - 60
        } else {
            raw
        };
        self.fold_pending_records(now);
        proof {
            assert(spec_flow_models(self.flow_stats@) == spec_fold_queue(
                spec_flow_models(old(self).flow_stats@),
                old(self).flow_packets@,
                now,
            ));
            assert(spec_drained(
                spec_flow_models(self.flow_stats@),
                spec_flow_models(old(self).flow_stats@),
                old(self).flow_packets@,
            ));
        }
    }
}

/// Copies a pending-record queue.
fn copy_records(v: &Vec<DecodedRecord>) -> (r: Vec<DecodedRecord>)
    ensures
        r@ == v@,
{
    let mut out: Vec<DecodedRecord> = Vec::new();
    let n = v.len();
    let mut i: usize = 0;
    while i < n
        invariant
            i <= n,
            n == v@.len(),
            out@ == v@.take(i as int),
        decreases n - i,
    {
        out.push(v[i]);
        proof {
            assert(out@ =~= v@.take(i as int + 1));
        }
        i = i + 1;
    }
    proof {
        assert(v@.take(n as int) =~= v@);
    }
    out
}

/// Copies a delta history.
fn copy_deltas(v: &Vec<NetFlowDelta>) -> (r: Vec<NetFlowDelta>)
    ensures
        r@ == v@,
{
    let mut out: Vec<NetFlowDelta> = Vec::new();
    let n = v.len();
    let mut i: usize = 0;
    while i < n
        invariant
            i <= n,
            n == v@.len(),
            out@ == v@.take(i as int),
        decreases n - i,
    {
        out.push(v[i]);
        proof {
            assert(out@ =~= v@.take(i as int + 1));
        }
        i = i + 1;
    }
    proof {
        assert(v@.take(n as int) =~= v@);
    }
    out
}

/// Copies one flow, delta history included.
fn copy_flow(f: &NetFlow) -> (r: NetFlow)
    ensures
        r@ == f@,
        spec_same_key(r, *f),
        r.in_octets == f.in_octets,
        r.in_packets == f.in_packets,
        r.in_db == f.in_db,
        r.needs_db_update == f.needs_db_update,
        r.traffic_type == f.traffic_type,
        r.deltas@ == f.deltas@,
        r.created_time == f.created_time,
{
    NetFlow {
        src_ip: f.src_ip,
        dst_ip: f.dst_ip,
        src_port: f.src_port,
        dst_port: f.dst_port,
        protocol: f.protocol,
        in_octets: f.in_octets,
        in_packets: f.in_packets,
        in_db: f.in_db,
        needs_db_update: f.needs_db_update,
        traffic_type: f.traffic_type,
        deltas: copy_deltas(&f.deltas),
        created_time: f.created_time,
    }
}

/// Two senders hold the same content: address, template models, pending
/// queue and flow models all equal.
pub open spec fn spec_sender_copy(g: NetflowSender, r: NetflowSender) -> bool {
    &&& g.ip_addr == r.ip_addr
    &&& spec_template_models(g.templates@) == spec_template_models(r.templates@)
    &&& g.flow_packets@ == r.flow_packets@
    &&& spec_flow_models(g.flow_stats@) == spec_flow_models(r.flow_stats@)
}

/// Whether a sender is a copy of one of the first `x` received senders.
pub open spec fn spec_copy_of_prefix(
    g: NetflowSender,
    received: Seq<NetflowSender>,
    x: int,
) -> bool {
    exists|j: int| 0 <= j < x && j < received.len() && spec_sender_copy(g, #[trigger] received[j])
}

/// Copies one sender wholesale: templates, pending queue and flows.
fn copy_sender(s: &NetflowSender) -> (r: NetflowSender)
    ensures
        spec_sender_copy(r, *s),
        r.ip_addr == s.ip_addr,
        r.flow_packets@ == s.flow_packets@,
        r.flow_stats@.len() == s.flow_stats@.len(),
        spec_sender_wf(*s) ==> spec_sender_wf(r),
{
    let mut templates: Vec<NetflowTemplate> = Vec::new();
    let nt = s.templates.len();
    let mut i: usize = 0;
    while i < nt
        invariant
            i <= nt,
            nt == s.templates@.len(),
            templates@.len() == i,
            forall|j: int|
                0 <= j < i ==> (#[trigger] templates@[j])@ == s.templates@[j]@,
        decreases nt - i,
    {
        templates.push(crate::ingest::clone_template(&s.templates[i]));
        i = i + 1;
    }
    let mut flow_stats: Vec<NetFlow> = Vec::new();
    let nf = s.flow_stats.len();
    let mut k: usize = 0;
    while k < nf
        invariant
            k <= nf,
            nf == s.flow_stats@.len(),
            flow_stats@.len() == k,
            forall|j: int| 0 <= j < k ==> (#[trigger] flow_stats@[j])@ == s.flow_stats@[j]@,
        decreases nf - k,
    {
        flow_stats.push(copy_flow(&s.flow_stats[k]));
        k = k + 1;
    }
    proof {
        assert(templates@.map_values(|t: NetflowTemplate| t@) =~= s.templates@.map_values(
            |t: NetflowTemplate| t@,
        ));
        assert(spec_flow_models(flow_stats@) =~= spec_flow_models(s.flow_stats@));
        if spec_sender_wf(*s) {
            assert forall|a: int, b: int|
                0 <= a < b < flow_stats@.len() implies !spec_flow_pair_match(
                #[trigger] flow_stats@[a],
                #[trigger] flow_stats@[b],
            ) by {
                assert(!spec_flow_pair_match(s.flow_stats@[a], s.flow_stats@[b]));
            }
            assert forall|a: int| 0 <= a < flow_stats@.len() implies spec_flow_wf(
                #[trigger] flow_stats@[a],
            ) by {
                assert(spec_flow_wf(s.flow_stats@[a]));
            }
            assert forall|a: int, b: int|
                0 <= a < b < templates@.len() implies (#[trigger] templates@[a])@.id != (
            #[trigger] templates@[b])@.id by {
                assert(s.templates@[a]@.id != s.templates@[b]@.id);
            }
            assert forall|a: int| 0 <= a < templates@.len() implies spec_template_wf(
                (#[trigger] templates@[a])@,
            ) by {
                assert(spec_template_wf(s.templates@[a]@));
            }
        }
    }
    NetflowSender { ip_addr: s.ip_addr, templates, flow_packets: copy_records(&s.flow_packets), flow_stats }
}

/// Whether some sender in the registry owns an address.
pub open spec fn spec_has_sender(senders: Seq<NetflowSender>, ip: u32) -> bool {
    exists|i: int| 0 <= i < senders.len() && (#[trigger] senders[i]).ip_addr == ip
}

/// Merges freshly received senders into the global registry: a received
/// sender already present hands its whole pending queue, in order, to the
/// global one; an unknown sender is copied in whole and appended. Flows,
/// templates and addresses of pre-existing senders are untouched.
pub fn merge_senders(received_senders: &Vec<NetflowSender>, global_senders: &mut Vec<NetflowSender>)
    requires
        spec_registry_wf(old(global_senders)@),
        spec_registry_wf(received_senders@),
    ensures
        spec_registry_wf(final(global_senders)@),
        final(global_senders)@.len() >= old(global_senders)@.len(),
        forall|i: int|
            0 <= i < old(global_senders)@.len() ==> {
                let g = #[trigger] final(global_senders)@[i];
                &&& g.ip_addr == old(global_senders)@[i].ip_addr
                &&& g.flow_stats@ == old(global_senders)@[i].flow_stats@
                &&& g.templates@ == old(global_senders)@[i].templates@
                &&& old(global_senders)@[i].flow_packets@.is_prefix_of(g.flow_packets@)
            },
        forall|j: int, i: int|
            0 <= j < received_senders@.len() && 0 <= i < old(global_senders)@.len() && (#[trigger]
            received_senders@[j]).ip_addr == (#[trigger] old(global_senders)@[i]).ip_addr ==> final(global_senders)@[i].flow_packets@ == old(global_senders)@[i].flow_packets@ + received_senders@[
                j].flow_packets@,
        forall|i: int|
            0 <= i < old(global_senders)@.len() && (forall|j: int|
                0 <= j < received_senders@.len() ==> (#[trigger] received_senders@[j]).ip_addr
                    != old(global_senders)@[i].ip_addr) ==> #[trigger] final(global_senders)@[i]
                == old(global_senders)@[i],
        forall|k: int|
            old(global_senders)@.len() <= k < final(global_senders)@.len()
                ==> spec_copy_of_prefix(
                #[trigger] final(global_senders)@[k],
                received_senders@,
                received_senders@.len() as int,
            ),
        forall|j: int|
            0 <= j < received_senders@.len() ==> spec_has_sender(
                final(global_senders)@,
                (#[trigger] received_senders@[j]).ip_addr,
            ),
{
    let n = received_senders.len();
    let mut x: usize = 0;
    while x < n
        invariant
            x <= n,
            n == received_senders@.len(),
            spec_registry_wf(global_senders@),
            spec_registry_wf(received_senders@),
            global_senders@.len() >= old(global_senders)@.len(),
            forall|i: int|
                0 <= i < old(global_senders)@.len() ==> {
                    let g = #[trigger] global_senders@[i];
                    &&& g.ip_addr == old(global_senders)@[i].ip_addr
                    &&& g.flow_stats@ == old(global_senders)@[i].flow_stats@
                    &&& g.templates@ == old(global_senders)@[i].templates@
                    &&& old(global_senders)@[i].flow_packets@.is_prefix_of(g.flow_packets@)
                },
            forall|j: int, i: int|
                0 <= j < x && 0 <= i < old(global_senders)@.len() && (#[trigger]
                received_senders@[j]).ip_addr == (#[trigger] old(global_senders)@[i]).ip_addr
                    ==> global_senders@[i].flow_packets@ == old(global_senders)@[
                    i].flow_packets@ + received_senders@[j].flow_packets@,
            forall|i: int|
                0 <= i < old(global_senders)@.len() && (forall|j: int|
                    0 <= j < x ==> (#[trigger] received_senders@[j]).ip_addr != old(global_senders)@[i].ip_addr) ==> #[trigger] global_senders@[i] == old(global_senders)@[i],
            forall|k: int|
                old(global_senders)@.len() <= k < global_senders@.len() ==> spec_copy_of_prefix(
                    #[trigger] global_senders@[k],
                    received_senders@,
                    x as int,
                ),
            forall|j: int|
                0 <= j < x ==> spec_has_sender(
                    global_senders@,
                    (#[trigger] received_senders@[j]).ip_addr,
                ),
        decreases n - x,
    {
        let s = &received_senders[x];
        match match_sender(global_senders, s.ip_addr) {
            Ok(gi) => {
                let ghost pre = global_senders@;
                proof {
                    if gi >= old(global_senders)@.len() {
                        assert(spec_copy_of_prefix(pre[gi as int], received_senders@, x as int));
                        let j = choose|j: int|
                            0 <= j < x && j < received_senders@.len() && spec_sender_copy(
                                pre[gi as int],
                                #[trigger] received_senders@[j],
                            );
                        assert(received_senders@[j].ip_addr == received_senders@[x as int].ip_addr);
                        assert(false);
                    }
                    assert forall|j: int|
                        0 <= j < x implies (#[trigger] received_senders@[j]).ip_addr != old(global_senders)@[gi as int].ip_addr by {
                        if received_senders@[j].ip_addr == old(global_senders)@[
                        gi as int].ip_addr {
                            assert(received_senders@[j].ip_addr == received_senders@[
                            x as int].ip_addr);
                        }
                    }
                    assert(pre[gi as int] == old(global_senders)@[gi as int]);
                }
                let mut g = global_senders.remove(gi);
                let pending = copy_records(&s.flow_packets);
                let np = pending.len();
                let mut p: usize = 0;
                proof {
                    assert(g.flow_packets@ =~= pre[gi as int].flow_packets@ + pending@.take(0));
                }
                while p < np
                    invariant
                        p <= np,
                        np == pending@.len(),
                        pending@ == received_senders@[x as int].flow_packets@,
                        spec_sender_wf(g),
                        gi < pre.len(),
                        g.ip_addr == pre[gi as int].ip_addr,
                        g.flow_stats@ == pre[gi as int].flow_stats@,
                        g.templates@ == pre[gi as int].templates@,
                        g.flow_packets@ == pre[gi as int].flow_packets@ + pending@.take(p as int),
                    decreases np - p,
                {
                    let rec = pending[p];
                    g.flow_packets.push(rec);
                    proof {
                        assert(g.flow_packets@ =~= pre[gi as int].flow_packets@ + pending@.take(
                            p as int + 1,
                        ));
                    }
                    p = p + 1;
                }
                proof {
                    assert(pending@.take(np as int) =~= pending@);
                    assert(g.flow_packets@ == pre[gi as int].flow_packets@ + received_senders@[
                    x as int].flow_packets@);
                }
                global_senders.insert(gi, g);
                proof {
                    assert(global_senders@ =~= pre.update(gi as int, g));
                    assert(global_senders@[gi as int].ip_addr == received_senders@[
                    x as int].ip_addr);
                    assert forall|i: int|
                        0 <= i < old(global_senders)@.len() implies old(global_senders)@[i].flow_packets@.is_prefix_of(
                        (#[trigger] global_senders@[i]).flow_packets@,
                    ) by {
                        let a = old(global_senders)@[i].flow_packets@;
                        let c = global_senders@[i].flow_packets@;
                        if i == gi {
                            assert(c.subrange(0, a.len() as int) =~= a);
                        } else {
                            assert(a.is_prefix_of(pre[i].flow_packets@));
                        }
                    }
                    assert forall|j: int, i: int|
                        0 <= j < x + 1 && 0 <= i < old(global_senders)@.len() && (#[trigger]
                        received_senders@[j]).ip_addr == (#[trigger] old(global_senders)@[
                        i]).ip_addr implies global_senders@[i].flow_packets@ == old(global_senders)@[i].flow_packets@ + received_senders@[j].flow_packets@ by {
                        if j == x {
                            if i != gi {
                                assert(received_senders@[x as int].ip_addr == old(global_senders)@[gi as int].ip_addr);
                                assert(old(global_senders)@[i].ip_addr == old(global_senders)@[
                                gi as int].ip_addr);
                                assert(pre[i].ip_addr == old(global_senders)@[i].ip_addr);
                                assert(pre[gi as int].ip_addr == old(global_senders)@[
                                gi as int].ip_addr);
                                if i < gi {
                                    assert(pre[i].ip_addr != pre[gi as int].ip_addr);
                                } else {
                                    assert(pre[gi as int].ip_addr != pre[i].ip_addr);
                                }
                                assert(false);
                            }
                        } else {
                            assert(received_senders@[j].ip_addr != old(global_senders)@[
                            gi as int].ip_addr);
                            assert(i != gi);
                            assert(global_senders@[i] == pre[i]);
                        }
                    }
                    assert forall|k: int|
                        old(global_senders)@.len() <= k < global_senders@.len()
                            implies spec_copy_of_prefix(
                        #[trigger] global_senders@[k],
                        received_senders@,
                        x as int + 1,
                    ) by {
                        assert(global_senders@[k] == pre[k]);
                        assert(spec_copy_of_prefix(pre[k], received_senders@, x as int));
                        let j = choose|j: int|
                            0 <= j < x && j < received_senders@.len() && spec_sender_copy(
                                pre[k],
                                #[trigger] received_senders@[j],
                            );
                        assert(0 <= j < x + 1 && spec_sender_copy(
                            global_senders@[k],
                            received_senders@[j],
                        ));
                    }
                    assert forall|j: int| 0 <= j < x + 1 implies spec_has_sender(
                        global_senders@,
                        (#[trigger] received_senders@[j]).ip_addr,
                    ) by {
                        if j == x {
                            assert(global_senders@[gi as int].ip_addr == received_senders@[
                            j].ip_addr);
                        } else {
                            assert(spec_has_sender(pre, received_senders@[j].ip_addr));
                            let wi = choose|i: int|
                                0 <= i < pre.len() && (#[trigger] pre[i]).ip_addr
                                    == received_senders@[j].ip_addr;
                            assert(global_senders@[wi].ip_addr == received_senders@[j].ip_addr);
                        }
                    }
                }
            },
            Err(()) => {
                let g = copy_sender(s);
                proof {
                    assert forall|i: int|
                        0 <= i < global_senders@.len() implies (#[trigger]
                    global_senders@[i]).ip_addr != g.ip_addr by {}
                }
                let ghost pre = global_senders@;
                global_senders.push(g);
                proof {
                    assert(global_senders@[global_senders@.len() - 1].ip_addr
                        == received_senders@[x as int].ip_addr);
                    assert forall|j: int, i: int|
                        0 <= j < x + 1 && 0 <= i < old(global_senders)@.len() && (#[trigger]
                        received_senders@[j]).ip_addr == (#[trigger] old(global_senders)@[
                        i]).ip_addr implies global_senders@[i].flow_packets@ == old(global_senders)@[i].flow_packets@ + received_senders@[j].flow_packets@ by {
                        assert(global_senders@[i] == pre[i]);
                        if j == x {
                            assert(pre[i].ip_addr == old(global_senders)@[i].ip_addr);
                            assert(false);
                        }
                    }
                    assert forall|k: int|
                        old(global_senders)@.len() <= k < global_senders@.len()
                            implies spec_copy_of_prefix(
                        #[trigger] global_senders@[k],
                        received_senders@,
                        x as int + 1,
                    ) by {
                        if k < pre.len() {
                            assert(global_senders@[k] == pre[k]);
                            assert(spec_copy_of_prefix(pre[k], received_senders@, x as int));
                            let j = choose|j: int|
                                0 <= j < x && j < received_senders@.len() && spec_sender_copy(
                                    pre[k],
                                    #[trigger] received_senders@[j],
                                );
                            assert(0 <= j < x + 1 && spec_sender_copy(
                                global_senders@[k],
                                received_senders@[j],
                            ));
                        } else {
                            assert(global_senders@[k] == g);
                            assert(spec_sender_copy(g, received_senders@[x as int]));
                        }
                    }
                    assert forall|j: int| 0 <= j < x + 1 implies spec_has_sender(
                        global_senders@,
                        (#[trigger] received_senders@[j]).ip_addr,
                    ) by {
                        if j == x {
                            assert(global_senders@[global_senders@.len() - 1].ip_addr
                                == received_senders@[j].ip_addr);
                        } else {
                            assert(spec_has_sender(pre, received_senders@[j].ip_addr));
                            let wi = choose|i: int|
                                0 <= i < pre.len() && (#[trigger] pre[i]).ip_addr
                                    == received_senders@[j].ip_addr;
                            assert(global_senders@[wi].ip_addr == received_senders@[j].ip_addr);
                        }
                    }
                }
            },
        }
        x = x + 1;
    }
}

} // verus!
