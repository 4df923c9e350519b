//! The ingest step for one received datagram: version gate, the walk over
//! every set the datagram packs, template installation and template-gated
//! decoding of data sets into the owning sender's pending queue.

use crate::bytes::spec_be16_at;
use crate::senders::match_sender;
use crate::senders::spec_registry_wf;
use crate::senders::spec_sender_wf;
use crate::senders::NetflowSender;
use crate::senders::spec_find_template;
use crate::senders::spec_find_model;
use crate::senders::spec_install;
use crate::senders::spec_template_models;
use crate::senders::lemma_find_model_bridge;
use crate::templates::NetflowTemplate;
use crate::templates::TemplateModel;
use crate::senders::find_template_index;
use crate::templates::decode_data_set;
use crate::templates::DecodedRecord;
use crate::templates::spec_parse_templates;

use crate::templates::parse_template_set;
use crate::templates::record_byte_len;
use crate::templates::spec_decode_fields;
use crate::templates::spec_empty_record;
use crate::templates::spec_width_sum;
use crate::wire::parse_set_header;
use crate::wire::V9_VERSION;
use vstd::prelude::*;

verus! {

/// What one datagram did to the registry.
#[derive(Clone, Copy, PartialEq, Eq, Structural, Debug)]
pub enum IngestOutcome {
    /// The datagram was dropped: too short or not version 9.
    Rejected,
    /// The datagram was processed; `new_sender` says whether the source
    /// address was seen for the first time, so the caller can write the
    /// senders row.
    Accepted { new_sender: bool },
}

/// Every template of a template set installed in order.
pub open spec fn spec_install_all(ts: Seq<TemplateModel>, learned: Seq<TemplateModel>) -> Seq<
    TemplateModel,
>
    decreases learned.len(),
{
    if learned.len() == 0 {
        ts
    } else {
        spec_install_all(spec_install(ts, learned[0]), learned.drop_first())
    }
}

/// The records one data set yields against the installed templates: none
/// when the referenced template is absent or occupies no octets, else every
/// whole record slice between `body_start` and `set_end`.
pub open spec fn spec_data_records(
    ts: Seq<TemplateModel>,
    s: Seq<u8>,
    body_start: int,
    set_end: int,
    set_id: u16,
) -> Seq<DecodedRecord> {
    match spec_find_model(ts, set_id) {
        Some(m) => {
            let l = spec_width_sum(m.fields);
            if l <= 0 || set_end < body_start {
                Seq::empty()
            } else {
                Seq::new(
                    ((set_end - body_start) / l) as nat,
                    |i: int|
                        spec_decode_fields(
                            spec_empty_record(),
                            m.fields,
                            s.subrange(body_start + i * l, body_start + (i + 1) * l),
                        ),
                )
            }
        },
        None => Seq::empty(),
    }
}

/// The walk over every set of a datagram from `pos` on: a template set
/// installs its templates, a data set appends its decoded records, reserved
/// sets are skipped, and a declared length under the set-header size stops
/// the walk. Returns the installed templates and the pending queue.
pub open spec fn spec_walk_sets(
    ts: Seq<TemplateModel>,
    q: Seq<DecodedRecord>,
    s: Seq<u8>,
    pos: int,
) -> (Seq<TemplateModel>, Seq<DecodedRecord>)
    decreases s.len() - pos,
{
    if pos < 0 || s.len() - pos < 4 {
        (ts, q)
    } else {
        let set_id = spec_be16_at(s, pos);
        let set_len = spec_be16_at(s, pos + 2);
        if set_len < 4 {
            (ts, q)
        } else {
            let set_end = if pos + set_len <= s.len() {
                pos + set_len
            } else {
                s.len() as int
            };
            if set_id == 0 {
                spec_walk_sets(
                    spec_install_all(ts, spec_parse_templates(s, pos + 4, set_end)),
                    q,
                    s,
                    set_end,
                )
            } else if set_id >= 256 {
                spec_walk_sets(
                    ts,
                    q + spec_data_records(ts, s, pos + 4, set_end, set_id as u16),
                    s,
                    set_end,
                )
            } else {
                spec_walk_sets(ts, q, s, set_end)
            }
        }
    }
}

/// Decodes one data set against the sender's template for `set_id` and
/// appends the records to the pending queue. A set whose template is absent
/// is dropped whole: no record is produced for it.
pub fn process_data_set(
    s: &mut NetflowSender,
    buf: &Vec<u8>,
    body_start: usize,
    set_end: usize,
    set_id: u16,
) -> (appended: usize)
    requires
        spec_sender_wf(*old(s)),
        body_start <= set_end <= buf.len(),
    ensures
        spec_sender_wf(*final(s)),
        final(s).ip_addr == old(s).ip_addr,
        final(s).templates@ == old(s).templates@,
        final(s).flow_stats@ == old(s).flow_stats@,
        final(s).flow_packets@.len() == old(s).flow_packets@.len() + appended,
        forall|i: int|
            0 <= i < old(s).flow_packets@.len() ==> final(s).flow_packets@[i] == old(s).flow_packets@[i],
        spec_find_template(old(s).templates@, set_id) is None ==> final(s).flow_packets@ == old(s).flow_packets@,
        final(s).flow_packets@ == old(s).flow_packets@ + spec_data_records(
            spec_template_models(old(s).templates@),
            buf@,
            body_start as int,
            set_end as int,
            set_id,
        ),
        spec_find_template(old(s).templates@, set_id) matches Some(m) ==> ((spec_width_sum(
            m.fields,
        ) > 0 && spec_width_sum(m.fields) <= set_end - body_start) ==> {
            let l = spec_width_sum(m.fields);
            &&& appended == (set_end - body_start) as int / l
            &&& forall|i: int|
                0 <= i < appended
                    ==> #[trigger] final(s).flow_packets@[old(s).flow_packets@.len() + i]
                    == spec_decode_fields(
                    spec_empty_record(),
                    m.fields,
                    buf@.subrange(
                        body_start + i * l,
                        body_start + (i + 1) * l,
                    ),
                )
        }),
{
    proof {
        lemma_find_model_bridge(old(s).templates@, set_id);
    }
    let idx = match find_template_index(&s.templates, set_id) {
        Some(i) => i,
        None => {
            proof {
                assert(s.flow_packets@ =~= s.flow_packets@ + spec_data_records(
                    spec_template_models(old(s).templates@),
                    buf@,
                    body_start as int,
                    set_end as int,
                    set_id,
                ));
            }
            return 0;
        },
    };
    proof {
        assert(spec_find_template(old(s).templates@, set_id) == Some(
            old(s).templates@[idx as int]@,
        ));
        assert(old(s).templates@[idx as int]@.fields == old(s).templates@[idx as int].fields@);
        assert(spec_find_model(spec_template_models(old(s).templates@), set_id) == Some(
            old(s).templates@[idx as int]@,
        ));
    }
    let rec_len_u64 = record_byte_len(&s.templates[idx].fields);
    let ghost drecs = spec_data_records(
        spec_template_models(old(s).templates@),
        buf@,
        body_start as int,
        set_end as int,
        set_id,
    );
    if rec_len_u64 == 0 {
        proof {
            assert(drecs =~= Seq::<DecodedRecord>::empty());
            assert(s.flow_packets@ =~= s.flow_packets@ + drecs);
        }
        return 0;
    }
    if rec_len_u64 > (set_end - body_start) as u64 {
        proof {
            let l = spec_width_sum(old(s).templates@[idx as int]@.fields);
            let d = set_end - body_start;
            assert(d as int / l == 0) by (nonlinear_arith)
                requires
                    0 <= d < l,
            ;
            assert(drecs =~= Seq::<DecodedRecord>::empty());
            assert(s.flow_packets@ =~= s.flow_packets@ + drecs);
        }
        return 0;
    }
    let rec_len: usize = rec_len_u64 as usize;
    let records = decode_data_set(&s.templates[idx].fields, buf, body_start, set_end, rec_len);
    let mut k: usize = 0;
    let n = records.len();
    while k < n
        invariant
            k <= n,
            n == records.len(),
            spec_sender_wf(*s),
            s.ip_addr == old(s).ip_addr,
            s.templates@ == old(s).templates@,
            s.flow_stats@ == old(s).flow_stats@,
            s.flow_packets@.len() == old(s).flow_packets@.len() + k,
            forall|i: int|
                0 <= i < old(s).flow_packets@.len() ==> s.flow_packets@[i] == old(s).flow_packets@[i],
            forall|i: int|
                0 <= i < k ==> s.flow_packets@[old(s).flow_packets@.len() + i] == records@[i],
        decreases n - k,
    {
        let r = records[k];
        s.flow_packets.push(r);
        k = k + 1;
    }
    proof {
        let m = old(s).templates@[idx as int]@;
        let l = spec_width_sum(m.fields);
        assert(rec_len == l);
        assert(n as int == (set_end - body_start) as int / l);
        assert forall|i: int|
            0 <= i < n implies #[trigger] s.flow_packets@[old(s).flow_packets@.len() + i]
            == spec_decode_fields(
            spec_empty_record(),
            m.fields,
            buf@.subrange(body_start + i * l, body_start + (i + 1) * l),
        ) by {
            assert(s.flow_packets@[old(s).flow_packets@.len() + i] == records@[i]);
            assert(records@[i] == spec_decode_fields(
                spec_empty_record(),
                m.fields,
                buf@.subrange(
                    body_start as int + i * rec_len as int,
                    body_start as int + (i + 1) * rec_len as int,
                ),
            ));
        }
        assert(drecs.len() == n as int);
        assert forall|i: int| 0 <= i < n implies drecs[i] == records@[i] by {
            assert(drecs[i] == spec_decode_fields(
                spec_empty_record(),
                m.fields,
                buf@.subrange(body_start + i * l, body_start + (i + 1) * l),
            ));
        }
        assert(drecs =~= records@);
        assert(s.flow_packets@ =~= old(s).flow_packets@ + records@);
    }
    n
}

/// Ingests one datagram for its source: drops it unless it is long enough
/// and carries version 9; otherwise resolves (or creates) the sender, then
/// walks every set until the declared lengths exhaust the payload,
/// installing templates from template sets and decoding data sets against
/// the templates already learned. Flows are untouched: folding the pending
/// queue is a separate step.
pub fn handle_datagram(
    senders: &mut Vec<NetflowSender>,
    buf: &Vec<u8>,
    source_ip: u32,
) -> (r: IngestOutcome)
    requires
        spec_registry_wf(old(senders)@),
    ensures
        spec_registry_wf(final(senders)@),
        r == IngestOutcome::Rejected <==> (buf.len() < 24 || spec_be16_at(buf@, 0)
            != V9_VERSION as int),
        r == IngestOutcome::Rejected ==> final(senders)@ == old(senders)@,
        r matches IngestOutcome::Accepted { new_sender } ==> {
            &&& (new_sender <==> (forall|j: int|
                0 <= j < old(senders)@.len() ==> (#[trigger] old(senders)@[j]).ip_addr
                    != source_ip))
            &&& new_sender ==> final(senders)@.len() == old(senders)@.len() + 1 && (forall|j: int|
                0 <= j < old(senders)@.len() ==> final(senders)@[j] == old(senders)@[j]) && final(senders)@.last().ip_addr == source_ip && final(senders)@.last().flow_stats@.len() == 0
                && spec_template_models(final(senders)@.last().templates@) == spec_walk_sets(
                Seq::<TemplateModel>::empty(),
                Seq::<DecodedRecord>::empty(),
                buf@,
                20,
            ).0 && final(senders)@.last().flow_packets@ == spec_walk_sets(
                Seq::<TemplateModel>::empty(),
                Seq::<DecodedRecord>::empty(),
                buf@,
                20,
            ).1
            &&& !new_sender ==> final(senders)@.len() == old(senders)@.len() && exists|i: int|
                0 <= i < old(senders)@.len() && (#[trigger] old(senders)@[i]).ip_addr == source_ip
                    && (forall|j: int|
                    0 <= j < old(senders)@.len() && j != i ==> final(senders)@[j] == old(senders)@[j]) && final(senders)@[i].ip_addr == source_ip && final(senders)@[i].flow_stats@ == old(senders)@[i].flow_stats@ && old(senders)@[i].flow_packets@.is_prefix_of(final(senders)@[i].flow_packets@)
                    && spec_template_models(final(senders)@[i].templates@) == spec_walk_sets(
                    spec_template_models(old(senders)@[i].templates@),
                    old(senders)@[i].flow_packets@,
                    buf@,
                    20,
                ).0 && final(senders)@[i].flow_packets@ == spec_walk_sets(
                    spec_template_models(old(senders)@[i].templates@),
                    old(senders)@[i].flow_packets@,
                    buf@,
                    20,
                ).1
        },
{
    if buf.len() < 24 {
        return IngestOutcome::Rejected;
    }
    let version = crate::bytes::be_u16_at(buf, 0);
    if version != V9_VERSION {
        return IngestOutcome::Rejected;
    }
    let (idx, new_sender) = match match_sender(senders, source_ip) {
        Ok(i) => (i, false),
        Err(()) => {
            let s = NetflowSender {
                ip_addr: source_ip,
                templates: Vec::new(),
                flow_packets: Vec::new(),
                flow_stats: Vec::new(),
            };
            let i = senders.len();
            senders.push(s);
            (i, true)
        },
    };
    let mut s = senders.remove(idx);
    let ghost s0 = s;
    let ghost walked = spec_walk_sets(
        spec_template_models(s0.templates@),
        s0.flow_packets@,
        buf@,
        20,
    );
    let mut pos: usize = 20;
    while buf.len() - pos >= 4
        invariant
            20 <= pos,
            pos <= buf.len(),
            spec_sender_wf(s),
            s.ip_addr == s0.ip_addr,
            s.flow_stats@ == s0.flow_stats@,
            s0.flow_packets@.is_prefix_of(s.flow_packets@),
            walked == spec_walk_sets(
                spec_template_models(s0.templates@),
                s0.flow_packets@,
                buf@,
                20,
            ),
            spec_walk_sets(
                spec_template_models(s.templates@),
                s.flow_packets@,
                buf@,
                pos as int,
            ) == walked,
        ensures
            spec_sender_wf(s),
            s.ip_addr == s0.ip_addr,
            s.flow_stats@ == s0.flow_stats@,
            s0.flow_packets@.is_prefix_of(s.flow_packets@),
            spec_template_models(s.templates@) == walked.0,
            s.flow_packets@ == walked.1,
        decreases buf.len() - pos,
    {
        let (set_id, set_len) = parse_set_header(buf, pos);
        if set_len < 4 {
            break ;
        }
        let set_end: usize = if (set_len as usize) > buf.len() - pos {
            buf.len()
        } else {
            pos + set_len as usize
        };
        let ghost ts_at_set = spec_template_models(s.templates@);
        let ghost q_at_set = s.flow_packets@;
        proof {
            assert(set_end as int == (if pos as int + set_len as int <= buf@.len() {
                pos as int + set_len as int
            } else {
                buf@.len() as int
            }));
        }
        if set_id == 0 {
            let learned = parse_template_set(buf, pos + 4, set_end);
            let ghost learned_models = spec_parse_templates(
                buf@,
                pos as int + 4,
                set_end as int,
            );
            proof {
                assert(learned@.map_values(|t: NetflowTemplate| t@) == learned_models);
                assert(learned_models.skip(0) =~= learned_models);
            }
            let m = learned.len();
            let mut t: usize = 0;
            while t < m
                invariant
                    t <= m,
                    m == learned.len(),
                    learned@.map_values(|x: NetflowTemplate| x@) == learned_models,
                    forall|i: int|
                        0 <= i < m ==> crate::templates::spec_template_wf(
                            (#[trigger] learned@[i])@,
                        ),
                    spec_sender_wf(s),
                    s.ip_addr == s0.ip_addr,
                    s.flow_stats@ == s0.flow_stats@,
                    s.flow_packets@ == q_at_set,
                    s0.flow_packets@.is_prefix_of(s.flow_packets@),
                    spec_install_all(
                        spec_template_models(s.templates@),
                        learned_models.skip(t as int),
                    ) == spec_install_all(ts_at_set, learned_models),
                decreases m - t,
            {
                proof {
                    assert(learned@.map_values(|x: NetflowTemplate| x@)[t as int] == learned@[
                    t as int]@);
                    assert(learned_models.skip(t as int)[0] == learned_models[t as int]);
                    assert(learned_models.skip(t as int).drop_first() =~= learned_models.skip(
                        t as int + 1,
                    ));
                }
                let tpl = clone_template(&learned[t]);
                s.install_template(tpl);
                t = t + 1;
            }
            proof {
                assert(learned_models.skip(m as int) =~= Seq::<TemplateModel>::empty());
                assert(spec_template_models(s.templates@) == spec_install_all(
                    ts_at_set,
                    learned_models,
                ));
            }
        } else if set_id >= 256 {
            process_data_set(&mut s, buf, pos + 4, set_end, set_id);
            proof {
                assert(s0.flow_packets@.is_prefix_of(s.flow_packets@));
            }
        }
        proof {
            assert(spec_walk_sets(ts_at_set, q_at_set, buf@, pos as int) == spec_walk_sets(
                spec_template_models(s.templates@),
                s.flow_packets@,
                buf@,
                set_end as int,
            ));
            assert(set_end >= pos + 4);
        }
        pos = set_end;
    }
    senders.insert(idx, s);
    proof {
        if !new_sender {
            assert(senders@ =~= old(senders)@.update(idx as int, s));
            assert(s0 == old(senders)@[idx as int]);
        } else {
            assert(senders@ =~= old(senders)@.push(s));
            assert(spec_template_models(s0.templates@) =~= Seq::<TemplateModel>::empty());
            assert(s0.flow_packets@ =~= Seq::<DecodedRecord>::empty());
        }
    }
    IngestOutcome::Accepted { new_sender }
}

/// Copies one template, slot list included.
pub fn clone_template(t: &NetflowTemplate) -> (r: NetflowTemplate)
    ensures
        r@ == t@,
{
    let mut fields: Vec<(crate::fields::FlowField, u16)> = Vec::new();
    let n = t.fields.len();
    let mut i: usize = 0;
    while i < n
        invariant
            i <= n,
            n == t.fields@.len(),
            fields@ == t.fields@.take(i as int),
        decreases n - i,
    {
        fields.push(t.fields[i]);
        proof {
            assert(fields@ =~= t.fields@.take(i as int + 1));
        }
        i = i + 1;
    }
    proof {
        assert(t.fields@.take(n as int) =~= t.fields@);
    }
    NetflowTemplate { id: t.id, field_count: t.field_count, fields }
}

} // verus!
