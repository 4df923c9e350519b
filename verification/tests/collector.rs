//! End-to-end exercises of the collector pipeline: template learning, data
//! decoding, flow aggregation and the persistence gateway over an in-memory
//! store.

use ez_netflow::check_if_flow_exists_in_db;
use ez_netflow::handle_datagram;
use ez_netflow::find_template_index;
use ez_netflow::parse_flow_template;
use ez_netflow::setup_db;
use ez_netflow::update_senders_in_db;
use ez_netflow::ConnType;
use ez_netflow::merge_senders;
use ez_netflow::IngestOutcome;
use ez_netflow::NetflowSender;
use ez_netflow::TrafficType;

fn be16(v: u16) -> [u8; 2] {
    v.to_be_bytes()
}

fn be32(v: u32) -> [u8; 4] {
    v.to_be_bytes()
}

fn header_v9() -> Vec<u8> {
    let mut b = Vec::new();
    b.extend_from_slice(&be16(9)); // version
    b.extend_from_slice(&be16(1)); // count
    b.extend_from_slice(&be32(0x28671274)); // sys uptime
    b.extend_from_slice(&be32(0x679018ee)); // unix secs
    b.extend_from_slice(&be32(0x535a)); // sequence
    b.extend_from_slice(&be32(0x100)); // source id
    b
}

fn template_datagram_258() -> Vec<u8> {
    let mut b = header_v9();
    // template set: set id 0, set length 4 + 4 + 7 * 4 = 36
    b.extend_from_slice(&be16(0));
    b.extend_from_slice(&be16(36));
    b.extend_from_slice(&be16(258));
    b.extend_from_slice(&be16(7));
    for (ft, ln) in [(8u16, 4u16), (12, 4), (4, 1), (7, 2), (11, 2), (1, 4), (2, 4)] {
        b.extend_from_slice(&be16(ft));
        b.extend_from_slice(&be16(ln));
    }
    b
}

fn data_record(src: u32, dst: u32, proto: u8, sport: u16, dport: u16, oct: u32, pk: u32) -> Vec<u8> {
    let mut r = Vec::new();
    r.extend_from_slice(&be32(src));
    r.extend_from_slice(&be32(dst));
    r.push(proto);
    r.extend_from_slice(&be16(sport));
    r.extend_from_slice(&be16(dport));
    r.extend_from_slice(&be32(oct));
    r.extend_from_slice(&be32(pk));
    r
}

fn data_datagram_258(records: &[Vec<u8>]) -> Vec<u8> {
    let mut body = Vec::new();
    for r in records {
        body.extend_from_slice(r);
    }
    while (4 + body.len()) % 4 != 0 {
        body.push(0); // trailing padding to a 4-octet boundary
    }
    let mut b = header_v9();
    b.extend_from_slice(&be16(258));
    b.extend_from_slice(&be16((4 + body.len()) as u16));
    b.extend_from_slice(&body);
    b
}

const SENDER: u32 = 0x0a000028; // 10.0.0.40

#[test]
fn test_template_data() {
    let fake_template_data: Vec<u8> = vec![
        0x00, 0x09, 0x00, 0x01, 0x28, 0x67, 0x12, 0x74, 0x67, 0x90, 0x18, 0xee, 0x00, 0x00, 0x53,
        0x5a, 0x00, 0x00, 0x01, 0x00, 0x00, 0x00, 0x00, 0x30, 0x01, 0x02, 0x00, 0x0a, 0x00, 0x08,
        0x00, 0x04, 0x00, 0x0c, 0x00, 0x04, 0x00, 0x04, 0x00, 0x01, 0x00, 0x07, 0x00, 0x02, 0x00,
        0x0b, 0x00, 0x02, 0x00, 0x06, 0x00, 0x01, 0x00, 0x0a, 0x00, 0x04, 0x00, 0x0e, 0x00, 0x04,
        0x00, 0x01, 0x00, 0x04, 0x00, 0x02, 0x00, 0x04,
    ];
    let returned_template = parse_flow_template(&fake_template_data).unwrap();
    let field_count = returned_template.field_count;
    if field_count != Some(10) {
        panic!("Field count isn't right");
    }
}

#[test]
fn template_acquisition_registers_sender() {
    let mut senders: Vec<NetflowSender> = Vec::new();
    let r = handle_datagram(&mut senders, &template_datagram_258(), SENDER);
    assert_eq!(r, IngestOutcome::Accepted { new_sender: true });
    assert_eq!(senders.len(), 1);
    assert_eq!(senders[0].ip_addr, SENDER);
    let idx = find_template_index(&senders[0].templates, 258).unwrap();
    assert_eq!(senders[0].templates[idx].field_count, Some(7));
    assert_eq!(senders[0].templates[idx].fields.len(), 7);
}

#[test]
fn data_against_known_template_builds_flow() {
    let mut senders: Vec<NetflowSender> = Vec::new();
    handle_datagram(&mut senders, &template_datagram_258(), SENDER);
    let rec = data_record(0x0a000001, 0x0a000002, 6, 0x1234, 0x0050, 1000, 10);
    let r = handle_datagram(&mut senders, &data_datagram_258(&[rec]), SENDER);
    assert_eq!(r, IngestOutcome::Accepted { new_sender: false });
    assert_eq!(senders[0].flow_packets.len(), 1);
    senders[0].parse_packet_to_flow();
    assert_eq!(senders[0].flow_packets.len(), 0);
    assert_eq!(senders[0].flow_stats.len(), 1);
    let f = &senders[0].flow_stats[0];
    assert_eq!(f.src_ip, 0x0a000001);
    assert_eq!(f.dst_ip, 0x0a000002);
    assert_eq!(f.src_port, 0x1234);
    assert_eq!(f.dst_port, 0x0050);
    assert_eq!(f.protocol, 6);
    assert_eq!(f.in_octets, 1000);
    assert_eq!(f.in_packets, 10);
    assert_eq!(f.traffic_type, TrafficType::Unicast);
    assert!(f.needs_db_update);
    assert!(!f.in_db);
}

#[test]
fn reverse_direction_folds_into_same_flow() {
    let mut senders: Vec<NetflowSender> = Vec::new();
    handle_datagram(&mut senders, &template_datagram_258(), SENDER);
    let fwd = data_record(0x0a000001, 0x0a000002, 6, 0x1234, 0x0050, 1000, 10);
    handle_datagram(&mut senders, &data_datagram_258(&[fwd]), SENDER);
    senders[0].parse_packet_to_flow();
    let rev = data_record(0x0a000002, 0x0a000001, 6, 0x0050, 0x1234, 500, 5);
    handle_datagram(&mut senders, &data_datagram_258(&[rev]), SENDER);
    senders[0].parse_packet_to_flow();
    assert_eq!(senders[0].flow_stats.len(), 1);
    let f = &senders[0].flow_stats[0];
    assert_eq!(f.in_octets, 1500);
    assert_eq!(f.in_packets, 15);
}

#[test]
fn broadcast_mac_rescues_traffic_type() {
    // template 260: SrcAddr/4, DstAddr/4, InDstMac/6
    let mut b = header_v9();
    b.extend_from_slice(&be16(0));
    b.extend_from_slice(&be16(20));
    b.extend_from_slice(&be16(260));
    b.extend_from_slice(&be16(3));
    for (ft, ln) in [(8u16, 4u16), (12, 4), (80, 6)] {
        b.extend_from_slice(&be16(ft));
        b.extend_from_slice(&be16(ln));
    }
    let mut senders: Vec<NetflowSender> = Vec::new();
    handle_datagram(&mut senders, &b, SENDER);
    let mut d = header_v9();
    d.extend_from_slice(&be16(260));
    d.extend_from_slice(&be16(4 + 14 + 2));
    d.extend_from_slice(&be32(0x0a000001));
    d.extend_from_slice(&be32(0x0a0000ff));
    d.extend_from_slice(&[0xff, 0xff, 0xff, 0xff, 0xff, 0xff]);
    d.extend_from_slice(&[0, 0]); // padding
    handle_datagram(&mut senders, &d, SENDER);
    senders[0].parse_packet_to_flow();
    assert_eq!(senders[0].flow_stats.len(), 1);
    assert_eq!(senders[0].flow_stats[0].traffic_type, TrafficType::Broadcast);
}

#[test]
fn unknown_template_produces_no_record() {
    let mut senders: Vec<NetflowSender> = Vec::new();
    handle_datagram(&mut senders, &template_datagram_258(), SENDER);
    let mut d = header_v9();
    d.extend_from_slice(&be16(999));
    d.extend_from_slice(&be16(4 + 8));
    d.extend_from_slice(&[1, 2, 3, 4, 5, 6, 7, 8]);
    let r = handle_datagram(&mut senders, &d, SENDER);
    assert_eq!(r, IngestOutcome::Accepted { new_sender: false });
    assert_eq!(senders[0].flow_packets.len(), 0);
    senders[0].parse_packet_to_flow();
    assert_eq!(senders[0].flow_stats.len(), 0);
}

#[test]
fn short_and_wrong_version_datagrams_are_rejected() {
    let mut senders: Vec<NetflowSender> = Vec::new();
    let short = vec![0u8; 10];
    assert_eq!(handle_datagram(&mut senders, &short, SENDER), IngestOutcome::Rejected);
    let mut v5 = header_v9();
    v5[0] = 0;
    v5[1] = 5;
    assert_eq!(handle_datagram(&mut senders, &v5, SENDER), IngestOutcome::Rejected);
    assert_eq!(senders.len(), 0);
}

#[test]
fn two_records_in_one_datagram_each_count_once() {
    let mut senders: Vec<NetflowSender> = Vec::new();
    handle_datagram(&mut senders, &template_datagram_258(), SENDER);
    let a = data_record(0x0a000001, 0x0a000002, 6, 0x1234, 0x0050, 1000, 10);
    let b = data_record(0x0a000001, 0x0a000002, 6, 0x1234, 0x0050, 1000, 10);
    handle_datagram(&mut senders, &data_datagram_258(&[a, b]), SENDER);
    assert_eq!(senders[0].flow_packets.len(), 2);
    senders[0].parse_packet_to_flow();
    assert_eq!(senders[0].flow_stats.len(), 1);
    assert_eq!(senders[0].flow_stats[0].in_octets, 2000);
    assert_eq!(senders[0].flow_stats[0].in_packets, 20);
}

#[test]
fn throughput_estimate_from_spaced_updates() {
    let mut senders: Vec<NetflowSender> = Vec::new();
    handle_datagram(&mut senders, &template_datagram_258(), SENDER);
    let t0: i64 = 1_000_000;
    for k in 0..3i64 {
        let rec = data_record(0x0a000001, 0x0a000002, 6, 0x1234, 0x0050, 1000, 10);
        handle_datagram(&mut senders, &data_datagram_258(&[rec]), SENDER);
        senders[0].fold_pending_records(t0 + 10 * k);
    }
    let f = &senders[0].flow_stats[0];
    let last = f.deltas.last().unwrap();
    assert_eq!(last.bps, 100); // 1000 octets over a 10 s gap
    assert_eq!(last.pps, 1);
    // an idle gap past the timeout zeroes the rate
    let rec = data_record(0x0a000001, 0x0a000002, 6, 0x1234, 0x0050, 1000, 10);
    handle_datagram(&mut senders, &data_datagram_258(&[rec]), SENDER);
    senders[0].fold_pending_records(t0 + 20 + 3901);
    let f = &senders[0].flow_stats[0];
    let last = f.deltas.last().unwrap();
    assert_eq!(last.bps, 0);
    assert_eq!(last.pps, 0);
}

#[test]
fn persistence_replay_keeps_one_row() {
    let conn = setup_db(&ConnType::InMemory).expect("in-memory store");
    let mut senders: Vec<NetflowSender> = Vec::new();
    handle_datagram(&mut senders, &template_datagram_258(), SENDER);
    assert!(update_senders_in_db(&conn, SENDER));
    let datagram = {
        let rec = data_record(0x0a000001, 0x0a000002, 6, 0x1234, 0x0050, 1000, 10);
        data_datagram_258(&[rec])
    };
    for _ in 0..3 {
        handle_datagram(&mut senders, &datagram, SENDER);
        senders[0].parse_packet_to_flow();
        senders[0].prepare_and_update_flow_in_db(&conn);
    }
    let count: i64 = conn
        .query_row("SELECT COUNT(*) FROM flows", (), |row| row.get(0))
        .unwrap();
    assert_eq!(count, 1);
    let (oct, pk): (i64, i64) = conn
        .query_row("SELECT in_octets, in_pkts FROM flows", (), |row| {
            Ok((row.get(0)?, row.get(1)?))
        })
        .unwrap();
    assert_eq!(oct, 3000);
    assert_eq!(pk, 30);
    assert!(!senders[0].flow_stats[0].needs_db_update);
    assert!(senders[0].flow_stats[0].in_db);
    // the bidirectional lookup sees the row from either side
    assert!(check_if_flow_exists_in_db(&conn, &senders[0].flow_stats[0]));
    let mut reversed = senders[0].flow_stats[0].clone();
    std::mem::swap(&mut reversed.src_ip, &mut reversed.dst_ip);
    std::mem::swap(&mut reversed.src_port, &mut reversed.dst_port);
    assert!(check_if_flow_exists_in_db(&conn, &reversed));
}

#[test]
fn multiple_sets_in_one_datagram_are_all_walked() {
    // one datagram: the template set for 258 followed by a data set for 258
    let mut b = header_v9();
    b.extend_from_slice(&be16(0));
    b.extend_from_slice(&be16(36));
    b.extend_from_slice(&be16(258));
    b.extend_from_slice(&be16(7));
    for (ft, ln) in [(8u16, 4u16), (12, 4), (4, 1), (7, 2), (11, 2), (1, 4), (2, 4)] {
        b.extend_from_slice(&be16(ft));
        b.extend_from_slice(&be16(ln));
    }
    let rec = data_record(0x0a000001, 0x0a000002, 17, 53, 5353, 300, 3);
    b.extend_from_slice(&be16(258));
    b.extend_from_slice(&be16((4 + rec.len()) as u16));
    b.extend_from_slice(&rec);
    let mut senders: Vec<NetflowSender> = Vec::new();
    let r = handle_datagram(&mut senders, &b, SENDER);
    assert_eq!(r, IngestOutcome::Accepted { new_sender: true });
    assert_eq!(senders[0].flow_packets.len(), 1);
    senders[0].parse_packet_to_flow();
    assert_eq!(senders[0].flow_stats.len(), 1);
    assert_eq!(senders[0].flow_stats[0].in_octets, 300);
}

#[test]
fn readvertised_template_overwrites_in_place() {
    let mut senders: Vec<NetflowSender> = Vec::new();
    handle_datagram(&mut senders, &template_datagram_258(), SENDER);
    // re-advertise 258 with a different slot list: Protocol/1 only
    let mut b = header_v9();
    b.extend_from_slice(&be16(0));
    b.extend_from_slice(&be16(12));
    b.extend_from_slice(&be16(258));
    b.extend_from_slice(&be16(1));
    b.extend_from_slice(&be16(4));
    b.extend_from_slice(&be16(1));
    handle_datagram(&mut senders, &b, SENDER);
    assert_eq!(senders[0].templates.len(), 1);
    let idx = find_template_index(&senders[0].templates, 258).unwrap();
    assert_eq!(senders[0].templates[idx].field_count, Some(1));
}

#[test]
fn one_template_set_can_pack_two_templates() {
    let mut b = header_v9();
    // two templates: 300 with one slot, 301 with two slots
    b.extend_from_slice(&be16(0));
    b.extend_from_slice(&be16(4 + 8 + 12));
    b.extend_from_slice(&be16(300));
    b.extend_from_slice(&be16(1));
    b.extend_from_slice(&be16(4));
    b.extend_from_slice(&be16(1));
    b.extend_from_slice(&be16(301));
    b.extend_from_slice(&be16(2));
    b.extend_from_slice(&be16(7));
    b.extend_from_slice(&be16(2));
    b.extend_from_slice(&be16(11));
    b.extend_from_slice(&be16(2));
    let mut senders: Vec<NetflowSender> = Vec::new();
    handle_datagram(&mut senders, &b, SENDER);
    assert_eq!(senders[0].templates.len(), 2);
    assert!(find_template_index(&senders[0].templates, 300).is_some());
    assert!(find_template_index(&senders[0].templates, 301).is_some());
}

#[test]
fn widened_counter_fields_decode_as_u64() {
    // template 262: SrcAddr/4, DstAddr/4, InOctets/8, InPkts/2
    let mut b = header_v9();
    b.extend_from_slice(&be16(0));
    b.extend_from_slice(&be16(4 + 4 + 16));
    b.extend_from_slice(&be16(262));
    b.extend_from_slice(&be16(4));
    for (ft, ln) in [(8u16, 4u16), (12, 4), (1, 8), (2, 2)] {
        b.extend_from_slice(&be16(ft));
        b.extend_from_slice(&be16(ln));
    }
    let mut senders: Vec<NetflowSender> = Vec::new();
    handle_datagram(&mut senders, &b, SENDER);
    let mut d = header_v9();
    d.extend_from_slice(&be16(262));
    d.extend_from_slice(&be16(4 + 18 + 2));
    d.extend_from_slice(&be32(0x0a000001));
    d.extend_from_slice(&be32(0x0a000002));
    d.extend_from_slice(&(5_000_000_000u64).to_be_bytes());
    d.extend_from_slice(&be16(7));
    d.extend_from_slice(&[0, 0]); // padding
    handle_datagram(&mut senders, &d, SENDER);
    senders[0].parse_packet_to_flow();
    assert_eq!(senders[0].flow_stats.len(), 1);
    assert_eq!(senders[0].flow_stats[0].in_octets, 5_000_000_000);
    assert_eq!(senders[0].flow_stats[0].in_packets, 7);
}

#[test]
fn merge_hands_pending_records_to_known_senders() {
    let mut global: Vec<NetflowSender> = Vec::new();
    handle_datagram(&mut global, &template_datagram_258(), SENDER);
    let mut received: Vec<NetflowSender> = Vec::new();
    handle_datagram(&mut received, &template_datagram_258(), SENDER);
    let rec = data_record(0x0a000001, 0x0a000002, 6, 1, 2, 10, 1);
    handle_datagram(&mut received, &data_datagram_258(&[rec]), SENDER);
    let other = NetflowSender {
        ip_addr: 0x0a000099,
        templates: Vec::new(),
        flow_packets: Vec::new(),
        flow_stats: Vec::new(),
    };
    received.push(other);
    merge_senders(&received, &mut global);
    assert_eq!(global.len(), 2);
    assert_eq!(global[0].flow_packets.len(), 1);
    assert_eq!(global[1].ip_addr, 0x0a000099);
}

#[test]
fn truncated_template_is_dropped_whole() {
    // the template claims 7 slot pairs but the set ends after one
    let mut b = header_v9();
    b.extend_from_slice(&be16(0));
    b.extend_from_slice(&be16(12));
    b.extend_from_slice(&be16(270));
    b.extend_from_slice(&be16(7));
    b.extend_from_slice(&be16(8));
    b.extend_from_slice(&be16(4));
    let mut senders: Vec<NetflowSender> = Vec::new();
    handle_datagram(&mut senders, &b, SENDER);
    assert_eq!(senders.len(), 1);
    assert!(find_template_index(&senders[0].templates, 270).is_none());
}

#[test]
fn partial_trailing_record_is_dropped() {
    let mut senders: Vec<NetflowSender> = Vec::new();
    handle_datagram(&mut senders, &template_datagram_258(), SENDER);
    // one whole 21-octet record plus 5 stray octets
    let mut d = header_v9();
    let rec = data_record(0x0a000001, 0x0a000002, 6, 1, 2, 100, 1);
    d.extend_from_slice(&be16(258));
    d.extend_from_slice(&be16((4 + rec.len() + 5) as u16));
    d.extend_from_slice(&rec);
    d.extend_from_slice(&[9, 9, 9, 9, 9]);
    handle_datagram(&mut senders, &d, SENDER);
    assert_eq!(senders[0].flow_packets.len(), 1);
    senders[0].parse_packet_to_flow();
    assert_eq!(senders[0].flow_stats.len(), 1);
    assert_eq!(senders[0].flow_stats[0].in_octets, 100);
}

#[test]
fn delta_history_is_bounded() {
    let mut senders: Vec<NetflowSender> = Vec::new();
    handle_datagram(&mut senders, &template_datagram_258(), SENDER);
    let t0: i64 = 1_000_000;
    for k in 0..70i64 {
        let rec = data_record(0x0a000001, 0x0a000002, 6, 1, 2, 10, 1);
        handle_datagram(&mut senders, &data_datagram_258(&[rec]), SENDER);
        senders[0].fold_pending_records(t0 + k);
    }
    let f = &senders[0].flow_stats[0];
    assert_eq!(f.deltas.len(), ez_netflow::MAX_DELTAS);
    // the history keeps the newest updates and stays in order
    assert_eq!(f.deltas.last().unwrap().updated_time, t0 + 69);
    for w in f.deltas.windows(2) {
        assert!(w[0].updated_time <= w[1].updated_time);
    }
    // the counters kept every update nonetheless
    assert_eq!(f.in_octets, 700);
}
