//! Unit exercises of the catalogue, the wire readers, the classification
//! helpers, the configuration parser and the reader-side folds.

use ez_netflow::canonical_width;
use ez_netflow::check_packet_size;
use ez_netflow::be_u16_at;
use ez_netflow::be_u32_at;
use ez_netflow::be_u48_at;
use ez_netflow::be_u64_at;
use ez_netflow::convert_ipv4_to_string;
use ez_netflow::flow_limit_of;
use ez_netflow::flows_query_statement;
use ez_netflow::get_all_flows_as_json;
use ez_netflow::get_all_flows_from_sender;
use ez_netflow::get_all_hosts_ip_as_json;
use ez_netflow::get_ip_cast_type;
use ez_netflow::get_top_10_flows_by_bytes_as_json;
use ez_netflow::get_top_10_flows_by_packets_as_json;
use ez_netflow::get_top_10_flows_by_ports_as_json;
use ez_netflow::get_top_10_flows_by_protocols_as_json;
use ez_netflow::handle_icmp_code;
use ez_netflow::handle_traffic_type_in_flow;
use ez_netflow::i32_to_string;
use ez_netflow::is_flow_match;
use ez_netflow::kind_of;
use ez_netflow::parse_config_string;
use ez_netflow::parse_packet_header;
use ez_netflow::push_be_u16;
use ez_netflow::push_be_u32;
use ez_netflow::record_traffic_type;
use ez_netflow::traffic_type_label;
use ez_netflow::ConnType;
use ez_netflow::FlowField;
use ez_netflow::FlowRow;
use ez_netflow::FlowsToShow;
use ez_netflow::NetflowVersion;
use ez_netflow::SortBy;
use ez_netflow::decode_record;
use ez_netflow::encode_record;
use ez_netflow::record_byte_len;
use ez_netflow::slot_value_u64;
use ez_netflow::DecodedRecord;
use ez_netflow::Ipv4Field;
use ez_netflow::TrafficType;
use ez_netflow::U16Field;
use ez_netflow::U32Field;
use ez_netflow::U64Field;
use ez_netflow::U8Field;

fn row(
    src: &str,
    dst: &str,
    proto: i32,
    sport: i32,
    dport: i32,
    pkts: i32,
    bytes: i32,
    tt: &str,
) -> FlowRow {
    FlowRow {
        sender_ip: "10.0.0.40".to_string(),
        src_addr: src.to_string(),
        dst_addr: dst.to_string(),
        protocol: proto,
        src_port: sport,
        dst_port: dport,
        in_pkts: pkts,
        in_bytes: bytes,
        traffic_type: tt.to_string(),
    }
}

#[test]
fn catalogue_maps_the_base_identifiers() {
    assert_eq!(kind_of(1), FlowField::InOctets);
    assert_eq!(kind_of(2), FlowField::InPkts);
    assert_eq!(kind_of(4), FlowField::Protocol);
    assert_eq!(kind_of(7), FlowField::SrcPort);
    assert_eq!(kind_of(8), FlowField::SrcAddr);
    assert_eq!(kind_of(11), FlowField::DstPort);
    assert_eq!(kind_of(12), FlowField::DstAddr);
    assert_eq!(kind_of(15), FlowField::NextHop);
    assert_eq!(kind_of(38), FlowField::EngineType);
    assert_eq!(kind_of(80), FlowField::InDstMac);
    assert_eq!(kind_of(9999), FlowField::Unknown(9999));
}

#[test]
fn catalogue_widths_are_canonical() {
    assert_eq!(canonical_width(FlowField::InOctets), 4);
    assert_eq!(canonical_width(FlowField::Protocol), 1);
    assert_eq!(canonical_width(FlowField::SrcPort), 2);
    assert_eq!(canonical_width(FlowField::SrcAddr), 4);
    assert_eq!(canonical_width(FlowField::InDstMac), 6);
    assert_eq!(canonical_width(FlowField::Unknown(500)), 0);
}

#[test]
fn packet_size_gate() {
    assert!(check_packet_size(19).is_err());
    assert!(check_packet_size(20).is_ok());
    assert!(check_packet_size(1500).is_ok());
}

#[test]
fn big_endian_readers_and_writers_round_trip() {
    let mut b: Vec<u8> = Vec::new();
    push_be_u16(&mut b, 0x1234);
    push_be_u32(&mut b, 0xdeadbeef);
    assert_eq!(b, vec![0x12, 0x34, 0xde, 0xad, 0xbe, 0xef]);
    assert_eq!(be_u16_at(&b, 0), 0x1234);
    assert_eq!(be_u32_at(&b, 2), 0xdeadbeef);
    let m = vec![0xff, 0xff, 0xff, 0xff, 0xff, 0xff, 0x01, 0x02];
    assert_eq!(be_u48_at(&m, 0), 0xffff_ffff_ffff);
    assert_eq!(be_u64_at(&m, 0), 0xffff_ffff_ffff_0102);
}

#[test]
fn header_fields_parse_exactly() {
    let mut b: Vec<u8> = Vec::new();
    push_be_u16(&mut b, 9);
    push_be_u16(&mut b, 2);
    push_be_u32(&mut b, 111);
    push_be_u32(&mut b, 222);
    push_be_u32(&mut b, 333);
    push_be_u32(&mut b, 444);
    push_be_u16(&mut b, 0);
    push_be_u16(&mut b, 48);
    let p = parse_packet_header(&b).unwrap();
    assert_eq!(p.version, NetflowVersion::V9(9));
    assert_eq!(p.count, 2);
    assert_eq!(p.sys_uptime, 111);
    assert_eq!(p.timestamp, 222);
    assert_eq!(p.flow_sequence, 333);
    assert_eq!(p.source_id, 444);
    assert_eq!(p.flowset_id, 0);
    assert_eq!(p.flow_length, 48);
    assert!(parse_packet_header(&vec![0u8; 23]).is_none());
}

#[test]
fn address_classification() {
    assert_eq!(get_ip_cast_type(0xffff_ffff), TrafficType::Broadcast);
    assert_eq!(get_ip_cast_type(0xe000_0001), TrafficType::Multicast);
    assert_eq!(get_ip_cast_type(0x0a00_0001), TrafficType::Unicast);
    assert_eq!(
        handle_traffic_type_in_flow(0x0a000001, 0xe0000001),
        TrafficType::Multicast
    );
    assert_eq!(
        handle_traffic_type_in_flow(0xffffffff, 0x0a000001),
        TrafficType::Broadcast
    );
    assert_eq!(
        handle_traffic_type_in_flow(0x0a000001, 0x0a000002),
        TrafficType::Unicast
    );
}

#[test]
fn broadcast_mac_only_rescues_unicast() {
    assert_eq!(
        record_traffic_type(0x0a000001, 0x0a0000ff, Some(0xffff_ffff_ffff)),
        TrafficType::Broadcast
    );
    assert_eq!(
        record_traffic_type(0x0a000001, 0xe0000001, Some(0xffff_ffff_ffff)),
        TrafficType::Multicast
    );
    assert_eq!(
        record_traffic_type(0x0a000001, 0x0a000002, Some(0x0000_0000_0001)),
        TrafficType::Unicast
    );
    assert_eq!(
        record_traffic_type(0x0a000001, 0x0a000002, None),
        TrafficType::Unicast
    );
}

#[test]
fn flow_match_is_bidirectional_and_symmetric() {
    assert!(is_flow_match(1, 2, 1, 2, 10, 20, 10, 20));
    assert!(is_flow_match(1, 2, 2, 1, 10, 20, 20, 10));
    assert!(!is_flow_match(1, 2, 1, 3, 10, 20, 10, 20));
    // addresses and ports are matched bidirectionally but independently
    assert!(is_flow_match(1, 2, 2, 1, 10, 20, 10, 20));
    assert!(!is_flow_match(1, 2, 2, 1, 10, 20, 10, 21));
    // symmetry on a concrete pair
    assert_eq!(
        is_flow_match(1, 2, 2, 1, 10, 20, 20, 10),
        is_flow_match(2, 1, 1, 2, 20, 10, 10, 20)
    );
}

#[test]
fn icmp_codes_are_labelled() {
    let (l, s, d) = handle_icmp_code(1, 0, 0);
    assert_eq!(l, "ECHO_REPLY");
    assert_eq!((s, d), (0, 0));
    let (l, _, _) = handle_icmp_code(1, 2048, 7);
    assert_eq!(l, "ECHO_REQ");
    let (l, _, _) = handle_icmp_code(1, 7, 771);
    assert_eq!(l, "PORT_UNRCH");
    let (l, s, d) = handle_icmp_code(1, 5, 6);
    assert_eq!(l, "NOT_SURE");
    assert_eq!((s, d), (5, 6));
    let (l, s, d) = handle_icmp_code(6, 80, 443);
    assert_eq!(l, "NONE");
    assert_eq!((s, d), (80, 443));
}

#[test]
fn addresses_and_numbers_render_in_decimal() {
    assert_eq!(convert_ipv4_to_string(0x0a000001), "10.0.0.1");
    assert_eq!(convert_ipv4_to_string(0xffffffff), "255.255.255.255");
    assert_eq!(convert_ipv4_to_string(0), "0.0.0.0");
    assert_eq!(i32_to_string(0), "0");
    assert_eq!(i32_to_string(2048), "2048");
    assert_eq!(i32_to_string(-17), "-17");
    assert_eq!(i32_to_string(i32::MIN), "-2147483648");
}

#[test]
fn traffic_labels_round_trip() {
    assert_eq!(traffic_type_label(TrafficType::Unicast), "Unicast");
    assert_eq!(traffic_type_label(TrafficType::Multicast), "Multicast");
    assert_eq!(traffic_type_label(TrafficType::Broadcast), "Broadcast");
}

#[test]
fn config_defaults_when_missing_or_malformed() {
    let s = parse_config_string("");
    assert_eq!(s.conn_type, ConnType::InFile);
    assert_eq!(s.flow_limit, FlowsToShow::Limit { flows: 30 });
    assert_eq!(s.sort_by, SortBy::Bytes);
    assert_eq!(s.port, 2055);
    assert!(!s.unicast_only);
    assert_eq!(s.address.iter().collect::<String>(), "0.0.0.0");
    let s = parse_config_string("flows_to_display: banana,port: 99999");
    assert_eq!(s.flow_limit, FlowsToShow::Limit { flows: 30 });
    assert_eq!(s.port, 2055);
}

#[test]
fn config_recognised_keys_apply() {
    let text = "database_file_or_mem: memory,\nflows_to_display: 12,\nsort_flows_by_bytes_or_packets: packets,\naddress: 127.0.0.1,\nport: 9995,\nunicast_only: true";
    let s = parse_config_string(text);
    assert_eq!(s.conn_type, ConnType::InMemory);
    assert_eq!(s.flow_limit, FlowsToShow::Limit { flows: 12 });
    assert_eq!(s.sort_by, SortBy::Pkts);
    assert_eq!(s.address.iter().collect::<String>(), "127.0.0.1");
    assert_eq!(s.port, 9995);
    assert!(s.unicast_only);
    // unknown keys are ignored
    let s = parse_config_string("colour: green,port: 2056");
    assert_eq!(s.port, 2056);
    assert_eq!(s.conn_type, ConnType::InFile);
}

#[test]
fn query_statement_matches_settings() {
    let mut s = parse_config_string("sort_flows_by_bytes_or_packets: bytes");
    assert_eq!(
        flows_query_statement(&s),
        "SELECT * FROM flows  ORDER BY in_octets DESC LIMIT ?"
    );
    s.unicast_only = true;
    s.sort_by = SortBy::Pkts;
    assert_eq!(
        flows_query_statement(&s),
        "SELECT * FROM flows WHERE traffic_type = 'Unicast' ORDER BY in_pkts DESC LIMIT ?"
    );
    s.sort_by = SortBy::Unsorted;
    s.unicast_only = false;
    assert_eq!(flows_query_statement(&s), "SELECT * FROM flows  LIMIT ?");
    assert_eq!(flow_limit_of(&s), 30);
    s.flow_limit = FlowsToShow::NoLimit;
    assert_eq!(flow_limit_of(&s), 1000);
}

#[test]
fn fold_by_bytes_groups_hosts() {
    let rows = vec![
        row("10.0.0.1", "10.0.0.9", 6, 80, 40000, 1, 100, "Unicast"),
        row("10.0.0.2", "10.0.0.9", 6, 81, 40001, 2, 200, "Unicast"),
        row("10.0.0.1", "10.0.0.8", 17, 53, 40002, 3, 50, "Unicast"),
    ];
    let out = get_top_10_flows_by_bytes_as_json(&rows);
    assert_eq!(out.len(), 2);
    assert_eq!(out[0].flow_src_ip, "10.0.0.1");
    assert_eq!(out[0].flow_bytes, 150);
    assert_eq!(out[1].flow_src_ip, "10.0.0.2");
    assert_eq!(out[1].flow_bytes, 200);
}

#[test]
fn fold_by_packets_groups_hosts() {
    let rows = vec![
        row("10.0.0.1", "10.0.0.9", 6, 80, 40000, 7, 100, "Unicast"),
        row("10.0.0.1", "10.0.0.8", 17, 53, 40002, 5, 50, "Unicast"),
    ];
    let out = get_top_10_flows_by_packets_as_json(&rows);
    assert_eq!(out.len(), 1);
    assert_eq!(out[0].flow_packets, 12);
}

#[test]
fn fold_by_ports_uses_interesting_port() {
    let rows = vec![
        row("a", "b", 6, 80, 50000, 1, 10, "Unicast"),
        row("c", "d", 6, 80, 50001, 1, 20, "Unicast"),
        row("e", "f", 6, 50002, 443, 1, 40, "Unicast"),
        row("g", "h", 6, 50003, 50004, 1, 80, "Unicast"),
    ];
    let out = get_top_10_flows_by_ports_as_json(&rows);
    assert_eq!(out.len(), 3);
    assert_eq!(out[0].flow_src_port, 80);
    assert_eq!(out[0].flow_bytes, 30);
    assert_eq!(out[1].flow_dst_port, 443);
    assert_eq!(out[1].flow_bytes, 40);
    assert_eq!(out[2].flow_bytes, 80);
}

#[test]
fn fold_by_protocols_groups_protocol_numbers() {
    let rows = vec![
        row("a", "b", 6, 1, 2, 1, 10, "Unicast"),
        row("c", "d", 17, 3, 4, 1, 20, "Unicast"),
        row("e", "f", 6, 5, 6, 1, 40, "Unicast"),
    ];
    let out = get_top_10_flows_by_protocols_as_json(&rows);
    assert_eq!(out.len(), 2);
    assert_eq!(out[0].flow_protocol, 6);
    assert_eq!(out[0].flow_bytes, 50);
    assert_eq!(out[1].flow_protocol, 17);
    assert_eq!(out[1].flow_bytes, 20);
}

#[test]
fn json_rows_carry_icmp_and_traffic() {
    let rows = vec![row("10.0.0.1", "10.0.0.2", 1, 2048, 0, 3, 333, "Multicast")];
    let out = get_all_flows_as_json(&rows);
    assert_eq!(out.len(), 1);
    assert_eq!(out[0].src_ip, "10.0.0.1");
    assert_eq!(out[0].protocol, 1);
    assert_eq!(out[0].in_octets, 333);
    assert_eq!(out[0].in_packets, 3);
    assert_eq!(out[0].traffic_type, TrafficType::Multicast);
    assert_eq!(out[0].icmp, "ECHO_REQ");
}

#[test]
fn table_records_render_each_row() {
    let rows = vec![row("10.0.0.1", "10.0.0.2", 6, 1234, 80, 10, 1000, "Unicast")];
    let recs = get_all_flows_from_sender(&rows);
    assert_eq!(recs.len(), 1);
    let r = &recs[0];
    assert_eq!(r.len(), 10);
    assert_eq!(r[0], "10.0.0.40");
    assert_eq!(r[1], "10.0.0.1");
    assert_eq!(r[2], "10.0.0.2");
    assert_eq!(r[3], "6");
    assert_eq!(r[4], "1234");
    assert_eq!(r[5], "80");
    assert_eq!(r[6], "10");
    assert_eq!(r[7], "1000");
    assert_eq!(r[8], "NONE");
    assert_eq!(r[9], "Unicast");
}

#[test]
fn host_listing_collapses_neighbouring_duplicates() {
    let hosts = vec![
        "10.0.0.3".to_string(),
        "10.0.0.3".to_string(),
        "10.0.0.1".to_string(),
        "10.0.0.3".to_string(),
    ];
    let out = get_all_hosts_ip_as_json(&hosts);
    assert_eq!(out, vec!["10.0.0.3", "10.0.0.1", "10.0.0.3"]);
}

#[test]
fn encode_then_decode_reproduces_every_slot() {
    let fields: Vec<(FlowField, u16)> = vec![
        (FlowField::SrcAddr, 4),
        (FlowField::DstAddr, 4),
        (FlowField::Protocol, 1),
        (FlowField::SrcPort, 2),
        (FlowField::DstPort, 2),
        (FlowField::InOctets, 4),
        (FlowField::InPkts, 4),
        (FlowField::InputSNMP, 2),
        (FlowField::InDstMac, 6),
    ];
    let mut rec = DecodedRecord::new();
    rec.src_addr = Ipv4Field::Value(0x0a000001);
    rec.dst_addr = Ipv4Field::Value(0x0a000002);
    rec.protocol = U8Field::Value(6);
    rec.src_port = U16Field::Value(4660);
    rec.dst_port = U16Field::Value(80);
    rec.in_octets = U64Field::Value(1000);
    rec.in_packets = U64Field::Value(10);
    rec.input_snmp = U32Field::Value(3);
    rec.in_dst_mac = U64Field::Value(0x0011_2233_4455);
    let bytes = encode_record(&rec, &fields).expect("encodable at canonical widths");
    let rec_len = record_byte_len(&fields) as usize;
    assert_eq!(bytes.len(), rec_len);
    let back = decode_record(&fields, &bytes, 0, rec_len);
    for (kind, _w) in &fields {
        assert_eq!(slot_value_u64(&back, *kind), slot_value_u64(&rec, *kind));
    }
    assert_eq!(back, rec);
    // a record missing a slot the template asks for is not encodable
    let mut partial = rec.clone();
    partial.protocol = U8Field::Disabled;
    assert!(encode_record(&partial, &fields).is_none());
    // a non-canonical width is not encodable either
    let off_width = vec![(FlowField::Protocol, 2u16)];
    assert!(encode_record(&rec, &off_width).is_none());
}
