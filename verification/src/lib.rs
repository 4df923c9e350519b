//! A NetFlow v9 collector library: template-driven decoding of flow-export
//! datagrams, per-sender flow aggregation with throughput estimates, and a
//! write-through persistence gateway over a SQLite row store.

use vstd::prelude::*;

mod bytes;
mod clock;
mod fields;
mod flow;
mod ingest;
mod query;
mod senders;
mod settings;
mod sql;
mod templates;
mod utils;
mod wire;

pub use bytes::be_u16_at;
pub use bytes::be_u32_at;
pub use bytes::be_u48_at;
pub use bytes::be_u64_at;
pub use bytes::push_be_u16;
pub use bytes::push_be_u32;
pub use bytes::push_be_u48;
pub use bytes::push_be_u64;
pub use fields::canonical_width;
pub use fields::kind_of;
pub use fields::FlowField;
pub use fields::Ipv4Field;
pub use fields::NetflowVersion;
pub use fields::PacketType;
pub use fields::TrafficType;
pub use fields::U16Field;
pub use fields::U32Field;
pub use fields::U64Field;
pub use fields::U8Field;
pub use flow::NetFlow;
pub use flow::NetFlowDelta;
pub use flow::CONN_TIMEOUT_SEC;
pub use flow::MAX_DELTAS;
pub use ingest::clone_template;
pub use ingest::handle_datagram;
pub use ingest::process_data_set;
pub use ingest::IngestOutcome;
pub use query::flow_limit_of;
pub use query::flows_query_statement;
pub use query::get_all_flows_as_json;
pub use query::get_all_flows_for_ip_as_json;
pub use query::get_all_flows_from_sender;
pub use query::get_all_hosts_ip_as_json;
pub use query::get_top_10_flows_by_bytes_as_json;
pub use query::get_top_10_flows_by_packets_as_json;
pub use query::get_top_10_flows_by_ports_as_json;
pub use query::get_top_10_flows_by_protocols_as_json;
pub use query::FlowRow;
pub use query::NetFlowJson;
pub use query::NetflowBytesJson;
pub use query::NetflowIpsJson;
pub use query::NetflowPacketsJson;
pub use query::NetflowPortsAndProtocolsJson;
pub use senders::find_template_index;
pub use senders::match_sender;
pub use senders::merge_senders;
pub use senders::update_or_create_sender;
pub use senders::NetflowSender;
pub use settings::parse_config_string;
pub use settings::ConnType;
pub use settings::FlowsToShow;
pub use settings::ServerSettings;
pub use settings::SortBy;
pub use sql::check_if_flow_exists_in_db;
pub use sql::create_flow_in_db;
pub use sql::setup_db;
pub use sql::update_flow_in_db;
pub use sql::update_senders_in_db;
pub use sql::StoreLookup;
pub use templates::decode_data_set;
pub use templates::decode_record;
pub use templates::encode_record;
pub use templates::slot_value_u64;
pub use templates::parse_field_pairs;
pub use templates::parse_flow_template;
pub use templates::parse_template_set;
pub use templates::record_byte_len;
pub use templates::set_field_value;
pub use templates::DecodedRecord;
pub use templates::NetflowTemplate;
pub use utils::convert_ipv4_to_string;
pub use utils::get_ip_cast_type;
pub use utils::get_time_delta_in_min;
pub use utils::get_time_delta_in_sec;
pub use utils::handle_icmp_code;
pub use utils::handle_traffic_type;
pub use utils::handle_traffic_type_in_flow;
pub use utils::i32_to_string;
pub use utils::is_flow_match;
pub use utils::record_traffic_type;
pub use utils::str_eq;
pub use utils::traffic_type_label;
pub use utils::BROADCAST_MAC;
pub use wire::check_packet_size;
pub use wire::determine_packet_type;
pub use wire::parse_flow_field_count;
pub use wire::parse_flow_length;
pub use wire::parse_flow_template_id_from_data;
pub use wire::parse_flow_template_id_from_template;
pub use wire::parse_packet_header;
pub use wire::parse_set_header;
pub use wire::NetflowPacket;
pub use wire::MIN_PACKET_SIZE;
pub use wire::V9_VERSION;

verus! {

} // verus!
