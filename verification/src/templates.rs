//! Templates and decoded records: a template is an ordered list of
//! (kind, width) pairs keyed by its identifier; a decoded record is a sparse
//! set of typed values produced by slicing a data set against a template.

use crate::bytes::be_u16_at;
use crate::bytes::be_u32_at;
use crate::bytes::be_u48_at;
use crate::bytes::be_u64_at;
use crate::bytes::spec_be16_at;
use crate::bytes::spec_be32_at;
use crate::bytes::spec_be48_at;
use crate::bytes::spec_be64_at;
use crate::fields::kind_of;
use crate::fields::spec_canonical_width;
use crate::fields::spec_kind_of;
use crate::fields::FlowField;
use crate::fields::Ipv4Field;
use crate::fields::U16Field;
use crate::fields::U32Field;
use crate::fields::U64Field;
use crate::fields::U8Field;
use vstd::prelude::*;

verus! {

/// One record decoded from a data set: a sparse mapping from field kind to a
/// typed value. A slot is `Value` exactly when the template carried that kind
/// at a width its type can hold; everything else stays `Disabled`.
#[derive(Clone, Copy, PartialEq, Eq, Structural, Debug)]
pub struct DecodedRecord {
    pub in_octets: U64Field,
    pub in_packets: U64Field,
    pub flows: U32Field,
    pub protocol: U8Field,
    pub src_tos: U8Field,
    pub tcp_flags: U8Field,
    pub src_port: U16Field,
    pub src_addr: Ipv4Field,
    pub src_mask: U8Field,
    pub input_snmp: U32Field,
    pub dst_port: U16Field,
    pub dst_addr: Ipv4Field,
    pub dst_mask: U8Field,
    pub output_snmp: U32Field,
    pub next_hop: Ipv4Field,
    pub mul_dst_pkts: U32Field,
    pub mul_dst_bytes: U32Field,
    pub last_switched: U32Field,
    pub first_switched: U32Field,
    pub out_bytes: U64Field,
    pub out_pkts: U64Field,
    pub min_pkt_lngth: U16Field,
    pub max_pkt_lngth: U16Field,
    pub icmp_type: U16Field,
    pub mul_igmp_type: U8Field,
    pub min_ttl: U8Field,
    pub max_ttl: U8Field,
    pub ident: U16Field,
    pub dst_tos: U8Field,
    pub in_src_mac: U64Field,
    pub out_dst_mac: U64Field,
    pub src_vlan: U16Field,
    pub dst_vlan: U16Field,
    pub ip_version: U8Field,
    pub direction: U8Field,
    pub in_dst_mac: U64Field,
    pub out_src_mac: U64Field,
}

/// The record with every slot absent.
pub open spec fn spec_empty_record() -> DecodedRecord {
    DecodedRecord {
        in_octets: U64Field::Disabled,
        in_packets: U64Field::Disabled,
        flows: U32Field::Disabled,
        protocol: U8Field::Disabled,
        src_tos: U8Field::Disabled,
        tcp_flags: U8Field::Disabled,
        src_port: U16Field::Disabled,
        src_addr: Ipv4Field::Disabled,
        src_mask: U8Field::Disabled,
        input_snmp: U32Field::Disabled,
        dst_port: U16Field::Disabled,
        dst_addr: Ipv4Field::Disabled,
        dst_mask: U8Field::Disabled,
        output_snmp: U32Field::Disabled,
        next_hop: Ipv4Field::Disabled,
        mul_dst_pkts: U32Field::Disabled,
        mul_dst_bytes: U32Field::Disabled,
        last_switched: U32Field::Disabled,
        first_switched: U32Field::Disabled,
        out_bytes: U64Field::Disabled,
        out_pkts: U64Field::Disabled,
        min_pkt_lngth: U16Field::Disabled,
        max_pkt_lngth: U16Field::Disabled,
        icmp_type: U16Field::Disabled,
        mul_igmp_type: U8Field::Disabled,
        min_ttl: U8Field::Disabled,
        max_ttl: U8Field::Disabled,
        ident: U16Field::Disabled,
        dst_tos: U8Field::Disabled,
        in_src_mac: U64Field::Disabled,
        out_dst_mac: U64Field::Disabled,
        src_vlan: U16Field::Disabled,
        dst_vlan: U16Field::Disabled,
        ip_version: U8Field::Disabled,
        direction: U8Field::Disabled,
        in_dst_mac: U64Field::Disabled,
        out_src_mac: U64Field::Disabled,
    }
}

impl DecodedRecord {
    /// A record with every slot absent.
    pub fn new() -> (r: DecodedRecord)
        ensures
            r == spec_empty_record(),
    {
        DecodedRecord {
            in_octets: U64Field::Disabled,
            in_packets: U64Field::Disabled,
            flows: U32Field::Disabled,
            protocol: U8Field::Disabled,
            src_tos: U8Field::Disabled,
            tcp_flags: U8Field::Disabled,
            src_port: U16Field::Disabled,
            src_addr: Ipv4Field::Disabled,
            src_mask: U8Field::Disabled,
            input_snmp: U32Field::Disabled,
            dst_port: U16Field::Disabled,
            dst_addr: Ipv4Field::Disabled,
            dst_mask: U8Field::Disabled,
            output_snmp: U32Field::Disabled,
            next_hop: Ipv4Field::Disabled,
            mul_dst_pkts: U32Field::Disabled,
            mul_dst_bytes: U32Field::Disabled,
            last_switched: U32Field::Disabled,
            first_switched: U32Field::Disabled,
            out_bytes: U64Field::Disabled,
            out_pkts: U64Field::Disabled,
            min_pkt_lngth: U16Field::Disabled,
            max_pkt_lngth: U16Field::Disabled,
            icmp_type: U16Field::Disabled,
            mul_igmp_type: U8Field::Disabled,
            min_ttl: U8Field::Disabled,
            max_ttl: U8Field::Disabled,
            ident: U16Field::Disabled,
            dst_tos: U8Field::Disabled,
            in_src_mac: U64Field::Disabled,
            out_dst_mac: U64Field::Disabled,
            src_vlan: U16Field::Disabled,
            dst_vlan: U16Field::Disabled,
            ip_version: U8Field::Disabled,
            direction: U8Field::Disabled,
            in_dst_mac: U64Field::Disabled,
            out_src_mac: U64Field::Disabled,
        }
    }
}

/// A one-octet slot takes the octet; other widths leave it unchanged.
pub open spec fn spec_set_u8(slot: U8Field, bytes: Seq<u8>) -> U8Field {
    if bytes.len() == 1 {
        U8Field::Value(bytes[0])
    } else {
        slot
    }
}

/// A two-octet slot takes a narrowed one-octet or big-endian two-octet value.
pub open spec fn spec_set_u16(slot: U16Field, bytes: Seq<u8>) -> U16Field {
    if bytes.len() == 1 {
        U16Field::Value(bytes[0] as u16)
    } else if bytes.len() == 2 {
        U16Field::Value(spec_be16_at(bytes, 0) as u16)
    } else {
        slot
    }
}

/// A four-octet slot takes a narrowed or exact big-endian value of up to four
/// octets.
pub open spec fn spec_set_u32(slot: U32Field, bytes: Seq<u8>) -> U32Field {
    if bytes.len() == 1 {
        U32Field::Value(bytes[0] as u32)
    } else if bytes.len() == 2 {
        U32Field::Value(spec_be16_at(bytes, 0) as u32)
    } else if bytes.len() == 4 {
        U32Field::Value(spec_be32_at(bytes, 0) as u32)
    } else {
        slot
    }
}

/// A counter slot takes any of the big-endian encodings of one, two, four or
/// eight octets, zero-extended to 64 bits.
pub open spec fn spec_set_counter(slot: U64Field, bytes: Seq<u8>) -> U64Field {
    if bytes.len() == 1 {
        U64Field::Value(bytes[0] as u64)
    } else if bytes.len() == 2 {
        U64Field::Value(spec_be16_at(bytes, 0) as u64)
    } else if bytes.len() == 4 {
        U64Field::Value(spec_be32_at(bytes, 0) as u64)
    } else if bytes.len() == 8 {
        U64Field::Value(spec_be64_at(bytes, 0) as u64)
    } else {
        slot
    }
}

/// A MAC slot takes exactly six octets, zero-extended to 64 bits.
pub open spec fn spec_set_mac(slot: U64Field, bytes: Seq<u8>) -> U64Field {
    if bytes.len() == 6 {
        U64Field::Value(spec_be48_at(bytes, 0) as u64)
    } else {
        slot
    }
}

/// An address slot takes exactly four octets, reinterpreted as an IPv4
/// address.
pub open spec fn spec_set_ipv4(slot: Ipv4Field, bytes: Seq<u8>) -> Ipv4Field {
    if bytes.len() == 4 {
        Ipv4Field::Value(spec_be32_at(bytes, 0) as u32)
    } else {
        slot
    }
}

/// The record after one template slot's octets are applied to it: the slot
/// belonging to `kind` takes the value the octets encode where the slot's
/// type can hold it; kinds without a slot leave the record unchanged.
pub open spec fn spec_apply_field(rec: DecodedRecord, kind: FlowField, bytes: Seq<u8>) -> DecodedRecord {
    match kind {
        FlowField::InOctets => DecodedRecord { in_octets: spec_set_counter(rec.in_octets, bytes), ..rec },
        FlowField::InPkts => DecodedRecord { in_packets: spec_set_counter(rec.in_packets, bytes), ..rec },
        FlowField::Flows => DecodedRecord { flows: spec_set_u32(rec.flows, bytes), ..rec },
        FlowField::Protocol => DecodedRecord { protocol: spec_set_u8(rec.protocol, bytes), ..rec },
        FlowField::SrcTOS => DecodedRecord { src_tos: spec_set_u8(rec.src_tos, bytes), ..rec },
        FlowField::TCPFlags => DecodedRecord { tcp_flags: spec_set_u8(rec.tcp_flags, bytes), ..rec },
        FlowField::SrcPort => DecodedRecord { src_port: spec_set_u16(rec.src_port, bytes), ..rec },
        FlowField::SrcAddr => DecodedRecord { src_addr: spec_set_ipv4(rec.src_addr, bytes), ..rec },
        FlowField::SrcMask => DecodedRecord { src_mask: spec_set_u8(rec.src_mask, bytes), ..rec },
        FlowField::InputSNMP => DecodedRecord { input_snmp: spec_set_u32(rec.input_snmp, bytes), ..rec },
        FlowField::DstPort => DecodedRecord { dst_port: spec_set_u16(rec.dst_port, bytes), ..rec },
        FlowField::DstAddr => DecodedRecord { dst_addr: spec_set_ipv4(rec.dst_addr, bytes), ..rec },
        FlowField::DstMask => DecodedRecord { dst_mask: spec_set_u8(rec.dst_mask, bytes), ..rec },
        FlowField::OutputSNMP => DecodedRecord { output_snmp: spec_set_u32(rec.output_snmp, bytes), ..rec },
        FlowField::NextHop => DecodedRecord { next_hop: spec_set_ipv4(rec.next_hop, bytes), ..rec },
        FlowField::MulDstPkts => DecodedRecord { mul_dst_pkts: spec_set_u32(rec.mul_dst_pkts, bytes), ..rec },
        FlowField::MulDstBytes => DecodedRecord { mul_dst_bytes: spec_set_u32(rec.mul_dst_bytes, bytes), ..rec },
        FlowField::LastSwitched => DecodedRecord { last_switched: spec_set_u32(rec.last_switched, bytes), ..rec },
        FlowField::FirstSwitched => DecodedRecord { first_switched: spec_set_u32(rec.first_switched, bytes), ..rec },
        FlowField::OutBytes => DecodedRecord { out_bytes: spec_set_counter(rec.out_bytes, bytes), ..rec },
        FlowField::OutPkts => DecodedRecord { out_pkts: spec_set_counter(rec.out_pkts, bytes), ..rec },
        FlowField::MinPktLength => DecodedRecord { min_pkt_lngth: spec_set_u16(rec.min_pkt_lngth, bytes), ..rec },
        FlowField::MaxPktLength => DecodedRecord { max_pkt_lngth: spec_set_u16(rec.max_pkt_lngth, bytes), ..rec },
        FlowField::IcmpType => DecodedRecord { icmp_type: spec_set_u16(rec.icmp_type, bytes), ..rec },
        FlowField::MulIgmpType => DecodedRecord { mul_igmp_type: spec_set_u8(rec.mul_igmp_type, bytes), ..rec },
        FlowField::MinTTL => DecodedRecord { min_ttl: spec_set_u8(rec.min_ttl, bytes), ..rec },
        FlowField::MaxTTL => DecodedRecord { max_ttl: spec_set_u8(rec.max_ttl, bytes), ..rec },
        FlowField::Ident => DecodedRecord { ident: spec_set_u16(rec.ident, bytes), ..rec },
        FlowField::DstTOS => DecodedRecord { dst_tos: spec_set_u8(rec.dst_tos, bytes), ..rec },
        FlowField::InSrcMac => DecodedRecord { in_src_mac: spec_set_mac(rec.in_src_mac, bytes), ..rec },
        FlowField::OutDstMac => DecodedRecord { out_dst_mac: spec_set_mac(rec.out_dst_mac, bytes), ..rec },
        FlowField::SrcVLAN => DecodedRecord { src_vlan: spec_set_u16(rec.src_vlan, bytes), ..rec },
        FlowField::DstVLAN => DecodedRecord { dst_vlan: spec_set_u16(rec.dst_vlan, bytes), ..rec },
        FlowField::IpVersion => DecodedRecord { ip_version: spec_set_u8(rec.ip_version, bytes), ..rec },
        FlowField::Direction => DecodedRecord { direction: spec_set_u8(rec.direction, bytes), ..rec },
        FlowField::InDstMac => DecodedRecord { in_dst_mac: spec_set_mac(rec.in_dst_mac, bytes), ..rec },
        FlowField::OutSrcMac => DecodedRecord { out_src_mac: spec_set_mac(rec.out_src_mac, bytes), ..rec },
        _ => rec,
    }
}

/// The typed value a record holds for a kind, as an unbounded integer;
/// `None` where the slot is absent or the kind has no slot. IPv4 values are
/// their 32-bit numeric form.
pub open spec fn spec_slot_value(rec: DecodedRecord, kind: FlowField) -> Option<int> {
    match kind {
        FlowField::InOctets => match rec.in_octets { U64Field::Value(v) => Some(v as int), _ => None },
        FlowField::InPkts => match rec.in_packets { U64Field::Value(v) => Some(v as int), _ => None },
        FlowField::Flows => match rec.flows { U32Field::Value(v) => Some(v as int), _ => None },
        FlowField::Protocol => match rec.protocol { U8Field::Value(v) => Some(v as int), _ => None },
        FlowField::SrcTOS => match rec.src_tos { U8Field::Value(v) => Some(v as int), _ => None },
        FlowField::TCPFlags => match rec.tcp_flags { U8Field::Value(v) => Some(v as int), _ => None },
        FlowField::SrcPort => match rec.src_port { U16Field::Value(v) => Some(v as int), _ => None },
        FlowField::SrcAddr => match rec.src_addr { Ipv4Field::Value(v) => Some(v as int), _ => None },
        FlowField::SrcMask => match rec.src_mask { U8Field::Value(v) => Some(v as int), _ => None },
        FlowField::InputSNMP => match rec.input_snmp { U32Field::Value(v) => Some(v as int), _ => None },
        FlowField::DstPort => match rec.dst_port { U16Field::Value(v) => Some(v as int), _ => None },
        FlowField::DstAddr => match rec.dst_addr { Ipv4Field::Value(v) => Some(v as int), _ => None },
        FlowField::DstMask => match rec.dst_mask { U8Field::Value(v) => Some(v as int), _ => None },
        FlowField::OutputSNMP => match rec.output_snmp { U32Field::Value(v) => Some(v as int), _ => None },
        FlowField::NextHop => match rec.next_hop { Ipv4Field::Value(v) => Some(v as int), _ => None },
        FlowField::MulDstPkts => match rec.mul_dst_pkts { U32Field::Value(v) => Some(v as int), _ => None },
        FlowField::MulDstBytes => match rec.mul_dst_bytes { U32Field::Value(v) => Some(v as int), _ => None },
        FlowField::LastSwitched => match rec.last_switched { U32Field::Value(v) => Some(v as int), _ => None },
        FlowField::FirstSwitched => match rec.first_switched { U32Field::Value(v) => Some(v as int), _ => None },
        FlowField::OutBytes => match rec.out_bytes { U64Field::Value(v) => Some(v as int), _ => None },
        FlowField::OutPkts => match rec.out_pkts { U64Field::Value(v) => Some(v as int), _ => None },
        FlowField::MinPktLength => match rec.min_pkt_lngth { U16Field::Value(v) => Some(v as int), _ => None },
        FlowField::MaxPktLength => match rec.max_pkt_lngth { U16Field::Value(v) => Some(v as int), _ => None },
        FlowField::IcmpType => match rec.icmp_type { U16Field::Value(v) => Some(v as int), _ => None },
        FlowField::MulIgmpType => match rec.mul_igmp_type { U8Field::Value(v) => Some(v as int), _ => None },
        FlowField::MinTTL => match rec.min_ttl { U8Field::Value(v) => Some(v as int), _ => None },
        FlowField::MaxTTL => match rec.max_ttl { U8Field::Value(v) => Some(v as int), _ => None },
        FlowField::Ident => match rec.ident { U16Field::Value(v) => Some(v as int), _ => None },
        FlowField::DstTOS => match rec.dst_tos { U8Field::Value(v) => Some(v as int), _ => None },
        FlowField::InSrcMac => match rec.in_src_mac { U64Field::Value(v) => Some(v as int), _ => None },
        FlowField::OutDstMac => match rec.out_dst_mac { U64Field::Value(v) => Some(v as int), _ => None },
        FlowField::SrcVLAN => match rec.src_vlan { U16Field::Value(v) => Some(v as int), _ => None },
        FlowField::DstVLAN => match rec.dst_vlan { U16Field::Value(v) => Some(v as int), _ => None },
        FlowField::IpVersion => match rec.ip_version { U8Field::Value(v) => Some(v as int), _ => None },
        FlowField::Direction => match rec.direction { U8Field::Value(v) => Some(v as int), _ => None },
        FlowField::InDstMac => match rec.in_dst_mac { U64Field::Value(v) => Some(v as int), _ => None },
        FlowField::OutSrcMac => match rec.out_src_mac { U64Field::Value(v) => Some(v as int), _ => None },
        _ => None,
    }
}

/// Whether a kind owns a slot in a decoded record.
pub open spec fn spec_has_slot(kind: FlowField) -> bool {
    match kind {
        FlowField::InOctets | FlowField::InPkts | FlowField::Flows | FlowField::Protocol
            | FlowField::SrcTOS | FlowField::TCPFlags | FlowField::SrcPort | FlowField::SrcAddr
            | FlowField::SrcMask | FlowField::InputSNMP | FlowField::DstPort | FlowField::DstAddr
            | FlowField::DstMask | FlowField::OutputSNMP | FlowField::NextHop
            | FlowField::MulDstPkts | FlowField::MulDstBytes | FlowField::LastSwitched
            | FlowField::FirstSwitched | FlowField::OutBytes | FlowField::OutPkts
            | FlowField::MinPktLength | FlowField::MaxPktLength | FlowField::IcmpType
            | FlowField::MulIgmpType | FlowField::MinTTL | FlowField::MaxTTL | FlowField::Ident
            | FlowField::DstTOS | FlowField::InSrcMac | FlowField::OutDstMac | FlowField::SrcVLAN
            | FlowField::DstVLAN | FlowField::IpVersion | FlowField::Direction
            | FlowField::InDstMac | FlowField::OutSrcMac => true,
        _ => false,
    }
}

/// Reads a one-octet slot value where the declared width allows it.
fn read_u8_slot(slot: U8Field, buf: &Vec<u8>, pos: usize, w: u16) -> (r: U8Field)
    requires
        pos + w <= buf.len(),
    ensures
        r == spec_set_u8(slot, buf@.subrange(pos as int, pos as int + w as int)),
{
    if w == 1 {
        U8Field::Value(buf[pos])
    } else {
        slot
    }
}

/// Reads a two-octet slot value where the declared width allows it.
fn read_u16_slot(slot: U16Field, buf: &Vec<u8>, pos: usize, w: u16) -> (r: U16Field)
    requires
        pos + w <= buf.len(),
    ensures
        r == spec_set_u16(slot, buf@.subrange(pos as int, pos as int + w as int)),
{
    if w == 1 {
        U16Field::Value(buf[pos] as u16)
    } else if w == 2 {
        U16Field::Value(be_u16_at(buf, pos))
    } else {
        slot
    }
}

/// Reads a four-octet slot value where the declared width allows it.
fn read_u32_slot(slot: U32Field, buf: &Vec<u8>, pos: usize, w: u16) -> (r: U32Field)
    requires
        pos + w <= buf.len(),
    ensures
        r == spec_set_u32(slot, buf@.subrange(pos as int, pos as int + w as int)),
{
    if w == 1 {
        U32Field::Value(buf[pos] as u32)
    } else if w == 2 {
        U32Field::Value(be_u16_at(buf, pos) as u32)
    } else if w == 4 {
        U32Field::Value(be_u32_at(buf, pos))
    } else {
        slot
    }
}

/// Reads a counter slot value where the declared width allows it.
fn read_counter_slot(slot: U64Field, buf: &Vec<u8>, pos: usize, w: u16) -> (r: U64Field)
    requires
        pos + w <= buf.len(),
    ensures
        r == spec_set_counter(slot, buf@.subrange(pos as int, pos as int + w as int)),
{
    if w == 1 {
        U64Field::Value(buf[pos] as u64)
    } else if w == 2 {
        U64Field::Value(be_u16_at(buf, pos) as u64)
    } else if w == 4 {
        U64Field::Value(be_u32_at(buf, pos) as u64)
    } else if w == 8 {
        U64Field::Value(be_u64_at(buf, pos))
    } else {
        slot
    }
}

/// Reads a MAC slot value where the declared width allows it.
fn read_mac_slot(slot: U64Field, buf: &Vec<u8>, pos: usize, w: u16) -> (r: U64Field)
    requires
        pos + w <= buf.len(),
    ensures
        r == spec_set_mac(slot, buf@.subrange(pos as int, pos as int + w as int)),
{
    if w == 6 {
        U64Field::Value(be_u48_at(buf, pos))
    } else {
        slot
    }
}

/// Reads an address slot value where the declared width allows it.
fn read_ipv4_slot(slot: Ipv4Field, buf: &Vec<u8>, pos: usize, w: u16) -> (r: Ipv4Field)
    requires
        pos + w <= buf.len(),
    ensures
        r == spec_set_ipv4(slot, buf@.subrange(pos as int, pos as int + w as int)),
{
    if w == 4 {
        Ipv4Field::Value(be_u32_at(buf, pos))
    } else {
        slot
    }
}

/// Applies one template slot's octets to a record: the slot belonging to
/// `kind` takes the value when its type can hold the declared width; kinds
/// without a slot are walked past unchanged.
pub fn set_field_value(rec: DecodedRecord, kind: FlowField, buf: &Vec<u8>, pos: usize, w: u16) -> (r:
    DecodedRecord)
    requires
        pos + w <= buf.len(),
    ensures
        r == spec_apply_field(rec, kind, buf@.subrange(pos as int, pos as int + w as int)),
{
    match kind {
        FlowField::InOctets => DecodedRecord { in_octets: read_counter_slot(rec.in_octets, buf, pos, w), ..rec },
        FlowField::InPkts => DecodedRecord { in_packets: read_counter_slot(rec.in_packets, buf, pos, w), ..rec },
        FlowField::Flows => DecodedRecord { flows: read_u32_slot(rec.flows, buf, pos, w), ..rec },
        FlowField::Protocol => DecodedRecord { protocol: read_u8_slot(rec.protocol, buf, pos, w), ..rec },
        FlowField::SrcTOS => DecodedRecord { src_tos: read_u8_slot(rec.src_tos, buf, pos, w), ..rec },
        FlowField::TCPFlags => DecodedRecord { tcp_flags: read_u8_slot(rec.tcp_flags, buf, pos, w), ..rec },
        FlowField::SrcPort => DecodedRecord { src_port: read_u16_slot(rec.src_port, buf, pos, w), ..rec },
        FlowField::SrcAddr => DecodedRecord { src_addr: read_ipv4_slot(rec.src_addr, buf, pos, w), ..rec },
        FlowField::SrcMask => DecodedRecord { src_mask: read_u8_slot(rec.src_mask, buf, pos, w), ..rec },
        FlowField::InputSNMP => DecodedRecord { input_snmp: read_u32_slot(rec.input_snmp, buf, pos, w), ..rec },
        FlowField::DstPort => DecodedRecord { dst_port: read_u16_slot(rec.dst_port, buf, pos, w), ..rec },
        FlowField::DstAddr => DecodedRecord { dst_addr: read_ipv4_slot(rec.dst_addr, buf, pos, w), ..rec },
        FlowField::DstMask => DecodedRecord { dst_mask: read_u8_slot(rec.dst_mask, buf, pos, w), ..rec },
        FlowField::OutputSNMP => DecodedRecord { output_snmp: read_u32_slot(rec.output_snmp, buf, pos, w), ..rec },
        FlowField::NextHop => DecodedRecord { next_hop: read_ipv4_slot(rec.next_hop, buf, pos, w), ..rec },
        FlowField::MulDstPkts => DecodedRecord { mul_dst_pkts: read_u32_slot(rec.mul_dst_pkts, buf, pos, w), ..rec },
        FlowField::MulDstBytes => DecodedRecord { mul_dst_bytes: read_u32_slot(rec.mul_dst_bytes, buf, pos, w), ..rec },
        FlowField::LastSwitched => DecodedRecord { last_switched: read_u32_slot(rec.last_switched, buf, pos, w), ..rec },
        FlowField::FirstSwitched => DecodedRecord { first_switched: read_u32_slot(rec.first_switched, buf, pos, w), ..rec },
        FlowField::OutBytes => DecodedRecord { out_bytes: read_counter_slot(rec.out_bytes, buf, pos, w), ..rec },
        FlowField::OutPkts => DecodedRecord { out_pkts: read_counter_slot(rec.out_pkts, buf, pos, w), ..rec },
        FlowField::MinPktLength => DecodedRecord { min_pkt_lngth: read_u16_slot(rec.min_pkt_lngth, buf, pos, w), ..rec },
        FlowField::MaxPktLength => DecodedRecord { max_pkt_lngth: read_u16_slot(rec.max_pkt_lngth, buf, pos, w), ..rec },
        FlowField::IcmpType => DecodedRecord { icmp_type: read_u16_slot(rec.icmp_type, buf, pos, w), ..rec },
        FlowField::MulIgmpType => DecodedRecord { mul_igmp_type: read_u8_slot(rec.mul_igmp_type, buf, pos, w), ..rec },
        FlowField::MinTTL => DecodedRecord { min_ttl: read_u8_slot(rec.min_ttl, buf, pos, w), ..rec },
        FlowField::MaxTTL => DecodedRecord { max_ttl: read_u8_slot(rec.max_ttl, buf, pos, w), ..rec },
        FlowField::Ident => DecodedRecord { ident: read_u16_slot(rec.ident, buf, pos, w), ..rec },
        FlowField::DstTOS => DecodedRecord { dst_tos: read_u8_slot(rec.dst_tos, buf, pos, w), ..rec },
        FlowField::InSrcMac => DecodedRecord { in_src_mac: read_mac_slot(rec.in_src_mac, buf, pos, w), ..rec },
        FlowField::OutDstMac => DecodedRecord { out_dst_mac: read_mac_slot(rec.out_dst_mac, buf, pos, w), ..rec },
        FlowField::SrcVLAN => DecodedRecord { src_vlan: read_u16_slot(rec.src_vlan, buf, pos, w), ..rec },
        FlowField::DstVLAN => DecodedRecord { dst_vlan: read_u16_slot(rec.dst_vlan, buf, pos, w), ..rec },
        FlowField::IpVersion => DecodedRecord { ip_version: read_u8_slot(rec.ip_version, buf, pos, w), ..rec },
        FlowField::Direction => DecodedRecord { direction: read_u8_slot(rec.direction, buf, pos, w), ..rec },
        FlowField::InDstMac => DecodedRecord { in_dst_mac: read_mac_slot(rec.in_dst_mac, buf, pos, w), ..rec },
        FlowField::OutSrcMac => DecodedRecord { out_src_mac: read_mac_slot(rec.out_src_mac, buf, pos, w), ..rec },
        _ => rec,
    }
}

/// A template as learned from a template set: its identifier and the ordered
/// (kind, declared width) pairs of its slots.
#[derive(Clone, Debug)]
pub struct NetflowTemplate {
    pub id: Option<u16>,
    pub field_count: Option<u16>,
    pub fields: Vec<(FlowField, u16)>,
}

/// The mathematical shape of a template.
pub ghost struct TemplateModel {
    pub id: Option<u16>,
    pub field_count: Option<u16>,
    pub fields: Seq<(FlowField, u16)>,
}

impl View for NetflowTemplate {
    type V = TemplateModel;

    open spec fn view(&self) -> TemplateModel {
        TemplateModel { id: self.id, field_count: self.field_count, fields: self.fields@ }
    }
}

/// A template is well formed when it knows its identifier and its field
/// count agrees with the slots it holds.
pub open spec fn spec_template_wf(t: TemplateModel) -> bool {
    &&& t.id is Some
    &&& t.fields.len() <= 0xFFFF
    &&& t.field_count == Some(t.fields.len() as u16)
}

/// The octets one record occupies under a template: the sum of the declared
/// widths.
pub open spec fn spec_width_sum(fields: Seq<(FlowField, u16)>) -> int
    decreases fields.len(),
{
    if fields.len() == 0 {
        0
    } else {
        fields[0].1 + spec_width_sum(fields.drop_first())
    }
}

/// A width sum is never negative.
pub proof fn lemma_width_sum_nonneg(fields: Seq<(FlowField, u16)>)
    ensures
        spec_width_sum(fields) >= 0,
    decreases fields.len(),
{
    if fields.len() > 0 {
        lemma_width_sum_nonneg(fields.drop_first());
    }
}

/// Computes the octets one record occupies under a template.
pub fn record_byte_len(fields: &Vec<(FlowField, u16)>) -> (r: u64)
    requires
        fields.len() <= 0x10000,
    ensures
        r == spec_width_sum(fields@),
{
    let mut sum: u64 = 0;
    let n = fields.len();
    let mut i: usize = 0;
    proof {
        assert(fields@.skip(0) =~= fields@);
    }
    while i < n
        invariant
            i <= n,
            n == fields.len(),
            n <= 0x10000,
            sum <= 0xFFFF * i,
            sum + spec_width_sum(fields@.skip(i as int)) == spec_width_sum(fields@),
        decreases n - i,
    {
        proof {
            assert(fields@.skip(i as int).drop_first() =~= fields@.skip(i as int + 1));
            assert(fields@.skip(i as int)[0] == fields@[i as int]);
        }
        sum = sum + fields[i].1 as u64;
        i = i + 1;
    }
    proof {
        assert(fields@.skip(n as int) =~= Seq::<(FlowField, u16)>::empty());
    }
    sum
}

/// The record decoded by walking the template's slots over exactly the
/// record's octets: each slot takes its declared width off the front.
pub open spec fn spec_decode_fields(
    rec: DecodedRecord,
    fields: Seq<(FlowField, u16)>,
    bytes: Seq<u8>,
) -> DecodedRecord
    decreases fields.len(),
{
    if fields.len() == 0 {
        rec
    } else {
        spec_decode_fields(
            spec_apply_field(rec, fields[0].0, bytes.take(fields[0].1 as int)),
            fields.drop_first(),
            bytes.skip(fields[0].1 as int),
        )
    }
}

/// Decodes one record at `pos`: walks the template's slots in order, slicing
/// each slot's declared width.
pub fn decode_record(fields: &Vec<(FlowField, u16)>, buf: &Vec<u8>, pos: usize, rec_len: usize) -> (r:
    DecodedRecord)
    requires
        rec_len == spec_width_sum(fields@),
        pos + rec_len <= buf.len(),
    ensures
        r == spec_decode_fields(
            spec_empty_record(),
            fields@,
            buf@.subrange(pos as int, pos as int + rec_len as int),
        ),
{
    let ghost s = buf@.subrange(pos as int, pos as int + rec_len as int);
    let mut rec = DecodedRecord::new();
    let n = fields.len();
    let mut i: usize = 0;
    let mut off: usize = 0;
    proof {
        assert(fields@.skip(0) =~= fields@);
        assert(s.skip(0) =~= s);
    }
    while i < n
        invariant
            i <= n,
            n == fields.len(),
            off + spec_width_sum(fields@.skip(i as int)) == rec_len,
            rec_len == spec_width_sum(fields@),
            pos + rec_len <= buf.len(),
            s == buf@.subrange(pos as int, pos as int + rec_len as int),
            spec_decode_fields(spec_empty_record(), fields@, s) == spec_decode_fields(
                rec,
                fields@.skip(i as int),
                s.skip(off as int),
            ),
        decreases n - i,
    {
        let kind = fields[i].0;
        let w = fields[i].1;
        proof {
            assert(fields@.skip(i as int)[0] == fields@[i as int]);
            assert(fields@.skip(i as int).drop_first() =~= fields@.skip(i as int + 1));
            lemma_width_sum_nonneg(fields@.skip(i as int + 1));
            assert(s.skip(off as int).take(w as int) =~= buf@.subrange(
                pos as int + off as int,
                pos as int + off as int + w as int,
            ));
            assert(s.skip(off as int).skip(w as int) =~= s.skip(off as int + w as int));
        }
        rec = set_field_value(rec, kind, buf, pos + off, w);
        off = off + w as usize;
        i = i + 1;
    }
    proof {
        assert(fields@.skip(n as int) =~= Seq::<(FlowField, u16)>::empty());
    }
    rec
}

/// The (kind, width) pair at index `k` of a template whose pair area starts
/// at `start`.
pub open spec fn spec_field_pair(s: Seq<u8>, start: int, k: int) -> (FlowField, u16) {
    (
        spec_kind_of(spec_be16_at(s, start + 4 * k) as u16),
        spec_be16_at(s, start + 4 * k + 2) as u16,
    )
}

/// Reads `count` consecutive (field type, field length) pairs beginning at
/// `start`, mapping each type through the catalogue.
pub fn parse_field_pairs(buf: &Vec<u8>, start: usize, count: u16) -> (r: Vec<(FlowField, u16)>)
    requires
        start + 4 * count <= buf.len(),
    ensures
        r@ == Seq::new(count as nat, |k: int| spec_field_pair(buf@, start as int, k)),
{
    let mut out: Vec<(FlowField, u16)> = Vec::new();
    let mut j: usize = 0;
    while j < count as usize
        invariant
            j <= count as usize,
            start + 4 * count <= buf.len(),
            out@.len() == j,
            forall|k: int| 0 <= k < j ==> out@[k] == spec_field_pair(buf@, start as int, k),
        decreases count as usize - j,
    {
        let ft = be_u16_at(buf, start + 4 * j);
        let wd = be_u16_at(buf, start + 4 * j + 2);
        out.push((kind_of(ft), wd));
        j = j + 1;
    }
    proof {
        assert(out@ =~= Seq::new(count as nat, |k: int| spec_field_pair(buf@, start as int, k)));
    }
    out
}

/// The templates packed in a template set between `pos` and `end`: each is
/// id(2), field count(2), then that many (type, length) pairs. A template
/// whose declared pairs overrun the set is dropped with the rest of the set.
pub open spec fn spec_parse_templates(s: Seq<u8>, pos: int, end: int) -> Seq<TemplateModel>
    decreases end - pos,
{
    if 0 <= pos && pos + 4 <= end && end <= s.len() {
        let id = spec_be16_at(s, pos) as u16;
        let count = spec_be16_at(s, pos + 2) as u16;
        if pos + 4 + 4 * count <= end {
            seq![
                TemplateModel {
                    id: Some(id),
                    field_count: Some(count),
                    fields: Seq::new(count as nat, |k: int| spec_field_pair(s, pos + 4, k)),
                },
            ] + spec_parse_templates(s, pos + 4 + 4 * count, end)
        } else {
            Seq::empty()
        }
    } else {
        Seq::empty()
    }
}

/// Parses every template packed in a template set between `pos` and `end`.
pub fn parse_template_set(buf: &Vec<u8>, pos: usize, end: usize) -> (r: Vec<NetflowTemplate>)
    requires
        pos <= end <= buf.len(),
    ensures
        r@.map_values(|t: NetflowTemplate| t@) == spec_parse_templates(buf@, pos as int, end as int),
        forall|i: int| 0 <= i < r@.len() ==> spec_template_wf(#[trigger] r@[i]@),
{
    let mut out: Vec<NetflowTemplate> = Vec::new();
    let mut cur: usize = pos;
    proof {
        assert(out@.map_values(|t: NetflowTemplate| t@) =~= Seq::<TemplateModel>::empty());
    }
    while end - cur >= 4
        invariant
            pos <= cur <= end <= buf.len(),
            spec_parse_templates(buf@, pos as int, end as int) == out@.map_values(
                |t: NetflowTemplate| t@,
            ) + spec_parse_templates(buf@, cur as int, end as int),
            forall|i: int| 0 <= i < out@.len() ==> spec_template_wf(#[trigger] out@[i]@),
        ensures
            pos <= cur <= end <= buf.len(),
            spec_parse_templates(buf@, pos as int, end as int) == out@.map_values(
                |t: NetflowTemplate| t@,
            ) + spec_parse_templates(buf@, cur as int, end as int),
            forall|i: int| 0 <= i < out@.len() ==> spec_template_wf(#[trigger] out@[i]@),
            spec_parse_templates(buf@, cur as int, end as int) == Seq::<TemplateModel>::empty(),
        decreases end - cur,
    {
        let id = be_u16_at(buf, cur);
        let count = be_u16_at(buf, cur + 2);
        let pairs_bytes: u64 = 4 * (count as u64);
        if (((end - cur - 4) as u64) < pairs_bytes) {
            break ;
        }
        let fields = parse_field_pairs(buf, cur + 4, count);
        let t = NetflowTemplate { id: Some(id), field_count: Some(count), fields };
        proof {
            let m = TemplateModel {
                id: Some(id),
                field_count: Some(count),
                fields: Seq::new(count as nat, |k: int| spec_field_pair(buf@, cur as int + 4, k)),
            };
            assert(t@.fields =~= m.fields);
            assert(out@.push(t).map_values(|x: NetflowTemplate| x@) =~= out@.map_values(
                |x: NetflowTemplate| x@,
            ).push(m));
        }
        out.push(t);
        cur = cur + 4 + 4 * (count as usize);
    }
    proof {
        assert(spec_parse_templates(buf@, cur as int, end as int) =~= Seq::<TemplateModel>::empty());
    }
    out
}

/// Decodes a data set's body against a template: as many whole records as
/// fit between `pos` and `set_end`; a trailing remainder, padding included,
/// is dropped. A template whose slots occupy no octets yields no records.
pub fn decode_data_set(
    fields: &Vec<(FlowField, u16)>,
    buf: &Vec<u8>,
    pos: usize,
    set_end: usize,
    rec_len: usize,
) -> (r: Vec<DecodedRecord>)
    requires
        rec_len == spec_width_sum(fields@),
        pos <= set_end <= buf.len(),
    ensures
        rec_len == 0 ==> r@.len() == 0,
        rec_len > 0 ==> r@.len() == (set_end - pos) as int / rec_len as int,
        forall|i: int|
            0 <= i < r@.len() ==> r@[i] == spec_decode_fields(
                spec_empty_record(),
                fields@,
                buf@.subrange(
                    pos as int + i * rec_len as int,
                    pos as int + (i + 1) * rec_len as int,
                ),
            ),
{
    let mut out: Vec<DecodedRecord> = Vec::new();
    if rec_len == 0 {
        return out;
    }
    let mut off: usize = pos;
    proof {
        assert(out@.len() == 0);
        assert(pos + out@.len() * rec_len == pos);
    }
    while set_end - off >= rec_len
        invariant
            rec_len == spec_width_sum(fields@),
            rec_len > 0,
            pos <= off <= set_end <= buf.len(),
            off == pos + out@.len() * rec_len,
            forall|i: int|
                0 <= i < out@.len() ==> out@[i] == spec_decode_fields(
                    spec_empty_record(),
                    fields@,
                    buf@.subrange(
                        pos as int + i * rec_len as int,
                        pos as int + (i + 1) * rec_len as int,
                    ),
                ),
        decreases set_end - off,
    {
        let rec = decode_record(fields, buf, off, rec_len);
        proof {
            assert(pos as int + out@.len() * rec_len as int + rec_len as int == pos as int + (
            out@.len() + 1) * rec_len as int) by (nonlinear_arith);
        }
        out.push(rec);
        off = off + rec_len;
    }
    proof {
        assert((set_end - pos) as int / (rec_len as int) == out@.len()) by (nonlinear_arith)
            requires
                rec_len > 0,
                off == pos + out@.len() * rec_len,
                set_end - off < rec_len,
                pos <= off <= set_end,
        ;
    }
    out
}

/// Parses the first template of a template-set datagram: identifier at
/// octets 24..26, field count at 26..28, pairs from 28 on. `None` exactly
/// when the payload is too short for the declared pair count.
pub fn parse_flow_template(buf: &Vec<u8>) -> (r: Option<NetflowTemplate>)
    ensures
        r is Some <==> (buf.len() >= 28 && 28 + 4 * (spec_be16_at(buf@, 26) as u16) as int
            <= buf.len()),
        r matches Some(t) ==> {
            &&& t@.id == Some(spec_be16_at(buf@, 24) as u16)
            &&& t@.field_count == Some(spec_be16_at(buf@, 26) as u16)
            &&& t@.fields == Seq::new(
                (spec_be16_at(buf@, 26) as u16) as nat,
                |k: int| spec_field_pair(buf@, 28, k),
            )
            &&& spec_template_wf(t@)
        },
{
    if buf.len() < 28 {
        return None;
    }
    let id = crate::wire::parse_flow_template_id_from_template(buf);
    let count = crate::wire::parse_flow_field_count(buf);
    let need: u64 = 28 + 4 * (count as u64);
    if ((buf.len() as u64) < need) {
        return None;
    }
    let fields = parse_field_pairs(buf, 28, count);
    Some(NetflowTemplate { id: Some(id), field_count: Some(count), fields })
}

/// The least value too large for a big-endian field of width `w`.
pub open spec fn spec_width_bound(w: int) -> int {
    if w == 1 {
        0x100
    } else if w == 2 {
        0x10000
    } else if w == 4 {
        0x100000000
    } else if w == 6 {
        0x1000000000000
    } else if w == 8 {
        0x10000000000000000
    } else {
        0
    }
}

/// The big-endian octets of value `v` at width `w`.
pub open spec fn spec_wire_bytes(w: int, v: int) -> Seq<u8> {
    if w == 1 {
        seq![v as u8]
    } else if w == 2 {
        crate::bytes::spec_be16_bytes(v as u16)
    } else if w == 4 {
        crate::bytes::spec_be32_bytes(v as u32)
    } else if w == 6 {
        crate::bytes::spec_be48_bytes(v as u64)
    } else if w == 8 {
        crate::bytes::spec_be64_bytes(v as u64)
    } else {
        Seq::empty()
    }
}

/// A template slot can be encoded from a record when the kind owns a slot,
/// the declared width is the canonical one, and the record holds a value
/// that fits it.
pub open spec fn spec_field_encodable(rec: DecodedRecord, kind: FlowField, w: u16) -> bool {
    &&& spec_has_slot(kind)
    &&& w == spec_canonical_width(kind)
    &&& spec_slot_value(rec, kind) matches Some(v) && 0 <= v < spec_width_bound(w as int)
}

/// The octets one slot contributes when a record is encoded at canonical
/// widths.
pub open spec fn spec_encode_field(rec: DecodedRecord, kind: FlowField) -> Seq<u8> {
    match spec_slot_value(rec, kind) {
        Some(v) => spec_wire_bytes(spec_canonical_width(kind) as int, v),
        None => Seq::empty(),
    }
}

/// The data-record octets of a record encoded against a template, slot by
/// slot in template order.
pub open spec fn spec_encode_fields(rec: DecodedRecord, fields: Seq<(FlowField, u16)>) -> Seq<u8>
    decreases fields.len(),
{
    if fields.len() == 0 {
        Seq::empty()
    } else {
        spec_encode_field(rec, fields[0].0) + spec_encode_fields(rec, fields.drop_first())
    }
}

/// Reads the typed value a record holds for a kind, zero-extended to 64
/// bits; addresses come back as their numeric form.
pub fn slot_value_u64(rec: &DecodedRecord, kind: FlowField) -> (r: Option<u64>)
    ensures
        r matches Some(v) ==> spec_slot_value(*rec, kind) == Some(v as int),
        r is None ==> spec_slot_value(*rec, kind) is None,
{
    match kind {
        FlowField::InOctets => match rec.in_octets { U64Field::Value(v) => Some(v), _ => None },
        FlowField::InPkts => match rec.in_packets { U64Field::Value(v) => Some(v), _ => None },
        FlowField::Flows => match rec.flows { U32Field::Value(v) => Some(v as u64), _ => None },
        FlowField::Protocol => match rec.protocol { U8Field::Value(v) => Some(v as u64), _ => None },
        FlowField::SrcTOS => match rec.src_tos { U8Field::Value(v) => Some(v as u64), _ => None },
        FlowField::TCPFlags => match rec.tcp_flags { U8Field::Value(v) => Some(v as u64), _ => None },
        FlowField::SrcPort => match rec.src_port { U16Field::Value(v) => Some(v as u64), _ => None },
        FlowField::SrcAddr => match rec.src_addr { Ipv4Field::Value(v) => Some(v as u64), _ => None },
        FlowField::SrcMask => match rec.src_mask { U8Field::Value(v) => Some(v as u64), _ => None },
        FlowField::InputSNMP => match rec.input_snmp { U32Field::Value(v) => Some(v as u64), _ => None },
        FlowField::DstPort => match rec.dst_port { U16Field::Value(v) => Some(v as u64), _ => None },
        FlowField::DstAddr => match rec.dst_addr { Ipv4Field::Value(v) => Some(v as u64), _ => None },
        FlowField::DstMask => match rec.dst_mask { U8Field::Value(v) => Some(v as u64), _ => None },
        FlowField::OutputSNMP => match rec.output_snmp { U32Field::Value(v) => Some(v as u64), _ => None },
        FlowField::NextHop => match rec.next_hop { Ipv4Field::Value(v) => Some(v as u64), _ => None },
        FlowField::MulDstPkts => match rec.mul_dst_pkts { U32Field::Value(v) => Some(v as u64), _ => None },
        FlowField::MulDstBytes => match rec.mul_dst_bytes { U32Field::Value(v) => Some(v as u64), _ => None },
        FlowField::LastSwitched => match rec.last_switched { U32Field::Value(v) => Some(v as u64), _ => None },
        FlowField::FirstSwitched => match rec.first_switched { U32Field::Value(v) => Some(v as u64), _ => None },
        FlowField::OutBytes => match rec.out_bytes { U64Field::Value(v) => Some(v), _ => None },
        FlowField::OutPkts => match rec.out_pkts { U64Field::Value(v) => Some(v), _ => None },
        FlowField::MinPktLength => match rec.min_pkt_lngth { U16Field::Value(v) => Some(v as u64), _ => None },
        FlowField::MaxPktLength => match rec.max_pkt_lngth { U16Field::Value(v) => Some(v as u64), _ => None },
        FlowField::IcmpType => match rec.icmp_type { U16Field::Value(v) => Some(v as u64), _ => None },
        FlowField::MulIgmpType => match rec.mul_igmp_type { U8Field::Value(v) => Some(v as u64), _ => None },
        FlowField::MinTTL => match rec.min_ttl { U8Field::Value(v) => Some(v as u64), _ => None },
        FlowField::MaxTTL => match rec.max_ttl { U8Field::Value(v) => Some(v as u64), _ => None },
        FlowField::Ident => match rec.ident { U16Field::Value(v) => Some(v as u64), _ => None },
        FlowField::DstTOS => match rec.dst_tos { U8Field::Value(v) => Some(v as u64), _ => None },
        FlowField::InSrcMac => match rec.in_src_mac { U64Field::Value(v) => Some(v), _ => None },
        FlowField::OutDstMac => match rec.out_dst_mac { U64Field::Value(v) => Some(v), _ => None },
        FlowField::SrcVLAN => match rec.src_vlan { U16Field::Value(v) => Some(v as u64), _ => None },
        FlowField::DstVLAN => match rec.dst_vlan { U16Field::Value(v) => Some(v as u64), _ => None },
        FlowField::IpVersion => match rec.ip_version { U8Field::Value(v) => Some(v as u64), _ => None },
        FlowField::Direction => match rec.direction { U8Field::Value(v) => Some(v as u64), _ => None },
        FlowField::InDstMac => match rec.in_dst_mac { U64Field::Value(v) => Some(v), _ => None },
        FlowField::OutSrcMac => match rec.out_src_mac { U64Field::Value(v) => Some(v), _ => None },
        _ => None,
    }
}

/// Encodes a record's slots against a template at canonical widths, in
/// template order. `None` exactly when some slot cannot be encoded: its
/// kind has no slot, its declared width is not the canonical one, the
/// record holds no value for it, or the value does not fit the width.
pub fn encode_record(rec: &DecodedRecord, fields: &Vec<(FlowField, u16)>) -> (r: Option<Vec<u8>>)
    ensures
        r is Some <==> (forall|j: int|
            0 <= j < fields@.len() ==> spec_field_encodable(
                *rec,
                (#[trigger] fields@[j]).0,
                fields@[j].1,
            )),
        r matches Some(b) ==> b@ == spec_encode_fields(*rec, fields@),
{
    let mut out: Vec<u8> = Vec::new();
    let n = fields.len();
    let mut i: usize = 0;
    proof {
        assert(fields@.skip(0) =~= fields@);
    }
    while i < n
        invariant
            i <= n,
            n == fields@.len(),
            forall|j: int|
                0 <= j < i ==> spec_field_encodable(*rec, (#[trigger] fields@[j]).0, fields@[j].1),
            spec_encode_fields(*rec, fields@) == out@ + spec_encode_fields(
                *rec,
                fields@.skip(i as int),
            ),
        decreases n - i,
    {
        let (kind, w) = fields[i];
        let cw = crate::fields::canonical_width(kind);
        let v = match slot_value_u64(rec, kind) {
            Some(v) => v,
            None => {
                return None;
            },
        };
        if cw == 0 || w != cw as u16 {
            return None;
        }
        let bound_ok: bool = if cw == 1 {
            v < 0x100
        } else if cw == 2 {
            v < 0x10000
        } else if cw == 4 {
            v < 0x100000000
        } else if cw == 6 {
            v < 0x1000000000000
        } else {
            true
        };
        if !bound_ok {
            return None;
        }
        proof {
            assert(spec_field_encodable(*rec, kind, w));
            assert(fields@.skip(i as int)[0] == fields@[i as int]);
            assert(fields@.skip(i as int).drop_first() =~= fields@.skip(i as int + 1));
        }
        let ghost before = out@;
        if cw == 1 {
            out.push(v as u8);
            proof {
                assert(out@ =~= before + spec_encode_field(*rec, kind));
            }
        } else if cw == 2 {
            crate::bytes::push_be_u16(&mut out, v as u16);
            proof {
                assert(out@ =~= before + spec_encode_field(*rec, kind));
            }
        } else if cw == 4 {
            crate::bytes::push_be_u32(&mut out, v as u32);
            proof {
                assert(out@ =~= before + spec_encode_field(*rec, kind));
            }
        } else if cw == 6 {
            crate::bytes::push_be_u48(&mut out, v);
            proof {
                assert(out@ =~= before + spec_encode_field(*rec, kind));
            }
        } else {
            proof {
                assert(false);
            }
            return None;
        }
        proof {
            assert(out@ + spec_encode_fields(*rec, fields@.skip(i as int + 1)) =~= before
                + spec_encode_fields(*rec, fields@.skip(i as int)));
        }
        i = i + 1;
    }
    proof {
        assert(fields@.skip(n as int) =~= Seq::<(FlowField, u16)>::empty());
        assert(out@ =~= out@ + Seq::<u8>::empty());
    }
    Some(out)
}

/// An encodable slot contributes exactly its declared (canonical) width.
proof fn lemma_encode_field_len(rec: DecodedRecord, kind: FlowField, w: u16)
    requires
        spec_field_encodable(rec, kind, w),
    ensures
        spec_encode_field(rec, kind).len() == w,
{
}

/// Applying the octets encoded from one record's slot to another record
/// reproduces the value.
proof fn lemma_apply_encode_field(rec0: DecodedRecord, rec: DecodedRecord, kind: FlowField, w: u16)
    requires
        spec_field_encodable(rec, kind, w),
    ensures
        spec_slot_value(spec_apply_field(rec0, kind, spec_encode_field(rec, kind)), kind)
            == spec_slot_value(rec, kind),
{
    match spec_slot_value(rec, kind) {
        Some(v) => {
            let cw = spec_canonical_width(kind) as int;
            if cw == 2 {
                crate::bytes::lemma_be16_roundtrip(v as u16);
            } else if cw == 4 {
                crate::bytes::lemma_be32_roundtrip(v as u32);
            } else if cw == 6 {
                crate::bytes::lemma_be48_roundtrip(v as u64);
            } else if cw == 8 {
                crate::bytes::lemma_be64_roundtrip(v as u64);
            }
        },
        None => {
            assert(false);
        },
    }
}

/// Applying octets for one kind leaves every other kind's value unchanged.
proof fn lemma_apply_field_frame(
    rec: DecodedRecord,
    kind: FlowField,
    bytes: Seq<u8>,
    other: FlowField,
)
    requires
        other != kind,
    ensures
        spec_slot_value(spec_apply_field(rec, kind, bytes), other) == spec_slot_value(rec, other),
{
}

/// Decoding a field list that never mentions a kind leaves that kind's value
/// unchanged.
proof fn lemma_decode_frame(
    rec: DecodedRecord,
    fields: Seq<(FlowField, u16)>,
    bytes: Seq<u8>,
    kind: FlowField,
)
    requires
        forall|j: int| 0 <= j < fields.len() ==> (#[trigger] fields[j]).0 != kind,
    ensures
        spec_slot_value(spec_decode_fields(rec, fields, bytes), kind) == spec_slot_value(rec, kind),
    decreases fields.len(),
{
    if fields.len() > 0 {
        lemma_apply_field_frame(rec, fields[0].0, bytes.take(fields[0].1 as int), kind);
        lemma_decode_frame(
            spec_apply_field(rec, fields[0].0, bytes.take(fields[0].1 as int)),
            fields.drop_first(),
            bytes.skip(fields[0].1 as int),
            kind,
        );
    }
}

/// Wire round trip: encoding a record against a template whose slots carry
/// recognised kinds at canonical widths, then decoding the octets against
/// the same template, reproduces every slot's value exactly — whatever
/// record the decode started from.
pub proof fn lemma_record_round_trip(
    rec0: DecodedRecord,
    rec: DecodedRecord,
    fields: Seq<(FlowField, u16)>,
)
    requires
        forall|j: int|
            0 <= j < fields.len() ==> spec_field_encodable(
                rec,
                (#[trigger] fields[j]).0,
                fields[j].1,
            ),
        forall|j: int, k: int|
            0 <= j < k < fields.len() ==> (#[trigger] fields[j]).0 != (#[trigger] fields[k]).0,
    ensures
        forall|j: int|
            0 <= j < fields.len() ==> spec_slot_value(
                spec_decode_fields(rec0, fields, spec_encode_fields(rec, fields)),
                (#[trigger] fields[j]).0,
            ) == spec_slot_value(rec, fields[j].0),
    decreases fields.len(),
{
    if fields.len() > 0 {
        let k0 = fields[0].0;
        let w0 = fields[0].1;
        let b0 = spec_encode_field(rec, k0);
        let rest_fields = fields.drop_first();
        let rest = spec_encode_fields(rec, rest_fields);
        let bytes = spec_encode_fields(rec, fields);
        lemma_encode_field_len(rec, k0, w0);
        assert(bytes.take(w0 as int) =~= b0);
        assert(bytes.skip(w0 as int) =~= rest);
        let rec1 = spec_apply_field(rec0, k0, b0);
        assert(spec_decode_fields(rec0, fields, bytes) == spec_decode_fields(
            rec1,
            rest_fields,
            rest,
        ));
        lemma_apply_encode_field(rec0, rec, k0, w0);
        assert forall|j: int| 0 <= j < rest_fields.len() implies (#[trigger] rest_fields[j]).0
            != k0 by {
            assert(rest_fields[j] == fields[j + 1]);
        }
        lemma_decode_frame(rec1, rest_fields, rest, k0);
        lemma_record_round_trip(rec1, rec, rest_fields);
        assert forall|j: int| 1 <= j < fields.len() implies spec_slot_value(
            spec_decode_fields(rec0, fields, bytes),
            (#[trigger] fields[j]).0,
        ) == spec_slot_value(rec, fields[j].0) by {
            assert(rest_fields[j - 1] == fields[j]);
            assert(spec_slot_value(
                spec_decode_fields(rec1, rest_fields, rest),
                rest_fields[j - 1].0,
            ) == spec_slot_value(rec, rest_fields[j - 1].0));
        }
    }
}

} // verus!
