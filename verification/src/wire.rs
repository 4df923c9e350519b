//! Datagram-level framing for NetFlow v9: the 20-octet header, set headers,
//! and the classification of sets into template sets and data sets.
//!
//! Layout, big-endian throughout: version(2), count(2), sys_uptime(4),
//! unix_secs(4), seq(4), source_id(4); the first set header follows at
//! offset 20: set_id(2), set_length(2).

use crate::bytes::be_u16_at;
use crate::bytes::be_u32_at;
use crate::bytes::spec_be16_at;
use crate::bytes::spec_be32_at;
use crate::fields::NetflowVersion;
use crate::fields::PacketType;
use vstd::prelude::*;

verus! {

/// The v9 header is 20 octets; anything shorter cannot be a datagram.
pub const MIN_PACKET_SIZE: usize = 20;

/// The header of one received datagram, plus the first set's header.
#[derive(Clone, Copy, PartialEq, Eq, Structural, Debug)]
pub struct NetflowPacket {
    pub version: NetflowVersion,
    pub count: u16,
    pub sys_uptime: u32,
    pub timestamp: u32,
    pub flow_sequence: u32,
    pub source_id: u32,
    pub flowset_id: u16,
    pub flow_length: u16,
}

/// Rejects payloads shorter than the 20-octet v9 header.
pub fn check_packet_size(byte_count: usize) -> (r: Result<(), ()>)
    ensures
        r is Ok <==> byte_count >= MIN_PACKET_SIZE,
{
    if byte_count < MIN_PACKET_SIZE {
        Err(())
    } else {
        Ok(())
    }
}

/// The version number a datagram must carry to be decoded.
pub const V9_VERSION: u16 = 9;

/// The version field of a well-formed header: 9 is tagged `V9`, anything
/// else `V5`.
pub open spec fn spec_version_of(raw: int) -> NetflowVersion {
    if raw == V9_VERSION as int {
        NetflowVersion::V9(raw as u16)
    } else {
        NetflowVersion::V5(raw as u16)
    }
}

/// Parses the 20-octet header and the first set header behind it. Returns
/// `None` exactly when the payload is shorter than 24 octets, too short to
/// hold both.
pub fn parse_packet_header(buf: &Vec<u8>) -> (r: Option<NetflowPacket>)
    ensures
        r is Some <==> buf.len() >= 24,
        r matches Some(p) ==> {
            &&& p.version == spec_version_of(spec_be16_at(buf@, 0))
            &&& p.count == spec_be16_at(buf@, 2)
            &&& p.sys_uptime == spec_be32_at(buf@, 4)
            &&& p.timestamp == spec_be32_at(buf@, 8)
            &&& p.flow_sequence == spec_be32_at(buf@, 12)
            &&& p.source_id == spec_be32_at(buf@, 16)
            &&& p.flowset_id == spec_be16_at(buf@, 20)
            &&& p.flow_length == spec_be16_at(buf@, 22)
        },
{
    if buf.len() < 24 {
        return None;
    }
    let raw_version = be_u16_at(buf, 0);
    let version = if raw_version == V9_VERSION {
        NetflowVersion::V9(raw_version)
    } else {
        NetflowVersion::V5(raw_version)
    };
    Some(
        NetflowPacket {
            version,
            count: be_u16_at(buf, 2),
            sys_uptime: be_u32_at(buf, 4),
            timestamp: be_u32_at(buf, 8),
            flow_sequence: be_u32_at(buf, 12),
            source_id: be_u32_at(buf, 16),
            flowset_id: be_u16_at(buf, 20),
            flow_length: be_u16_at(buf, 22),
        },
    )
}

/// A datagram whose first set identifier (octets 20 and 21) is zero carries a
/// template set; anything else is treated as data.
pub fn determine_packet_type(buf: &Vec<u8>) -> (r: PacketType)
    requires
        buf.len() >= 22,
    ensures
        r == PacketType::Template <==> spec_be16_at(buf@, 20) == 0,
{
    if buf[20] == 0 && buf[21] == 0 {
        PacketType::Template
    } else {
        PacketType::Data
    }
}

/// Reads the first set's declared length, at octets 22..24.
pub fn parse_flow_length(buf: &Vec<u8>) -> (r: u16)
    requires
        buf.len() >= 24,
    ensures
        r == spec_be16_at(buf@, 22),
{
    be_u16_at(buf, 22)
}

/// Reads the template identifier of a template set, at octets 24..26.
pub fn parse_flow_template_id_from_template(buf: &Vec<u8>) -> (r: u16)
    requires
        buf.len() >= 26,
    ensures
        r == spec_be16_at(buf@, 24),
{
    be_u16_at(buf, 24)
}

/// Reads the template identifier a data set references: the set identifier
/// itself, at octets 20..22.
pub fn parse_flow_template_id_from_data(buf: &Vec<u8>) -> (r: u16)
    requires
        buf.len() >= 22,
    ensures
        r == spec_be16_at(buf@, 20),
{
    be_u16_at(buf, 20)
}

/// Reads the field count of a template set's first template, at octets
/// 26..28.
pub fn parse_flow_field_count(buf: &Vec<u8>) -> (r: u16)
    requires
        buf.len() >= 28,
    ensures
        r == spec_be16_at(buf@, 26),
{
    be_u16_at(buf, 26)
}

/// Reads a set header anywhere in the datagram: the set identifier and the
/// declared set length at `pos`.
pub fn parse_set_header(buf: &Vec<u8>, pos: usize) -> (r: (u16, u16))
    requires
        pos + 4 <= buf.len(),
    ensures
        r.0 == spec_be16_at(buf@, pos as int),
        r.1 == spec_be16_at(buf@, pos as int + 2),
{
    (be_u16_at(buf, pos), be_u16_at(buf, pos + 2))
}

} // verus!
