//! The field catalogue: the semantic kinds a v9 template slot can carry, the
//! mapping from wire field-type identifiers to kinds, and each kind's
//! canonical width in octets.

use vstd::prelude::*;

verus! {

/// Protocol version tag carried in a datagram header.
#[derive(Clone, Copy, PartialEq, Eq, Structural, Debug)]
pub enum NetflowVersion {
    V5(u16),
    V9(u16),
}

/// Classification of a flow's addressing.
#[derive(Clone, Copy, PartialEq, Eq, Structural, Debug)]
pub enum TrafficType {
    Unicast,
    Multicast,
    Broadcast,
}

/// Coarse classification of a received datagram's first set.
#[derive(Clone, Copy, PartialEq, Eq, Structural, Debug)]
pub enum PacketType {
    Template,
    Data,
}

/// An optional one-octet value slot of a decoded record.
#[derive(Clone, Copy, PartialEq, Eq, Structural, Debug)]
pub enum U8Field {
    Disabled,
    Enabled,
    Value(u8),
}

/// An optional eight-octet value slot of a decoded record.
#[derive(Clone, Copy, PartialEq, Eq, Structural, Debug)]
pub enum U64Field {
    Disabled,
    Enabled,
    Value(u64),
}

/// An optional two-octet value slot of a decoded record.
#[derive(Clone, Copy, PartialEq, Eq, Structural, Debug)]
pub enum U16Field {
    Disabled,
    Enabled,
    Value(u16),
}

/// An optional four-octet value slot of a decoded record.
#[derive(Clone, Copy, PartialEq, Eq, Structural, Debug)]
pub enum U32Field {
    Disabled,
    Enabled,
    Value(u32),
}

/// An optional IPv4 address slot of a decoded record; the address is held as
/// its 32-bit big-endian numeric value.
#[derive(Clone, Copy, PartialEq, Eq, Structural, Debug)]
pub enum Ipv4Field {
    Disabled,
    Enabled,
    Value(u32),
}

/// The semantic kind a template slot carries. Kinds not in the catalogue are
/// `Unknown` with the wire identifier kept; they are parsed and skipped, never
/// an error.
#[derive(Clone, Copy, PartialEq, Eq, Structural, Debug)]
pub enum FlowField {
    NoField,
    TemplateID(Option<u16>),
    FieldCount(Option<u16>),
    InOctets,
    InPkts,
    Flows,
    Protocol,
    SrcTOS,
    TCPFlags,
    SrcPort,
    SrcAddr,
    SrcMask,
    InputSNMP,
    DstPort,
    DstAddr,
    DstMask,
    OutputSNMP,
    NextHop,
    SrcAS,
    DstAS,
    BgpNextHop,
    MulDstPkts,
    MulDstBytes,
    LastSwitched,
    FirstSwitched,
    OutBytes,
    OutPkts,
    MinPktLength,
    MaxPktLength,
    Ipv6SrcAddr,
    Ipv6DstAddr,
    Ipv6SrcMask,
    Ipv6DstMask,
    Ipv6FlowLabel,
    IcmpType,
    MulIgmpType,
    SamplingInterval,
    SamplingAlgorithm,
    FlowActiveTimeout,
    FlowInactiveTimeout,
    EngineType,
    MinTTL,
    MaxTTL,
    Ident,
    DstTOS,
    InSrcMac,
    OutDstMac,
    SrcVLAN,
    DstVLAN,
    IpVersion,
    Direction,
    InDstMac,
    OutSrcMac,
    Unknown(u16),
}

/// The kind assigned to a wire field-type identifier.
pub open spec fn spec_kind_of(id: u16) -> FlowField {
    match id {
        1u16 => FlowField::InOctets,
        2u16 => FlowField::InPkts,
        3u16 => FlowField::Flows,
        4u16 => FlowField::Protocol,
        5u16 => FlowField::SrcTOS,
        6u16 => FlowField::TCPFlags,
        7u16 => FlowField::SrcPort,
        8u16 => FlowField::SrcAddr,
        9u16 => FlowField::SrcMask,
        10u16 => FlowField::InputSNMP,
        11u16 => FlowField::DstPort,
        12u16 => FlowField::DstAddr,
        13u16 => FlowField::DstMask,
        14u16 => FlowField::OutputSNMP,
        15u16 => FlowField::NextHop,
        16u16 => FlowField::SrcAS,
        17u16 => FlowField::DstAS,
        18u16 => FlowField::BgpNextHop,
        19u16 => FlowField::MulDstPkts,
        20u16 => FlowField::MulDstBytes,
        21u16 => FlowField::LastSwitched,
        22u16 => FlowField::FirstSwitched,
        23u16 => FlowField::OutBytes,
        24u16 => FlowField::OutPkts,
        25u16 => FlowField::MinPktLength,
        26u16 => FlowField::MaxPktLength,
        27u16 => FlowField::Ipv6SrcAddr,
        28u16 => FlowField::Ipv6DstAddr,
        29u16 => FlowField::Ipv6SrcMask,
        30u16 => FlowField::Ipv6DstMask,
        31u16 => FlowField::Ipv6FlowLabel,
        32u16 => FlowField::IcmpType,
        33u16 => FlowField::MulIgmpType,
        34u16 => FlowField::SamplingInterval,
        35u16 => FlowField::SamplingAlgorithm,
        36u16 => FlowField::FlowActiveTimeout,
        37u16 => FlowField::FlowInactiveTimeout,
        38u16 => FlowField::EngineType,
        52u16 => FlowField::MinTTL,
        53u16 => FlowField::MaxTTL,
        54u16 => FlowField::Ident,
        55u16 => FlowField::DstTOS,
        56u16 => FlowField::InSrcMac,
        57u16 => FlowField::OutDstMac,
        58u16 => FlowField::SrcVLAN,
        59u16 => FlowField::DstVLAN,
        60u16 => FlowField::IpVersion,
        61u16 => FlowField::Direction,
        80u16 => FlowField::InDstMac,
        81u16 => FlowField::OutSrcMac,
        _ => FlowField::Unknown(id),
    }
}

/// Maps a wire field-type identifier to its semantic kind; total, never an
/// error: identifiers outside the catalogue come back as `Unknown`.
pub fn kind_of(id: u16) -> (r: FlowField)
    ensures
        r == spec_kind_of(id),
{
    match id {
        1u16 => FlowField::InOctets,
        2u16 => FlowField::InPkts,
        3u16 => FlowField::Flows,
        4u16 => FlowField::Protocol,
        5u16 => FlowField::SrcTOS,
        6u16 => FlowField::TCPFlags,
        7u16 => FlowField::SrcPort,
        8u16 => FlowField::SrcAddr,
        9u16 => FlowField::SrcMask,
        10u16 => FlowField::InputSNMP,
        11u16 => FlowField::DstPort,
        12u16 => FlowField::DstAddr,
        13u16 => FlowField::DstMask,
        14u16 => FlowField::OutputSNMP,
        15u16 => FlowField::NextHop,
        16u16 => FlowField::SrcAS,
        17u16 => FlowField::DstAS,
        18u16 => FlowField::BgpNextHop,
        19u16 => FlowField::MulDstPkts,
        20u16 => FlowField::MulDstBytes,
        21u16 => FlowField::LastSwitched,
        22u16 => FlowField::FirstSwitched,
        23u16 => FlowField::OutBytes,
        24u16 => FlowField::OutPkts,
        25u16 => FlowField::MinPktLength,
        26u16 => FlowField::MaxPktLength,
        27u16 => FlowField::Ipv6SrcAddr,
        28u16 => FlowField::Ipv6DstAddr,
        29u16 => FlowField::Ipv6SrcMask,
        30u16 => FlowField::Ipv6DstMask,
        31u16 => FlowField::Ipv6FlowLabel,
        32u16 => FlowField::IcmpType,
        33u16 => FlowField::MulIgmpType,
        34u16 => FlowField::SamplingInterval,
        35u16 => FlowField::SamplingAlgorithm,
        36u16 => FlowField::FlowActiveTimeout,
        37u16 => FlowField::FlowInactiveTimeout,
        38u16 => FlowField::EngineType,
        52u16 => FlowField::MinTTL,
        53u16 => FlowField::MaxTTL,
        54u16 => FlowField::Ident,
        55u16 => FlowField::DstTOS,
        56u16 => FlowField::InSrcMac,
        57u16 => FlowField::OutDstMac,
        58u16 => FlowField::SrcVLAN,
        59u16 => FlowField::DstVLAN,
        60u16 => FlowField::IpVersion,
        61u16 => FlowField::Direction,
        80u16 => FlowField::InDstMac,
        81u16 => FlowField::OutSrcMac,
        _ => FlowField::Unknown(id),
    }
}

/// The canonical width in octets of each catalogued kind; the pseudo-kinds
/// (`None`, `TemplateID`, `FieldCount`, `Unknown`) have none and yield 0.
pub open spec fn spec_canonical_width(kind: FlowField) -> u8 {
    match kind {
        FlowField::InOctets => 4u8,
        FlowField::InPkts => 4u8,
        FlowField::Flows => 4u8,
        FlowField::Protocol => 1u8,
        FlowField::SrcTOS => 1u8,
        FlowField::TCPFlags => 1u8,
        FlowField::SrcPort => 2u8,
        FlowField::SrcAddr => 4u8,
        FlowField::SrcMask => 1u8,
        FlowField::InputSNMP => 2u8,
        FlowField::DstPort => 2u8,
        FlowField::DstAddr => 4u8,
        FlowField::DstMask => 1u8,
        FlowField::OutputSNMP => 2u8,
        FlowField::NextHop => 4u8,
        FlowField::SrcAS => 2u8,
        FlowField::DstAS => 2u8,
        FlowField::BgpNextHop => 4u8,
        FlowField::MulDstPkts => 4u8,
        FlowField::MulDstBytes => 4u8,
        FlowField::LastSwitched => 4u8,
        FlowField::FirstSwitched => 4u8,
        FlowField::OutBytes => 4u8,
        FlowField::OutPkts => 4u8,
        FlowField::MinPktLength => 2u8,
        FlowField::MaxPktLength => 2u8,
        FlowField::Ipv6SrcAddr => 16u8,
        FlowField::Ipv6DstAddr => 16u8,
        FlowField::Ipv6SrcMask => 1u8,
        FlowField::Ipv6DstMask => 1u8,
        FlowField::Ipv6FlowLabel => 3u8,
        FlowField::IcmpType => 2u8,
        FlowField::MulIgmpType => 1u8,
        FlowField::SamplingInterval => 4u8,
        FlowField::SamplingAlgorithm => 1u8,
        FlowField::FlowActiveTimeout => 2u8,
        FlowField::FlowInactiveTimeout => 2u8,
        FlowField::EngineType => 1u8,
        FlowField::MinTTL => 1u8,
        FlowField::MaxTTL => 1u8,
        FlowField::Ident => 2u8,
        FlowField::DstTOS => 1u8,
        FlowField::InSrcMac => 6u8,
        FlowField::OutDstMac => 6u8,
        FlowField::SrcVLAN => 2u8,
        FlowField::DstVLAN => 2u8,
        FlowField::IpVersion => 1u8,
        FlowField::Direction => 1u8,
        FlowField::InDstMac => 6u8,
        FlowField::OutSrcMac => 6u8,
        _ => 0u8,
    }
}

/// The canonical width in octets of a kind; the width a template declares
/// overrides this during parsing.
pub fn canonical_width(kind: FlowField) -> (r: u8)
    ensures
        r == spec_canonical_width(kind),
{
    match kind {
        FlowField::InOctets => 4u8,
        FlowField::InPkts => 4u8,
        FlowField::Flows => 4u8,
        FlowField::Protocol => 1u8,
        FlowField::SrcTOS => 1u8,
        FlowField::TCPFlags => 1u8,
        FlowField::SrcPort => 2u8,
        FlowField::SrcAddr => 4u8,
        FlowField::SrcMask => 1u8,
        FlowField::InputSNMP => 2u8,
        FlowField::DstPort => 2u8,
        FlowField::DstAddr => 4u8,
        FlowField::DstMask => 1u8,
        FlowField::OutputSNMP => 2u8,
        FlowField::NextHop => 4u8,
        FlowField::SrcAS => 2u8,
        FlowField::DstAS => 2u8,
        FlowField::BgpNextHop => 4u8,
        FlowField::MulDstPkts => 4u8,
        FlowField::MulDstBytes => 4u8,
        FlowField::LastSwitched => 4u8,
        FlowField::FirstSwitched => 4u8,
        FlowField::OutBytes => 4u8,
        FlowField::OutPkts => 4u8,
        FlowField::MinPktLength => 2u8,
        FlowField::MaxPktLength => 2u8,
        FlowField::Ipv6SrcAddr => 16u8,
        FlowField::Ipv6DstAddr => 16u8,
        FlowField::Ipv6SrcMask => 1u8,
        FlowField::Ipv6DstMask => 1u8,
        FlowField::Ipv6FlowLabel => 3u8,
        FlowField::IcmpType => 2u8,
        FlowField::MulIgmpType => 1u8,
        FlowField::SamplingInterval => 4u8,
        FlowField::SamplingAlgorithm => 1u8,
        FlowField::FlowActiveTimeout => 2u8,
        FlowField::FlowInactiveTimeout => 2u8,
        FlowField::EngineType => 1u8,
        FlowField::MinTTL => 1u8,
        FlowField::MaxTTL => 1u8,
        FlowField::Ident => 2u8,
        FlowField::DstTOS => 1u8,
        FlowField::InSrcMac => 6u8,
        FlowField::OutDstMac => 6u8,
        FlowField::SrcVLAN => 2u8,
        FlowField::DstVLAN => 2u8,
        FlowField::IpVersion => 1u8,
        FlowField::Direction => 1u8,
        FlowField::InDstMac => 6u8,
        FlowField::OutSrcMac => 6u8,
        _ => 0u8,
    }
}

} // verus!
