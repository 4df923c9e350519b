//! Address classification, the bidirectional flow match, ICMP labelling and
//! the dotted-quad text form of an address. IPv4 addresses are carried as
//! their 32-bit numeric value.

use crate::fields::TrafficType;
use vstd::prelude::*;

verus! {

/// The classification of a single address: the all-ones limited broadcast,
/// the 224.0.0.0/4 multicast block, else unicast.
pub open spec fn spec_ip_cast(ip: u32) -> TrafficType {
    if ip == 0xFFFF_FFFFu32 {
        TrafficType::Broadcast
    } else if 0xE000_0000u32 <= ip < 0xF000_0000u32 {
        TrafficType::Multicast
    } else {
        TrafficType::Unicast
    }
}

/// Classifies one address.
pub fn get_ip_cast_type(ip: u32) -> (r: TrafficType)
    ensures
        r == spec_ip_cast(ip),
{
    if ip == 0xFFFF_FFFF {
        TrafficType::Broadcast
    } else if 0xE000_0000 <= ip && ip < 0xF000_0000 {
        TrafficType::Multicast
    } else {
        TrafficType::Unicast
    }
}

/// The traffic type of an address pair: multicast on either side wins, then
/// broadcast on either side, else unicast.
pub open spec fn spec_traffic_type(src: u32, dst: u32) -> TrafficType {
    if spec_ip_cast(src) == TrafficType::Multicast || spec_ip_cast(dst) == TrafficType::Multicast {
        TrafficType::Multicast
    } else if spec_ip_cast(src) == TrafficType::Broadcast || spec_ip_cast(dst)
        == TrafficType::Broadcast {
        TrafficType::Broadcast
    } else {
        TrafficType::Unicast
    }
}

/// Classifies an address pair.
pub fn handle_traffic_type_in_flow(src_addr: u32, dst_addr: u32) -> (r: TrafficType)
    ensures
        r == spec_traffic_type(src_addr, dst_addr),
{
    let src_ip_cast = get_ip_cast_type(src_addr);
    let dst_ip_cast = get_ip_cast_type(dst_addr);
    if src_ip_cast == TrafficType::Multicast || dst_ip_cast == TrafficType::Multicast {
        TrafficType::Multicast
    } else if src_ip_cast == TrafficType::Broadcast || dst_ip_cast == TrafficType::Broadcast {
        TrafficType::Broadcast
    } else {
        TrafficType::Unicast
    }
}

/// The broadcast MAC, all six octets ff, zero-extended to 64 bits.
pub const BROADCAST_MAC: u64 = 0xFFFF_FFFF_FFFF;

/// The traffic type of one decoded record: by addresses first; a record that
/// would be unicast but carries the all-ff destination MAC is rescued to
/// broadcast.
pub open spec fn spec_record_traffic_type(src: u32, dst: u32, mac: Option<u64>) -> TrafficType {
    match mac {
        Some(m) => {
            if spec_traffic_type(src, dst) == TrafficType::Unicast && m % 0x1_0000_0000_0000
                == BROADCAST_MAC {
                TrafficType::Broadcast
            } else {
                spec_traffic_type(src, dst)
            }
        },
        None => spec_traffic_type(src, dst),
    }
}

/// Classifies one decoded record's addressing, applying the directed
/// broadcast rescue when the record carries a destination MAC whose low six
/// octets are all ff.
pub fn record_traffic_type(src: u32, dst: u32, mac: Option<u64>) -> (r: TrafficType)
    ensures
        r == spec_record_traffic_type(src, dst, mac),
{
    let by_addr = handle_traffic_type_in_flow(src, dst);
    match mac {
        Some(m) => {
            if by_addr == TrafficType::Unicast && m % 0x1_0000_0000_0000 == BROADCAST_MAC {
                TrafficType::Broadcast
            } else {
                by_addr
            }
        },
        None => by_addr,
    }
}

/// Two 5-tuples describe the same bidirectional conversation: addresses and
/// ports match straight or swapped together with the protocol.
pub open spec fn spec_is_flow_match(
    flow_src_ip: u32,
    flow_dst_ip: u32,
    pkt_src_ip: u32,
    pkt_dst_ip: u32,
    flow_src_port: u16,
    flow_dst_port: u16,
    pkt_src_port: u16,
    pkt_dst_port: u16,
) -> bool {
    ((flow_src_ip == pkt_src_ip && flow_dst_ip == pkt_dst_ip) || (flow_src_ip == pkt_dst_ip
        && flow_dst_ip == pkt_src_ip)) && ((flow_src_port == pkt_src_port && flow_dst_port
        == pkt_dst_port) || (flow_src_port == pkt_dst_port && flow_dst_port == pkt_src_port))
}

/// Tests whether a flow's endpoints match a record's endpoints in either
/// orientation.
pub fn is_flow_match(
    flow_src_ip: u32,
    flow_dst_ip: u32,
    pkt_src_ip: u32,
    pkt_dst_ip: u32,
    flow_src_port: u16,
    flow_dst_port: u16,
    pkt_src_port: u16,
    pkt_dst_port: u16,
) -> (r: bool)
    ensures
        r == spec_is_flow_match(
            flow_src_ip,
            flow_dst_ip,
            pkt_src_ip,
            pkt_dst_ip,
            flow_src_port,
            flow_dst_port,
            pkt_src_port,
            pkt_dst_port,
        ),
{
    let ip_match = (flow_src_ip == pkt_src_ip && flow_dst_ip == pkt_dst_ip) || (flow_src_ip
        == pkt_dst_ip && flow_dst_ip == pkt_src_ip);
    let port_match = (flow_src_port == pkt_src_port && flow_dst_port == pkt_dst_port) || (
    flow_src_port == pkt_dst_port && flow_dst_port == pkt_src_port);
    ip_match && port_match
}

/// The bidirectional match is symmetric: two endpoint pairs match one way
/// exactly when they match the other way.
pub proof fn lemma_flow_match_symmetric(
    a_src_ip: u32,
    a_dst_ip: u32,
    b_src_ip: u32,
    b_dst_ip: u32,
    a_src_port: u16,
    a_dst_port: u16,
    b_src_port: u16,
    b_dst_port: u16,
)
    ensures
        spec_is_flow_match(
            a_src_ip,
            a_dst_ip,
            b_src_ip,
            b_dst_ip,
            a_src_port,
            a_dst_port,
            b_src_port,
            b_dst_port,
        ) == spec_is_flow_match(
            b_src_ip,
            b_dst_ip,
            a_src_ip,
            a_dst_ip,
            b_src_port,
            b_dst_port,
            a_src_port,
            a_dst_port,
        ),
{
}

/// The label the table shows for a protocol and port pair; ICMP (protocol
/// 1) type/code pairs get a name.
pub open spec fn spec_icmp_label(protocol: int, src_port: int, dst_port: int) -> Seq<char> {
    if protocol != 1 {
        "NONE"@
    } else if src_port == 0 && dst_port == 0 {
        "ECHO_REPLY"@
    } else if src_port == 2048 || dst_port == 2048 {
        "ECHO_REQ"@
    } else if src_port == 768 || dst_port == 768 {
        "NET_UNRCH"@
    } else if src_port == 769 || dst_port == 769 {
        "HOST_UNRCH"@
    } else if src_port == 770 || dst_port == 770 {
        "PROTO_UNRCH"@
    } else if src_port == 771 || dst_port == 771 {
        "PORT_UNRCH"@
    } else {
        "NOT_SURE"@
    }
}

/// Whether the display ports are zeroed: exactly when the pair got a
/// recognised ICMP name.
pub open spec fn spec_icmp_zeroed(protocol: int, src_port: int, dst_port: int) -> bool {
    protocol == 1 && ((src_port == 0 && dst_port == 0) || src_port == 2048 || dst_port == 2048
        || src_port == 768 || dst_port == 768 || src_port == 769 || dst_port == 769 || src_port
        == 770 || dst_port == 770 || src_port == 771 || dst_port == 771)
}

/// The label and display ports the table shows for a protocol and port
/// pair; a recognised ICMP type/code pair gets its name and zeroed ports.
pub fn handle_icmp_code(protocol: i32, src_port: i32, dst_port: i32) -> (r: (String, i32, i32))
    ensures
        r.0@ == spec_icmp_label(protocol as int, src_port as int, dst_port as int),
        r.1 == if spec_icmp_zeroed(protocol as int, src_port as int, dst_port as int) {
            0
        } else {
            src_port
        },
        r.2 == if spec_icmp_zeroed(protocol as int, src_port as int, dst_port as int) {
            0
        } else {
            dst_port
        },
{
    proof {
        reveal_strlit("NONE");
        reveal_strlit("NOT_SURE");
        reveal_strlit("ECHO_REPLY");
        reveal_strlit("ECHO_REQ");
        reveal_strlit("NET_UNRCH");
        reveal_strlit("HOST_UNRCH");
        reveal_strlit("PROTO_UNRCH");
        reveal_strlit("PORT_UNRCH");
    }
    if protocol == 1 {
        if src_port == 0 && dst_port == 0 {
            (String::from_str("ECHO_REPLY"), 0, 0)
        } else if src_port == 2048 || dst_port == 2048 {
            (String::from_str("ECHO_REQ"), 0, 0)
        } else if src_port == 768 || dst_port == 768 {
            (String::from_str("NET_UNRCH"), 0, 0)
        } else if src_port == 769 || dst_port == 769 {
            (String::from_str("HOST_UNRCH"), 0, 0)
        } else if src_port == 770 || dst_port == 770 {
            (String::from_str("PROTO_UNRCH"), 0, 0)
        } else if src_port == 771 || dst_port == 771 {
            (String::from_str("PORT_UNRCH"), 0, 0)
        } else {
            (String::from_str("NOT_SURE"), src_port, dst_port)
        }
    } else {
        (String::from_str("NONE"), src_port, dst_port)
    }
}

/// The traffic label a flow's addresses earn on their own; the stored MAC
/// rescue is not re-applied here.
pub fn handle_traffic_type(flow: &crate::flow::NetFlow) -> (r: String)
    ensures
        r@ == (match spec_traffic_type(flow.src_ip, flow.dst_ip) {
            TrafficType::Multicast => "Multicast"@,
            TrafficType::Broadcast => "Broadcast"@,
            TrafficType::Unicast => "Unicast"@,
        }),
{
    traffic_type_label(handle_traffic_type_in_flow(flow.src_ip, flow.dst_ip))
}

/// Compares two string slices character for character.
pub fn str_eq(a: &str, b: &str) -> (r: bool)
    ensures
        r == (a@ == b@),
{
    let n = a.unicode_len();
    if b.unicode_len() != n {
        return false;
    }
    let mut i: usize = 0;
    while i < n
        invariant
            i <= n,
            n == a@.len(),
            n == b@.len(),
            forall|j: int| 0 <= j < i ==> a@[j] == b@[j],
        decreases n - i,
    {
        if a.get_char(i) != b.get_char(i) {
            return false;
        }
        i = i + 1;
    }
    proof {
        assert(a@ =~= b@);
    }
    true
}

/// The decimal digit character for a value below ten.
pub open spec fn spec_digit(d: int) -> char {
    if d == 0 {
        '0'
    } else if d == 1 {
        '1'
    } else if d == 2 {
        '2'
    } else if d == 3 {
        '3'
    } else if d == 4 {
        '4'
    } else if d == 5 {
        '5'
    } else if d == 6 {
        '6'
    } else if d == 7 {
        '7'
    } else if d == 8 {
        '8'
    } else {
        '9'
    }
}

/// The decimal digit characters of a non-negative value, most significant
/// first, without leading zeros.
pub open spec fn spec_dec_digits(n: int) -> Seq<char>
    decreases n,
{
    if n < 10 {
        seq![spec_digit(n)]
    } else {
        spec_dec_digits(n / 10) + seq![spec_digit(n % 10)]
    }
}

/// One decimal digit as a string slice.
fn digit_str(d: u8) -> (r: &'static str)
    requires
        d < 10,
    ensures
        r@ == seq![spec_digit(d as int)],
{
    proof {
        reveal_strlit("0");
        reveal_strlit("1");
        reveal_strlit("2");
        reveal_strlit("3");
        reveal_strlit("4");
        reveal_strlit("5");
        reveal_strlit("6");
        reveal_strlit("7");
        reveal_strlit("8");
        reveal_strlit("9");
    }
    let r = match d {
        0 => "0",
        1 => "1",
        2 => "2",
        3 => "3",
        4 => "4",
        5 => "5",
        6 => "6",
        7 => "7",
        8 => "8",
        _ => "9",
    };
    proof {
        assert(r@ =~= seq![spec_digit(d as int)]);
    }
    r
}

/// Appends the decimal digits of one octet.
fn push_u8_dec(s: &mut String, n: u8)
    ensures
        final(s)@ == old(s)@ + spec_dec_digits(n as int),
{
    proof {
        let m = n as int;
        vstd::arithmetic::div_mod::lemma_div_denominator(m, 10, 10);
        if m >= 10 {
            assert(spec_dec_digits(m) == spec_dec_digits(m / 10) + seq![spec_digit(m % 10)]);
        }
        if m >= 100 {
            assert(spec_dec_digits(m / 10) == spec_dec_digits(m / 10 / 10) + seq![
                spec_digit((m / 10) % 10),
            ]);
            assert(spec_dec_digits(m / 100) == seq![spec_digit(m / 100)]);
        }
    }
    if n >= 100 {
        s.append(digit_str(n / 100));
    }
    if n >= 10 {
        s.append(digit_str((n / 10) % 10));
    }
    s.append(digit_str(n % 10));
    proof {
        assert(final(s)@ =~= old(s)@ + spec_dec_digits(n as int));
    }
}

/// Appends the decimal digits of a non-negative value.
fn push_u32_dec(s: &mut String, n: u32)
    ensures
        final(s)@ == old(s)@ + spec_dec_digits(n as int),
    decreases n,
{
    if n >= 10 {
        push_u32_dec(s, n / 10);
    }
    s.append(digit_str((n % 10) as u8));
    proof {
        if n >= 10 {
            assert(spec_dec_digits(n as int) =~= spec_dec_digits(n as int / 10) + seq![
                spec_digit(n as int % 10),
            ]);
        }
        assert(final(s)@ =~= old(s)@ + spec_dec_digits(n as int));
    }
}

/// The decimal character form of a signed value: a minus sign and the
/// digits of the magnitude.
pub open spec fn spec_i32_chars(v: int) -> Seq<char> {
    if v >= 0 {
        spec_dec_digits(v)
    } else {
        seq!['-'] + spec_dec_digits(-v)
    }
}

/// Renders a signed value in decimal.
pub fn i32_to_string(v: i32) -> (r: String)
    ensures
        r@ == spec_i32_chars(v as int),
{
    proof {
        reveal_strlit("-");
    }
    let mut s = String::new();
    if v < 0 {
        s.append("-");
        let mag: u32 = if v == i32::MIN {
            0x8000_0000u32
        } else {
            (-v) as u32
        };
        push_u32_dec(&mut s, mag);
    } else {
        push_u32_dec(&mut s, v as u32);
    }
    proof {
        assert(s@ =~= spec_i32_chars(v as int));
    }
    s
}

/// The dotted-quad character form of an address.
pub open spec fn spec_ipv4_chars(ip: u32) -> Seq<char> {
    spec_dec_digits(ip as int / 0x1000000) + seq!['.'] + spec_dec_digits(
        (ip as int / 0x10000) % 0x100,
    ) + seq!['.'] + spec_dec_digits((ip as int / 0x100) % 0x100) + seq!['.'] + spec_dec_digits(
        ip as int % 0x100,
    )
}

/// Renders an address in its dotted-quad text form.
pub fn convert_ipv4_to_string(ip: u32) -> (r: String)
    ensures
        r@ == spec_ipv4_chars(ip),
{
    proof {
        reveal_strlit(".");
    }
    let mut s = String::new();
    push_u8_dec(&mut s, (ip / 0x1000000) as u8);
    s.append(".");
    push_u8_dec(&mut s, ((ip / 0x10000) % 0x100) as u8);
    s.append(".");
    push_u8_dec(&mut s, ((ip / 0x100) % 0x100) as u8);
    s.append(".");
    push_u8_dec(&mut s, (ip % 0x100) as u8);
    proof {
        assert(s@ =~= spec_ipv4_chars(ip));
    }
    s
}

/// The label a traffic type takes in the row store.
pub fn traffic_type_label(t: TrafficType) -> (r: String)
    ensures
        t == TrafficType::Broadcast ==> r@ == "Broadcast"@,
        t == TrafficType::Multicast ==> r@ == "Multicast"@,
        t == TrafficType::Unicast ==> r@ == "Unicast"@,
{
    match t {
        TrafficType::Broadcast => String::from_str("Broadcast"),
        TrafficType::Multicast => String::from_str("Multicast"),
        TrafficType::Unicast => String::from_str("Unicast"),
    }
}

/// Seconds between two non-negative instants, newer first.
pub fn get_time_delta_in_sec(current_time: i64, old_time: i64) -> (r: i64)
    requires
        0 <= current_time <= i64::MAX - 60,
        old_time >= -60,
    ensures
        r == current_time - old_time,
{
    current_time - old_time
}

/// Whole minutes between two non-negative instants, newer first.
pub fn get_time_delta_in_min(current_time: i64, old_time: i64) -> (r: i64)
    requires
        0 <= current_time <= i64::MAX - 60,
        -60 <= old_time <= current_time,
    ensures
        r == (current_time - old_time) / 60,
{
    (current_time - old_time) / 60
}

} // verus!
