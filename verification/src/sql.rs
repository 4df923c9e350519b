//! The persistence gateway: a thin write-through over the SQLite row store.
//! The store itself is opaque; each call states only what holds of every
//! outcome, and the write policy around the calls is verified: a flow's
//! dirty flag is cleared exactly when its row was written, and a failed
//! write leaves the flag set so the next cycle retries.

use crate::flow::NetFlow;
use crate::senders::spec_same_key;
use crate::senders::spec_sender_wf;
use crate::senders::NetflowSender;
use crate::settings::ConnType;
use crate::utils::convert_ipv4_to_string;
use crate::utils::traffic_type_label;
use vstd::prelude::*;

verus! {

/// Declares rusqlite's connection handle so signatures can carry it; the
/// value is opaque to the proofs.
#[verifier::external_type_specification]
#[verifier::external_body]
pub struct ExConnection(rusqlite::Connection);

/// What a lookup in the store came back with.
#[derive(Clone, Copy, PartialEq, Eq, Structural, Debug)]
pub enum StoreLookup {
    Found,
    NotFound,
    Failed,
}

/// Relies on rusqlite::Connection::open_in_memory: a fresh private store,
/// or `None` when SQLite refuses one.
#[verifier::external_body]
fn open_store_in_memory() -> Option<rusqlite::Connection> {
    rusqlite::Connection::open_in_memory().ok()
}

/// Relies on rusqlite::Connection::open: the store at the given path,
/// created if absent, or `None` when SQLite cannot open it.
#[verifier::external_body]
fn open_store_file(path: &str) -> Option<rusqlite::Connection> {
    rusqlite::Connection::open(path).ok()
}

/// Relies on rusqlite::Connection::execute: runs one parameterless
/// statement; whether SQLite accepted it.
#[verifier::external_body]
fn store_execute(conn: &rusqlite::Connection, sql: &str) -> bool {
    conn.execute(sql, ()).is_ok()
}

/// Relies on rusqlite::Connection::execute: inserts the sender row,
/// ignoring a duplicate; whether SQLite accepted it.
#[verifier::external_body]
fn store_insert_sender(conn: &rusqlite::Connection, ip: &String) -> bool {
    conn.execute("INSERT OR IGNORE INTO senders (ip) VALUES (?1)", [ip.as_str()]).is_ok()
}

/// Relies on rusqlite::Connection::execute: inserts one flow row with the
/// nine columns the collector fills; whether SQLite accepted it.
#[verifier::external_body]
fn store_insert_flow(
    conn: &rusqlite::Connection,
    sender_ip: &String,
    src: &String,
    dst: &String,
    src_port: u16,
    dst_port: u16,
    protocol: u8,
    in_octets: i64,
    in_pkts: i64,
    traffic_type: &String,
) -> bool {
    conn.execute(
        "INSERT INTO flows (sender_ip, src_addr, dst_addr, src_port, dst_port, protocol, in_octets, in_pkts, traffic_type) VALUES (?1, ?2, ?3, ?4, ?5, ?6, ?7, ?8, ?9)",
        (
            sender_ip.as_str(),
            src.as_str(),
            dst.as_str(),
            src_port,
            dst_port,
            protocol,
            in_octets,
            in_pkts,
            traffic_type.as_str(),
        ),
    ).is_ok()
}

/// Relies on rusqlite::Connection::execute: sets the two counters of the
/// row matching the 5-tuple exactly (one orientation: a row created in one
/// direction owns that flow); whether SQLite accepted it.
#[verifier::external_body]
fn store_update_flow(
    conn: &rusqlite::Connection,
    in_octets: i64,
    in_pkts: i64,
    src: &String,
    dst: &String,
    src_port: u16,
    dst_port: u16,
    protocol: u8,
) -> bool {
    conn.execute(
        "UPDATE flows SET in_octets = ?1, in_pkts = ?2 WHERE src_addr = ?3 AND dst_addr = ?4 AND src_port = ?5 AND dst_port = ?6 AND protocol = ?7",
        (in_octets, in_pkts, src.as_str(), dst.as_str(), src_port, dst_port, protocol),
    ).is_ok()
}

/// Relies on rusqlite::Connection::query_row: whether some flow row matches
/// the 5-tuple in either orientation; `Failed` carries any other SQLite
/// error.
#[verifier::external_body]
fn store_flow_exists(
    conn: &rusqlite::Connection,
    src: &String,
    dst: &String,
    src_port: u16,
    dst_port: u16,
    protocol: u8,
) -> StoreLookup {
    let r = conn.query_row(
        "SELECT id FROM flows WHERE ((src_addr = ?1 AND dst_addr = ?2) OR (src_addr = ?2 AND dst_addr = ?1)) AND ((src_port = ?3 AND dst_port = ?4) OR (src_port = ?4 AND dst_port = ?3)) AND protocol = ?5",
        (src.as_str(), dst.as_str(), src_port, dst_port, protocol),
        |_row| Ok(()),
    );
    match r {
        Ok(()) => StoreLookup::Found,
        Err(rusqlite::Error::QueryReturnedNoRows) => StoreLookup::NotFound,
        Err(_) => StoreLookup::Failed,
    }
}

/// A counter clamped into the store's signed integer column.
pub fn clamp_counter(v: u64) -> (r: i64)
    ensures
        v <= i64::MAX ==> r == v,
        v > i64::MAX ==> r == i64::MAX,
{
    if v > 0x7FFF_FFFF_FFFF_FFFF {
        i64::MAX
    } else {
        v as i64
    }
}

/// Opens the row store the settings ask for, enables foreign keys and
/// creates the two tables. `None` when the store could not be opened or
/// prepared.
pub fn setup_db(conn_type: &ConnType) -> Option<rusqlite::Connection> {
    let conn = match conn_type {
        ConnType::InMemory => open_store_in_memory(),
        ConnType::InFile => open_store_file("./eznf_db.sqlite"),
    };
    let conn = match conn {
        Some(c) => c,
        None => {
            return None;
        },
    };
    if !store_execute(&conn, "PRAGMA foreign_keys = ON") {
        return None;
    }
    if !store_execute(&conn, "CREATE TABLE IF NOT EXISTS senders (ip TEXT PRIMARY KEY)") {
        return None;
    }
    if !store_execute(
        &conn,
        "CREATE TABLE IF NOT EXISTS flows (id INTEGER PRIMARY KEY, sender_ip TEXT NOT NULL, src_addr TEXT, dst_addr TEXT, protocol INTEGER, src_port INTEGER, dst_port INTEGER, tcp_flags INTEGER, input_snmp INTEGER, output_snmp INTEGER, in_octets INTEGER, in_pkts INTEGER, src_tos INTEGER, src_mask INTEGER, dst_mask INTEGER, next_hop TEXT, icmp TEXT, traffic_type TEXT, FOREIGN KEY (sender_ip) REFERENCES senders(ip))",
    ) {
        return None;
    }
    Some(conn)
}

/// Upserts the sender row for an address; idempotent. Whether the store
/// accepted the write.
pub fn update_senders_in_db(conn: &rusqlite::Connection, sender_ip: u32) -> bool {
    let ip = convert_ipv4_to_string(sender_ip);
    store_insert_sender(conn, &ip)
}

/// Inserts the row for a flow, counters clamped to the store's signed
/// column and the traffic type stringified. Whether the store accepted it.
pub fn create_flow_in_db(conn: &rusqlite::Connection, flow: &NetFlow, sender_ip: &String) -> bool {
    let src = convert_ipv4_to_string(flow.src_ip);
    let dst = convert_ipv4_to_string(flow.dst_ip);
    let tt = traffic_type_label(flow.traffic_type);
    store_insert_flow(
        conn,
        sender_ip,
        &src,
        &dst,
        flow.src_port,
        flow.dst_port,
        flow.protocol,
        clamp_counter(flow.in_octets),
        clamp_counter(flow.in_packets),
        &tt,
    )
}

/// Writes a flow's counters into the row owning its exact 5-tuple. Whether
/// the store accepted it.
pub fn update_flow_in_db(conn: &rusqlite::Connection, flow: &NetFlow, sender_ip: &String) -> bool {
    let src = convert_ipv4_to_string(flow.src_ip);
    let dst = convert_ipv4_to_string(flow.dst_ip);
    store_update_flow(
        conn,
        clamp_counter(flow.in_octets),
        clamp_counter(flow.in_packets),
        &src,
        &dst,
        flow.src_port,
        flow.dst_port,
        flow.protocol,
    )
}

/// How a lookup outcome is read: only a row found counts as existing; a
/// missing row or a failed read both count as absent, so the caller takes
/// the insert path and at worst duplicates a row.
pub fn lookup_says_exists(r: StoreLookup) -> (exists: bool)
    ensures
        exists == (r == StoreLookup::Found),
{
    match r {
        StoreLookup::Found => true,
        StoreLookup::NotFound => false,
        StoreLookup::Failed => false,
    }
}

/// Asks the store whether a row exists for the flow's conversation in
/// either orientation; the outcome is read by `lookup_says_exists`.
pub fn check_if_flow_exists_in_db(conn: &rusqlite::Connection, flow: &NetFlow) -> bool {
    let src = convert_ipv4_to_string(flow.src_ip);
    let dst = convert_ipv4_to_string(flow.dst_ip);
    let r = store_flow_exists(conn, &src, &dst, flow.src_port, flow.dst_port, flow.protocol);
    lookup_says_exists(r)
}

/// One flow's flags after a persistence attempt: the row is known to exist
/// when the lookup saw it or the write created it, and the dirty flag is
/// cleared exactly when the store accepted the write.
pub open spec fn spec_apply_persist(f: crate::flow::FlowModel, found: bool, accepted: bool) -> crate::flow::FlowModel {
    crate::flow::FlowModel {
        in_db: found || accepted,
        needs_db_update: f.needs_db_update && !accepted,
        ..f
    }
}

/// A flow is one persistence attempt away from another: its flags are the
/// other's put through `spec_apply_persist` for some pair of outcomes, and
/// everything else is the same.
pub open spec fn spec_persisted_from(f: crate::flow::FlowModel, g: crate::flow::FlowModel) -> bool {
    exists|e: bool, a: bool| f == spec_apply_persist(g, e, a)
}

/// Applies a persistence attempt's outcomes to a flow's flags; everything
/// else about the flow is untouched.
pub fn apply_persist_outcome(f: &mut NetFlow, found: bool, accepted: bool)
    ensures
        final(f)@ == spec_apply_persist(old(f)@, found, accepted),
{
    f.in_db = found || accepted;
    f.needs_db_update = f.needs_db_update && !accepted;
}

impl NetflowSender {
    /// The write policy of one persistence cycle: every flow whose dirty
    /// flag is set is looked up bidirectionally and inserted or updated.
    /// The flag is cleared exactly when the store accepted the write — a
    /// failed write keeps it set, so the next cycle retries — and nothing
    /// else about any flow changes.
    pub fn prepare_and_update_flow_in_db(&mut self, conn: &rusqlite::Connection)
        requires
            spec_sender_wf(*old(self)),
        ensures
            spec_sender_wf(*final(self)),
            final(self).ip_addr == old(self).ip_addr,
            final(self).templates@ == old(self).templates@,
            final(self).flow_packets@ == old(self).flow_packets@,
            final(self).flow_stats@.len() == old(self).flow_stats@.len(),
            forall|i: int|
                0 <= i < old(self).flow_stats@.len() ==> {
                    let f = #[trigger] final(self).flow_stats@[i];
                    let g = old(self).flow_stats@[i];
                    &&& spec_same_key(f, g)
                    &&& f.in_octets == g.in_octets
                    &&& f.in_packets == g.in_packets
                    &&& f.deltas@ == g.deltas@
                    &&& f.created_time == g.created_time
                    &&& f.traffic_type == g.traffic_type
                    &&& (f.needs_db_update ==> g.needs_db_update)
                    &&& (!g.needs_db_update ==> f == g)
                },
            forall|i: int|
                0 <= i < old(self).flow_stats@.len() && old(self).flow_stats@[i].needs_db_update
                    ==> spec_persisted_from(
                    (#[trigger] final(self).flow_stats@[i])@,
                    old(self).flow_stats@[i]@,
                ),
    {
        let sender_ip = convert_ipv4_to_string(self.ip_addr);
        let n = self.flow_stats.len();
        let mut i: usize = 0;
        while i < n
            invariant
                i <= n,
                n == self.flow_stats@.len(),
                spec_sender_wf(*self),
                self.ip_addr == old(self).ip_addr,
                self.templates@ == old(self).templates@,
                self.flow_packets@ == old(self).flow_packets@,
                self.flow_stats@.len() == old(self).flow_stats@.len(),
                forall|k: int|
                    0 <= k < old(self).flow_stats@.len() ==> {
                        let f = #[trigger] self.flow_stats@[k];
                        let g = old(self).flow_stats@[k];
                        &&& spec_same_key(f, g)
                        &&& f.in_octets == g.in_octets
                        &&& f.in_packets == g.in_packets
                        &&& f.deltas@ == g.deltas@
                        &&& f.created_time == g.created_time
                        &&& f.traffic_type == g.traffic_type
                        &&& (f.needs_db_update ==> g.needs_db_update)
                        &&& (!g.needs_db_update ==> f == g)
                    },
                forall|k: int|
                    0 <= k < i && old(self).flow_stats@[k].needs_db_update ==> spec_persisted_from(
                        (#[trigger] self.flow_stats@[k])@,
                        old(self).flow_stats@[k]@,
                    ),
                forall|k: int|
                    i <= k < n ==> #[trigger] self.flow_stats@[k] == old(self).flow_stats@[k],
            decreases n - i,
        {
            if self.flow_stats[i].needs_db_update {
                let ghost pre = self.flow_stats@;
                let mut f = self.flow_stats.remove(i);
                let ghost f0 = f;
                let found = check_if_flow_exists_in_db(conn, &f);
                let accepted = if !found {
                    create_flow_in_db(conn, &f, &sender_ip)
                } else {
                    update_flow_in_db(conn, &f, &sender_ip)
                };
                apply_persist_outcome(&mut f, found, accepted);
                proof {
                    assert(spec_same_key(f, f0));
                    assert(f@ == spec_apply_persist(f0@, found, accepted));
                }
                self.flow_stats.insert(i, f);
                proof {
                    assert(self.flow_stats@ =~= pre.update(i as int, f));
                    assert(self.flow_stats@[i as int]@ == spec_apply_persist(
                        old(self).flow_stats@[i as int]@,
                        found,
                        accepted,
                    ));
                    assert(spec_persisted_from(
                        self.flow_stats@[i as int]@,
                        old(self).flow_stats@[i as int]@,
                    ));
                }
            }
            i = i + 1;
        }
    }
}

} // verus!
