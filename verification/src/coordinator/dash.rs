//! The concurrent maps that the registry keeps, from the `dashmap` crate.
use vstd::prelude::*;
use dashmap::DashMap;
use crate::coordinator::registry::AgentSession;

verus! {

#[verifier::external_type_specification]
#[verifier::external_body]
#[verifier::reject_recursive_types(K)]
#[verifier::reject_recursive_types(V)]
#[verifier::reject_recursive_types(S)]
pub struct ExDashMap<K, V, S>(DashMap<K, V, S>);

/// Map from each active port to the namespace it serves (`None` for anonymous agents).
pub type ActivePorts = DashMap<u16, Option<String>>;

/// What a map of active ports holds: each active port and the namespace it serves.
pub uninterp spec fn active_ports(m: ActivePorts) -> Map<u16, Option<Seq<char>>>;

/// `DashMap::new` for the active-port map: an empty map.
#[verifier::external_body]
pub(crate) fn active_new() -> (ports: ActivePorts)
    ensures
        active_ports(ports).is_empty(),
{
    DashMap::new()
}

/// `DashMap::contains_key` on the active-port map.
///
/// The map is shared between tasks: this states what holds while no other task changes the
/// map during the call.
#[verifier::external_body]
pub(crate) fn active_contains(m: &ActivePorts, port: u16) -> (r: bool)
    ensures
        r == active_ports(*m).contains_key(port),
{
    m.contains_key(&port)
}

/// `DashMap::insert` on the active-port map: the port now maps to the namespace.
#[verifier::external_body]
pub(crate) fn active_insert(m: &mut ActivePorts, port: u16, namespace: Option<String>)
    ensures
        active_ports(*final(m)) == active_ports(*old(m)).insert(
            port,
            match namespace {
                Some(s) => Some(s@),
                None => None,
            },
        ),
{
    m.insert(port, namespace);
}

/// `DashMap::remove` on the active-port map: the port is no longer active.
#[verifier::external_body]
pub(crate) fn active_remove(m: &mut ActivePorts, port: u16)
    ensures
        active_ports(*final(m)) == active_ports(*old(m)).remove(port),
{
    m.remove(&port);
}

/// Map from each connected port to its agent session.
pub type SessionTable = DashMap<u16, AgentSession>;

/// What a session table holds: each connected port with the session's namespace,
/// connection time and auth fingerprint.
pub uninterp spec fn session_table(m: SessionTable) -> Map<u16, (Seq<char>, u64, Option<Seq<u8>>)>;

/// `DashMap::new` for the session table: an empty map.
#[verifier::external_body]
pub(crate) fn sessions_new() -> (table: SessionTable)
    ensures
        session_table(table).is_empty(),
{
    DashMap::new()
}

/// `DashMap::insert` on the session table: the port now maps to the session.
#[verifier::external_body]
pub(crate) fn sessions_insert(m: &mut SessionTable, port: u16, session: AgentSession)
    ensures
        session_table(*final(m)) == session_table(*old(m)).insert(port, session.spec_view()),
{
    m.insert(port, session);
}

/// `DashMap::remove` on the session table: the port has no session any more.
#[verifier::external_body]
pub(crate) fn sessions_remove(m: &mut SessionTable, port: u16)
    ensures
        session_table(*final(m)) == session_table(*old(m)).remove(port),
{
    m.remove(&port);
}

/// `DashMap::contains_key` on the session table.
#[verifier::external_body]
pub(crate) fn sessions_contains(m: &SessionTable, port: u16) -> (r: bool)
    ensures
        r == session_table(*m).contains_key(port),
{
    m.contains_key(&port)
}

/// `DashMap::iter` on the session table, each entry copied out as its port and session:
/// every entry once, in the map's own (unspecified) order.
#[verifier::external_body]
pub(crate) fn sessions_entries(m: &SessionTable) -> (entries: Vec<(u16, AgentSession)>)
    ensures
        forall|i: int|
            0 <= i < entries@.len() ==> session_table(*m).contains_key(#[trigger] entries@[i].0)
                && session_table(*m)[entries@[i].0] == entries@[i].1.spec_view(),
        forall|p: u16|
            session_table(*m).contains_key(p) ==> exists|i: int|
                0 <= i < entries@.len() && #[trigger] entries@[i].0 == p,
        forall|i: int, j: int|
            0 <= i < j < entries@.len() ==> #[trigger] entries@[i].0 != #[trigger] entries@[j].0,
{
    m.iter().map(|e| (*e.key(), e.value().clone())).collect()
}

} // verus!
