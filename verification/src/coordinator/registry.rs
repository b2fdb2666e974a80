//! The server-side registry of connected agents: port assignment, auth, and the
//! service-discovery queries.
use vstd::prelude::*;
use crate::strings::str_eq;
use std::collections::BTreeSet;
use std::ops::RangeInclusive;
use vstd::string::StringSliceAdditionalSpecFns;
use crate::auth::Authenticator;
use crate::clock::now_secs;
use crate::coordinator::dash::{
    active_contains, active_insert, active_new, active_ports, active_remove, session_table,
    sessions_contains, sessions_entries, sessions_insert, sessions_new, sessions_remove,
    ActivePorts, SessionTable,
};
use crate::coordinator::port_pool::{assign_port, in_range};
use crate::coordinator::ServiceInfo;
use crate::domain::error::{ConnectError, RoutingError};
use crate::domain::types::{AuthProof, FrameView, InboundRequest, RequestId, TunnelFrame};
use uuid::Uuid;
use crate::server::http::{auth_outcome, validate_auth};

verus! {

/// One connected agent entry stored in the registry.
#[derive(Debug, Clone)]
pub struct AgentSession {
    pub namespace: String,
    pub connected_at: u64,
    pub auth_fingerprint: Option<[u8; 32]>,
}

/// The bytes of an optional fingerprint.
pub open spec fn fp_view(fp: Option<[u8; 32]>) -> Option<Seq<u8>> {
    match fp {
        Some(f) => Some(f@),
        None => None,
    }
}

impl AgentSession {
    /// The session's namespace, connection time and fingerprint.
    pub open spec fn spec_view(&self) -> (Seq<char>, u64, Option<Seq<u8>>) {
        (self.namespace@, self.connected_at, fp_view(self.auth_fingerprint))
    }
}

/// Whether a session registered with fingerprint `session` is visible to a caller
/// with fingerprint `caller`: callers without a secret see everything; callers with one
/// see exactly the sessions registered under the same secret.
pub open spec fn fp_visible(caller: Option<Seq<u8>>, session: Option<Seq<u8>>) -> bool {
    match (caller, session) {
        (None, _) => true,
        (Some(cf), Some(sf)) => cf == sf,
        (Some(_), None) => false,
    }
}

/// Whether two fingerprints are equal, byte by byte.
fn same_fingerprint(a: &[u8; 32], b: &[u8; 32]) -> (r: bool)
    ensures
        r == (a@ == b@),
{
    let mut i: usize = 0;
    while i < 32
        invariant
            0 <= i <= 32,
            a@.len() == 32,
            b@.len() == 32,
            forall|j: int| 0 <= j < i ==> a@[j] == b@[j],
        decreases 32 - i,
    {
        if a[i] != b[i] {
            return false;
        }
        i = i + 1;
    }
    assert(a@ =~= b@);
    true
}

/// Returns true if a session's fingerprint is visible to the caller's fingerprint.
pub fn fp_matches(caller_fp: Option<[u8; 32]>, session_fp: Option<[u8; 32]>) -> (r: bool)
    ensures
        r == fp_visible(fp_view(caller_fp), fp_view(session_fp)),
{
    match (caller_fp, session_fp) {
        (None, _) => true,
        (Some(cf), Some(sf)) => same_fingerprint(&cf, &sf),
        (Some(_), None) => false,
    }
}

/// A new agent session: its port, and the first frame to send it.
#[derive(Debug)]
pub struct Registration {
    pub assigned_port: u16,
    pub hello: TunnelFrame,
}

/// The fingerprint (SHA256) of an optional secret key.
pub open spec fn fingerprint_of(key: Option<Seq<u8>>) -> Option<Seq<u8>> {
    match key {
        Some(k) => Some(crate::auth::sha256(k)),
        None => None,
    }
}

/// The set of ports of a range.
pub open spec fn range_ports(range: RangeInclusive<u16>) -> Set<u16> {
    Set::new(|p: u16| in_range(range, p))
}

/// The main server-side registry: the connected agents and the free-port bookkeeping.
pub struct RegistryCoordinator {
    /// port → connected agent session.
    conns: SessionTable,
    /// port → namespace name (mirrors conns for quick iteration).
    active: ActivePorts,
    /// Ports of the range that are not in use.
    pool: BTreeSet<u16>,
    /// Optional authenticator.
    auth: Option<Authenticator>,
    port_range: RangeInclusive<u16>,
}

impl RegistryCoordinator {
    /// The connected sessions by port.
    pub closed spec fn sessions(&self) -> Map<u16, (Seq<char>, u64, Option<Seq<u8>>)> {
        session_table(self.conns)
    }

    /// The ports that are free to assign.
    pub closed spec fn free_ports(&self) -> Set<u16> {
        self.pool@
    }

    /// The ports that are in use, with their namespaces.
    pub closed spec fn active(&self) -> Map<u16, Option<Seq<char>>> {
        active_ports(self.active)
    }

    /// The allowed port range.
    pub closed spec fn range(&self) -> RangeInclusive<u16> {
        self.port_range
    }

    /// The key (the secret's bytes) of the configured authenticator, if any.
    pub closed spec fn auth_key(&self) -> Option<Seq<u8>> {
        match self.auth {
            Some(a) => Some(a@),
            None => None,
        }
    }

    /// The registry's invariant: every port of the range is either free or in use, never
    /// both; exactly the ports in use have sessions, and each is recorded under its
    /// session's namespace.
    pub closed spec fn wf(&self) -> bool {
        &&& !self.port_range@.exhausted
        &&& self.port_range@.start <= self.port_range@.end
        &&& forall|p: u16| #[trigger] self.pool@.contains(p) ==> in_range(self.port_range, p)
        &&& forall|p: u16| #[trigger] active_ports(self.active).contains_key(p) ==> in_range(self.port_range, p)
        &&& forall|p: u16| in_range(self.port_range, p) ==> (#[trigger] self.pool@.contains(p)
            <==> !active_ports(self.active).contains_key(p))
        &&& forall|p: u16| #[trigger] session_table(self.conns).contains_key(p)
            <==> active_ports(self.active).contains_key(p)
        &&& forall|p: u16| #[trigger] session_table(self.conns).contains_key(p) ==> active_ports(self.active)[p]
            == Some(session_table(self.conns)[p].0)
    }

    /// A registry for the (non-empty) port range, with all ports free.
    pub fn new(port_range: RangeInclusive<u16>, auth: Option<Authenticator>) -> (r: Self)
        requires
            !port_range@.exhausted,
            port_range@.start <= port_range@.end,
        ensures
            r.wf(),
            r.range() == port_range,
            r.sessions().is_empty(),
            r.free_ports() == range_ports(port_range),
            r.auth_key() == match auth {
                Some(a) => Some(a@),
                None => None::<Seq<u8>>,
            },
    {
        let start = range_start(&port_range);
        let end = range_end(&port_range);
        let mut pool: BTreeSet<u16> = BTreeSet::new();
        let mut p: u32 = start as u32;
        while p <= end as u32
            invariant
                start == port_range@.start,
                end == port_range@.end,
                start <= p <= end as u32 + 1,
                forall|q: u16| #[trigger] pool@.contains(q) <==> (start <= q && (q as u32) < p),
            decreases end as u32 + 1 - p,
        {
            pool.insert(p as u16);
            p = p + 1;
        }
        assert(pool@ =~= range_ports(port_range));
        RegistryCoordinator {
            conns: sessions_new(),
            active: active_new(),
            pool,
            auth,
            port_range,
        }
    }

    /// A registry whose authenticator (if any) is made from a secret.
    pub fn with_secret(port_range: RangeInclusive<u16>, secret: Option<&str>) -> (r: Self)
        requires
            !port_range@.exhausted,
            port_range@.start <= port_range@.end,
        ensures
            r.wf(),
            r.range() == port_range,
            r.sessions().is_empty(),
            r.free_ports() == range_ports(port_range),
            r.auth_key() == match secret {
                Some(s) => Some(s.spec_bytes()),
                None => None::<Seq<u8>>,
            },
    {
        let auth = match secret {
            Some(s) => Some(Authenticator::new(s)),
            None => None,
        };
        Self::new(port_range, auth)
    }

    /// The fingerprint of the configured secret, if any.
    pub fn auth_fingerprint(&self) -> (fp: Option<[u8; 32]>)
        ensures
            fp_view(fp) == fingerprint_of(self.auth_key()),
    {
        match &self.auth {
            Some(a) => Some(a.fingerprint()),
            None => None,
        }
    }

    /// What registering yields at time `now`, before the port is chosen: the auth error if
    /// any.
    pub open spec fn auth_check(&self, auth: Option<AuthProof>, now: u64) -> Result<(), ConnectError> {
        match self.auth_key() {
            None => Ok(()),
            Some(fp) => match auth {
                None => Err(ConnectError::Unauthenticated),
                Some(p) => auth_outcome(fp, p.ts, p.tag@, now),
            },
        }
    }

    /// Registers an agent at time `now`, connected since `connected_at`: checks the proof,
    /// assigns a port (the requested one, or a random free one for 0), and records the
    /// session under that port.
    pub fn register_at(
        &mut self,
        namespace: String,
        auth: Option<AuthProof>,
        requested_port: u16,
        now: u64,
        connected_at: u64,
    ) -> (r: Result<u16, ConnectError>)
        requires
            old(self).wf(),
        ensures
            final(self).wf(),
            final(self).range() == old(self).range(),
            final(self).auth_key() == old(self).auth_key(),
            old(self).auth_check(auth, now) matches Err(e) ==> r == Err::<u16, ConnectError>(e),
            old(self).auth_check(auth, now) is Ok && requested_port != 0 && !in_range(
                old(self).range(),
                requested_port,
            ) ==> r == Err::<u16, ConnectError>(ConnectError::PortOutOfRange),
            old(self).auth_check(auth, now) is Ok && requested_port != 0 && in_range(
                old(self).range(),
                requested_port,
            ) && old(self).sessions().contains_key(requested_port) ==> r == Err::<u16, ConnectError>(
                ConnectError::PortInUse,
            ),
            old(self).auth_check(auth, now) is Ok && requested_port != 0 && in_range(
                old(self).range(),
                requested_port,
            ) && !old(self).sessions().contains_key(requested_port) ==> r == Ok::<u16, ConnectError>(
                requested_port,
            ),
            old(self).auth_check(auth, now) is Ok && requested_port == 0 ==> (r is Ok || r
                == Err::<u16, ConnectError>(ConnectError::PortExhausted)),
            old(self).auth_check(auth, now) is Ok && requested_port == 0 && (forall|p: u16|
                in_range(old(self).range(), p) ==> old(self).sessions().contains_key(p)) ==> r
                == Err::<u16, ConnectError>(ConnectError::PortExhausted),
            old(self).auth_check(auth, now) is Ok && requested_port == 0 && (forall|p: u16|
                in_range(old(self).range(), p) ==> !old(self).sessions().contains_key(p)) ==> r is Ok,
            match r {
                Ok(port) => {
                    &&& in_range(old(self).range(), port)
                    &&& !old(self).sessions().contains_key(port)
                    &&& final(self).sessions() == old(self).sessions().insert(
                        port,
                        (namespace@, connected_at, fingerprint_of(old(self).auth_key())),
                    )
                },
                Err(_) => final(self).sessions() == old(self).sessions() && final(self).free_ports()
                    == old(self).free_ports() && final(self).active() == old(self).active(),
            },
    {
        if let Some(authenticator) = &self.auth {
            match auth {
                None => {
                    return Err(ConnectError::Unauthenticated);
                },
                Some(proof) => {
                    if let Err(e) = validate_auth(authenticator, &proof, now) {
                        return Err(e);
                    }
                },
            }
        }
        proof {
            if forall|p: u16| in_range(self.port_range, p) ==> #[trigger] session_table(self.conns).contains_key(p) {
                assert forall|p: u16| in_range(self.port_range, p) implies #[trigger] active_ports(self.active).contains_key(p) by {
                    assert(session_table(self.conns).contains_key(p));
                }
            }
            assert((forall|p: u16| in_range(old(self).range(), p) ==> !old(self).sessions().contains_key(p))
                ==> (forall|p: u16| in_range(self.port_range, p) ==> !active_ports(self.active).contains_key(p))) by {
                if forall|p: u16| in_range(old(self).range(), p) ==> !old(self).sessions().contains_key(p) {
                    assert forall|p: u16| in_range(self.port_range, p) implies !active_ports(self.active).contains_key(p) by {
                        assert(in_range(old(self).range(), p));
                        assert(!old(self).sessions().contains_key(p));
                    }
                }
            }
        }
        let port = match assign_port(&mut self.pool, &self.active, &self.port_range, requested_port) {
            Ok(p) => p,
            Err(e) => {
                return Err(e);
            },
        };
        let auth_fingerprint = self.auth_fingerprint();
        let ns_copy = namespace.clone();
        active_insert(&mut self.active, port, Some(ns_copy));
        sessions_insert(
            &mut self.conns,
            port,
            AgentSession { namespace, connected_at, auth_fingerprint },
        );
        proof {
            assert(forall|p: u16| p != port ==> (#[trigger] self.pool@.contains(p) <==> old(self).pool@.contains(p)));
        }
        Ok(port)
    }

    /// Registers an agent now: `register_at` with the current clock for both the proof check
    /// and the connection time. A new session opens with the hello frame that tells the
    /// agent its port.
    pub fn register_agent(&mut self, namespace: String, auth: Option<AuthProof>, requested_port: u16) -> (r: Result<Registration, ConnectError>)
        requires
            old(self).wf(),
        ensures
            final(self).wf(),
            final(self).range() == old(self).range(),
            final(self).auth_key() == old(self).auth_key(),
            old(self).auth_key() is Some && auth is None ==> r matches Err(ConnectError::Unauthenticated),
            old(self).auth_key() is None && requested_port != 0 && !in_range(old(self).range(), requested_port)
                ==> r matches Err(ConnectError::PortOutOfRange),
            old(self).auth_key() is None && requested_port != 0 && in_range(old(self).range(), requested_port)
                && old(self).sessions().contains_key(requested_port) ==> r matches Err(ConnectError::PortInUse),
            old(self).auth_key() is None && requested_port != 0 && in_range(old(self).range(), requested_port)
                && !old(self).sessions().contains_key(requested_port) ==> (r matches Ok(g)
                && g.assigned_port == requested_port),
            old(self).auth_key() is None && requested_port == 0 ==> (r is Ok || r matches Err(
                ConnectError::PortExhausted,
            )),
            old(self).auth_key() is None && requested_port == 0 && (forall|p: u16|
                in_range(old(self).range(), p) ==> !old(self).sessions().contains_key(p)) ==> r is Ok,
            match r {
                Ok(g) => {
                    let port = g.assigned_port;
                    &&& g.hello@ == FrameView::Hello { assigned_port: port }
                    &&& in_range(old(self).range(), port)
                    &&& !old(self).sessions().contains_key(port)
                    &&& final(self).sessions().dom() == old(self).sessions().dom().insert(port)
                    &&& final(self).sessions()[port].0 == namespace@
                    &&& final(self).sessions()[port].2 == fingerprint_of(old(self).auth_key())
                    &&& forall|q: u16| q != port && #[trigger] old(self).sessions().contains_key(q)
                        ==> final(self).sessions()[q] == old(self).sessions()[q]
                },
                Err(_) => final(self).sessions() == old(self).sessions() && final(self).free_ports()
                    == old(self).free_ports() && final(self).active() == old(self).active(),
            },
    {
        let now = now_secs();
        let connected_at = now_secs();
        match self.register_at(namespace, auth, requested_port, now, connected_at) {
            Ok(port) => Ok(Registration { assigned_port: port, hello: TunnelFrame::Hello { assigned_port: port } }),
            Err(e) => Err(e),
        }
    }

    /// Cleanup on disconnect: the port's session goes away and the port is free again.
    pub fn release(&mut self, port: u16)
        requires
            old(self).wf(),
            old(self).sessions().contains_key(port),
        ensures
            final(self).wf(),
            final(self).range() == old(self).range(),
            final(self).auth_key() == old(self).auth_key(),
            final(self).sessions() == old(self).sessions().remove(port),
            final(self).free_ports() == old(self).free_ports().insert(port),
    {
        sessions_remove(&mut self.conns, port);
        active_remove(&mut self.active, port);
        self.pool.insert(port);
    }

    /// Without a secret every agent passes the auth check, whatever proof it brings and
    /// whenever it comes.
    pub proof fn lemma_open_registry_admits_all(&self, auth: Option<AuthProof>, now: u64)
        requires
            self.auth_key() is None,
        ensures
            self.auth_check(auth, now) == Ok::<(), ConnectError>(()),
    {
    }

    /// Releasing the port of a registration undoes it: the sessions and the free ports are
    /// those from before the registration.
    pub proof fn lemma_release_undoes_register(
        before: Self,
        registered: Self,
        released: Self,
        port: u16,
        session: (Seq<char>, u64, Option<Seq<u8>>),
    )
        requires
            before.wf(),
            registered.wf(),
            released.wf(),
            registered.range() == before.range(),
            released.range() == before.range(),
            !before.sessions().contains_key(port),
            registered.sessions() == before.sessions().insert(port, session),
            released.sessions() == registered.sessions().remove(port),
        ensures
            released.sessions() == before.sessions(),
            released.free_ports() == before.free_ports(),
    {
        assert(released.sessions() =~= before.sessions());
        assert forall|p: u16| #[trigger] released.pool@.contains(p) <==> before.pool@.contains(p) by {
            if released.pool@.contains(p) {
                assert(in_range(released.port_range, p));
                assert(!session_table(released.conns).contains_key(p));
            }
            if before.pool@.contains(p) {
                assert(in_range(before.port_range, p));
                assert(!session_table(before.conns).contains_key(p));
            }
        }
        assert(released.free_ports() =~= before.free_ports());
    }

    /// The frame that carries `req` to the agent on `port`, under a fresh server-assigned
    /// request id; `NoAgent` when no agent is connected there.
    pub fn route_request(&self, port: u16, req: InboundRequest) -> (r: Result<TunnelFrame, RoutingError>)
        ensures
            r is Err <==> !self.sessions().contains_key(port),
            r is Err ==> r == Err::<TunnelFrame, RoutingError>(RoutingError::NoAgent(port)),
            r matches Ok(f) ==> (f@ matches FrameView::Inbound { method, path, query, headers, body, .. }
                && method == req.method@ && path == req.path@ && query == req.query@
                && headers == req.headers@ && body == crate::buffer::bytes_contents(req.body)),
            r matches Ok(f) ==> (f@ matches FrameView::Inbound { id, .. } && uuid_v4_text(id)),
    {
        if !sessions_contains(&self.conns, port) {
            return Err(RoutingError::NoAgent(port));
        }
        let id = fresh_request_id();
        Ok(TunnelFrame::Inbound(InboundRequest { id: RequestId(id), ..req }))
    }

    /// Lists all sessions visible to the caller's fingerprint, each once.
    #[verifier::rlimit(30)]
    pub fn list_services(&self, caller_fingerprint: Option<[u8; 32]>) -> (r: Vec<ServiceInfo>)
        ensures
            forall|i: int|
                0 <= i < r@.len() ==> {
                    let e = #[trigger] r@[i];
                    &&& self.sessions().contains_key(e.port)
                    &&& fp_visible(fp_view(caller_fingerprint), self.sessions()[e.port].2)
                    &&& e.namespace@ == self.sessions()[e.port].0
                    &&& e.connected_at == self.sessions()[e.port].1
                },
            forall|p: u16|
                self.sessions().contains_key(p) && fp_visible(
                    fp_view(caller_fingerprint),
                    self.sessions()[p].2,
                ) ==> exists|i: int| 0 <= i < r@.len() && (#[trigger] r@[i]).port == p,
            forall|i: int, j: int| 0 <= i < j < r@.len() ==> (#[trigger] r@[i]).port != (#[trigger] r@[j]).port,
    {
        let entries = sessions_entries(&self.conns);
        let mut out: Vec<ServiceInfo> = Vec::new();
        let mut k: usize = 0;
        while k < entries.len()
            invariant
                0 <= k <= entries@.len(),
                forall|i: int|
                    0 <= i < entries@.len() ==> session_table(self.conns).contains_key(#[trigger] entries@[i].0)
                        && session_table(self.conns)[entries@[i].0] == entries@[i].1.spec_view(),
                forall|i: int, j: int|
                    0 <= i < j < entries@.len() ==> #[trigger] entries@[i].0 != #[trigger] entries@[j].0,
                forall|i: int|
                    0 <= i < out@.len() ==> {
                        let e = #[trigger] out@[i];
                        &&& session_table(self.conns).contains_key(e.port)
                        &&& fp_visible(fp_view(caller_fingerprint), session_table(self.conns)[e.port].2)
                        &&& e.namespace@ == session_table(self.conns)[e.port].0
                        &&& e.connected_at == session_table(self.conns)[e.port].1
                    },
                forall|i: int| 0 <= i < out@.len() ==> exists|m: int| 0 <= m < k && entries@[m].0 == (#[trigger] out@[i]).port,
                forall|m: int|
                    0 <= m < k && fp_visible(
                        fp_view(caller_fingerprint),
                        session_table(self.conns)[#[trigger] entries@[m].0].2,
                    ) ==> exists|i: int| 0 <= i < out@.len() && (#[trigger] out@[i]).port == entries@[m].0,
                forall|i: int, j: int| 0 <= i < j < out@.len() ==> (#[trigger] out@[i]).port != (#[trigger] out@[j]).port,
            decreases entries@.len() - k,
        {
            let (port, session) = &entries[k];
            let ghost old_out = out@;
            if fp_matches(caller_fingerprint, session.auth_fingerprint) {
                out.push(ServiceInfo {
                    namespace: session.namespace.clone(),
                    port: *port,
                    connected_at: session.connected_at,
                });
                proof {
                    assert forall|i: int| 0 <= i < old_out.len() implies (#[trigger] out@[i]).port != *port by {
                        let e = old_out[i];
                        let m = choose|m: int| 0 <= m < k && entries@[m].0 == e.port;
                        assert(entries@[m].0 != entries@[k as int].0);
                    }
                }
            }
            proof {
                assert forall|m: int|
                    0 <= m < k + 1 && fp_visible(
                        fp_view(caller_fingerprint),
                        session_table(self.conns)[#[trigger] entries@[m].0].2,
                    ) implies exists|i: int| 0 <= i < out@.len() && (#[trigger] out@[i]).port == entries@[m].0 by {
                    if m < k {
                        let i = choose|i: int| 0 <= i < old_out.len() && (#[trigger] old_out[i]).port == entries@[m].0;
                        assert(out@[i] == old_out[i]);
                    } else {
                        assert(out@[old_out.len() as int].port == entries@[m].0);
                    }
                }
                assert forall|i: int| 0 <= i < out@.len() implies exists|m: int| 0 <= m < k + 1 && entries@[m].0 == (#[trigger] out@[i]).port by {
                    if i < old_out.len() {
                        assert(out@[i] == old_out[i]);
                        let m = choose|m: int| 0 <= m < k && entries@[m].0 == old_out[i].port;
                    } else {
                        assert(entries@[k as int].0 == out@[i].port);
                    }
                }
            }
            k = k + 1;
        }
        proof {
            assert forall|p: u16|
                self.sessions().contains_key(p) && fp_visible(
                    fp_view(caller_fingerprint),
                    self.sessions()[p].2,
                ) implies exists|i: int| 0 <= i < out@.len() && (#[trigger] out@[i]).port == p by {
                let m = choose|m: int| 0 <= m < entries@.len() && #[trigger] entries@[m].0 == p;
                assert(fp_visible(fp_view(caller_fingerprint), session_table(self.conns)[entries@[m].0].2));
            }
        }
        out
    }

    /// Returns all ports registered under `namespace` that are visible to the caller, each
    /// once.
    pub fn get_ports(&self, namespace: &str, caller_fingerprint: Option<[u8; 32]>) -> (r: Vec<u16>)
        ensures
            forall|i: int|
                0 <= i < r@.len() ==> {
                    &&& self.sessions().contains_key(#[trigger] r@[i])
                    &&& self.sessions()[r@[i]].0 == namespace@
                    &&& fp_visible(fp_view(caller_fingerprint), self.sessions()[r@[i]].2)
                },
            forall|p: u16|
                self.sessions().contains_key(p) && self.sessions()[p].0 == namespace@ && fp_visible(
                    fp_view(caller_fingerprint),
                    self.sessions()[p].2,
                ) ==> r@.contains(p),
            r@.no_duplicates(),
    {
        let entries = sessions_entries(&self.conns);
        let mut out: Vec<u16> = Vec::new();
        let mut k: usize = 0;
        while k < entries.len()
            invariant
                0 <= k <= entries@.len(),
                forall|i: int|
                    0 <= i < entries@.len() ==> session_table(self.conns).contains_key(#[trigger] entries@[i].0)
                        && session_table(self.conns)[entries@[i].0] == entries@[i].1.spec_view(),
                forall|i: int, j: int|
                    0 <= i < j < entries@.len() ==> #[trigger] entries@[i].0 != #[trigger] entries@[j].0,
                forall|i: int|
                    0 <= i < out@.len() ==> {
                        &&& session_table(self.conns).contains_key(#[trigger] out@[i])
                        &&& session_table(self.conns)[out@[i]].0 == namespace@
                        &&& fp_visible(fp_view(caller_fingerprint), session_table(self.conns)[out@[i]].2)
                        &&& exists|m: int| 0 <= m < k && entries@[m].0 == out@[i]
                    },
                forall|m: int|
                    0 <= m < k && session_table(self.conns)[#[trigger] entries@[m].0].0 == namespace@
                        && fp_visible(fp_view(caller_fingerprint), session_table(self.conns)[entries@[m].0].2)
                        ==> out@.contains(entries@[m].0),
                out@.no_duplicates(),
            decreases entries@.len() - k,
        {
            let (port, session) = &entries[k];
            if str_eq(session.namespace.as_str(), namespace)
                && fp_matches(caller_fingerprint, session.auth_fingerprint) {
                let ghost old_out = out@;
                out.push(*port);
                proof {
                    assert forall|i: int| 0 <= i < old_out.len() implies old_out[i] != *port by {
                        let m = choose|m: int| 0 <= m < k && entries@[m].0 == old_out[i];
                        assert(entries@[m].0 != entries@[k as int].0);
                    }
                    assert forall|i: int, j: int| 0 <= i < j < out@.len() implies out@[i] != out@[j] by {
                        if j == out@.len() - 1 {
                            assert(out@[j] == *port);
                        }
                    }
                    assert forall|m: int|
                        0 <= m < k + 1 && session_table(self.conns)[#[trigger] entries@[m].0].0 == namespace@
                            && fp_visible(fp_view(caller_fingerprint), session_table(self.conns)[entries@[m].0].2)
                            implies out@.contains(entries@[m].0) by {
                        if m < k {
                            assert(old_out.contains(entries@[m].0));
                            let i = choose|i: int| 0 <= i < old_out.len() && old_out[i] == entries@[m].0;
                            assert(out@[i] == entries@[m].0);
                        } else {
                            assert(out@[old_out.len() as int] == entries@[m].0);
                        }
                    }
                }
            }
            k = k + 1;
        }
        proof {
            assert forall|p: u16|
                self.sessions().contains_key(p) && self.sessions()[p].0 == namespace@ && fp_visible(
                    fp_view(caller_fingerprint),
                    self.sessions()[p].2,
                ) implies out@.contains(p) by {
                let m = choose|m: int| 0 <= m < entries@.len() && #[trigger] entries@[m].0 == p;
                assert(session_table(self.conns)[entries@[m].0].0 == namespace@);
            }
        }
        out
    }
}

/// Whether `s` is the text of a version-4 UUID as `Uuid`'s `Display` writes it: 36
/// characters, hyphens at 8, 13, 18 and 23, lowercase hex digits elsewhere, and the
/// version digit `4` at 14.
pub open spec fn uuid_v4_text(s: Seq<char>) -> bool {
    &&& s.len() == 36
    &&& forall|i: int| 0 <= i < 36 ==> if i == 8 || i == 13 || i == 18 || i == 23 {
        #[trigger] s[i] == '-'
    } else {
        ('0' <= s[i] <= '9') || ('a' <= s[i] <= 'f')
    }
    &&& s[14] == '4'
}

/// `Uuid::new_v4().to_string()`: a fresh random id for a relayed request. Which UUID it is
/// is left to chance; its text has the hyphenated lowercase shape of a version-4 UUID.
#[verifier::external_body]
fn fresh_request_id() -> (id: String)
    ensures
        uuid_v4_text(id@),
{
    Uuid::new_v4().to_string()
}

/// `RangeInclusive::start`: the first port of the range.
#[verifier::external_body]
fn range_start(r: &RangeInclusive<u16>) -> (s: u16)
    ensures
        s == r@.start,
{
    *r.start()
}

/// `RangeInclusive::end`: the last port of the range.
#[verifier::external_body]
fn range_end(r: &RangeInclusive<u16>) -> (e: u16)
    ensures
        e == r@.end,
{
    *r.end()
}

} // verus!
