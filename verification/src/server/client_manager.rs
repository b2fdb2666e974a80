//! The registry of tunnel clients (agents) that the tunnel server knows by id.
use vstd::prelude::*;
use dashmap::DashMap;
use vstd::string::StringSliceAdditionalSpecFns;
use crate::auth::Authenticator;
use crate::clock::now_secs;
use crate::domain::error::ConnectError;
use crate::domain::types::{AuthProof, RegistrationInfo};
use crate::server::http::{auth_outcome, validate_auth};
use crate::strings::{chars_of, concat};

verus! {

/// A registered tunnel client.
#[derive(Debug, Clone)]
pub struct TunnelClient {
    pub id: String,
    pub url: String,
    pub connected_at: u64,
}

impl TunnelClient {
    /// The client's id, URL and connection time.
    pub open spec fn spec_view(&self) -> (Seq<char>, Seq<char>, u64) {
        (self.id@, self.url@, self.connected_at)
    }
}

/// Map from tunnel id to its client.
pub type ClientTable = DashMap<String, TunnelClient>;

/// What a client table holds: each registered id with its client's id, URL and
/// connection time.
pub uninterp spec fn client_table(m: ClientTable) -> Map<Seq<char>, (Seq<char>, Seq<char>, u64)>;

/// `DashMap::new` for the client table: an empty map.
#[verifier::external_body]
fn clients_new() -> (table: ClientTable)
    ensures
        client_table(table).is_empty(),
{
    DashMap::new()
}

/// `DashMap::contains_key` on the client table.
#[verifier::external_body]
fn clients_contains(m: &ClientTable, id: &str) -> (r: bool)
    ensures
        r == client_table(*m).contains_key(id@),
{
    m.contains_key(id)
}

/// `DashMap::insert` on the client table: the id now maps to the client.
#[verifier::external_body]
fn clients_insert(m: &mut ClientTable, id: String, client: TunnelClient)
    ensures
        client_table(*final(m)) == client_table(*old(m)).insert(id@, client.spec_view()),
{
    m.insert(id, client);
}

/// `DashMap::remove` on the client table: the id has no client any more.
#[verifier::external_body]
fn clients_remove(m: &mut ClientTable, id: &str)
    ensures
        client_table(*final(m)) == client_table(*old(m)).remove(id@),
{
    m.remove(id);
}

/// `DashMap::get` on the client table, the entry copied out.
#[verifier::external_body]
fn clients_get(m: &ClientTable, id: &str) -> (r: Option<TunnelClient>)
    ensures
        match r {
            Some(c) => client_table(*m).contains_key(id@) && client_table(*m)[id@] == c.spec_view(),
            None => !client_table(*m).contains_key(id@),
        },
{
    m.get(id).map(|r| r.value().clone())
}

/// `DashMap::len` on the client table: the number of registered ids.
#[verifier::external_body]
fn clients_len(m: &ClientTable) -> (n: usize)
    ensures
        n == client_table(*m).dom().len(),
{
    m.len()
}

/// `DashMap::iter` on the client table, each entry copied out as its id and client: every
/// entry once, in the map's own (unspecified) order.
#[verifier::external_body]
fn clients_entries(m: &ClientTable) -> (entries: Vec<(String, TunnelClient)>)
    ensures
        forall|i: int|
            0 <= i < entries@.len() ==> client_table(*m).contains_key(#[trigger] entries@[i].0@)
                && client_table(*m)[entries@[i].0@] == entries@[i].1.spec_view(),
        forall|id: Seq<char>|
            client_table(*m).contains_key(id) ==> exists|i: int|
                0 <= i < entries@.len() && (#[trigger] entries@[i]).0@ == id,
        forall|i: int, j: int|
            0 <= i < j < entries@.len() ==> (#[trigger] entries@[i]).0@ != (#[trigger] entries@[j]).0@,
{
    m.iter().map(|e| (e.key().clone(), e.value().clone())).collect()
}

/// Whether a character may appear in a tunnel id: a lowercase ASCII letter, a digit or `-`.
pub open spec fn id_char_ok(c: char) -> bool {
    ('a' <= c <= 'z') || ('0' <= c <= '9') || c == '-'
}

/// A valid tunnel id: 4 to 63 bytes of lowercase ASCII letters, digits and hyphens,
/// not starting or ending with a hyphen.
pub open spec fn valid_id(id: &str) -> bool {
    &&& 4 <= (id.spec_bytes().len() as usize) <= 63
    &&& forall|i: int| 0 <= i < id@.len() ==> id_char_ok(#[trigger] id@[i])
    &&& !(id@.len() > 0 && id@[0] == '-')
    &&& !(id@.len() > 0 && id@.last() == '-')
}

/// Validates a requested id: 4-63 lowercase alphanumeric + hyphen.
pub fn is_valid_id(id: &str) -> (r: bool)
    ensures
        r == valid_id(id),
        r <==> {
            &&& 4 <= (id.spec_bytes().len() as usize) <= 63
            &&& forall|i: int|
                0 <= i < id@.len() ==> ('a' <= #[trigger] id@[i] <= 'z') || ('0' <= id@[i] <= '9')
                    || id@[i] == '-'
            &&& id@.len() > 0 ==> id@[0] != '-' && id@.last() != '-'
        },
{
    proof {
        lemma_valid_id_spelled_out(id);
    }
    let len = id.len();
    if len < 4 || len > 63 {
        return false;
    }
    let chars = chars_of(id);
    let mut i: usize = 0;
    while i < chars.len()
        invariant
            chars@ == id@,
            0 <= i <= chars@.len(),
            forall|j: int| 0 <= j < i ==> id_char_ok(#[trigger] chars@[j]),
        decreases chars@.len() - i,
    {
        let c = chars[i];
        if !(('a' <= c && c <= 'z') || ('0' <= c && c <= '9') || c == '-') {
            return false;
        }
        i = i + 1;
    }
    assert forall|j: int| 0 <= j < id@.len() implies id_char_ok(#[trigger] id@[j]) by {
        assert(chars@[j] == id@[j]);
    }
    let n = chars.len();
    if n > 0 && chars[0] == '-' {
        return false;
    }
    if n > 0 && chars[n - 1] == '-' {
        return false;
    }
    true
}

/// A tunnel id is valid exactly when it is 4 to 63 bytes long, holds only the characters
/// `a`-`z`, `0`-`9` and `-`, and neither starts nor ends with `-`. Any other character,
/// such as `.` or an uppercase letter, makes it invalid.
pub proof fn lemma_valid_id_spelled_out(id: &str)
    ensures
        valid_id(id) <==> {
            &&& 4 <= (id.spec_bytes().len() as usize) <= 63
            &&& forall|i: int|
                0 <= i < id@.len() ==> ('a' <= #[trigger] id@[i] <= 'z') || ('0' <= id@[i] <= '9')
                    || id@[i] == '-'
            &&& id@.len() > 0 ==> id@[0] != '-' && id@.last() != '-'
        },
{
}

/// The public URL of tunnel `id`: a subdomain of `domain`, or a path on localhost.
pub open spec fn url_for(domain: Option<Seq<char>>, id: Seq<char>) -> Seq<char> {
    match domain {
        Some(d) => "https://"@ + id + "."@ + d,
        None => "http://localhost/"@ + id,
    }
}

/// The host agents connect their tunnel sockets to: the domain, or localhost.
pub open spec fn tunnel_host_for(domain: Option<Seq<char>>) -> Seq<char> {
    match domain {
        Some(d) => d,
        None => "localhost"@,
    }
}

/// The characters of an optional string.
pub open spec fn opt_view(s: Option<String>) -> Option<Seq<char>> {
    match s {
        Some(v) => Some(v@),
        None => None,
    }
}

/// The tunnel server's table of registered clients.
pub struct ClientManager {
    clients: ClientTable,
    domain: Option<String>,
    tunnel_port: u16,
    auth: Option<Authenticator>,
    started_at: u64,
}

impl ClientManager {
    /// The registered clients by id.
    pub closed spec fn clients(&self) -> Map<Seq<char>, (Seq<char>, Seq<char>, u64)> {
        client_table(self.clients)
    }

    /// The base domain, if configured.
    pub closed spec fn domain(&self) -> Option<Seq<char>> {
        opt_view(self.domain)
    }

    /// The port agents connect their tunnel sockets to.
    pub closed spec fn tunnel_port(&self) -> u16 {
        self.tunnel_port
    }

    /// The key (the secret's bytes) of the configured authenticator, if any.
    pub closed spec fn auth_key(&self) -> Option<Seq<u8>> {
        match self.auth {
            Some(a) => Some(a@),
            None => None,
        }
    }

    /// When the manager started (Unix seconds).
    pub closed spec fn started_at(&self) -> u64 {
        self.started_at
    }

    /// A well-formed manager holds finitely many clients.
    pub proof fn lemma_wf_finite(&self)
        requires
            self.wf(),
        ensures
            self.clients().dom().finite(),
    {
    }

    /// Finitely many clients, each filed under its own id.
    pub closed spec fn wf(&self) -> bool {
        &&& client_table(self.clients).dom().finite()
        &&& forall|k: Seq<char>| #[trigger] client_table(self.clients).contains_key(k)
            ==> client_table(self.clients)[k].0 == k
    }

    /// A manager with no clients, started now.
    pub fn new(domain: Option<String>, tunnel_port: u16, secret: Option<&str>) -> (m: Self)
        ensures
            m.wf(),
            m.clients().is_empty(),
            m.clients().dom().finite(),
            m.domain() == opt_view(domain),
            m.tunnel_port() == tunnel_port,
            m.auth_key() == match secret {
                Some(s) => Some(s.spec_bytes()),
                None => None::<Seq<u8>>,
            },
    {
        let auth = match secret {
            Some(s) => Some(Authenticator::new(s)),
            None => None,
        };
        ClientManager { clients: clients_new(), domain, tunnel_port, auth, started_at: now_secs() }
    }

    /// What registering `id` with `proof` at time `now` yields, short of success: the
    /// first failing check, in order auth, id syntax, id in use.
    pub open spec fn register_error(&self, id: &str, auth_proof: Option<AuthProof>, now: u64) -> Option<ConnectError> {
        if self.auth_key() is Some && auth_proof is None {
            Some(ConnectError::Unauthenticated)
        } else if self.auth_key() is Some && auth_outcome(
            self.auth_key()->0,
            auth_proof->0.ts,
            auth_proof->0.tag@,
            now,
        ) is Err {
            Some(auth_outcome(self.auth_key()->0, auth_proof->0.ts, auth_proof->0.tag@, now)->Err_0)
        } else if !valid_id(id) {
            Some(ConnectError::InvalidId)
        } else if self.clients().contains_key(id@) {
            Some(ConnectError::IdInUse)
        } else {
            None
        }
    }

    /// Registers a new tunnel client at time `now`, connected since `connected_at`.
    /// Returns the connection details on success.
    pub fn register_at(&mut self, id: &str, auth_proof: Option<AuthProof>, now: u64, connected_at: u64) -> (r: Result<RegistrationInfo, ConnectError>)
        requires
            old(self).wf(),
        ensures
            final(self).wf(),
            final(self).clients().dom().finite(),
            final(self).domain() == old(self).domain(),
            final(self).tunnel_port() == old(self).tunnel_port(),
            final(self).auth_key() == old(self).auth_key(),
            final(self).started_at() == old(self).started_at(),
            match old(self).register_error(id, auth_proof, now) {
                Some(e) => r == Err::<RegistrationInfo, ConnectError>(e) && final(self).clients()
                    == old(self).clients(),
                None => r matches Ok(info) && {
                    &&& info.id@ == id@
                    &&& info.url@ == url_for(old(self).domain(), id@)
                    &&& info.tunnel_host@ == tunnel_host_for(old(self).domain())
                    &&& info.tunnel_port == old(self).tunnel_port()
                    &&& final(self).clients() == old(self).clients().insert(
                        id@,
                        (id@, url_for(old(self).domain(), id@), connected_at),
                    )
                },
            },
    {
        if let Some(auth) = &self.auth {
            let p = match auth_proof {
                Some(p) => p,
                None => {
                    return Err(ConnectError::Unauthenticated);
                },
            };
            if let Err(e) = validate_auth(auth, &p, now) {
                return Err(e);
            }
        }
        if !is_valid_id(id) {
            return Err(ConnectError::InvalidId);
        }
        if clients_contains(&self.clients, id) {
            return Err(ConnectError::IdInUse);
        }
        let url = self.build_url(id);
        let client = TunnelClient { id: id.to_owned(), url: url.clone(), connected_at };
        clients_insert(&mut self.clients, id.to_owned(), client);
        let tunnel_host = match &self.domain {
            Some(d) => d.clone(),
            None => String::from_str("localhost"),
        };
        Ok(RegistrationInfo { id: id.to_owned(), url, tunnel_host, tunnel_port: self.tunnel_port })
    }

    /// Registers a new tunnel client now: `register_at` with the current clock for both
    /// the proof check and the connection time.
    pub fn register(&mut self, id: &str, auth_proof: Option<AuthProof>) -> (r: Result<RegistrationInfo, ConnectError>)
        requires
            old(self).wf(),
        ensures
            final(self).wf(),
            final(self).clients().dom().finite(),
            final(self).domain() == old(self).domain(),
            final(self).tunnel_port() == old(self).tunnel_port(),
            final(self).auth_key() == old(self).auth_key(),
            old(self).auth_key() is Some && auth_proof is None ==> r == Err::<RegistrationInfo, ConnectError>(
                ConnectError::Unauthenticated,
            ),
            old(self).auth_key() is None && !valid_id(id) ==> r == Err::<RegistrationInfo, ConnectError>(
                ConnectError::InvalidId,
            ),
            old(self).auth_key() is None && valid_id(id) && old(self).clients().contains_key(id@) ==> r
                == Err::<RegistrationInfo, ConnectError>(ConnectError::IdInUse),
            old(self).auth_key() is None && valid_id(id) && !old(self).clients().contains_key(id@) ==> r is Ok,
            match r {
                Ok(info) => {
                    &&& info.id@ == id@
                    &&& info.url@ == url_for(old(self).domain(), id@)
                    &&& info.tunnel_host@ == tunnel_host_for(old(self).domain())
                    &&& info.tunnel_port == old(self).tunnel_port()
                    &&& !old(self).clients().contains_key(id@)
                    &&& final(self).clients().dom() == old(self).clients().dom().insert(id@)
                    &&& final(self).clients()[id@].0 == id@
                    &&& final(self).clients()[id@].1 == url_for(old(self).domain(), id@)
                    &&& forall|k: Seq<char>| k != id@ ==> #[trigger] final(self).clients().contains_key(k)
                        ==> final(self).clients()[k] == old(self).clients()[k]
                },
                Err(_) => final(self).clients() == old(self).clients(),
            },
    {
        let now = now_secs();
        let connected_at = now_secs();
        self.register_at(id, auth_proof, now, connected_at)
    }

    /// Removes the client registered as `id`, if any.
    pub fn remove(&mut self, id: &str)
        requires
            old(self).wf(),
        ensures
            final(self).wf(),
            final(self).clients().dom().finite(),
            final(self).clients() == old(self).clients().remove(id@),
            final(self).domain() == old(self).domain(),
            final(self).tunnel_port() == old(self).tunnel_port(),
            final(self).auth_key() == old(self).auth_key(),
            final(self).started_at() == old(self).started_at(),
    {
        clients_remove(&mut self.clients, id);
    }

    /// The client registered as `id`, if any.
    pub fn get(&self, id: &str) -> (r: Option<TunnelClient>)
        ensures
            match r {
                Some(c) => self.clients().contains_key(id@) && self.clients()[id@] == c.spec_view(),
                None => !self.clients().contains_key(id@),
            },
    {
        clients_get(&self.clients, id)
    }

    /// Every registered client once, in no particular order.
    pub fn list(&self) -> (r: Vec<TunnelClient>)
        requires
            self.wf(),
        ensures
            forall|i: int|
                0 <= i < r@.len() ==> self.clients().contains_key(#[trigger] r@[i].id@)
                    && self.clients()[r@[i].id@] == r@[i].spec_view(),
            forall|id: Seq<char>|
                self.clients().contains_key(id) ==> exists|i: int|
                    0 <= i < r@.len() && (#[trigger] r@[i]).id@ == id,
            forall|i: int, j: int|
                0 <= i < j < r@.len() ==> (#[trigger] r@[i]).id@ != (#[trigger] r@[j]).id@,
    {
        let mut entries = clients_entries(&self.clients);
        let ghost all = entries@;
        let ghost n = all.len();
        let mut r: Vec<TunnelClient> = Vec::new();
        while entries.len() > 0
            invariant
                self.wf(),
                entries@ == all.take(entries@.len() as int),
                r@.len() + entries@.len() == n,
                n == all.len(),
                forall|i: int| 0 <= i < r@.len() ==> #[trigger] r@[i] == all[n - 1 - i].1,
                forall|j: int|
                    0 <= j < n ==> self.clients().contains_key(#[trigger] all[j].0@)
                        && self.clients()[all[j].0@] == all[j].1.spec_view(),
            decreases entries@.len(),
        {
            let (_, c) = entries.pop().unwrap();
            assert(entries@ =~= all.take(entries@.len() as int));
            r.push(c);
        }
        proof {
            assert forall|i: int| 0 <= i < r@.len() implies self.clients().contains_key(#[trigger] r@[i].id@)
                && self.clients()[r@[i].id@] == r@[i].spec_view() by {
                let j = n - 1 - i;
                assert(self.clients().contains_key(all[j].0@));
                assert(r@[i] == all[j].1);
            }
            assert forall|id: Seq<char>| self.clients().contains_key(id) implies exists|i: int|
                0 <= i < r@.len() && (#[trigger] r@[i]).id@ == id by {
                let j = choose|j: int| 0 <= j < all.len() && (#[trigger] all[j]).0@ == id;
                let i = n - 1 - j;
                assert(self.clients().contains_key(all[j].0@));
                assert(r@[i] == all[j].1);
            }
            assert forall|i: int, k: int| 0 <= i < k < r@.len() implies (#[trigger] r@[i]).id@
                != (#[trigger] r@[k]).id@ by {
                let a = n - 1 - i;
                let b = n - 1 - k;
                assert(self.clients().contains_key(all[a].0@));
                assert(self.clients().contains_key(all[b].0@));
                assert(r@[i] == all[a].1);
                assert(r@[k] == all[b].1);
                assert(all[b].0@ != all[a].0@);
            }
        }
        r
    }

    /// The number of registered clients.
    pub fn tunnel_count(&self) -> (n: usize)
        ensures
            n == self.clients().dom().len(),
    {
        clients_len(&self.clients)
    }

    /// Seconds since the manager started, as of time `now` (0 if `now` is earlier).
    pub fn uptime_at(&self, now: u64) -> (s: u64)
        ensures
            s == if now >= self.started_at() {
                now - self.started_at()
            } else {
                0
            },
    {
        now.saturating_sub(self.started_at)
    }

    /// Seconds since the manager started, by the current clock: the uptime at some reading
    /// of the clock (which reading is up to the clock).
    pub fn uptime_secs(&self) -> (s: u64)
        ensures
            exists|now: u64| s == #[trigger] uptime_of(self.started_at(), now),
    {
        let now = now_secs();
        let s = self.uptime_at(now);
        assert(s == uptime_of(self.started_at(), now));
        s
    }

    /// The public URL of tunnel `id`.
    pub fn build_url(&self, id: &str) -> (url: String)
        ensures
            url@ == url_for(self.domain(), id@),
    {
        match &self.domain {
            Some(domain) => {
                let a = concat("https://", id);
                let b = concat(a.as_str(), ".");
                let url = concat(b.as_str(), domain.as_str());
                url
            },
            None => concat("http://localhost/", id),
        }
    }
}


/// An id stays taken while its tunnel is registered: registering it again always fails,
/// and when the proof is accepted and the id is well formed, it fails with `IdInUse`.
pub proof fn lemma_registered_id_stays_taken(m: ClientManager, id: &str, auth_proof: Option<AuthProof>, now: u64)
    requires
        m.clients().contains_key(id@),
    ensures
        m.register_error(id, auth_proof, now) is Some,
        valid_id(id) && (m.auth_key() matches Some(fp) ==> auth_proof matches Some(p) && auth_outcome(
            fp,
            p.ts,
            p.tag@,
            now,
        ) is Ok) ==> m.register_error(id, auth_proof, now) == Some(ConnectError::IdInUse),
{
}


/// Without a secret the server accepts every registration that names a free, well-formed
/// id: the outcome does not depend on the proof or the time.
pub proof fn lemma_open_server_ignores_proof(
    m: ClientManager,
    id: &str,
    first: Option<AuthProof>,
    second: Option<AuthProof>,
    first_now: u64,
    second_now: u64,
)
    requires
        m.auth_key() is None,
    ensures
        m.register_error(id, first, first_now) == m.register_error(id, second, second_now),
        m.register_error(id, first, first_now) is None <==> valid_id(id) && !m.clients().contains_key(id@),
{
}


/// Seconds from `started` to `now`; 0 when `now` is earlier.
pub open spec fn uptime_of(started: u64, now: u64) -> int {
    if now >= started {
        now - started
    } else {
        0
    }
}


/// A successful registration raises the number of tunnels by one: the new id was not
/// registered, and the finite table gains exactly it.
pub proof fn lemma_registration_adds_one(before: ClientManager, after: ClientManager, id: Seq<char>)
    requires
        before.clients().dom().finite(),
        !before.clients().contains_key(id),
        after.clients().dom() == before.clients().dom().insert(id),
    ensures
        after.clients().dom().len() == before.clients().dom().len() + 1,
{
}

} // verus!
