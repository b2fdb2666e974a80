//! Request routing helpers of the public HTTP server: tunnel id resolution and
//! registration auth.
use vstd::prelude::*;
use crate::auth::{signature_valid, Authenticator};
use crate::config::AUTH_WINDOW_SECS;
use crate::domain::error::ConnectError;
use crate::domain::types::AuthProof;
use crate::strings::{concat, ends_with, prefix_until, str_ends_with, take_until};
use crate::text::{parse_u64, parse_unsigned, u64_le_bytes, u64_to_le_bytes};

verus! {

/// The distance between two instants, in seconds.
pub open spec fn abs_diff(a: u64, b: u64) -> int {
    if a >= b {
        a - b
    } else {
        b - a
    }
}

/// Whether a proof timestamp `ts` is within the replay window around `now`.
pub open spec fn timestamp_fresh(now: u64, ts: u64) -> bool {
    abs_diff(now, ts) <= AUTH_WINDOW_SECS
}

/// The outcome of checking a proof against an authenticator keyed by `key` at time `now`.
pub open spec fn auth_outcome(key: Seq<u8>, ts: u64, tag: Seq<char>, now: u64) -> Result<(), ConnectError> {
    if !timestamp_fresh(now, ts) {
        Err(ConnectError::TimestampExpired)
    } else if !signature_valid(key, u64_le_bytes(ts), tag) {
        Err(ConnectError::Unauthenticated)
    } else {
        Ok(())
    }
}

/// A proof is accepted only when its timestamp lies within 30 seconds of `now` on either
/// side: one stamped more than 30 seconds ahead of or behind `now` is refused as expired,
/// whatever its tag; inside the window the tag alone decides.
pub proof fn lemma_auth_window(key: Seq<u8>, ts: u64, tag: Seq<char>, now: u64)
    ensures
        ts > now + 30 || now > ts + 30 ==> auth_outcome(key, ts, tag, now) == Err::<
            (),
            ConnectError,
        >(ConnectError::TimestampExpired),
        now <= ts + 30 && ts <= now + 30 ==> auth_outcome(key, ts, tag, now) == (if signature_valid(
            key,
            u64_le_bytes(ts),
            tag,
        ) {
            Ok::<(), ConnectError>(())
        } else {
            Err(ConnectError::Unauthenticated)
        }),
{
}

/// Checks a registration proof: the timestamp must be within the window around `now`,
/// and the tag must be the signature of the timestamp's little-endian bytes.
pub fn validate_auth(auth: &Authenticator, proof: &AuthProof, now: u64) -> (r: Result<(), ConnectError>)
    ensures
        r == auth_outcome(auth@, proof.ts, proof.tag@, now),
        proof.ts > now + 30 || now > proof.ts + 30 ==> r == Err::<(), ConnectError>(
            ConnectError::TimestampExpired,
        ),
        now <= proof.ts + 30 && proof.ts <= now + 30 ==> r == (if signature_valid(
            auth@,
            u64_le_bytes(proof.ts),
            proof.tag@,
        ) {
            Ok::<(), ConnectError>(())
        } else {
            Err(ConnectError::Unauthenticated)
        }),
{
    proof {
        lemma_auth_window(auth@, proof.ts, proof.tag@, now);
    }
    let diff: u64 = if now >= proof.ts {
        now - proof.ts
    } else {
        proof.ts - now
    };
    if diff > AUTH_WINDOW_SECS {
        return Err(ConnectError::TimestampExpired);
    }
    let bytes = u64_to_le_bytes(proof.ts);
    match auth.verify(&bytes, proof.tag.as_str()) {
        Ok(()) => Ok(()),
        Err(_) => Err(ConnectError::Unauthenticated),
    }
}

/// The subdomain that `host` (port stripped) has under `domain`, if it is one.
pub open spec fn subdomain_of(host: Seq<char>, domain: Seq<char>) -> Option<Seq<char>> {
    let h = take_until(host, ':');
    let suffix = seq!['.'] + domain;
    if ends_with(h, suffix) {
        Some(h.take(h.len() - suffix.len()))
    } else {
        None
    }
}

/// Extracts the subdomain from a `Host` value: strips the port, then the `.domain` suffix.
pub fn extract_subdomain(host: &str, domain: &str) -> (r: Option<String>)
    ensures
        match r {
            Some(s) => subdomain_of(host@, domain@) == Some(s@),
            None => subdomain_of(host@, domain@) is None,
        },
{
    let h = prefix_until(host, ':');
    let suffix = concat(".", domain);
    proof {
        reveal_strlit(".");
    }
    assert(suffix@ =~= seq!['.'] + domain@);
    if str_ends_with(h, suffix.as_str()) {
        let n = h.unicode_len() - suffix.as_str().unicode_len();
        let sub = h.substring_char(0, n);
        assert(sub@ =~= h@.take(n as int));
        Some(sub.to_owned())
    } else {
        None
    }
}

/// The tunnel id a request is routed to: the subdomain of the `Host` header under the
/// configured domain when there is one; otherwise (no domain, or a host that is not a
/// subdomain of it) the `X-Tunnel-Id` header, when present and visible ASCII.
pub open spec fn tunnel_id_of(
    x_tunnel_id: Option<Option<Seq<char>>>,
    host: Option<Seq<char>>,
    domain: Option<Seq<char>>,
) -> Option<Seq<char>> {
    let from_host = match (host, domain) {
        (Some(h), Some(d)) => subdomain_of(h, d),
        _ => None,
    };
    match from_host {
        Some(s) => Some(s),
        None => match x_tunnel_id {
            Some(v) => v,
            None => None,
        },
    }
}

/// Resolves the tunnel id: the subdomain of the `Host` header (prod) first, the
/// `X-Tunnel-Id` header (dev) as the fallback.
///
/// `x_tunnel_id` is `None` when the header is absent and `Some(None)` when its value is not
/// visible ASCII; `host` is `None` when the header is absent or not visible ASCII.
pub fn resolve_tunnel_id(x_tunnel_id: Option<Option<&str>>, host: Option<&str>, domain: Option<&str>) -> (r: Option<String>)
    ensures
        match r {
            Some(s) => tunnel_id_of(
                match x_tunnel_id { Some(v) => Some(match v { Some(t) => Some(t@), None => None }), None => None },
                match host { Some(h) => Some(h@), None => None },
                match domain { Some(d) => Some(d@), None => None },
            ) == Some(s@),
            None => tunnel_id_of(
                match x_tunnel_id { Some(v) => Some(match v { Some(t) => Some(t@), None => None }), None => None },
                match host { Some(h) => Some(h@), None => None },
                match domain { Some(d) => Some(d@), None => None },
            ) is None,
        },
{
    if let (Some(h), Some(d)) = (host, domain) {
        if let Some(sub) = extract_subdomain(h, d) {
            return Some(sub);
        }
    }
    match x_tunnel_id {
        Some(Some(t)) => Some(t.to_owned()),
        _ => None,
    }
}

/// The proof that the `X-Rabbit-Ts` and `X-Rabbit-Auth` headers carry: both must be present
/// (and visible ASCII), and the timestamp must be a decimal `u64`.
pub fn extract_auth_proof(ts_header: Option<&str>, tag_header: Option<&str>) -> (r: Option<AuthProof>)
    ensures
        match r {
            Some(p) => ts_header matches Some(t) && tag_header matches Some(g)
                && parse_unsigned(t@, u64::MAX as int) == Some(p.ts as int) && p.tag@ == g@,
            None => ts_header is None || tag_header is None
                || (ts_header matches Some(t) && parse_unsigned(t@, u64::MAX as int) is None),
        },
{
    let ts_text = match ts_header {
        Some(t) => t,
        None => {
            return None;
        },
    };
    let ts = match parse_u64(ts_text) {
        Some(v) => v,
        None => {
            return None;
        },
    };
    let tag = match tag_header {
        Some(g) => g,
        None => {
            return None;
        },
    };
    Some(AuthProof { ts, tag: tag.to_owned() })
}


/// The HTTP status a refused registration is answered with: 401 for a missing, stale or
/// wrong proof, 409 for an id in use, 400 for an invalid id. Port-assignment errors, which
/// registration by id never produces, get 401 as every refusal of the tunnel command does.
pub open spec fn register_status_of(e: ConnectError) -> u16 {
    match e {
        ConnectError::IdInUse => 409,
        ConnectError::InvalidId => 400,
        _ => 401,
    }
}

/// The HTTP status a refused registration is answered with (see `register_status_of`).
pub fn register_status(e: &ConnectError) -> (s: u16)
    ensures
        s == register_status_of(*e),
{
    match e {
        ConnectError::IdInUse => 409,
        ConnectError::InvalidId => 400,
        _ => 401,
    }
}

} // verus!
