//! The local agent: how it registers with the server, where its tunnel connections go,
//! and how long it waits before reconnecting.
use vstd::prelude::*;
use vstd::string::StringSliceAdditionalSpecFns;
use crate::auth::{tag_text, Authenticator};
use crate::strings::{concat, trim_end, trim_end_char};
use crate::text::{decimal, u64_le_bytes, u64_to_le_bytes, u64_to_string};

pub mod relay;
pub mod tunnel_cluster;

verus! {

/// The registration URL for `tunnel_id` on the server at `server_url`.
pub open spec fn registration_url_of(server_url: Seq<char>, tunnel_id: Seq<char>) -> Seq<char> {
    trim_end(server_url, '/') + "/api/tunnel?id="@ + tunnel_id
}

/// The registration URL: the server URL without trailing slashes, then
/// `/api/tunnel?id=` and the tunnel id.
pub fn registration_url(server_url: &str, tunnel_id: &str) -> (url: String)
    ensures
        url@ == registration_url_of(server_url@, tunnel_id@),
{
    let base = trim_end_char(server_url, '/');
    let with_path = concat(base, "/api/tunnel?id=");
    with_path.concat(tunnel_id)
}

/// The `X-Rabbit-Ts` and `X-Rabbit-Auth` values a registration at time `ts` carries: only
/// with a secret, the decimal timestamp and the signature of its little-endian bytes
/// under that secret.
pub fn registration_auth(secret: Option<&str>, ts: u64) -> (h: Option<(String, String)>)
    ensures
        match secret {
            Some(s) => h matches Some(p) && p.0@ == decimal(ts as nat)
                && p.1@ == tag_text(s.spec_bytes(), u64_le_bytes(ts)),
            None => h is None,
        },
{
    match secret {
        Some(s) => {
            let auth = Authenticator::new(s);
            let bytes = u64_to_le_bytes(ts);
            let tag = auth.sign(&bytes);
            Some((u64_to_string(ts), tag))
        },
        None => None,
    }
}

/// The longest wait between reconnection attempts, in seconds.
pub const MAX_BACKOFF_SECS: u64 = 60u64;

/// The wait after waiting `secs`: double it, but no more than a minute.
pub open spec fn next_backoff_of(secs: int) -> int {
    if 2 * secs <= MAX_BACKOFF_SECS {
        2 * secs
    } else {
        MAX_BACKOFF_SECS as int
    }
}

/// The wait before the next reconnection attempt after waiting `secs`: double it, but no
/// more than a minute.
pub fn next_backoff_secs(secs: u64) -> (r: u64)
    requires
        secs <= u64::MAX / 2,
    ensures
        r == next_backoff_of(secs as int),
{
    let doubled = secs * 2;
    if doubled <= MAX_BACKOFF_SECS {
        doubled
    } else {
        MAX_BACKOFF_SECS
    }
}

/// Starting from one second, the wait between attempts stays between one second and a
/// minute.
pub proof fn lemma_backoff_bounded(secs: u64)
    requires
        1 <= secs <= MAX_BACKOFF_SECS,
    ensures
        1 <= next_backoff_of(secs as int) <= MAX_BACKOFF_SECS,
        next_backoff_of(secs as int) >= secs,
{
}

/// Two to the power `n`.
pub open spec fn pow2(n: nat) -> int
    decreases n,
{
    if n == 0 {
        1
    } else {
        2 * pow2((n - 1) as nat)
    }
}

/// The wait before the `j`-th attempt of a run of failures: one second first, then each
/// wait follows from the one before.
pub open spec fn backoff_run(j: nat) -> int
    decreases j,
{
    if j <= 1 {
        1
    } else {
        next_backoff_of(backoff_run((j - 1) as nat))
    }
}

/// Exponential backoff: the `j`-th wait of a run of failures (counted from 1) lasts
/// `min(2^(j-1), 60)` seconds: 1 s, 2 s, 4 s, ... capped at a minute.
pub proof fn lemma_backoff_run(j: nat)
    requires
        j >= 1,
    ensures
        backoff_run(j) == if pow2((j - 1) as nat) <= MAX_BACKOFF_SECS {
            pow2((j - 1) as nat)
        } else {
            MAX_BACKOFF_SECS as int
        },
    decreases j,
{
    if j > 1 {
        lemma_backoff_run((j - 1) as nat);
        lemma_pow2_positive((j - 2) as nat);
        assert(pow2((j - 1) as nat) == 2 * pow2((j - 2) as nat));
    }
}

proof fn lemma_pow2_positive(n: nat)
    ensures
        pow2(n) >= 1,
    decreases n,
{
    if n > 0 {
        lemma_pow2_positive((n - 1) as nat);
    }
}

/// `host:port` text of a socket address.
pub open spec fn host_port_of(host: Seq<char>, port: u16) -> Seq<char> {
    host + ":"@ + decimal(port as nat)
}

/// The `host:port` text of a socket address.
pub fn host_port(host: &str, port: u16) -> (s: String)
    ensures
        s@ == host_port_of(host@, port),
{
    let s = concat(host, ":");
    let p = u64_to_string(port as u64);
    s.concat(p.as_str())
}

} // verus!
