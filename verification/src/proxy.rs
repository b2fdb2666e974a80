//! Decisions of the public proxy: which agent port a request goes to, which of its headers
//! are forwarded, and how a routing failure is answered.
use vstd::prelude::*;
use crate::strings::str_eq;
use crate::domain::error::RoutingError;
use crate::text::{parse_u16, parse_unsigned};

verus! {

/// The agent port named by the `X-Tunnel-Port` header value, if it is a port number.
pub fn tunnel_port(header: Option<&str>) -> (r: Option<u16>)
    ensures
        match header {
            Some(t) => match parse_unsigned(t@, u16::MAX as int) {
                Some(v) => r == Some(v as u16),
                None => r is None,
            },
            None => r is None,
        },
{
    match header {
        Some(t) => parse_u16(t),
        None => None,
    }
}

/// The request headers the proxy consumes itself and does not forward to the agent.
pub open spec fn proxy_only_header(name: Seq<char>) -> bool {
    ||| name == "x-tunnel-port"@
    ||| name == "host"@
    ||| name == "connection"@
    ||| name == "transfer-encoding"@
}

/// Whether a header (name, value) is forwarded to the agent.
pub open spec fn forwarded(h: (String, String)) -> bool {
    !proxy_only_header(h.0@)
}

fn is_proxy_only_header(name: &str) -> (r: bool)
    ensures
        r == proxy_only_header(name@),
{
    str_eq(name, "x-tunnel-port") || str_eq(name, "host") || str_eq(name, "connection")
        || str_eq(name, "transfer-encoding")
}

/// The headers of an inbound request that are forwarded to the agent, in their order:
/// all but `x-tunnel-port`, `host`, `connection` and `transfer-encoding`.
pub fn forwarded_headers(headers: &Vec<(String, String)>) -> (r: Vec<(String, String)>)
    ensures
        r@ == headers@.filter(|h: (String, String)| forwarded(h)),
        forall|i: int|
            0 <= i < headers@.len() && headers@[i].0@ != "x-tunnel-port"@ && headers@[i].0@
                != "host"@ && headers@[i].0@ != "connection"@ && headers@[i].0@
                != "transfer-encoding"@ ==> #[trigger] r@.contains(headers@[i]),
        forall|j: int|
            0 <= j < r@.len() ==> {
                &&& headers@.contains(#[trigger] r@[j])
                &&& r@[j].0@ != "x-tunnel-port"@
                &&& r@[j].0@ != "host"@
                &&& r@[j].0@ != "connection"@
                &&& r@[j].0@ != "transfer-encoding"@
            },
{
    let mut r: Vec<(String, String)> = Vec::new();
    let mut i: usize = 0;
    while i < headers.len()
        invariant
            0 <= i <= headers@.len(),
            r@ == headers@.take(i as int).filter(|h: (String, String)| forwarded(h)),
        decreases headers@.len() - i,
    {
        proof {
            reveal(Seq::filter);
            assert(headers@.take(i + 1).drop_last() =~= headers@.take(i as int));
            assert(headers@.take(i + 1).last() == headers@[i as int]);
        }
        let (name, value) = &headers[i];
        if !is_proxy_only_header(name.as_str()) {
            r.push((name.clone(), value.clone()));
        }
        i = i + 1;
    }
    assert(headers@.take(i as int) =~= headers@);
    proof {
        assert forall|k: int|
            0 <= k < headers@.len() && headers@[k].0@ != "x-tunnel-port"@ && headers@[k].0@
                != "host"@ && headers@[k].0@ != "connection"@ && headers@[k].0@
                != "transfer-encoding"@ implies #[trigger] r@.contains(headers@[k]) by {
            lemma_other_header_forwarded(headers@, k);
        }
        assert forall|j: int| 0 <= j < r@.len() implies headers@.contains(#[trigger] r@[j]) && r@[j].0@
            != "x-tunnel-port"@ && r@[j].0@ != "host"@ && r@[j].0@ != "connection"@ && r@[j].0@
            != "transfer-encoding"@ by {
            lemma_forwarded_header_allowed(headers@, j);
        }
    }
    r
}

/// A request header whose name is none of `x-tunnel-port`, `host`, `connection` and
/// `transfer-encoding` is among the headers forwarded to the agent.
pub proof fn lemma_other_header_forwarded(headers: Seq<(String, String)>, i: int)
    requires
        0 <= i < headers.len(),
        headers[i].0@ != "x-tunnel-port"@,
        headers[i].0@ != "host"@,
        headers[i].0@ != "connection"@,
        headers[i].0@ != "transfer-encoding"@,
    ensures
        headers.filter(|h: (String, String)| forwarded(h)).contains(headers[i]),
{
    headers.filter_lemma(|h: (String, String)| forwarded(h));
}

/// Each forwarded header was in the request, and its name is none of `x-tunnel-port`,
/// `host`, `connection` and `transfer-encoding`.
pub proof fn lemma_forwarded_header_allowed(headers: Seq<(String, String)>, j: int)
    requires
        0 <= j < headers.filter(|h: (String, String)| forwarded(h)).len(),
    ensures
        headers.contains(headers.filter(|h: (String, String)| forwarded(h))[j]),
        headers.filter(|h: (String, String)| forwarded(h))[j].0@ != "x-tunnel-port"@,
        headers.filter(|h: (String, String)| forwarded(h))[j].0@ != "host"@,
        headers.filter(|h: (String, String)| forwarded(h))[j].0@ != "connection"@,
        headers.filter(|h: (String, String)| forwarded(h))[j].0@ != "transfer-encoding"@,
{
    let pred = |h: (String, String)| forwarded(h);
    let f = headers.filter(pred);
    headers.filter_lemma(pred);
    assert(pred(f[j]));
    assert(f.contains(f[j]));
    headers.lemma_filter_contains_rev(pred, f[j]);
}

/// The HTTP status a routing failure is answered with: 404 for an unknown tunnel id,
/// 502 when the tunnel cannot carry the request.
pub open spec fn routing_status_of(e: RoutingError) -> u16 {
    match e {
        RoutingError::NoClient(_) => 404,
        _ => 502,
    }
}

/// The HTTP status a routing failure is answered with.
pub fn routing_status(e: &RoutingError) -> (s: u16)
    ensures
        s == routing_status_of(*e),
{
    match e {
        RoutingError::NoClient(_) => 404,
        _ => 502,
    }
}


/// How relaying one public request went, as far as the answer's status depends on it.
#[derive(Debug)]
pub enum ProxyOutcome {
    /// No `X-Tunnel-Port` header naming a port.
    NoPort,
    /// The request could not be routed to an agent.
    Refused(RoutingError),
    /// The agent's connection went away before the response head.
    ChannelClosed,
    /// No response head within the relay timeout.
    TimedOut,
    /// The agent's response head arrived with this status.
    Head(u32),
}

/// The status of the answer to a relayed request.
pub open spec fn proxy_status_of(o: ProxyOutcome) -> u16 {
    match o {
        ProxyOutcome::NoPort => 400,
        ProxyOutcome::Refused(e) => routing_status_of(e),
        ProxyOutcome::ChannelClosed => 502,
        ProxyOutcome::TimedOut => 504,
        ProxyOutcome::Head(st) => st as u16,
    }
}

/// The error text answered for a relayed request; none when the agent's response is
/// passed on.
pub open spec fn proxy_text_of(o: ProxyOutcome) -> Option<Seq<char>> {
    match o {
        ProxyOutcome::NoPort => Some("missing X-Tunnel-Port header"@),
        ProxyOutcome::Refused(e) => Some(e.spec_message()),
        ProxyOutcome::ChannelClosed => Some("tunnel response channel closed"@),
        ProxyOutcome::TimedOut => Some("tunnel relay timed out"@),
        ProxyOutcome::Head(_) => None,
    }
}

/// The status and error text of the answer to a relayed request: 400 without a port, the
/// routing status with the routing error's text, 502 when the agent's connection closed,
/// 504 on timeout, and the agent's own status (its low 16 bits) when its head arrived.
pub fn proxy_reply(o: &ProxyOutcome) -> (r: (u16, Option<String>))
    ensures
        r.0 == proxy_status_of(*o),
        match r.1 {
            Some(t) => proxy_text_of(*o) == Some(t@),
            None => proxy_text_of(*o) is None,
        },
{
    match o {
        ProxyOutcome::NoPort => (400, Some(String::from_str("missing X-Tunnel-Port header"))),
        ProxyOutcome::Refused(e) => (routing_status(e), Some(e.message())),
        ProxyOutcome::ChannelClosed => (502, Some(String::from_str("tunnel response channel closed"))),
        ProxyOutcome::TimedOut => (504, Some(String::from_str("tunnel relay timed out"))),
        ProxyOutcome::Head(st) => (*st as u16, None),
    }
}

} // verus!
