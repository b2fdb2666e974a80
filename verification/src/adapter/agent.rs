//! The agent's side of the stream protocol: server URLs, the auth headers it sends, and
//! the first frame it expects back.
use vstd::prelude::*;
use crate::auth::{tag_text, Authenticator};
use crate::domain::types::{FrameView, TunnelFrame};
use crate::strings::{concat, trim_end, trim_end_char};
use crate::adapter::coordinator::RabbitCommand;
use crate::text::{decimal, u64_le_bytes, u64_to_le_bytes, u64_to_string};
use vstd::string::StringSliceAdditionalSpecFns;

verus! {

/// `base` without its trailing slashes, followed by `path`.
pub fn make_url(base: &str, path: &str) -> (url: String)
    ensures
        url@ == trim_end(base@, '/') + path@,
{
    let base = trim_end_char(base, '/');
    concat(base, path)
}

/// The tag that proves knowledge of the secret behind `auth` at time `ts`; empty without one.
pub open spec fn auth_tag_for(auth: Option<Seq<u8>>, ts: u64) -> Seq<char> {
    match auth {
        Some(fp) => tag_text(fp, u64_le_bytes(ts)),
        None => Seq::empty(),
    }
}

/// The `X-Rabbit-Ts` and `X-Rabbit-Auth` values of a request sent at time `ts`: the
/// decimal timestamp and its signature (empty without a secret).
pub fn auth_headers(ts: u64, auth: Option<&Authenticator>) -> (h: (String, String))
    ensures
        h.0@ == decimal(ts as nat),
        h.1@ == auth_tag_for(
            match auth {
                Some(a) => Some(a@),
                None => None,
            },
            ts,
        ),
{
    let ts_text = u64_to_string(ts);
    let tag = match auth {
        Some(a) => {
            let bytes = u64_to_le_bytes(ts);
            a.sign(&bytes)
        },
        None => String::new(),
    };
    (ts_text, tag)
}

/// Why the agent's handshake failed.
#[derive(Debug)]
pub enum HandshakeError {
    /// The server answered with an error frame.
    ServerError(String),
    /// The server's first frame was neither a hello nor an error.
    UnexpectedFrame,
    /// The server answered the connection request with a status other than 2xx.
    Rejected(u16),
}

impl HandshakeError {
    /// The text this error displays as.
    pub open spec fn spec_message(&self) -> Seq<char> {
        match self {
            HandshakeError::ServerError(e) => "server error: "@ + e@,
            HandshakeError::UnexpectedFrame => "unexpected initial frame from server"@,
            HandshakeError::Rejected(st) => "server rejected connection: "@ + status_text(*st),
        }
    }

    /// Human-readable description of the error.
    pub fn message(&self) -> (s: String)
        ensures
            s@ == self.spec_message(),
    {
        match self {
            HandshakeError::ServerError(e) => {
                let s = String::from_str("server error: ");
                s.concat(e.as_str())
            },
            HandshakeError::UnexpectedFrame => String::from_str("unexpected initial frame from server"),
            HandshakeError::Rejected(st) => {
                let s = String::from_str("server rejected connection: ");
                let code = u64_to_string(*st as u64);
                let s = s.concat(code.as_str());
                let s = s.concat(" ");
                match status_reason(*st) {
                    Some(reason) => s.concat(reason),
                    None => s.concat("<unknown status code>"),
                }
            },
        }
    }
}

/// The port the server assigned, read from the first frame of its stream: a hello carries
/// it, an error frame fails the handshake with the server's text, anything else is
/// unexpected.
pub fn hello_port(frame: &TunnelFrame) -> (r: Result<u16, HandshakeError>)
    ensures
        match frame@ {
            FrameView::Hello { assigned_port } => r == Ok::<u16, HandshakeError>(assigned_port),
            FrameView::Error(m) => r matches Err(HandshakeError::ServerError(e)) && e@ == m,
            _ => r matches Err(HandshakeError::UnexpectedFrame),
        },
{
    match frame {
        TunnelFrame::Hello { assigned_port } => Ok(*assigned_port),
        TunnelFrame::Error(e) => Err(HandshakeError::ServerError(e.clone())),
        _ => Err(HandshakeError::UnexpectedFrame),
    }
}


/// Whether an HTTP status is a success (2xx).
pub open spec fn success_status(status: u16) -> bool {
    200 <= status <= 299
}

/// Whether an HTTP status is a success (2xx).
pub fn is_success_status(status: u16) -> (b: bool)
    ensures
        b == success_status(status),
{
    200 <= status && status <= 299
}

/// The port the agent's connection was given: the server must answer 2xx, and its first
/// frame must be a hello (see `hello_port`).
pub fn connect_outcome(status: u16, first: &TunnelFrame) -> (r: Result<u16, HandshakeError>)
    ensures
        !success_status(status) ==> (r matches Err(HandshakeError::Rejected(s)) && s == status),
        success_status(status) ==> match first@ {
            FrameView::Hello { assigned_port } => r == Ok::<u16, HandshakeError>(assigned_port),
            FrameView::Error(m) => r matches Err(HandshakeError::ServerError(e)) && e@ == m,
            _ => r matches Err(HandshakeError::UnexpectedFrame),
        },
{
    if !is_success_status(status) {
        return Err(HandshakeError::Rejected(status));
    }
    hello_port(first)
}

/// Whether a byte may stand in an HTTP header value: a tab, or any byte from space up but
/// DEL (the rule `HeaderValue::from_str` applies to each byte).
pub open spec fn header_byte_ok(b: u8) -> bool {
    (b >= 32 && b != 127) || b == 9
}

/// Whether text may be sent as an HTTP header value.
pub open spec fn header_value_ok(s: Seq<u8>) -> bool {
    forall|i: int| 0 <= i < s.len() ==> header_byte_ok(#[trigger] s[i])
}

/// Whether `s` may be sent as an HTTP header value.
pub fn is_header_value(s: &str) -> (b: bool)
    ensures
        b == header_value_ok(s.spec_bytes()),
{
    let bytes = s.as_bytes();
    let mut i: usize = 0;
    while i < bytes.len()
        invariant
            bytes@ == s.spec_bytes(),
            0 <= i <= bytes@.len(),
            forall|j: int| 0 <= j < i ==> header_byte_ok(#[trigger] bytes@[j]),
        decreases bytes@.len() - i,
    {
        let b = bytes[i];
        if !((b >= 32 && b != 127) || b == 9) {
            return false;
        }
        i = i + 1;
    }
    true
}

/// The headers of a command request sent at time `ts`, in order: `x-rabbit-ts`,
/// `x-rabbit-auth` (see `auth_headers`), `x-rabbit-cmd`; then `x-rabbit-service` when a
/// service is given (empty when it cannot be a header value), and `x-rabbit-port` when a
/// port is given.
pub open spec fn command_headers_of(
    ts: u64,
    auth: Option<Seq<u8>>,
    cmd: RabbitCommand,
    service: Option<&str>,
    port: Option<u16>,
) -> Seq<(Seq<char>, Seq<char>)> {
    let base = seq![
        ("x-rabbit-ts"@, decimal(ts as nat)),
        ("x-rabbit-auth"@, auth_tag_for(auth, ts)),
        ("x-rabbit-cmd"@, cmd.spec_name()),
    ];
    let with_service = match service {
        Some(s) => base.push(("x-rabbit-service"@, if header_value_ok(s.spec_bytes()) { s@ } else { Seq::empty() })),
        None => base,
    };
    match port {
        Some(p) => with_service.push(("x-rabbit-port"@, decimal(p as nat))),
        None => with_service,
    }
}

/// The (name, value) views of a header list.
pub open spec fn header_pairs(h: Seq<(String, String)>) -> Seq<(Seq<char>, Seq<char>)> {
    h.map_values(|p: (String, String)| (p.0@, p.1@))
}

/// The headers of a command request sent at time `ts` (see `command_headers_of`).
pub fn command_headers(
    ts: u64,
    auth: Option<&Authenticator>,
    cmd: RabbitCommand,
    service: Option<&str>,
    port: Option<u16>,
) -> (h: Vec<(String, String)>)
    ensures
        header_pairs(h@) == command_headers_of(
            ts,
            match auth {
                Some(a) => Some(a@),
                None => None,
            },
            cmd,
            service,
            port,
        ),
{
    let (ts_text, tag) = auth_headers(ts, auth);
    let mut h: Vec<(String, String)> = Vec::new();
    h.push((String::from_str("x-rabbit-ts"), ts_text));
    h.push((String::from_str("x-rabbit-auth"), tag));
    h.push((String::from_str("x-rabbit-cmd"), String::from_str(cmd.name())));
    if let Some(s) = service {
        let value = if is_header_value(s) {
            s.to_owned()
        } else {
            String::new()
        };
        h.push((String::from_str("x-rabbit-service"), value));
    }
    if let Some(p) = port {
        h.push((String::from_str("x-rabbit-port"), u64_to_string(p as u64)));
    }
    assert(header_pairs(h@) =~= command_headers_of(
        ts,
        match auth {
            Some(a) => Some(a@),
            None => None,
        },
        cmd,
        service,
        port,
    ));
    h
}


/// The reason phrase HTTP gives a status code (`StatusCode::canonical_reason`), if it has one.
pub uninterp spec fn canonical_reason(code: u16) -> Option<Seq<char>>;

/// `StatusCode::from_u16(code)` then `canonical_reason`: the reason phrase of the code;
/// none for a code outside 100..=999, which is no status code.
#[verifier::external_body]
fn status_reason(code: u16) -> (r: Option<&'static str>)
    ensures
        match r {
            Some(t) => canonical_reason(code) == Some(t@),
            None => canonical_reason(code) is None,
        },
        !(100 <= code <= 999) ==> r is None,
{
    reqwest::StatusCode::from_u16(code).ok().and_then(|c| c.canonical_reason())
}

/// A status as `StatusCode`'s `Display` writes it: the code, a space, and its reason phrase
/// (`<unknown status code>` when it has none).
pub open spec fn status_text(code: u16) -> Seq<char> {
    decimal(code as nat) + " "@ + match canonical_reason(code) {
        Some(t) => t,
        None => "<unknown status code>"@,
    }
}

} // verus!
