//! The server's command endpoint: which command a request names, the parameters of a
//! tunnel request, and the auth check of service queries.
use vstd::prelude::*;
use crate::strings::str_eq;
use crate::auth::{sha256, Authenticator};
use crate::clock::now_secs;
use crate::domain::types::AuthProof;
use crate::server::http::{auth_outcome, validate_auth};
use crate::text::{parse_u16, parse_u64, parse_unsigned};

verus! {

/// The operations of the command endpoint, named by the `X-Rabbit-Cmd` header.
#[derive(Debug, Clone, Copy, PartialEq, Eq, Structural)]
pub enum RabbitCommand {
    Tunnel,
    ListServices,
    GetPorts,
}

impl RabbitCommand {
    /// The header value that names the command.
    pub open spec fn spec_name(self) -> Seq<char> {
        match self {
            RabbitCommand::Tunnel => "tunnel"@,
            RabbitCommand::ListServices => "list_services"@,
            RabbitCommand::GetPorts => "get_ports"@,
        }
    }

    /// The header value that names the command.
    pub fn name(self) -> (s: &'static str)
        ensures
            s@ == self.spec_name(),
    {
        match self {
            RabbitCommand::Tunnel => "tunnel",
            RabbitCommand::ListServices => "list_services",
            RabbitCommand::GetPorts => "get_ports",
        }
    }

    /// The command a header value names, if any.
    pub open spec fn named(s: Seq<char>) -> Option<RabbitCommand> {
        if s == "tunnel"@ {
            Some(RabbitCommand::Tunnel)
        } else if s == "list_services"@ {
            Some(RabbitCommand::ListServices)
        } else if s == "get_ports"@ {
            Some(RabbitCommand::GetPorts)
        } else {
            None
        }
    }

    /// Reads a command name; `None` for an unknown one.
    pub fn parse(s: &str) -> (r: Option<RabbitCommand>)
        ensures
            r == Self::named(s@),
    {
        if str_eq(s, "tunnel") {
            Some(RabbitCommand::Tunnel)
        } else if str_eq(s, "list_services") {
            Some(RabbitCommand::ListServices)
        } else if str_eq(s, "get_ports") {
            Some(RabbitCommand::GetPorts)
        } else {
            None
        }
    }
}

/// A command written by its name is read back as the same command.
pub proof fn lemma_command_name_roundtrip(c: RabbitCommand)
    ensures
        RabbitCommand::named(c.spec_name()) == Some(c),
{
    reveal_strlit("tunnel");
    reveal_strlit("list_services");
    reveal_strlit("get_ports");
    assert("tunnel"@.len() != "list_services"@.len());
    assert("tunnel"@[0] != "get_ports"@[0]);
    assert("list_services"@.len() != "get_ports"@.len());
}

/// A header's number, or `default` when it is absent or not a number no larger than `max`.
pub open spec fn number_or(header: Option<Seq<char>>, max: int, default: int) -> int {
    match header {
        Some(t) => match parse_unsigned(t, max) {
            Some(v) => v,
            None => default,
        },
        None => default,
    }
}

/// A header's text, or the empty text when it is absent.
pub open spec fn text_or_empty(header: Option<Seq<char>>) -> Seq<char> {
    match header {
        Some(t) => t,
        None => Seq::empty(),
    }
}

/// The view of an optional header value.
pub open spec fn header_view(h: Option<&str>) -> Option<Seq<char>> {
    match h {
        Some(t) => Some(t@),
        None => None,
    }
}

/// What a tunnel request asks for.
#[derive(Debug)]
pub struct TunnelParams {
    /// The service namespace (`X-Rabbit-Service`), empty when absent.
    pub namespace: String,
    /// The proof of the secret, present when a timestamp or a tag was given.
    pub auth: Option<AuthProof>,
    /// The requested port (`X-Rabbit-Port`), 0 (any) when absent or not a port.
    pub requested_port: u16,
}

impl TunnelParams {
    /// Reads the parameters from the `X-Rabbit-Service`, `X-Rabbit-Ts`, `X-Rabbit-Auth` and
    /// `X-Rabbit-Port` header values (`None` for an absent or non-text one). A timestamp
    /// that is absent or not a number counts as 0, an absent tag as empty; a proof is
    /// formed when the timestamp is positive or the tag is not empty.
    pub fn from_headers(
        service: Option<&str>,
        ts: Option<&str>,
        tag: Option<&str>,
        port: Option<&str>,
    ) -> (p: TunnelParams)
        ensures
            p.namespace@ == text_or_empty(header_view(service)),
            p.requested_port == number_or(header_view(port), u16::MAX as int, 0),
            ({
                let t = number_or(header_view(ts), u64::MAX as int, 0);
                let g = text_or_empty(header_view(tag));
                match p.auth {
                    Some(a) => (t > 0 || g.len() > 0) && a.ts == t && a.tag@ == g,
                    None => !(t > 0 || g.len() > 0),
                }
            }),
    {
        let namespace = match service {
            Some(s) => s.to_owned(),
            None => String::new(),
        };
        let ts_value: u64 = match ts {
            Some(t) => match parse_u64(t) {
                Some(v) => v,
                None => 0,
            },
            None => 0,
        };
        let tag_text = match tag {
            Some(g) => g.to_owned(),
            None => String::new(),
        };
        let requested_port: u16 = match port {
            Some(t) => match parse_u16(t) {
                Some(v) => v,
                None => 0,
            },
            None => 0,
        };
        let auth = if ts_value > 0 || !tag_text.as_str().is_empty() {
            Some(AuthProof { ts: ts_value, tag: tag_text })
        } else {
            None
        };
        TunnelParams { namespace, auth, requested_port }
    }
}

/// The fingerprint a service query is answered for, or `Err` when it is refused. Without
/// a secret every caller is anonymous. With one, the timestamp (0 when absent or not a
/// number) must be within the window around `now` and the tag (empty when absent) its
/// signature; the caller then sees the services of that secret.
pub open spec fn caller_outcome(
    auth: Option<Seq<u8>>,
    ts: Option<Seq<char>>,
    tag: Option<Seq<char>>,
    now: u64,
) -> Result<Option<Seq<u8>>, ()> {
    match auth {
        None => Ok(None),
        Some(key) => {
            let t = number_or(ts, u64::MAX as int, 0);
            if auth_outcome(key, t as u64, text_or_empty(tag), now) is Ok {
                Ok(Some(sha256(key)))
            } else {
                Err(())
            }
        },
    }
}

/// The fingerprint a service query made at time `now` is answered for (see
/// `caller_outcome`).
pub fn caller_fingerprint_at(
    auth: Option<&Authenticator>,
    ts: Option<&str>,
    tag: Option<&str>,
    now: u64,
) -> (r: Result<Option<[u8; 32]>, ()>)
    ensures
        match r {
            Ok(Some(fp)) => caller_outcome(
                match auth { Some(a) => Some(a@), None => None },
                header_view(ts),
                header_view(tag),
                now,
            ) == Ok::<Option<Seq<u8>>, ()>(Some(fp@)),
            Ok(None) => caller_outcome(
                match auth { Some(a) => Some(a@), None => None },
                header_view(ts),
                header_view(tag),
                now,
            ) == Ok::<Option<Seq<u8>>, ()>(None),
            Err(()) => caller_outcome(
                match auth { Some(a) => Some(a@), None => None },
                header_view(ts),
                header_view(tag),
                now,
            ) is Err,
        },
{
    let authenticator = match auth {
        Some(a) => a,
        None => {
            return Ok(None);
        },
    };
    let ts_value: u64 = match ts {
        Some(t) => match parse_u64(t) {
            Some(v) => v,
            None => 0,
        },
        None => 0,
    };
    let tag_text = match tag {
        Some(g) => g.to_owned(),
        None => String::new(),
    };
    let proof = AuthProof { ts: ts_value, tag: tag_text };
    match validate_auth(authenticator, &proof, now) {
        Ok(()) => Ok(Some(authenticator.fingerprint())),
        Err(_) => Err(()),
    }
}

/// The fingerprint a service query made now is answered for: reads the clock, then
/// decides as `caller_fingerprint_at` does at that time.
pub fn extract_and_validate_auth(
    auth: Option<&Authenticator>,
    ts: Option<&str>,
    tag: Option<&str>,
) -> (r: Result<Option<[u8; 32]>, ()>)
    ensures
        auth is None ==> r == Ok::<Option<[u8; 32]>, ()>(None),
        auth is Some ==> r != Ok::<Option<[u8; 32]>, ()>(None),
        r matches Ok(Some(fp)) ==> auth matches Some(a) && fp@ == sha256(a@),
{
    let now = now_secs();
    caller_fingerprint_at(auth, ts, tag, now)
}

} // verus!
