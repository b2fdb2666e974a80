//! Protobuf message types of the tunnel protocol, and their conversions to and
//! from domain frames.
use vstd::prelude::*;
use std::collections::HashMap;
use crate::buffer::{bytes_contents, bytes_from_vec, bytes_to_vec};
use crate::coordinator::ServiceInfo;
use crate::domain::types::{FrameView, InboundRequest as DomainRequest, RequestId, TunnelFrame};

verus! {

#[derive(Debug, Clone, PartialEq, Eq)]
pub struct Hello {
    pub port: u32,
}

#[derive(Debug, Clone, PartialEq, Eq)]
pub struct InboundRequest {
    pub id: String,
    pub method: String,
    pub path: String,
    pub query: String,
    pub headers: HashMap<String, String>,
    pub body: Vec<u8>,
}

#[derive(Debug, Clone, PartialEq, Eq)]
pub struct ResponseMeta {
    pub id: String,
    pub status: u32,
    pub headers: HashMap<String, String>,
}

#[derive(Debug, Clone, PartialEq, Eq)]
pub struct ResponseChunk {
    pub id: String,
    pub data: Vec<u8>,
}

#[derive(Debug, Clone, PartialEq, Eq)]
pub struct ResponseEnd {
    pub id: String,
}

#[derive(Debug, Clone, PartialEq, Eq)]
pub struct Heartbeat {}

#[derive(Debug, Clone, PartialEq, Eq)]
pub struct ErrorFrame {
    pub message: String,
}

/// The one-of payload of a `TunnelMessage`.
#[derive(Debug, Clone, PartialEq, Eq)]
pub enum Payload {
    Hello(Hello),
    Request(InboundRequest),
    ResponseMeta(ResponseMeta),
    ResponseChunk(ResponseChunk),
    ResponseEnd(ResponseEnd),
    Heartbeat(Heartbeat),
    Error(ErrorFrame),
}

/// A tunnel protocol message; protobuf leaves the payload optional.
#[derive(Debug, Clone, PartialEq, Eq)]
pub struct TunnelMessage {
    pub payload: Option<Payload>,
}

/// One entry of the service-discovery listing.
#[derive(Debug, Clone, PartialEq, Eq)]
pub struct ServiceEntry {
    pub service: String,
    pub port: u32,
    pub connected_at: u64,
}

/// Why a `TunnelMessage` has no domain frame.
#[derive(Debug, PartialEq, Eq, Structural)]
pub enum ProtoConvertError {
    EmptyPayload,
}

/// The content of a `Payload`, with text as characters.
pub enum PayloadView {
    Hello { port: u32 },
    Request {
        id: Seq<char>,
        method: Seq<char>,
        path: Seq<char>,
        query: Seq<char>,
        headers: Map<String, String>,
        body: Seq<u8>,
    },
    ResponseMeta { id: Seq<char>, status: u32, headers: Map<String, String> },
    ResponseChunk { id: Seq<char>, data: Seq<u8> },
    ResponseEnd { id: Seq<char> },
    Heartbeat,
    Error { message: Seq<char> },
}

impl View for Payload {
    type V = PayloadView;

    open spec fn view(&self) -> PayloadView {
        match self {
            Payload::Hello(h) => PayloadView::Hello { port: h.port },
            Payload::Request(r) => PayloadView::Request {
                id: r.id@,
                method: r.method@,
                path: r.path@,
                query: r.query@,
                headers: r.headers@,
                body: r.body@,
            },
            Payload::ResponseMeta(m) => PayloadView::ResponseMeta {
                id: m.id@,
                status: m.status,
                headers: m.headers@,
            },
            Payload::ResponseChunk(c) => PayloadView::ResponseChunk { id: c.id@, data: c.data@ },
            Payload::ResponseEnd(e) => PayloadView::ResponseEnd { id: e.id@ },
            Payload::Heartbeat(_) => PayloadView::Heartbeat,
            Payload::Error(e) => PayloadView::Error { message: e.message@ },
        }
    }
}

/// The payload that a domain frame is sent as.
pub open spec fn payload_of_frame(f: FrameView) -> PayloadView {
    match f {
        FrameView::Hello { assigned_port } => PayloadView::Hello { port: assigned_port as u32 },
        FrameView::Inbound { id, method, path, query, headers, body } => PayloadView::Request {
            id,
            method,
            path,
            query,
            headers,
            body,
        },
        FrameView::ResponseMeta { request_id, status, headers } => PayloadView::ResponseMeta {
            id: request_id,
            status,
            headers,
        },
        FrameView::ResponseChunk { request_id, data } => PayloadView::ResponseChunk {
            id: request_id,
            data,
        },
        FrameView::ResponseEnd { request_id } => PayloadView::ResponseEnd { id: request_id },
        FrameView::Heartbeat => PayloadView::Heartbeat,
        FrameView::Error(msg) => PayloadView::Error { message: msg },
    }
}

/// The domain frame that a payload is read as (a port keeps its low 16 bits).
pub open spec fn frame_of_payload(p: PayloadView) -> FrameView {
    match p {
        PayloadView::Hello { port } => FrameView::Hello { assigned_port: port as u16 },
        PayloadView::Request { id, method, path, query, headers, body } => FrameView::Inbound {
            id,
            method,
            path,
            query,
            headers,
            body,
        },
        PayloadView::ResponseMeta { id, status, headers } => FrameView::ResponseMeta {
            request_id: id,
            status,
            headers,
        },
        PayloadView::ResponseChunk { id, data } => FrameView::ResponseChunk {
            request_id: id,
            data,
        },
        PayloadView::ResponseEnd { id } => FrameView::ResponseEnd { request_id: id },
        PayloadView::Heartbeat => FrameView::Heartbeat,
        PayloadView::Error { message } => FrameView::Error(message),
    }
}

/// Sending a frame and reading it back gives the same frame.
pub proof fn lemma_frame_roundtrip(f: FrameView)
    ensures
        frame_of_payload(payload_of_frame(f)) == f,
{
}

/// Reading a payload and sending it back gives the same payload, for every payload whose
/// port (if any) fits in 16 bits.
pub proof fn lemma_payload_roundtrip(p: PayloadView)
    requires
        p matches PayloadView::Hello { port } ==> port <= u16::MAX,
    ensures
        payload_of_frame(frame_of_payload(p)) == p,
{
}


/// Each conversion by itself keeps every field where it belongs: an inbound request's id,
/// method, path, query, headers and body become the request payload's id, method, path,
/// query, headers and body, and back; likewise for a response head's id, status and headers.
pub proof fn lemma_conversions_keep_fields(
    id: Seq<char>,
    method: Seq<char>,
    path: Seq<char>,
    query: Seq<char>,
    headers: Map<String, String>,
    body: Seq<u8>,
    status: u32,
)
    ensures
        payload_of_frame(FrameView::Inbound { id, method, path, query, headers, body })
            matches PayloadView::Request { id: i2, method: m2, path: p2, query: q2, headers: h2, body: b2 }
            && i2 == id && m2 == method && p2 == path && q2 == query && h2 == headers && b2 == body,
        frame_of_payload(PayloadView::Request { id, method, path, query, headers, body })
            matches FrameView::Inbound { id: i2, method: m2, path: p2, query: q2, headers: h2, body: b2 }
            && i2 == id && m2 == method && p2 == path && q2 == query && h2 == headers && b2 == body,
        payload_of_frame(FrameView::ResponseMeta { request_id: id, status, headers })
            matches PayloadView::ResponseMeta { id: i2, status: s2, headers: h2 }
            && i2 == id && s2 == status && h2 == headers,
        frame_of_payload(PayloadView::ResponseMeta { id, status, headers })
            matches FrameView::ResponseMeta { request_id: i2, status: s2, headers: h2 }
            && i2 == id && s2 == status && h2 == headers,
{
}

impl TunnelMessage {
    /// Converts a domain frame into the protobuf message that carries it.
    pub fn from_frame(frame: TunnelFrame) -> (m: TunnelMessage)
        ensures
            m.payload matches Some(p) && p@ == payload_of_frame(frame@),
            match frame {
                TunnelFrame::Hello { assigned_port } => m.payload matches Some(Payload::Hello(h))
                    && h.port == assigned_port as u32,
                TunnelFrame::Inbound(req) => m.payload matches Some(Payload::Request(r))
                    && r.id@ == req.id.0@ && r.method@ == req.method@ && r.path@ == req.path@
                    && r.query@ == req.query@ && r.headers@ == req.headers@
                    && r.body@ == bytes_contents(req.body),
                TunnelFrame::ResponseMeta { request_id, status, headers } => m.payload matches Some(
                    Payload::ResponseMeta(x),
                ) && x.id@ == request_id.0@ && x.status == status && x.headers@ == headers@,
                TunnelFrame::ResponseChunk { request_id, data } => m.payload matches Some(
                    Payload::ResponseChunk(x),
                ) && x.id@ == request_id.0@ && x.data@ == bytes_contents(data),
                TunnelFrame::ResponseEnd { request_id } => m.payload matches Some(Payload::ResponseEnd(x))
                    && x.id@ == request_id.0@,
                TunnelFrame::Heartbeat => m.payload matches Some(Payload::Heartbeat(_)),
                TunnelFrame::Error(msg) => m.payload matches Some(Payload::Error(e)) && e.message@ == msg@,
            },
    {
        let payload = match frame {
            TunnelFrame::Hello { assigned_port } => Payload::Hello(Hello { port: assigned_port as u32 }),
            TunnelFrame::Inbound(req) => {
                let body = bytes_to_vec(&req.body);
                Payload::Request(InboundRequest {
                    id: req.id.0,
                    method: req.method,
                    path: req.path,
                    query: req.query,
                    headers: req.headers,
                    body,
                })
            },
            TunnelFrame::ResponseMeta { request_id, status, headers } => Payload::ResponseMeta(
                ResponseMeta { id: request_id.0, status, headers },
            ),
            TunnelFrame::ResponseChunk { request_id, data } => {
                let data = bytes_to_vec(&data);
                Payload::ResponseChunk(ResponseChunk { id: request_id.0, data })
            },
            TunnelFrame::ResponseEnd { request_id } => Payload::ResponseEnd(
                ResponseEnd { id: request_id.0 },
            ),
            TunnelFrame::Heartbeat => Payload::Heartbeat(Heartbeat {}),
            TunnelFrame::Error(msg) => Payload::Error(ErrorFrame { message: msg }),
        };
        TunnelMessage { payload: Some(payload) }
    }
}

impl TunnelFrame {
    /// Reads a protobuf message as a domain frame; a message without payload is an error.
    pub fn from_message(msg: TunnelMessage) -> (r: Result<TunnelFrame, ProtoConvertError>)
        ensures
            match r {
                Ok(f) => msg.payload matches Some(p) && f@ == frame_of_payload(p@),
                Err(e) => e == ProtoConvertError::EmptyPayload && msg.payload is None,
            },
            match msg.payload {
                None => r is Err,
                Some(Payload::Hello(h)) => r matches Ok(TunnelFrame::Hello { assigned_port })
                    && assigned_port == h.port as u16,
                Some(Payload::Request(x)) => r matches Ok(TunnelFrame::Inbound(req))
                    && req.id.0@ == x.id@ && req.method@ == x.method@ && req.path@ == x.path@
                    && req.query@ == x.query@ && req.headers@ == x.headers@
                    && bytes_contents(req.body) == x.body@,
                Some(Payload::ResponseMeta(x)) => r matches Ok(TunnelFrame::ResponseMeta { request_id, status, headers })
                    && request_id.0@ == x.id@ && status == x.status && headers@ == x.headers@,
                Some(Payload::ResponseChunk(x)) => r matches Ok(TunnelFrame::ResponseChunk { request_id, data })
                    && request_id.0@ == x.id@ && bytes_contents(data) == x.data@,
                Some(Payload::ResponseEnd(x)) => r matches Ok(TunnelFrame::ResponseEnd { request_id })
                    && request_id.0@ == x.id@,
                Some(Payload::Heartbeat(_)) => r matches Ok(TunnelFrame::Heartbeat),
                Some(Payload::Error(x)) => r matches Ok(TunnelFrame::Error(m)) && m@ == x.message@,
            },
    {
        let payload = match msg.payload {
            Some(p) => p,
            None => {
                return Err(ProtoConvertError::EmptyPayload);
            },
        };
        match payload {
            Payload::Hello(h) => Ok(TunnelFrame::Hello { assigned_port: h.port as u16 }),
            Payload::Request(r) => {
                let body = bytes_from_vec(r.body);
                Ok(
                    TunnelFrame::Inbound(
                        DomainRequest {
                            id: RequestId(r.id),
                            method: r.method,
                            path: r.path,
                            query: r.query,
                            headers: r.headers,
                            body,
                        },
                    ),
                )
            },
            Payload::ResponseMeta(m) => Ok(
                TunnelFrame::ResponseMeta {
                    request_id: RequestId(m.id),
                    status: m.status,
                    headers: m.headers,
                },
            ),
            Payload::ResponseChunk(c) => {
                let data = bytes_from_vec(c.data);
                Ok(TunnelFrame::ResponseChunk { request_id: RequestId(c.id), data })
            },
            Payload::ResponseEnd(e) => Ok(TunnelFrame::ResponseEnd { request_id: RequestId(e.id) }),
            Payload::Heartbeat(_) => Ok(TunnelFrame::Heartbeat),
            Payload::Error(e) => Ok(TunnelFrame::Error(e.message)),
        }
    }
}

impl ServiceEntry {
    /// The listing entry of the agent on `port` registered under `namespace`.
    pub fn from_parts(port: u16, namespace: &str, connected_at: u64) -> (e: ServiceEntry)
        ensures
            e.service@ == namespace@,
            e.port == port as u32,
            e.connected_at == connected_at,
    {
        ServiceEntry { service: namespace.to_owned(), port: port as u32, connected_at }
    }
}

impl ServiceInfo {
    /// Reads a listing entry (a port keeps its low 16 bits).
    pub fn from_entry(e: ServiceEntry) -> (info: ServiceInfo)
        ensures
            info.namespace@ == e.service@,
            info.port == e.port as u16,
            info.connected_at == e.connected_at,
    {
        ServiceInfo { namespace: e.service, port: e.port as u16, connected_at: e.connected_at }
    }
}

} // verus!
