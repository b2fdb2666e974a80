use vstd::prelude::*;
use std::collections::HashMap;
use bytes::Bytes;
use crate::buffer::bytes_contents;

verus! {

/// Proof of knowledge of the shared secret: a Unix timestamp and its HMAC tag.
#[derive(Debug, Clone)]
pub struct AuthProof {
    pub ts: u64,
    pub tag: String,
}

/// Returned to the agent after successful registration.
#[derive(Debug, Clone)]
pub struct RegistrationInfo {
    pub id: String,
    pub url: String,
    pub tunnel_host: String,
    pub tunnel_port: u16,
}

/// Per-tunnel status entry used in the monitoring API.
#[derive(Debug, Clone)]
pub struct ServiceInfo {
    pub id: String,
    pub url: String,
    pub available_sockets: usize,
    pub total_sockets: usize,
    pub connected_at: u64,
}

/// Top-level status returned by the status endpoint.
#[derive(Debug, Clone)]
pub struct StatusInfo {
    pub tunnels: usize,
    pub uptime_secs: u64,
}

/// Server-assigned identifier of one relayed HTTP request.
#[derive(Debug, Clone)]
pub struct RequestId(pub String);

/// An HTTP request relayed from the public side to an agent.
#[derive(Debug)]
pub struct InboundRequest {
    pub id: RequestId,
    pub method: String,
    pub path: String,
    pub query: String,
    pub headers: HashMap<String, String>,
    pub body: Bytes,
}

/// One message on a tunnel stream, in either direction.
#[derive(Debug)]
pub enum TunnelFrame {
    Hello { assigned_port: u16 },
    Inbound(InboundRequest),
    ResponseMeta { request_id: RequestId, status: u32, headers: HashMap<String, String> },
    ResponseChunk { request_id: RequestId, data: Bytes },
    ResponseEnd { request_id: RequestId },
    Heartbeat,
    Error(String),
}

/// The content of a `TunnelFrame`, with text as characters and bodies as bytes.
pub enum FrameView {
    Hello { assigned_port: u16 },
    Inbound {
        id: Seq<char>,
        method: Seq<char>,
        path: Seq<char>,
        query: Seq<char>,
        headers: Map<String, String>,
        body: Seq<u8>,
    },
    ResponseMeta { request_id: Seq<char>, status: u32, headers: Map<String, String> },
    ResponseChunk { request_id: Seq<char>, data: Seq<u8> },
    ResponseEnd { request_id: Seq<char> },
    Heartbeat,
    Error(Seq<char>),
}

impl View for TunnelFrame {
    type V = FrameView;

    open spec fn view(&self) -> FrameView {
        match self {
            TunnelFrame::Hello { assigned_port } => FrameView::Hello { assigned_port: *assigned_port },
            TunnelFrame::Inbound(r) => FrameView::Inbound {
                id: r.id.0@,
                method: r.method@,
                path: r.path@,
                query: r.query@,
                headers: r.headers@,
                body: bytes_contents(r.body),
            },
            TunnelFrame::ResponseMeta { request_id, status, headers } => FrameView::ResponseMeta {
                request_id: request_id.0@,
                status: *status,
                headers: headers@,
            },
            TunnelFrame::ResponseChunk { request_id, data } => FrameView::ResponseChunk {
                request_id: request_id.0@,
                data: bytes_contents(*data),
            },
            TunnelFrame::ResponseEnd { request_id } => FrameView::ResponseEnd {
                request_id: request_id.0@,
            },
            TunnelFrame::Heartbeat => FrameView::Heartbeat,
            TunnelFrame::Error(msg) => FrameView::Error(msg@),
        }
    }
}

} // verus!
