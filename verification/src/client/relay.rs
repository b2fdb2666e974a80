//! The agent's relay of inbound requests to the local service.
use vstd::prelude::*;
use crate::strings::str_eq;
use std::collections::HashMap;
use bytes::Bytes;
use crate::buffer::bytes_contents;
use crate::domain::types::{FrameView, RequestId, TunnelFrame};
use crate::strings::concat;
use crate::text::{decimal, u64_to_string};

verus! {

/// The URL of the local service for a relayed request.
pub open spec fn local_url_of(host: Seq<char>, port: u16, path: Seq<char>, query: Seq<char>) -> Seq<char> {
    let base = "http://"@ + host + ":"@ + decimal(port as nat) + path;
    if query.len() == 0 {
        base
    } else {
        base + "?"@ + query
    }
}

/// The URL of the local service for a request with `path` and `query`: `http://host:port`,
/// the path, and `?query` when the query is not empty.
pub fn local_request_url(host: &str, port: u16, path: &str, query: &str) -> (url: String)
    ensures
        url@ == local_url_of(host@, port, path@, query@),
        url@ == "http://"@ + host@ + ":"@ + decimal(port as nat) + path@ + (if query@.len() == 0 {
            Seq::<char>::empty()
        } else {
            "?"@ + query@
        }),
{
    let s = concat("http://", host);
    let s = s.concat(":");
    let p = u64_to_string(port as u64);
    let s = s.concat(p.as_str());
    let s = s.concat(path);
    if query.is_empty() {
        assert(s@ + Seq::<char>::empty() =~= s@);
        s
    } else {
        let s2 = s.concat("?");
        let r = s2.concat(query);
        assert(r@ =~= s@ + ("?"@ + query@));
        r
    }
}

/// The local URL names the configured host and port: it starts with `http://`, the host
/// follows, then `:`, then the port's decimal digits, then the request path.
pub proof fn lemma_local_url_names_host(
    host: Seq<char>,
    port: u16,
    path: Seq<char>,
    query: Seq<char>,
)
    ensures
        ({
            let url = local_url_of(host, port, path, query);
            let d = decimal(port as nat);
            let h = host.len() as int;
            let e = 8 + h + d.len();
            &&& url.subrange(0, 7) == seq!['h', 't', 't', 'p', ':', '/', '/']
            &&& url.subrange(7, 7 + h) == host
            &&& url[7 + h] == ':'
            &&& url.subrange(8 + h, e) == d
            &&& url.subrange(e, e + path.len()) == path
        }),
{
    reveal_strlit("http://");
    reveal_strlit(":");
    let url = local_url_of(host, port, path, query);
    let d = decimal(port as nat);
    let h = host.len() as int;
    let e = 8 + h + d.len();
    let base = "http://"@ + host + ":"@ + d + path;
    assert(url.subrange(0, base.len() as int) =~= base);
    assert(url.subrange(0, 7) =~= seq!['h', 't', 't', 'p', ':', '/', '/']);
    assert(url.subrange(7, 7 + h) =~= host);
    assert(url.subrange(8 + h, e) =~= d);
    assert(url.subrange(e, e + path.len()) =~= path);
}

/// The hop-by-hop response headers that are not relayed back through the tunnel.
pub open spec fn hop_by_hop(name: Seq<char>) -> bool {
    ||| name == "transfer-encoding"@
    ||| name == "connection"@
    ||| name == "keep-alive"@
    ||| name == "trailer"@
}

/// Whether a response header (name, value) is relayed.
pub open spec fn relayed(h: (String, String)) -> bool {
    !hop_by_hop(h.0@)
}

fn is_hop_by_hop(name: &str) -> (r: bool)
    ensures
        r == hop_by_hop(name@),
{
    str_eq(name, "transfer-encoding") || str_eq(name, "connection") || str_eq(name, "keep-alive")
        || str_eq(name, "trailer")
}

/// The local service's response headers that are relayed back, in their order: all but
/// the hop-by-hop ones.
pub fn relayed_headers(headers: &Vec<(String, String)>) -> (r: Vec<(String, String)>)
    ensures
        r@ == headers@.filter(|h: (String, String)| relayed(h)),
{
    let mut r: Vec<(String, String)> = Vec::new();
    let mut i: usize = 0;
    while i < headers.len()
        invariant
            0 <= i <= headers@.len(),
            r@ == headers@.take(i as int).filter(|h: (String, String)| relayed(h)),
        decreases headers@.len() - i,
    {
        proof {
            reveal(Seq::filter);
            assert(headers@.take(i + 1).drop_last() =~= headers@.take(i as int));
            assert(headers@.take(i + 1).last() == headers@[i as int]);
        }
        let (name, value) = &headers[i];
        if !is_hop_by_hop(name.as_str()) {
            r.push((name.clone(), value.clone()));
        }
        i = i + 1;
    }
    assert(headers@.take(i as int) =~= headers@);
    r
}

/// What the agent does with a frame from the server.
#[derive(Debug, Clone, Copy, PartialEq, Eq, Structural)]
pub enum ServerFrameAction {
    /// Relay the inbound request to the local service.
    Relay,
    /// Nothing to do (heartbeat).
    Ignore,
    /// Report the server's error frame.
    ReportError,
    /// A frame the server never sends after the handshake.
    Unexpected,
}

/// The action owed to a frame from the server.
pub open spec fn server_frame_action_of(f: FrameView) -> ServerFrameAction {
    match f {
        FrameView::Inbound { .. } => ServerFrameAction::Relay,
        FrameView::Heartbeat => ServerFrameAction::Ignore,
        FrameView::Error(_) => ServerFrameAction::ReportError,
        _ => ServerFrameAction::Unexpected,
    }
}

/// Decides what the agent does with a frame from the server.
pub fn server_frame_action(frame: &TunnelFrame) -> (a: ServerFrameAction)
    ensures
        a == server_frame_action_of(frame@),
{
    match frame {
        TunnelFrame::Inbound(_) => ServerFrameAction::Relay,
        TunnelFrame::Heartbeat => ServerFrameAction::Ignore,
        TunnelFrame::Error(_) => ServerFrameAction::ReportError,
        _ => ServerFrameAction::Unexpected,
    }
}


/// Where relaying one response back stands.
#[derive(Debug, Clone, Copy, PartialEq, Eq, Structural)]
pub enum ResponseStage {
    /// Nothing sent yet: the response head comes first.
    Head,
    /// The head was sent: body chunks follow, then the end.
    Body,
    /// The end was sent.
    Done,
}

/// The frames that carry one local response back through the tunnel, made in the only
/// order the protocol allows: the head (`ResponseMeta`), the body chunks, the end.
pub struct ResponseSender {
    id: String,
    stage: ResponseStage,
    sent: Ghost<Seq<FrameView>>,
}

impl ResponseSender {
    /// The request the response answers.
    pub closed spec fn id(&self) -> Seq<char> {
        self.id@
    }

    /// How far the response has got.
    pub closed spec fn stage(&self) -> ResponseStage {
        self.stage
    }

    /// The frames made so far, in order.
    pub closed spec fn sent(&self) -> Seq<FrameView> {
        self.sent@
    }

    /// A response to request `id`, with nothing sent.
    pub fn new(id: String) -> (r: Self)
        ensures
            r.id() == id@,
            r.stage() == ResponseStage::Head,
            r.sent() == Seq::<FrameView>::empty(),
    {
        ResponseSender { id, stage: ResponseStage::Head, sent: Ghost(Seq::empty()) }
    }

    /// The head frame with the local service's status and (relayed) headers; `None` once
    /// the head was made.
    pub fn head(&mut self, status: u32, headers: HashMap<String, String>) -> (f: Option<TunnelFrame>)
        ensures
            final(self).id() == old(self).id(),
            old(self).stage() == ResponseStage::Head ==> (f matches Some(fr) && {
                &&& fr@ == (FrameView::ResponseMeta { request_id: old(self).id(), status, headers: headers@ })
                &&& final(self).stage() == ResponseStage::Body
                &&& final(self).sent() == old(self).sent().push(fr@)
            }),
            old(self).stage() != ResponseStage::Head ==> f is None && final(self).stage() == old(self).stage()
                && final(self).sent() == old(self).sent(),
    {
        if self.stage != ResponseStage::Head {
            return None;
        }
        let fr = TunnelFrame::ResponseMeta { request_id: RequestId(self.id.clone()), status, headers };
        self.stage = ResponseStage::Body;
        self.sent = Ghost(self.sent@.push(fr@));
        Some(fr)
    }

    /// A body chunk frame; `None` before the head or after the end.
    pub fn chunk(&mut self, data: Bytes) -> (f: Option<TunnelFrame>)
        ensures
            final(self).id() == old(self).id(),
            final(self).stage() == old(self).stage(),
            old(self).stage() == ResponseStage::Body ==> (f matches Some(fr) && {
                &&& fr@ == (FrameView::ResponseChunk { request_id: old(self).id(), data: bytes_contents(data) })
                &&& final(self).sent() == old(self).sent().push(fr@)
            }),
            old(self).stage() != ResponseStage::Body ==> f is None && final(self).sent() == old(self).sent(),
    {
        if self.stage != ResponseStage::Body {
            return None;
        }
        let fr = TunnelFrame::ResponseChunk { request_id: RequestId(self.id.clone()), data };
        self.sent = Ghost(self.sent@.push(fr@));
        Some(fr)
    }

    /// The end frame; `None` before the head or after the end.
    pub fn end(&mut self) -> (f: Option<TunnelFrame>)
        ensures
            final(self).id() == old(self).id(),
            old(self).stage() == ResponseStage::Body ==> (f matches Some(fr) && {
                &&& fr@ == (FrameView::ResponseEnd { request_id: old(self).id() })
                &&& final(self).stage() == ResponseStage::Done
                &&& final(self).sent() == old(self).sent().push(fr@)
            }),
            old(self).stage() != ResponseStage::Body ==> f is None && final(self).stage() == old(self).stage()
                && final(self).sent() == old(self).sent(),
    {
        if self.stage != ResponseStage::Body {
            return None;
        }
        let fr = TunnelFrame::ResponseEnd { request_id: RequestId(self.id.clone()) };
        self.stage = ResponseStage::Done;
        self.sent = Ghost(self.sent@.push(fr@));
        Some(fr)
    }
}

/// The frames of a whole response to request `id`: the head, a chunk for each piece of
/// the body in order, the end.
pub open spec fn response_frames(
    id: Seq<char>,
    status: u32,
    headers: Map<String, String>,
    chunks: Seq<Seq<u8>>,
) -> Seq<FrameView> {
    seq![FrameView::ResponseMeta { request_id: id, status, headers }]
        + chunks.map_values(|d: Seq<u8>| FrameView::ResponseChunk { request_id: id, data: d })
        + seq![FrameView::ResponseEnd { request_id: id }]
}

/// A response relayed by a `ResponseSender` (head, the chunks one by one, end) goes out as
/// exactly `response_frames`: each step appends its frame, and the stages admit no other
/// order.
pub proof fn lemma_response_order(
    id: Seq<char>,
    status: u32,
    headers: Map<String, String>,
    chunks: Seq<Seq<u8>>,
    after_head: Seq<FrameView>,
    after_chunks: Seq<FrameView>,
    after_end: Seq<FrameView>,
)
    requires
        after_head == seq![FrameView::ResponseMeta { request_id: id, status, headers }],
        after_chunks == after_head + chunks.map_values(|d: Seq<u8>| FrameView::ResponseChunk { request_id: id, data: d }),
        after_end == after_chunks.push(FrameView::ResponseEnd { request_id: id }),
    ensures
        after_end == response_frames(id, status, headers, chunks),
{
    assert(after_end =~= response_frames(id, status, headers, chunks));
}

} // verus!
