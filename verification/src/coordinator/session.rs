//! Per-agent relay decisions: what to do with each frame that arrives from an agent's
//! stream, and which requests currently have an open response body.
use vstd::prelude::*;
use crate::strings::str_eq;
use crate::domain::types::{FrameView, TunnelFrame};

verus! {

/// What the relay loop must do with one frame from the agent.
#[derive(Debug)]
pub enum RelayAction {
    /// Open a body stream for the request and hand the response head to its waiting caller.
    DeliverHead(String),
    /// Send the chunk on the open body stream of the request.
    ForwardChunk(String),
    /// The chunk belongs to no open body: drop it.
    DropChunk,
    /// Close the body stream of the request.
    CloseBody(String),
    /// Nothing to do (heartbeat).
    Ignore,
    /// The agent reported an error.
    ReportError(String),
    /// A frame that an agent never sends (hello or inbound request).
    Unexpected,
}

/// A `RelayAction` with its texts as characters.
pub enum RelayActionView {
    DeliverHead(Seq<char>),
    ForwardChunk(Seq<char>),
    DropChunk,
    CloseBody(Seq<char>),
    Ignore,
    ReportError(Seq<char>),
    Unexpected,
}

impl View for RelayAction {
    type V = RelayActionView;

    open spec fn view(&self) -> RelayActionView {
        match self {
            RelayAction::DeliverHead(id) => RelayActionView::DeliverHead(id@),
            RelayAction::ForwardChunk(id) => RelayActionView::ForwardChunk(id@),
            RelayAction::DropChunk => RelayActionView::DropChunk,
            RelayAction::CloseBody(id) => RelayActionView::CloseBody(id@),
            RelayAction::Ignore => RelayActionView::Ignore,
            RelayAction::ReportError(m) => RelayActionView::ReportError(m@),
            RelayAction::Unexpected => RelayActionView::Unexpected,
        }
    }
}

/// The action owed to `frame` while the bodies in `open` are open.
pub open spec fn relay_action(open: Set<Seq<char>>, frame: FrameView) -> RelayActionView {
    match frame {
        FrameView::ResponseMeta { request_id, .. } => RelayActionView::DeliverHead(request_id),
        FrameView::ResponseChunk { request_id, .. } => {
            if open.contains(request_id) {
                RelayActionView::ForwardChunk(request_id)
            } else {
                RelayActionView::DropChunk
            }
        },
        FrameView::ResponseEnd { request_id } => RelayActionView::CloseBody(request_id),
        FrameView::Heartbeat => RelayActionView::Ignore,
        FrameView::Error(m) => RelayActionView::ReportError(m),
        _ => RelayActionView::Unexpected,
    }
}

/// The open bodies after `frame` arrives while the bodies in `open` are open.
pub open spec fn next_open(open: Set<Seq<char>>, frame: FrameView) -> Set<Seq<char>> {
    match frame {
        FrameView::ResponseMeta { request_id, .. } => open.insert(request_id),
        FrameView::ResponseEnd { request_id } => open.remove(request_id),
        _ => open,
    }
}

/// The requests of one agent whose response bodies are being streamed.
pub struct RelayState {
    open: Vec<String>,
}

impl RelayState {
    spec fn ids(&self) -> Seq<Seq<char>> {
        self.open@.map_values(|s: String| s@)
    }

    /// The ids of the requests whose body stream is open.
    pub closed spec fn open_bodies(&self) -> Set<Seq<char>> {
        self.ids().to_set()
    }

    /// No request id is held twice.
    pub closed spec fn wf(&self) -> bool {
        self.ids().no_duplicates()
    }

    /// A relay with no open body.
    pub fn new() -> (r: Self)
        ensures
            r.wf(),
            r.open_bodies() == Set::<Seq<char>>::empty(),
    {
        let r = RelayState { open: Vec::new() };
        assert(r.ids().to_set() =~= Set::<Seq<char>>::empty());
        r
    }

    fn position(&self, id: &str) -> (r: Option<usize>)
        ensures
            match r {
                Some(i) => i < self.open@.len() && self.ids()[i as int] == id@,
                None => !self.ids().contains(id@),
            },
    {
        let mut i: usize = 0;
        while i < self.open.len()
            invariant
                0 <= i <= self.open@.len(),
                forall|j: int| 0 <= j < i ==> self.ids()[j] != id@,
            decreases self.open@.len() - i,
        {
            if str_eq(self.open[i].as_str(), id) {
                return Some(i);
            }
            i = i + 1;
        }
        None
    }

    /// Whether the body of request `id` is open.
    pub fn is_open(&self, id: &str) -> (r: bool)
        ensures
            r == self.open_bodies().contains(id@),
    {
        self.position(id).is_some()
    }

    fn open_body(&mut self, id: &str)
        requires
            old(self).wf(),
        ensures
            final(self).wf(),
            final(self).open_bodies() == old(self).open_bodies().insert(id@),
    {
        match self.position(id) {
            Some(_) => {
                assert(self.ids().to_set().insert(id@) =~= self.ids().to_set());
            },
            None => {
                let ghost before = self.ids();
                self.open.push(id.to_owned());
                assert(self.ids() =~= before.push(id@));
                proof {
                    before.lemma_push_to_set_commute(id@);
                    assert forall|a: int, b: int| 0 <= a < b < self.ids().len() implies
                        self.ids()[a] != self.ids()[b] by {
                        if b == before.len() {
                            assert(before.contains(before[a]));
                        }
                    }
                }
            },
        }
    }

    /// Forget the body of request `id`: its stream was closed or its reader went away.
    pub fn close_body(&mut self, id: &str)
        requires
            old(self).wf(),
        ensures
            final(self).wf(),
            final(self).open_bodies() == old(self).open_bodies().remove(id@),
    {
        match self.position(id) {
            Some(i) => {
                let ghost before = self.ids();
                self.open.remove(i);
                assert(self.ids() =~= before.remove(i as int));
                proof {
                    assert forall|x: Seq<char>| #[trigger] self.ids().to_set().contains(x) <==>
                        before.to_set().remove(id@).contains(x) by {
                        if self.ids().contains(x) {
                            let k = choose|k: int| 0 <= k < self.ids().len() && self.ids()[k] == x;
                            if k < i {
                                assert(before[k] == x);
                            } else {
                                assert(before[k + 1] == x);
                            }
                        }
                        if before.contains(x) && x != id@ {
                            let k = choose|k: int| 0 <= k < before.len() && before[k] == x;
                            if k < i {
                                assert(self.ids()[k] == x);
                            } else {
                                assert(self.ids()[k - 1] == x);
                            }
                        }
                    }
                    assert(self.ids().to_set() =~= before.to_set().remove(id@));
                }
            },
            None => {
                assert(self.ids().to_set().remove(id@) =~= self.ids().to_set());
            },
        }
    }

    /// Decide what to do with one frame from the agent, and update the open bodies.
    pub fn step(&mut self, frame: &TunnelFrame) -> (a: RelayAction)
        requires
            old(self).wf(),
        ensures
            final(self).wf(),
            final(self).open_bodies() == next_open(old(self).open_bodies(), frame@),
            a@ == relay_action(old(self).open_bodies(), frame@),
    {
        match frame {
            TunnelFrame::ResponseMeta { request_id, .. } => {
                self.open_body(request_id.0.as_str());
                RelayAction::DeliverHead(request_id.0.clone())
            },
            TunnelFrame::ResponseChunk { request_id, .. } => {
                if self.is_open(request_id.0.as_str()) {
                    RelayAction::ForwardChunk(request_id.0.clone())
                } else {
                    RelayAction::DropChunk
                }
            },
            TunnelFrame::ResponseEnd { request_id } => {
                self.close_body(request_id.0.as_str());
                RelayAction::CloseBody(request_id.0.clone())
            },
            TunnelFrame::Heartbeat => RelayAction::Ignore,
            TunnelFrame::Error(m) => RelayAction::ReportError(m.clone()),
            _ => RelayAction::Unexpected,
        }
    }
}

/// A chunk is forwarded exactly while its request's head has been delivered and its end
/// has not yet arrived: after a head the body is open, after its end it is closed, and a
/// frame about another request leaves it as it was.
pub proof fn lemma_body_lifecycle(
    open: Set<Seq<char>>,
    id: Seq<char>,
    status: u32,
    headers: Map<String, String>,
    data: Seq<u8>,
    other: FrameView,
)
    ensures
        relay_action(
            next_open(open, FrameView::ResponseMeta { request_id: id, status, headers }),
            FrameView::ResponseChunk { request_id: id, data },
        ) == RelayActionView::ForwardChunk(id),
        relay_action(
            next_open(open, FrameView::ResponseEnd { request_id: id }),
            FrameView::ResponseChunk { request_id: id, data },
        ) == RelayActionView::DropChunk,
        (match other {
            FrameView::ResponseMeta { request_id, .. } => request_id != id,
            FrameView::ResponseEnd { request_id } => request_id != id,
            _ => true,
        }) ==> (next_open(open, other).contains(id) == open.contains(id)),
{
}


/// The open bodies after the frames `frames` arrive, one by one, starting from `open`.
pub open spec fn opens_after(open: Set<Seq<char>>, frames: Seq<FrameView>) -> Set<Seq<char>>
    decreases frames.len(),
{
    if frames.len() == 0 {
        open
    } else {
        next_open(opens_after(open, frames.drop_last()), frames.last())
    }
}

/// The action owed to the `i`-th frame of `frames`, with the bodies in `open` open before
/// the first.
pub open spec fn action_at(open: Set<Seq<char>>, frames: Seq<FrameView>, i: int) -> RelayActionView {
    relay_action(opens_after(open, frames.take(i)), frames[i])
}

/// Whether a frame leaves the body of request `id` as it is: it neither opens nor closes it.
pub open spec fn keeps_body(f: FrameView, id: Seq<char>) -> bool {
    match f {
        FrameView::ResponseMeta { request_id, .. } => request_id != id,
        FrameView::ResponseEnd { request_id } => request_id != id,
        _ => true,
    }
}

proof fn lemma_body_stays(open: Set<Seq<char>>, frames: Seq<FrameView>, id: Seq<char>, from: int, i: int)
    requires
        0 <= from <= i <= frames.len(),
        forall|j: int| from <= j < i ==> keeps_body(#[trigger] frames[j], id),
    ensures
        opens_after(open, frames.take(i)).contains(id) == opens_after(open, frames.take(from)).contains(id),
    decreases i - from,
{
    if i > from {
        lemma_body_stays(open, frames, id, from, i - 1);
        assert(frames.take(i).drop_last() =~= frames.take(i - 1));
        assert(frames.take(i).last() == frames[i - 1]);
        assert(keeps_body(frames[i - 1], id));
    }
}

/// The relay of one response, seen as a stream of frames: when a head for `id` comes
/// first, its end comes last, and no frame between opens or closes `id`'s body (frames of
/// other requests may interleave), the head is delivered, every chunk of `id` between is
/// forwarded, the end closes the body, and the body is closed afterwards.
pub proof fn lemma_response_stream(open: Set<Seq<char>>, frames: Seq<FrameView>, id: Seq<char>)
    requires
        frames.len() >= 2,
        frames[0] matches FrameView::ResponseMeta { request_id, .. } && request_id == id,
        frames.last() == (FrameView::ResponseEnd { request_id: id }),
        forall|j: int| 0 < j < frames.len() - 1 ==> keeps_body(#[trigger] frames[j], id),
    ensures
        action_at(open, frames, 0) == RelayActionView::DeliverHead(id),
        forall|i: int|
            0 < i < frames.len() - 1 && (frames[i] matches FrameView::ResponseChunk { request_id, .. }
                && request_id == id) ==> #[trigger] action_at(open, frames, i) == RelayActionView::ForwardChunk(id),
        action_at(open, frames, frames.len() - 1) == RelayActionView::CloseBody(id),
        !opens_after(open, frames).contains(id),
{
    assert(frames.take(0) =~= Seq::<FrameView>::empty());
    assert(frames.take(1).drop_last() =~= frames.take(0));
    assert(opens_after(open, frames.take(1)).contains(id));
    assert forall|i: int|
        0 < i < frames.len() - 1 && (frames[i] matches FrameView::ResponseChunk { request_id, .. }
            && request_id == id) implies #[trigger] action_at(open, frames, i) == RelayActionView::ForwardChunk(id) by {
        lemma_body_stays(open, frames, id, 1, i);
    }
    let n = frames.len() as int;
    lemma_body_stays(open, frames, id, 1, n - 1);
    assert(frames.take(n) =~= frames);
    assert(frames.take(n).drop_last() =~= frames.take(n - 1));
}

/// A chunk for a request whose head has not come is dropped: while no frame has opened
/// `id`'s body since a state where it was closed, every chunk of `id` is dropped.
pub proof fn lemma_chunk_before_head_dropped(open: Set<Seq<char>>, frames: Seq<FrameView>, id: Seq<char>, i: int, d: Seq<u8>)
    requires
        !open.contains(id),
        0 <= i < frames.len(),
        frames[i] == (FrameView::ResponseChunk { request_id: id, data: d }),
        forall|j: int| 0 <= j < i ==> keeps_body(#[trigger] frames[j], id),
    ensures
        action_at(open, frames, i) == RelayActionView::DropChunk,
{
    assert(frames.take(0) =~= Seq::<FrameView>::empty());
    lemma_body_stays(open, frames, id, 0, i);
}

} // verus!
