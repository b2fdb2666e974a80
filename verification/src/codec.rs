//! Length-prefixed frame codec.
//!
//! Wire format per frame: a 4-byte big-endian length, then that many payload bytes
//! (the payload is a JSON document, which the caller encodes and decodes).
use vstd::prelude::*;
use bytes::{Bytes, BytesMut};
use crate::buffer::{
    be_u32_value, bytes_as_slice, bytes_contents, bytes_mut_advance, bytes_mut_byte,
    bytes_mut_contents, bytes_mut_extend, bytes_mut_freeze, bytes_mut_len, bytes_mut_new,
    bytes_mut_put_u32, bytes_mut_split_to, bytes_mut_with_capacity, u32_be_bytes,
};

verus! {

/// Safety cap on the declared payload length of a frame (16 MiB).
pub const MAX_FRAME_LEN: u32 = 16777216u32;

/// Errors of the frame codec.
#[derive(Debug)]
pub enum CodecError {
    /// A frame header declared a payload longer than `MAX_FRAME_LEN`.
    FrameTooLarge(u32),
    /// The payload was not a valid JSON frame (raised by the caller that decodes it).
    Json(String),
}

/// The bytes of one frame carrying `payload`.
pub open spec fn frame_bytes(payload: Seq<u8>) -> Seq<u8> {
    u32_be_bytes(payload.len() as u32) + payload
}

/// What the next call of `next_frame` yields on a buffer holding `buf`.
pub open spec fn next_frame_spec(buf: Seq<u8>) -> Option<Result<Seq<u8>, u32>> {
    if buf.len() < 4 {
        None
    } else if be_u32_value(buf) > MAX_FRAME_LEN {
        Some(Err(be_u32_value(buf) as u32))
    } else if buf.len() < 4 + be_u32_value(buf) {
        None
    } else {
        Some(Ok(buf.subrange(4, 4 + be_u32_value(buf))))
    }
}

/// What the buffer holds after that call: a complete frame is consumed, nothing else is.
pub open spec fn rest_after_next(buf: Seq<u8>) -> Seq<u8> {
    match next_frame_spec(buf) {
        Some(Ok(p)) => buf.skip(4 + p.len() as int),
        _ => buf,
    }
}

/// Successive frames of `buf`, up to the first incomplete or oversized one:
/// the payloads, the declared length that stopped it (if any), and the bytes left.
pub open spec fn drain_spec(buf: Seq<u8>) -> (Seq<Seq<u8>>, Option<u32>, Seq<u8>)
    decreases buf.len(),
{
    match next_frame_spec(buf) {
        None => (Seq::empty(), None, buf),
        Some(Err(n)) => (Seq::empty(), Some(n), buf),
        Some(Ok(p)) => {
            if 4 + p.len() <= buf.len() {
                let rest = drain_spec(buf.skip(4 + p.len() as int));
                (seq![p] + rest.0, rest.1, rest.2)
            } else {
                (Seq::empty(), None, buf)
            }
        },
    }
}

/// Decoding the value of four big-endian bytes gives back the number.
pub proof fn lemma_be_u32_roundtrip(n: u32)
    ensures
        be_u32_value(u32_be_bytes(n)) == n,
{
    let b = u32_be_bytes(n);
    let a = n / 0x100_0000;
    let bb = (n / 0x1_0000) % 0x100;
    let c = (n / 0x100) % 0x100;
    let d = n % 0x100;
    assert(n == a * 0x100_0000 + bb * 0x1_0000 + c * 0x100 + d) by (nonlinear_arith)
        requires
            a == n / 0x100_0000,
            bb == (n / 0x1_0000) % 0x100,
            c == (n / 0x100) % 0x100,
            d == n % 0x100,
            0 <= n < 0x1_0000_0000,
    ;
    assert(0 <= a < 0x100 && 0 <= bb < 0x100 && 0 <= c < 0x100 && 0 <= d < 0x100);
    assert(b[0] == a && b[1] == bb && b[2] == c && b[3] == d);
}

/// Framing law: a frame followed by anything decodes to its payload and leaves the rest.
pub proof fn lemma_decode_encoded(payload: Seq<u8>, rest: Seq<u8>)
    requires
        payload.len() <= MAX_FRAME_LEN,
    ensures
        next_frame_spec(frame_bytes(payload) + rest) == Some(Ok::<Seq<u8>, u32>(payload)),
        rest_after_next(frame_bytes(payload) + rest) == rest,
{
    let buf = frame_bytes(payload) + rest;
    lemma_be_u32_roundtrip(payload.len() as u32);
    assert(be_u32_value(buf) == payload.len()) by {
        assert(buf[0] == frame_bytes(payload)[0]);
        assert(buf[1] == frame_bytes(payload)[1]);
        assert(buf[2] == frame_bytes(payload)[2]);
        assert(buf[3] == frame_bytes(payload)[3]);
    }
    assert(buf.subrange(4, 4 + payload.len() as int) =~= payload);
    assert(buf.skip(4 + payload.len() as int) =~= rest);
}

/// A frame that has only partly arrived yields nothing yet.
pub proof fn lemma_partial_frame_waits(payload: Seq<u8>, k: int)
    requires
        payload.len() <= MAX_FRAME_LEN,
        0 <= k < frame_bytes(payload).len(),
    ensures
        next_frame_spec(frame_bytes(payload).take(k)) is None,
        rest_after_next(frame_bytes(payload).take(k)) == frame_bytes(payload).take(k),
{
    let part = frame_bytes(payload).take(k);
    if k >= 4 {
        lemma_be_u32_roundtrip(payload.len() as u32);
        assert(be_u32_value(part) == be_u32_value(frame_bytes(payload)));
    }
}

/// Two frames fed together come out one after the other, in order.
pub proof fn lemma_two_frames(a: Seq<u8>, b: Seq<u8>)
    requires
        a.len() <= MAX_FRAME_LEN,
        b.len() <= MAX_FRAME_LEN,
    ensures
        drain_spec(frame_bytes(a) + frame_bytes(b)) == (seq![a, b], None::<u32>, Seq::<u8>::empty()),
{
    let buf = frame_bytes(a) + frame_bytes(b);
    assert(buf =~= frame_bytes(a) + (frame_bytes(b) + Seq::<u8>::empty()));
    lemma_decode_encoded(a, frame_bytes(b) + Seq::<u8>::empty());
    let rest = buf.skip(4 + a.len() as int);
    assert(rest =~= frame_bytes(b) + Seq::<u8>::empty());
    lemma_decode_encoded(b, Seq::<u8>::empty());
    let rest2 = rest.skip(4 + b.len() as int);
    assert(rest2 =~= Seq::<u8>::empty());
    assert(next_frame_spec(rest2) is None);
    assert(drain_spec(rest2) == (Seq::<Seq<u8>>::empty(), None::<u32>, rest2));
    assert(drain_spec(rest).0 =~= seq![b]);
    assert(drain_spec(buf).0 =~= seq![a, b]);
}


/// The bytes of successive frames carrying `payloads`, in order.
pub open spec fn frames_of(payloads: Seq<Seq<u8>>) -> Seq<u8>
    decreases payloads.len(),
{
    if payloads.len() == 0 {
        Seq::empty()
    } else {
        frame_bytes(payloads[0]) + frames_of(payloads.drop_first())
    }
}

/// Every payload fits the frame size cap.
pub open spec fn all_fit(payloads: Seq<Seq<u8>>) -> bool {
    forall|i: int| 0 <= i < payloads.len() ==> (#[trigger] payloads[i]).len() <= MAX_FRAME_LEN
}

/// The chunks one after the other.
pub open spec fn flatten(chunks: Seq<Seq<u8>>) -> Seq<u8>
    decreases chunks.len(),
{
    if chunks.len() == 0 {
        Seq::empty()
    } else {
        chunks[0] + flatten(chunks.drop_first())
    }
}

/// Feeding `chunks` one by one after `buf`, and draining the decoder after each: the
/// payloads handed out and the bytes left buffered.
pub open spec fn feed_and_drain(buf: Seq<u8>, chunks: Seq<Seq<u8>>) -> (Seq<Seq<u8>>, Seq<u8>)
    decreases chunks.len(),
{
    if chunks.len() == 0 {
        (Seq::empty(), buf)
    } else {
        let d = drain_spec(buf + chunks[0]);
        let next = feed_and_drain(d.2, chunks.drop_first());
        (d.0 + next.0, next.1)
    }
}

/// How many whole frames of `payloads` the first `k` bytes of their frames hold.
spec fn complete_count(payloads: Seq<Seq<u8>>, k: int) -> nat
    decreases payloads.len(),
{
    if payloads.len() == 0 || k < frame_bytes(payloads[0]).len() {
        0
    } else {
        1 + complete_count(payloads.drop_first(), k - frame_bytes(payloads[0]).len())
    }
}

/// Whole frames followed by bytes that hold no complete frame drain to exactly those
/// payloads, leaving the bytes.
proof fn lemma_drain_frames(payloads: Seq<Seq<u8>>, r: Seq<u8>)
    requires
        all_fit(payloads),
        next_frame_spec(r) is None,
    ensures
        drain_spec(frames_of(payloads) + r) == (payloads, None::<u32>, r),
    decreases payloads.len(),
{
    if payloads.len() == 0 {
        assert(frames_of(payloads) + r =~= r);
        assert(payloads =~= Seq::<Seq<u8>>::empty());
    } else {
        let q = payloads[0];
        let tail = payloads.drop_first();
        assert(all_fit(tail)) by {
            assert forall|i: int| 0 <= i < tail.len() implies (#[trigger] tail[i]).len() <= MAX_FRAME_LEN by {
                assert(tail[i] == payloads[i + 1]);
            }
        }
        let buf = frames_of(payloads) + r;
        assert(buf =~= frame_bytes(q) + (frames_of(tail) + r));
        lemma_decode_encoded(q, frames_of(tail) + r);
        lemma_drain_frames(tail, r);
        assert(buf.skip(4 + q.len() as int) =~= frames_of(tail) + r);
        assert(seq![q] + tail =~= payloads);
    }
}

/// The first `k` bytes of the frames of `payloads` are some whole frames followed by bytes
/// that hold no complete frame.
proof fn lemma_complete_prefix(payloads: Seq<Seq<u8>>, k: int)
    requires
        all_fit(payloads),
        0 <= k <= frames_of(payloads).len(),
    ensures
        complete_count(payloads, k) <= payloads.len(),
        frames_of(payloads.take(complete_count(payloads, k) as int)).len() <= k,
        next_frame_spec(
            frames_of(payloads.skip(complete_count(payloads, k) as int)).take(
                k - frames_of(payloads.take(complete_count(payloads, k) as int)).len(),
            ),
        ) is None,
        frames_of(payloads) == frames_of(payloads.take(complete_count(payloads, k) as int))
            + frames_of(payloads.skip(complete_count(payloads, k) as int)),
    decreases payloads.len(),
{
    let m = complete_count(payloads, k) as int;
    if payloads.len() == 0 {
        assert(payloads.take(0) =~= payloads);
        assert(payloads.skip(0) =~= payloads);
        assert(frames_of(payloads).take(0) =~= Seq::<u8>::empty());
    } else if k < frame_bytes(payloads[0]).len() {
        assert(m == 0);
        assert(payloads.take(0) =~= Seq::<Seq<u8>>::empty());
        assert(payloads.skip(0) =~= payloads);
        assert(frames_of(payloads.take(0)) =~= Seq::<u8>::empty());
        assert(frames_of(payloads).take(k) =~= frame_bytes(payloads[0]).take(k));
        lemma_partial_frame_waits(payloads[0], k);
        assert(frames_of(payloads) =~= Seq::<u8>::empty() + frames_of(payloads));
    } else {
        let q = payloads[0];
        let tail = payloads.drop_first();
        let k2 = k - frame_bytes(q).len();
        assert(all_fit(tail)) by {
            assert forall|i: int| 0 <= i < tail.len() implies (#[trigger] tail[i]).len() <= MAX_FRAME_LEN by {
                assert(tail[i] == payloads[i + 1]);
            }
        }
        lemma_complete_prefix(tail, k2);
        let m2 = complete_count(tail, k2) as int;
        assert(m == 1 + m2);
        let front = payloads.take(m);
        assert(front.len() > 0);
        assert(front[0] == q);
        assert(front.drop_first() =~= tail.take(m2));
        assert(frames_of(front) == frame_bytes(q) + frames_of(tail.take(m2)));
        assert(payloads.skip(m) =~= tail.skip(m2));
        assert(frames_of(payloads) =~= frames_of(front) + frames_of(payloads.skip(m)));
    }
}

proof fn lemma_frames_nonempty_decode(payloads: Seq<Seq<u8>>)
    requires
        all_fit(payloads),
        payloads.len() > 0,
    ensures
        next_frame_spec(frames_of(payloads)) is Some,
{
    lemma_decode_encoded(payloads[0], frames_of(payloads.drop_first()));
}

proof fn lemma_all_fit_split(payloads: Seq<Seq<u8>>, m: int)
    requires
        all_fit(payloads),
        0 <= m <= payloads.len(),
    ensures
        all_fit(payloads.take(m)),
        all_fit(payloads.skip(m)),
{
    assert forall|i: int| 0 <= i < payloads.take(m).len() implies (#[trigger] payloads.take(m)[i]).len()
        <= MAX_FRAME_LEN by {
        assert(payloads.take(m)[i] == payloads[i]);
    }
    assert forall|i: int| 0 <= i < payloads.skip(m).len() implies (#[trigger] payloads.skip(m)[i]).len()
        <= MAX_FRAME_LEN by {
        assert(payloads.skip(m)[i] == payloads[i + m]);
    }
}

#[verifier::rlimit(40)]
proof fn lemma_feed_in_chunks(buf: Seq<u8>, chunks: Seq<Seq<u8>>, payloads: Seq<Seq<u8>>)
    requires
        all_fit(payloads),
        next_frame_spec(buf) is None,
        buf + flatten(chunks) == frames_of(payloads),
    ensures
        feed_and_drain(buf, chunks) == (payloads, Seq::<u8>::empty()),
    decreases chunks.len(),
{
    if chunks.len() == 0 {
        assert(buf + flatten(chunks) =~= buf);
        if payloads.len() > 0 {
            lemma_frames_nonempty_decode(payloads);
        }
        assert(payloads =~= Seq::<Seq<u8>>::empty());
        assert(buf =~= Seq::<u8>::empty());
    } else {
        let c = chunks[0];
        let rest = chunks.drop_first();
        let b = buf + c;
        let all = frames_of(payloads);
        assert(all =~= b + flatten(rest));
        let k = b.len() as int;
        assert(all.take(k) =~= b);
        lemma_complete_prefix(payloads, k);
        let m = complete_count(payloads, k) as int;
        let front = frames_of(payloads.take(m));
        let back = frames_of(payloads.skip(m));
        let j = k - front.len();
        let r = back.take(j);
        assert(all =~= front + back);
        assert(b =~= front + r);
        lemma_all_fit_split(payloads, m);
        lemma_drain_frames(payloads.take(m), r);
        assert(back =~= all.skip(front.len() as int));
        assert(all =~= front + (r + flatten(rest)));
        assert(all.skip(front.len() as int) =~= r + flatten(rest));
        assert(r + flatten(rest) =~= back);
        lemma_feed_in_chunks(r, rest, payloads.skip(m));
        assert(payloads.take(m) + payloads.skip(m) =~= payloads);
    }
}

/// Decoding law over any chunking: however the frames of `payloads` are split into
/// chunks, feeding the chunks one by one and draining after each hands out exactly the
/// payloads, in order, each once, and leaves nothing buffered.
pub proof fn lemma_any_chunking(payloads: Seq<Seq<u8>>, chunks: Seq<Seq<u8>>)
    requires
        all_fit(payloads),
        flatten(chunks) == frames_of(payloads),
    ensures
        feed_and_drain(Seq::empty(), chunks) == (payloads, Seq::<u8>::empty()),
{
    assert(Seq::<u8>::empty() + flatten(chunks) =~= flatten(chunks));
    lemma_feed_in_chunks(Seq::empty(), chunks, payloads);
}

/// Frames a payload: its length as a 4-byte big-endian number, then the payload.
pub fn encode_frame(payload: &[u8]) -> (framed: Bytes)
    requires
        payload@.len() <= u32::MAX,
        payload@.len() + 4 <= isize::MAX,
    ensures
        bytes_contents(framed) == frame_bytes(payload@),
{
    let len: u32 = payload.len() as u32;
    let mut buf = bytes_mut_with_capacity(4 + payload.len());
    bytes_mut_put_u32(&mut buf, len);
    bytes_mut_extend(&mut buf, payload);
    bytes_mut_freeze(buf)
}

/// Stateful decoder: buffers incoming bytes and yields complete frames.
///
/// Feed chunks of bytes as they arrive from the stream; call `next_frame` after
/// each feed to drain any complete frames.
pub struct FrameDecoder {
    buf: BytesMut,
}

impl View for FrameDecoder {
    type V = Seq<u8>;

    /// The bytes buffered and not yet handed out.
    closed spec fn view(&self) -> Seq<u8> {
        bytes_mut_contents(self.buf)
    }
}

impl FrameDecoder {
    /// A decoder with nothing buffered.
    pub fn new() -> (d: Self)
        ensures
            d@ == Seq::<u8>::empty(),
    {
        FrameDecoder { buf: bytes_mut_new() }
    }

    /// How many bytes are buffered and not yet handed out.
    pub fn buffered(&self) -> (n: usize)
        ensures
            n == self@.len(),
    {
        bytes_mut_len(&self.buf)
    }

    /// Appends a chunk of received bytes to the buffer.
    pub fn feed(&mut self, chunk: Bytes)
        requires
            old(self)@.len() + bytes_contents(chunk).len() <= isize::MAX,
        ensures
            final(self)@ == old(self)@ + bytes_contents(chunk),
    {
        let s = bytes_as_slice(&chunk);
        bytes_mut_extend(&mut self.buf, s);
    }

    /// Returns the next complete frame's payload if enough bytes have been buffered.
    ///
    /// `None` while the header or the payload is incomplete; `FrameTooLarge` (leaving
    /// the buffer as it is) when the header declares more than `MAX_FRAME_LEN` bytes.
    pub fn next_frame(&mut self) -> (r: Option<Result<BytesMut, CodecError>>)
        ensures
            match r {
                None => next_frame_spec(old(self)@) is None,
                Some(Ok(p)) => next_frame_spec(old(self)@) == Some(
                    Ok::<Seq<u8>, u32>(bytes_mut_contents(p)),
                ),
                Some(Err(e)) => e matches CodecError::FrameTooLarge(n) && next_frame_spec(old(self)@)
                    == Some(Err::<Seq<u8>, u32>(n)),
            },
            final(self)@ == rest_after_next(old(self)@),
    {
        let n = bytes_mut_len(&self.buf);
        if n < 4 {
            return None;
        }
        let b0 = bytes_mut_byte(&self.buf, 0);
        let b1 = bytes_mut_byte(&self.buf, 1);
        let b2 = bytes_mut_byte(&self.buf, 2);
        let b3 = bytes_mut_byte(&self.buf, 3);
        let len: u32 = (b0 as u32) * 0x100_0000 + (b1 as u32) * 0x1_0000 + (b2 as u32) * 0x100
            + (b3 as u32);
        if len > MAX_FRAME_LEN {
            return Some(Err(CodecError::FrameTooLarge(len)));
        }
        let total: usize = 4 + len as usize;
        if n < total {
            return None;
        }
        bytes_mut_advance(&mut self.buf, 4);
        let payload = bytes_mut_split_to(&mut self.buf, len as usize);
        proof {
            let old_buf = old(self)@;
            assert(bytes_mut_contents(payload) =~= old_buf.subrange(4, 4 + len));
            assert(self@ =~= old_buf.skip(4 + len));
        }
        Some(Ok(payload))
    }

    /// Takes every complete frame out of the buffer, in order, stopping at the first
    /// incomplete frame or at a header that declares a frame over the size cap.
    pub fn drain(&mut self) -> (r: (Vec<BytesMut>, Option<CodecError>))
        ensures
            r.0@.len() == drain_spec(old(self)@).0.len(),
            forall|i: int|
                0 <= i < r.0@.len() ==> bytes_mut_contents(#[trigger] r.0@[i]) == drain_spec(
                    old(self)@,
                ).0[i],
            match r.1 {
                None => drain_spec(old(self)@).1 is None,
                Some(e) => e matches CodecError::FrameTooLarge(n) && drain_spec(old(self)@).1
                    == Some(n),
            },
            final(self)@ == drain_spec(old(self)@).2,
    {
        let mut frames: Vec<BytesMut> = Vec::new();
        let ghost start = self@;
        let ghost mut got: Seq<Seq<u8>> = Seq::empty();
        loop
            invariant
                start == old(self)@,
                frames@.len() == got.len(),
                forall|i: int| 0 <= i < got.len() ==> bytes_mut_contents(#[trigger] frames@[i]) == got[i],
                drain_spec(start).1 == drain_spec(self@).1,
                drain_spec(start).2 == drain_spec(self@).2,
                drain_spec(start).0 == got + drain_spec(self@).0,
            decreases self@.len(),
        {
            let ghost before = self@;
            match self.next_frame() {
                None => {
                    assert(got + drain_spec(before).0 =~= got);
                    return (frames, None);
                },
                Some(Err(e)) => {
                    assert(got + drain_spec(before).0 =~= got);
                    return (frames, Some(e));
                },
                Some(Ok(p)) => {
                    proof {
                        let rest = drain_spec(self@);
                        assert(drain_spec(before).0 =~= seq![bytes_mut_contents(p)] + rest.0);
                        got = got.push(bytes_mut_contents(p));
                        assert(got + rest.0 =~= (got.drop_last()) + (seq![bytes_mut_contents(p)] + rest.0));
                    }
                    frames.push(p);
                },
            }
        }
    }
}

} // verus!
