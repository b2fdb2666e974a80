//! The first line of an agent's tunnel connection: the agent sends `<id>\n`, and the
//! tunnel server reads it byte by byte, refusing lines that grow too long.
use vstd::prelude::*;
use vstd::utf8::{decode_utf8, encode_utf8, valid_utf8};
use crate::config::TUNNEL_ID_MAX_BYTES;
use crate::strings::{trim_whitespace, trim_ws};

verus! {

/// Where reading the id line stands after one more byte.
#[derive(Debug, Clone, Copy, PartialEq, Eq, Structural)]
pub enum IdLineStep {
    /// No newline yet and the line is still short enough.
    NeedMore,
    /// The newline arrived; the bytes before it are the id.
    Complete,
    /// The line grew past the limit before its newline.
    TooLong,
}

/// The id bytes and the step after `byte` arrives with `buf` read so far.
pub open spec fn push_byte(buf: Seq<u8>, byte: u8) -> (Seq<u8>, IdLineStep) {
    if byte == 10 {
        (buf, IdLineStep::Complete)
    } else if buf.len() + 1 > TUNNEL_ID_MAX_BYTES {
        (buf.push(byte), IdLineStep::TooLong)
    } else {
        (buf.push(byte), IdLineStep::NeedMore)
    }
}

/// Feeding `input` byte by byte after `buf`, stopping at the first step that ends the line.
pub open spec fn scan_line(buf: Seq<u8>, input: Seq<u8>) -> (Seq<u8>, IdLineStep)
    decreases input.len(),
{
    if input.len() == 0 {
        (buf, IdLineStep::NeedMore)
    } else {
        let (next, step) = push_byte(buf, input[0]);
        if step == IdLineStep::NeedMore {
            scan_line(next, input.drop_first())
        } else {
            (next, step)
        }
    }
}

/// The bytes an agent sends first on a tunnel connection: its id and a newline.
pub open spec fn id_line_bytes(id: Seq<char>) -> Seq<u8> {
    encode_utf8(id).push(10)
}

/// Reads the id line of one tunnel connection.
pub struct IdLineReader {
    buf: Vec<u8>,
}

impl IdLineReader {
    /// The bytes of the id read so far.
    pub closed spec fn bytes(&self) -> Seq<u8> {
        self.buf@
    }

    /// A reader that has read nothing.
    pub fn new() -> (r: Self)
        ensures
            r.bytes() == Seq::<u8>::empty(),
    {
        IdLineReader { buf: Vec::new() }
    }

    /// Take one more byte of the line.
    pub fn push(&mut self, byte: u8) -> (r: IdLineStep)
        ensures
            (final(self).bytes(), r) == push_byte(old(self).bytes(), byte),
    {
        if byte == 10u8 {
            return IdLineStep::Complete;
        }
        self.buf.push(byte);
        if self.buf.len() > TUNNEL_ID_MAX_BYTES {
            IdLineStep::TooLong
        } else {
            IdLineStep::NeedMore
        }
    }

    /// The id that the bytes read so far name.
    pub fn id(&self) -> (id: String)
        ensures
            id@ == trim_ws(utf8_lossy_chars(self.bytes())),
            valid_utf8(self.bytes()) ==> id@ == trim_ws(decode_utf8(self.bytes())),
    {
        tunnel_id_from_bytes(self.buf.as_slice())
    }
}

/// The text of `bytes` with invalid UTF-8 replaced, as `String::from_utf8_lossy` gives it.
pub uninterp spec fn utf8_lossy_chars(bytes: Seq<u8>) -> Seq<char>;

/// `String::from_utf8_lossy`, owned. Valid UTF-8 comes back decoded as it is; what stands
/// in place of invalid sequences is only named.
#[verifier::external_body]
fn utf8_lossy(bytes: &[u8]) -> (s: String)
    ensures
        s@ == utf8_lossy_chars(bytes@),
        valid_utf8(bytes@) ==> s@ == decode_utf8(bytes@),
{
    String::from_utf8_lossy(bytes).into_owned()
}

/// The tunnel id named by the bytes of an id line: their text, without surrounding
/// whitespace.
pub fn tunnel_id_from_bytes(bytes: &[u8]) -> (id: String)
    ensures
        id@ == trim_ws(utf8_lossy_chars(bytes@)),
        valid_utf8(bytes@) ==> id@ == trim_ws(decode_utf8(bytes@)),
{
    let text = utf8_lossy(bytes);
    trim_whitespace(text.as_str()).to_owned()
}

proof fn lemma_scan_until_newline(buf: Seq<u8>, rest: Seq<u8>)
    requires
        !rest.contains(10u8),
        buf.len() + rest.len() <= TUNNEL_ID_MAX_BYTES,
    ensures
        scan_line(buf, rest.push(10u8)) == (buf + rest, IdLineStep::Complete),
    decreases rest.len(),
{
    if rest.len() == 0 {
        assert(rest.push(10u8)[0] == 10u8);
        assert(buf + rest =~= buf);
    } else {
        let input = rest.push(10u8);
        assert(input[0] == rest[0]);
        assert(rest[0] != 10u8) by {
            if rest[0] == 10u8 {
                assert(rest.contains(10u8));
            }
        }
        let tail = rest.drop_first();
        assert(input.drop_first() =~= tail.push(10u8));
        assert(!tail.contains(10u8)) by {
            if tail.contains(10u8) {
                let k = choose|k: int| 0 <= k < tail.len() && tail[k] == 10u8;
                assert(rest[k + 1] == 10u8);
            }
        }
        lemma_scan_until_newline(buf.push(rest[0]), tail);
        assert(buf.push(rest[0]) + tail =~= buf + rest);
    }
}

/// What an agent writes first on a tunnel connection is read back as its id: the line
/// completes at its newline, holding exactly the id's bytes, and the id read is the
/// agent's id without surrounding whitespace. This needs an id whose bytes hold no
/// newline and fit in the line limit.
pub proof fn lemma_id_line_roundtrip(id: Seq<char>)
    requires
        !encode_utf8(id).contains(10u8),
        encode_utf8(id).len() <= TUNNEL_ID_MAX_BYTES,
    ensures
        scan_line(Seq::empty(), id_line_bytes(id)) == (encode_utf8(id), IdLineStep::Complete),
        valid_utf8(encode_utf8(id)),
        trim_ws(decode_utf8(encode_utf8(id))) == trim_ws(id),
{
    lemma_scan_until_newline(Seq::empty(), encode_utf8(id));
    assert(Seq::<u8>::empty() + encode_utf8(id) =~= encode_utf8(id));
    vstd::utf8::encode_utf8_valid_utf8(id);
    vstd::utf8::encode_utf8_decode_utf8(id);
}


/// Reading a line never holds more than the limit: it completes or waits with at most
/// `TUNNEL_ID_MAX_BYTES` bytes, and refuses it with exactly one byte over.
pub proof fn lemma_scan_bounded(buf: Seq<u8>, input: Seq<u8>)
    requires
        buf.len() <= TUNNEL_ID_MAX_BYTES,
    ensures
        scan_line(buf, input).1 != IdLineStep::TooLong ==> scan_line(buf, input).0.len() <= TUNNEL_ID_MAX_BYTES,
        scan_line(buf, input).1 == IdLineStep::TooLong ==> scan_line(buf, input).0.len() == TUNNEL_ID_MAX_BYTES + 1,
    decreases input.len(),
{
    if input.len() > 0 {
        let (next, step) = push_byte(buf, input[0]);
        if step == IdLineStep::NeedMore {
            lemma_scan_bounded(next, input.drop_first());
        }
    }
}

/// A line whose first `TUNNEL_ID_MAX_BYTES + 1` bytes hold no newline is refused as too
/// long, whatever follows.
pub proof fn lemma_long_line_refused(buf: Seq<u8>, input: Seq<u8>)
    requires
        buf.len() <= TUNNEL_ID_MAX_BYTES,
        buf.len() + input.len() > TUNNEL_ID_MAX_BYTES,
        forall|i: int| 0 <= i < TUNNEL_ID_MAX_BYTES + 1 - buf.len() ==> #[trigger] input[i] != 10u8,
    ensures
        scan_line(buf, input).1 == IdLineStep::TooLong,
    decreases input.len(),
{
    assert(input[0] != 10u8);
    let (next, step) = push_byte(buf, input[0]);
    if step == IdLineStep::NeedMore {
        let tail = input.drop_first();
        assert forall|i: int| 0 <= i < TUNNEL_ID_MAX_BYTES + 1 - next.len() implies #[trigger] tail[i] != 10u8 by {
            assert(tail[i] == input[i + 1]);
        }
        lemma_long_line_refused(next, tail);
    }
}

} // verus!
