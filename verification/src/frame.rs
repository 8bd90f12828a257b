//! Zero-copy parsing of a length-prefixed frame: a 4-byte header whose bytes 2 and 3 hold
//! the payload length big-endian, then the payload; the frame borrows from the buffer.
use vstd::prelude::*;

verus! {

/// A parsed frame: views into the buffer it came from.
pub struct Frame<'a> {
    pub header: &'a [u8],
    pub payload: &'a [u8],
}

/// The payload length that a header announces: bytes 2 and 3, big-endian.
pub open spec fn announced_len(buf: Seq<u8>) -> int {
    buf[2] * 256 + buf[3]
}

/// Header and payload of the frame at the start of `buf`, if the buffer holds a whole one.
pub open spec fn frame_parts(buf: Seq<u8>) -> Option<(Seq<u8>, Seq<u8>)> {
    if buf.len() < 4 || buf.len() < 4 + announced_len(buf) {
        None
    } else {
        Some((buf.subrange(0, 4), buf.subrange(4, 4 + announced_len(buf))))
    }
}

/// Splits the frame at the start of `buf` into header and payload without copying; `None`
/// when the buffer is shorter than the header or than the payload it announces.
pub fn parse_frame(buf: &[u8]) -> (r: Option<Frame<'_>>)
    ensures
        r is None <==> frame_parts(buf@) is None,
        r matches Some(f) ==> frame_parts(buf@) == Some((f.header@, f.payload@)),
{
    if buf.len() < 4 {
        return None;
    }
    let payload_len = (buf[2] as usize) * 256 + buf[3] as usize;
    if buf.len() < 4 + payload_len {
        return None;
    }
    Some(Frame { header: &buf[0..4], payload: &buf[4..4 + payload_len] })
}

/// A header that announces the length of the payload after it, followed by anything,
/// parses back into that header and payload: the trailing bytes are left alone.
pub proof fn lemma_frame_roundtrip(header: Seq<u8>, payload: Seq<u8>, rest: Seq<u8>)
    requires
        header.len() == 4,
        announced_len(header) == payload.len(),
    ensures
        frame_parts(header + payload + rest) == Some((header, payload)),
{
    let buf = header + payload + rest;
    assert(buf[2] == header[2] && buf[3] == header[3]);
    assert(buf.subrange(0, 4) =~= header);
    assert(buf.subrange(4, 4 + announced_len(buf)) =~= payload);
}

} // verus!
