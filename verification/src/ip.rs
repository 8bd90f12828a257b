//! Parsing of the fixed part of an IPv4 header.
use vstd::prelude::*;

verus! {

/// The fields of an IPv4 header that the example reads.
#[derive(Debug)]
pub struct IpHeader {
    pub version: u8,
    pub ihl: u8,
    pub tos: u8,
    pub total_len: u16,
    pub src: [u8; 4],
    pub dst: [u8; 4],
}

/// Why a buffer is not an IPv4 header.
#[derive(Debug, PartialEq, Eq, Structural)]
pub enum ParseError {
    /// Fewer than the 20 bytes of the fixed header.
    TooShort,
    /// The version nibble is not 4; it holds the nibble found.
    InvalidVersion(u8),
}

/// Whether `h` holds the fields of the header at the start of `buf`: version and IHL are the
/// high and low nibble of byte 0, TOS is byte 1, the total length is bytes 2 and 3
/// big-endian, the source address bytes 12 to 15 and the destination bytes 16 to 19.
pub open spec fn header_fields(buf: Seq<u8>, h: IpHeader) -> bool {
    &&& h.version == buf[0] / 16
    &&& h.ihl == buf[0] % 16
    &&& h.tos == buf[1]
    &&& h.total_len == buf[2] * 256 + buf[3]
    &&& h.src@ == buf.subrange(12, 16)
    &&& h.dst@ == buf.subrange(16, 20)
}

/// Reads an IPv4 header: `TooShort` below 20 bytes, `InvalidVersion` when the version
/// nibble is not 4, the header fields otherwise.
pub fn parse_ip_header(buf: &[u8]) -> (r: Result<IpHeader, ParseError>)
    ensures
        buf@.len() < 20 <==> r == Err::<IpHeader, ParseError>(ParseError::TooShort),
        buf@.len() >= 20 && buf@[0] / 16 != 4 <==> r == Err::<IpHeader, ParseError>(
            ParseError::InvalidVersion(buf@[0] / 16),
        ),
        r is Ok <==> buf@.len() >= 20 && buf@[0] / 16 == 4,
        r matches Ok(h) ==> header_fields(buf@, h),
        r matches Ok(h) ==> h.total_len / 256 == buf@[2] && h.total_len % 256 == buf@[3],
{
    if buf.len() < 20 {
        return Err(ParseError::TooShort);
    }
    let b0 = buf[0];
    let version = b0 >> 4;
    assert(b0 >> 4 == b0 / 16) by (bit_vector);
    if version != 4 {
        return Err(ParseError::InvalidVersion(version));
    }
    assert(b0 & 0x0F == b0 % 16) by (bit_vector);
    let h = IpHeader {
        version,
        ihl: b0 & 0x0F,
        tos: buf[1],
        total_len: (buf[2] as u16) * 256 + buf[3] as u16,
        src: [buf[12], buf[13], buf[14], buf[15]],
        dst: [buf[16], buf[17], buf[18], buf[19]],
    };
    assert(h.src@ =~= buf@.subrange(12, 16));
    assert(h.dst@ =~= buf@.subrange(16, 20));
    Ok(h)
}

/// The header fields hold the header bytes without loss: byte 0 is the version and IHL
/// nibbles, byte 1 the TOS, bytes 2 and 3 the high and low byte of the total length, and bytes
/// 12 to 19 the two addresses. So two buffers whose headers parse to the same fields agree on
/// all those bytes, and every total length from 0 to 65535 can be read.
pub proof fn lemma_header_keeps_bytes(buf: Seq<u8>, h: IpHeader)
    requires
        buf.len() >= 20,
        header_fields(buf, h),
    ensures
        buf[0] == h.version * 16 + h.ihl,
        h.ihl < 16,
        buf[1] == h.tos,
        buf[2] == h.total_len / 256,
        buf[3] == h.total_len % 256,
        forall|i: int| 0 <= i < 4 ==> buf[12 + i] == h.src@[i] && buf[16 + i] == h.dst@[i],
{
}

/// Two headers that parse to equal fields come from buffers with equal header bytes.
pub proof fn lemma_equal_fields_equal_bytes(a: Seq<u8>, b: Seq<u8>, ha: IpHeader, hb: IpHeader)
    requires
        a.len() >= 20,
        b.len() >= 20,
        header_fields(a, ha),
        header_fields(b, hb),
        ha.version == hb.version,
        ha.ihl == hb.ihl,
        ha.tos == hb.tos,
        ha.total_len == hb.total_len,
        ha.src@ == hb.src@,
        ha.dst@ == hb.dst@,
    ensures
        forall|i: int| (0 <= i < 4 || 12 <= i < 20) ==> a[i] == b[i],
{
    lemma_header_keeps_bytes(a, ha);
    lemma_header_keeps_bytes(b, hb);
    assert forall|i: int| 12 <= i < 16 implies a[i] == b[i] by {
        assert(a[12 + (i - 12)] == ha.src@[i - 12]);
        assert(b[12 + (i - 12)] == hb.src@[i - 12]);
    }
    assert forall|i: int| 16 <= i < 20 implies a[i] == b[i] by {
        assert(a[16 + (i - 16)] == ha.dst@[i - 16]);
        assert(b[16 + (i - 16)] == hb.dst@[i - 16]);
    }
}

} // verus!
