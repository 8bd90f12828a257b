//! Wire encoding of fixed-width integers behind a common serialisation trait.
use vstd::prelude::*;

verus! {

/// Something that can be written onto the wire.
pub trait Serialize {
    /// The bytes that `serialize` appends.
    spec fn wire_bytes(&self) -> Seq<u8>;

    /// Appends the wire form of `self` to `buf`.
    fn serialize(&self, buf: &mut Vec<u8>)
        ensures
            final(buf)@ == old(buf)@ + self.wire_bytes(),
    ;

    /// Number of bytes of the wire form.
    fn wire_size(&self) -> (n: usize)
        ensures
            n == self.wire_bytes().len(),
    ;
}

/// A 32-bit value sent little-endian.
pub struct U32Le(pub u32);

/// A 16-bit value sent big-endian.
pub struct U16Be(pub u16);

/// The little-endian bytes of a 32-bit value.
pub open spec fn le32_bytes(x: u32) -> Seq<u8> {
    seq![
        (x % 0x100) as u8,
        (x / 0x100 % 0x100) as u8,
        (x / 0x1_0000 % 0x100) as u8,
        (x / 0x100_0000) as u8,
    ]
}

/// The big-endian bytes of a 16-bit value.
pub open spec fn be16_bytes(x: u16) -> Seq<u8> {
    seq![(x / 0x100) as u8, (x % 0x100) as u8]
}

impl Serialize for U32Le {
    open spec fn wire_bytes(&self) -> Seq<u8> {
        le32_bytes(self.0)
    }

    fn serialize(&self, buf: &mut Vec<u8>) {
        let x = self.0;
        buf.push((x % 0x100) as u8);
        buf.push((x / 0x100 % 0x100) as u8);
        buf.push((x / 0x1_0000 % 0x100) as u8);
        buf.push((x / 0x100_0000) as u8);
        assert(buf@ =~= old(buf)@ + self.wire_bytes());
    }

    fn wire_size(&self) -> (n: usize) {
        4
    }
}

impl Serialize for U16Be {
    open spec fn wire_bytes(&self) -> Seq<u8> {
        be16_bytes(self.0)
    }

    fn serialize(&self, buf: &mut Vec<u8>) {
        let x = self.0;
        buf.push((x / 0x100) as u8);
        buf.push((x % 0x100) as u8);
        assert(buf@ =~= old(buf)@ + self.wire_bytes());
    }

    fn wire_size(&self) -> (n: usize) {
        2
    }
}

/// The wire forms of `fields[0..k]`, one after another.
pub open spec fn encoded(fields: Seq<&dyn Serialize>, k: int) -> Seq<u8>
    decreases k,
{
    if k <= 0 {
        Seq::empty()
    } else {
        encoded(fields, k - 1) + fields[k - 1].wire_bytes()
    }
}

/// Serialises the fields one after another into a buffer sized for all of them (the size is
/// only reserved up front, so a sum past the largest `usize` is capped there).
pub fn encode_fields(fields: &[&dyn Serialize]) -> (buf: Vec<u8>)
    ensures
        buf@ == encoded(fields@, fields@.len() as int),
{
    let mut total: usize = 0;
    let mut i: usize = 0;
    while i < fields.len()
        invariant
            i <= fields@.len(),
        decreases fields@.len() - i,
    {
        let n = fields[i].wire_size();
        total = if total > usize::MAX - n {
            usize::MAX
        } else {
            total + n
        };
        i = i + 1;
    }
    let mut buf: Vec<u8> = Vec::with_capacity(total);
    let mut j: usize = 0;
    while j < fields.len()
        invariant
            j <= fields@.len(),
            buf@ == encoded(fields@, j as int),
        decreases fields@.len() - j,
    {
        fields[j].serialize(&mut buf);
        j = j + 1;
    }
    buf
}

/// Encoding two lists of fields one after the other gives the encoding of the joined list,
/// and the empty list encodes to no bytes.
pub proof fn lemma_encoding_concatenates(a: Seq<&dyn Serialize>, b: Seq<&dyn Serialize>)
    ensures
        encoded(a + b, (a + b).len() as int) == encoded(a, a.len() as int) + encoded(
            b,
            b.len() as int,
        ),
        encoded(Seq::<&dyn Serialize>::empty(), 0) == Seq::<u8>::empty(),
{
    lemma_encoding_prefix(a, b, b.len() as int);
}

proof fn lemma_encoding_prefix(a: Seq<&dyn Serialize>, b: Seq<&dyn Serialize>, k: int)
    requires
        0 <= k <= b.len(),
    ensures
        encoded(a + b, a.len() + k) == encoded(a, a.len() as int) + encoded(b, k),
    decreases k,
{
    if k == 0 {
        lemma_encoding_same_prefix(a, a + b, a.len() as int);
        assert(encoded(a, a.len() as int) + encoded(b, 0) =~= encoded(a, a.len() as int));
    } else {
        lemma_encoding_prefix(a, b, k - 1);
        assert((a + b)[a.len() + k - 1] == b[k - 1]);
        assert(encoded(a + b, a.len() + k) =~= encoded(a, a.len() as int) + encoded(b, k));
    }
}

proof fn lemma_encoding_same_prefix(a: Seq<&dyn Serialize>, c: Seq<&dyn Serialize>, k: int)
    requires
        0 <= k <= a.len(),
        k <= c.len(),
        forall|i: int| 0 <= i < k ==> a[i] == c[i],
    ensures
        encoded(a, k) == encoded(c, k),
    decreases k,
{
    if k > 0 {
        lemma_encoding_same_prefix(a, c, k - 1);
    }
}

/// Number of bytes that `fields[0..k]` announce through `wire_size`.
pub open spec fn announced(fields: Seq<&dyn Serialize>, k: int) -> int
    decreases k,
{
    if k <= 0 {
        0
    } else {
        announced(fields, k - 1) + fields[k - 1].wire_bytes().len()
    }
}

/// The encoding is as long as the sum of the fields' wire sizes, which is the capacity
/// `encode_fields` reserves whenever that sum fits in a `usize`.
pub proof fn lemma_encoding_length(fields: Seq<&dyn Serialize>, k: int)
    requires
        0 <= k <= fields.len(),
    ensures
        encoded(fields, k).len() == announced(fields, k),
    decreases k,
{
    if k > 0 {
        lemma_encoding_length(fields, k - 1);
    }
}

} // verus!
