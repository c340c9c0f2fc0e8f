//! Length-prefixed binary framing of response parts.
use crate::reply::{is_binary_reply, MediaType, Reply, ReplyBody};
use bytes::BufMut;
use vstd::prelude::*;

verus! {

#[verifier::external_type_specification]
#[verifier::external_body]
pub struct ExBytesMut(bytes::BytesMut);

/// The bytes held by a `bytes::BytesMut` buffer, in order.
pub uninterp spec fn bytes_mut_contents(buf: bytes::BytesMut) -> Seq<u8>;

/// `bytes::BytesMut::new`: an empty buffer.
#[verifier::external_body]
fn bytes_mut_new() -> (buf: bytes::BytesMut)
    ensures
        bytes_mut_contents(buf) == Seq::<u8>::empty(),
{
    bytes::BytesMut::new()
}

/// `BufMut::put_u16` on a `BytesMut`: appends `n` in big-endian byte order.
#[verifier::external_body]
fn bytes_mut_put_u16(buf: &mut bytes::BytesMut, n: u16)
    requires
        bytes_mut_contents(*old(buf)).len() + 2 <= isize::MAX,
    ensures
        bytes_mut_contents(*final(buf)) == bytes_mut_contents(*old(buf)) + seq![(n / 256) as u8, (n % 256) as u8],
{
    buf.put_u16(n)
}

/// `BufMut::put_slice` on a `BytesMut`: appends the bytes of `src`.
#[verifier::external_body]
fn bytes_mut_put_slice(buf: &mut bytes::BytesMut, src: &[u8])
    requires
        bytes_mut_contents(*old(buf)).len() + src@.len() <= isize::MAX,
    ensures
        bytes_mut_contents(*final(buf)) == bytes_mut_contents(*old(buf)) + src@,
{
    buf.put_slice(src)
}

/// `BytesMut::len`: the number of bytes held.
#[verifier::external_body]
fn bytes_mut_len(buf: &bytes::BytesMut) -> (n: usize)
    ensures
        n == bytes_mut_contents(*buf).len(),
{
    buf.len()
}

/// `BytesMut` read as a byte slice (`Deref`) and copied with `to_vec`.
#[verifier::external_body]
fn bytes_mut_to_vec(buf: &bytes::BytesMut) -> (v: Vec<u8>)
    ensures
        v@ == bytes_mut_contents(*buf),
{
    buf.to_vec()
}

/// The big-endian two-byte prefix that records a part's length (under 2^16).
pub open spec fn length_prefix(len: nat) -> Seq<u8> {
    seq![(len / 256) as u8, (len % 256) as u8]
}

/// The prefix of a part shorter than 2^16 bytes is its length as a big-endian
/// `u16`: the high byte, then the low byte.
pub proof fn lemma_length_prefix_big_endian(len: u16)
    ensures
        length_prefix(len as nat) == seq![(len >> 8u16) as u8, (len & 0xffu16) as u8],
{
    assert((len >> 8u16) as u8 == (len / 256) as u8 && (len & 0xffu16) as u8 == (len % 256) as u8) by (bit_vector);
    assert(length_prefix(len as nat) =~= seq![(len >> 8u16) as u8, (len & 0xffu16) as u8]);
}

/// One framed part: its length prefix followed by its bytes.
pub open spec fn frame(part: Seq<u8>) -> Seq<u8> {
    length_prefix(part.len()) + part
}

/// The framing of a sequence of parts, first part first.
pub open spec fn encode_parts(parts: Seq<Seq<u8>>) -> Seq<u8>
    decreases parts.len(),
{
    if parts.len() == 0 {
        Seq::empty()
    } else {
        frame(parts[0]) + encode_parts(parts.drop_first())
    }
}

/// Reads framed parts back: each part is a big-endian two-byte length followed by
/// that many bytes; `None` when the bytes do not split that way.
pub open spec fn decode_parts(bytes: Seq<u8>) -> Option<Seq<Seq<u8>>>
    decreases bytes.len(),
{
    if bytes.len() == 0 {
        Some(Seq::empty())
    } else if bytes.len() < 2 {
        None
    } else {
        let n = bytes[0] * 256 + bytes[1];
        if bytes.len() < 2 + n {
            None
        } else {
            match decode_parts(bytes.skip(2 + n)) {
                Some(rest) => Some(seq![bytes.subrange(2, 2 + n)] + rest),
                None => None,
            }
        }
    }
}

/// Every part is shorter than 2^16 bytes, so that its length fits its prefix.
pub open spec fn parts_fit_prefix(parts: Seq<Seq<u8>>) -> bool {
    forall|i: int| 0 <= i < parts.len() ==> (#[trigger] parts[i]).len() < 65536
}

/// Framing one more part appends its frame.
pub proof fn lemma_encode_push(parts: Seq<Seq<u8>>, part: Seq<u8>)
    ensures
        encode_parts(parts.push(part)) == encode_parts(parts) + frame(part),
    decreases parts.len(),
{
    if parts.len() == 0 {
        assert(parts.push(part).drop_first() =~= Seq::<Seq<u8>>::empty());
        assert(parts.push(part)[0] == part);
        assert(encode_parts(Seq::<Seq<u8>>::empty()) == Seq::<u8>::empty());
        assert(encode_parts(parts.push(part)) =~= frame(part));
    } else {
        lemma_encode_push(parts.drop_first(), part);
        assert(parts.push(part).drop_first() =~= parts.drop_first().push(part));
        assert(encode_parts(parts.push(part)) =~= encode_parts(parts) + frame(part));
    }
}

/// Framing two sequences of parts one after the other frames their concatenation.
pub proof fn lemma_encode_concat(a: Seq<Seq<u8>>, b: Seq<Seq<u8>>)
    ensures
        encode_parts(a + b) == encode_parts(a) + encode_parts(b),
    decreases b.len(),
{
    if b.len() == 0 {
        assert(a + b =~= a);
        assert(encode_parts(a) + encode_parts(b) =~= encode_parts(a));
    } else {
        let init = b.drop_last();
        lemma_encode_concat(a, init);
        lemma_encode_push(a + init, b.last());
        lemma_encode_push(init, b.last());
        assert(a + b =~= (a + init).push(b.last()));
        assert(b =~= init.push(b.last()));
        assert(encode_parts(a + b) =~= encode_parts(a) + encode_parts(b));
    }
}

/// The framing can be read back: decoding the framing of parts that each fit
/// their prefix gives the parts back, in order.
pub proof fn lemma_decode_encode(parts: Seq<Seq<u8>>)
    requires
        parts_fit_prefix(parts),
    ensures
        decode_parts(encode_parts(parts)) == Some(parts),
    decreases parts.len(),
{
    if parts.len() > 0 {
        let p = parts[0];
        let rest = parts.drop_first();
        assert(parts_fit_prefix(rest)) by {
            assert forall|i: int| 0 <= i < rest.len() implies (#[trigger] rest[i]).len() < 65536 by {
                assert(rest[i] == parts[i + 1]);
            }
        }
        lemma_decode_encode(rest);
        let bytes = encode_parts(parts);
        let n = p.len() as int;
        assert(n < 65536);
        assert(bytes == frame(p) + encode_parts(rest));
        assert(bytes[0] == (n / 256) as u8);
        assert(bytes[1] == (n % 256) as u8);
        assert(bytes[0] * 256 + bytes[1] == n);
        assert(bytes.subrange(2, 2 + n) =~= p);
        assert(bytes.skip(2 + n) =~= encode_parts(rest));
        assert(seq![p] + rest =~= parts);
    }
}

/// A builder of raw binary responses made of length-prefixed parts.
pub struct BatchBuilder {
    buffer: bytes::BytesMut,
}

impl View for BatchBuilder {
    type V = Seq<u8>;

    closed spec fn view(&self) -> Seq<u8> {
        bytes_mut_contents(self.buffer)
    }
}

impl BatchBuilder {
    /// An empty builder.
    pub fn new() -> (b: Self)
        ensures
            b@ == Seq::<u8>::empty(),
    {
        BatchBuilder { buffer: bytes_mut_new() }
    }

    /// Appends the UTF-8 bytes of `s` as one part; they must number fewer than 2^16.
    pub fn add_string(self, s: &str) -> (b: Self)
        requires
            vstd::utf8::encode_utf8(s@).len() < 65536,
            self@.len() + 2 + vstd::utf8::encode_utf8(s@).len() <= isize::MAX,
        ensures
            b@ == self@ + frame(vstd::utf8::encode_utf8(s@)),
    {
        let mut b = self;
        b.push_bytes(s.as_bytes());
        b
    }

    /// Appends `b` as one part; it must be shorter than 2^16 bytes.
    pub fn add_bytes(self, b: &[u8]) -> (r: Self)
        requires
            b@.len() < 65536,
            self@.len() + 2 + b@.len() <= isize::MAX,
        ensures
            r@ == self@ + frame(b@),
    {
        let mut r = self;
        r.push_bytes(b);
        r
    }

    /// Appends `b` as one part, in place, after its two-byte length.
    pub fn push_bytes(&mut self, b: &[u8])
        requires
            b@.len() < 65536,
            old(self)@.len() + 2 + b@.len() <= isize::MAX,
        ensures
            final(self)@ == old(self)@ + frame(b@),
    {
        let n: u16 = b.len() as u16;
        bytes_mut_put_u16(&mut self.buffer, n);
        bytes_mut_put_slice(&mut self.buffer, b);
        assert(seq![(n / 256) as u8, (n % 256) as u8] =~= length_prefix(b@.len()));
    }

    /// The number of bytes built so far.
    pub fn byte_len(&self) -> (n: usize)
        ensures
            n == self@.len(),
    {
        bytes_mut_len(&self.buffer)
    }

    /// The binary answer holding the parts added so far.
    pub fn build(self) -> (r: Reply)
        ensures
            is_binary_reply(r, MediaType::OctetStream, self@, false),
    {
        let bytes = bytes_mut_to_vec(&self.buffer);
        Reply { status: 200, body: ReplyBody::Binary(MediaType::OctetStream, bytes), cache_max_age: None }
    }
}

/// The bytes of each part, in order.
pub open spec fn parts_view(parts: Seq<Vec<u8>>) -> Seq<Seq<u8>> {
    parts.map_values(|p: Vec<u8>| p@)
}

/// The length of the framing of `parts`: two bytes of prefix and the bytes of each part.
pub proof fn lemma_encode_len_push(parts: Seq<Seq<u8>>, part: Seq<u8>)
    ensures
        encode_parts(parts.push(part)).len() == encode_parts(parts).len() + 2 + part.len(),
{
    lemma_encode_push(parts, part);
}

/// Appends every part of `parts` to `builder` when each part fits its two-byte
/// length and the result stays within `isize::MAX` bytes, and nothing otherwise;
/// tells which it did.
pub fn append_parts(builder: &mut BatchBuilder, parts: &Vec<Vec<u8>>) -> (ok: bool)
    requires
        old(builder)@.len() <= isize::MAX,
    ensures
        ok == (parts_fit_prefix(parts_view(parts@)) && old(builder)@.len() + encode_parts(
            parts_view(parts@),
        ).len() <= isize::MAX),
        ok ==> final(builder)@ == old(builder)@ + encode_parts(parts_view(parts@)),
        !ok ==> final(builder)@ == old(builder)@,
{
    let ghost view = parts_view(parts@);
    let limit: u128 = isize::MAX as u128;
    let mut total: u128 = builder.byte_len() as u128;
    let mut i: usize = 0;
    while i < parts.len()
        invariant
            view == parts_view(parts@),
            i <= parts@.len(),
            limit == isize::MAX,
            total <= limit,
            total == builder@.len() + encode_parts(view.take(i as int)).len(),
            builder@ == old(builder)@,
            forall|j: int| 0 <= j < i ==> (#[trigger] view[j]).len() < 65536,
        decreases parts.len() - i,
    {
        if parts[i].len() >= 65536 {
            assert(view[i as int].len() >= 65536);
            return false;
        }
        proof {
            assert(view.take(i + 1) =~= view.take(i as int).push(view[i as int]));
            lemma_encode_len_push(view.take(i as int), view[i as int]);
        }
        let step: u128 = 2 + parts[i].len() as u128;
        if total + step > limit {
            proof {
                assert forall|m: int| i < m <= view.len() implies encode_parts(view.take(i + 1)).len() <= #[trigger] encode_parts(view.take(m)).len() by {
                    lemma_encode_concat(view.take(i + 1), view.subrange(i + 1, m));
                    assert(view.take(i + 1) + view.subrange(i + 1, m) =~= view.take(m));
                }
                assert(view.take(view.len() as int) =~= view);
            }
            return false;
        }
        total = total + step;
        i = i + 1;
    }
    assert(view.take(view.len() as int) =~= view);
    assert(parts_fit_prefix(view));
    let ghost start = builder@;
    let mut j: usize = 0;
    while j < parts.len()
        invariant
            view == parts_view(parts@),
            j <= parts@.len(),
            start.len() + encode_parts(view).len() <= isize::MAX,
            builder@ == start + encode_parts(view.take(j as int)),
            parts_fit_prefix(view),
        decreases parts.len() - j,
    {
        proof {
            assert(view.take(j + 1) =~= view.take(j as int).push(view[j as int]));
            lemma_encode_push(view.take(j as int), view[j as int]);
            lemma_encode_concat(view.take(j + 1), view.subrange(j + 1, view.len() as int));
            assert(view.take(j + 1) + view.subrange(j + 1, view.len() as int) =~= view);
        }
        assert(view[j as int].len() < 65536);
        builder.push_bytes(parts[j].as_slice());
        j = j + 1;
    }
    true
}

/// Building a batch part by part: a builder holding the framing of `parts` holds,
/// once one more part is added, the framing of all of them, and those bytes read
/// back as exactly those parts, in order.
pub proof fn lemma_builder_reads_back(held: Seq<u8>, parts: Seq<Seq<u8>>, part: Seq<u8>)
    requires
        held == encode_parts(parts),
        parts_fit_prefix(parts),
        part.len() < 65536,
    ensures
        held + frame(part) == encode_parts(parts.push(part)),
        decode_parts(held + frame(part)) == Some(parts.push(part)),
{
    lemma_encode_push(parts, part);
    assert(parts_fit_prefix(parts.push(part))) by {
        assert forall|i: int| 0 <= i < parts.push(part).len() implies (#[trigger] parts.push(part)[i]).len() < 65536 by {
            if i < parts.len() {
                assert(parts.push(part)[i] == parts[i]);
            }
        }
    }
    lemma_decode_encode(parts.push(part));
}

} // verus!
