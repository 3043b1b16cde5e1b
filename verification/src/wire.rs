use vstd::prelude::*;

verus! {

// Byte-level building blocks of the wire format: fixed-width big-endian
// integers and permissively decoded UTF-8 text.

/// The eight big-endian bytes of `x`, most significant first.
pub open spec fn u64_be(x: u64) -> Seq<u8> {
    seq![
        (x >> 56) as u8,
        (x >> 48) as u8,
        (x >> 40) as u8,
        (x >> 32) as u8,
        (x >> 24) as u8,
        (x >> 16) as u8,
        (x >> 8) as u8,
        x as u8,
    ]
}

/// The value held by eight big-endian bytes.
pub open spec fn be_u64(s: Seq<u8>) -> u64
    recommends
        s.len() == 8,
{
    (((s[0] as u64) << 56) | ((s[1] as u64) << 48) | ((s[2] as u64) << 40) | ((s[3] as u64) << 32)
        | ((s[4] as u64) << 24) | ((s[5] as u64) << 16) | ((s[6] as u64) << 8) | (s[7] as u64))
}

/// The eight big-endian bytes of a signed value: its two's-complement image.
pub open spec fn i64_be(x: i64) -> Seq<u8> {
    u64_be(x as u64)
}

/// The signed value held by eight big-endian bytes.
pub open spec fn be_i64(s: Seq<u8>) -> i64
    recommends
        s.len() == 8,
{
    be_u64(s) as i64
}

/// Reading back the eight big-endian bytes of `x` yields `x`.
pub proof fn lemma_u64_be_round_trip(x: u64)
    ensures
        be_u64(u64_be(x)) == x,
{
    assert(((((x >> 56) as u8) as u64) << 56) | ((((x >> 48) as u8) as u64) << 48) | ((((x >> 40)
        as u8) as u64) << 40) | ((((x >> 32) as u8) as u64) << 32) | ((((x >> 24) as u8) as u64)
        << 24) | ((((x >> 16) as u8) as u64) << 16) | ((((x >> 8) as u8) as u64) << 8) | ((x
        as u8) as u64) == x) by (bit_vector);
}

/// Reading back the eight big-endian bytes of a signed `x` yields `x`.
pub proof fn lemma_i64_be_round_trip(x: i64)
    ensures
        be_i64(i64_be(x)) == x,
{
    lemma_u64_be_round_trip(x as u64);
    assert(((x as u64) as i64) == x) by (bit_vector);
}

/// Appends the eight big-endian bytes of `x` to `out`.
pub fn put_u64_be(out: &mut Vec<u8>, x: u64)
    ensures
        final(out)@ == old(out)@ + u64_be(x),
{
    out.push((x >> 56) as u8);
    out.push((x >> 48) as u8);
    out.push((x >> 40) as u8);
    out.push((x >> 32) as u8);
    out.push((x >> 24) as u8);
    out.push((x >> 16) as u8);
    out.push((x >> 8) as u8);
    out.push(x as u8);
    assert(out@ =~= old(out)@ + u64_be(x));
}

/// Appends the eight big-endian bytes of a signed `x` to `out`.
pub fn put_i64_be(out: &mut Vec<u8>, x: i64)
    ensures
        final(out)@ == old(out)@ + i64_be(x),
{
    put_u64_be(out, x as u64);
}

/// Reads the eight big-endian bytes at `pos`.
pub fn read_u64_be(src: &[u8], pos: usize) -> (r: u64)
    requires
        pos + 8 <= src@.len(),
    ensures
        r == be_u64(src@.subrange(pos as int, pos + 8)),
{
    let r = ((src[pos] as u64) << 56) | ((src[pos + 1] as u64) << 48) | ((src[pos + 2] as u64)
        << 40) | ((src[pos + 3] as u64) << 32) | ((src[pos + 4] as u64) << 24) | ((src[pos + 5]
        as u64) << 16) | ((src[pos + 6] as u64) << 8) | (src[pos + 7] as u64);
    proof {
        let s = src@.subrange(pos as int, pos + 8);
        assert(s[0] == src@[pos as int]);
        assert(s[7] == src@[pos + 7]);
    }
    r
}

/// Reads the signed value of the eight big-endian bytes at `pos`.
pub fn read_i64_be(src: &[u8], pos: usize) -> (r: i64)
    requires
        pos + 8 <= src@.len(),
    ensures
        r == be_i64(src@.subrange(pos as int, pos + 8)),
{
    read_u64_be(src, pos) as i64
}

/// The replacement characters that permissive UTF-8 decoding yields from a
/// byte sequence that is not valid UTF-8; the result is a function of the
/// bytes alone.
pub uninterp spec fn lossy_decode(bytes: Seq<u8>) -> Seq<char>;

/// The characters that permissive UTF-8 decoding yields from `bytes`:
/// valid UTF-8 decodes exactly, and invalid byte sequences are replaced,
/// never rejected.
pub open spec fn decoded_text(bytes: Seq<u8>) -> Seq<char> {
    if vstd::utf8::valid_utf8(bytes) {
        vstd::utf8::decode_utf8(bytes)
    } else {
        lossy_decode(bytes)
    }
}

/// Relies on String::from_utf8_lossy: permissive decoding that depends on
/// the bytes alone, and that returns exactly the decoded scalar values when
/// the bytes are valid UTF-8.
#[verifier::external_body]
pub(crate) fn utf8_lossy(bytes: &[u8]) -> (s: String)
    ensures
        s@ == decoded_text(bytes@),
        !vstd::utf8::valid_utf8(bytes@) ==> s@ == lossy_decode(bytes@),
{
    String::from_utf8_lossy(bytes).to_string()
}

} // verus!
