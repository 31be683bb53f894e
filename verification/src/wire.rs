//! Fixed-width big-endian integers and length-prefixed strings, the primitive
//! layer of the binary encoding.

use vstd::prelude::*;
use vstd::string::*;
use vstd::utf8::*;

verus! {

/// Largest length or count that the encoding can carry: lengths travel as
/// non-negative 32-bit signed integers.
pub const MAX_LEN: usize = 0x7fff_ffff;

/// Type tag that closes a struct.
pub const TAG_STOP: u8 = 0;

/// Type tag of a 32-bit integer.
pub const TAG_I32: u8 = 8;

/// Type tag of a 64-bit integer.
pub const TAG_I64: u8 = 10;

/// Type tag of a string.
pub const TAG_STRING: u8 = 11;

/// Type tag of a struct.
pub const TAG_STRUCT: u8 = 12;

/// Type tag of a map.
pub const TAG_MAP: u8 = 13;

/// Type tag of a list.
pub const TAG_LIST: u8 = 15;

/// The four bytes of `u`, most significant first.
pub open spec fn be32(u: u32) -> Seq<u8> {
    seq![
        ((u >> 24) & 0xff) as u8,
        ((u >> 16) & 0xff) as u8,
        ((u >> 8) & 0xff) as u8,
        (u & 0xff) as u8,
    ]
}

/// The integer whose big-endian bytes are `b0 b1 b2 b3`.
pub open spec fn from_be32(b0: u8, b1: u8, b2: u8, b3: u8) -> u32 {
    ((b0 as u32) << 24) | ((b1 as u32) << 16) | ((b2 as u32) << 8) | (b3 as u32)
}

/// The 64-bit word made of a high and a low half.
pub open spec fn from_be64(hi: u32, lo: u32) -> u64 {
    ((hi as u64) << 32) | (lo as u64)
}

/// Two's-complement reading of a 32-bit word.
pub open spec fn word_to_i32(u: u32) -> i32 {
    if u < 0x8000_0000 {
        u as i32
    } else {
        (u - 0x1_0000_0000) as i32
    }
}

/// Two's-complement word of a signed 32-bit integer.
pub open spec fn i32_to_word(v: i32) -> u32 {
    if v >= 0 {
        v as u32
    } else {
        (v + 0x1_0000_0000) as u32
    }
}

/// Two's-complement reading of a 64-bit word.
pub open spec fn word_to_i64(u: u64) -> i64 {
    if u < 0x8000_0000_0000_0000 {
        u as i64
    } else {
        (u - 0x1_0000_0000_0000_0000) as i64
    }
}

/// Decoding the big-endian bytes of a word gives the word back.
pub proof fn lemma_be32_round_trip(u: u32)
    ensures
        be32(u).len() == 4,
        from_be32(be32(u)[0], be32(u)[1], be32(u)[2], be32(u)[3]) == u,
{
    assert(((((u >> 24) & 0xff) as u8) as u32) << 24 | ((((u >> 16) & 0xff) as u8) as u32) << 16
        | ((((u >> 8) & 0xff) as u8) as u32) << 8 | (((u & 0xff) as u8) as u32) == u)
        by (bit_vector);
}

/// Converting a signed integer to its word and back changes nothing.
pub proof fn lemma_i32_word_round_trip(v: i32)
    ensures
        word_to_i32(i32_to_word(v)) == v,
{
}

/// The two's-complement word of `v`.
pub fn i32_word(v: i32) -> (u: u32)
    ensures
        u == i32_to_word(v),
{
    if v >= 0 {
        v as u32
    } else {
        let m: u32 = (v - i32::MIN) as u32;
        m + 0x8000_0000u32
    }
}

/// The signed integer that the word `u` stands for.
pub fn word_i32(u: u32) -> (v: i32)
    ensures
        v == word_to_i32(u),
{
    if u < 0x8000_0000u32 {
        u as i32
    } else {
        let m: i32 = (u - 0x8000_0000u32) as i32;
        m + i32::MIN
    }
}

/// The signed integer that the 64-bit word `u` stands for.
pub fn word_i64(u: u64) -> (v: i64)
    ensures
        v == word_to_i64(u),
{
    if u < 0x8000_0000_0000_0000u64 {
        u as i64
    } else {
        let m: i64 = (u - 0x8000_0000_0000_0000u64) as i64;
        m + i64::MIN
    }
}

/// Appends the big-endian bytes of `u`.
pub fn push_u32(out: &mut Vec<u8>, u: u32)
    ensures
        final(out)@ == old(out)@ + be32(u),
{
    out.push(((u >> 24) & 0xff) as u8);
    out.push(((u >> 16) & 0xff) as u8);
    out.push(((u >> 8) & 0xff) as u8);
    out.push((u & 0xff) as u8);
    assert(out@ =~= old(out)@ + be32(u));
}

/// Appends every byte of `src`.
pub fn push_all(out: &mut Vec<u8>, src: &[u8])
    ensures
        final(out)@ == old(out)@ + src@,
{
    let mut i: usize = 0;
    while i < src.len()
        invariant
            i <= src.len(),
            out@ == old(out)@ + src@.subrange(0, i as int),
        decreases src.len() - i,
    {
        out.push(src[i]);
        i += 1;
        assert(out@ =~= old(out)@ + src@.subrange(0, i as int));
    }
    assert(src@.subrange(0, i as int) =~= src@);
}

/// The word at `pos`, if four bytes are there.
pub open spec fn spec_read_u32(s: Seq<u8>, pos: int) -> Option<(u32, int)> {
    if 0 <= pos && pos + 4 <= s.len() {
        Some((from_be32(s[pos], s[pos + 1], s[pos + 2], s[pos + 3]), pos + 4))
    } else {
        None
    }
}

/// The 64-bit word at `pos`, if eight bytes are there.
pub open spec fn spec_read_u64(s: Seq<u8>, pos: int) -> Option<(u64, int)> {
    if 0 <= pos && pos + 8 <= s.len() {
        Some(
            (
                from_be64(
                    from_be32(s[pos], s[pos + 1], s[pos + 2], s[pos + 3]),
                    from_be32(s[pos + 4], s[pos + 5], s[pos + 6], s[pos + 7]),
                ),
                pos + 8,
            ),
        )
    } else {
        None
    }
}

/// Reads the word at `pos` and tells where it ends.
pub fn read_u32(buf: &[u8], pos: usize) -> (r: Option<(u32, usize)>)
    ensures
        r.is_some() == spec_read_u32(buf@, pos as int).is_some(),
        r matches Some((u, next)) ==> spec_read_u32(buf@, pos as int) == Some((u, next as int)),
{
    if buf.len() < 4 || pos > buf.len() - 4 {
        return None;
    }
    let u: u32 = ((buf[pos] as u32) << 24) | ((buf[pos + 1] as u32) << 16) | ((buf[pos + 2] as u32)
        << 8) | (buf[pos + 3] as u32);
    Some((u, pos + 4))
}

/// Reads the 64-bit word at `pos` and tells where it ends.
pub fn read_u64(buf: &[u8], pos: usize) -> (r: Option<(u64, usize)>)
    ensures
        r.is_some() == spec_read_u64(buf@, pos as int).is_some(),
        r matches Some((u, next)) ==> spec_read_u64(buf@, pos as int) == Some((u, next as int)),
{
    if buf.len() < 8 || pos > buf.len() - 8 {
        return None;
    }
    let hi: u32 = ((buf[pos] as u32) << 24) | ((buf[pos + 1] as u32) << 16) | ((buf[pos + 2] as u32)
        << 8) | (buf[pos + 3] as u32);
    let lo: u32 = ((buf[pos + 4] as u32) << 24) | ((buf[pos + 5] as u32) << 16) | ((buf[pos
        + 6] as u32) << 8) | (buf[pos + 7] as u32);
    Some((((hi as u64) << 32) | (lo as u64), pos + 8))
}

/// `e` stands in `s` at `pos`.
pub open spec fn holds_at(s: Seq<u8>, pos: int, e: Seq<u8>) -> bool {
    &&& 0 <= pos
    &&& pos + e.len() <= s.len()
    &&& forall|i: int| 0 <= i < e.len() ==> s[pos + i] == #[trigger] e[i]
}

/// Where a concatenation stands, its two parts stand one after the other.
pub proof fn lemma_holds_at_split(s: Seq<u8>, pos: int, a: Seq<u8>, b: Seq<u8>)
    requires
        holds_at(s, pos, a + b),
    ensures
        holds_at(s, pos, a),
        holds_at(s, pos + a.len(), b),
{
    assert forall|i: int| 0 <= i < a.len() implies s[pos + i] == #[trigger] a[i] by {
        assert((a + b)[i] == a[i]);
    }
    assert forall|i: int| 0 <= i < b.len() implies s[pos + a.len() + i] == #[trigger] b[i] by {
        assert((a + b)[a.len() + i] == b[i]);
    }
}

/// A word that stands at `pos` is the word read there.
pub proof fn lemma_read_u32_at(s: Seq<u8>, pos: int, u: u32)
    requires
        holds_at(s, pos, be32(u)),
    ensures
        spec_read_u32(s, pos) == Some((u, pos + 4)),
{
    lemma_be32_round_trip(u);
    let e = be32(u);
    assert(s[pos + 0] == e[0]);
    assert(s[pos + 1] == e[1]);
    assert(s[pos + 2] == e[2]);
    assert(s[pos + 3] == e[3]);
}

/// A byte string on the wire: its length as a word, then the bytes.
pub open spec fn enc_bytes(b: Seq<u8>) -> Seq<u8> {
    be32(b.len() as u32) + b
}

/// A text on the wire: its UTF-8 bytes as a byte string.
pub open spec fn enc_str(chars: Seq<char>) -> Seq<u8> {
    enc_bytes(encode_utf8(chars))
}

/// True where the UTF-8 form of `chars` is short enough to be sent.
pub open spec fn str_fits(chars: Seq<char>) -> bool {
    encode_utf8(chars).len() <= MAX_LEN
}

/// Appends a text in its wire form.
pub fn push_str(out: &mut Vec<u8>, s: &str)
    requires
        str_fits(s@),
    ensures
        final(out)@ == old(out)@ + enc_str(s@),
{
    let bytes = s.as_bytes();
    push_u32(out, bytes.len() as u32);
    push_all(out, bytes);
    assert(out@ =~= old(out)@ + enc_str(s@));
}

/// The text at `pos`: a length word that is not negative as a signed integer,
/// then that many bytes of well-formed UTF-8.
pub open spec fn spec_read_str(s: Seq<u8>, pos: int) -> Option<(Seq<char>, int)> {
    match spec_read_u32(s, pos) {
        Some((n, p)) => {
            if n <= MAX_LEN && p + n <= s.len() && valid_utf8(s.subrange(p, p + n)) {
                Some((decode_utf8(s.subrange(p, p + n)), p + n))
            } else {
                None
            }
        },
        None => None,
    }
}

/// `String::from_utf8` of std: succeeds exactly on well-formed UTF-8, and the
/// text it gives is the one those bytes encode.
#[verifier::external_body]
fn string_from_utf8(bytes: Vec<u8>) -> (r: Option<String>)
    ensures
        r.is_some() == valid_utf8(bytes@),
        r matches Some(s) ==> s@ == decode_utf8(bytes@),
{
    match String::from_utf8(bytes) {
        Ok(s) => Some(s),
        Err(_) => None,
    }
}

/// Reads the text at `pos` and tells where it ends.
pub fn read_str(buf: &[u8], pos: usize) -> (r: Option<(String, usize)>)
    ensures
        r.is_some() == spec_read_str(buf@, pos as int).is_some(),
        r matches Some((t, next)) ==> spec_read_str(buf@, pos as int) == Some((t@, next as int)),
{
    match read_u32(buf, pos) {
        Some((n, p)) => {
            if n as usize > MAX_LEN || n as usize > buf.len() - p {
                return None;
            }
            let q: usize = p + n as usize;
            let raw = vstd::slice::slice_to_vec(vstd::slice::slice_subrange(buf, p, q));
            match string_from_utf8(raw) {
                Some(t) => Some((t, q)),
                None => None,
            }
        },
        None => None,
    }
}

/// A text that stands at `pos` is the text read there.
pub proof fn lemma_read_str_at(s: Seq<u8>, pos: int, chars: Seq<char>)
    requires
        str_fits(chars),
        holds_at(s, pos, enc_str(chars)),
    ensures
        spec_read_str(s, pos) == Some((chars, pos + enc_str(chars).len())),
{
    let b = encode_utf8(chars);
    lemma_holds_at_split(s, pos, be32(b.len() as u32), b);
    lemma_read_u32_at(s, pos, b.len() as u32);
    assert(s.subrange(pos + 4, pos + 4 + b.len()) =~= b);
    encode_utf8_valid_utf8(chars);
    encode_utf8_decode_utf8(chars);
}

} // verus!
