use vstd::prelude::*;
use vstd::utf8::*;
use vstd::string::*;

verus! {

broadcast use {encode_utf8_decode_utf8, encode_utf8_valid_utf8};

// ---- fixed-width integers ----

pub open spec fn le16(x: u16) -> Seq<u8> {
    seq![(x & 0xff) as u8, ((x >> 8u16) & 0xff) as u8]
}

pub open spec fn le32(x: u32) -> Seq<u8> {
    seq![
        (x & 0xff) as u8,
        ((x >> 8u32) & 0xff) as u8,
        ((x >> 16u32) & 0xff) as u8,
        ((x >> 24u32) & 0xff) as u8,
    ]
}

pub open spec fn le64(x: u64) -> Seq<u8> {
    seq![
        (x & 0xff) as u8,
        ((x >> 8u64) & 0xff) as u8,
        ((x >> 16u64) & 0xff) as u8,
        ((x >> 24u64) & 0xff) as u8,
        ((x >> 32u64) & 0xff) as u8,
        ((x >> 40u64) & 0xff) as u8,
        ((x >> 48u64) & 0xff) as u8,
        ((x >> 56u64) & 0xff) as u8,
    ]
}

pub open spec fn be16(x: u16) -> Seq<u8> {
    seq![((x >> 8u16) & 0xff) as u8, (x & 0xff) as u8]
}

pub open spec fn be32(x: u32) -> Seq<u8> {
    seq![
        ((x >> 24u32) & 0xff) as u8,
        ((x >> 16u32) & 0xff) as u8,
        ((x >> 8u32) & 0xff) as u8,
        (x & 0xff) as u8,
    ]
}

pub open spec fn be64(x: u64) -> Seq<u8> {
    seq![
        ((x >> 56u64) & 0xff) as u8,
        ((x >> 48u64) & 0xff) as u8,
        ((x >> 40u64) & 0xff) as u8,
        ((x >> 32u64) & 0xff) as u8,
        ((x >> 24u64) & 0xff) as u8,
        ((x >> 16u64) & 0xff) as u8,
        ((x >> 8u64) & 0xff) as u8,
        (x & 0xff) as u8,
    ]
}

/// The little-endian `u16` stored at `p`.
pub open spec fn u16_at(d: Seq<u8>, p: int) -> u16 {
    (d[p] as u16) | ((d[p + 1] as u16) << 8u16)
}

/// The little-endian `u32` stored at `p`.
pub open spec fn u32_at(d: Seq<u8>, p: int) -> u32 {
    (d[p] as u32) | ((d[p + 1] as u32) << 8u32) | ((d[p + 2] as u32) << 16u32) | ((d[p + 3] as u32)
        << 24u32)
}

/// The little-endian `u64` stored at `p`.
pub open spec fn u64_at(d: Seq<u8>, p: int) -> u64 {
    (d[p] as u64) | ((d[p + 1] as u64) << 8u64) | ((d[p + 2] as u64) << 16u64) | ((d[p + 3] as u64)
        << 24u64) | ((d[p + 4] as u64) << 32u64) | ((d[p + 5] as u64) << 40u64) | ((d[p + 6] as u64)
        << 48u64) | ((d[p + 7] as u64) << 56u64)
}

/// `piece` stands in `d` from position `p` on.
pub open spec fn holds_at(d: Seq<u8>, p: int, piece: Seq<u8>) -> bool {
    0 <= p && p + piece.len() <= d.len() && d.subrange(p, p + piece.len()) == piece
}

pub proof fn lemma_u16_round_trip(d: Seq<u8>, p: int, x: u16)
    requires
        holds_at(d, p, le16(x)),
    ensures
        u16_at(d, p) == x,
{
    assert(d[p] == le16(x)[0] && d[p + 1] == le16(x)[1]);
    let b0 = d[p];
    let b1 = d[p + 1];
    assert(b0 == (x & 0xff) as u8 && b1 == ((x >> 8u16) & 0xff) as u8 ==> ((b0 as u16) | ((
    b1 as u16) << 8u16)) == x) by (bit_vector);
}

pub proof fn lemma_u32_round_trip(d: Seq<u8>, p: int, x: u32)
    requires
        holds_at(d, p, le32(x)),
    ensures
        u32_at(d, p) == x,
{
    assert(d[p] == le32(x)[0] && d[p + 1] == le32(x)[1] && d[p + 2] == le32(x)[2] && d[p + 3]
        == le32(x)[3]);
    let b0 = d[p];
    let b1 = d[p + 1];
    let b2 = d[p + 2];
    let b3 = d[p + 3];
    assert(b0 == (x & 0xff) as u8 && b1 == ((x >> 8u32) & 0xff) as u8 && b2 == ((x >> 16u32)
        & 0xff) as u8 && b3 == ((x >> 24u32) & 0xff) as u8 ==> ((b0 as u32) | ((b1 as u32)
        << 8u32) | ((b2 as u32) << 16u32) | ((b3 as u32) << 24u32)) == x) by (bit_vector);
}

pub proof fn lemma_u64_round_trip(d: Seq<u8>, p: int, x: u64)
    requires
        holds_at(d, p, le64(x)),
    ensures
        u64_at(d, p) == x,
{
    assert(d[p] == le64(x)[0] && d[p + 1] == le64(x)[1] && d[p + 2] == le64(x)[2] && d[p + 3]
        == le64(x)[3] && d[p + 4] == le64(x)[4] && d[p + 5] == le64(x)[5] && d[p + 6] == le64(
    x)[6] && d[p + 7] == le64(x)[7]);
    let b0 = d[p];
    let b1 = d[p + 1];
    let b2 = d[p + 2];
    let b3 = d[p + 3];
    let b4 = d[p + 4];
    let b5 = d[p + 5];
    let b6 = d[p + 6];
    let b7 = d[p + 7];
    assert(b0 == (x & 0xff) as u8 && b1 == ((x >> 8u64) & 0xff) as u8 && b2 == ((x >> 16u64)
        & 0xff) as u8 && b3 == ((x >> 24u64) & 0xff) as u8 && b4 == ((x >> 32u64) & 0xff) as u8
        && b5 == ((x >> 40u64) & 0xff) as u8 && b6 == ((x >> 48u64) & 0xff) as u8 && b7 == ((x
        >> 56u64) & 0xff) as u8 ==> ((b0 as u64) | ((b1 as u64) << 8u64) | ((b2 as u64) << 16u64)
        | ((b3 as u64) << 24u64) | ((b4 as u64) << 32u64) | ((b5 as u64) << 40u64) | ((b6 as u64)
        << 48u64) | ((b7 as u64) << 56u64)) == x) by (bit_vector);
}

/// Distinct values have distinct big-endian forms.
pub proof fn lemma_be32_injective(x: u32, y: u32)
    requires
        be32(x) == be32(y),
    ensures
        x == y,
{
    assert(be32(x)[0] == be32(y)[0] && be32(x)[1] == be32(y)[1] && be32(x)[2] == be32(y)[2]
        && be32(x)[3] == be32(y)[3]);
    assert(((x >> 24u32) & 0xff) as u8 == ((y >> 24u32) & 0xff) as u8 && ((x >> 16u32) & 0xff) as u8
        == ((y >> 16u32) & 0xff) as u8 && ((x >> 8u32) & 0xff) as u8 == ((y >> 8u32) & 0xff) as u8
        && (x & 0xff) as u8 == (y & 0xff) as u8 ==> x == y) by (bit_vector);
}

/// Distinct values have distinct big-endian forms.
pub proof fn lemma_be64_injective(x: u64, y: u64)
    requires
        be64(x) == be64(y),
    ensures
        x == y,
{
    assert(be64(x)[0] == be64(y)[0] && be64(x)[1] == be64(y)[1] && be64(x)[2] == be64(y)[2]
        && be64(x)[3] == be64(y)[3] && be64(x)[4] == be64(y)[4] && be64(x)[5] == be64(y)[5]
        && be64(x)[6] == be64(y)[6] && be64(x)[7] == be64(y)[7]);
    assert(((x >> 56u64) & 0xff) as u8 == ((y >> 56u64) & 0xff) as u8 && ((x >> 48u64) & 0xff) as u8
        == ((y >> 48u64) & 0xff) as u8 && ((x >> 40u64) & 0xff) as u8 == ((y >> 40u64) & 0xff) as u8
        && ((x >> 32u64) & 0xff) as u8 == ((y >> 32u64) & 0xff) as u8 && ((x >> 24u64) & 0xff) as u8
        == ((y >> 24u64) & 0xff) as u8 && ((x >> 16u64) & 0xff) as u8 == ((y >> 16u64) & 0xff) as u8
        && ((x >> 8u64) & 0xff) as u8 == ((y >> 8u64) & 0xff) as u8 && (x & 0xff) as u8 == (y
        & 0xff) as u8 ==> x == y) by (bit_vector);
}

// ---- writing ----

pub fn put_u8(out: &mut Vec<u8>, x: u8)
    ensures
        final(out)@ == old(out)@.push(x),
{
    out.push(x);
}

pub fn put_u16_le(out: &mut Vec<u8>, x: u16)
    ensures
        final(out)@ == old(out)@ + le16(x),
{
    out.push((x & 0xff) as u8);
    out.push(((x >> 8u16) & 0xff) as u8);
    assert(final(out)@ =~= old(out)@ + le16(x));
}

pub fn put_u32_le(out: &mut Vec<u8>, x: u32)
    ensures
        final(out)@ == old(out)@ + le32(x),
{
    out.push((x & 0xff) as u8);
    out.push(((x >> 8u32) & 0xff) as u8);
    out.push(((x >> 16u32) & 0xff) as u8);
    out.push(((x >> 24u32) & 0xff) as u8);
    assert(final(out)@ =~= old(out)@ + le32(x));
}

pub fn put_u64_le(out: &mut Vec<u8>, x: u64)
    ensures
        final(out)@ == old(out)@ + le64(x),
{
    out.push((x & 0xff) as u8);
    out.push(((x >> 8u64) & 0xff) as u8);
    out.push(((x >> 16u64) & 0xff) as u8);
    out.push(((x >> 24u64) & 0xff) as u8);
    out.push(((x >> 32u64) & 0xff) as u8);
    out.push(((x >> 40u64) & 0xff) as u8);
    out.push(((x >> 48u64) & 0xff) as u8);
    out.push(((x >> 56u64) & 0xff) as u8);
    assert(final(out)@ =~= old(out)@ + le64(x));
}

pub fn put_u16_be(out: &mut Vec<u8>, x: u16)
    ensures
        final(out)@ == old(out)@ + be16(x),
{
    out.push(((x >> 8u16) & 0xff) as u8);
    out.push((x & 0xff) as u8);
    assert(final(out)@ =~= old(out)@ + be16(x));
}

pub fn put_u32_be(out: &mut Vec<u8>, x: u32)
    ensures
        final(out)@ == old(out)@ + be32(x),
{
    out.push(((x >> 24u32) & 0xff) as u8);
    out.push(((x >> 16u32) & 0xff) as u8);
    out.push(((x >> 8u32) & 0xff) as u8);
    out.push((x & 0xff) as u8);
    assert(final(out)@ =~= old(out)@ + be32(x));
}

pub fn put_u64_be(out: &mut Vec<u8>, x: u64)
    ensures
        final(out)@ == old(out)@ + be64(x),
{
    out.push(((x >> 56u64) & 0xff) as u8);
    out.push(((x >> 48u64) & 0xff) as u8);
    out.push(((x >> 40u64) & 0xff) as u8);
    out.push(((x >> 32u64) & 0xff) as u8);
    out.push(((x >> 24u64) & 0xff) as u8);
    out.push(((x >> 16u64) & 0xff) as u8);
    out.push(((x >> 8u64) & 0xff) as u8);
    out.push((x & 0xff) as u8);
    assert(final(out)@ =~= old(out)@ + be64(x));
}

/// Appends every byte of `b`.
pub fn put_bytes(out: &mut Vec<u8>, b: &[u8])
    ensures
        final(out)@ == old(out)@ + b@,
{
    let mut i: usize = 0;
    while i < b.len()
        invariant
            i <= b@.len(),
            out@ == old(out)@ + b@.subrange(0, i as int),
        decreases b@.len() - i,
    {
        out.push(b[i]);
        i = i + 1;
        assert(out@ =~= old(out)@ + b@.subrange(0, i as int));
    }
    assert(b@.subrange(0, b@.len() as int) =~= b@);
}

// ---- reading ----

pub fn get_u16(d: &Vec<u8>, p: usize) -> (r: u16)
    requires
        p + 2 <= d.len(),
    ensures
        r == u16_at(d@, p as int),
{
    (d[p] as u16) | ((d[p + 1] as u16) << 8u16)
}

pub fn get_u32(d: &Vec<u8>, p: usize) -> (r: u32)
    requires
        p + 4 <= d.len(),
    ensures
        r == u32_at(d@, p as int),
{
    (d[p] as u32) | ((d[p + 1] as u32) << 8u32) | ((d[p + 2] as u32) << 16u32) | ((d[p + 3] as u32)
        << 24u32)
}

pub fn get_u64(d: &Vec<u8>, p: usize) -> (r: u64)
    requires
        p + 8 <= d.len(),
    ensures
        r == u64_at(d@, p as int),
{
    (d[p] as u64) | ((d[p + 1] as u64) << 8u64) | ((d[p + 2] as u64) << 16u64) | ((d[p + 3] as u64)
        << 24u64) | ((d[p + 4] as u64) << 32u64) | ((d[p + 5] as u64) << 40u64) | ((d[p + 6] as u64)
        << 48u64) | ((d[p + 7] as u64) << 56u64)
}

/// Copies `n` bytes from position `p` on.
pub fn get_bytes(d: &Vec<u8>, p: usize, n: usize) -> (r: Vec<u8>)
    requires
        p + n <= d.len(),
    ensures
        r@ == d@.subrange(p as int, p + n),
{
    let mut r: Vec<u8> = Vec::with_capacity(n);
    let mut i: usize = 0;
    while i < n
        invariant
            i <= n,
            p + n <= d.len(),
            r@ == d@.subrange(p as int, p + i),
        decreases n - i,
    {
        r.push(d[p + i]);
        i = i + 1;
        assert(r@ =~= d@.subrange(p as int, p + i));
    }
    r
}

pub fn get_key(d: &Vec<u8>, p: usize) -> (r: [u8; 32])
    requires
        p + 32 <= d.len(),
    ensures
        r@ == d@.subrange(p as int, p + 32),
{
    let mut r: [u8; 32] = [0u8; 32];
    let mut i: usize = 0;
    while i < 32
        invariant
            i <= 32,
            p + 32 <= d.len(),
            forall|j: int| 0 <= j < i ==> r@[j] == d@[p + j],
        decreases 32 - i,
    {
        r[i] = d[p + i];
        i = i + 1;
    }
    assert(r@ =~= d@.subrange(p as int, p + 32));
    r
}

pub fn get_key33(d: &Vec<u8>, p: usize) -> (r: [u8; 33])
    requires
        p + 33 <= d.len(),
    ensures
        r@ == d@.subrange(p as int, p + 33),
{
    let mut r: [u8; 33] = [0u8; 33];
    let mut i: usize = 0;
    while i < 33
        invariant
            i <= 33,
            p + 33 <= d.len(),
            forall|j: int| 0 <= j < i ==> r@[j] == d@[p + j],
        decreases 33 - i,
    {
        r[i] = d[p + i];
        i = i + 1;
    }
    assert(r@ =~= d@.subrange(p as int, p + 33));
    r
}

pub fn get_sig64(d: &Vec<u8>, p: usize) -> (r: [u8; 64])
    requires
        p + 64 <= d.len(),
    ensures
        r@ == d@.subrange(p as int, p + 64),
{
    let mut r: [u8; 64] = [0u8; 64];
    let mut i: usize = 0;
    while i < 64
        invariant
            i <= 64,
            p + 64 <= d.len(),
            forall|j: int| 0 <= j < i ==> r@[j] == d@[p + j],
        decreases 64 - i,
    {
        r[i] = d[p + i];
        i = i + 1;
    }
    assert(r@ =~= d@.subrange(p as int, p + 64));
    r
}

// ---- text ----

/// A string as stored: its UTF-8 length as a little-endian `u32`, then its UTF-8 bytes.
pub open spec fn text_bytes(s: Seq<char>) -> Seq<u8> {
    le32(encode_utf8(s).len() as u32) + encode_utf8(s)
}

/// The string fits the length prefix.
pub open spec fn text_fits(s: Seq<char>) -> bool {
    encode_utf8(s).len() <= u32::MAX
}

/// The stored string that starts at `p`, and the position after it.
pub open spec fn parse_text(d: Seq<u8>, p: int) -> Option<(Seq<char>, int)> {
    if 0 <= p && p + 4 <= d.len() {
        let n = u32_at(d, p) as int;
        let body = d.subrange(p + 4, p + 4 + n);
        if p + 4 + n <= d.len() && valid_utf8(body) {
            Some((decode_utf8(body), p + 4 + n))
        } else {
            None
        }
    } else {
        None
    }
}

pub proof fn lemma_text_round_trip(d: Seq<u8>, p: int, s: Seq<char>)
    requires
        text_fits(s),
        holds_at(d, p, text_bytes(s)),
    ensures
        parse_text(d, p) == Some((s, p + text_bytes(s).len())),
{
    let e = encode_utf8(s);
    assert(d.subrange(p, p + 4) == text_bytes(s).subrange(0, 4));
    assert(text_bytes(s).subrange(0, 4) =~= le32(e.len() as u32));
    lemma_u32_round_trip(d, p, e.len() as u32);
    assert(d.subrange(p + 4, p + 4 + e.len()) =~= text_bytes(s).subrange(4, 4 + e.len() as int));
    assert(text_bytes(s).subrange(4, 4 + e.len() as int) =~= e);
}

/// Appends the stored form of `s`.
pub fn put_text(out: &mut Vec<u8>, s: &String)
    requires
        text_fits(s@),
    ensures
        final(out)@ == old(out)@ + text_bytes(s@),
{
    let b = s.as_str().as_bytes();
    put_u32_le(out, b.len() as u32);
    put_bytes(out, b);
    assert(final(out)@ =~= old(out)@ + text_bytes(s@));
}

/// Reads the stored string that starts at `p`.
pub fn get_text(d: &Vec<u8>, p: usize) -> (r: Option<(String, usize)>)
    ensures
        match r {
            Some((s, q)) => parse_text(d@, p as int) == Some((s@, q as int)),
            None => parse_text(d@, p as int) is None,
        },
        r matches Some((s, q)) ==> p <= q <= d@.len() && text_bytes(s@) == d@.subrange(
            p as int,
            q as int,
        ) && text_fits(s@),
{
    if p > d.len() || d.len() - p < 4 {
        return None;
    }
    let n = get_u32(d, p) as usize;
    if d.len() - p - 4 < n {
        return None;
    }
    let body = get_bytes(d, p + 4, n);
    match text_from_utf8(body) {
        Some(s) => {
            proof {
                assert(valid_utf8(encode_utf8(s@)));
                assert(encode_utf8(s@).len() == n);
                lemma_u32_bytes(d@, p as int);
                assert(text_bytes(s@) =~= d@.subrange(p as int, p + 4 + n));
            }
            Some((s, p + 4 + n))
        },
        None => None,
    }
}

/// Relies on String::from_utf8: it accepts exactly the valid UTF-8 byte
/// sequences, and the string it returns holds those bytes.
#[verifier::external_body]
fn text_from_utf8(b: Vec<u8>) -> (r: Option<String>)
    ensures
        r is Some <==> valid_utf8(b@),
        r matches Some(s) ==> encode_utf8(s@) == b@,
{
    String::from_utf8(b).ok()
}


pub proof fn lemma_u16_bytes(d: Seq<u8>, p: int)
    requires
        0 <= p && p + 2 <= d.len(),
    ensures
        le16(u16_at(d, p)) == d.subrange(p, p + 2),
{
    let b0 = d[p];
    let b1 = d[p + 1];
    let x = u16_at(d, p);
    assert(x == (b0 as u16) | ((b1 as u16) << 8u16));
    assert(x == (b0 as u16) | ((b1 as u16) << 8u16) ==> (x & 0xff) as u8 == b0 && ((x >> 8u16)
        & 0xff) as u8 == b1) by (bit_vector);
    assert(le16(x) =~= d.subrange(p, p + 2));
}

pub proof fn lemma_u32_bytes(d: Seq<u8>, p: int)
    requires
        0 <= p && p + 4 <= d.len(),
    ensures
        le32(u32_at(d, p)) == d.subrange(p, p + 4),
{
    let b0 = d[p];
    let b1 = d[p + 1];
    let b2 = d[p + 2];
    let b3 = d[p + 3];
    let x = u32_at(d, p);
    assert(x == (b0 as u32) | ((b1 as u32) << 8u32) | ((b2 as u32) << 16u32) | ((b3 as u32)
        << 24u32));
    assert(x == (b0 as u32) | ((b1 as u32) << 8u32) | ((b2 as u32) << 16u32) | ((b3 as u32)
        << 24u32) ==> (x & 0xff) as u8 == b0 && ((x >> 8u32) & 0xff) as u8 == b1 && ((x >> 16u32)
        & 0xff) as u8 == b2 && ((x >> 24u32) & 0xff) as u8 == b3) by (bit_vector);
    assert(le32(x) =~= d.subrange(p, p + 4));
}

pub proof fn lemma_u64_bytes(d: Seq<u8>, p: int)
    requires
        0 <= p && p + 8 <= d.len(),
    ensures
        le64(u64_at(d, p)) == d.subrange(p, p + 8),
{
    let b0 = d[p];
    let b1 = d[p + 1];
    let b2 = d[p + 2];
    let b3 = d[p + 3];
    let b4 = d[p + 4];
    let b5 = d[p + 5];
    let b6 = d[p + 6];
    let b7 = d[p + 7];
    let x = u64_at(d, p);
    assert(x == (b0 as u64) | ((b1 as u64) << 8u64) | ((b2 as u64) << 16u64) | ((b3 as u64)
        << 24u64) | ((b4 as u64) << 32u64) | ((b5 as u64) << 40u64) | ((b6 as u64) << 48u64) | ((
    b7 as u64) << 56u64));
    assert(x == (b0 as u64) | ((b1 as u64) << 8u64) | ((b2 as u64) << 16u64) | ((b3 as u64)
        << 24u64) | ((b4 as u64) << 32u64) | ((b5 as u64) << 40u64) | ((b6 as u64) << 48u64) | ((
    b7 as u64) << 56u64) ==> (x & 0xff) as u8 == b0 && ((x >> 8u64) & 0xff) as u8 == b1 && ((x
        >> 16u64) & 0xff) as u8 == b2 && ((x >> 24u64) & 0xff) as u8 == b3 && ((x >> 32u64) & 0xff) as u8
        == b4 && ((x >> 40u64) & 0xff) as u8 == b5 && ((x >> 48u64) & 0xff) as u8 == b6 && ((x
        >> 56u64) & 0xff) as u8 == b7) by (bit_vector);
    assert(le64(x) =~= d.subrange(p, p + 8));
}

/// Consecutive little-endian `u64`s.
pub open spec fn u64_list_bytes(xs: Seq<u64>) -> Seq<u8>
    decreases xs.len(),
{
    if xs.len() == 0 {
        Seq::empty()
    } else {
        u64_list_bytes(xs.drop_last()) + le64(xs.last())
    }
}

/// Reads `n` consecutive little-endian `u64`s from position `p` on.
pub fn get_u64_list(d: &Vec<u8>, p: usize, n: usize) -> (r: Vec<u64>)
    requires
        p + 8 * n <= d.len(),
    ensures
        r@.len() == n,
        u64_list_bytes(r@) == d@.subrange(p as int, p + 8 * n),
{
    let mut r: Vec<u64> = Vec::new();
    let mut i: usize = 0;
    while i < n
        invariant
            i <= n,
            p + 8 * n <= d.len(),
            r@.len() == i,
            u64_list_bytes(r@) == d@.subrange(p as int, p + 8 * i),
        decreases n - i,
    {
        let q = p + 8 * i;
        let x = get_u64(d, q);
        let ghost prev = r@;
        r.push(x);
        proof {
            assert(r@.drop_last() =~= prev);
            lemma_u64_bytes(d@, q as int);
        }
        i = i + 1;
        assert(u64_list_bytes(r@) =~= d@.subrange(p as int, p + 8 * i));
    }
    r
}


/// A stored string that parses fits its length prefix and is stored exactly
/// as `text_bytes` writes it.
pub proof fn lemma_text_parsed(d: Seq<u8>, p: int)
    requires
        parse_text(d, p) is Some,
    ensures
        text_fits(parse_text(d, p)->Some_0.0),
        text_bytes(parse_text(d, p)->Some_0.0) == d.subrange(p, parse_text(d, p)->Some_0.1),
{
    let n = u32_at(d, p) as int;
    let body = d.subrange(p + 4, p + 4 + n);
    decode_utf8_encode_utf8(body);
    lemma_u32_bytes(d, p);
    assert(text_bytes(decode_utf8(body)) =~= d.subrange(p, p + 4 + n));
}

} // verus!
