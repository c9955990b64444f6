//! Little-endian byte serialization for the wire format: fixed-width integers
//! and length-prefixed lists, with exact round-trip guarantees.

use vstd::prelude::*;
use vstd::slice::{slice_index_get, slice_subrange};

verus! {

/// Error returned when a byte stream ends before a complete value was read.
#[derive(Clone, Copy, PartialEq, Eq, Structural, Debug)]
pub enum CodecError {
    EarlyEndOfStream,
}

/// The four little-endian bytes of a 32-bit integer.
pub open spec fn u32_le(x: u32) -> Seq<u8> {
    seq![
        (x & 0xff) as u8,
        ((x >> 8) & 0xff) as u8,
        ((x >> 16) & 0xff) as u8,
        ((x >> 24) & 0xff) as u8,
    ]
}

/// The 32-bit integer denoted by four little-endian bytes.
pub open spec fn u32_from_le(b0: u8, b1: u8, b2: u8, b3: u8) -> u32 {
    ((b0 as u32) | ((b1 as u32) << 8) | ((b2 as u32) << 16) | ((b3 as u32) << 24)) as u32
}

/// The eight little-endian bytes of a 64-bit integer.
pub open spec fn u64_le(x: u64) -> Seq<u8> {
    seq![
        (x & 0xff) as u8,
        ((x >> 8) & 0xff) as u8,
        ((x >> 16) & 0xff) as u8,
        ((x >> 24) & 0xff) as u8,
        ((x >> 32) & 0xff) as u8,
        ((x >> 40) & 0xff) as u8,
        ((x >> 48) & 0xff) as u8,
        ((x >> 56) & 0xff) as u8,
    ]
}

/// The 64-bit integer denoted by eight little-endian bytes.
pub open spec fn u64_from_le(b: Seq<u8>) -> u64
    recommends
        b.len() == 8,
{
    ((b[0] as u64) | ((b[1] as u64) << 8) | ((b[2] as u64) << 16) | ((b[3] as u64) << 24)
        | ((b[4] as u64) << 32) | ((b[5] as u64) << 40) | ((b[6] as u64) << 48)
        | ((b[7] as u64) << 56)) as u64
}

/// Decoding four little-endian bytes gives back the encoded 32-bit integer.
pub proof fn lemma_u32_le_roundtrip(x: u32)
    ensures
        u32_from_le(u32_le(x)[0], u32_le(x)[1], u32_le(x)[2], u32_le(x)[3]) == x,
{
    assert((((x & 0xff) as u8 as u32) | ((((x >> 8) & 0xff) as u8 as u32) << 8) | ((((x >> 16)
        & 0xff) as u8 as u32) << 16) | ((((x >> 24) & 0xff) as u8 as u32) << 24)) as u32 == x)
        by (bit_vector);
}

/// Encoding the 32-bit integer read from four bytes reproduces those bytes.
pub proof fn lemma_u32_le_canonical(b0: u8, b1: u8, b2: u8, b3: u8)
    ensures
        u32_le(u32_from_le(b0, b1, b2, b3)) =~= seq![b0, b1, b2, b3],
{
    assert(((b0 as u32 | (b1 as u32) << 8 | (b2 as u32) << 16 | (b3 as u32) << 24) & 0xff) as u8
        == b0) by (bit_vector);
    assert((((b0 as u32 | (b1 as u32) << 8 | (b2 as u32) << 16 | (b3 as u32) << 24) >> 8) & 0xff)
        as u8 == b1) by (bit_vector);
    assert((((b0 as u32 | (b1 as u32) << 8 | (b2 as u32) << 16 | (b3 as u32) << 24) >> 16) & 0xff)
        as u8 == b2) by (bit_vector);
    assert((((b0 as u32 | (b1 as u32) << 8 | (b2 as u32) << 16 | (b3 as u32) << 24) >> 24) & 0xff)
        as u8 == b3) by (bit_vector);
}

/// Decoding eight little-endian bytes gives back the encoded 64-bit integer.
pub proof fn lemma_u64_le_roundtrip(x: u64)
    ensures
        u64_from_le(u64_le(x)) == x,
{
    assert((((x & 0xff) as u8 as u64) | ((((x >> 8) & 0xff) as u8 as u64) << 8) | ((((x >> 16)
        & 0xff) as u8 as u64) << 16) | ((((x >> 24) & 0xff) as u8 as u64) << 24) | ((((x >> 32)
        & 0xff) as u8 as u64) << 32) | ((((x >> 40) & 0xff) as u8 as u64) << 40) | ((((x >> 48)
        & 0xff) as u8 as u64) << 48) | ((((x >> 56) & 0xff) as u8 as u64) << 56)) as u64 == x)
        by (bit_vector);
}

/// Encoding the 64-bit integer read from eight bytes reproduces those
/// bytes: the encoding is canonical.
pub proof fn lemma_u64_le_canonical(b: Seq<u8>)
    requires
        b.len() == 8,
    ensures
        u64_le(u64_from_le(b)) =~= b,
{
    let b0 = b[0];
    let b1 = b[1];
    let b2 = b[2];
    let b3 = b[3];
    let b4 = b[4];
    let b5 = b[5];
    let b6 = b[6];
    let b7 = b[7];
    let x = u64_from_le(b);
    assert(x == ((b0 as u64) | ((b1 as u64) << 8) | ((b2 as u64) << 16) | ((b3 as u64) << 24) | ((
    b4 as u64) << 32) | ((b5 as u64) << 40) | ((b6 as u64) << 48) | ((b7 as u64) << 56)) as u64);
    assert((((b0 as u64) | ((b1 as u64) << 8) | ((b2 as u64) << 16) | ((b3 as u64) << 24) | ((b4 as u64) << 32) | ((b5 as u64) << 40) | ((b6 as u64) << 48) | ((b7 as u64) << 56)) & 0xff) as u8 == b0) by (bit_vector);
    assert(((((b0 as u64) | ((b1 as u64) << 8) | ((b2 as u64) << 16) | ((b3 as u64) << 24) | ((b4 as u64) << 32) | ((b5 as u64) << 40) | ((b6 as u64) << 48) | ((b7 as u64) << 56)) >> 8) & 0xff) as u8 == b1) by (bit_vector);
    assert(((((b0 as u64) | ((b1 as u64) << 8) | ((b2 as u64) << 16) | ((b3 as u64) << 24) | ((b4 as u64) << 32) | ((b5 as u64) << 40) | ((b6 as u64) << 48) | ((b7 as u64) << 56)) >> 16) & 0xff) as u8 == b2) by (bit_vector);
    assert(((((b0 as u64) | ((b1 as u64) << 8) | ((b2 as u64) << 16) | ((b3 as u64) << 24) | ((b4 as u64) << 32) | ((b5 as u64) << 40) | ((b6 as u64) << 48) | ((b7 as u64) << 56)) >> 24) & 0xff) as u8 == b3) by (bit_vector);
    assert(((((b0 as u64) | ((b1 as u64) << 8) | ((b2 as u64) << 16) | ((b3 as u64) << 24) | ((b4 as u64) << 32) | ((b5 as u64) << 40) | ((b6 as u64) << 48) | ((b7 as u64) << 56)) >> 32) & 0xff) as u8 == b4) by (bit_vector);
    assert(((((b0 as u64) | ((b1 as u64) << 8) | ((b2 as u64) << 16) | ((b3 as u64) << 24) | ((b4 as u64) << 32) | ((b5 as u64) << 40) | ((b6 as u64) << 48) | ((b7 as u64) << 56)) >> 40) & 0xff) as u8 == b5) by (bit_vector);
    assert(((((b0 as u64) | ((b1 as u64) << 8) | ((b2 as u64) << 16) | ((b3 as u64) << 24) | ((b4 as u64) << 32) | ((b5 as u64) << 40) | ((b6 as u64) << 48) | ((b7 as u64) << 56)) >> 48) & 0xff) as u8 == b6) by (bit_vector);
    assert(((((b0 as u64) | ((b1 as u64) << 8) | ((b2 as u64) << 16) | ((b3 as u64) << 24) | ((b4 as u64) << 32) | ((b5 as u64) << 40) | ((b6 as u64) << 48) | ((b7 as u64) << 56)) >> 56) & 0xff) as u8 == b7) by (bit_vector);
}

/// Appends the four little-endian bytes of `x`.
pub fn write_u32(out: &mut Vec<u8>, x: u32)
    ensures
        final(out)@ == old(out)@ + u32_le(x),
{
    out.push((x & 0xff) as u8);
    out.push(((x >> 8) & 0xff) as u8);
    out.push(((x >> 16) & 0xff) as u8);
    out.push(((x >> 24) & 0xff) as u8);
    proof {
        assert(out@ =~= old(out)@ + u32_le(x));
    }
}

/// Appends the eight little-endian bytes of `x`.
pub fn write_u64(out: &mut Vec<u8>, x: u64)
    ensures
        final(out)@ == old(out)@ + u64_le(x),
{
    out.push((x & 0xff) as u8);
    out.push(((x >> 8) & 0xff) as u8);
    out.push(((x >> 16) & 0xff) as u8);
    out.push(((x >> 24) & 0xff) as u8);
    out.push(((x >> 32) & 0xff) as u8);
    out.push(((x >> 40) & 0xff) as u8);
    out.push(((x >> 48) & 0xff) as u8);
    out.push(((x >> 56) & 0xff) as u8);
    proof {
        assert(out@ =~= old(out)@ + u64_le(x));
    }
}

/// Reads a 32-bit integer from the front of `bytes`; `None` when fewer than
/// four bytes remain.
pub open spec fn parse_u32(s: Seq<u8>) -> Option<(u32, Seq<u8>)> {
    if s.len() < 4 {
        None
    } else {
        Some((u32_from_le(s[0], s[1], s[2], s[3]), s.skip(4)))
    }
}

/// Reads a 64-bit integer from the front of `bytes`; `None` when fewer than
/// eight bytes remain.
pub open spec fn parse_u64(s: Seq<u8>) -> Option<(u64, Seq<u8>)> {
    if s.len() < 8 {
        None
    } else {
        Some((u64_from_le(s.take(8)), s.skip(8)))
    }
}

/// Reads a 32-bit integer and returns it with the remaining bytes.
pub fn read_u32(bytes: &[u8]) -> (r: Result<(u32, &[u8]), CodecError>)
    ensures
        r is Ok <==> parse_u32(bytes@) is Some,
        (r matches Ok((v, rest)) ==> parse_u32(bytes@) == Some((v, rest@))),
        r is Err ==> r->Err_0 == CodecError::EarlyEndOfStream,
{
    if bytes.len() < 4 {
        return Err(CodecError::EarlyEndOfStream);
    }
    let b0 = *slice_index_get(bytes, 0);
    let b1 = *slice_index_get(bytes, 1);
    let b2 = *slice_index_get(bytes, 2);
    let b3 = *slice_index_get(bytes, 3);
    let v = (b0 as u32) | ((b1 as u32) << 8) | ((b2 as u32) << 16) | ((b3 as u32) << 24);
    let rest = slice_subrange(bytes, 4, bytes.len());
    Ok((v, rest))
}

/// Reads a 64-bit integer and returns it with the remaining bytes.
pub fn read_u64(bytes: &[u8]) -> (r: Result<(u64, &[u8]), CodecError>)
    ensures
        r is Ok <==> parse_u64(bytes@) is Some,
        (r matches Ok((v, rest)) ==> parse_u64(bytes@) == Some((v, rest@))),
        r is Err ==> r->Err_0 == CodecError::EarlyEndOfStream,
{
    if bytes.len() < 8 {
        return Err(CodecError::EarlyEndOfStream);
    }
    let b0 = *slice_index_get(bytes, 0);
    let b1 = *slice_index_get(bytes, 1);
    let b2 = *slice_index_get(bytes, 2);
    let b3 = *slice_index_get(bytes, 3);
    let b4 = *slice_index_get(bytes, 4);
    let b5 = *slice_index_get(bytes, 5);
    let b6 = *slice_index_get(bytes, 6);
    let b7 = *slice_index_get(bytes, 7);
    let v = (b0 as u64) | ((b1 as u64) << 8) | ((b2 as u64) << 16) | ((b3 as u64) << 24) | ((
    b4 as u64) << 32) | ((b5 as u64) << 40) | ((b6 as u64) << 48) | ((b7 as u64) << 56);
    let rest = slice_subrange(bytes, 8, bytes.len());
    proof {
        assert(bytes@.take(8)[0] == b0 && bytes@.take(8)[1] == b1 && bytes@.take(8)[2] == b2
            && bytes@.take(8)[3] == b3 && bytes@.take(8)[4] == b4 && bytes@.take(8)[5] == b5
            && bytes@.take(8)[6] == b6 && bytes@.take(8)[7] == b7);
    }
    Ok((v, rest))
}

/// The concatenated little-endian bytes of a list of 32-bit integers.
pub open spec fn u32_seq_le(s: Seq<u32>) -> Seq<u8>
    decreases s.len(),
{
    if s.len() == 0 {
        Seq::empty()
    } else {
        u32_le(s[0]) + u32_seq_le(s.drop_first())
    }
}

/// The bytes of a list of 32-bit integers, prefixed by its 32-bit length.
pub open spec fn u32_vec_le(s: Seq<u32>) -> Seq<u8>
    recommends
        s.len() <= u32::MAX,
{
    u32_le(s.len() as u32) + u32_seq_le(s)
}

/// Appending one element extends the encoding by that element's bytes.
pub proof fn lemma_u32_seq_le_push(s: Seq<u32>, x: u32)
    ensures
        u32_seq_le(s.push(x)) == u32_seq_le(s) + u32_le(x),
    decreases s.len(),
{
    if s.len() == 0 {
        assert(s.push(x)[0] == x);
        assert(s.push(x).drop_first() =~= Seq::<u32>::empty());
        assert(u32_le(x) + u32_seq_le(Seq::<u32>::empty()) =~= u32_le(x));
        assert(u32_seq_le(s) + u32_le(x) =~= u32_le(x));
    } else {
        lemma_u32_seq_le_push(s.drop_first(), x);
        assert(s.push(x).drop_first() =~= s.drop_first().push(x));
        assert(s.push(x)[0] == s[0]);
        assert(u32_le(s[0]) + (u32_seq_le(s.drop_first()) + u32_le(x)) =~= (u32_le(s[0])
            + u32_seq_le(s.drop_first())) + u32_le(x));
    }
}

/// Reads `n` consecutive 32-bit integers from the front of `s`.
pub open spec fn parse_u32_seq(s: Seq<u8>, n: nat) -> Option<(Seq<u32>, Seq<u8>)>
    decreases n,
{
    if n == 0 {
        Some((Seq::empty(), s))
    } else {
        match parse_u32(s) {
            None => None,
            Some((v, r)) => match parse_u32_seq(r, (n - 1) as nat) {
                None => None,
                Some((vs, r2)) => Some((seq![v] + vs, r2)),
            },
        }
    }
}

/// Reads a 32-bit length and then that many 32-bit integers.
pub open spec fn parse_u32_vec(s: Seq<u8>) -> Option<(Seq<u32>, Seq<u8>)> {
    match parse_u32(s) {
        None => None,
        Some((n, r)) => parse_u32_seq(r, n as nat),
    }
}

/// Appends the length-prefixed bytes of the elements of `v`.
pub fn write_u32_vec(out: &mut Vec<u8>, v: &Vec<u32>)
    requires
        v@.len() <= u32::MAX,
    ensures
        final(out)@ == old(out)@ + u32_vec_le(v@),
{
    let n: u32 = v.len() as u32;
    write_u32(out, n);
    let ghost base = out@;
    let mut i: usize = 0;
    while i < v.len()
        invariant
            i <= v@.len(),
            v@.len() <= u32::MAX,
            out@ == base + u32_seq_le(v@.take(i as int)),
        decreases v@.len() - i,
    {
        let ghost before = v@.take(i as int);
        write_u32(out, v[i]);
        proof {
            lemma_u32_seq_le_push(before, v@[i as int]);
            assert(v@.take(i as int + 1) =~= before.push(v@[i as int]));
            assert(base + (u32_seq_le(before) + u32_le(v@[i as int])) =~= (base
                + u32_seq_le(before)) + u32_le(v@[i as int]));
        }
        i = i + 1;
    }
    proof {
        assert(v@.take(v@.len() as int) =~= v@);
        assert(base + u32_seq_le(v@) =~= old(out)@ + u32_vec_le(v@));
    }
}

/// Reads a length-prefixed list of 32-bit integers.
pub fn read_u32_vec(bytes: &[u8]) -> (r: Result<(Vec<u32>, &[u8]), CodecError>)
    ensures
        r is Ok <==> parse_u32_vec(bytes@) is Some,
        (r matches Ok((v, rest)) ==> parse_u32_vec(bytes@) == Some((v@, rest@))),
        r is Err ==> r->Err_0 == CodecError::EarlyEndOfStream,
{
    let (n, mut cur) = match read_u32(bytes) {
        Ok(p) => p,
        Err(e) => {
            return Err(e);
        },
    };
    let mut acc: Vec<u32> = Vec::new();
    let mut remaining: u32 = n;
    while remaining > 0
        invariant
            parse_u32_seq(cur@, remaining as nat) matches Some((vs, r2))
                ==> parse_u32_vec(bytes@) == Some((acc@ + vs, r2)),
            parse_u32_seq(cur@, remaining as nat) is None ==> parse_u32_vec(bytes@) is None,
        decreases remaining,
    {
        let (v, next) = match read_u32(cur) {
            Ok(p) => p,
            Err(e) => {
                return Err(e);
            },
        };
        proof {
            let tail = parse_u32_seq(next@, (remaining - 1) as nat);
            if tail is Some {
                let (vs, r2) = tail->Some_0;
                assert(parse_u32_seq(cur@, remaining as nat) == Some((seq![v] + vs, r2)));
                assert(acc@.push(v) + vs =~= acc@ + (seq![v] + vs));
            }
        }
        acc.push(v);
        cur = next;
        remaining = remaining - 1;
    }
    proof {
        assert(parse_u32_seq(cur@, 0) == Some((Seq::<u32>::empty(), cur@)));
        assert(acc@ + Seq::<u32>::empty() =~= acc@);
    }
    Ok((acc, cur))
}

/// Parsing bytes that begin with the encoding of a list yields that list.
pub proof fn lemma_parse_u32_seq_of_encoding(s: Seq<u32>, rest: Seq<u8>)
    ensures
        parse_u32_seq(u32_seq_le(s) + rest, s.len()) == Some((s, rest)),
    decreases s.len(),
{
    if s.len() == 0 {
        assert(u32_seq_le(s) + rest =~= rest);
        assert(parse_u32_seq(u32_seq_le(s) + rest, 0) == Some((Seq::<u32>::empty(), rest)));
        assert(Seq::<u32>::empty() =~= s);
    } else {
        let tail_bytes = u32_seq_le(s.drop_first()) + rest;
        lemma_parse_u32_of_encoding(s[0], tail_bytes);
        assert(u32_seq_le(s) + rest =~= u32_le(s[0]) + tail_bytes);
        lemma_parse_u32_seq_of_encoding(s.drop_first(), rest);
        assert(seq![s[0]] + s.drop_first() =~= s);
    }
}

/// Parsing bytes that begin with a length-prefixed list yields that list.
pub proof fn lemma_parse_u32_vec_of_encoding(s: Seq<u32>, rest: Seq<u8>)
    requires
        s.len() <= u32::MAX,
    ensures
        parse_u32_vec(u32_vec_le(s) + rest) == Some((s, rest)),
{
    let body = u32_seq_le(s) + rest;
    lemma_parse_u32_of_encoding(s.len() as u32, body);
    assert(u32_vec_le(s) + rest =~= u32_le(s.len() as u32) + body);
    lemma_parse_u32_seq_of_encoding(s, rest);
}

/// Parsing bytes that begin with the encoding of `x` yields `x` and the rest.
pub proof fn lemma_parse_u32_of_encoding(x: u32, rest: Seq<u8>)
    ensures
        parse_u32(u32_le(x) + rest) == Some((x, rest)),
{
    let s = u32_le(x) + rest;
    lemma_u32_le_roundtrip(x);
    assert(s.skip(4) =~= rest);
}

/// Parsing bytes that begin with the encoding of `x` yields `x` and the rest.
pub proof fn lemma_parse_u64_of_encoding(x: u64, rest: Seq<u8>)
    ensures
        parse_u64(u64_le(x) + rest) == Some((x, rest)),
{
    let s = u64_le(x) + rest;
    lemma_u64_le_roundtrip(x);
    assert(s.take(8) =~= u64_le(x));
    assert(s.skip(8) =~= rest);
}

} // verus!
