//! Deterministic, self-describing CBOR building blocks: shortest-form
//! length headers, definite-length text and byte strings, null, and the
//! self-describing tag.  The framing lemmas show that a length-prefixed
//! item followed by a remainder determines both, which yields injectivity
//! of the encodings built from these blocks.

use vstd::prelude::*;

use crate::uuid::{lemma_be_bytes_val, lemma_be_val_injective, pow256, spec_be_bytes};
use vstd::utf8::encode_utf8;

verus! {

/// The shortest-form CBOR header for a major type and a length or value.
pub open spec fn spec_cbor_header(major: u8, v: int) -> Seq<u8>
    recommends
        major < 8,
        0 <= v <= u64::MAX,
{
    if v <= 23 {
        seq![(major * 32 + v) as u8]
    } else if v <= 255 {
        seq![(major * 32 + 24) as u8, v as u8]
    } else if v <= 65535 {
        seq![(major * 32 + 25) as u8] + spec_be_bytes(v, 2)
    } else if v <= 0xFFFF_FFFF {
        seq![(major * 32 + 26) as u8] + spec_be_bytes(v, 4)
    } else {
        seq![(major * 32 + 27) as u8] + spec_be_bytes(v, 8)
    }
}

/// A definite-length CBOR text string: major 3, the byte length of the
/// UTF-8 encoding, then the UTF-8 bytes.
pub open spec fn spec_cbor_text(s: Seq<char>) -> Seq<u8> {
    spec_cbor_header(3, encode_utf8(s).len() as int) + encode_utf8(s)
}

/// A definite-length CBOR byte string: major 2.
pub open spec fn spec_cbor_bytes(b: Seq<u8>) -> Seq<u8> {
    spec_cbor_header(2, b.len() as int) + b
}

/// The CBOR null value.
pub open spec fn spec_cbor_null() -> Seq<u8> {
    seq![0xF6u8]
}

/// An optional text string: null when absent.
pub open spec fn spec_cbor_opt_text(o: Option<Seq<char>>) -> Seq<u8> {
    match o {
        Some(s) => spec_cbor_text(s),
        None => spec_cbor_null(),
    }
}

/// The self-describing CBOR tag 55799.
pub open spec fn spec_cbor_self_describe() -> Seq<u8> {
    seq![0xD9u8, 0xD9u8, 0xF7u8]
}

/// The header of a definite-length CBOR map with `n` entries: major 5.
pub open spec fn spec_cbor_map_header(n: int) -> Seq<u8> {
    spec_cbor_header(5, n)
}

proof fn lemma_be_bytes_len(v: int, n: nat)
    ensures
        spec_be_bytes(v, n).len() == n,
    decreases n,
{
    if n > 0 {
        lemma_be_bytes_len(v / 256, (n - 1) as nat);
    }
}

/// The header's first byte determines its form, so equal byte sequences
/// starting with headers of one major type carry equal values, and the
/// remainders agree.
pub proof fn lemma_cbor_header_frame(major: u8, v1: int, v2: int, r1: Seq<u8>, r2: Seq<u8>)
    requires
        major < 8,
        0 <= v1 <= u64::MAX,
        0 <= v2 <= u64::MAX,
        spec_cbor_header(major, v1) + r1 == spec_cbor_header(major, v2) + r2,
    ensures
        v1 == v2,
        r1 == r2,
{
    let h1 = spec_cbor_header(major, v1);
    let h2 = spec_cbor_header(major, v2);
    let a = h1 + r1;
    let b = h2 + r2;
    assert(a[0] == b[0]);
    lemma_be_bytes_len(v1, 2);
    lemma_be_bytes_len(v2, 2);
    lemma_be_bytes_len(v1, 4);
    lemma_be_bytes_len(v2, 4);
    lemma_be_bytes_len(v1, 8);
    lemma_be_bytes_len(v2, 8);
    lemma_pow256_vals();
    if v1 <= 23 {
        assert(v1 == v2);
    } else if v1 <= 255 {
        assert(a[1] == b[1]);
        assert(v1 == v2);
    } else if v1 <= 65535 {
        lemma_be_bytes_val(v1, 2);
        lemma_be_bytes_val(v2, 2);
        assert(h1.len() == 3 && h2.len() == 3);
        assert(spec_be_bytes(v1, 2) =~= a.subrange(1, 3));
        assert(spec_be_bytes(v2, 2) =~= b.subrange(1, 3));
        lemma_be_val_injective(spec_be_bytes(v1, 2), spec_be_bytes(v2, 2));
    } else if v1 <= 0xFFFF_FFFF {
        lemma_be_bytes_val(v1, 4);
        lemma_be_bytes_val(v2, 4);
        assert(h1.len() == 5 && h2.len() == 5);
        assert(spec_be_bytes(v1, 4) =~= a.subrange(1, 5));
        assert(spec_be_bytes(v2, 4) =~= b.subrange(1, 5));
        lemma_be_val_injective(spec_be_bytes(v1, 4), spec_be_bytes(v2, 4));
    } else {
        lemma_be_bytes_val(v1, 8);
        lemma_be_bytes_val(v2, 8);
        assert(h1.len() == 9 && h2.len() == 9);
        assert(spec_be_bytes(v1, 8) =~= a.subrange(1, 9));
        assert(spec_be_bytes(v2, 8) =~= b.subrange(1, 9));
        lemma_be_val_injective(spec_be_bytes(v1, 8), spec_be_bytes(v2, 8));
    }
    assert(h1.len() == h2.len());
    assert(r1 =~= a.subrange(h1.len() as int, a.len() as int));
    assert(r2 =~= b.subrange(h2.len() as int, b.len() as int));
}

proof fn lemma_pow256_vals()
    ensures
        pow256(2) == 0x1_0000,
        pow256(4) == 0x1_0000_0000,
        pow256(8) == 0x1_0000_0000_0000_0000,
{
    reveal_with_fuel(pow256, 9);
}

/// A length-prefixed byte string followed by a remainder determines both.
pub proof fn lemma_cbor_bytes_frame(b1: Seq<u8>, r1: Seq<u8>, b2: Seq<u8>, r2: Seq<u8>)
    requires
        b1.len() <= u64::MAX,
        b2.len() <= u64::MAX,
        spec_cbor_bytes(b1) + r1 == spec_cbor_bytes(b2) + r2,
    ensures
        b1 == b2,
        r1 == r2,
{
    let h1 = spec_cbor_header(2, b1.len() as int);
    let h2 = spec_cbor_header(2, b2.len() as int);
    assert((h1 + b1) + r1 =~= h1 + (b1 + r1));
    assert((h2 + b2) + r2 =~= h2 + (b2 + r2));
    lemma_cbor_header_frame(2, b1.len() as int, b2.len() as int, b1 + r1, b2 + r2);
    assert(b1 =~= (b1 + r1).subrange(0, b1.len() as int));
    assert(b2 =~= (b2 + r2).subrange(0, b2.len() as int));
    assert(r1 =~= (b1 + r1).subrange(b1.len() as int, (b1 + r1).len() as int));
    assert(r2 =~= (b2 + r2).subrange(b2.len() as int, (b2 + r2).len() as int));
}

/// A text string followed by a remainder determines the characters and
/// the remainder.
pub proof fn lemma_cbor_text_frame(s1: Seq<char>, r1: Seq<u8>, s2: Seq<char>, r2: Seq<u8>)
    requires
        encode_utf8(s1).len() <= u64::MAX,
        encode_utf8(s2).len() <= u64::MAX,
        spec_cbor_text(s1) + r1 == spec_cbor_text(s2) + r2,
    ensures
        s1 == s2,
        r1 == r2,
{
    let u1 = encode_utf8(s1);
    let u2 = encode_utf8(s2);
    let h1 = spec_cbor_header(3, u1.len() as int);
    let h2 = spec_cbor_header(3, u2.len() as int);
    assert((h1 + u1) + r1 =~= h1 + (u1 + r1));
    assert((h2 + u2) + r2 =~= h2 + (u2 + r2));
    lemma_cbor_header_frame(3, u1.len() as int, u2.len() as int, u1 + r1, u2 + r2);
    assert(u1 =~= (u1 + r1).subrange(0, u1.len() as int));
    assert(u2 =~= (u2 + r2).subrange(0, u2.len() as int));
    assert(r1 =~= (u1 + r1).subrange(u1.len() as int, (u1 + r1).len() as int));
    assert(r2 =~= (u2 + r2).subrange(u2.len() as int, (u2 + r2).len() as int));
    vstd::utf8::encode_utf8_decode_utf8(s1);
    vstd::utf8::encode_utf8_decode_utf8(s2);
}

/// An optional text string followed by a remainder determines both: the
/// null byte is not a text header.
pub proof fn lemma_cbor_opt_text_frame(
    o1: Option<Seq<char>>,
    r1: Seq<u8>,
    o2: Option<Seq<char>>,
    r2: Seq<u8>,
)
    requires
        o1 is Some ==> encode_utf8(o1.unwrap()).len() <= u64::MAX,
        o2 is Some ==> encode_utf8(o2.unwrap()).len() <= u64::MAX,
        spec_cbor_opt_text(o1) + r1 == spec_cbor_opt_text(o2) + r2,
    ensures
        o1 == o2,
        r1 == r2,
{
    match (o1, o2) {
        (None, None) => {
            let a = spec_cbor_null() + r1;
            let b = spec_cbor_null() + r2;
            assert(a.len() == b.len());
            assert(r1 =~= a.subrange(1, a.len() as int));
            assert(r2 =~= b.subrange(1, b.len() as int));
        },
        (Some(s1), Some(s2)) => {
            lemma_cbor_text_frame(s1, r1, s2, r2);
        },
        (Some(s1), None) => {
            let h = spec_cbor_header(3, encode_utf8(s1).len() as int);
            assert((spec_cbor_text(s1) + r1)[0] == h[0]);
            assert((spec_cbor_null() + r2)[0] == 0xF6u8);
            assert(h[0] != 0xF6u8);
            assert(false);
        },
        (None, Some(s2)) => {
            let h = spec_cbor_header(3, encode_utf8(s2).len() as int);
            assert((spec_cbor_text(s2) + r2)[0] == h[0]);
            assert((spec_cbor_null() + r1)[0] == 0xF6u8);
            assert(h[0] != 0xF6u8);
            assert(false);
        },
    }
}

/// Appends the shortest-form header for a major type and value.
pub fn cbor_push_header(out: &mut Vec<u8>, major: u8, v: u64)
    requires
        major < 8,
    ensures
        final(out)@ == old(out)@ + spec_cbor_header(major, v as int),
{
    if v <= 23 {
        out.push(major * 32 + v as u8);
        proof {
            assert(out@ =~= old(out)@ + spec_cbor_header(major, v as int));
        }
    } else if v <= 255 {
        out.push(major * 32 + 24);
        out.push(v as u8);
        proof {
            assert(out@ =~= old(out)@ + spec_cbor_header(major, v as int));
        }
    } else if v <= 65535 {
        out.push(major * 32 + 25);
        push_be_bytes(out, v, 2);
        proof {
            assert(out@ =~= old(out)@ + spec_cbor_header(major, v as int));
        }
    } else if v <= 0xFFFF_FFFF {
        out.push(major * 32 + 26);
        push_be_bytes(out, v, 4);
        proof {
            assert(out@ =~= old(out)@ + spec_cbor_header(major, v as int));
        }
    } else {
        out.push(major * 32 + 27);
        push_be_bytes(out, v, 8);
        proof {
            assert(out@ =~= old(out)@ + spec_cbor_header(major, v as int));
        }
    }
}

fn push_be_bytes(out: &mut Vec<u8>, v: u64, n: usize)
    requires
        n <= 8,
    ensures
        final(out)@ == old(out)@ + spec_be_bytes(v as int, n as nat),
    decreases n,
{
    if n == 0 {
        proof {
            assert(out@ =~= old(out)@ + spec_be_bytes(v as int, 0));
        }
    } else {
        push_be_bytes(out, v / 256, n - 1);
        out.push((v % 256) as u8);
        proof {
            assert(out@ =~= old(out)@ + spec_be_bytes(v as int, n as nat));
        }
    }
}

/// Appends a definite-length text string.
pub fn cbor_push_text(out: &mut Vec<u8>, s: &str)
    ensures
        final(out)@ == old(out)@ + spec_cbor_text(s@),
{
    let bytes = s.as_bytes_vec();
    cbor_push_header(out, 3, bytes.len() as u64);
    append_all(out, &bytes);
    proof {
        assert(out@ =~= old(out)@ + spec_cbor_text(s@));
    }
}

/// Appends a definite-length byte string.
pub fn cbor_push_bytes(out: &mut Vec<u8>, b: &Vec<u8>)
    ensures
        final(out)@ == old(out)@ + spec_cbor_bytes(b@),
{
    cbor_push_header(out, 2, b.len() as u64);
    append_all(out, b);
    proof {
        assert(out@ =~= old(out)@ + spec_cbor_bytes(b@));
    }
}

/// Appends the null value.
pub fn cbor_push_null(out: &mut Vec<u8>)
    ensures
        final(out)@ == old(out)@ + spec_cbor_null(),
{
    out.push(0xF6);
    proof {
        assert(out@ =~= old(out)@ + spec_cbor_null());
    }
}

/// Appends a text string or null.
pub fn cbor_push_opt_text(out: &mut Vec<u8>, o: &Option<String>)
    ensures
        final(out)@ == old(out)@ + spec_cbor_opt_text(spec_opt_view(*o)),
{
    match o {
        Some(s) => {
            cbor_push_text(out, s.as_str());
        },
        None => {
            cbor_push_null(out);
        },
    }
}

/// The character view of an optional string.
pub open spec fn spec_opt_view(o: Option<String>) -> Option<Seq<char>> {
    match o {
        Some(s) => Some(s@),
        None => None,
    }
}

/// Appends the self-describing tag.
pub fn cbor_push_self_describe(out: &mut Vec<u8>)
    ensures
        final(out)@ == old(out)@ + spec_cbor_self_describe(),
{
    out.push(0xD9);
    out.push(0xD9);
    out.push(0xF7);
    proof {
        assert(out@ =~= old(out)@ + spec_cbor_self_describe());
    }
}

/// Appends the header of a definite-length map.
pub fn cbor_push_map_header(out: &mut Vec<u8>, n: u64)
    ensures
        final(out)@ == old(out)@ + spec_cbor_map_header(n as int),
{
    cbor_push_header(out, 5, n);
}

/// Appends every byte of `src`.
pub fn append_all(out: &mut Vec<u8>, src: &Vec<u8>)
    ensures
        final(out)@ == old(out)@ + src@,
{
    let n = src.len();
    for i in 0..n
        invariant
            n == src@.len(),
            out@ == old(out)@ + src@.take(i as int),
    {
        out.push(src[i]);
        proof {
            assert(out@ =~= old(out)@ + src@.take(i + 1));
        }
    }
    proof {
        assert(src@.take(n as int) =~= src@);
        assert(out@ =~= old(out)@ + src@);
    }
}

} // verus!
