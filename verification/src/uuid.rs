//! 128-bit identifiers with a total order, rendered as hyphenated
//! lowercase hexadecimal text, and constructed from platform randomness
//! with the version and variant bits forced.

use vstd::prelude::*;

use crate::hex::{
    hex_ascii, hex_decode, lemma_hex_round_trip, spec_all_hex, spec_hex_bytes, spec_hex_of,
};
use crate::strutil::{all_ascii, ascii_to_string, chars_of_bytes};

verus! {

/// The integer denoted by a big-endian byte sequence.
pub open spec fn spec_be_val(bytes: Seq<u8>) -> int
    decreases bytes.len(),
{
    if bytes.len() == 0 {
        0
    } else {
        spec_be_val(bytes.drop_last()) * 256 + bytes.last()
    }
}

/// 256 to the power `n`.
pub open spec fn pow256(n: nat) -> int
    decreases n,
{
    if n == 0 {
        1
    } else {
        256 * pow256((n - 1) as nat)
    }
}

/// The `n` big-endian bytes of a non-negative integer below `pow256(n)`.
pub open spec fn spec_be_bytes(v: int, n: nat) -> Seq<u8>
    decreases n,
{
    if n == 0 {
        Seq::<u8>::empty()
    } else {
        spec_be_bytes(v / 256, (n - 1) as nat).push((v % 256) as u8)
    }
}

pub proof fn lemma_be_val_bound(bytes: Seq<u8>)
    ensures
        0 <= spec_be_val(bytes) < pow256(bytes.len()),
    decreases bytes.len(),
{
    if bytes.len() == 0 {
    } else {
        lemma_be_val_bound(bytes.drop_last());
        let p = spec_be_val(bytes.drop_last());
        let q = pow256((bytes.len() - 1) as nat);
        assert(0 <= p * 256 + bytes.last() < q * 256) by (nonlinear_arith)
            requires
                0 <= p < q,
                0 <= bytes.last() < 256,
        ;
        assert(q * 256 == pow256(bytes.len()));
    }
}

pub proof fn lemma_be_val_injective(a: Seq<u8>, b: Seq<u8>)
    requires
        a.len() == b.len(),
        spec_be_val(a) == spec_be_val(b),
    ensures
        a == b,
    decreases a.len(),
{
    if a.len() == 0 {
        assert(a =~= b);
    } else {
        let pa = spec_be_val(a.drop_last());
        let pb = spec_be_val(b.drop_last());
        assert(pa == pb && a.last() == b.last()) by (nonlinear_arith)
            requires
                pa * 256 + a.last() == pb * 256 + b.last(),
                0 <= a.last() < 256,
                0 <= b.last() < 256,
        ;
        lemma_be_val_injective(a.drop_last(), b.drop_last());
        assert(a =~= a.drop_last().push(a.last()));
        assert(b =~= b.drop_last().push(b.last()));
    }
}

/// Rendering an integer as big-endian bytes and reading them back yields
/// the integer.
pub proof fn lemma_be_bytes_val(v: int, n: nat)
    requires
        0 <= v < pow256(n),
    ensures
        spec_be_bytes(v, n).len() == n,
        spec_be_val(spec_be_bytes(v, n)) == v,
    decreases n,
{
    if n == 0 {
    } else {
        assert(0 <= v / 256 < pow256((n - 1) as nat)) by (nonlinear_arith)
            requires
                0 <= v < 256 * pow256((n - 1) as nat),
        ;
        lemma_be_bytes_val(v / 256, (n - 1) as nat);
        let b = spec_be_bytes(v, n);
        assert(b.drop_last() =~= spec_be_bytes(v / 256, (n - 1) as nat));
        assert((v / 256) * 256 + v % 256 == v) by (nonlinear_arith);
    }
}

pub proof fn lemma_pow256_8()
    ensures
        pow256(8) == 0x1_0000_0000_0000_0000,
{
    reveal_with_fuel(pow256, 9);
}

/// A 128-bit identifier, held as its high and low 64-bit halves.
#[derive(Debug, Clone, Copy, PartialEq, Eq, Structural, PartialOrd, Ord)]
pub struct Uuid {
    pub hi: u64,
    pub lo: u64,
}

impl Uuid {
    /// The integer value of this identifier.
    pub open spec fn spec_val(self) -> int {
        self.hi * 0x1_0000_0000_0000_0000 + self.lo
    }

    /// The sixteen big-endian bytes of this identifier.
    pub open spec fn spec_bytes(self) -> Seq<u8> {
        spec_be_bytes(self.hi as int, 8) + spec_be_bytes(self.lo as int, 8)
    }

    /// The hyphenated lowercase hexadecimal text of this identifier.
    pub open spec fn spec_text(self) -> Seq<char> {
        spec_uuid_text_of_bytes(self.spec_bytes())
    }
}

/// Hyphenated rendering of sixteen identifier bytes: the 32 hexadecimal
/// digits with a separator after the 8th, 12th, 16th and 20th digit.
pub open spec fn spec_uuid_text_of_bytes(bytes: Seq<u8>) -> Seq<char> {
    let h = spec_hex_of(bytes);
    h.subrange(0, 8) + seq!['-'] + h.subrange(8, 12) + seq!['-'] + h.subrange(12, 16) + seq![
        '-',
    ] + h.subrange(16, 20) + seq!['-'] + h.subrange(20, 32)
}

/// The identifier whose big-endian bytes are the given sixteen bytes.
pub open spec fn spec_uuid_of_bytes(bytes: Seq<u8>) -> Uuid
    recommends
        bytes.len() == 16,
{
    Uuid {
        hi: spec_be_val(bytes.subrange(0, 8)) as u64,
        lo: spec_be_val(bytes.subrange(8, 16)) as u64,
    }
}

/// Identifier bytes round-trip: an identifier's bytes denote it.
pub proof fn lemma_uuid_bytes_round_trip(u: Uuid)
    ensures
        u.spec_bytes().len() == 16,
        spec_uuid_of_bytes(u.spec_bytes()) == u,
{
    lemma_pow256_8();
    lemma_be_bytes_val(u.hi as int, 8);
    lemma_be_bytes_val(u.lo as int, 8);
    assert(u.spec_bytes().subrange(0, 8) =~= spec_be_bytes(u.hi as int, 8));
    assert(u.spec_bytes().subrange(8, 16) =~= spec_be_bytes(u.lo as int, 8));
}

/// Equal values are equal identifiers: the halves are the digits of the
/// value in base two to the sixty-fourth.
pub proof fn lemma_uuid_val_injective(a: Uuid, b: Uuid)
    requires
        a.spec_val() == b.spec_val(),
    ensures
        a == b,
{
    assert(a.hi == b.hi && a.lo == b.lo) by (nonlinear_arith)
        requires
            a.hi * 0x1_0000_0000_0000_0000 + a.lo == b.hi * 0x1_0000_0000_0000_0000 + b.lo,
            a.lo < 0x1_0000_0000_0000_0000,
            b.lo < 0x1_0000_0000_0000_0000,
            0 <= a.lo,
            0 <= b.lo,
    ;
}

/// Sixteen bytes round-trip: the bytes of the identifier they denote are
/// those bytes.
pub proof fn lemma_bytes_uuid_round_trip(bytes: Seq<u8>)
    requires
        bytes.len() == 16,
    ensures
        spec_uuid_of_bytes(bytes).spec_bytes() == bytes,
{
    lemma_pow256_8();
    lemma_be_val_bound(bytes.subrange(0, 8));
    lemma_be_val_bound(bytes.subrange(8, 16));
    let u = spec_uuid_of_bytes(bytes);
    lemma_be_bytes_val(u.hi as int, 8);
    lemma_be_bytes_val(u.lo as int, 8);
    lemma_be_val_injective(spec_be_bytes(u.hi as int, 8), bytes.subrange(0, 8));
    lemma_be_val_injective(spec_be_bytes(u.lo as int, 8), bytes.subrange(8, 16));
    assert(u.spec_bytes() =~= bytes);
}

fn be_bytes_u64(v: u64, n: usize) -> (out: Vec<u8>)
    requires
        n <= 8,
    ensures
        out@ == spec_be_bytes(v as int, n as nat),
    decreases n,
{
    if n == 0 {
        Vec::new()
    } else {
        let mut out = be_bytes_u64(v / 256, n - 1);
        out.push((v % 256) as u8);
        out
    }
}

fn be_val_u64(bytes: &[u8], from: usize) -> (v: u64)
    requires
        from + 8 <= bytes@.len(),
    ensures
        v as int == spec_be_val(bytes@.subrange(from as int, from + 8)),
{
    let ghost whole = bytes@.subrange(from as int, from + 8);
    let n = bytes.len();
    let mut acc: u64 = 0;
    for i in 0..8usize
        invariant
            from + 8 <= n == bytes@.len(),
            acc as int == spec_be_val(whole.take(i as int)),
            whole == bytes@.subrange(from as int, from + 8),
        decreases 8 - i,
    {
        proof {
            lemma_be_val_bound(whole.take(i as int));
            lemma_pow256_8();
            lemma_pow256_le(i as nat, 7);
            assert(whole.take(i + 1).drop_last() =~= whole.take(i as int));
            assert(whole.take(i + 1).last() == bytes@[from + i]);
        }
        acc = acc * 256 + (bytes[from + i] as u64);
    }
    proof {
        assert(whole.take(8) =~= whole);
    }
    acc
}

proof fn lemma_pow256_le(a: nat, b: nat)
    requires
        a <= b,
    ensures
        pow256(a) <= pow256(b),
    decreases b,
{
    if a < b {
        lemma_pow256_le(a, (b - 1) as nat);
        lemma_pow256_pos((b - 1) as nat);
        assert(pow256((b - 1) as nat) <= 256 * pow256((b - 1) as nat)) by (nonlinear_arith)
            requires
                pow256((b - 1) as nat) >= 1,
        ;
    }
}

proof fn lemma_pow256_pos(n: nat)
    ensures
        pow256(n) >= 1,
    decreases n,
{
    if n > 0 {
        lemma_pow256_pos((n - 1) as nat);
    }
}

/// The identifier bytes obtained from sixteen random bytes: the version
/// nibble of the seventh byte is forced to 4 and the two high bits of the
/// ninth byte to the variant pattern `10`.
pub open spec fn spec_random_masked(bytes: Seq<u8>) -> Seq<u8>
    recommends
        bytes.len() == 16,
{
    bytes.update(6, ((bytes[6] & 0x0F) | 0x40) as u8).update(
        8,
        ((bytes[8] & 0x3F) | 0x80) as u8,
    )
}

impl Uuid {
    /// The least identifier: all-zero bytes.
    pub fn min() -> (u: Uuid)
        ensures
            u.hi == 0 && u.lo == 0,
            u.spec_val() == 0,
    {
        Uuid { hi: 0, lo: 0 }
    }

    /// The greatest identifier: all-ones bytes.
    pub fn max() -> (u: Uuid)
        ensures
            u.hi == u64::MAX && u.lo == u64::MAX,
            forall|o: Uuid| o.spec_val() <= u.spec_val(),
    {
        let u = Uuid { hi: 0xFFFF_FFFF_FFFF_FFFF, lo: 0xFFFF_FFFF_FFFF_FFFF };
        proof {
            assert forall|o: Uuid| o.spec_val() <= u.spec_val() by {
                assert(o.hi * 0x1_0000_0000_0000_0000 <= 0xFFFF_FFFF_FFFF_FFFF
                    * 0x1_0000_0000_0000_0000) by (nonlinear_arith)
                    requires
                        o.hi <= 0xFFFF_FFFF_FFFF_FFFFu64,
                ;
            }
        }
        u
    }

    /// Value order: whether this identifier is below the other.
    pub fn lt(&self, other: &Uuid) -> (r: bool)
        ensures
            r == (self.spec_val() < other.spec_val()),
    {
        let r = self.hi < other.hi || (self.hi == other.hi && self.lo < other.lo);
        proof {
            if self.hi < other.hi {
                assert(self.hi * 0x1_0000_0000_0000_0000 + self.lo < other.hi
                    * 0x1_0000_0000_0000_0000 + other.lo) by (nonlinear_arith)
                    requires
                        self.hi < other.hi,
                        self.lo < 0x1_0000_0000_0000_0000,
                        0 <= other.lo,
                ;
            }
            if other.hi < self.hi {
                assert(other.hi * 0x1_0000_0000_0000_0000 + other.lo < self.hi
                    * 0x1_0000_0000_0000_0000 + self.lo) by (nonlinear_arith)
                    requires
                        other.hi < self.hi,
                        other.lo < 0x1_0000_0000_0000_0000,
                        0 <= self.lo,
                ;
            }
        }
        r
    }

    /// Value equality of identifiers.
    pub fn same(&self, other: &Uuid) -> (r: bool)
        ensures
            r == (*self == *other),
    {
        self.hi == other.hi && self.lo == other.lo
    }

    /// Builds an identifier from sixteen bytes of randomness, forcing the
    /// version and variant bits.
    pub fn from_random_bytes(bytes: [u8; 16]) -> (u: Uuid)
        ensures
            u == spec_uuid_of_bytes(spec_random_masked(bytes@)),
    {
        let mut masked: Vec<u8> = Vec::new();
        for i in 0..16usize
            invariant
                masked@ == spec_random_masked(bytes@).take(i as int),
        {
            let b = bytes[i];
            let m: u8 = if i == 6 {
                (b & 0x0F) | 0x40
            } else if i == 8 {
                (b & 0x3F) | 0x80
            } else {
                b
            };
            masked.push(m);
            proof {
                assert(masked@ =~= spec_random_masked(bytes@).take(i + 1));
            }
        }
        proof {
            assert(spec_random_masked(bytes@).take(16) =~= spec_random_masked(bytes@));
        }
        Self::from_bytes(&masked)
    }

    /// Builds an identifier from its sixteen big-endian bytes.
    pub fn from_bytes(bytes: &Vec<u8>) -> (u: Uuid)
        requires
            bytes@.len() == 16,
        ensures
            u == spec_uuid_of_bytes(bytes@),
            u.spec_bytes() == bytes@,
    {
        let hi = be_val_u64(bytes.as_slice(), 0);
        let lo = be_val_u64(bytes.as_slice(), 8);
        proof {
            lemma_pow256_8();
            lemma_be_val_bound(bytes@.subrange(0, 8));
            lemma_be_val_bound(bytes@.subrange(8, 16));
            lemma_bytes_uuid_round_trip(bytes@);
        }
        Uuid { hi, lo }
    }

    /// The sixteen big-endian bytes of this identifier.
    pub fn to_bytes(&self) -> (out: Vec<u8>)
        ensures
            out@ == self.spec_bytes(),
            out@.len() == 16,
    {
        let mut out = be_bytes_u64(self.hi, 8);
        let mut lo_bytes = be_bytes_u64(self.lo, 8);
        out.append(&mut lo_bytes);
        proof {
            lemma_uuid_bytes_round_trip(*self);
        }
        out
    }

    /// The hyphenated lowercase hexadecimal text of this identifier.
    pub fn to_string(&self) -> (s: String)
        ensures
            s@ == self.spec_text(),
            s@.len() == 36,
    {
        let bytes = self.to_bytes();
        let h = hex_ascii(bytes.as_slice());
        let mut out: Vec<u8> = Vec::new();
        append_range(&mut out, &h, 0, 8);
        out.push(45);
        append_range(&mut out, &h, 8, 12);
        out.push(45);
        append_range(&mut out, &h, 12, 16);
        out.push(45);
        append_range(&mut out, &h, 16, 20);
        out.push(45);
        append_range(&mut out, &h, 20, 32);
        proof {
            lemma_hex_round_trip(bytes@);
            assert(chars_of_bytes(out@) =~= self.spec_text());
        }
        ascii_to_string(&out)
    }

    /// Parses hyphenated lowercase or uppercase hexadecimal text.  Returns
    /// the error message of the original byte-oriented format when the text
    /// is not of that shape.
    pub fn try_from_text(s: &str) -> (r: Result<Uuid, String>)
        ensures
            r is Ok <==> spec_uuid_parse(s@) is Some,
            r is Ok ==> r.unwrap() == spec_uuid_parse(s@).unwrap(),
            r is Err ==> r->Err_0@ == spec_uuid_parse_error(s@),
    {
        let n = s.unicode_len();
        if n != 36 {
            return Err(uuid_parse_error(s));
        }
        if !(s.get_char(8) == '-' && s.get_char(13) == '-' && s.get_char(18) == '-' && s.get_char(
            23,
        ) == '-') {
            return Err(uuid_parse_error(s));
        }
        let g1 = s.substring_char(0, 8).to_owned();
        let g2 = s.substring_char(9, 13);
        let g3 = s.substring_char(14, 18);
        let g4 = s.substring_char(19, 23);
        let g5 = s.substring_char(24, 36);
        let digits = g1.concat(g2).concat(g3).concat(g4).concat(g5);
        proof {
            assert(digits@ =~= spec_uuid_digits(s@));
        }
        match hex_decode(digits.as_str()) {
            Some(bytes) => {
                proof {
                    crate::hex::lemma_hex_bytes_len(digits@);
                }
                Ok(Self::from_bytes(&bytes))
            },
            None => Err(uuid_parse_error(s)),
        }
    }
}

/// The 32 digit characters of hyphenated identifier text.
pub open spec fn spec_uuid_digits(s: Seq<char>) -> Seq<char> {
    s.subrange(0, 8) + s.subrange(9, 13) + s.subrange(14, 18) + s.subrange(19, 23) + s.subrange(
        24,
        36,
    )
}

/// The message with which unparseable identifier text is rejected.
pub open spec fn spec_uuid_parse_error(s: Seq<char>) -> Seq<char> {
    "Failed to parse UUID from string: "@ + s
}

/// The identifier denoted by hyphenated hexadecimal text, if it is of that
/// shape.
pub open spec fn spec_uuid_parse(s: Seq<char>) -> Option<Uuid> {
    if s.len() == 36 && s[8] == '-' && s[13] == '-' && s[18] == '-' && s[23] == '-'
        && spec_all_hex(spec_uuid_digits(s)) {
        Some(spec_uuid_of_bytes(spec_hex_bytes(spec_uuid_digits(s))))
    } else {
        None
    }
}

/// Rendering an identifier and parsing the text yields the identifier.
pub proof fn lemma_uuid_text_round_trip(u: Uuid)
    ensures
        u.spec_text().len() == 36,
        spec_uuid_parse(u.spec_text()) == Some(u),
{
    lemma_uuid_bytes_round_trip(u);
    lemma_hex_round_trip(u.spec_bytes());
    let t = u.spec_text();
    let h = spec_hex_of(u.spec_bytes());
    assert(spec_uuid_digits(t) =~= h);
    assert(t[8] == '-' && t[13] == '-' && t[18] == '-' && t[23] == '-');
}

fn uuid_parse_error(s: &str) -> (msg: String)
    ensures
        msg@ == "Failed to parse UUID from string: "@ + s@,
{
    let mut msg = String::from_str("Failed to parse UUID from string: ");
    msg.append(s);
    msg
}

fn append_range(out: &mut Vec<u8>, src: &Vec<u8>, from: usize, to: usize)
    requires
        from <= to <= src@.len(),
    ensures
        final(out)@ == old(out)@ + src@.subrange(from as int, to as int),
{
    let mut i = from;
    while i < to
        invariant
            from <= i <= to <= src@.len(),
            out@ == old(out)@ + src@.subrange(from as int, i as int),
        decreases to - i,
    {
        out.push(src[i]);
        proof {
            assert(out@ =~= old(out)@ + src@.subrange(from as int, i + 1));
        }
        i = i + 1;
    }
}

} // verus!
