//! Lowercase hexadecimal encoding and decoding of byte sequences, with an
//! exact specification.  Two hexadecimal digits per byte, high nibble first.

use vstd::prelude::*;

use crate::strutil::{all_ascii, ascii_to_string, chars_of_bytes};

verus! {

/// The lowercase hexadecimal digit for a nibble.
pub open spec fn spec_hex_digit(n: u8) -> char
    recommends
        n < 16,
{
    if n < 10 {
        (('0' as u8) + n) as char
    } else {
        (('a' as u8) + (n - 10)) as char
    }
}

/// The lowercase hexadecimal rendering of a byte sequence.
pub open spec fn spec_hex_of(data: Seq<u8>) -> Seq<char>
    decreases data.len(),
{
    if data.len() == 0 {
        Seq::<char>::empty()
    } else {
        seq![
            spec_hex_digit(data.first() / 16),
            spec_hex_digit(data.first() % 16),
        ] + spec_hex_of(data.drop_first())
    }
}

/// The nibble value of a hexadecimal digit character, if it is one.
/// Both cases of letters are accepted, as the decoder of the original
/// byte-oriented format accepts them.
pub open spec fn spec_hex_value(c: char) -> Option<u8> {
    if '0' <= c && c <= '9' {
        Some(((c as u8) - ('0' as u8)) as u8)
    } else if 'a' <= c && c <= 'f' {
        Some((((c as u8) - ('a' as u8)) + 10) as u8)
    } else if 'A' <= c && c <= 'F' {
        Some((((c as u8) - ('A' as u8)) + 10) as u8)
    } else {
        None
    }
}

/// True when every character of `s` is a hexadecimal digit.
pub open spec fn spec_all_hex(s: Seq<char>) -> bool {
    forall|i: int| 0 <= i < s.len() ==> spec_hex_value(s[i]) is Some
}

/// The bytes denoted by a sequence of hexadecimal digit characters of even
/// length; two digits per byte, high nibble first.
pub open spec fn spec_hex_bytes(s: Seq<char>) -> Seq<u8>
    recommends
        s.len() % 2 == 0,
        spec_all_hex(s),
    decreases s.len(),
{
    if s.len() < 2 {
        Seq::<u8>::empty()
    } else {
        seq![
            (spec_hex_value(s[0]).unwrap() * 16 + spec_hex_value(s[1]).unwrap()) as u8,
        ] + spec_hex_bytes(s.skip(2))
    }
}

/// Decoding inverts encoding: the digits of a byte sequence denote that
/// byte sequence.
pub proof fn lemma_hex_round_trip(data: Seq<u8>)
    ensures
        spec_hex_of(data).len() == 2 * data.len(),
        spec_all_hex(spec_hex_of(data)),
        spec_hex_bytes(spec_hex_of(data)) == data,
    decreases data.len(),
{
    if data.len() == 0 {
        assert(spec_hex_bytes(spec_hex_of(data)) =~= data);
    } else {
        let b = data.first();
        lemma_hex_round_trip(data.drop_first());
        let s = spec_hex_of(data);
        assert(s.skip(2) =~= spec_hex_of(data.drop_first()));
        assert(spec_hex_value(spec_hex_digit(b / 16)) == Some((b / 16) as u8));
        assert(spec_hex_value(spec_hex_digit(b % 16)) == Some((b % 16) as u8));
        assert(b / 16 * 16 + b % 16 == b) by (nonlinear_arith);
        assert(spec_hex_bytes(s) =~= data);
    }
}

/// Hex encoding is injective.
pub proof fn lemma_hex_injective(a: Seq<u8>, b: Seq<u8>)
    requires
        spec_hex_of(a) == spec_hex_of(b),
    ensures
        a == b,
{
    lemma_hex_round_trip(a);
    lemma_hex_round_trip(b);
    assert(a =~= b);
}

fn hex_digit(n: u8) -> (c: u8)
    requires
        n < 16,
    ensures
        c < 128,
        c as char == spec_hex_digit(n),
{
    if n < 10 {
        48 + n
    } else {
        97 + (n - 10)
    }
}

/// The number of bytes denoted by hexadecimal digits: one per digit pair.
pub proof fn lemma_hex_bytes_len(s: Seq<char>)
    requires
        s.len() % 2 == 0,
    ensures
        spec_hex_bytes(s).len() == s.len() / 2,
    decreases s.len(),
{
    if s.len() >= 2 {
        lemma_hex_bytes_len(s.skip(2));
    }
}

/// Renders a byte slice as lowercase hexadecimal text.
pub fn hex_encode(data: &[u8]) -> (s: String)
    ensures
        s@ == spec_hex_of(data@),
        s@.len() == 2 * data@.len(),
{
    let out = hex_ascii(data);
    proof {
        lemma_hex_round_trip(data@);
    }
    ascii_to_string(&out)
}

/// The ASCII bytes of the lowercase hexadecimal rendering of a byte slice.
pub fn hex_ascii(data: &[u8]) -> (out: Vec<u8>)
    ensures
        all_ascii(out@),
        chars_of_bytes(out@) == spec_hex_of(data@),
        out@.len() == 2 * data@.len(),
{
    let mut out: Vec<u8> = Vec::new();
    let n = data.len();
    proof {
        assert(data@.skip(0) == data@);
    }
    for i in 0..n
        invariant
            n == data@.len(),
            out@.len() == 2 * i,
            all_ascii(out@),
            chars_of_bytes(out@) + spec_hex_of(data@.skip(i as int)) == spec_hex_of(data@),
    {
        let b = data[i];
        let ghost prev = out@;
        out.push(hex_digit(b / 16));
        out.push(hex_digit(b % 16));
        proof {
            assert(data@.skip(i as int).drop_first() =~= data@.skip(i + 1));
            assert(chars_of_bytes(out@) =~= chars_of_bytes(prev) + seq![
                spec_hex_digit(b / 16),
                spec_hex_digit(b % 16),
            ]);
            assert(chars_of_bytes(out@) + spec_hex_of(data@.skip(i + 1)) =~= spec_hex_of(data@));
        }
    }
    proof {
        assert(data@.skip(n as int) =~= Seq::<u8>::empty());
        assert(chars_of_bytes(out@) =~= spec_hex_of(data@));
        lemma_hex_round_trip(data@);
    }
    out
}

fn hex_value(c: char) -> (r: Option<u8>)
    ensures
        r == spec_hex_value(c),
{
    let u = c as u32;
    if u >= '0' as u32 && u <= '9' as u32 {
        Some((u - '0' as u32) as u8)
    } else if u >= 'a' as u32 && u <= 'f' as u32 {
        Some((u - 'a' as u32 + 10) as u8)
    } else if u >= 'A' as u32 && u <= 'F' as u32 {
        Some((u - 'A' as u32 + 10) as u8)
    } else {
        None
    }
}

/// Decodes hexadecimal text into bytes.  Returns `None` when the length is
/// odd or a character is not a hexadecimal digit.
pub fn hex_decode(s: &str) -> (r: Option<Vec<u8>>)
    ensures
        r is Some <==> (s@.len() % 2 == 0 && spec_all_hex(s@)),
        r is Some ==> r.unwrap()@ == spec_hex_bytes(s@),
{
    let n = s.unicode_len();
    if n % 2 != 0 {
        return None;
    }
    let mut out: Vec<u8> = Vec::new();
    let mut i: usize = 0;
    proof {
        assert(s@.skip(0) == s@);
    }
    while i < n
        invariant
            n == s@.len(),
            n % 2 == 0,
            i % 2 == 0,
            i <= n,
            forall|j: int| 0 <= j < i ==> spec_hex_value(s@[j]) is Some,
            out@ == spec_hex_bytes(s@.take(i as int)),
        decreases n - i,
    {
        let c0 = s.get_char(i);
        let c1 = s.get_char(i + 1);
        let v0 = match hex_value(c0) {
            Some(v) => v,
            None => {
                return None;
            },
        };
        let v1 = match hex_value(c1) {
            Some(v) => v,
            None => {
                return None;
            },
        };
        out.push(v0 * 16 + v1);
        proof {
            lemma_hex_bytes_take_step(s@, i as int);
        }
        i = i + 2;
    }
    proof {
        assert(s@.take(n as int) =~= s@);
    }
    Some(out)
}

proof fn lemma_hex_bytes_take_step(s: Seq<char>, i: int)
    requires
        0 <= i,
        i % 2 == 0,
        i + 2 <= s.len(),
        forall|j: int| 0 <= j < i + 2 ==> spec_hex_value(s[j]) is Some,
    ensures
        spec_hex_bytes(s.take(i + 2)) == spec_hex_bytes(s.take(i)) + seq![
            (spec_hex_value(s[i]).unwrap() * 16 + spec_hex_value(s[i + 1]).unwrap()) as u8,
        ],
    decreases i,
{
    if i == 0 {
        assert(s.take(2).skip(2) =~= Seq::<char>::empty());
        assert(s.take(2)[0] == s[0]);
        assert(s.take(2)[1] == s[1]);
        assert(spec_hex_bytes(s.take(0)) =~= Seq::<u8>::empty());
        assert(spec_hex_bytes(s.take(2)) =~= spec_hex_bytes(s.take(0)) + seq![
            (spec_hex_value(s[0]).unwrap() * 16 + spec_hex_value(s[1]).unwrap()) as u8,
        ]);
    } else {
        lemma_hex_bytes_take_step(s.skip(2), i - 2);
        assert(s.skip(2).take(i) =~= s.take(i + 2).skip(2));
        assert(s.skip(2).take(i - 2) =~= s.take(i).skip(2));
        assert(s.skip(2)[i - 2] == s[i]);
        assert(s.skip(2)[i - 1] == s[i + 1]);
        assert(spec_hex_bytes(s.take(i + 2)) =~= seq![
            (spec_hex_value(s[0]).unwrap() * 16 + spec_hex_value(s[1]).unwrap()) as u8,
        ] + spec_hex_bytes(s.take(i + 2).skip(2)));
        assert(spec_hex_bytes(s.take(i)) =~= seq![
            (spec_hex_value(s[0]).unwrap() * 16 + spec_hex_value(s[1]).unwrap()) as u8,
        ] + spec_hex_bytes(s.take(i).skip(2)));
    }
}

} // verus!
