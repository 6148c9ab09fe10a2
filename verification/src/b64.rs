//! Url-safe base64 without padding, on inputs whose length is a multiple of
//! three bytes.
//!
//! The identifier codec only ever encodes 33 bytes (kind byte plus 256-bit
//! payload) into 44 characters, so no partial final group exists.  Encoding
//! and decoding are verified against pointwise specifications, and the
//! round trip is proved for every input.

use vstd::prelude::*;

verus! {

/// Character of the url-safe base64 alphabet for a six-bit value.
pub open spec fn alphabet(v: int) -> u8 {
    if 0 <= v < 26 {
        (65 + v) as u8  // 'A'..='Z'
    } else if 26 <= v < 52 {
        (97 + v - 26) as u8  // 'a'..='z'
    } else if 52 <= v < 62 {
        (48 + v - 52) as u8  // '0'..='9'
    } else if v == 62 {
        45u8  // '-'
    } else if v == 63 {
        95u8  // '_'
    } else {
        0u8
    }
}

/// Six-bit value of an alphabet character, or -1 for a foreign byte.
pub open spec fn sextet_value(c: u8) -> int {
    if 65 <= c <= 90 {
        c - 65
    } else if 97 <= c <= 122 {
        c - 97 + 26
    } else if 48 <= c <= 57 {
        c - 48 + 52
    } else if c == 45 {
        62
    } else if c == 95 {
        63
    } else {
        -1
    }
}

/// Whether `c` belongs to the url-safe base64 alphabet.
pub open spec fn is_b64_char(c: u8) -> bool {
    sextet_value(c) != -1
}

/// Every character of `s` belongs to the alphabet.
pub open spec fn b64_valid(s: Seq<u8>) -> bool {
    forall|i: int| 0 <= i < s.len() ==> is_b64_char(s[i])
}

/// The alphabet map and its inverse cancel.
pub proof fn lemma_alphabet_inverse(v: int)
    requires
        0 <= v < 64,
    ensures
        is_b64_char(alphabet(v)),
        sextet_value(alphabet(v)) == v,
{
}

/// First sextet of a three-byte group.
pub open spec fn enc0(b0: u8) -> u8 {
    b0 >> 2
}

/// Second sextet of a three-byte group.
pub open spec fn enc1(b0: u8, b1: u8) -> u8 {
    ((b0 & 3) << 4) | (b1 >> 4)
}

/// Third sextet of a three-byte group.
pub open spec fn enc2(b1: u8, b2: u8) -> u8 {
    ((b1 & 15) << 2) | (b2 >> 6)
}

/// Fourth sextet of a three-byte group.
pub open spec fn enc3(b2: u8) -> u8 {
    b2 & 63
}

/// First byte reassembled from two sextets.
pub open spec fn dec0(s0: u8, s1: u8) -> u8 {
    (s0 << 2) | (s1 >> 4)
}

/// Second byte reassembled from two sextets.
pub open spec fn dec1(s1: u8, s2: u8) -> u8 {
    ((s1 & 15) << 4) | (s2 >> 2)
}

/// Third byte reassembled from two sextets.
pub open spec fn dec2(s2: u8, s3: u8) -> u8 {
    ((s2 & 3) << 6) | s3
}

/// Splitting a three-byte group into sextets and reassembling it is the
/// identity, and every sextet is a six-bit value.
pub proof fn lemma_group_roundtrip(b0: u8, b1: u8, b2: u8)
    ensures
        enc0(b0) < 64,
        enc1(b0, b1) < 64,
        enc2(b1, b2) < 64,
        enc3(b2) < 64,
        dec0(enc0(b0), enc1(b0, b1)) == b0,
        dec1(enc1(b0, b1), enc2(b1, b2)) == b1,
        dec2(enc2(b1, b2), enc3(b2)) == b2,
{
    assert((b0 >> 2) < 64 && (((b0 & 3) << 4) | (b1 >> 4)) < 64 && (((b1 & 15) << 2) | (b2 >> 6))
        < 64 && (b2 & 63) < 64 && ((((b0 >> 2) as u8) << 2) | ((((b0 & 3) << 4) | (b1
        >> 4)) as u8 >> 4)) == b0 && ((((((b0 & 3) << 4) | (b1 >> 4)) as u8 & 15) << 4) | ((((b1
        & 15) << 2) | (b2 >> 6)) as u8 >> 2)) == b1 && ((((((b1 & 15) << 2) | (b2 >> 6)) as u8 & 3)
        << 6) | (b2 & 63)) == b2) by (bit_vector);
}

/// Base64 character at position `i` of the encoding of `b`.
pub open spec fn b64_char_at(b: Seq<u8>, i: int) -> u8 {
    let q = i / 4;
    let b0 = b[3 * q];
    let b1 = b[3 * q + 1];
    let b2 = b[3 * q + 2];
    if i % 4 == 0 {
        alphabet(enc0(b0) as int)
    } else if i % 4 == 1 {
        alphabet(enc1(b0, b1) as int)
    } else if i % 4 == 2 {
        alphabet(enc2(b1, b2) as int)
    } else {
        alphabet(enc3(b2) as int)
    }
}

/// The base64 encoding of `b`; meaningful when `b.len()` is a multiple of 3.
pub open spec fn b64_encode(b: Seq<u8>) -> Seq<u8> {
    Seq::new(b.len() / 3 * 4, |i: int| b64_char_at(b, i))
}

/// Decoded byte at position `j` of the decoding of `s`.
pub open spec fn b64_byte_at(s: Seq<u8>, j: int) -> u8 {
    let q = j / 3;
    let s0 = sextet_value(s[4 * q]) as u8;
    let s1 = sextet_value(s[4 * q + 1]) as u8;
    let s2 = sextet_value(s[4 * q + 2]) as u8;
    let s3 = sextet_value(s[4 * q + 3]) as u8;
    if j % 3 == 0 {
        dec0(s0, s1)
    } else if j % 3 == 1 {
        dec1(s1, s2)
    } else {
        dec2(s2, s3)
    }
}

/// The base64 decoding of `s`; meaningful when `s` is valid and its length
/// is a multiple of 4.
pub open spec fn b64_decode(s: Seq<u8>) -> Seq<u8> {
    Seq::new(s.len() / 4 * 3, |j: int| b64_byte_at(s, j))
}

/// Encoding then decoding gives the input back, and the encoding is valid
/// and a third longer than the input.
pub proof fn lemma_b64_roundtrip(b: Seq<u8>)
    requires
        b.len() % 3 == 0,
    ensures
        b64_encode(b).len() == b.len() / 3 * 4,
        b64_valid(b64_encode(b)),
        b64_decode(b64_encode(b)) == b,
{
    let s = b64_encode(b);
    let n = b.len() as int;
    assert forall|i: int| 0 <= i < s.len() implies is_b64_char(s[i]) by {
        let q = i / 4;
        lemma_quartet_indices(n, q);
        lemma_group_roundtrip(b[3 * q], b[3 * q + 1], b[3 * q + 2]);
        if i % 4 == 0 {
            lemma_alphabet_inverse(enc0(b[3 * q]) as int);
        } else if i % 4 == 1 {
            lemma_alphabet_inverse(enc1(b[3 * q], b[3 * q + 1]) as int);
        } else if i % 4 == 2 {
            lemma_alphabet_inverse(enc2(b[3 * q + 1], b[3 * q + 2]) as int);
        } else {
            lemma_alphabet_inverse(enc3(b[3 * q + 2]) as int);
        }
    }
    assert(s.len() / 4 == n / 3) by {
        assert(n / 3 * 4 / 4 == n / 3) by (nonlinear_arith);
    }
    assert forall|j: int| 0 <= j < n implies b64_decode(s)[j] == b[j] by {
        let q = j / 3;
        lemma_quartet_indices(n, q);
        assert(0 <= q < n / 3) by {
            assert(j / 3 < n / 3 || j / 3 == n / 3);
            assert(n % 3 == 0 && j < n ==> j / 3 < n / 3) by (nonlinear_arith);
        }
        let b0 = b[3 * q];
        let b1 = b[3 * q + 1];
        let b2 = b[3 * q + 2];
        lemma_group_roundtrip(b0, b1, b2);
        assert(s[4 * q] == b64_char_at(b, 4 * q));
        assert(s[4 * q + 1] == b64_char_at(b, 4 * q + 1));
        assert(s[4 * q + 2] == b64_char_at(b, 4 * q + 2));
        assert(s[4 * q + 3] == b64_char_at(b, 4 * q + 3));
        lemma_alphabet_inverse(enc0(b0) as int);
        lemma_alphabet_inverse(enc1(b0, b1) as int);
        lemma_alphabet_inverse(enc2(b1, b2) as int);
        lemma_alphabet_inverse(enc3(b2) as int);
        assert(j == 3 * q + j % 3);
    }
    assert(b64_decode(s) =~= b);
}

/// Index arithmetic for the `q`-th quartet of an encoding of `n` bytes.
proof fn lemma_quartet_indices(n: int, q: int)
    requires
        n % 3 == 0,
        n >= 0,
    ensures
        (4 * q) / 4 == q && (4 * q) % 4 == 0,
        (4 * q + 1) / 4 == q && (4 * q + 1) % 4 == 1,
        (4 * q + 2) / 4 == q && (4 * q + 2) % 4 == 2,
        (4 * q + 3) / 4 == q && (4 * q + 3) % 4 == 3,
        (3 * q) / 3 == q && (3 * q) % 3 == 0,
        (3 * q + 1) / 3 == q && (3 * q + 1) % 3 == 1,
        (3 * q + 2) / 3 == q && (3 * q + 2) % 3 == 2,
        0 <= q < n / 3 * 4 / 4 ==> 3 * q + 2 < n,
{
    assert((4 * q) / 4 == q && (4 * q) % 4 == 0 && (4 * q + 1) / 4 == q && (4 * q + 1) % 4 == 1 && (
    4 * q + 2) / 4 == q && (4 * q + 2) % 4 == 2 && (4 * q + 3) / 4 == q && (4 * q + 3) % 4 == 3)
        by (nonlinear_arith);
    assert((3 * q) / 3 == q && (3 * q) % 3 == 0 && (3 * q + 1) / 3 == q && (3 * q + 1) % 3 == 1 && (
    3 * q + 2) / 3 == q && (3 * q + 2) % 3 == 2) by (nonlinear_arith);
    assert(n / 3 * 4 / 4 == n / 3) by (nonlinear_arith);
    assert(n % 3 == 0 && q < n / 3 ==> 3 * q + 2 < n) by (nonlinear_arith);
}

/// Alphabet character for a six-bit value, as executable code.
pub fn sextet_to_char(v: u8) -> (r: u8)
    requires
        v < 64,
    ensures
        r == alphabet(v as int),
{
    if v < 26 {
        65 + v
    } else if v < 52 {
        97 + v - 26
    } else if v < 62 {
        48 + v - 52
    } else if v == 62 {
        45
    } else {
        95
    }
}

/// Six-bit value of an alphabet character, as executable code.
pub fn char_to_sextet(c: u8) -> (r: Option<u8>)
    ensures
        is_b64_char(c) ==> r == Some((sextet_value(c)) as u8),
        !is_b64_char(c) ==> r is None,
{
    if 65 <= c && c <= 90 {
        Some(c - 65)
    } else if 97 <= c && c <= 122 {
        Some(c - 97 + 26)
    } else if 48 <= c && c <= 57 {
        Some(c - 48 + 52)
    } else if c == 45 {
        Some(62)
    } else if c == 95 {
        Some(63)
    } else {
        None
    }
}

/// Encodes `input`, whose length must be a multiple of three.
pub fn encode(input: &Vec<u8>) -> (r: Vec<u8>)
    requires
        input@.len() % 3 == 0,
    ensures
        r@ == b64_encode(input@),
{
    let n = input.len();
    let groups = n / 3;
    let mut out: Vec<u8> = Vec::new();
    let mut q: usize = 0;
    while q < groups
        invariant
            n == input@.len(),
            n % 3 == 0,
            groups == n / 3,
            q <= groups,
            out@.len() == 4 * q,
            forall|i: int| 0 <= i < 4 * q ==> out@[i] == b64_char_at(input@, i),
        decreases groups - q,
    {
        proof {
            lemma_quartet_indices(n as int, q as int);
            assert(3 * q + 2 < n) by (nonlinear_arith)
                requires q < groups, groups == n / 3, n % 3 == 0, n >= 0;
        }
        let b0 = input[3 * q];
        let b1 = input[3 * q + 1];
        let b2 = input[3 * q + 2];
        proof {
            lemma_group_roundtrip(b0, b1, b2);
        }
        out.push(sextet_to_char(b0 >> 2));
        out.push(sextet_to_char(((b0 & 3) << 4) | (b1 >> 4)));
        out.push(sextet_to_char(((b1 & 15) << 2) | (b2 >> 6)));
        out.push(sextet_to_char(b2 & 63));
        q = q + 1;
    }
    proof {
        assert(groups * 4 == n / 3 * 4) by (nonlinear_arith)
            requires groups == n / 3;
        assert(out@ =~= b64_encode(input@));
    }
    out
}

/// Decodes `chars`, whose length must be a multiple of four.  Returns
/// nothing when some character does not belong to the alphabet.
pub fn decode(chars: &Vec<u8>) -> (r: Option<Vec<u8>>)
    requires
        chars@.len() % 4 == 0,
    ensures
        b64_valid(chars@) ==> (r matches Some(b) && b@ == b64_decode(chars@)),
        !b64_valid(chars@) ==> r is None,
{
    let n = chars.len();
    let quartets = n / 4;
    let mut out: Vec<u8> = Vec::new();
    let mut q: usize = 0;
    while q < quartets
        invariant
            n == chars@.len(),
            n % 4 == 0,
            quartets == n / 4,
            q <= quartets,
            out@.len() == 3 * q,
            forall|i: int| 0 <= i < 4 * q ==> is_b64_char(chars@[i]),
            forall|j: int| 0 <= j < 3 * q ==> out@[j] == b64_byte_at(chars@, j),
        decreases quartets - q,
    {
        proof {
            lemma_quartet_indices(0, q as int);
            assert(4 * q + 3 < n) by (nonlinear_arith)
                requires q < quartets, quartets == n / 4, n % 4 == 0, n >= 0;
        }
        let c0 = char_to_sextet(chars[4 * q]);
        let c1 = char_to_sextet(chars[4 * q + 1]);
        let c2 = char_to_sextet(chars[4 * q + 2]);
        let c3 = char_to_sextet(chars[4 * q + 3]);
        match (c0, c1, c2, c3) {
            (Some(s0), Some(s1), Some(s2), Some(s3)) => {
                out.push((s0 << 2) | (s1 >> 4));
                out.push(((s1 & 15) << 4) | (s2 >> 2));
                out.push(((s2 & 3) << 6) | s3);
            },
            _ => {
                proof {
                    assert(!b64_valid(chars@));
                }
                return None;
            },
        }
        q = q + 1;
    }
    proof {
        assert forall|i: int| 0 <= i < n implies is_b64_char(chars@[i]) by {
            assert(4 * quartets == n) by (nonlinear_arith)
                requires quartets == n / 4, n % 4 == 0, n >= 0;
        }
        assert(quartets * 3 == n / 4 * 3) by (nonlinear_arith)
            requires quartets == n / 4;
        assert(out@ =~= b64_decode(chars@));
    }
    Some(out)
}

} // verus!
