//! Base64 with the URL-safe alphabet and without padding. Decoding is strict:
//! it accepts exactly the texts that encoding produces, so every byte string
//! has one text and every accepted text one byte string.

use vstd::prelude::*;

verus! {

/// The character that stands for the six-bit value `v`.
pub open spec fn sextet_char(v: u8) -> u8 {
    if v < 26 {
        (v + 65) as u8
    } else if v < 52 {
        (v + 71) as u8
    } else if v < 62 {
        (v - 4) as u8
    } else if v == 62 {
        45
    } else {
        95
    }
}

/// The six-bit value that the character `c` stands for, if it is one of the
/// alphabet: `A`-`Z`, `a`-`z`, `0`-`9`, `-`, `_`.
pub open spec fn char_sextet(c: u8) -> Option<u8> {
    if 65 <= c && c <= 90 {
        Some((c - 65) as u8)
    } else if 97 <= c && c <= 122 {
        Some((c - 71) as u8)
    } else if 48 <= c && c <= 57 {
        Some((c + 4) as u8)
    } else if c == 45 {
        Some(62u8)
    } else if c == 95 {
        Some(63u8)
    } else {
        None
    }
}

/// Whether every byte of `s` is a character of the alphabet.
pub open spec fn is_alphabet_text(s: Seq<u8>) -> bool {
    forall|i: int| 0 <= i < s.len() ==> char_sextet(#[trigger] s[i]) is Some
}

/// The first of the four six-bit values of three bytes.
pub open spec fn sextet0(a: u8) -> u8 {
    a >> 2
}

/// The second of the four six-bit values of three bytes.
pub open spec fn sextet1(a: u8, b: u8) -> u8 {
    ((a & 3) << 4) | (b >> 4)
}

/// The third of the four six-bit values of three bytes.
pub open spec fn sextet2(b: u8, c: u8) -> u8 {
    ((b & 15) << 2) | (c >> 6)
}

/// The fourth of the four six-bit values of three bytes.
pub open spec fn sextet3(c: u8) -> u8 {
    c & 63
}

/// The first of the three bytes of four six-bit values.
pub open spec fn octet0(w: u8, x: u8) -> u8 {
    (w << 2) | (x >> 4)
}

/// The second of the three bytes of four six-bit values.
pub open spec fn octet1(x: u8, y: u8) -> u8 {
    ((x & 15) << 4) | (y >> 2)
}

/// The third of the three bytes of four six-bit values.
pub open spec fn octet2(y: u8, z: u8) -> u8 {
    ((y & 3) << 6) | z
}

/// The text of `d`: four characters for every three bytes, and two or three
/// characters for a last group of one or two bytes.
pub open spec fn spec_encode(d: Seq<u8>) -> Seq<u8>
    decreases d.len(),
{
    if d.len() == 0 {
        Seq::<u8>::empty()
    } else if d.len() == 1 {
        seq![sextet_char(sextet0(d[0])), sextet_char(sextet1(d[0], 0))]
    } else if d.len() == 2 {
        seq![
            sextet_char(sextet0(d[0])),
            sextet_char(sextet1(d[0], d[1])),
            sextet_char(sextet2(d[1], 0)),
        ]
    } else {
        seq![
            sextet_char(sextet0(d[0])),
            sextet_char(sextet1(d[0], d[1])),
            sextet_char(sextet2(d[1], d[2])),
            sextet_char(sextet3(d[2])),
        ] + spec_encode(d.skip(3))
    }
}

/// The bytes that the text `s` stands for, if it is the text of any.
pub open spec fn spec_decode(s: Seq<u8>) -> Option<Seq<u8>>
    decreases s.len(),
{
    if s.len() == 0 {
        Some(Seq::<u8>::empty())
    } else if s.len() == 1 {
        None
    } else if s.len() == 2 {
        match (char_sextet(s[0]), char_sextet(s[1])) {
            (Some(w), Some(x)) => if x & 15 == 0 {
                Some(seq![octet0(w, x)])
            } else {
                None
            },
            _ => None,
        }
    } else if s.len() == 3 {
        match (char_sextet(s[0]), char_sextet(s[1]), char_sextet(s[2])) {
            (Some(w), Some(x), Some(y)) => if y & 3 == 0 {
                Some(seq![octet0(w, x), octet1(x, y)])
            } else {
                None
            },
            _ => None,
        }
    } else {
        match (char_sextet(s[0]), char_sextet(s[1]), char_sextet(s[2]), char_sextet(s[3])) {
            (Some(w), Some(x), Some(y), Some(z)) => match spec_decode(s.skip(4)) {
                Some(rest) => Some(seq![octet0(w, x), octet1(x, y), octet2(y, z)] + rest),
                None => None,
            },
            _ => None,
        }
    }
}

/// The character that stands for the six-bit value `v`.
fn encode_sextet(v: u8) -> (c: u8)
    requires
        v < 64,
    ensures
        c == sextet_char(v),
        char_sextet(c) == Some(v),
{
    if v < 26 {
        v + 65
    } else if v < 52 {
        v + 71
    } else if v < 62 {
        v - 4
    } else if v == 62 {
        45
    } else {
        95
    }
}

/// The six-bit value that the character `c` stands for.
fn decode_sextet(c: u8) -> (r: Option<u8>)
    ensures
        r == char_sextet(c),
        r matches Some(v) ==> v < 64 && sextet_char(v) == c,
{
    if 65 <= c && c <= 90 {
        Some(c - 65)
    } else if 97 <= c && c <= 122 {
        Some(c - 71)
    } else if 48 <= c && c <= 57 {
        Some(c + 4)
    } else if c == 45 {
        Some(62)
    } else if c == 95 {
        Some(63)
    } else {
        None
    }
}

/// The four values of three bytes are six-bit values, and give the bytes back.
proof fn lemma_sextets(a: u8, b: u8, c: u8)
    ensures
        sextet0(a) < 64,
        sextet1(a, b) < 64,
        sextet2(b, c) < 64,
        sextet3(c) < 64,
        octet0(sextet0(a), sextet1(a, b)) == a,
        octet1(sextet1(a, b), sextet2(b, c)) == b,
        octet2(sextet2(b, c), sextet3(c)) == c,
        sextet1(a, 0) & 15 == 0,
        sextet2(b, 0) & 3 == 0,
        octet0(sextet0(a), sextet1(a, 0)) == a,
        octet1(sextet1(a, b), sextet2(b, 0)) == b,
{
    assert(a >> 2 < 64) by (bit_vector);
    assert(((a & 3) << 4) | (b >> 4) < 64) by (bit_vector);
    assert(((b & 15) << 2) | (c >> 6) < 64) by (bit_vector);
    assert(c & 63 < 64) by (bit_vector);
    assert(((a >> 2) << 2) | ((((a & 3) << 4) | (b >> 4)) >> 4) == a) by (bit_vector);
    assert((((((a & 3) << 4) | (b >> 4)) & 15) << 4) | ((((b & 15) << 2) | (c >> 6)) >> 2) == b)
        by (bit_vector);
    assert((((((b & 15) << 2) | (c >> 6)) & 3) << 6) | (c & 63) == c) by (bit_vector);
    assert((((a & 3) << 4) | (0u8 >> 4)) & 15 == 0) by (bit_vector);
    assert((((b & 15) << 2) | (0u8 >> 6)) & 3 == 0) by (bit_vector);
    assert(((a >> 2) << 2) | ((((a & 3) << 4) | (0u8 >> 4)) >> 4) == a) by (bit_vector);
    assert((((((a & 3) << 4) | (b >> 4)) & 15) << 4) | ((((b & 15) << 2) | (0u8 >> 6)) >> 2) == b)
        by (bit_vector);
}

/// The three bytes of four six-bit values give the values back.
proof fn lemma_octets(w: u8, x: u8, y: u8, z: u8)
    requires
        w < 64,
        x < 64,
        y < 64,
        z < 64,
    ensures
        sextet0(octet0(w, x)) == w,
        sextet1(octet0(w, x), octet1(x, y)) == x,
        sextet2(octet1(x, y), octet2(y, z)) == y,
        sextet3(octet2(y, z)) == z,
        x & 15 == 0 ==> sextet1(octet0(w, x), 0) == x,
        y & 3 == 0 ==> sextet2(octet1(x, y), 0) == y,
{
    assert(((w << 2) | (x >> 4)) >> 2 == w) by (bit_vector)
        requires
            w < 64,
            x < 64,
    ;
    assert(((((w << 2) | (x >> 4)) & 3) << 4) | ((((x & 15) << 4) | (y >> 2)) >> 4) == x)
        by (bit_vector)
        requires
            x < 64,
            y < 64,
    ;
    assert((((((x & 15) << 4) | (y >> 2)) & 15) << 2) | ((((y & 3) << 6) | z) >> 6) == y)
        by (bit_vector)
        requires
            y < 64,
            z < 64,
    ;
    assert((((y & 3) << 6) | z) & 63 == z) by (bit_vector)
        requires
            z < 64,
    ;
    assert(x & 15 == 0 ==> ((((w << 2) | (x >> 4)) & 3) << 4) | (0u8 >> 4) == x) by (bit_vector)
        requires
            x < 64,
    ;
    assert(y & 3 == 0 ==> (((((x & 15) << 4) | (y >> 2)) & 15) << 2) | (0u8 >> 6) == y)
        by (bit_vector)
        requires
            y < 64,
    ;
}

/// The characters of the alphabet and the six-bit values stand for each
/// other.
proof fn lemma_alphabet(v: u8, c: u8)
    ensures
        v < 64 ==> char_sextet(sextet_char(v)) == Some(v),
        char_sextet(c) matches Some(u) ==> u < 64 && sextet_char(u) == c,
{
}

/// The text of `data`.
pub fn encode(data: &[u8]) -> (r: Vec<u8>)
    ensures
        r@ == spec_encode(data@),
{
    let mut out: Vec<u8> = Vec::new();
    let mut i: usize = 0;
    proof {
        assert(data@.skip(0) =~= data@);
    }
    while data.len() - i >= 3
        invariant
            i <= data.len(),
            out@ + spec_encode(data@.skip(i as int)) == spec_encode(data@),
        decreases data.len() - i,
    {
        let a: u8 = data[i];
        let b: u8 = data[i + 1];
        let c: u8 = data[i + 2];
        proof {
            lemma_sextets(a, b, c);
            let rest = data@.skip(i as int);
            assert(rest[0] == a && rest[1] == b && rest[2] == c);
            assert(rest.skip(3) =~= data@.skip(i as int + 3));
        }
        let ghost before = out@;
        out.push(encode_sextet(a >> 2));
        out.push(encode_sextet(((a & 3) << 4) | (b >> 4)));
        out.push(encode_sextet(((b & 15) << 2) | (c >> 6)));
        out.push(encode_sextet(c & 63));
        proof {
            let group = seq![
                sextet_char(sextet0(a)),
                sextet_char(sextet1(a, b)),
                sextet_char(sextet2(b, c)),
                sextet_char(sextet3(c)),
            ];
            assert(out@ =~= before + group);
            assert((before + group) + spec_encode(data@.skip(i as int + 3)) =~= before + (group
                + spec_encode(data@.skip(i as int + 3))));
        }
        i = i + 3;
    }
    let ghost before = out@;
    if data.len() - i == 1 {
        let a: u8 = data[i];
        proof {
            lemma_sextets(a, 0, 0);
            assert(data@.skip(i as int)[0] == a);
        }
        out.push(encode_sextet(a >> 2));
        out.push(encode_sextet(((a & 3) << 4) | (0u8 >> 4)));
        proof {
            assert(out@ =~= before + spec_encode(data@.skip(i as int)));
        }
    } else if data.len() - i == 2 {
        let a: u8 = data[i];
        let b: u8 = data[i + 1];
        proof {
            lemma_sextets(a, b, 0);
            assert(data@.skip(i as int)[0] == a && data@.skip(i as int)[1] == b);
        }
        out.push(encode_sextet(a >> 2));
        out.push(encode_sextet(((a & 3) << 4) | (b >> 4)));
        out.push(encode_sextet(((b & 15) << 2) | (0u8 >> 6)));
        proof {
            assert(out@ =~= before + spec_encode(data@.skip(i as int)));
        }
    } else {
        proof {
            assert(out@ =~= before + spec_encode(data@.skip(i as int)));
        }
    }
    out
}

/// The bytes that the text `s` stands for, or `None` where `s` is the text of
/// no byte string.
pub fn decode(s: &[u8]) -> (r: Option<Vec<u8>>)
    ensures
        match r {
            Some(d) => spec_decode(s@) == Some(d@),
            None => spec_decode(s@) is None,
        },
{
    let mut out: Vec<u8> = Vec::new();
    let mut i: usize = 0;
    proof {
        assert(s@.skip(0) =~= s@);
    }
    while s.len() - i >= 4
        invariant
            i <= s.len(),
            spec_decode(s@) == match spec_decode(s@.skip(i as int)) {
                Some(rest) => Some(out@ + rest),
                None => None,
            },
        decreases s.len() - i,
    {
        proof {
            let rest = s@.skip(i as int);
            assert(rest[0] == s@[i as int] && rest[1] == s@[i + 1] && rest[2] == s@[i + 2]
                && rest[3] == s@[i + 3]);
            assert(rest.skip(4) =~= s@.skip(i as int + 4));
        }
        let w = match decode_sextet(s[i]) {
            Some(v) => v,
            None => {
                return None;
            },
        };
        let x = match decode_sextet(s[i + 1]) {
            Some(v) => v,
            None => {
                return None;
            },
        };
        let y = match decode_sextet(s[i + 2]) {
            Some(v) => v,
            None => {
                return None;
            },
        };
        let z = match decode_sextet(s[i + 3]) {
            Some(v) => v,
            None => {
                return None;
            },
        };
        let ghost before = out@;
        out.push((w << 2) | (x >> 4));
        out.push(((x & 15) << 4) | (y >> 2));
        out.push(((y & 3) << 6) | z);
        proof {
            let group = seq![octet0(w, x), octet1(x, y), octet2(y, z)];
            assert(out@ =~= before + group);
            match spec_decode(s@.skip(i as int + 4)) {
                Some(rest) => {
                    assert((before + group) + rest =~= before + (group + rest));
                },
                None => {},
            }
        }
        i = i + 4;
    }
    let ghost before = out@;
    let left = s.len() - i;
    if left == 0 {
        proof {
            assert(before + Seq::<u8>::empty() =~= before);
        }
        Some(out)
    } else if left == 1 {
        None
    } else if left == 2 {
        proof {
            assert(s@.skip(i as int)[0] == s@[i as int] && s@.skip(i as int)[1] == s@[i + 1]);
        }
        let w = match decode_sextet(s[i]) {
            Some(v) => v,
            None => {
                return None;
            },
        };
        let x = match decode_sextet(s[i + 1]) {
            Some(v) => v,
            None => {
                return None;
            },
        };
        if x & 15 != 0 {
            return None;
        }
        out.push((w << 2) | (x >> 4));
        proof {
            assert(out@ =~= before + seq![octet0(w, x)]);
        }
        Some(out)
    } else {
        proof {
            assert(s@.skip(i as int)[0] == s@[i as int] && s@.skip(i as int)[1] == s@[i + 1]
                && s@.skip(i as int)[2] == s@[i + 2]);
        }
        let w = match decode_sextet(s[i]) {
            Some(v) => v,
            None => {
                return None;
            },
        };
        let x = match decode_sextet(s[i + 1]) {
            Some(v) => v,
            None => {
                return None;
            },
        };
        let y = match decode_sextet(s[i + 2]) {
            Some(v) => v,
            None => {
                return None;
            },
        };
        if y & 3 != 0 {
            return None;
        }
        out.push((w << 2) | (x >> 4));
        out.push(((x & 15) << 4) | (y >> 2));
        proof {
            assert(out@ =~= before + seq![octet0(w, x), octet1(x, y)]);
        }
        Some(out)
    }
}

/// Decoding the text of `d` gives `d`.
pub proof fn lemma_decode_encode(d: Seq<u8>)
    ensures
        spec_decode(spec_encode(d)) == Some(d),
    decreases d.len(),
{
    if d.len() == 0 {
        assert(d =~= Seq::<u8>::empty());
    } else if d.len() == 1 {
        lemma_sextets(d[0], 0, 0);
        lemma_alphabet(sextet0(d[0]), 0);
        lemma_alphabet(sextet1(d[0], 0), 0);
        assert(seq![d[0]] =~= d);
    } else if d.len() == 2 {
        lemma_sextets(d[0], d[1], 0);
        lemma_alphabet(sextet0(d[0]), 0);
        lemma_alphabet(sextet1(d[0], d[1]), 0);
        lemma_alphabet(sextet2(d[1], 0), 0);
        assert(seq![d[0], d[1]] =~= d);
    } else {
        lemma_sextets(d[0], d[1], d[2]);
        lemma_alphabet(sextet0(d[0]), 0);
        lemma_alphabet(sextet1(d[0], d[1]), 0);
        lemma_alphabet(sextet2(d[1], d[2]), 0);
        lemma_alphabet(sextet3(d[2]), 0);
        lemma_decode_encode(d.skip(3));
        let group = seq![
            sextet_char(sextet0(d[0])),
            sextet_char(sextet1(d[0], d[1])),
            sextet_char(sextet2(d[1], d[2])),
            sextet_char(sextet3(d[2])),
        ];
        let s = group + spec_encode(d.skip(3));
        assert(s == spec_encode(d));
        assert(s.skip(4) =~= spec_encode(d.skip(3)));
        assert(s[0] == group[0] && s[1] == group[1] && s[2] == group[2] && s[3] == group[3]);
        assert(seq![d[0], d[1], d[2]] + d.skip(3) =~= d);
    }
}

/// A text that decodes to `d` is the text of `d`.
pub proof fn lemma_encode_decode(s: Seq<u8>)
    requires
        spec_decode(s) is Some,
    ensures
        spec_encode(spec_decode(s)->Some_0) == s,
    decreases s.len(),
{
    if s.len() == 0 {
        assert(s =~= Seq::<u8>::empty());
    } else if s.len() == 2 {
        let w = char_sextet(s[0])->Some_0;
        let x = char_sextet(s[1])->Some_0;
        lemma_alphabet(0, s[0]);
        lemma_alphabet(0, s[1]);
        lemma_octets(w, x, 0, 0);
        let d = seq![octet0(w, x)];
        assert(d[0] == octet0(w, x));
        assert(spec_encode(d) =~= s);
    } else if s.len() == 3 {
        let w = char_sextet(s[0])->Some_0;
        let x = char_sextet(s[1])->Some_0;
        let y = char_sextet(s[2])->Some_0;
        lemma_alphabet(0, s[0]);
        lemma_alphabet(0, s[1]);
        lemma_alphabet(0, s[2]);
        lemma_octets(w, x, y, 0);
        let d = seq![octet0(w, x), octet1(x, y)];
        assert(d[0] == octet0(w, x) && d[1] == octet1(x, y));
        assert(spec_encode(d) =~= s);
    } else {
        let w = char_sextet(s[0])->Some_0;
        let x = char_sextet(s[1])->Some_0;
        let y = char_sextet(s[2])->Some_0;
        let z = char_sextet(s[3])->Some_0;
        lemma_alphabet(0, s[0]);
        lemma_alphabet(0, s[1]);
        lemma_alphabet(0, s[2]);
        lemma_alphabet(0, s[3]);
        lemma_octets(w, x, y, z);
        lemma_encode_decode(s.skip(4));
        let rest = spec_decode(s.skip(4))->Some_0;
        let d = seq![octet0(w, x), octet1(x, y), octet2(y, z)] + rest;
        assert(d[0] == octet0(w, x) && d[1] == octet1(x, y) && d[2] == octet2(y, z));
        assert(d.skip(3) =~= rest);
        assert(spec_encode(d) =~= seq![s[0], s[1], s[2], s[3]] + s.skip(4));
        assert(seq![s[0], s[1], s[2], s[3]] + s.skip(4) =~= s);
    }
}

/// Two byte strings with the same text are the same.
pub proof fn lemma_encode_injective(a: Seq<u8>, b: Seq<u8>)
    requires
        spec_encode(a) == spec_encode(b),
    ensures
        a == b,
{
    lemma_decode_encode(a);
    lemma_decode_encode(b);
}

/// The text of a byte string holds characters of the alphabet only.
pub proof fn lemma_encode_alphabet(d: Seq<u8>)
    ensures
        is_alphabet_text(spec_encode(d)),
    decreases d.len(),
{
    if d.len() == 0 {
    } else if d.len() == 1 {
        lemma_sextets(d[0], 0, 0);
        lemma_alphabet(sextet0(d[0]), 0);
        lemma_alphabet(sextet1(d[0], 0), 0);
    } else if d.len() == 2 {
        lemma_sextets(d[0], d[1], 0);
        lemma_alphabet(sextet0(d[0]), 0);
        lemma_alphabet(sextet1(d[0], d[1]), 0);
        lemma_alphabet(sextet2(d[1], 0), 0);
    } else {
        lemma_sextets(d[0], d[1], d[2]);
        lemma_alphabet(sextet0(d[0]), 0);
        lemma_alphabet(sextet1(d[0], d[1]), 0);
        lemma_alphabet(sextet2(d[1], d[2]), 0);
        lemma_alphabet(sextet3(d[2]), 0);
        lemma_encode_alphabet(d.skip(3));
        let group = seq![
            sextet_char(sextet0(d[0])),
            sextet_char(sextet1(d[0], d[1])),
            sextet_char(sextet2(d[1], d[2])),
            sextet_char(sextet3(d[2])),
        ];
        let s = spec_encode(d);
        assert forall|i: int| 0 <= i < s.len() implies char_sextet(#[trigger] s[i]) is Some by {
            if i >= 4 {
                assert(s[i] == spec_encode(d.skip(3))[i - 4]);
            } else {
                assert(s[i] == group[i]);
            }
        }
    }
}

} // verus!
