//! The JSON text of strings and numbers, as written into token headers and
//! claims. Strings are byte strings: `"`, `\` and the control characters are
//! written as escapes, every other byte as itself. Reading accepts, besides
//! what is written, the short escapes, `\/`, and `\u` with four hexadecimal
//! digits for any character, which is read as the bytes of its UTF-8 form; a
//! character beyond 0xFFFF is written as two such escapes, a surrogate pair.
//! Numbers are whole, from 0 to 2^64 - 1, in decimal without leading zeros.

use vstd::prelude::*;
use crate::bytes::{append, reversed};

verus! {

/// The byte `"`.
pub const QUOTE: u8 = 0x22;

/// The byte `\`.
pub const BACKSLASH: u8 = 0x5C;

/// The byte `,`.
pub const COMMA: u8 = 0x2C;

/// The byte `:`.
pub const COLON: u8 = 0x3A;

/// Whether the text `t` stands in `s` at position `i`.
pub open spec fn is_at(s: Seq<u8>, i: int, t: Seq<u8>) -> bool {
    0 <= i && i + t.len() <= s.len() && s.subrange(i, i + t.len()) == t
}

/// A text made of two stands where its parts stand one after the other.
pub proof fn lemma_is_at_concat(s: Seq<u8>, i: int, a: Seq<u8>, b: Seq<u8>)
    requires
        0 <= i,
    ensures
        is_at(s, i, a + b) <==> is_at(s, i, a) && is_at(s, i + a.len(), b),
{
    if is_at(s, i, a + b) {
        assert(s.subrange(i, i + a.len()) =~= (a + b).subrange(0, a.len() as int)) by {
            assert forall|k: int| 0 <= k < a.len() implies s.subrange(i, i + a.len())[k] == (a
                + b)[k] by {
                assert(s.subrange(i, i + (a + b).len())[k] == s[i + k]);
            }
        }
        assert((a + b).subrange(0, a.len() as int) =~= a);
        assert(s.subrange(i + a.len(), i + a.len() + b.len()) =~= b) by {
            assert forall|k: int| 0 <= k < b.len() implies s.subrange(
                i + a.len(),
                i + a.len() + b.len(),
            )[k] == b[k] by {
                assert(s.subrange(i, i + (a + b).len())[a.len() + k] == s[i + a.len() + k]);
            }
        }
    }
    if is_at(s, i, a) && is_at(s, i + a.len(), b) {
        assert(s.subrange(i, i + (a + b).len()) =~= a + b) by {
            assert forall|k: int| 0 <= k < (a + b).len() implies s.subrange(
                i,
                i + (a + b).len(),
            )[k] == (a + b)[k] by {
                if k < a.len() {
                    assert(s.subrange(i, i + a.len())[k] == s[i + k]);
                } else {
                    assert(s.subrange(i + a.len(), i + a.len() + b.len())[k - a.len()] == s[i
                        + k]);
                }
            }
        }
    }
}

/// A text that stands at `i` gives the bytes there.
pub proof fn lemma_is_at_index(s: Seq<u8>, i: int, t: Seq<u8>, k: int)
    requires
        is_at(s, i, t),
        0 <= k < t.len(),
    ensures
        s[i + k] == t[k],
{
    assert(s.subrange(i, i + t.len())[k] == s[i + k]);
}

/// The upper-case hexadecimal digit of `v`.
pub open spec fn hex_digit(v: u8) -> u8 {
    if v < 10 {
        (48 + v) as u8
    } else {
        (55 + v) as u8
    }
}

/// The value of the hexadecimal digit `c`, in either case.
pub open spec fn hex_value(c: u8) -> Option<u8> {
    if 48 <= c && c <= 57 {
        Some((c - 48) as u8)
    } else if 65 <= c && c <= 70 {
        Some((c - 55) as u8)
    } else if 97 <= c && c <= 102 {
        Some((c - 87) as u8)
    } else {
        None
    }
}

/// How the byte `b` is written inside a string.
pub open spec fn enc_byte(b: u8) -> Seq<u8> {
    if b == QUOTE {
        seq![BACKSLASH, QUOTE]
    } else if b == BACKSLASH {
        seq![BACKSLASH, BACKSLASH]
    } else if b < 0x20 {
        seq![BACKSLASH, 0x75u8, 0x30u8, 0x30u8, hex_digit(b / 16), hex_digit(b % 16)]
    } else {
        seq![b]
    }
}

/// The bytes of a string, written one after the other, and the closing
/// quote.
pub open spec fn enc_chars(x: Seq<u8>) -> Seq<u8>
    decreases x.len(),
{
    if x.len() == 0 {
        seq![QUOTE]
    } else {
        enc_byte(x[0]) + enc_chars(x.skip(1))
    }
}

/// The text of the string `x`.
pub open spec fn enc_string(x: Seq<u8>) -> Seq<u8> {
    seq![QUOTE] + enc_chars(x)
}

/// The number that the four hexadecimal digits at `i` write.
pub open spec fn hex4(s: Seq<u8>, i: int) -> Option<u32> {
    if 0 <= i && i + 3 < s.len() {
        match (hex_value(s[i]), hex_value(s[i + 1]), hex_value(s[i + 2]), hex_value(s[i + 3])) {
            (Some(a), Some(b), Some(c), Some(d)) => Some((a * 4096 + b * 256 + c * 16 + d) as u32),
            _ => None,
        }
    } else {
        None
    }
}

/// The UTF-8 form of the character with the number `cp`: one byte below
/// 0x80, two below 0x800, three below 0x10000, and four from there on.
pub open spec fn utf8(cp: u32) -> Seq<u8> {
    if cp < 0x80 {
        seq![cp as u8]
    } else if cp < 0x800 {
        seq![(0xC0 + cp / 64) as u8, (0x80 + cp % 64) as u8]
    } else if cp < 0x10000 {
        seq![(0xE0 + cp / 4096) as u8, (0x80 + (cp / 64) % 64) as u8, (0x80 + cp % 64) as u8]
    } else {
        seq![
            (0xF0 + cp / 262144) as u8,
            (0x80 + (cp / 4096) % 64) as u8,
            (0x80 + (cp / 64) % 64) as u8,
            (0x80 + cp % 64) as u8,
        ]
    }
}

/// The character that the surrogates `high` and `low` stand for together.
pub open spec fn surrogate_pair(high: u32, low: u32) -> u32 {
    (0x10000 + (high - 0xD800) * 1024 + (low - 0xDC00)) as u32
}

/// The bytes that the escape `\u`, whose digits begin at `i`, stands for, and
/// where the escape ends: the UTF-8 form of the character that the four
/// digits write, or, where they write a high surrogate, of the character
/// that it and the low surrogate in the escape that follows stand for. A
/// surrogate without its partner stands for nothing.
pub open spec fn p_unicode(s: Seq<u8>, i: int) -> Option<(Seq<u8>, int)> {
    match hex4(s, i) {
        None => None,
        Some(u) => if u < 0xD800 || u >= 0xE000 {
            Some((utf8(u), i + 4))
        } else if u < 0xDC00 && i + 5 < s.len() && s[i + 4] == BACKSLASH && s[i + 5] == 0x75 {
            match hex4(s, i + 6) {
                Some(l) => if 0xDC00 <= l && l < 0xE000 {
                    Some((utf8(surrogate_pair(u, l)), i + 10))
                } else {
                    None
                },
                None => None,
            }
        } else {
            None
        },
    }
}

/// The bytes that the escape after a backslash at `i` stands for, and where
/// the escape ends. Accepted are `\"`, `\\`, `\/`, `\b`, `\f`, `\n`, `\r`,
/// `\t`, and `\u` with four hexadecimal digits.
pub open spec fn p_escape(s: Seq<u8>, i: int) -> Option<(Seq<u8>, int)> {
    if i < 0 || i >= s.len() {
        None
    } else if s[i] == QUOTE || s[i] == BACKSLASH || s[i] == 0x2F {
        Some((seq![s[i]], i + 1))
    } else if s[i] == 0x62 {
        Some((seq![0x08u8], i + 1))
    } else if s[i] == 0x66 {
        Some((seq![0x0Cu8], i + 1))
    } else if s[i] == 0x6E {
        Some((seq![0x0Au8], i + 1))
    } else if s[i] == 0x72 {
        Some((seq![0x0Du8], i + 1))
    } else if s[i] == 0x74 {
        Some((seq![0x09u8], i + 1))
    } else if s[i] == 0x75 {
        p_unicode(s, i + 1)
    } else {
        None
    }
}

/// The bytes of the string whose first byte is written at `i`, and the
/// position after its closing quote.
pub open spec fn p_chars(s: Seq<u8>, i: int) -> Option<(Seq<u8>, int)>
    decreases s.len() - i,
{
    if i < 0 || i >= s.len() {
        None
    } else if s[i] == QUOTE {
        Some((Seq::<u8>::empty(), i + 1))
    } else if s[i] == BACKSLASH {
        match p_escape(s, i + 1) {
            Some((bytes, j)) => if i < j {
                match p_chars(s, j) {
                    Some((rest, k)) => Some((bytes + rest, k)),
                    None => None,
                }
            } else {
                None
            },
            None => None,
        }
    } else if s[i] < 0x20 {
        None
    } else {
        match p_chars(s, i + 1) {
            Some((rest, k)) => Some((seq![s[i]] + rest, k)),
            None => None,
        }
    }
}

/// The string whose text begins at `i`, and the position after it.
pub open spec fn p_string(s: Seq<u8>, i: int) -> Option<(Seq<u8>, int)> {
    if 0 <= i < s.len() && s[i] == QUOTE {
        p_chars(s, i + 1)
    } else {
        None
    }
}

/// Whether `c` is a decimal digit.
pub open spec fn is_digit(c: u8) -> bool {
    48 <= c && c <= 57
}

/// The decimal text of `n`, without leading zeros.
pub open spec fn enc_number(n: nat) -> Seq<u8>
    decreases n,
{
    if n < 10 {
        seq![(48 + n) as u8]
    } else {
        enc_number(n / 10).push((48 + n % 10) as u8)
    }
}

/// The number that the decimal digits `d` write.
pub open spec fn digits_value(d: Seq<u8>) -> nat
    decreases d.len(),
{
    if d.len() == 0 {
        0
    } else {
        digits_value(d.drop_last()) * 10 + (d.last() - 48) as nat
    }
}

/// Where the run of decimal digits that begins at `i` ends.
pub open spec fn digit_run_end(s: Seq<u8>, i: int) -> int
    decreases s.len() - i,
{
    if 0 <= i < s.len() && is_digit(s[i]) {
        digit_run_end(s, i + 1)
    } else {
        i
    }
}

/// The number whose text begins at `i`, and the position after it. The text
/// is a run of digits without a leading zero, and the number fits in 64
/// bits.
pub open spec fn p_number(s: Seq<u8>, i: int) -> Option<(u64, int)> {
    let j = digit_run_end(s, i);
    if i < 0 || j <= i {
        None
    } else {
        let d = s.subrange(i, j);
        if d.len() > 1 && d[0] == 48 {
            None
        } else if digits_value(d) > u64::MAX {
            None
        } else {
            Some((digits_value(d) as u64, j))
        }
    }
}

/// The upper-case hexadecimal digit of `v`.
pub fn hex_digit_of(v: u8) -> (c: u8)
    requires
        v < 16,
    ensures
        c == hex_digit(v),
        hex_value(c) == Some(v),
{
    if v < 10 {
        48 + v
    } else {
        55 + v
    }
}

/// The value of the hexadecimal digit `c`.
fn hex_value_of(c: u8) -> (r: Option<u8>)
    ensures
        r == hex_value(c),
        r matches Some(v) ==> v < 16,
{
    if 48 <= c && c <= 57 {
        Some(c - 48)
    } else if 65 <= c && c <= 70 {
        Some(c - 55)
    } else if 97 <= c && c <= 102 {
        Some(c - 87)
    } else {
        None
    }
}

/// Reads the number that the four hexadecimal digits at `i` write.
fn read_hex4(s: &[u8], i: usize) -> (r: Option<u32>)
    ensures
        r == hex4(s@, i as int),
        r matches Some(u) ==> u < 0x10000,
{
    if s.len() < 4 || i > s.len() - 4 {
        return None;
    }
    let a = match hex_value_of(s[i]) {
        Some(v) => v,
        None => {
            return None;
        },
    };
    let b = match hex_value_of(s[i + 1]) {
        Some(v) => v,
        None => {
            return None;
        },
    };
    let c = match hex_value_of(s[i + 2]) {
        Some(v) => v,
        None => {
            return None;
        },
    };
    let d = match hex_value_of(s[i + 3]) {
        Some(v) => v,
        None => {
            return None;
        },
    };
    let a32: u32 = a.into();
    let b32: u32 = b.into();
    let c32: u32 = c.into();
    let d32: u32 = d.into();
    Some(a32 * 4096 + b32 * 256 + c32 * 16 + d32)
}

/// The low eight bits of `v`, which has no others.
fn low_byte(v: u32) -> (b: u8)
    requires
        v < 256,
    ensures
        b == v,
{
    v as u8
}

/// Appends the UTF-8 form of the character with the number `cp` to `out`.
pub fn push_utf8(out: &mut Vec<u8>, cp: u32)
    requires
        cp < 0x110000,
    ensures
        final(out)@ == old(out)@ + utf8(cp),
{
    if cp < 0x80 {
        out.push(low_byte(cp));
    } else if cp < 0x800 {
        out.push(low_byte(0xC0 + cp / 64));
        out.push(low_byte(0x80 + cp % 64));
    } else if cp < 0x10000 {
        out.push(low_byte(0xE0 + cp / 4096));
        out.push(low_byte(0x80 + (cp / 64) % 64));
        out.push(low_byte(0x80 + cp % 64));
    } else {
        out.push(low_byte(0xF0 + cp / 262144));
        out.push(low_byte(0x80 + (cp / 4096) % 64));
        out.push(low_byte(0x80 + (cp / 64) % 64));
        out.push(low_byte(0x80 + cp % 64));
    }
    proof {
        assert(out@ =~= old(out)@ + utf8(cp));
    }
}

/// Reads the escape after a backslash at `i` and appends the bytes that it
/// stands for to `out`.
fn read_escape(s: &[u8], i: usize, out: &mut Vec<u8>) -> (r: Option<usize>)
    ensures
        match r {
            Some(j) => {
                &&& i < j <= s@.len()
                &&& p_escape(s@, i as int) matches Some((bytes, e)) && e == j && final(out)@ == old(
                    out,
                )@ + bytes
            },
            None => p_escape(s@, i as int) is None,
        },
{
    if i >= s.len() {
        return None;
    }
    let e: u8 = s[i];
    if e == QUOTE || e == BACKSLASH || e == 0x2F {
        out.push(e);
    } else if e == 0x62 {
        out.push(0x08);
    } else if e == 0x66 {
        out.push(0x0C);
    } else if e == 0x6E {
        out.push(0x0A);
    } else if e == 0x72 {
        out.push(0x0D);
    } else if e == 0x74 {
        out.push(0x09);
    } else if e == 0x75 {
        let u = match read_hex4(s, i + 1) {
            Some(u) => u,
            None => {
                return None;
            },
        };
        if u < 0xD800 || u >= 0xE000 {
            push_utf8(out, u);
            return Some(i + 5);
        }
        if u >= 0xDC00 || s.len() - i < 7 || s[i + 5] != BACKSLASH || s[i + 6] != 0x75 {
            return None;
        }
        let l = match read_hex4(s, i + 7) {
            Some(l) => l,
            None => {
                return None;
            },
        };
        if l < 0xDC00 || l >= 0xE000 {
            return None;
        }
        push_utf8(out, 0x10000 + (u - 0xD800) * 1024 + (l - 0xDC00));
        return Some(i + 11);
    } else {
        return None;
    }
    proof {
        assert(out@ =~= old(out)@ + p_escape(s@, i as int)->Some_0.0);
    }
    Some(i + 1)
}

/// Writes the text of the string `x` to `out`.
pub fn write_string(out: &mut Vec<u8>, x: &[u8])
    ensures
        final(out)@ == old(out)@ + enc_string(x@),
{
    out.push(QUOTE);
    let ghost start = out@;
    let mut i: usize = 0;
    proof {
        assert(x@.skip(0) =~= x@);
    }
    while i < x.len()
        invariant
            i <= x.len(),
            start == old(out)@ + seq![QUOTE],
            out@ + enc_chars(x@.skip(i as int)) == start + enc_chars(x@),
        decreases x.len() - i,
    {
        let b: u8 = x[i];
        let ghost before = out@;
        proof {
            assert(x@.skip(i as int)[0] == b);
            assert(x@.skip(i as int).skip(1) =~= x@.skip(i as int + 1));
        }
        if b == QUOTE {
            out.push(BACKSLASH);
            out.push(QUOTE);
        } else if b == BACKSLASH {
            out.push(BACKSLASH);
            out.push(BACKSLASH);
        } else if b < 0x20 {
            out.push(BACKSLASH);
            out.push(0x75);
            out.push(0x30);
            out.push(0x30);
            out.push(hex_digit_of(b / 16));
            out.push(hex_digit_of(b % 16));
        } else {
            out.push(b);
        }
        proof {
            assert(out@ =~= before + enc_byte(b));
            assert((before + enc_byte(b)) + enc_chars(x@.skip(i as int + 1)) =~= before + (
            enc_byte(b) + enc_chars(x@.skip(i as int + 1))));
        }
        i = i + 1;
    }
    let ghost before = out@;
    out.push(QUOTE);
    proof {
        assert(out@ =~= before + enc_chars(x@.skip(i as int)));
        assert(start + enc_chars(x@) =~= old(out)@ + enc_string(x@));
    }
}

/// Reads the string whose text begins at `i`.
pub fn read_string(s: &[u8], i: usize) -> (r: Option<(Vec<u8>, usize)>)
    ensures
        match r {
            Some((x, j)) => i < j <= s@.len() && p_string(s@, i as int) == Some((x@, j as int)),
            None => p_string(s@, i as int) is None,
        },
{
    if i >= s.len() || s[i] != QUOTE {
        return None;
    }
    let mut out: Vec<u8> = Vec::new();
    let mut k: usize = i + 1;
    loop
        invariant
            i < k <= s@.len(),
            s@[i as int] == QUOTE,
            p_chars(s@, i as int + 1) == match p_chars(s@, k as int) {
                Some((rest, e)) => Some((out@ + rest, e)),
                None => None,
            },
        decreases s@.len() - k,
    {
        if k >= s.len() {
            return None;
        }
        let c: u8 = s[k];
        let ghost before = out@;
        if c == QUOTE {
            proof {
                assert(p_chars(s@, k as int) == Some((Seq::<u8>::empty(), k as int + 1)));
                assert(before + Seq::<u8>::empty() =~= before);
            }
            return Some((out, k + 1));
        } else if c == BACKSLASH {
            let next = match read_escape(s, k + 1, &mut out) {
                Some(j) => j,
                None => {
                    return None;
                },
            };
            proof {
                let bytes = p_escape(s@, k as int + 1)->Some_0.0;
                match p_chars(s@, next as int) {
                    Some((rest, e)) => {
                        assert((before + bytes) + rest =~= before + (bytes + rest));
                    },
                    None => {},
                }
            }
            k = next;
        } else if c < 0x20 {
            return None;
        } else {
            out.push(c);
            proof {
                assert(out@ =~= before + seq![c]);
                match p_chars(s@, k as int + 1) {
                    Some((rest, e)) => {
                        assert((before + seq![c]) + rest =~= before + (seq![c] + rest));
                    },
                    None => {},
                }
            }
            k = k + 1;
        }
    }
}

/// Writes the decimal text of `n` to `out`.
pub fn write_number(out: &mut Vec<u8>, n: u64)
    ensures
        final(out)@ == old(out)@ + enc_number(n as nat),
{
    let mut low: Vec<u8> = Vec::new();
    low.push(48 + (n % 10) as u8);
    let mut m: u64 = n / 10;
    proof {
        assert(low@.reverse() =~= seq![(48 + n % 10) as u8]);
        if n >= 10 {
            assert(enc_number(n as nat) =~= enc_number(m as nat) + low@.reverse());
        }
    }
    while m > 0
        invariant
            low@.len() > 0,
            enc_number(n as nat) == if m == 0 {
                low@.reverse()
            } else {
                enc_number(m as nat) + low@.reverse()
            },
        decreases m,
    {
        let ghost before = low@;
        let d: u8 = 48 + (m % 10) as u8;
        low.push(d);
        proof {
            assert(low@.reverse() =~= seq![d] + before.reverse());
            if m >= 10 {
                assert(enc_number(m as nat) + before.reverse() =~= enc_number((m / 10) as nat) + (
                seq![d] + before.reverse()));
            } else {
                assert(enc_number(m as nat) =~= seq![d]);
            }
        }
        m = m / 10;
    }
    let digits = reversed(low);
    append(out, digits.as_slice());
}

/// The digits of a number are a run of digits.
pub proof fn lemma_digit_run(s: Seq<u8>, i: int, j: int)
    requires
        0 <= i <= j <= s.len(),
        forall|k: int| i <= k < j ==> is_digit(#[trigger] s[k]),
        j == s.len() || !is_digit(s[j]),
    ensures
        digit_run_end(s, i) == j,
    decreases j - i,
{
    if i < j {
        lemma_digit_run(s, i + 1, j);
    }
}

/// Appending digits never makes the number smaller.
pub proof fn lemma_digits_grow(d: Seq<u8>, k: int)
    requires
        0 <= k <= d.len(),
        forall|i: int| 0 <= i < d.len() ==> is_digit(#[trigger] d[i]),
    ensures
        digits_value(d.take(k)) <= digits_value(d),
    decreases d.len() - k,
{
    if k == d.len() {
        assert(d.take(k) =~= d);
    } else {
        lemma_digits_grow(d, k + 1);
        assert(d.take(k + 1).drop_last() =~= d.take(k));
        assert(d.take(k + 1).last() == d[k]);
    }
}

/// Reads the number whose text begins at `i`.
pub fn read_number(s: &[u8], i: usize) -> (r: Option<(u64, usize)>)
    ensures
        match r {
            Some((n, j)) => i < j <= s@.len() && p_number(s@, i as int) == Some((n, j as int)),
            None => p_number(s@, i as int) is None,
        },
{
    let mut j: usize = i;
    while j < s.len() && 48 <= s[j] && s[j] <= 57
        invariant
            i <= j,
            j <= s@.len() || j == i,
            forall|k: int| i <= k < j ==> is_digit(#[trigger] s@[k]),
        decreases s@.len() - j,
    {
        j = j + 1;
    }
    if j == i {
        assert(digit_run_end(s@, i as int) == i);
        return None;
    }
    proof {
        lemma_digit_run(s@, i as int, j as int);
    }
    let ghost d = s@.subrange(i as int, j as int);
    if j - i > 1 && s[i] == 48 {
        assert(d[0] == s@[i as int]);
        return None;
    }
    let mut acc: u64 = 0;
    let mut k: usize = i;
    proof {
        assert(d.take(0) =~= Seq::<u8>::empty());
    }
    while k < j
        invariant
            i <= k <= j <= s@.len(),
            i < j,
            digit_run_end(s@, i as int) == j,
            !(d.len() > 1 && d[0] == 48),
            d == s@.subrange(i as int, j as int),
            forall|t: int| 0 <= t < d.len() ==> is_digit(#[trigger] d[t]),
            acc == digits_value(d.take(k - i)),
        decreases j - k,
    {
        proof {
            assert(d[k - i] == s@[k as int]);
            assert(is_digit(d[k - i]));
        }
        let digit: u64 = (s[k] - 48) as u64;
        proof {
            assert(d.take(k - i + 1).drop_last() =~= d.take(k - i));
            assert(d.take(k - i + 1).last() == d[k - i]);
            assert(digits_value(d.take(k - i + 1)) == acc * 10 + digit);
            lemma_digits_grow(d, k - i + 1);
        }
        if acc > (u64::MAX - digit) / 10 {
            proof {
                assert(acc * 10 + digit > u64::MAX);
                assert(digits_value(d) > u64::MAX);
            }
            return None;
        }
        acc = acc * 10 + digit;
        k = k + 1;
    }
    proof {
        assert(d.take(j - i) =~= d);
    }
    Some((acc, j))
}

/// The written bytes of a string are read back as the string, wherever they
/// stand.
pub proof fn lemma_read_chars(s: Seq<u8>, i: int, x: Seq<u8>)
    requires
        is_at(s, i, enc_chars(x)),
    ensures
        p_chars(s, i) == Some((x, i + enc_chars(x).len())),
    decreases x.len(),
{
    if x.len() == 0 {
        lemma_is_at_index(s, i, enc_chars(x), 0);
        assert(x =~= Seq::<u8>::empty());
    } else {
        let b = x[0];
        let head = enc_byte(b);
        let tail = enc_chars(x.skip(1));
        lemma_is_at_concat(s, i, head, tail);
        lemma_read_chars(s, i + head.len(), x.skip(1));
        assert(seq![b] + x.skip(1) =~= x);
        lemma_is_at_index(s, i, head, 0);
        if b == QUOTE || b == BACKSLASH {
            lemma_is_at_index(s, i, head, 1);
        } else if b < 0x20 {
            lemma_is_at_index(s, i, head, 1);
            lemma_is_at_index(s, i, head, 2);
            lemma_is_at_index(s, i, head, 3);
            lemma_is_at_index(s, i, head, 4);
            lemma_is_at_index(s, i, head, 5);
            assert(hex_value(hex_digit(b / 16)) == Some((b / 16) as u8));
            assert(hex_value(hex_digit(b % 16)) == Some((b % 16) as u8));
            assert(hex_value(0x30u8) == Some(0u8));
            assert(hex4(s, i + 2) == Some(b as u32));
            assert(utf8(b as u32) =~= seq![b]);
            assert(p_escape(s, i + 1) == Some((seq![b], i + 6)));
        }
    }
}

/// The text of a string is read back as the string, wherever it stands.
pub proof fn lemma_read_string(s: Seq<u8>, i: int, x: Seq<u8>)
    requires
        is_at(s, i, enc_string(x)),
    ensures
        p_string(s, i) == Some((x, i + enc_string(x).len())),
{
    lemma_is_at_concat(s, i, seq![QUOTE], enc_chars(x));
    lemma_is_at_index(s, i, seq![QUOTE], 0);
    lemma_read_chars(s, i + 1, x);
}

/// The text of a number is made of digits, has no leading zero, and writes
/// the number.
pub proof fn lemma_enc_number(n: nat)
    ensures
        enc_number(n).len() >= 1,
        forall|k: int| 0 <= k < enc_number(n).len() ==> is_digit(#[trigger] enc_number(n)[k]),
        enc_number(n).len() > 1 ==> enc_number(n)[0] != 48,
        n < 10 ==> enc_number(n).len() == 1,
        n >= 1 ==> enc_number(n)[0] != 48,
        digits_value(enc_number(n)) == n,
    decreases n,
{
    if n < 10 {
        let d = enc_number(n);
        assert(d.drop_last() =~= Seq::<u8>::empty());
        assert(digits_value(d.drop_last()) == 0);
    } else {
        lemma_enc_number(n / 10);
        let d = enc_number(n);
        let p = enc_number(n / 10);
        assert(d.drop_last() =~= p);
        assert(d[0] == p[0]);
    }
}

/// The text of a number is read back as the number, wherever it stands
/// before something that is not a digit.
pub proof fn lemma_read_number(s: Seq<u8>, i: int, n: u64)
    requires
        is_at(s, i, enc_number(n as nat)),
        i + enc_number(n as nat).len() == s.len() || !is_digit(
            s[i + enc_number(n as nat).len()],
        ),
    ensures
        p_number(s, i) == Some((n, i + enc_number(n as nat).len())),
{
    let t = enc_number(n as nat);
    lemma_enc_number(n as nat);
    assert forall|k: int| i <= k < i + t.len() implies is_digit(#[trigger] s[k]) by {
        lemma_is_at_index(s, i, t, k - i);
    }
    lemma_digit_run(s, i, i + t.len());
}

} // verus!
