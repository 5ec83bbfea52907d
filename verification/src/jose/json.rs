//! The JSON objects of token headers and claims. An object is modelled as
//! the list of its members that are strings, whole numbers from 0 to
//! 2^64 - 1, booleans, or lists of strings. Objects are written without
//! white space. Reading is more generous than writing: white space between
//! the parts of an object is skipped, and a member whose value is of any other
//! kind (an object, `null`, a fraction, a negative number, a list of other
//! things) is passed over and left out of what is read. Of an object or a
//! list that is passed over only the strings and the depth of the brackets
//! are examined.

use vstd::prelude::*;
use crate::bytes::{clone_list, list_view, to_vec};
use crate::jose::text::{
    digit_run_end, enc_chars, enc_number, enc_string, is_at, is_digit, lemma_enc_number,
    lemma_is_at_concat, lemma_is_at_index, lemma_read_number, lemma_read_string, p_number,
    p_string, read_number, read_string, write_number, write_string, COLON, COMMA, QUOTE,
};

verus! {

/// The byte `[`.
pub const OPEN_BRACKET: u8 = 0x5B;

/// The byte `]`.
pub const CLOSE_BRACKET: u8 = 0x5D;

/// The byte `{`.
pub const OPEN_BRACE: u8 = 0x7B;

/// The byte `}`.
pub const CLOSE_BRACE: u8 = 0x7D;

/// The byte `-`.
pub const MINUS: u8 = 0x2D;

/// The byte `+`.
pub const PLUS: u8 = 0x2B;

/// The byte `.`.
pub const POINT: u8 = 0x2E;

/// The text `true`.
pub open spec fn true_text() -> Seq<u8> {
    seq![0x74u8, 0x72u8, 0x75u8, 0x65u8]
}

/// The text `false`.
pub open spec fn false_text() -> Seq<u8> {
    seq![0x66u8, 0x61u8, 0x6Cu8, 0x73u8, 0x65u8]
}

/// The text `null`.
pub open spec fn null_text() -> Seq<u8> {
    seq![0x6Eu8, 0x75u8, 0x6Cu8, 0x6Cu8]
}

/// The value of a member.
#[derive(Debug, PartialEq, Eq)]
pub enum JsonValue {
    Str(Vec<u8>),
    Num(u64),
    Bool(bool),
    List(Vec<Vec<u8>>),
}

/// A value as a mathematical value.
pub enum JsonValueView {
    Str(Seq<u8>),
    Num(u64),
    Bool(bool),
    List(Seq<Seq<u8>>),
}

/// A member of an object: a name and a value.
#[derive(Debug, PartialEq, Eq)]
pub struct Member {
    pub name: Vec<u8>,
    pub value: JsonValue,
}

/// A member as a mathematical value.
pub struct MemberView {
    pub name: Seq<u8>,
    pub value: JsonValueView,
}

impl JsonValue {
    /// The value as a mathematical value, with its byte strings as sequences.
    pub open spec fn view(&self) -> JsonValueView {
        match self {
            JsonValue::Str(x) => JsonValueView::Str(x@),
            JsonValue::Num(n) => JsonValueView::Num(*n),
            JsonValue::Bool(b) => JsonValueView::Bool(*b),
            JsonValue::List(l) => JsonValueView::List(list_view(l@)),
        }
    }

    /// A copy of the value.
    pub fn clone(&self) -> (r: JsonValue)
        ensures
            r@ == self@,
    {
        match self {
            JsonValue::Str(x) => JsonValue::Str(to_vec(x.as_slice())),
            JsonValue::Num(n) => JsonValue::Num(*n),
            JsonValue::Bool(b) => JsonValue::Bool(*b),
            JsonValue::List(l) => JsonValue::List(clone_list(l)),
        }
    }
}

impl Member {
    /// The value as a mathematical value, with its byte strings as sequences.
    pub open spec fn view(&self) -> MemberView {
        MemberView { name: self.name@, value: self.value@ }
    }

    /// A copy of the member.
    pub fn clone(&self) -> (r: Member)
        ensures
            r@ == self@,
    {
        Member { name: to_vec(self.name.as_slice()), value: self.value.clone() }
    }
}

/// The views of a list of members.
pub open spec fn members_view(s: Seq<Member>) -> Seq<MemberView> {
    s.map_values(|m: Member| m@)
}

/// A copy of a list of members.
pub fn clone_members(l: &Vec<Member>) -> (r: Vec<Member>)
    ensures
        members_view(r@) == members_view(l@),
{
    let mut out: Vec<Member> = Vec::new();
    let mut i: usize = 0;
    while i < l.len()
        invariant
            i <= l.len(),
            members_view(out@) == members_view(l@).take(i as int),
        decreases l.len() - i,
    {
        let ghost before = members_view(out@);
        out.push(l[i].clone());
        proof {
            assert(members_view(out@) =~= before.push(l@[i as int]@));
            assert(members_view(l@).take(i as int + 1) =~= members_view(l@).take(i as int).push(
                l@[i as int]@,
            ));
        }
        i = i + 1;
    }
    proof {
        assert(members_view(l@).take(l.len() as int) =~= members_view(l@));
    }
    out
}

/// The texts of the strings of a list that is not empty, separated by
/// commas.
pub open spec fn enc_strings(l: Seq<Seq<u8>>) -> Seq<u8>
    decreases l.len(),
{
    if l.len() == 0 {
        Seq::<u8>::empty()
    } else if l.len() == 1 {
        enc_string(l[0])
    } else {
        enc_string(l[0]) + seq![COMMA] + enc_strings(l.skip(1))
    }
}

/// The text of a list of strings.
pub open spec fn enc_list(l: Seq<Seq<u8>>) -> Seq<u8> {
    if l.len() == 0 {
        seq![OPEN_BRACKET, CLOSE_BRACKET]
    } else {
        seq![OPEN_BRACKET] + enc_strings(l) + seq![CLOSE_BRACKET]
    }
}

/// The text of a value.
pub open spec fn enc_value(v: JsonValueView) -> Seq<u8> {
    match v {
        JsonValueView::Str(x) => enc_string(x),
        JsonValueView::Num(n) => enc_number(n as nat),
        JsonValueView::Bool(b) => if b {
            true_text()
        } else {
            false_text()
        },
        JsonValueView::List(l) => enc_list(l),
    }
}

/// The text of a member: its name, a colon, its value.
pub open spec fn enc_member(m: MemberView) -> Seq<u8> {
    enc_string(m.name) + seq![COLON] + enc_value(m.value)
}

/// The texts of the members of a list that is not empty, separated by
/// commas.
pub open spec fn enc_members(ms: Seq<MemberView>) -> Seq<u8>
    decreases ms.len(),
{
    if ms.len() == 0 {
        Seq::<u8>::empty()
    } else if ms.len() == 1 {
        enc_member(ms[0])
    } else {
        enc_member(ms[0]) + seq![COMMA] + enc_members(ms.skip(1))
    }
}

/// The text of the object with the members `ms`, in their order.
pub open spec fn enc_object(ms: Seq<MemberView>) -> Seq<u8> {
    if ms.len() == 0 {
        seq![OPEN_BRACE, CLOSE_BRACE]
    } else {
        seq![OPEN_BRACE] + enc_members(ms) + seq![CLOSE_BRACE]
    }
}

/// Whether `c` is white space: a space, a tab, a line feed or a carriage
/// return.
pub open spec fn is_ws(c: u8) -> bool {
    c == 0x20 || c == 0x09 || c == 0x0A || c == 0x0D
}

/// Where the white space that begins at `i` ends.
pub open spec fn ws_end(s: Seq<u8>, i: int) -> int
    decreases s.len() - i,
{
    if 0 <= i < s.len() && is_ws(s[i]) {
        ws_end(s, i + 1)
    } else {
        i
    }
}

/// The strings, separated by commas, whose text begins at `i`, and the
/// position of what follows them. White space around the commas and after
/// the last string is skipped.
pub open spec fn p_strings(s: Seq<u8>, i: int) -> Option<(Seq<Seq<u8>>, int)>
    decreases s.len() - i,
{
    match p_string(s, i) {
        None => None,
        Some((x, j)) => {
            let e = ws_end(s, j);
            if j <= i {
                None
            } else if 0 <= e < s.len() && s[e] == COMMA {
                let n = ws_end(s, e + 1);
                if n <= i || n > s.len() {
                    None
                } else {
                    match p_strings(s, n) {
                        Some((rest, k)) => Some((seq![x] + rest, k)),
                        None => None,
                    }
                }
            } else {
                Some((seq![x], e))
            }
        },
    }
}

/// The list of strings whose text begins at `i`, and the position after it.
pub open spec fn p_list(s: Seq<u8>, i: int) -> Option<(Seq<Seq<u8>>, int)> {
    if 0 <= i < s.len() && s[i] == OPEN_BRACKET {
        let b = ws_end(s, i + 1);
        if 0 <= b < s.len() && s[b] == CLOSE_BRACKET {
            Some((Seq::<Seq<u8>>::empty(), b + 1))
        } else {
            match p_strings(s, b) {
                Some((l, j)) => if 0 <= j < s.len() && s[j] == CLOSE_BRACKET {
                    Some((l, j + 1))
                } else {
                    None
                },
                None => None,
            }
        }
    } else {
        None
    }
}

/// The value whose text begins at `i`, and the position after it, where the
/// value is of a kind that is modelled. What the value is shows in its first
/// byte: a quote begins a string, a digit a number, a bracket a list, and
/// `t` and `f` the booleans.
pub open spec fn p_value(s: Seq<u8>, i: int) -> Option<(JsonValueView, int)> {
    if i < 0 || i >= s.len() {
        None
    } else if s[i] == QUOTE {
        match p_string(s, i) {
            Some((x, j)) => Some((JsonValueView::Str(x), j)),
            None => None,
        }
    } else if is_digit(s[i]) {
        match p_number(s, i) {
            Some((n, j)) => Some((JsonValueView::Num(n), j)),
            None => None,
        }
    } else if s[i] == OPEN_BRACKET {
        match p_list(s, i) {
            Some((l, j)) => Some((JsonValueView::List(l), j)),
            None => None,
        }
    } else if is_at(s, i, true_text()) {
        Some((JsonValueView::Bool(true), i + 4))
    } else if is_at(s, i, false_text()) {
        Some((JsonValueView::Bool(false), i + 5))
    } else {
        None
    }
}

/// Where the whole part of the number that begins at `i` ends: after an
/// optional minus sign, a single zero or a run of digits that begins with
/// another digit.
pub open spec fn whole_part_end(s: Seq<u8>, i: int) -> Option<int> {
    let a = if 0 <= i < s.len() && s[i] == MINUS {
        i + 1
    } else {
        i
    };
    let b = digit_run_end(s, a);
    if a < 0 || b <= a {
        None
    } else if s[a] == 48 {
        Some(a + 1)
    } else {
        Some(b)
    }
}

/// Where the fraction that may begin at `c` ends: a point and one digit or
/// more. Where no point stands there, there is no fraction.
pub open spec fn fraction_end(s: Seq<u8>, c: int) -> Option<int> {
    if 0 <= c < s.len() && s[c] == POINT {
        let e = digit_run_end(s, c + 1);
        if e <= c + 1 {
            None
        } else {
            Some(e)
        }
    } else {
        Some(c)
    }
}

/// Where the exponent that may begin at `d` ends: `e` or `E`, an optional
/// sign, and one digit or more. Where neither letter stands there, there is
/// no exponent.
pub open spec fn exponent_end(s: Seq<u8>, d: int) -> Option<int> {
    if 0 <= d < s.len() && (s[d] == 0x65 || s[d] == 0x45) {
        let g = if d + 1 < s.len() && (s[d + 1] == PLUS || s[d + 1] == MINUS) {
            d + 2
        } else {
            d + 1
        };
        let h = digit_run_end(s, g);
        if h <= g {
            None
        } else {
            Some(h)
        }
    } else {
        Some(d)
    }
}

/// The position after the number of any size and sign, with or without a
/// fraction and an exponent, whose text begins at `i`.
pub open spec fn any_number_end(s: Seq<u8>, i: int) -> Option<int> {
    match whole_part_end(s, i) {
        Some(c) => match fraction_end(s, c) {
            Some(d) => exponent_end(s, d),
            None => None,
        },
        None => None,
    }
}

/// The position after the bracket or brace that closes the `depth` that are
/// open at `i`. Strings are passed over whole, so that brackets in them do
/// not count; nothing else is examined.
pub open spec fn scan_close(s: Seq<u8>, i: int, depth: nat) -> Option<int>
    decreases s.len() - i,
{
    if i < 0 || i >= s.len() || depth == 0 {
        None
    } else if s[i] == QUOTE {
        match p_string(s, i) {
            Some((_x, j)) => if i < j <= s.len() {
                scan_close(s, j, depth)
            } else {
                None
            },
            None => None,
        }
    } else if s[i] == OPEN_BRACE || s[i] == OPEN_BRACKET {
        scan_close(s, i + 1, depth + 1)
    } else if s[i] == CLOSE_BRACE || s[i] == CLOSE_BRACKET {
        if depth == 1 {
            Some(i + 1)
        } else {
            scan_close(s, i + 1, (depth - 1) as nat)
        }
    } else {
        scan_close(s, i + 1, depth)
    }
}

/// The position after the value of any kind that begins at `i`: after the
/// closing quote of a string, after the bracket or brace that closes the one
/// at `i`, after `null`, `true` or `false`, or after a number.
pub open spec fn p_skip(s: Seq<u8>, i: int) -> Option<int> {
    if i < 0 || i >= s.len() {
        None
    } else if s[i] == QUOTE {
        match p_string(s, i) {
            Some((_x, j)) => Some(j),
            None => None,
        }
    } else if s[i] == OPEN_BRACE || s[i] == OPEN_BRACKET {
        scan_close(s, i + 1, 1)
    } else if is_at(s, i, null_text()) || is_at(s, i, true_text()) {
        Some(i + 4)
    } else if is_at(s, i, false_text()) {
        Some(i + 5)
    } else {
        any_number_end(s, i)
    }
}

/// Whether what follows at `k`, after white space, ends a member: a comma or
/// a closing brace.
pub open spec fn ends_member(s: Seq<u8>, k: int) -> bool {
    let e = ws_end(s, k);
    0 <= e < s.len() && (s[e] == COMMA || s[e] == CLOSE_BRACE)
}

/// A member that is passed over: the position after its value, which begins
/// at `v`.
pub open spec fn p_passed_over(s: Seq<u8>, v: int) -> Option<(Option<MemberView>, int)> {
    match p_skip(s, v) {
        Some(k) => Some((None, k)),
        None => None,
    }
}

/// The member whose text begins at `i`, and the position after it: its
/// name, a colon, and its value, with white space skipped around the colon.
/// Where the value is of a kind that is modelled and a comma or a closing
/// brace follows it, the member is read; otherwise its value is passed over
/// and there is no member.
pub open spec fn p_member(s: Seq<u8>, i: int) -> Option<(Option<MemberView>, int)> {
    match p_string(s, i) {
        None => None,
        Some((name, j)) => {
            let c = ws_end(s, j);
            if 0 <= c < s.len() && s[c] == COLON {
                let v = ws_end(s, c + 1);
                match p_value(s, v) {
                    Some((value, k)) => if ends_member(s, k) {
                        Some((Some(MemberView { name, value }), k))
                    } else {
                        p_passed_over(s, v)
                    },
                    None => p_passed_over(s, v),
                }
            } else {
                None
            }
        },
    }
}

/// The member that was read, if one was, as a list.
pub open spec fn kept(m: Option<MemberView>) -> Seq<MemberView> {
    match m {
        Some(x) => seq![x],
        None => Seq::<MemberView>::empty(),
    }
}

/// The members, separated by commas, whose text begins at `i`, without those
/// that are passed over, and the position of what follows them. White space
/// around the commas and after the last member is skipped.
pub open spec fn p_members(s: Seq<u8>, i: int) -> Option<(Seq<MemberView>, int)>
    decreases s.len() - i,
{
    match p_member(s, i) {
        None => None,
        Some((m, k)) => {
            let e = ws_end(s, k);
            if k <= i {
                None
            } else if 0 <= e < s.len() && s[e] == COMMA {
                let n = ws_end(s, e + 1);
                if n <= i || n > s.len() {
                    None
                } else {
                    match p_members(s, n) {
                        Some((rest, z)) => Some((kept(m) + rest, z)),
                        None => None,
                    }
                }
            } else {
                Some((kept(m), e))
            }
        },
    }
}

/// The members of the object that `s` is the text of, if it is the text of
/// one: an opening brace, members separated by commas, and a closing brace,
/// with white space skipped between them, before the first and after the
/// last.
pub open spec fn p_object(s: Seq<u8>) -> Option<Seq<MemberView>> {
    let a = ws_end(s, 0);
    if a < 0 || a >= s.len() || s[a] != OPEN_BRACE {
        None
    } else {
        let b = ws_end(s, a + 1);
        if 0 <= b < s.len() && s[b] == CLOSE_BRACE {
            if ws_end(s, b + 1) == s.len() {
                Some(Seq::<MemberView>::empty())
            } else {
                None
            }
        } else {
            match p_members(s, b) {
                Some((ms, j)) => if 0 <= j < s.len() && s[j] == CLOSE_BRACE && ws_end(s, j + 1)
                    == s.len() {
                    Some(ms)
                } else {
                    None
                },
                None => None,
            }
        }
    }
}

/// Writes the text of a list of strings to `out`.
pub fn write_list(out: &mut Vec<u8>, l: &Vec<Vec<u8>>)
    ensures
        final(out)@ == old(out)@ + enc_list(list_view(l@)),
{
    out.push(OPEN_BRACKET);
    if l.len() == 0 {
        out.push(CLOSE_BRACKET);
        proof {
            assert(out@ =~= old(out)@ + enc_list(list_view(l@)));
        }
        return ;
    }
    let ghost start = out@;
    let ghost lv = list_view(l@);
    let mut i: usize = 0;
    proof {
        assert(lv.skip(0) =~= lv);
    }
    while i < l.len() - 1
        invariant
            l.len() > 0,
            i <= l.len() - 1,
            lv == list_view(l@),
            out@ + enc_strings(lv.skip(i as int)) == start + enc_strings(lv),
        decreases l.len() - i,
    {
        let ghost before = out@;
        write_string(out, l[i].as_slice());
        out.push(COMMA);
        proof {
            let rest = lv.skip(i as int);
            assert(rest[0] == l@[i as int]@);
            assert(rest.skip(1) =~= lv.skip(i as int + 1));
            assert(out@ =~= before + (enc_string(rest[0]) + seq![COMMA]));
            assert((before + (enc_string(rest[0]) + seq![COMMA])) + enc_strings(
                lv.skip(i as int + 1),
            ) =~= before + (enc_string(rest[0]) + seq![COMMA] + enc_strings(lv.skip(i as int + 1))));
        }
        i = i + 1;
    }
    let ghost before = out@;
    write_string(out, l[i].as_slice());
    proof {
        let rest = lv.skip(i as int);
        assert(rest[0] == l@[i as int]@);
        assert(rest.len() == 1);
    }
    out.push(CLOSE_BRACKET);
    proof {
        assert(out@ =~= (start + enc_strings(lv)) + seq![CLOSE_BRACKET]);
        assert(out@ =~= old(out)@ + enc_list(lv));
    }
}

/// Writes the text of a value to `out`.
pub fn write_value(out: &mut Vec<u8>, v: &JsonValue)
    ensures
        final(out)@ == old(out)@ + enc_value(v@),
{
    match v {
        JsonValue::Str(x) => write_string(out, x.as_slice()),
        JsonValue::Num(n) => write_number(out, *n),
        JsonValue::Bool(b) => {
            if *b {
                out.push(0x74);
                out.push(0x72);
                out.push(0x75);
                out.push(0x65);
                proof {
                    assert(out@ =~= old(out)@ + true_text());
                }
            } else {
                out.push(0x66);
                out.push(0x61);
                out.push(0x6C);
                out.push(0x73);
                out.push(0x65);
                proof {
                    assert(out@ =~= old(out)@ + false_text());
                }
            }
        },
        JsonValue::List(l) => write_list(out, l),
    }
}

/// Writes the text of a member to `out`.
pub fn write_member(out: &mut Vec<u8>, m: &Member)
    ensures
        final(out)@ == old(out)@ + enc_member(m@),
{
    write_string(out, m.name.as_slice());
    out.push(COLON);
    write_value(out, &m.value);
    proof {
        assert(out@ =~= old(out)@ + enc_member(m@));
    }
}

/// The text of the object with the members `ms`, in their order.
pub fn write_object(ms: &Vec<Member>) -> (r: Vec<u8>)
    ensures
        r@ == enc_object(members_view(ms@)),
{
    let mut out: Vec<u8> = Vec::new();
    out.push(OPEN_BRACE);
    if ms.len() == 0 {
        out.push(CLOSE_BRACE);
        proof {
            assert(out@ =~= enc_object(members_view(ms@)));
        }
        return out;
    }
    let ghost start = out@;
    let ghost mv = members_view(ms@);
    let mut i: usize = 0;
    proof {
        assert(mv.skip(0) =~= mv);
    }
    while i < ms.len() - 1
        invariant
            ms.len() > 0,
            i <= ms.len() - 1,
            mv == members_view(ms@),
            out@ + enc_members(mv.skip(i as int)) == start + enc_members(mv),
        decreases ms.len() - i,
    {
        let ghost before = out@;
        write_member(&mut out, &ms[i]);
        out.push(COMMA);
        proof {
            let rest = mv.skip(i as int);
            assert(rest[0] == ms@[i as int]@);
            assert(rest.skip(1) =~= mv.skip(i as int + 1));
            assert(out@ =~= before + (enc_member(rest[0]) + seq![COMMA]));
            assert((before + (enc_member(rest[0]) + seq![COMMA])) + enc_members(
                mv.skip(i as int + 1),
            ) =~= before + (enc_member(rest[0]) + seq![COMMA] + enc_members(mv.skip(i as int + 1))));
        }
        i = i + 1;
    }
    write_member(&mut out, &ms[i]);
    proof {
        let rest = mv.skip(i as int);
        assert(rest[0] == ms@[i as int]@);
        assert(rest.len() == 1);
    }
    out.push(CLOSE_BRACE);
    proof {
        assert(out@ =~= (start + enc_members(mv)) + seq![CLOSE_BRACE]);
        assert(out@ =~= enc_object(mv));
    }
    out
}

/// Skips the white space that begins at `i`.
pub fn skip_ws(s: &[u8], i: usize) -> (r: usize)
    requires
        i <= s@.len(),
    ensures
        i <= r <= s@.len(),
        r == ws_end(s@, i as int),
        r < s@.len() ==> !is_ws(s@[r as int]),
{
    let mut r: usize = i;
    while r < s.len() && (s[r] == 0x20 || s[r] == 0x09 || s[r] == 0x0A || s[r] == 0x0D)
        invariant
            i <= r <= s@.len(),
            ws_end(s@, i as int) == ws_end(s@, r as int),
        decreases s@.len() - r,
    {
        proof {
            assert(ws_end(s@, r as int) == ws_end(s@, r as int + 1));
        }
        r = r + 1;
    }
    proof {
        assert(ws_end(s@, r as int) == r);
    }
    r
}

/// Reads the strings, separated by commas, whose text begins at `i`.
fn read_strings(s: &[u8], i: usize) -> (r: Option<(Vec<Vec<u8>>, usize)>)
    ensures
        match r {
            Some((l, j)) => i < j <= s@.len() && p_strings(s@, i as int) == Some(
                (list_view(l@), j as int),
            ),
            None => p_strings(s@, i as int) is None,
        },
{
    if i > s.len() {
        return None;
    }
    let mut out: Vec<Vec<u8>> = Vec::new();
    let mut cur: usize = i;
    proof {
        assert(list_view(out@) =~= Seq::<Seq<u8>>::empty());
        match p_strings(s@, i as int) {
            Some((rest, k)) => {
                assert(list_view(out@) + rest =~= rest);
            },
            None => {},
        }
    }
    loop
        invariant
            i <= cur <= s@.len(),
            p_strings(s@, i as int) == match p_strings(s@, cur as int) {
                Some((rest, k)) => Some((list_view(out@) + rest, k)),
                None => None,
            },
        decreases s@.len() - cur,
    {
        let (x, j) = match read_string(s, cur) {
            Some(found) => found,
            None => {
                return None;
            },
        };
        let ghost before = list_view(out@);
        let ghost xv = x@;
        out.push(x);
        proof {
            assert(list_view(out@) =~= before + seq![xv]);
        }
        let e = skip_ws(s, j);
        if e < s.len() && s[e] == COMMA {
            let n = skip_ws(s, e + 1);
            proof {
                match p_strings(s@, n as int) {
                    Some((rest, k)) => {
                        assert((before + seq![xv]) + rest =~= before + (seq![xv] + rest));
                    },
                    None => {},
                }
            }
            cur = n;
        } else {
            return Some((out, e));
        }
    }
}

/// Reads the list of strings whose text begins at `i`.
fn read_list(s: &[u8], i: usize) -> (r: Option<(Vec<Vec<u8>>, usize)>)
    ensures
        match r {
            Some((l, j)) => i < j <= s@.len() && p_list(s@, i as int) == Some(
                (list_view(l@), j as int),
            ),
            None => p_list(s@, i as int) is None,
        },
{
    if i >= s.len() || s[i] != OPEN_BRACKET {
        return None;
    }
    let b = skip_ws(s, i + 1);
    if b < s.len() && s[b] == CLOSE_BRACKET {
        let l: Vec<Vec<u8>> = Vec::new();
        assert(list_view(l@) =~= Seq::<Seq<u8>>::empty());
        return Some((l, b + 1));
    }
    match read_strings(s, b) {
        Some((l, j)) => if j < s.len() && s[j] == CLOSE_BRACKET {
            Some((l, j + 1))
        } else {
            None
        },
        None => None,
    }
}

/// Whether the text `true` (for `expected` true) or `false` stands at `i`.
fn literal_at(s: &[u8], i: usize, expected: bool) -> (r: bool)
    ensures
        r == is_at(s@, i as int, if expected { true_text() } else { false_text() }),
{
    if expected {
        if s.len() < 4 || i > s.len() - 4 {
            return false;
        }
        let r = s[i] == 0x74 && s[i + 1] == 0x72 && s[i + 2] == 0x75 && s[i + 3] == 0x65;
        proof {
            let t = s@.subrange(i as int, i as int + 4);
            assert(t[0] == s@[i as int] && t[1] == s@[i + 1] && t[2] == s@[i + 2] && t[3] == s@[i
                + 3]);
            if r {
                assert(t =~= true_text());
            } else {
                assert(true_text()[0] == 0x74 && true_text()[1] == 0x72 && true_text()[2] == 0x75
                    && true_text()[3] == 0x65);
            }
        }
        r
    } else {
        if s.len() < 5 || i > s.len() - 5 {
            return false;
        }
        let r = s[i] == 0x66 && s[i + 1] == 0x61 && s[i + 2] == 0x6C && s[i + 3] == 0x73 && s[i
            + 4] == 0x65;
        proof {
            let t = s@.subrange(i as int, i as int + 5);
            assert(t[0] == s@[i as int] && t[1] == s@[i + 1] && t[2] == s@[i + 2] && t[3] == s@[i
                + 3] && t[4] == s@[i + 4]);
            if r {
                assert(t =~= false_text());
            } else {
                assert(false_text()[0] == 0x66 && false_text()[1] == 0x61 && false_text()[2]
                    == 0x6C && false_text()[3] == 0x73 && false_text()[4] == 0x65);
            }
        }
        r
    }
}

/// Reads the value whose text begins at `i`.
pub fn read_value(s: &[u8], i: usize) -> (r: Option<(JsonValue, usize)>)
    ensures
        match r {
            Some((v, j)) => i < j <= s@.len() && p_value(s@, i as int) == Some((v@, j as int)),
            None => p_value(s@, i as int) is None,
        },
{
    if i >= s.len() {
        return None;
    }
    let c: u8 = s[i];
    if c == QUOTE {
        match read_string(s, i) {
            Some((x, j)) => Some((JsonValue::Str(x), j)),
            None => None,
        }
    } else if 48 <= c && c <= 57 {
        match read_number(s, i) {
            Some((n, j)) => Some((JsonValue::Num(n), j)),
            None => None,
        }
    } else if c == OPEN_BRACKET {
        match read_list(s, i) {
            Some((l, j)) => Some((JsonValue::List(l), j)),
            None => None,
        }
    } else if literal_at(s, i, true) {
        Some((JsonValue::Bool(true), i + 4))
    } else if literal_at(s, i, false) {
        Some((JsonValue::Bool(false), i + 5))
    } else {
        None
    }
}

/// Whether the text `null` stands at `i`.
fn null_at(s: &[u8], i: usize) -> (r: bool)
    ensures
        r == is_at(s@, i as int, null_text()),
{
    if s.len() < 4 || i > s.len() - 4 {
        return false;
    }
    let r = s[i] == 0x6E && s[i + 1] == 0x75 && s[i + 2] == 0x6C && s[i + 3] == 0x6C;
    proof {
        let t = s@.subrange(i as int, i as int + 4);
        assert(t[0] == s@[i as int] && t[1] == s@[i + 1] && t[2] == s@[i + 2] && t[3] == s@[i
            + 3]);
        if r {
            assert(t =~= null_text());
        } else {
            assert(null_text()[0] == 0x6E && null_text()[1] == 0x75 && null_text()[2] == 0x6C
                && null_text()[3] == 0x6C);
        }
    }
    r
}

/// Finds where the run of decimal digits that begins at `i` ends.
fn skip_digits(s: &[u8], i: usize) -> (r: usize)
    requires
        i <= s@.len(),
    ensures
        i <= r <= s@.len(),
        r == digit_run_end(s@, i as int),
{
    let mut r: usize = i;
    while r < s.len() && 48 <= s[r] && s[r] <= 57
        invariant
            i <= r <= s@.len(),
            digit_run_end(s@, i as int) == digit_run_end(s@, r as int),
        decreases s@.len() - r,
    {
        proof {
            assert(digit_run_end(s@, r as int) == digit_run_end(s@, r as int + 1));
        }
        r = r + 1;
    }
    proof {
        assert(digit_run_end(s@, r as int) == r);
    }
    r
}

/// Passes over the number of any size and sign whose text begins at `i`.
fn skip_number(s: &[u8], i: usize) -> (r: Option<usize>)
    requires
        i < s@.len(),
    ensures
        match r {
            Some(j) => i < j <= s@.len() && any_number_end(s@, i as int) == Some(j as int),
            None => any_number_end(s@, i as int) is None,
        },
{
    let a: usize = if s[i] == MINUS {
        i + 1
    } else {
        i
    };
    let b = skip_digits(s, a);
    if b <= a {
        return None;
    }
    let c: usize = if s[a] == 48 {
        a + 1
    } else {
        b
    };
    let d: usize = if c < s.len() && s[c] == POINT {
        let e = skip_digits(s, c + 1);
        if e <= c + 1 {
            return None;
        }
        e
    } else {
        c
    };
    if d < s.len() && (s[d] == 0x65 || s[d] == 0x45) {
        let g: usize = if d + 1 < s.len() && (s[d + 1] == PLUS || s[d + 1] == MINUS) {
            d + 2
        } else {
            d + 1
        };
        let h = skip_digits(s, g);
        if h <= g {
            return None;
        }
        Some(h)
    } else {
        Some(d)
    }
}

/// Finds the position after the bracket or brace that closes the one that
/// stands before `start`.
fn find_close(s: &[u8], start: usize) -> (r: Option<usize>)
    requires
        1 <= start <= s@.len(),
    ensures
        match r {
            Some(j) => start < j <= s@.len() && scan_close(s@, start as int, 1) == Some(j as int),
            None => scan_close(s@, start as int, 1) is None,
        },
{
    let mut i: usize = start;
    let mut depth: usize = 1;
    loop
        invariant
            1 <= start <= i <= s@.len(),
            1 <= depth <= i - start + 1,
            scan_close(s@, start as int, 1) == scan_close(s@, i as int, depth as nat),
        decreases s@.len() - i,
    {
        if i >= s.len() {
            return None;
        }
        let c: u8 = s[i];
        if c == QUOTE {
            match read_string(s, i) {
                Some((_x, j)) => {
                    i = j;
                },
                None => {
                    return None;
                },
            }
        } else if c == OPEN_BRACE || c == OPEN_BRACKET {
            depth = depth + 1;
            i = i + 1;
        } else if c == CLOSE_BRACE || c == CLOSE_BRACKET {
            if depth == 1 {
                return Some(i + 1);
            }
            depth = depth - 1;
            i = i + 1;
        } else {
            i = i + 1;
        }
    }
}

/// Passes over the value of any kind that begins at `i`.
pub fn skip_value(s: &[u8], i: usize) -> (r: Option<usize>)
    ensures
        match r {
            Some(j) => i < j <= s@.len() && p_skip(s@, i as int) == Some(j as int),
            None => p_skip(s@, i as int) is None,
        },
{
    if i >= s.len() {
        return None;
    }
    let c: u8 = s[i];
    if c == QUOTE {
        match read_string(s, i) {
            Some((_x, j)) => Some(j),
            None => None,
        }
    } else if c == OPEN_BRACE || c == OPEN_BRACKET {
        find_close(s, i + 1)
    } else if null_at(s, i) || literal_at(s, i, true) {
        Some(i + 4)
    } else if literal_at(s, i, false) {
        Some(i + 5)
    } else {
        skip_number(s, i)
    }
}

/// The view of a member that was read, if one was.
pub open spec fn opt_member_view(m: Option<Member>) -> Option<MemberView> {
    match m {
        Some(x) => Some(x@),
        None => None,
    }
}

/// Reads the member whose text begins at `i`, or passes over it.
pub fn read_member(s: &[u8], i: usize) -> (r: Option<(Option<Member>, usize)>)
    ensures
        match r {
            Some((m, j)) => i < j <= s@.len() && p_member(s@, i as int) == Some(
                (opt_member_view(m), j as int),
            ),
            None => p_member(s@, i as int) is None,
        },
{
    let (name, j) = match read_string(s, i) {
        Some(found) => found,
        None => {
            return None;
        },
    };
    let c = skip_ws(s, j);
    if c >= s.len() || s[c] != COLON {
        return None;
    }
    let v = skip_ws(s, c + 1);
    match read_value(s, v) {
        Some((value, k)) => {
            let e = skip_ws(s, k);
            if e < s.len() && (s[e] == COMMA || s[e] == CLOSE_BRACE) {
                return Some((Some(Member { name, value }), k));
            }
        },
        None => {},
    }
    match skip_value(s, v) {
        Some(k) => Some((None, k)),
        None => None,
    }
}

/// Reads the members, separated by commas, whose text begins at `i`.
fn read_members(s: &[u8], i: usize) -> (r: Option<(Vec<Member>, usize)>)
    ensures
        match r {
            Some((ms, j)) => i < j <= s@.len() && p_members(s@, i as int) == Some(
                (members_view(ms@), j as int),
            ),
            None => p_members(s@, i as int) is None,
        },
{
    if i > s.len() {
        return None;
    }
    let mut out: Vec<Member> = Vec::new();
    let mut cur: usize = i;
    proof {
        assert(members_view(out@) =~= Seq::<MemberView>::empty());
        match p_members(s@, i as int) {
            Some((rest, k)) => {
                assert(members_view(out@) + rest =~= rest);
            },
            None => {},
        }
    }
    loop
        invariant
            i <= cur <= s@.len(),
            p_members(s@, i as int) == match p_members(s@, cur as int) {
                Some((rest, k)) => Some((members_view(out@) + rest, k)),
                None => None,
            },
        decreases s@.len() - cur,
    {
        let (m, k) = match read_member(s, cur) {
            Some(found) => found,
            None => {
                return None;
            },
        };
        let ghost before = members_view(out@);
        let ghost read = kept(opt_member_view(m));
        match m {
            Some(x) => {
                out.push(x);
            },
            None => {},
        }
        proof {
            assert(members_view(out@) =~= before + read);
        }
        let e = skip_ws(s, k);
        if e < s.len() && s[e] == COMMA {
            let n = skip_ws(s, e + 1);
            proof {
                match p_members(s@, n as int) {
                    Some((rest, z)) => {
                        assert((before + read) + rest =~= before + (read + rest));
                    },
                    None => {},
                }
            }
            cur = n;
        } else {
            return Some((out, e));
        }
    }
}

/// Reads the object that `s` is the text of.
pub fn parse_object(s: &[u8]) -> (r: Option<Vec<Member>>)
    ensures
        match r {
            Some(ms) => p_object(s@) == Some(members_view(ms@)),
            None => p_object(s@) is None,
        },
{
    let a = skip_ws(s, 0);
    if a >= s.len() || s[a] != OPEN_BRACE {
        return None;
    }
    let b = skip_ws(s, a + 1);
    if b < s.len() && s[b] == CLOSE_BRACE {
        if skip_ws(s, b + 1) == s.len() {
            let ms: Vec<Member> = Vec::new();
            assert(members_view(ms@) =~= Seq::<MemberView>::empty());
            return Some(ms);
        } else {
            return None;
        }
    }
    match read_members(s, b) {
        Some((ms, j)) => if j < s.len() && s[j] == CLOSE_BRACE && skip_ws(s, j + 1) == s.len() {
            Some(ms)
        } else {
            None
        },
        None => None,
    }
}

/// The text of a string begins with a quote and has two bytes at least.
pub proof fn lemma_enc_string_shape(x: Seq<u8>)
    ensures
        enc_string(x).len() >= 2,
        enc_string(x)[0] == QUOTE,
{
    assert(enc_chars(x).len() >= 1);
}

/// No white space is skipped where something else stands.
pub proof fn lemma_no_ws(s: Seq<u8>, i: int)
    requires
        0 <= i,
        i >= s.len() || !is_ws(s[i]),
    ensures
        ws_end(s, i) == i,
{
}

/// The strings of a list that is not empty begin with a quote.
pub proof fn lemma_enc_strings_shape(l: Seq<Seq<u8>>)
    requires
        l.len() >= 1,
    ensures
        enc_strings(l).len() >= 2,
        enc_strings(l)[0] == QUOTE,
{
    lemma_enc_string_shape(l[0]);
}

/// The written strings of a list are read back as the list, wherever they
/// stand before a closing bracket.
pub proof fn lemma_read_strings(s: Seq<u8>, i: int, l: Seq<Seq<u8>>)
    requires
        l.len() >= 1,
        is_at(s, i, enc_strings(l)),
        i + enc_strings(l).len() < s.len(),
        s[i + enc_strings(l).len()] == CLOSE_BRACKET,
    ensures
        p_strings(s, i) == Some((l, i + enc_strings(l).len())),
    decreases l.len(),
{
    let head = enc_string(l[0]);
    lemma_enc_string_shape(l[0]);
    if l.len() == 1 {
        lemma_read_string(s, i, l[0]);
        lemma_no_ws(s, i + head.len());
        assert(seq![l[0]] =~= l);
    } else {
        let tail = enc_strings(l.skip(1));
        lemma_enc_strings_shape(l.skip(1));
        assert(enc_strings(l) =~= head + (seq![COMMA] + tail));
        lemma_is_at_concat(s, i, head, seq![COMMA] + tail);
        lemma_is_at_concat(s, i + head.len(), seq![COMMA], tail);
        lemma_is_at_index(s, i + head.len(), seq![COMMA], 0);
        lemma_is_at_index(s, i + head.len() + 1, tail, 0);
        lemma_read_string(s, i, l[0]);
        lemma_no_ws(s, i + head.len());
        lemma_no_ws(s, i + head.len() + 1);
        lemma_read_strings(s, i + head.len() + 1, l.skip(1));
        assert(seq![l[0]] + l.skip(1) =~= l);
    }
}

/// The text of a list is read back as the list, wherever it stands.
pub proof fn lemma_read_list(s: Seq<u8>, i: int, l: Seq<Seq<u8>>)
    requires
        is_at(s, i, enc_list(l)),
    ensures
        p_list(s, i) == Some((l, i + enc_list(l).len())),
{
    if l.len() == 0 {
        lemma_is_at_index(s, i, enc_list(l), 0);
        lemma_is_at_index(s, i, enc_list(l), 1);
        lemma_no_ws(s, i + 1);
        assert(l =~= Seq::<Seq<u8>>::empty());
    } else {
        let body = enc_strings(l);
        lemma_enc_strings_shape(l);
        assert(enc_list(l) =~= seq![OPEN_BRACKET] + (body + seq![CLOSE_BRACKET]));
        lemma_is_at_concat(s, i, seq![OPEN_BRACKET], body + seq![CLOSE_BRACKET]);
        lemma_is_at_concat(s, i + 1, body, seq![CLOSE_BRACKET]);
        lemma_is_at_index(s, i, seq![OPEN_BRACKET], 0);
        lemma_is_at_index(s, i + 1 + body.len(), seq![CLOSE_BRACKET], 0);
        lemma_is_at_index(s, i + 1, body, 0);
        lemma_no_ws(s, i + 1);
        lemma_read_strings(s, i + 1, l);
    }
}

/// The text of a value is read back as the value, wherever it stands before
/// something that is not a digit.
pub proof fn lemma_read_value(s: Seq<u8>, i: int, v: JsonValueView)
    requires
        is_at(s, i, enc_value(v)),
        i + enc_value(v).len() == s.len() || !is_digit(s[i + enc_value(v).len()]),
    ensures
        enc_value(v).len() >= 1,
        p_value(s, i) == Some((v, i + enc_value(v).len())),
{
    match v {
        JsonValueView::Str(x) => {
            lemma_enc_string_shape(x);
            lemma_is_at_index(s, i, enc_string(x), 0);
            lemma_read_string(s, i, x);
        },
        JsonValueView::Num(n) => {
            lemma_enc_number(n as nat);
            lemma_is_at_index(s, i, enc_number(n as nat), 0);
            lemma_read_number(s, i, n);
        },
        JsonValueView::Bool(b) => {
            lemma_is_at_index(s, i, enc_value(v), 0);
        },
        JsonValueView::List(l) => {
            lemma_is_at_index(s, i, enc_list(l), 0);
            lemma_read_list(s, i, l);
        },
    }
}

/// The text of a value begins with something that is not white space.
pub proof fn lemma_enc_value_shape(v: JsonValueView)
    ensures
        enc_value(v).len() >= 1,
        !is_ws(enc_value(v)[0]),
{
    match v {
        JsonValueView::Str(x) => {
            lemma_enc_string_shape(x);
        },
        JsonValueView::Num(n) => {
            lemma_enc_number(n as nat);
            assert(is_digit(enc_number(n as nat)[0]));
        },
        JsonValueView::Bool(b) => {},
        JsonValueView::List(l) => {},
    }
}

/// The text of a member begins with a quote.
pub proof fn lemma_enc_member_shape(m: MemberView)
    ensures
        enc_member(m).len() >= 3,
        enc_member(m)[0] == QUOTE,
{
    lemma_enc_string_shape(m.name);
}

/// The text of a member is read back as the member, wherever it stands
/// before a comma or a closing brace.
pub proof fn lemma_read_member(s: Seq<u8>, i: int, m: MemberView)
    requires
        is_at(s, i, enc_member(m)),
        i + enc_member(m).len() < s.len(),
        s[i + enc_member(m).len()] == COMMA || s[i + enc_member(m).len()] == CLOSE_BRACE,
    ensures
        p_member(s, i) == Some((Some(m), i + enc_member(m).len())),
{
    let name = enc_string(m.name);
    let value = enc_value(m.value);
    let end = i + enc_member(m).len();
    lemma_enc_string_shape(m.name);
    lemma_enc_value_shape(m.value);
    assert(enc_member(m) =~= name + (seq![COLON] + value));
    lemma_is_at_concat(s, i, name, seq![COLON] + value);
    lemma_is_at_concat(s, i + name.len(), seq![COLON], value);
    lemma_is_at_index(s, i + name.len(), seq![COLON], 0);
    lemma_is_at_index(s, i + name.len() + 1, value, 0);
    lemma_read_string(s, i, m.name);
    lemma_no_ws(s, i + name.len());
    lemma_no_ws(s, i + name.len() + 1);
    lemma_read_value(s, i + name.len() + 1, m.value);
    lemma_no_ws(s, end);
    assert(ends_member(s, end));
}

/// The written members of a list are read back as the list, wherever they
/// stand before a closing brace.
pub proof fn lemma_read_members(s: Seq<u8>, i: int, ms: Seq<MemberView>)
    requires
        ms.len() >= 1,
        is_at(s, i, enc_members(ms)),
        i + enc_members(ms).len() < s.len(),
        s[i + enc_members(ms).len()] == CLOSE_BRACE,
    ensures
        enc_members(ms).len() >= 3,
        enc_members(ms)[0] == QUOTE,
        p_members(s, i) == Some((ms, i + enc_members(ms).len())),
    decreases ms.len(),
{
    let head = enc_member(ms[0]);
    lemma_enc_member_shape(ms[0]);
    if ms.len() == 1 {
        lemma_read_member(s, i, ms[0]);
        lemma_no_ws(s, i + head.len());
        assert(kept(Some(ms[0])) =~= ms);
    } else {
        let tail = enc_members(ms.skip(1));
        assert(enc_members(ms) =~= head + (seq![COMMA] + tail));
        lemma_is_at_concat(s, i, head, seq![COMMA] + tail);
        lemma_is_at_concat(s, i + head.len(), seq![COMMA], tail);
        lemma_is_at_index(s, i + head.len(), seq![COMMA], 0);
        lemma_read_member(s, i, ms[0]);
        lemma_read_members(s, i + head.len() + 1, ms.skip(1));
        lemma_is_at_index(s, i + head.len() + 1, tail, 0);
        lemma_no_ws(s, i + head.len());
        lemma_no_ws(s, i + head.len() + 1);
        assert(kept(Some(ms[0])) + ms.skip(1) =~= ms);
    }
}

/// An object that is written and read back is the same object: the same
/// members with the same values, in the same order.
pub proof fn lemma_read_object(ms: Seq<MemberView>)
    ensures
        p_object(enc_object(ms)) == Some(ms),
{
    let s = enc_object(ms);
    lemma_no_ws(s, 0);
    lemma_no_ws(s, 1);
    lemma_no_ws(s, s.len() as int);
    if ms.len() == 0 {
        assert(ms =~= Seq::<MemberView>::empty());
    } else {
        let body = enc_members(ms);
        lemma_enc_member_shape(ms[0]);
        assert(body.len() >= 1 && body[0] == QUOTE) by {
            if ms.len() > 1 {
                assert(body =~= enc_member(ms[0]) + (seq![COMMA] + enc_members(ms.skip(1))));
            }
        }
        assert(s =~= seq![OPEN_BRACE] + (body + seq![CLOSE_BRACE]));
        assert(s.subrange(0, s.len() as int) =~= s);
        assert(is_at(s, 0, s));
        lemma_is_at_concat(s, 0, seq![OPEN_BRACE], body + seq![CLOSE_BRACE]);
        lemma_is_at_concat(s, 1, body, seq![CLOSE_BRACE]);
        lemma_is_at_index(s, 1, body, 0);
        lemma_is_at_index(s, 1 + body.len() as int, seq![CLOSE_BRACE], 0);
        lemma_read_members(s, 1, ms);
    }
}

/// Two objects with the same text are the same.
pub proof fn lemma_enc_object_injective(a: Seq<MemberView>, b: Seq<MemberView>)
    requires
        enc_object(a) == enc_object(b),
    ensures
        a == b,
{
    lemma_read_object(a);
    lemma_read_object(b);
}

} // verus!
