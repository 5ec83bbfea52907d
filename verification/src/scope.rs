//! OAuth 2.0 scopes: sets of scope tokens, written on the wire as tokens
//! separated by single spaces.

use vstd::prelude::*;
use crate::bytes::bytes_eq;

verus! {

/// The separator between scope tokens: a single space.
pub const SPACE: u8 = 0x20;

/// Whether `b` may occur in a scope token: a printable ASCII character other
/// than space, `"` and `\`.
pub open spec fn is_scope_char(b: u8) -> bool {
    b == 0x21 || (0x23 <= b && b <= 0x5B) || (0x5D <= b && b <= 0x7E)
}

/// Whether `t` is a scope token: one or more scope characters.
pub open spec fn is_scope_token(t: Seq<u8>) -> bool {
    t.len() > 0 && forall|i: int| 0 <= i < t.len() ==> is_scope_char(#[trigger] t[i])
}

/// Whether every element of `l` is a scope token.
pub open spec fn all_scope_tokens(l: Seq<Seq<u8>>) -> bool {
    forall|i: int| 0 <= i < l.len() ==> is_scope_token(#[trigger] l[i])
}

/// Whether no element of `l` occurs twice.
pub open spec fn no_duplicates(l: Seq<Seq<u8>>) -> bool {
    forall|i: int, j: int| 0 <= i < j < l.len() ==> l[i] != l[j]
}

/// The pieces of `s` between spaces, in order. There is always at least one
/// piece; two adjacent spaces, or a space at either end, give an empty piece.
pub open spec fn split_spaces(s: Seq<u8>) -> Seq<Seq<u8>>
    decreases s.len(),
{
    if s.len() == 0 {
        seq![Seq::<u8>::empty()]
    } else {
        let before = split_spaces(s.drop_last());
        if s.last() == SPACE {
            before.push(Seq::<u8>::empty())
        } else {
            before.drop_last().push(before.last().push(s.last()))
        }
    }
}

/// `l` without repetitions: each element is kept where it first occurs.
pub open spec fn dedup(l: Seq<Seq<u8>>) -> Seq<Seq<u8>>
    decreases l.len(),
{
    if l.len() == 0 {
        Seq::<Seq<u8>>::empty()
    } else {
        let before = dedup(l.drop_last());
        if before.contains(l.last()) {
            before
        } else {
            before.push(l.last())
        }
    }
}

/// The elements of `l` joined by single spaces.
pub open spec fn join_spaces(l: Seq<Seq<u8>>) -> Seq<u8>
    decreases l.len(),
{
    if l.len() == 0 {
        Seq::<u8>::empty()
    } else if l.len() == 1 {
        l[0]
    } else {
        join_spaces(l.drop_last()).push(SPACE) + l.last()
    }
}

/// The text of a scope did not consist of scope tokens separated by single
/// spaces.
#[derive(Clone, Copy, Debug, PartialEq, Eq, Structural)]
pub struct InvalidScope;

/// A set of scope tokens. Tokens are kept in the order in which they were
/// first added.
#[derive(Debug)]
pub struct Scope {
    tokens: Vec<Vec<u8>>,
}

impl Scope {
    /// The tokens of the scope, in order, without repetition.
    pub closed spec fn view(&self) -> Seq<Seq<u8>> {
        self.tokens@.map_values(|t: Vec<u8>| t@)
    }

    /// Every token is a scope token and none occurs twice.
    pub open spec fn wf(&self) -> bool {
        all_scope_tokens(self@) && no_duplicates(self@)
    }

    /// The tokens that the text `s` gives, if `s` is the text of a scope.
    pub open spec fn spec_parse(s: Seq<u8>) -> Option<Seq<Seq<u8>>> {
        if all_scope_tokens(split_spaces(s)) {
            Some(dedup(split_spaces(s)))
        } else {
            None
        }
    }

    /// Whether the scope holds `token`.
    pub open spec fn spec_contains(&self, token: Seq<u8>) -> bool {
        self@.contains(token)
    }

    /// Whether every token of this scope is a token of `other`.
    pub open spec fn spec_subset_of(&self, other: &Scope) -> bool {
        forall|t: Seq<u8>| self@.contains(t) ==> other@.contains(t)
    }

    /// The empty scope.
    pub fn new() -> (r: Scope)
        ensures
            r.wf(),
            r@ == Seq::<Seq<u8>>::empty(),
    {
        let r = Scope { tokens: Vec::new() };
        assert(r@ =~= Seq::<Seq<u8>>::empty());
        r
    }

    /// A copy of the scope.
    pub fn clone(&self) -> (r: Scope)
        ensures
            r@ == self@,
            self.wf() ==> r.wf(),
    {
        let mut tokens: Vec<Vec<u8>> = Vec::new();
        let mut i: usize = 0;
        while i < self.tokens.len()
            invariant
                i <= self.tokens.len(),
                tokens@.map_values(|t: Vec<u8>| t@) == self@.take(i as int),
            decreases self.tokens.len() - i,
        {
            let ghost before = tokens@.map_values(|t: Vec<u8>| t@);
            tokens.push(crate::bytes::to_vec(self.tokens[i].as_slice()));
            proof {
                assert(tokens@.map_values(|t: Vec<u8>| t@) =~= before.push(self@[i as int]));
                assert(self@.take(i as int + 1) =~= self@.take(i as int).push(self@[i as int]));
            }
            i = i + 1;
        }
        proof {
            assert(self@.take(self.tokens.len() as int) =~= self@);
        }
        Scope { tokens }
    }

    /// The number of tokens.
    pub fn len(&self) -> (n: usize)
        ensures
            n == self@.len(),
    {
        self.tokens.len()
    }

    /// The `i`-th token.
    pub fn token(&self, i: usize) -> (t: &Vec<u8>)
        requires
            i < self@.len(),
        ensures
            t@ == self@[i as int],
    {
        &self.tokens[i]
    }

    /// Whether the scope holds `token`.
    pub fn contains(&self, token: &[u8]) -> (r: bool)
        ensures
            r == self.spec_contains(token@),
    {
        let mut i: usize = 0;
        while i < self.tokens.len()
            invariant
                i <= self.tokens.len(),
                forall|j: int| 0 <= j < i ==> self@[j] != token@,
            decreases self.tokens.len() - i,
        {
            if bytes_eq(self.tokens[i].as_slice(), token) {
                assert(self@[i as int] == token@);
                return true;
            }
            i = i + 1;
        }
        false
    }

    /// Whether every token of this scope is a token of `other`.
    pub fn is_subset_of(&self, other: &Scope) -> (r: bool)
        ensures
            r == self.spec_subset_of(other),
    {
        let mut i: usize = 0;
        while i < self.tokens.len()
            invariant
                i <= self.tokens.len(),
                forall|j: int| 0 <= j < i ==> other@.contains(#[trigger] self@[j]),
            decreases self.tokens.len() - i,
        {
            if !other.contains(self.tokens[i].as_slice()) {
                assert(self@.contains(self@[i as int]));
                return false;
            }
            i = i + 1;
        }
        true
    }

    /// Adds `token` to the scope unless it is already there. Returns whether
    /// `token` is a scope token; if it is not, the scope is unchanged.
    pub fn insert(&mut self, token: &[u8]) -> (r: bool)
        requires
            old(self).wf(),
        ensures
            final(self).wf(),
            r == is_scope_token(token@),
            final(self)@ == if !r || old(self)@.contains(token@) {
                old(self)@
            } else {
                old(self)@.push(token@)
            },
    {
        if !is_token(token) {
            return false;
        }
        if self.contains(token) {
            return true;
        }
        let owned = crate::bytes::to_vec(token);
        let ghost before = self@;
        self.tokens.push(owned);
        proof {
            assert(self@ =~= before.push(token@));
        }
        true
    }

    /// Reads a scope from its text: scope tokens separated by single spaces.
    /// A token that is repeated is kept once, where it first occurs. The empty
    /// text is not a scope.
    pub fn parse(s: &[u8]) -> (r: Result<Scope, InvalidScope>)
        ensures
            match r {
                Ok(sc) => sc.wf() && Scope::spec_parse(s@) == Some(sc@),
                Err(_) => Scope::spec_parse(s@) is None,
            },
    {
        let mut scope = Scope::new();
        let mut start: usize = 0;
        let mut i: usize = 0;
        let ghost mut done: Seq<Seq<u8>> = Seq::empty();
        proof {
            assert(s@.take(0) =~= Seq::<u8>::empty());
            assert(s@.subrange(0, 0) =~= Seq::<u8>::empty());
            assert(split_spaces(s@.take(0)) =~= done.push(s@.subrange(0, 0)));
        }
        while i < s.len()
            invariant
                start <= i <= s.len(),
                split_spaces(s@.take(i as int)) == done.push(s@.subrange(start as int, i as int)),
                all_scope_tokens(done),
                scope.wf(),
                scope@ == dedup(done),
            decreases s.len() - i,
        {
            proof {
                lemma_split_step(s@, i as int);
            }
            if s[i] == SPACE {
                let ok = scope.insert(slice_subrange(s, start, i));
                if !ok {
                    proof {
                        lemma_split_prefix(s@, i as int + 1);
                        let piece = s@.subrange(start as int, i as int);
                        let l = split_spaces(s@.take(i as int + 1));
                        assert(l == done.push(piece).push(Seq::<u8>::empty()));
                        assert(l[done.len() as int] == piece);
                        assert(split_spaces(s@)[done.len() as int] == piece);
                        assert(!is_scope_token(split_spaces(s@)[done.len() as int]));
                    }
                    return Err(InvalidScope);
                }
                proof {
                    let piece = s@.subrange(start as int, i as int);
                    assert(done.push(piece).drop_last() =~= done);
                    done = done.push(piece);
                    assert(s@.subrange(i as int + 1, i as int + 1) =~= Seq::<u8>::empty());
                }
                start = i + 1;
            } else {
                proof {
                    let piece = s@.subrange(start as int, i as int);
                    assert(done.push(piece).drop_last() =~= done);
                    assert(piece.push(s@[i as int]) =~= s@.subrange(start as int, i as int + 1));
                }
            }
            i = i + 1;
        }
        let ok = scope.insert(slice_subrange(s, start, i));
        proof {
            assert(s@.take(i as int) =~= s@);
            let piece = s@.subrange(start as int, i as int);
            assert(done.push(piece).drop_last() =~= done);
            if !ok {
                assert(split_spaces(s@)[done.len() as int] == piece);
            }
        }
        if !ok {
            return Err(InvalidScope);
        }
        Ok(scope)
    }

    /// The text of the scope: its tokens separated by single spaces.
    pub fn to_bytes(&self) -> (r: Vec<u8>)
        ensures
            r@ == join_spaces(self@),
    {
        let mut out: Vec<u8> = Vec::new();
        let mut i: usize = 0;
        while i < self.tokens.len()
            invariant
                i <= self.tokens.len(),
                out@ == join_spaces(self@.take(i as int)),
            decreases self.tokens.len() - i,
        {
            if i > 0 {
                out.push(SPACE);
            }
            crate::bytes::append(&mut out, self.tokens[i].as_slice());
            proof {
                let l = self@.take(i as int + 1);
                assert(l.drop_last() =~= self@.take(i as int));
                assert(l.last() == self@[i as int]);
                if i == 0 {
                    assert(out@ =~= l[0]);
                }
            }
            i = i + 1;
        }
        proof {
            assert(self@.take(self.tokens.len() as int) =~= self@);
        }
        out
    }
}

/// The part of `s` from `from` up to `to`.
fn slice_subrange(s: &[u8], from: usize, to: usize) -> (r: &[u8])
    requires
        from <= to <= s@.len(),
    ensures
        r@ == s@.subrange(from as int, to as int),
{
    vstd::slice::slice_subrange(s, from, to)
}

/// Whether `t` is a scope token.
pub fn is_token(t: &[u8]) -> (r: bool)
    ensures
        r == is_scope_token(t@),
{
    if t.len() == 0 {
        return false;
    }
    let mut i: usize = 0;
    while i < t.len()
        invariant
            i <= t.len(),
            forall|j: int| 0 <= j < i ==> is_scope_char(#[trigger] t@[j]),
        decreases t.len() - i,
    {
        let b: u8 = t[i];
        if !(b == 0x21 || (0x23 <= b && b <= 0x5B) || (0x5D <= b && b <= 0x7E)) {
            assert(!is_scope_char(t@[i as int]));
            return false;
        }
        i = i + 1;
    }
    true
}

/// One more byte of text either opens a new piece or extends the last one.
proof fn lemma_split_step(s: Seq<u8>, i: int)
    requires
        0 <= i < s.len(),
    ensures
        split_spaces(s.take(i + 1)) == if s[i] == SPACE {
            split_spaces(s.take(i)).push(Seq::<u8>::empty())
        } else {
            split_spaces(s.take(i)).drop_last().push(split_spaces(s.take(i)).last().push(s[i]))
        },
{
    assert(s.take(i + 1).drop_last() =~= s.take(i));
    assert(s.take(i + 1).last() == s[i]);
}

/// The pieces of a prefix, but for its last piece, are pieces of the whole.
proof fn lemma_split_prefix(s: Seq<u8>, i: int)
    requires
        0 <= i <= s.len(),
    ensures
        split_spaces(s.take(i)).len() >= 1,
        split_spaces(s).len() >= split_spaces(s.take(i)).len(),
        forall|k: int|
            0 <= k < split_spaces(s.take(i)).len() - 1 ==> split_spaces(s)[k] == split_spaces(
                s.take(i),
            )[k],
    decreases s.len() - i,
{
    lemma_split_nonempty(s.take(i));
    if i == s.len() {
        assert(s.take(i) =~= s);
    } else {
        lemma_split_step(s, i);
        lemma_split_prefix(s, i + 1);
    }
}

/// A text always has at least one piece.
proof fn lemma_split_nonempty(s: Seq<u8>)
    ensures
        split_spaces(s).len() >= 1,
    decreases s.len(),
{
    if s.len() > 0 {
        lemma_split_nonempty(s.drop_last());
    }
}

/// Text that ends in a token: the token is, or is the end of, the last
/// piece.
pub proof fn lemma_split_append(a: Seq<u8>, t: Seq<u8>)
    requires
        forall|i: int| 0 <= i < t.len() ==> #[trigger] t[i] != SPACE,
    ensures
        split_spaces(a + t) == split_spaces(a).drop_last().push(split_spaces(a).last() + t),
    decreases t.len(),
{
    lemma_split_nonempty(a);
    if t.len() == 0 {
        assert(a + t =~= a);
        assert(split_spaces(a).last() + t =~= split_spaces(a).last());
        assert(split_spaces(a).drop_last().push(split_spaces(a).last()) =~= split_spaces(a));
    } else {
        let u = t.drop_last();
        lemma_split_append(a, u);
        assert((a + t).drop_last() =~= a + u);
        assert((a + t).last() == t.last());
        assert(t[t.len() - 1] != SPACE);
        let before = split_spaces(a + u);
        assert(before.last().push(t.last()) =~= split_spaces(a).last() + t) by {
            assert(u.push(t.last()) =~= t);
        }
        assert(before.drop_last() =~= split_spaces(a).drop_last());
    }
}

/// The pieces of the text of a list of tokens are the tokens.
pub proof fn lemma_split_join(l: Seq<Seq<u8>>)
    requires
        l.len() >= 1,
        all_scope_tokens(l),
    ensures
        split_spaces(join_spaces(l)) == l,
    decreases l.len(),
{
    let t = l.last();
    assert(is_scope_token(t));
    assert forall|i: int| 0 <= i < t.len() implies #[trigger] t[i] != SPACE by {
        assert(is_scope_char(t[i]));
    }
    if l.len() == 1 {
        let empty = Seq::<u8>::empty();
        lemma_split_append(empty, t);
        assert(empty + t =~= t);
        assert(split_spaces(empty) =~= seq![empty]);
        assert(seq![empty].drop_last().push(empty + t) =~= l);
    } else {
        let front = l.drop_last();
        assert(all_scope_tokens(front)) by {
            assert forall|i: int| 0 <= i < front.len() implies is_scope_token(
                #[trigger] front[i],
            ) by {
                assert(front[i] == l[i]);
            }
        }
        lemma_split_join(front);
        let a = join_spaces(front).push(SPACE);
        assert(a.drop_last() =~= join_spaces(front));
        assert(split_spaces(a) == front.push(Seq::<u8>::empty()));
        lemma_split_append(a, t);
        assert(front.push(Seq::<u8>::empty()).drop_last() =~= front);
        assert(Seq::<u8>::empty() + t =~= t);
        assert(front.push(t) =~= l);
    }
}

/// A list without repetitions is kept as it is.
pub proof fn lemma_dedup_of_distinct(l: Seq<Seq<u8>>)
    requires
        no_duplicates(l),
    ensures
        dedup(l) == l,
    decreases l.len(),
{
    if l.len() > 0 {
        let front = l.drop_last();
        assert(no_duplicates(front)) by {
            assert forall|i: int, j: int| 0 <= i < j < front.len() implies front[i] != front[j] by {
                assert(front[i] == l[i] && front[j] == l[j]);
            }
        }
        lemma_dedup_of_distinct(front);
        assert(!front.contains(l.last())) by {
            if front.contains(l.last()) {
                let k = choose|k: int| 0 <= k < front.len() && front[k] == l.last();
                assert(l[k] == l[l.len() - 1]);
            }
        }
        assert(front.push(l.last()) =~= l);
    } else {
        assert(l =~= Seq::<Seq<u8>>::empty());
    }
}

/// The text of a scope is read back as the scope: a scope that is not empty
/// and is written with `to_bytes` and read with `parse` has the same tokens
/// in the same order. The empty scope has no text.
pub proof fn lemma_scope_text_round_trip(sc: Scope)
    requires
        sc.wf(),
    ensures
        sc@.len() >= 1 ==> Scope::spec_parse(join_spaces(sc@)) == Some(sc@),
        sc@.len() == 0 ==> Scope::spec_parse(join_spaces(sc@)) is None,
{
    if sc@.len() >= 1 {
        lemma_split_join(sc@);
        lemma_dedup_of_distinct(sc@);
    } else {
        let pieces = split_spaces(Seq::<u8>::empty());
        assert(pieces[0].len() == 0);
        assert(!is_scope_token(pieces[0]));
    }
}

} // verus!
