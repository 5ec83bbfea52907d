//! Byte strings: all text handled by this crate is kept as `Vec<u8>` and
//! viewed as `Seq<u8>` in contracts.

use vstd::prelude::*;

verus! {

/// Copies a byte slice into an owned vector.
pub fn to_vec(s: &[u8]) -> (r: Vec<u8>)
    ensures
        r@ == s@,
{
    let mut r: Vec<u8> = Vec::new();
    let mut i: usize = 0;
    while i < s.len()
        invariant
            i <= s.len(),
            r@ == s@.take(i as int),
        decreases s.len() - i,
    {
        r.push(s[i]);
        proof {
            assert(s@.take(i + 1) == s@.take(i as int).push(s@[i as int]));
        }
        i = i + 1;
    }
    proof {
        assert(s@.take(s.len() as int) == s@);
    }
    r
}

/// Whether two byte strings are equal. Stops at the first difference.
pub fn bytes_eq(a: &[u8], b: &[u8]) -> (r: bool)
    ensures
        r == (a@ == b@),
{
    if a.len() != b.len() {
        return false;
    }
    let mut i: usize = 0;
    while i < a.len()
        invariant
            i <= a.len(),
            a.len() == b.len(),
            a@.take(i as int) == b@.take(i as int),
        decreases a.len() - i,
    {
        if a[i] != b[i] {
            return false;
        }
        proof {
            assert(a@.take(i + 1) == a@.take(i as int).push(a@[i as int]));
            assert(b@.take(i + 1) == b@.take(i as int).push(b@[i as int]));
        }
        i = i + 1;
    }
    proof {
        assert(a@.take(a.len() as int) == a@);
        assert(b@.take(b.len() as int) == b@);
    }
    true
}

/// Whether two byte strings are equal, examining every position of equal-length
/// inputs regardless of where they differ, so that the running time does not
/// reveal the position of the first difference.
pub fn ct_eq(a: &[u8], b: &[u8]) -> (r: bool)
    ensures
        r == (a@ == b@),
{
    if a.len() != b.len() {
        return false;
    }
    let mut diff: u8 = 0;
    let mut i: usize = 0;
    while i < a.len()
        invariant
            i <= a.len(),
            a.len() == b.len(),
            (diff == 0) <==> (forall|j: int| 0 <= j < i ==> a@[j] == b@[j]),
        decreases a.len() - i,
    {
        let x: u8 = a[i];
        let y: u8 = b[i];
        let d: u8 = x ^ y;
        let next: u8 = diff | d;
        proof {
            assert((d == 0) == (x == y)) by (bit_vector)
                requires
                    d == x ^ y,
            ;
            assert((next == 0) == (diff == 0 && d == 0)) by (bit_vector)
                requires
                    next == diff | d,
            ;
        }
        diff = next;
        i = i + 1;
    }
    proof {
        if diff == 0 {
            assert(a@ =~= b@);
        }
    }
    diff == 0
}

/// Appends `tail` to `out`.
pub fn append(out: &mut Vec<u8>, tail: &[u8])
    ensures
        final(out)@ == old(out)@ + tail@,
{
    let mut i: usize = 0;
    while i < tail.len()
        invariant
            i <= tail.len(),
            out@ == old(out)@ + tail@.take(i as int),
        decreases tail.len() - i,
    {
        out.push(tail[i]);
        proof {
            assert(tail@.take(i + 1) == tail@.take(i as int).push(tail@[i as int]));
        }
        i = i + 1;
    }
    proof {
        assert(tail@.take(tail.len() as int) == tail@);
    }
}

/// The elements of `v` in reverse order.
pub fn reversed<T>(v: Vec<T>) -> (r: Vec<T>)
    ensures
        r@ == v@.reverse(),
{
    let ghost orig = v@;
    let mut rest = v;
    let mut out: Vec<T> = Vec::new();
    while rest.len() > 0
        invariant
            rest@ == orig.take(rest@.len() as int),
            rest@.len() <= orig.len(),
            out@ == orig.skip(rest@.len() as int).reverse(),
        decreases rest@.len(),
    {
        let ghost n = rest@.len() as int;
        let x = rest.pop().unwrap();
        out.push(x);
        proof {
            assert(rest@ == orig.take(n - 1));
            assert(out@ =~= orig.skip(n - 1).reverse());
        }
    }
    proof {
        assert(orig.skip(0) =~= orig);
    }
    out
}

/// The view of an optional byte string.
pub open spec fn opt_bytes_view(o: Option<Vec<u8>>) -> Option<Seq<u8>> {
    match o {
        Some(v) => Some(v@),
        None => None,
    }
}

/// A copy of an optional byte string.
pub fn clone_opt_bytes(o: &Option<Vec<u8>>) -> (r: Option<Vec<u8>>)
    ensures
        opt_bytes_view(r) == opt_bytes_view(*o),
{
    match o {
        Some(v) => Some(to_vec(v.as_slice())),
        None => None,
    }
}

/// The views of a list of byte strings.
pub open spec fn list_view(l: Seq<Vec<u8>>) -> Seq<Seq<u8>> {
    l.map_values(|v: Vec<u8>| v@)
}

/// A copy of a list of byte strings.
pub fn clone_list(l: &Vec<Vec<u8>>) -> (r: Vec<Vec<u8>>)
    ensures
        list_view(r@) == list_view(l@),
{
    let mut out: Vec<Vec<u8>> = Vec::new();
    let mut i: usize = 0;
    while i < l.len()
        invariant
            i <= l.len(),
            list_view(out@) == list_view(l@).take(i as int),
        decreases l.len() - i,
    {
        let ghost before = list_view(out@);
        out.push(to_vec(l[i].as_slice()));
        proof {
            assert(list_view(out@) =~= before.push(l@[i as int]@));
            assert(list_view(l@).take(i as int + 1) =~= list_view(l@).take(i as int).push(
                l@[i as int]@,
            ));
        }
        i = i + 1;
    }
    proof {
        assert(list_view(l@).take(l.len() as int) =~= list_view(l@));
    }
    out
}

/// Whether the list `l` holds the byte string `x`.
pub fn list_contains(l: &Vec<Vec<u8>>, x: &[u8]) -> (r: bool)
    ensures
        r == list_view(l@).contains(x@),
{
    let mut i: usize = 0;
    while i < l.len()
        invariant
            i <= l.len(),
            forall|j: int| 0 <= j < i ==> list_view(l@)[j] != x@,
        decreases l.len() - i,
    {
        if bytes_eq(l[i].as_slice(), x) {
            assert(list_view(l@)[i as int] == x@);
            return true;
        }
        i = i + 1;
    }
    false
}

/// The view of an optional byte slice.
pub open spec fn opt_slice_view(o: Option<&[u8]>) -> Option<Seq<u8>> {
    match o {
        Some(v) => Some(v@),
        None => None,
    }
}

} // verus!
