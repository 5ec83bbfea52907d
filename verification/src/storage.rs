//! What the storage layer computes around its queries: pagination of result
//! sets, and the checks made on what a query reports.

use vstd::prelude::*;
use crate::bytes::reversed;
use crate::upstream::provider::DatabaseInconsistencyError;

verus! {

/// From which end of the window a page is counted.
#[derive(Clone, Copy, Debug, PartialEq, Eq, Structural)]
pub enum PaginationDirection {
    /// The first `count` items after the window's start.
    Forward,
    /// The last `count` items before the window's end.
    Backward,
}

/// A request for one page of a list ordered by identifier: the window
/// `(after, before)`, both ends excluded, and how many items to return from
/// which end of it.
#[derive(Clone, Copy, Debug)]
pub struct Pagination {
    pub before: Option<u128>,
    pub after: Option<u128>,
    pub count: usize,
    pub direction: PaginationDirection,
}

/// Neither or both of `first` and `last` were given.
#[derive(Clone, Copy, Debug, PartialEq, Eq, Structural)]
pub struct InvalidPagination;

/// One page of a list.
#[derive(Debug)]
pub struct Page<T> {
    /// Whether items of the window precede this page.
    pub has_previous_page: bool,
    /// Whether items of the window follow this page.
    pub has_next_page: bool,
    /// The items, in ascending order.
    pub edges: Vec<T>,
}

impl Pagination {
    /// Whether `id` lies in the window.
    pub open spec fn in_window(&self, id: u128) -> bool {
        &&& self.after matches Some(a) ==> id > a
        &&& self.before matches Some(b) ==> id < b
    }

    /// Whether a query that asks for one item more than `count` and got
    /// `fetched` items has found the window to hold more than one page.
    pub open spec fn is_full(&self, fetched: nat) -> bool {
        fetched == self.count + 1
    }

    /// The page made of what a query fetched. A query fetches up to
    /// `count + 1` items from the end of the window that `direction` names,
    /// nearest first; the extra item only shows that more exist and is
    /// dropped, and a backward page is put back in ascending order.
    pub open spec fn spec_process<T>(&self, fetched: Seq<T>) -> (bool, bool, Seq<T>) {
        let full = self.is_full(fetched.len());
        let kept = if full {
            fetched.drop_last()
        } else {
            fetched
        };
        match self.direction {
            PaginationDirection::Forward => (false, full, kept),
            PaginationDirection::Backward => (full, false, kept.reverse()),
        }
    }

    /// A pagination from optional bounds and exactly one of `first` and
    /// `last`.
    pub fn try_new(
        before: Option<u128>,
        after: Option<u128>,
        first: Option<usize>,
        last: Option<usize>,
    ) -> (r: Result<Pagination, InvalidPagination>)
        ensures
            match r {
                Ok(p) => p.before == before && p.after == after && match (first, last) {
                    (Some(n), None) => p.count == n && p.direction == PaginationDirection::Forward,
                    (None, Some(n)) => p.count == n && p.direction == PaginationDirection::Backward,
                    _ => false,
                },
                Err(_) => (first is Some) == (last is Some),
            },
    {
        match (first, last) {
            (Some(n), None) => Ok(
                Pagination { before, after, count: n, direction: PaginationDirection::Forward },
            ),
            (None, Some(n)) => Ok(
                Pagination { before, after, count: n, direction: PaginationDirection::Backward },
            ),
            _ => Err(InvalidPagination),
        }
    }

    /// The first `count` items, with no bounds.
    pub fn first(count: usize) -> (p: Pagination)
        ensures
            p.before is None,
            p.after is None,
            p.count == count,
            p.direction == PaginationDirection::Forward,
    {
        Pagination { before: None, after: None, count, direction: PaginationDirection::Forward }
    }

    /// The last `count` items, with no bounds.
    pub fn last(count: usize) -> (p: Pagination)
        ensures
            p.before is None,
            p.after is None,
            p.count == count,
            p.direction == PaginationDirection::Backward,
    {
        Pagination { before: None, after: None, count, direction: PaginationDirection::Backward }
    }

    /// The same pagination, over the items before `id`.
    pub fn before(self, id: u128) -> (p: Pagination)
        ensures
            p.before == Some(id),
            p.after == self.after,
            p.count == self.count,
            p.direction == self.direction,
    {
        Pagination { before: Some(id), after: self.after, count: self.count, direction: self.direction }
    }

    /// The same pagination, over the items after `id`.
    pub fn after(self, id: u128) -> (p: Pagination)
        ensures
            p.after == Some(id),
            p.before == self.before,
            p.count == self.count,
            p.direction == self.direction,
    {
        Pagination { before: self.before, after: Some(id), count: self.count, direction: self.direction }
    }

    /// Makes the page of what a query fetched.
    pub fn process<T>(&self, edges: Vec<T>) -> (page: Page<T>)
        ensures
            page.has_previous_page == self.spec_process(edges@).0,
            page.has_next_page == self.spec_process(edges@).1,
            page.edges@ == self.spec_process(edges@).2,
    {
        let mut kept = edges;
        let fetched = kept.len();
        let full = self.count < usize::MAX && fetched == self.count + 1;
        if full {
            kept.pop();
            assert(kept@ =~= edges@.drop_last());
        }
        match self.direction {
            PaginationDirection::Forward => Page {
                has_previous_page: false,
                has_next_page: full,
                edges: kept,
            },
            PaginationDirection::Backward => Page {
                has_previous_page: full,
                has_next_page: false,
                edges: reversed(kept),
            },
        }
    }
}

/// An error of the storage layer that the library itself can find.
#[derive(Clone, Copy, Debug, PartialEq, Eq, Structural)]
pub enum DatabaseError {
    /// A stored value does not have the shape it must have.
    Inconsistency(DatabaseInconsistencyError),
    /// A statement changed another number of rows than it had to.
    RowsAffected { expected: u64, actual: u64 },
    /// A value that the database reported cannot be used.
    InvalidOperation,
    /// A row with the same key is already stored.
    Duplicate,
}

/// Checks that a statement changed `expected` rows.
pub fn ensure_affected_rows(actual: u64, expected: u64) -> (r: Result<(), DatabaseError>)
    ensures
        actual == expected ==> r is Ok,
        actual != expected ==> r == Err::<(), _>(DatabaseError::RowsAffected { expected, actual }),
{
    if actual == expected {
        Ok(())
    } else {
        Err(DatabaseError::RowsAffected { expected, actual })
    }
}

/// The number of rows that a `COUNT` query reported, as a `usize`. A
/// negative count, or one that does not fit, is an invalid operation.
pub fn count_from_database(count: i64) -> (r: Result<usize, DatabaseError>)
    ensures
        0 <= count <= usize::MAX ==> r == Ok::<_, DatabaseError>(count as usize),
        !(0 <= count <= usize::MAX) ==> r == Err::<usize, _>(DatabaseError::InvalidOperation),
{
    if count < 0 {
        return Err(DatabaseError::InvalidOperation);
    }
    let wide: u64 = count as u64;
    if wide > usize::MAX as u64 {
        return Err(DatabaseError::InvalidOperation);
    }
    Ok(wide as usize)
}

} // verus!
