use oidc_core::bytes::reversed;
use oidc_core::storage::{
    count_from_database, ensure_affected_rows, DatabaseError, InvalidPagination, Pagination,
    PaginationDirection,
};

#[test]
fn reversed_reverses() {
    assert_eq!(reversed(vec![1, 2, 3]), vec![3, 2, 1]);
    assert_eq!(reversed(Vec::<u8>::new()), Vec::<u8>::new());
}

#[test]
fn try_new_wants_exactly_one_of_first_and_last() {
    let forward = Pagination::try_new(Some(9), Some(3), Some(10), None).unwrap();
    assert_eq!(forward.before, Some(9));
    assert_eq!(forward.after, Some(3));
    assert_eq!(forward.count, 10);
    assert_eq!(forward.direction, PaginationDirection::Forward);
    let backward = Pagination::try_new(None, None, None, Some(5)).unwrap();
    assert_eq!(backward.count, 5);
    assert_eq!(backward.direction, PaginationDirection::Backward);
    assert_eq!(
        Pagination::try_new(None, None, None, None).err(),
        Some(InvalidPagination)
    );
    assert_eq!(
        Pagination::try_new(None, None, Some(1), Some(1)).err(),
        Some(InvalidPagination)
    );
}

#[test]
fn builders_set_what_they_name() {
    let p = Pagination::first(3).after(7).before(20);
    assert_eq!((p.after, p.before, p.count), (Some(7), Some(20), 3));
    assert_eq!(p.direction, PaginationDirection::Forward);
    let q = Pagination::last(2);
    assert_eq!((q.after, q.before, q.count), (None, None, 2));
    assert_eq!(q.direction, PaginationDirection::Backward);
}

#[test]
fn process_forward_drops_the_extra_item() {
    let page = Pagination::first(2).process(vec![1, 2, 3]);
    assert_eq!(page.edges, vec![1, 2]);
    assert!(page.has_next_page);
    assert!(!page.has_previous_page);
}

#[test]
fn process_forward_keeps_a_short_result() {
    let page = Pagination::first(2).process(vec![1, 2]);
    assert_eq!(page.edges, vec![1, 2]);
    assert!(!page.has_next_page);
    assert!(!page.has_previous_page);
    let empty = Pagination::first(0).process(Vec::<u8>::new());
    assert!(empty.edges.is_empty());
    assert!(!empty.has_next_page);
}

#[test]
fn process_backward_restores_ascending_order() {
    // a backward query returns the nearest items first: descending
    let page = Pagination::last(2).process(vec![9, 8, 7]);
    assert_eq!(page.edges, vec![8, 9]);
    assert!(page.has_previous_page);
    assert!(!page.has_next_page);
    let short = Pagination::last(5).process(vec![9, 8]);
    assert_eq!(short.edges, vec![8, 9]);
    assert!(!short.has_previous_page);
}

#[test]
fn process_copes_with_the_largest_count() {
    let page = Pagination::first(usize::MAX).process(vec![1, 2, 3]);
    assert_eq!(page.edges, vec![1, 2, 3]);
    assert!(!page.has_next_page);
}

#[test]
fn ensure_affected_rows_reports_both_numbers() {
    assert_eq!(ensure_affected_rows(1, 1), Ok(()));
    assert_eq!(
        ensure_affected_rows(0, 1),
        Err(DatabaseError::RowsAffected { expected: 1, actual: 0 })
    );
    assert_eq!(
        ensure_affected_rows(2, 1),
        Err(DatabaseError::RowsAffected { expected: 1, actual: 2 })
    );
}

#[test]
fn count_from_database_rejects_negative_counts() {
    assert_eq!(count_from_database(0), Ok(0));
    assert_eq!(count_from_database(42), Ok(42));
    assert_eq!(count_from_database(-1), Err(DatabaseError::InvalidOperation));
    assert_eq!(count_from_database(i64::MIN), Err(DatabaseError::InvalidOperation));
    assert_eq!(count_from_database(i64::MAX), Ok(i64::MAX as usize));
}
