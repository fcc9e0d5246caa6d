use commerce_core::pagination::{Pagination, PaginationResult, page_bounds};

#[test]
fn page_bounds_cover_first_page() {
    let p = Pagination { page: 1, per_page: 3 };
    assert_eq!(page_bounds(10, &p), (0, 3));
}

#[test]
fn page_bounds_cover_middle_page() {
    let p = Pagination { page: 2, per_page: 3 };
    assert_eq!(page_bounds(10, &p), (3, 3));
}

#[test]
fn page_bounds_shrink_last_page() {
    // ceil(10 / 3) = 4 pages; the last one holds 10 - 3 * 3 = 1 item.
    let p = Pagination { page: 4, per_page: 3 };
    assert_eq!(page_bounds(10, &p), (9, 1));
}

#[test]
fn page_bounds_empty_beyond_last_page() {
    let p = Pagination { page: 5, per_page: 3 };
    assert_eq!(page_bounds(10, &p), (10, 0));
}

#[test]
fn page_bounds_exact_division() {
    // ceil(6 / 3) = 2 pages of 3 items each.
    let p2 = Pagination { page: 2, per_page: 3 };
    assert_eq!(page_bounds(6, &p2), (3, 3));
    let p3 = Pagination { page: 3, per_page: 3 };
    assert_eq!(page_bounds(6, &p3), (6, 0));
}

#[test]
fn page_bounds_empty_collection() {
    let p = Pagination { page: 1, per_page: 10 };
    assert_eq!(page_bounds(0, &p), (0, 0));
}

#[test]
fn empty_envelope_carries_request() {
    let p = Pagination { page: 7, per_page: 9 };
    let envelope = PaginationResult::empty(&p, 42);
    assert_eq!(envelope.items.len(), 0);
    assert_eq!(envelope.items_count, 0);
    assert_eq!(envelope.total_items, 42);
    assert_eq!(envelope.current_page, 7);
    assert_eq!(envelope.per_page, 9);
}

#[test]
fn with_data_counts_items() {
    let p = Pagination { page: 1, per_page: 2 };
    let envelope = PaginationResult::empty(&p, 5);
    let filled = envelope.with_data(vec![10u32, 20u32]);
    assert_eq!(filled.items, vec![10, 20]);
    assert_eq!(filled.items_count, 2);
    assert_eq!(filled.total_items, 5);
}
