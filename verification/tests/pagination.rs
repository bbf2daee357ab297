//! Pagination parameter handling and slice arithmetic.

use netviz::query::page_bounds;
use netviz::query::resolve_page;
use netviz::query::resolve_per_page;
use netviz::query::total_pages_for;

#[test]
fn test_page_defaults() {
    let page = resolve_page(None);
    let per_page = resolve_per_page(None);
    assert_eq!(page, 1);
    assert_eq!(per_page, 25);
}

#[test]
fn test_page_zero_becomes_one() {
    let page = resolve_page(Some(0));
    assert_eq!(page, 1);
}

#[test]
fn test_per_page_clamped_to_max() {
    let per_page = resolve_per_page(Some(200));
    assert_eq!(per_page, 100);
}

#[test]
fn test_per_page_clamped_to_min() {
    let per_page = resolve_per_page(Some(0));
    assert_eq!(per_page, 1);
}

#[test]
fn test_total_pages_calculation() {
    let total_pages = total_pages_for(101, 25);
    assert_eq!(total_pages, 5);
}

#[test]
fn test_slice_indices() {
    let (start_index, end_index) = page_bounds(2, 25, 100);
    assert_eq!(start_index, 25);
    assert_eq!(end_index, 50);
}

#[test]
fn test_last_page_partial() {
    let (start_index, end_index) = page_bounds(5, 25, 101);
    assert_eq!(start_index, 100);
    assert_eq!(end_index, 101);
}

#[test]
fn test_total_pages_of_empty_total() {
    assert_eq!(total_pages_for(0, 25), 0);
}

#[test]
fn test_total_pages_exact_multiple() {
    assert_eq!(total_pages_for(100, 25), 4);
}
