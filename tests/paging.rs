use feedrv3::paging::{ensure_offset, move_index, page_bounds};

#[test]
fn selection_moves_within_bounds() {
    assert_eq!(move_index(0, 0, 5), 0);
    assert_eq!(move_index(3, 10, 2), 5);
    assert_eq!(move_index(3, 10, -5), 0);
    assert_eq!(move_index(3, 10, 50), 9);
}

#[test]
fn offset_keeps_selection_visible() {
    assert_eq!(ensure_offset(0, 0, 5, 0), 0);
    assert_eq!(ensure_offset(2, 4, 5, 20), 2);
    assert_eq!(ensure_offset(12, 4, 5, 20), 8);
    assert_eq!(ensure_offset(6, 4, 5, 20), 4);
    assert_eq!(ensure_offset(3, 50, 0, 10), 3);
    assert_eq!(ensure_offset(9, 0, 0, 10), 9);
}

#[test]
fn page_bounds_cover_one_page() {
    assert_eq!(page_bounds(0, 3, 5), (0, 0));
    assert_eq!(page_bounds(20, 4, 5), (4, 9));
    assert_eq!(page_bounds(7, 4, 5), (4, 7));
    assert_eq!(page_bounds(7, 40, 0), (6, 7));
}
