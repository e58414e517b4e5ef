//! Selection and paging arithmetic for list views.
use vstd::prelude::*;

verus! {

/// `current + delta`, clamped to the indices of a list of `len` items
/// (0 for an empty list).
pub open spec fn moved_index(current: int, len: int, delta: int) -> int {
    if len == 0 {
        0
    } else if current + delta < 0 {
        0
    } else if current + delta > len - 1 {
        len - 1
    } else {
        current + delta
    }
}

/// The first visible row that keeps `selected` on a page of `page_size`
/// rows (at least one), starting from `offset`.
pub open spec fn kept_offset(selected: int, offset: int, page_size: int, len: int) -> int {
    if len == 0 {
        0
    } else {
        let page = if page_size < 1 { 1 } else { page_size };
        let start = if offset < len - 1 { offset } else { len - 1 };
        let next = if selected < start {
            selected
        } else if selected >= start + page {
            selected - page + 1
        } else {
            start
        };
        if next < len - 1 { next } else { len - 1 }
    }
}

/// The half-open row range of the page that starts at `offset`.
pub open spec fn page_range(len: int, offset: int, page_size: int) -> (int, int) {
    if len == 0 {
        (0, 0)
    } else {
        let start = if offset < len - 1 { offset } else { len - 1 };
        let page = if page_size < 1 { 1 } else { page_size };
        (start, if start + page < len { start + page } else { len })
    }
}

/// Moves a selection by `delta` rows within a list of `len` rows.
pub fn move_index(current: usize, len: usize, delta: i32) -> (r: usize)
    ensures
        r == moved_index(current as int, len as int, delta as int),
{
    if len == 0 {
        return 0;
    }
    let target: i128 = current as i128 + delta as i128;
    if target < 0 {
        0
    } else if target > (len - 1) as i128 {
        len - 1
    } else {
        target as usize
    }
}

/// Scrolls the first visible row so that `selected` stays on the page.
pub fn ensure_offset(selected: usize, offset: usize, page_size: usize, len: usize) -> (r: usize)
    ensures
        r == kept_offset(selected as int, offset as int, page_size as int, len as int),
{
    if len == 0 {
        return 0;
    }
    let page = if page_size < 1 {
        1
    } else {
        page_size
    };
    let start = if offset < len - 1 {
        offset
    } else {
        len - 1
    };
    let next = if selected < start {
        selected
    } else if selected - start >= page {
        selected - page + 1
    } else {
        start
    };
    if next < len - 1 {
        next
    } else {
        len - 1
    }
}

/// The rows `[start, end)` shown on the page that starts at `offset`.
pub fn page_bounds(len: usize, offset: usize, page_size: usize) -> (r: (usize, usize))
    ensures
        r.0 as int == page_range(len as int, offset as int, page_size as int).0,
        r.1 as int == page_range(len as int, offset as int, page_size as int).1,
{
    if len == 0 {
        return (0, 0);
    }
    let start = if offset < len - 1 {
        offset
    } else {
        len - 1
    };
    let page = if page_size < 1 {
        1
    } else {
        page_size
    };
    let end = if page < len - start {
        start + page
    } else {
        len
    };
    (start, end)
}

} // verus!
