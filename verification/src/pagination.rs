//! Cutting a list into pages.

use vstd::prelude::*;

verus! {

/// Which page is asked for, counted from 1, and how many items a page holds.
pub struct PaginationParams {
    pub page: usize,
    pub page_size: usize,
}

/// One page of a list, and the length of the whole list.
pub struct PaginationResponse<T> {
    pub items: Vec<T>,
    pub total_items: usize,
}

/// The index at which a page starts.
pub open spec fn page_start(page: int, page_size: int) -> int {
    (page - 1) * page_size
}

/// The index before which a page ends, in a list of `total` items.
pub open spec fn page_end(page: int, page_size: int, total: int) -> int {
    if page_start(page, page_size) + page_size <= total {
        page_start(page, page_size) + page_size
    } else {
        total
    }
}

/// The items of a page: those from `page_start` up to `page_end`, and none
/// where that range is empty or starts before the list does.
pub open spec fn page_slice<T>(all: Seq<T>, page: int, page_size: int) -> Seq<T> {
    let start = page_start(page, page_size);
    let end = page_end(page, page_size, all.len() as int);
    if 0 <= start < end {
        all.subrange(start, end)
    } else {
        Seq::empty()
    }
}

/// Cuts the requested page out of `all` and reports how long `all` was.
pub fn paginate<T>(all: Vec<T>, pagination_params: &PaginationParams) -> (response:
    PaginationResponse<T>)
    ensures
        response.total_items == all.len(),
        response.items@ == page_slice(
            all@,
            pagination_params.page as int,
            pagination_params.page_size as int,
        ),
{
    let page = pagination_params.page;
    let page_size = pagination_params.page_size;
    let total_items = all.len();
    let mut rest = all;
    if page == 0 {
        assert(page_start(0, page_size as int) == -(page_size as int)) by (nonlinear_arith);
        return PaginationResponse { items: Vec::new(), total_items };
    }
    let start = match (page - 1).checked_mul(page_size) {
        Some(start) => start,
        None => {
            return PaginationResponse { items: Vec::new(), total_items };
        },
    };
    let end = match start.checked_add(page_size) {
        Some(end) => if end < total_items {
            end
        } else {
            total_items
        },
        None => total_items,
    };
    if start < end {
        rest.truncate(end);
        let items = rest.split_off(start);
        assert(items@ == all@.subrange(start as int, end as int));
        PaginationResponse { items, total_items }
    } else {
        PaginationResponse { items: Vec::new(), total_items }
    }
}

/// A page that starts at or after the end of the list is empty.
pub proof fn lemma_page_beyond_end_is_empty<T>(all: Seq<T>, page: int, page_size: int)
    requires
        page_start(page, page_size) >= all.len(),
    ensures
        page_slice(all, page, page_size) == Seq::<T>::empty(),
{
}

/// A page holds at most `page_size` items, and exactly `page_size` where the
/// list reaches that far.
pub proof fn lemma_page_len<T>(all: Seq<T>, page: int, page_size: int)
    requires
        page >= 1,
        page_size >= 0,
    ensures
        page_slice(all, page, page_size).len() <= page_size,
        page * page_size <= all.len() ==> page_slice(all, page, page_size).len() == page_size,
        page_start(page, page_size) < all.len() <= page * page_size ==> page_slice(
            all,
            page,
            page_size,
        ).len() == all.len() - page_start(page, page_size),
{
    assert(page_start(page, page_size) + page_size == page * page_size) by (nonlinear_arith);
    assert(page_start(page, page_size) >= 0) by (nonlinear_arith)
        requires
            page >= 1,
            page_size >= 0,
    ;
}

/// The item at position `offset` of a page is the item of the list at
/// `page_start + offset`.
pub proof fn lemma_page_item<T>(all: Seq<T>, page: int, page_size: int, offset: int)
    requires
        page >= 1,
        0 <= offset < page_slice(all, page, page_size).len(),
    ensures
        page_start(page, page_size) + offset < all.len(),
        page_slice(all, page, page_size)[offset] == all[page_start(page, page_size) + offset],
{
}

/// With pages of a positive size, every item of the list is on exactly the
/// page that its index names: item `index` is at `index % page_size` of page
/// `index / page_size + 1`.
pub proof fn lemma_every_item_is_on_its_page<T>(all: Seq<T>, page_size: int, index: int)
    requires
        page_size > 0,
        0 <= index < all.len(),
    ensures
        index % page_size < page_slice(all, index / page_size + 1, page_size).len(),
        page_slice(all, index / page_size + 1, page_size)[index % page_size] == all[index],
{
    let page = index / page_size + 1;
    assert(index == page_size * (index / page_size) + index % page_size && 0 <= index % page_size
        < page_size) by (nonlinear_arith)
        requires
            page_size > 0,
            index >= 0,
    ;
    assert(page_start(page, page_size) == page_size * (index / page_size)) by (nonlinear_arith)
        requires
            page == index / page_size + 1,
    ;
}

} // verus!
