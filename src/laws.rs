use vstd::prelude::*;
use crate::model::{BookRow, CheckoutRow, UpdateReturned};
use crate::store::{
    book_exists, has_open_checkout, listing, one_open_per_book, open_checkout_row, returned_row,
    unique_checkout_ids, window,
};

verus! {

/// A book just created is listed exactly once, first, by a listing from the
/// start whose limit covers every book: `create` appends `row` to the rows
/// of a store that held no book with its id.
pub proof fn lemma_created_book_listed(pre: Seq<BookRow>, row: BookRow, limit: int)
    requires
        !book_exists(pre, row.id),
        limit >= pre.len() + 1,
    ensures
        ({
            let rows = window(listing(pre.push(row)), limit, 0);
            &&& rows.len() == pre.len() + 1
            &&& rows[0] == row
            &&& forall|k: int| 0 < k < rows.len() ==> #[trigger] rows[k].id != row.id
        }),
{
    let post = pre.push(row);
    let rows = window(listing(post), limit, 0);
    assert(rows =~= listing(post));
    assert forall|k: int| 0 < k < rows.len() implies #[trigger] rows[k].id != row.id by {
        let m = post.len() - 1 - k;
        assert(rows[k] == post[m]);
        assert(post[m] == pre[m]);
    }
}

/// Once an open checkout is returned, its book has no open checkout left.
pub proof fn lemma_return_closes_checkout(
    pre: Seq<CheckoutRow>,
    post: Seq<CheckoutRow>,
    ev: UpdateReturned,
)
    requires
        unique_checkout_ids(pre),
        one_open_per_book(pre),
        open_checkout_row(pre, ev.checkout_id, ev.book_id),
        exists|i: int|
            0 <= i < pre.len() && #[trigger] pre[i].checkout_id == ev.checkout_id && post
                == pre.update(i, returned_row(pre[i], ev.returned_by, ev.returned_at)),
    ensures
        !has_open_checkout(post, ev.book_id),
{
    let i = choose|i: int|
        0 <= i < pre.len() && #[trigger] pre[i].checkout_id == ev.checkout_id && post
            == pre.update(i, returned_row(pre[i], ev.returned_by, ev.returned_at));
    let j = choose|j: int|
        0 <= j < pre.len() && #[trigger] pre[j].checkout_id == ev.checkout_id && pre[j].book_id
            == ev.book_id && pre[j].is_open();
    assert(i == j);
    assert forall|k: int| 0 <= k < post.len() && #[trigger] post[k].book_id == ev.book_id implies !post[k].is_open() by {
        if k != i {
            assert(post[k] == pre[k]);
        }
    }
}

/// While a checkout just opened is outstanding, it is the only open checkout
/// of its book: the book reports that borrower and no other.
pub proof fn lemma_opened_checkout_is_reported(
    pre: Seq<CheckoutRow>,
    row: CheckoutRow,
)
    requires
        row.is_open(),
        !has_open_checkout(pre, row.book_id),
    ensures
        forall|k: int|
            0 <= k < pre.push(row).len() && #[trigger] pre.push(row)[k].book_id == row.book_id
                && pre.push(row)[k].is_open() ==> pre.push(row)[k] == row,
{
    let post = pre.push(row);
    assert forall|k: int|
        0 <= k < post.len() && #[trigger] post[k].book_id == row.book_id && post[k].is_open()
            implies post[k] == row by {
        if k < pre.len() {
            assert(post[k] == pre[k]);
        }
    }
}

/// A book checked out, returned, then checked out again reports only the
/// second checkout: nothing of the first stays open.
pub proof fn lemma_second_checkout_replaces_first(
    c0: Seq<CheckoutRow>,
    first: CheckoutRow,
    ev: UpdateReturned,
    c2: Seq<CheckoutRow>,
    second: CheckoutRow,
)
    requires
        unique_checkout_ids(c0.push(first)),
        one_open_per_book(c0.push(first)),
        first.is_open(),
        ev.checkout_id == first.checkout_id,
        ev.book_id == first.book_id,
        exists|i: int|
            0 <= i < c0.push(first).len() && #[trigger] c0.push(first)[i].checkout_id
                == ev.checkout_id && c2 == c0.push(first).update(
                i,
                returned_row(c0.push(first)[i], ev.returned_by, ev.returned_at),
            ),
        second.is_open(),
        second.book_id == first.book_id,
    ensures
        forall|k: int|
            0 <= k < c2.push(second).len() && #[trigger] c2.push(second)[k].book_id
                == first.book_id && c2.push(second)[k].is_open() ==> c2.push(second)[k] == second,
{
    let c1 = c0.push(first);
    assert(c1[c0.len() as int] == first);
    assert(open_checkout_row(c1, ev.checkout_id, ev.book_id));
    lemma_return_closes_checkout(c1, c2, ev);
    lemma_opened_checkout_is_reported(c2, second);
}

} // verus!
