use vstd::prelude::*;
use crate::error::{AppError, AppResult};
use crate::model::{
    Book, BookCheckout, BookId, BookListOptions, BookOwner, BookRow, CheckoutId, CheckoutRow,
    CheckoutUser, CreateBook, CreateCheckout, CreateUser, DeleteBook, PaginatedList, UpdateBook,
    UpdateReturned, User, UserId,
};

verus! {

pub open spec fn user_exists(users: Seq<User>, id: UserId) -> bool {
    exists|i: int| 0 <= i < users.len() && #[trigger] users[i].id == id
}

pub open spec fn book_exists(books: Seq<BookRow>, id: BookId) -> bool {
    exists|i: int| 0 <= i < books.len() && #[trigger] books[i].id == id
}

pub open spec fn checkout_exists(cs: Seq<CheckoutRow>, id: CheckoutId) -> bool {
    exists|i: int| 0 <= i < cs.len() && #[trigger] cs[i].checkout_id == id
}

/// Some checkout of the book has not been returned.
pub open spec fn has_open_checkout(cs: Seq<CheckoutRow>, book_id: BookId) -> bool {
    exists|i: int| 0 <= i < cs.len() && #[trigger] cs[i].book_id == book_id && cs[i].is_open()
}

/// Some checkout, open or returned, refers to the book.
pub open spec fn book_referenced(cs: Seq<CheckoutRow>, book_id: BookId) -> bool {
    exists|i: int| 0 <= i < cs.len() && #[trigger] cs[i].book_id == book_id
}

/// A row with this id exists and is owned by `user`.
pub open spec fn owned_by(books: Seq<BookRow>, id: BookId, user: UserId) -> bool {
    exists|i: int| 0 <= i < books.len() && #[trigger] books[i].id == id && books[i].owner_id == user
}

/// The rows newest first: the order of creation reversed.
pub open spec fn listing(books: Seq<BookRow>) -> Seq<BookRow> {
    Seq::new(books.len(), |k: int| books[books.len() - 1 - k])
}

/// The window of `s` that starts at `offset` and holds at most `limit` rows.
pub open spec fn window<T>(s: Seq<T>, limit: int, offset: int) -> Seq<T> {
    if offset >= s.len() {
        Seq::empty()
    } else if offset + limit >= s.len() {
        s.subrange(offset, s.len() as int)
    } else {
        s.subrange(offset, offset + limit)
    }
}

/// A window never holds more than `limit` rows, and is empty once `offset`
/// reaches the end.
pub proof fn lemma_window_len<T>(s: Seq<T>, limit: int, offset: int)
    requires
        0 <= limit,
        0 <= offset,
    ensures
        window(s, limit, offset).len() <= limit,
        offset >= s.len() ==> window(s, limit, offset).len() == 0,
        offset < s.len() ==> window(s, limit, offset).len() == if offset + limit >= s.len() {
            s.len() - offset
        } else {
            limit
        },
{
}

/// A checkout row marked as returned.
pub open spec fn returned_row(c: CheckoutRow, by: UserId, at: i64) -> CheckoutRow {
    CheckoutRow { returned: Some((by, at)), ..c }
}

pub open spec fn unique_user_ids(us: Seq<User>) -> bool {
    forall|i: int, j: int| 0 <= i < j < us.len() ==> us[i].id != us[j].id
}

pub open spec fn unique_book_ids(bs: Seq<BookRow>) -> bool {
    forall|i: int, j: int| 0 <= i < j < bs.len() ==> bs[i].id != bs[j].id
}

pub open spec fn owners_exist(us: Seq<User>, bs: Seq<BookRow>) -> bool {
    forall|i: int| 0 <= i < bs.len() ==> user_exists(us, #[trigger] bs[i].owner_id)
}

pub open spec fn checkout_refs_exist(us: Seq<User>, bs: Seq<BookRow>, cs: Seq<CheckoutRow>) -> bool {
    forall|i: int|
        0 <= i < cs.len() ==> book_exists(bs, #[trigger] cs[i].book_id) && user_exists(
            us,
            cs[i].checked_out_by,
        )
}

pub open spec fn unique_checkout_ids(cs: Seq<CheckoutRow>) -> bool {
    forall|i: int, j: int| 0 <= i < j < cs.len() ==> cs[i].checkout_id != cs[j].checkout_id
}

/// No two checkouts of one book are open at once.
pub open spec fn one_open_per_book(cs: Seq<CheckoutRow>) -> bool {
    forall|i: int, j: int|
        0 <= i < cs.len() && 0 <= j < cs.len() && i != j && cs[i].is_open() && cs[j].is_open()
            ==> cs[i].book_id != cs[j].book_id
}

/// The checkout `id` exists, belongs to `book_id` and is still open.
pub open spec fn open_checkout_row(cs: Seq<CheckoutRow>, id: CheckoutId, book_id: BookId) -> bool {
    exists|i: int|
        0 <= i < cs.len() && #[trigger] cs[i].checkout_id == id && cs[i].book_id == book_id
            && cs[i].is_open()
}

/// The row that an update writes over `row`.
pub open spec fn updated_row(row: BookRow, ev: UpdateBook) -> BookRow {
    BookRow {
        id: row.id,
        title: ev.title,
        author: ev.author,
        isbn: ev.isbn,
        description: ev.description,
        owner_id: row.owner_id,
    }
}

/// Users, books and checkouts, each kept in order of creation.
pub struct Library {
    pub users: Vec<User>,
    pub books: Vec<BookRow>,
    pub checkouts: Vec<CheckoutRow>,
}

impl Library {
    /// Keys are unique, references resolve, and a book has at most one open
    /// checkout.
    pub open spec fn wf(&self) -> bool {
        let us = self.users@;
        let bs = self.books@;
        let cs = self.checkouts@;
        &&& unique_user_ids(us)
        &&& unique_book_ids(bs)
        &&& unique_checkout_ids(cs)
        &&& owners_exist(us, bs)
        &&& checkout_refs_exist(us, bs, cs)
        &&& one_open_per_book(cs)
        &&& bs.len() <= i64::MAX
    }

    /// `b` is how the repository reports `row`: its fields, its owner's id and
    /// name, and its open checkout if there is one.
    pub open spec fn presents(&self, row: BookRow, b: Book) -> bool {
        let us = self.users@;
        let cs = self.checkouts@;
        &&& b.id == row.id
        &&& b.title == row.title
        &&& b.author == row.author
        &&& b.isbn == row.isbn
        &&& b.description == row.description
        &&& b.owner.id == row.owner_id
        &&& exists|i: int|
            0 <= i < us.len() && #[trigger] us[i].id == row.owner_id && b.owner.name == us[i].name
        &&& match b.checkout {
            None => !has_open_checkout(cs, row.id),
            Some(c) => exists|i: int|
                0 <= i < cs.len() && #[trigger] cs[i].book_id == row.id && cs[i].is_open()
                    && c.checkout_id == cs[i].checkout_id && c.checked_out_by.id
                    == cs[i].checked_out_by && c.checked_out_at == cs[i].checked_out_at,
        }
    }

    pub fn new() -> (lib: Library)
        ensures
            lib.wf(),
            lib.users@.len() == 0,
            lib.books@.len() == 0,
            lib.checkouts@.len() == 0,
    {
        Library { users: Vec::new(), books: Vec::new(), checkouts: Vec::new() }
    }

    fn find_user(&self, id: UserId) -> (r: Option<usize>)
        ensures
            match r {
                Some(i) => i < self.users@.len() && self.users@[i as int].id == id,
                None => !user_exists(self.users@, id),
            },
    {
        let mut i: usize = 0;
        while i < self.users.len()
            invariant
                i <= self.users@.len(),
                forall|j: int| 0 <= j < i ==> self.users@[j].id != id,
            decreases self.users@.len() - i,
        {
            if self.users[i].id == id {
                return Some(i);
            }
            i = i + 1;
        }
        None
    }

    fn find_book(&self, id: BookId) -> (r: Option<usize>)
        ensures
            match r {
                Some(i) => i < self.books@.len() && self.books@[i as int].id == id,
                None => !book_exists(self.books@, id),
            },
    {
        let mut i: usize = 0;
        while i < self.books.len()
            invariant
                i <= self.books@.len(),
                forall|j: int| 0 <= j < i ==> self.books@[j].id != id,
            decreases self.books@.len() - i,
        {
            if self.books[i].id == id {
                return Some(i);
            }
            i = i + 1;
        }
        None
    }

    fn find_checkout(&self, id: CheckoutId) -> (r: Option<usize>)
        ensures
            match r {
                Some(i) => i < self.checkouts@.len() && self.checkouts@[i as int].checkout_id == id,
                None => !checkout_exists(self.checkouts@, id),
            },
    {
        let mut i: usize = 0;
        while i < self.checkouts.len()
            invariant
                i <= self.checkouts@.len(),
                forall|j: int| 0 <= j < i ==> self.checkouts@[j].checkout_id != id,
            decreases self.checkouts@.len() - i,
        {
            if self.checkouts[i].checkout_id == id {
                return Some(i);
            }
            i = i + 1;
        }
        None
    }

    fn find_open_checkout(&self, book_id: BookId) -> (r: Option<usize>)
        ensures
            match r {
                Some(i) => i < self.checkouts@.len() && self.checkouts@[i as int].book_id == book_id
                    && self.checkouts@[i as int].is_open(),
                None => !has_open_checkout(self.checkouts@, book_id),
            },
    {
        let mut i: usize = 0;
        while i < self.checkouts.len()
            invariant
                i <= self.checkouts@.len(),
                forall|j: int|
                    0 <= j < i ==> !(self.checkouts@[j].book_id == book_id
                        && self.checkouts@[j].is_open()),
            decreases self.checkouts@.len() - i,
        {
            if self.checkouts[i].book_id == book_id && self.checkouts[i].returned.is_none() {
                return Some(i);
            }
            i = i + 1;
        }
        None
    }

    fn is_referenced(&self, book_id: BookId) -> (r: bool)
        ensures
            r == book_referenced(self.checkouts@, book_id),
    {
        let mut i: usize = 0;
        while i < self.checkouts.len()
            invariant
                i <= self.checkouts@.len(),
                forall|j: int| 0 <= j < i ==> self.checkouts@[j].book_id != book_id,
            decreases self.checkouts@.len() - i,
        {
            if self.checkouts[i].book_id == book_id {
                return true;
            }
            i = i + 1;
        }
        false
    }

    /// Builds the reported form of the book stored at `idx`.
    fn present(&self, idx: usize) -> (b: Book)
        requires
            self.wf(),
            idx < self.books@.len(),
        ensures
            self.presents(self.books@[idx as int], b),
    {
        let row = &self.books[idx];
        let owner = match self.find_user(row.owner_id) {
            Some(u) => BookOwner { id: row.owner_id, name: self.users[u].name.clone() },
            None => {
                proof {
                    assert(user_exists(self.users@, self.books@[idx as int].owner_id));
                }
                BookOwner { id: row.owner_id, name: String::new() }
            },
        };
        let checkout = match self.find_open_checkout(row.id) {
            Some(c) => {
                let co = &self.checkouts[c];
                Some(
                    BookCheckout {
                        checkout_id: co.checkout_id,
                        checked_out_by: CheckoutUser { id: co.checked_out_by },
                        checked_out_at: co.checked_out_at,
                    },
                )
            },
            None => None,
        };
        Book {
            id: row.id,
            title: row.title.clone(),
            author: row.author.clone(),
            isbn: row.isbn.clone(),
            description: row.description.clone(),
            owner,
            checkout,
        }
    }
    /// Registers a user under `id`; fails when the id is taken.
    pub fn create_user(&mut self, id: UserId, event: CreateUser) -> (r: AppResult<User>)
        requires
            old(self).wf(),
        ensures
            final(self).wf(),
            r is Err <==> user_exists(old(self).users@, id),
            r is Err ==> r->Err_0.is_persistence() && *final(self) == *old(self),
            r is Ok ==> {
                let u = r->Ok_0;
                &&& u.id == id && u.name == event.name && u.email == event.email
                    && u.password == event.password
                &&& final(self).users@ == old(self).users@.push(u)
                &&& user_exists(final(self).users@, id)
                &&& final(self).books@ == old(self).books@
                &&& final(self).checkouts@ == old(self).checkouts@
            },
    {
        if self.find_user(id).is_some() {
            return Err(AppError::persistence("duplicate user id"));
        }
        let user = User { id, name: event.name, email: event.email, password: event.password };
        let out = user.duplicate();
        let ghost pre = self.users@;
        self.users.push(user);
        proof {
            assert(self.users@[pre.len() as int].id == id);
            assert forall|i: int| 0 <= i < self.books@.len() implies user_exists(
                self.users@,
                #[trigger] self.books@[i].owner_id,
            ) by {
                assert(user_exists(pre, old(self).books@[i].owner_id));
                let k = choose|k: int| 0 <= k < pre.len() && pre[k].id == self.books@[i].owner_id;
                assert(self.users@[k] == pre[k]);
            }
            assert forall|i: int| 0 <= i < self.checkouts@.len() implies user_exists(
                self.users@,
                #[trigger] self.checkouts@[i].checked_out_by,
            ) by {
                assert(book_exists(old(self).books@, old(self).checkouts@[i].book_id));
                assert(user_exists(pre, old(self).checkouts@[i].checked_out_by));
                let k = choose|k: int|
                    0 <= k < pre.len() && pre[k].id == self.checkouts@[i].checked_out_by;
                assert(self.users@[k] == pre[k]);
                assert(book_exists(self.books@, self.checkouts@[i].book_id));
            }
        }
        Ok(out)
    }

    /// Stores a new book owned by `user_id` under `book_id`. Fails when the
    /// owner is not a user or the id is taken.
    pub fn create(&mut self, event: CreateBook, user_id: UserId, book_id: BookId) -> (r: AppResult<
        (),
    >)
        requires
            old(self).wf(),
            old(self).books@.len() < i64::MAX,
        ensures
            final(self).wf(),
            r is Err <==> !user_exists(old(self).users@, user_id) || book_exists(
                old(self).books@,
                book_id,
            ),
            r is Err ==> r->Err_0.is_persistence() && *final(self) == *old(self),
            r is Ok ==> final(self).books@ == old(self).books@.push(
                BookRow {
                    id: book_id,
                    title: event.title,
                    author: event.author,
                    isbn: event.isbn,
                    description: event.description,
                    owner_id: user_id,
                },
            ) && final(self).users@ == old(self).users@ && final(self).checkouts@
                == old(self).checkouts@,
            r is Ok ==> book_exists(final(self).books@, book_id),
    {
        if self.find_user(user_id).is_none() {
            return Err(AppError::persistence("owner does not exist"));
        }
        if self.find_book(book_id).is_some() {
            return Err(AppError::persistence("duplicate book id"));
        }
        let ghost pre = self.books@;
        self.books.push(
            BookRow {
                id: book_id,
                title: event.title,
                author: event.author,
                isbn: event.isbn,
                description: event.description,
                owner_id: user_id,
            },
        );
        proof {
            assert(self.books@[pre.len() as int].id == book_id);
            assert forall|i: int| 0 <= i < self.checkouts@.len() implies book_exists(
                self.books@,
                #[trigger] self.checkouts@[i].book_id,
            ) && user_exists(self.users@, self.checkouts@[i].checked_out_by) by {
                let k = choose|k: int| 0 <= k < pre.len() && pre[k].id == self.checkouts@[i].book_id;
                assert(self.books@[k] == pre[k]);
            }
            assert forall|i: int| 0 <= i < self.books@.len() implies user_exists(
                self.users@,
                #[trigger] self.books@[i].owner_id,
            ) by {
                if i < pre.len() {
                    assert(self.books@[i] == pre[i]);
                }
            }
        }
        Ok(())
    }

    /// The book with `book_id`, or `None` when there is no such row.
    pub fn find_by_id(&self, book_id: BookId) -> (r: Option<Book>)
        requires
            self.wf(),
        ensures
            r is None <==> !book_exists(self.books@, book_id),
            r is Some ==> exists|i: int|
                0 <= i < self.books@.len() && #[trigger] self.books@[i].id == book_id
                    && self.presents(self.books@[i], r->Some_0),
    {
        match self.find_book(book_id) {
            Some(i) => Some(self.present(i)),
            None => None,
        }
    }

    /// One page of the books, newest first. Fails when `limit` or `offset`
    /// is negative; otherwise `total` counts every book.
    pub fn find_all(&self, option: BookListOptions) -> (r: AppResult<PaginatedList<Book>>)
        requires
            self.wf(),
        ensures
            r is Err <==> option.limit < 0 || option.offset < 0,
            r is Err ==> r->Err_0.is_persistence(),
            r is Ok ==> {
                let p = r->Ok_0;
                let rows = window(listing(self.books@), option.limit as int, option.offset as int);
                &&& p.total == self.books@.len()
                &&& p.limit == option.limit
                &&& p.offset == option.offset
                &&& p.items@.len() == rows.len()
                &&& p.items@.len() <= p.limit
                &&& p.offset >= p.total ==> p.items@.len() == 0
                &&& forall|k: int| 0 <= k < rows.len() ==> self.presents(rows[k], #[trigger] p.items@[k])
            },
    {
        let BookListOptions { limit, offset } = option;
        if limit < 0 || offset < 0 {
            return Err(AppError::persistence("LIMIT and OFFSET must not be negative"));
        }
        let n = self.books.len();
        let total = n as i64;
        let ghost rows = window(listing(self.books@), limit as int, offset as int);
        proof {
            lemma_window_len(listing(self.books@), limit as int, offset as int);
        }
        let mut items: Vec<Book> = Vec::new();
        if (offset as u64) < (n as u64) {
            let start = offset as usize;
            let end: usize = if (limit as u64) >= ((n - start) as u64) {
                n
            } else {
                start + limit as usize
            };
            let mut j: usize = start;
            while j < end
                invariant
                    self.wf(),
                    n == self.books@.len(),
                    start <= j <= end <= n,
                    start == offset,
                    rows == listing(self.books@).subrange(start as int, end as int),
                    items@.len() == j - start,
                    forall|k: int|
                        0 <= k < items@.len() ==> self.presents(rows[k], #[trigger] items@[k]),
                decreases end - j,
            {
                let b = self.present(n - 1 - j);
                items.push(b);
                j = j + 1;
            }
        }
        Ok(PaginatedList { total, limit, offset, items })
    }
    /// Rewrites the fields of book `event.book_id` when `event.requested_user`
    /// owns it; otherwise fails with `EntityNotFound`.
    pub fn update(&mut self, event: UpdateBook) -> (r: AppResult<()>)
        requires
            old(self).wf(),
        ensures
            final(self).wf(),
            r is Err <==> !owned_by(old(self).books@, event.book_id, event.requested_user),
            r is Err ==> r->Err_0.is_not_found() && *final(self) == *old(self),
            r is Ok ==> exists|i: int|
                0 <= i < old(self).books@.len() && #[trigger] old(self).books@[i].id == event.book_id
                    && final(self).books@ == old(self).books@.update(
                    i,
                    updated_row(old(self).books@[i], event),
                ),
            final(self).users@ == old(self).users@,
            final(self).checkouts@ == old(self).checkouts@,
    {
        let i = match self.find_book(event.book_id) {
            Some(i) => i,
            None => return Err(AppError::not_found()),
        };
        if self.books[i].owner_id != event.requested_user {
            return Err(AppError::not_found());
        }
        let ghost pre = self.books@;
        let ghost ev = event;
        let row = BookRow {
            id: event.book_id,
            title: event.title,
            author: event.author,
            isbn: event.isbn,
            description: event.description,
            owner_id: event.requested_user,
        };
        self.books.set(i, row);
        proof {
            assert(self.books@ == pre.update(i as int, updated_row(pre[i as int], ev)));
            assert forall|k: int| 0 <= k < self.checkouts@.len() implies book_exists(
                self.books@,
                #[trigger] self.checkouts@[k].book_id,
            ) && user_exists(self.users@, self.checkouts@[k].checked_out_by) by {
                assert(book_exists(pre, self.checkouts@[k].book_id));
                let m = choose|m: int| 0 <= m < pre.len() && pre[m].id == self.checkouts@[k].book_id;
                assert(self.books@[m].id == pre[m].id);
            }
            assert forall|k: int| 0 <= k < self.books@.len() implies user_exists(
                self.users@,
                #[trigger] self.books@[k].owner_id,
            ) by {
                assert(self.books@[k].owner_id == pre[k].owner_id);
                assert(user_exists(self.users@, pre[k].owner_id));
            }
            assert forall|a: int, b: int| 0 <= a < b < self.books@.len() implies self.books@[a].id
                != self.books@[b].id by {
                assert(self.books@[a].id == pre[a].id);
                assert(self.books@[b].id == pre[b].id);
            }
        }
        Ok(())
    }

    /// Removes book `event.book_id` when `event.requested_user` owns it;
    /// otherwise fails with `EntityNotFound`. A book that checkouts refer to
    /// cannot be removed (a `PersistenceError`).
    pub fn delete(&mut self, event: DeleteBook) -> (r: AppResult<()>)
        requires
            old(self).wf(),
        ensures
            final(self).wf(),
            r is Err <==> !owned_by(old(self).books@, event.book_id, event.requested_user)
                || book_referenced(old(self).checkouts@, event.book_id),
            r is Err ==> *final(self) == *old(self),
            r is Err ==> (r->Err_0.is_not_found() <==> !owned_by(
                old(self).books@,
                event.book_id,
                event.requested_user,
            )),
            r is Err ==> (r->Err_0.is_persistence() <==> owned_by(
                old(self).books@,
                event.book_id,
                event.requested_user,
            )),
            r is Ok ==> exists|i: int|
                0 <= i < old(self).books@.len() && #[trigger] old(self).books@[i].id == event.book_id
                    && final(self).books@ == old(self).books@.remove(i),
            final(self).users@ == old(self).users@,
            final(self).checkouts@ == old(self).checkouts@,
    {
        let i = match self.find_book(event.book_id) {
            Some(i) => i,
            None => return Err(AppError::not_found()),
        };
        if self.books[i].owner_id != event.requested_user {
            return Err(AppError::not_found());
        }
        if self.is_referenced(event.book_id) {
            return Err(AppError::persistence("book is referenced by checkouts"));
        }
        let ghost pre = self.books@;
        let _ = self.books.remove(i);
        proof {
            assert(checkout_refs_exist(self.users@, pre, self.checkouts@));
            assert forall|k: int| 0 <= k < self.checkouts@.len() implies book_exists(
                self.books@,
                #[trigger] self.checkouts@[k].book_id,
            ) && user_exists(self.users@, self.checkouts@[k].checked_out_by) by {
                assert(book_exists(pre, self.checkouts@[k].book_id));
                let m = choose|m: int| 0 <= m < pre.len() && pre[m].id == self.checkouts@[k].book_id;
                assert(m != i);
                if m < i {
                    assert(self.books@[m] == pre[m]);
                } else {
                    assert(self.books@[m - 1] == pre[m]);
                }
            }
            assert forall|k: int| 0 <= k < self.books@.len() implies user_exists(
                self.users@,
                #[trigger] self.books@[k].owner_id,
            ) by {
                if k < i {
                    assert(self.books@[k] == pre[k]);
                } else {
                    assert(self.books@[k] == pre[k + 1]);
                }
            }
            assert forall|a: int, b: int| 0 <= a < b < self.books@.len() implies self.books@[a].id
                != self.books@[b].id by {
                let a2 = if a < i { a } else { a + 1 };
                let b2 = if b < i { b } else { b + 1 };
                assert(self.books@[a] == pre[a2]);
                assert(self.books@[b] == pre[b2]);
            }
        }
        Ok(())
    }

    /// Opens a checkout of `event.book_id` by `event.checked_out_by` under
    /// `checkout_id`. Fails when the id is taken, the book or the user does
    /// not exist, or the book already has an open checkout.
    pub fn create_checkout(&mut self, event: CreateCheckout, checkout_id: CheckoutId) -> (r:
        AppResult<()>)
        requires
            old(self).wf(),
        ensures
            final(self).wf(),
            r is Err <==> checkout_exists(old(self).checkouts@, checkout_id) || !book_exists(
                old(self).books@,
                event.book_id,
            ) || !user_exists(old(self).users@, event.checked_out_by) || has_open_checkout(
                old(self).checkouts@,
                event.book_id,
            ),
            r is Err ==> r->Err_0.is_persistence() && *final(self) == *old(self),
            r is Ok ==> final(self).checkouts@ == old(self).checkouts@.push(
                CheckoutRow {
                    checkout_id,
                    book_id: event.book_id,
                    checked_out_by: event.checked_out_by,
                    checked_out_at: event.checked_out_at,
                    returned: None,
                },
            ),
            final(self).users@ == old(self).users@,
            final(self).books@ == old(self).books@,
    {
        if self.find_checkout(checkout_id).is_some() {
            return Err(AppError::persistence("duplicate checkout id"));
        }
        if self.find_book(event.book_id).is_none() {
            return Err(AppError::persistence("book does not exist"));
        }
        if self.find_user(event.checked_out_by).is_none() {
            return Err(AppError::persistence("user does not exist"));
        }
        if self.find_open_checkout(event.book_id).is_some() {
            return Err(AppError::persistence("book is already checked out"));
        }
        let ghost pre = self.checkouts@;
        self.checkouts.push(
            CheckoutRow {
                checkout_id,
                book_id: event.book_id,
                checked_out_by: event.checked_out_by,
                checked_out_at: event.checked_out_at,
                returned: None,
            },
        );
        proof {
            assert forall|k: int| 0 <= k < self.checkouts@.len() implies book_exists(
                self.books@,
                #[trigger] self.checkouts@[k].book_id,
            ) && user_exists(self.users@, self.checkouts@[k].checked_out_by) by {
                if k < pre.len() {
                    assert(self.checkouts@[k] == pre[k]);
                }
            }
            assert forall|a: int, b: int|
                0 <= a < self.checkouts@.len() && 0 <= b < self.checkouts@.len() && a != b
                    && self.checkouts@[a].is_open() && self.checkouts@[b].is_open() implies self.checkouts@[a].book_id
                != self.checkouts@[b].book_id by {
                if a < pre.len() {
                    assert(self.checkouts@[a] == pre[a]);
                }
                if b < pre.len() {
                    assert(self.checkouts@[b] == pre[b]);
                }
            }
        }
        Ok(())
    }

    /// Marks the open checkout `event.checkout_id` of `event.book_id` as
    /// returned; fails with `EntityNotFound` when there is no such open
    /// checkout.
    pub fn update_returned(&mut self, event: UpdateReturned) -> (r: AppResult<()>)
        requires
            old(self).wf(),
        ensures
            final(self).wf(),
            r is Err <==> !open_checkout_row(old(self).checkouts@, event.checkout_id, event.book_id),
            r is Err ==> r->Err_0.is_not_found() && *final(self) == *old(self),
            r is Ok ==> exists|i: int|
                0 <= i < old(self).checkouts@.len() && #[trigger] old(self).checkouts@[i].checkout_id
                    == event.checkout_id && final(self).checkouts@ == old(self).checkouts@.update(
                    i,
                    returned_row(old(self).checkouts@[i], event.returned_by, event.returned_at),
                ),
            final(self).users@ == old(self).users@,
            final(self).books@ == old(self).books@,
    {
        let i = match self.find_checkout(event.checkout_id) {
            Some(i) => i,
            None => return Err(AppError::not_found()),
        };
        if self.checkouts[i].book_id != event.book_id || self.checkouts[i].returned.is_some() {
            return Err(AppError::not_found());
        }
        let ghost pre = self.checkouts@;
        let old_row = &self.checkouts[i];
        let row = CheckoutRow {
            checkout_id: old_row.checkout_id,
            book_id: old_row.book_id,
            checked_out_by: old_row.checked_out_by,
            checked_out_at: old_row.checked_out_at,
            returned: Some((event.returned_by, event.returned_at)),
        };
        self.checkouts.set(i, row);
        proof {
            assert(self.checkouts@ == pre.update(
                i as int,
                returned_row(pre[i as int], event.returned_by, event.returned_at),
            ));
            assert forall|k: int| 0 <= k < self.checkouts@.len() implies book_exists(
                self.books@,
                #[trigger] self.checkouts@[k].book_id,
            ) && user_exists(self.users@, self.checkouts@[k].checked_out_by) by {
                assert(self.checkouts@[k].book_id == pre[k].book_id);
                assert(book_exists(self.books@, pre[k].book_id));
            }
            assert forall|a: int, b: int| 0 <= a < b < self.checkouts@.len() implies self.checkouts@[a].checkout_id
                != self.checkouts@[b].checkout_id by {
                assert(self.checkouts@[a].checkout_id == pre[a].checkout_id);
                assert(self.checkouts@[b].checkout_id == pre[b].checkout_id);
            }
            assert forall|a: int, b: int|
                0 <= a < self.checkouts@.len() && 0 <= b < self.checkouts@.len() && a != b
                    && self.checkouts@[a].is_open() && self.checkouts@[b].is_open() implies self.checkouts@[a].book_id
                != self.checkouts@[b].book_id by {
                assert(self.checkouts@[a] == pre[a]);
                assert(self.checkouts@[b] == pre[b]);
            }
        }
        Ok(())
    }
}

} // verus!
