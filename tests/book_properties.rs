use bookshelf::error::AppError;
use bookshelf::model::{
    BookListOptions, CreateBook, CreateCheckout, CreateUser, DeleteBook, UpdateBook,
    UpdateReturned,
};
use bookshelf::store::Library;

fn new_user(lib: &mut Library, id: u128, name: &str) {
    lib.create_user(
        id,
        CreateUser { name: name.into(), email: "e@example.com".into(), password: "pw".into() },
    )
    .unwrap();
}

fn new_book(title: &str) -> CreateBook {
    CreateBook {
        title: title.into(),
        author: "A".into(),
        isbn: "I".into(),
        description: "D".into(),
    }
}

fn update_of(book_id: u128, user: u128, author: &str) -> UpdateBook {
    UpdateBook {
        book_id,
        title: "T".into(),
        author: author.into(),
        isbn: "I".into(),
        description: "D".into(),
        requested_user: user,
    }
}

fn is_not_found<T>(r: &Result<T, AppError>) -> bool {
    matches!(r, Err(AppError::EntityNotFound(_)))
}

fn is_persistence<T>(r: &Result<T, AppError>) -> bool {
    matches!(r, Err(AppError::PersistenceError(_)))
}

#[test]
fn created_book_listed_once_with_owner() {
    let mut lib = Library::new();
    new_user(&mut lib, 1, "Alice");
    lib.create(new_book("old"), 1, 10).unwrap();
    lib.create(new_book("new"), 1, 11).unwrap();
    let page = lib.find_all(BookListOptions { limit: 100, offset: 0 }).unwrap();
    assert_eq!(page.items.len(), 2);
    assert_eq!(page.items.iter().filter(|b| b.id == 11).count(), 1);
    assert_eq!(page.items[0].id, 11);
    assert_eq!(page.items[0].title, "new");
    assert_eq!(page.items[0].owner.id, 1);
    assert_eq!(page.items[0].owner.name, "Alice");
    assert_eq!(page.items[1].title, "old");
}

#[test]
fn total_ignores_limit_and_offset() {
    let mut lib = Library::new();
    new_user(&mut lib, 1, "Alice");
    for n in 0..7u128 {
        lib.create(new_book("b"), 1, 100 + n).unwrap();
    }
    let page = lib.find_all(BookListOptions { limit: 3, offset: 5 }).unwrap();
    assert_eq!(page.total, 7);
    assert_eq!(page.items.len(), 2);
    assert_eq!(page.items[0].id, 101);
    let page = lib.find_all(BookListOptions { limit: 0, offset: 0 }).unwrap();
    assert_eq!(page.total, 7);
    assert_eq!(page.items.len(), 0);
    let page = lib.find_all(BookListOptions { limit: i64::MAX, offset: 2 }).unwrap();
    assert_eq!(page.items.len(), 5);
}

#[test]
fn empty_store_lists_nothing() {
    let lib = Library::new();
    let page = lib.find_all(BookListOptions { limit: 10, offset: 0 }).unwrap();
    assert_eq!(page.total, 0);
    assert!(page.items.is_empty());
    let page = lib.find_all(BookListOptions { limit: 10, offset: 3 }).unwrap();
    assert_eq!(page.total, 0);
    assert!(page.items.is_empty());
}

#[test]
fn negative_window_is_refused() {
    let lib = Library::new();
    assert!(is_persistence(&lib.find_all(BookListOptions { limit: -1, offset: 0 })));
    assert!(is_persistence(&lib.find_all(BookListOptions { limit: 1, offset: -1 })));
}

#[test]
fn create_refuses_unknown_owner_and_duplicate_id() {
    let mut lib = Library::new();
    new_user(&mut lib, 1, "Alice");
    assert!(is_persistence(&lib.create(new_book("x"), 2, 10)));
    lib.create(new_book("x"), 1, 10).unwrap();
    assert!(is_persistence(&lib.create(new_book("y"), 1, 10)));
    assert!(is_persistence(&lib.create_user(1, CreateUser {
        name: "B".into(),
        email: "b@example.com".into(),
        password: "pw".into(),
    })));
}

#[test]
fn update_and_delete_are_owner_scoped() {
    let mut lib = Library::new();
    new_user(&mut lib, 1, "Alice");
    new_user(&mut lib, 2, "Bob");
    lib.create(new_book("x"), 1, 10).unwrap();
    assert!(is_not_found(&lib.update(update_of(99, 1, "X"))));
    assert!(is_not_found(&lib.update(update_of(10, 2, "X"))));
    assert!(is_not_found(&lib.delete(DeleteBook { book_id: 99, requested_user: 1 })));
    assert!(is_not_found(&lib.delete(DeleteBook { book_id: 10, requested_user: 2 })));
    assert_eq!(lib.find_by_id(10).unwrap().author, "A");
    let err = lib.update(update_of(10, 2, "X")).unwrap_err();
    assert_eq!(err.message(), "Specified book not found");
}

#[test]
fn checked_out_book_cannot_be_deleted() {
    let mut lib = Library::new();
    new_user(&mut lib, 1, "Alice");
    lib.create(new_book("x"), 1, 10).unwrap();
    lib.create_checkout(CreateCheckout { book_id: 10, checked_out_by: 1, checked_out_at: 5 }, 50)
        .unwrap();
    assert!(is_persistence(&lib.delete(DeleteBook { book_id: 10, requested_user: 1 })));
    assert!(lib.find_by_id(10).is_some());
}

#[test]
fn checkout_rules() {
    let mut lib = Library::new();
    new_user(&mut lib, 1, "Alice");
    new_user(&mut lib, 2, "Bob");
    lib.create(new_book("x"), 1, 10).unwrap();
    assert!(is_persistence(&lib.create_checkout(
        CreateCheckout { book_id: 11, checked_out_by: 1, checked_out_at: 5 },
        50,
    )));
    assert!(is_persistence(&lib.create_checkout(
        CreateCheckout { book_id: 10, checked_out_by: 3, checked_out_at: 5 },
        50,
    )));
    lib.create_checkout(CreateCheckout { book_id: 10, checked_out_by: 2, checked_out_at: 5 }, 50)
        .unwrap();
    let co = lib.find_by_id(10).unwrap().checkout.unwrap();
    assert_eq!(co.checkout_id, 50);
    assert_eq!(co.checked_out_by.id, 2);
    assert_eq!(co.checked_out_at, 5);
    assert!(is_persistence(&lib.create_checkout(
        CreateCheckout { book_id: 10, checked_out_by: 1, checked_out_at: 6 },
        51,
    )));
    let ret = |cid: u128, bid: u128| UpdateReturned {
        checkout_id: cid,
        book_id: bid,
        returned_by: 2,
        returned_at: 9,
    };
    assert!(is_not_found(&lib.update_returned(ret(51, 10))));
    assert!(is_not_found(&lib.update_returned(ret(50, 11))));
    lib.update_returned(ret(50, 10)).unwrap();
    assert!(is_not_found(&lib.update_returned(ret(50, 10))));
    assert!(is_persistence(&lib.create_checkout(
        CreateCheckout { book_id: 10, checked_out_by: 1, checked_out_at: 6 },
        50,
    )));
    assert!(lib.find_by_id(10).unwrap().checkout.is_none());
}

#[test]
fn end_to_end_book_lifecycle() {
    let mut lib = Library::new();
    let user = lib
        .create_user(1, CreateUser {
            name: "Alice".into(),
            email: "a@example.com".into(),
            password: "pw".into(),
        })
        .unwrap();
    assert_eq!(user.name, "Alice");
    lib.create(new_book("T"), user.id, 10).unwrap();
    let page = lib.find_all(BookListOptions { limit: 20, offset: 0 }).unwrap();
    assert_eq!(page.items.len(), 1);
    let id = page.items[0].id;
    let b = lib.find_by_id(id).unwrap();
    assert_eq!(b.title, page.items[0].title);
    assert_eq!(b.author, "A");
    assert_eq!(b.isbn, "I");
    assert_eq!(b.description, "D");
    assert_eq!(b.owner.id, 1);
    lib.update(update_of(id, 1, "X")).unwrap();
    assert_eq!(lib.find_by_id(id).unwrap().author, "X");
    lib.delete(DeleteBook { book_id: id, requested_user: 1 }).unwrap();
    assert!(lib.find_by_id(id).is_none());
}
