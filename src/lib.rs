//! Book-management core: users, books and checkouts held in a store whose
//! operations carry the semantics of the library's relational schema
//! (owner-scoped mutation, window totals for paging, open-checkout derivation).
pub mod error;
pub mod model;
pub mod store;
pub mod laws;
