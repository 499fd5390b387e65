use vstd::prelude::*;

verus! {

/// The two kinds of failure a repository operation can report.
#[derive(Debug)]
pub enum AppError {
    /// The targeted row does not exist, or the caller does not own it.
    EntityNotFound(String),
    /// The store refused the statement (a constraint or an argument it rejects).
    PersistenceError(String),
}

impl AppError {
    pub open spec fn is_not_found(&self) -> bool {
        self is EntityNotFound
    }

    pub open spec fn is_persistence(&self) -> bool {
        self is PersistenceError
    }

    pub fn not_found() -> (e: AppError)
        ensures
            e.is_not_found(),
    {
        AppError::EntityNotFound("Specified book not found".to_owned())
    }

    pub fn persistence(msg: &str) -> (e: AppError)
        ensures
            e.is_persistence(),
    {
        AppError::PersistenceError(msg.to_owned())
    }

    /// The message carried by either kind.
    pub fn message(&self) -> (s: String)
        ensures
            s == match self {
                AppError::EntityNotFound(m) => *m,
                AppError::PersistenceError(m) => *m,
            },
    {
        match self {
            AppError::EntityNotFound(m) => m.clone(),
            AppError::PersistenceError(m) => m.clone(),
        }
    }
}

pub type AppResult<T> = Result<T, AppError>;

} // verus!
