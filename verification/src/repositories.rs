//! The repositories' shared vocabulary: how an operation fails.

use vstd::prelude::*;

pub mod label;
pub mod rows;
pub mod todo;

verus! {

/// Why a repository operation did not succeed. No other kind of failure
/// crosses the boundary of a repository.
#[derive(Debug, PartialEq, Eq)]
pub enum RepositoryError {
    /// No row has the requested id.
    NotFound(i32),
    /// A uniqueness rule was broken; the id is that of the entity already stored.
    Duplicate(i32),
    /// The backend failed; the text serves diagnosis only.
    Unexpected(String),
}

/// A [`RepositoryError`] as contracts speak of it.
pub enum ErrorView {
    NotFound(i32),
    Duplicate(i32),
    Unexpected(Seq<char>),
}

impl View for RepositoryError {
    type V = ErrorView;

    open spec fn view(&self) -> ErrorView {
        match *self {
            RepositoryError::NotFound(id) => ErrorView::NotFound(id),
            RepositoryError::Duplicate(id) => ErrorView::Duplicate(id),
            RepositoryError::Unexpected(message) => ErrorView::Unexpected(message@),
        }
    }
}

impl DeepView for RepositoryError {
    type V = ErrorView;

    open spec fn deep_view(&self) -> ErrorView {
        self@
    }
}

impl Clone for RepositoryError {
    fn clone(&self) -> (copy: Self)
        ensures
            copy@ == self@,
    {
        match self {
            RepositoryError::NotFound(id) => RepositoryError::NotFound(*id),
            RepositoryError::Duplicate(id) => RepositoryError::Duplicate(*id),
            RepositoryError::Unexpected(message) => RepositoryError::Unexpected(message.clone()),
        }
    }
}

/// What a repository reads of a statement that the relational store refused:
/// whether it found no row where one was required, and the store's own words.
#[derive(Debug, PartialEq, Eq)]
pub struct BackendFailure {
    pub row_not_found: bool,
    pub message: String,
}

impl RepositoryError {
    /// The error for a failed statement that addressed the row `id`: a missing
    /// row is `NotFound(id)`, anything else is `Unexpected` with the store's words.
    pub fn for_row(failure: BackendFailure, id: i32) -> (error: RepositoryError)
        ensures
            error@ == (if failure.row_not_found {
                ErrorView::NotFound(id)
            } else {
                ErrorView::Unexpected(failure.message@)
            }),
    {
        if failure.row_not_found {
            RepositoryError::NotFound(id)
        } else {
            RepositoryError::Unexpected(failure.message)
        }
    }

    /// The error for a failed statement that addressed no single row.
    pub fn unexpected(failure: BackendFailure) -> (error: RepositoryError)
        ensures
            error@ == ErrorView::Unexpected(failure.message@),
    {
        RepositoryError::Unexpected(failure.message)
    }
}

/// Decides whether a delete that addressed the row `id` of a relational
/// store removed it, from the number of rows that the store reports as
/// removed: where it removed none, no row had the id.
pub fn confirm_deleted(id: i32, rows_affected: u64) -> (deleted: Result<(), RepositoryError>)
    ensures
        answer(deleted) == if rows_affected == 0 {
            Err::<(), ErrorView>(ErrorView::NotFound(id))
        } else {
            Ok(())
        },
{
    if rows_affected == 0 {
        Err(RepositoryError::NotFound(id))
    } else {
        Ok(())
    }
}

/// What an operation answered, as contracts speak of it.
pub open spec fn answer<T: DeepView>(result: Result<T, RepositoryError>) -> Result<T::V, ErrorView> {
    match result {
        Ok(value) => Ok(value.deep_view()),
        Err(error) => Err(error@),
    }
}

/// The words of the error that an in-memory store reports once it has
/// assigned the largest id there is.
pub open spec fn ids_exhausted_message() -> Seq<char> {
    "no id is left to assign"@
}

impl RepositoryError {
    /// The error that an in-memory store reports once it has assigned the
    /// largest id there is.
    pub fn ids_exhausted() -> (error: RepositoryError)
        ensures
            error@ == ErrorView::Unexpected(ids_exhausted_message()),
    {
        RepositoryError::Unexpected(String::from_str("no id is left to assign"))
    }
}

} // verus!
