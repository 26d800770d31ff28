//! What the HTTP layer decides from plain values: whether a request may
//! reach a repository, and the status that answers it.

use vstd::prelude::*;
use crate::repositories::{ErrorView, RepositoryError};
use crate::repositories::label::CreateLabel;
use crate::repositories::todo::{CreateTodo, UpdateTodo};

verus! {

/// The most characters that the text of an item or the name of a label may have.
pub const MAX_TEXT_LENGTH: u64 = 100;

/// Why a text is refused.
#[derive(Debug, Clone, Copy, PartialEq, Eq)]
pub enum LengthViolation {
    /// The text has no character.
    Empty,
    /// The text has more than [`MAX_TEXT_LENGTH`] characters.
    TooLong,
}

/// What is wrong with `text`, if anything is: it must have one character at
/// least and [`MAX_TEXT_LENGTH`] at most.
pub open spec fn length_violation(text: Seq<char>) -> Option<LengthViolation> {
    if text.len() < 1 {
        Some(LengthViolation::Empty)
    } else if text.len() > MAX_TEXT_LENGTH {
        Some(LengthViolation::TooLong)
    } else {
        None
    }
}

/// What is wrong with a text that may be absent: nothing where it is absent.
pub open spec fn optional_length_violation(text: Option<Seq<char>>) -> Option<LengthViolation> {
    match text {
        Some(text) => length_violation(text),
        None => None,
    }
}

/// Calls `validator::validate_length` on a string, with no length to equal.
/// That function counts the characters of the string and answers whether
/// the count is `min` at least, where there is a `min`, and `max` at most,
/// where there is a `max`.
#[verifier::external_body]
fn length_within(text: &str, min: Option<u64>, max: Option<u64>) -> (within: bool)
    ensures
        within == ((min matches Some(least) ==> least <= text@.len()) && (max matches Some(most)
            ==> text@.len() <= most)),
{
    validator::validate_length(text, min, max, None)
}

/// Checks the length of the text of an item or of the name of a label.
pub fn check_length(text: &str) -> (checked: Result<(), LengthViolation>)
    ensures
        checked == match length_violation(text@) {
            Some(violation) => Err::<(), LengthViolation>(violation),
            None => Ok(()),
        },
{
    if !length_within(text, Some(1), None) {
        Err(LengthViolation::Empty)
    } else if !length_within(text, None, Some(MAX_TEXT_LENGTH)) {
        Err(LengthViolation::TooLong)
    } else {
        Ok(())
    }
}

impl CreateTodo {
    /// Whether the request may reach a repository: its text must have the
    /// right length.
    pub fn validate(&self) -> (checked: Result<(), LengthViolation>)
        ensures
            checked == match length_violation(self@.text) {
                Some(violation) => Err::<(), LengthViolation>(violation),
                None => Ok(()),
            },
    {
        check_length(self.text.as_str())
    }
}

impl UpdateTodo {
    /// Whether the request may reach a repository: its text, if it holds
    /// one, must have the right length.
    pub fn validate(&self) -> (checked: Result<(), LengthViolation>)
        ensures
            checked == match optional_length_violation(self@.text) {
                Some(violation) => Err::<(), LengthViolation>(violation),
                None => Ok(()),
            },
    {
        match &self.text {
            Some(text) => check_length(text.as_str()),
            None => Ok(()),
        }
    }
}

impl CreateLabel {
    /// Whether the request may reach a repository: its name must have the
    /// right length.
    pub fn validate(&self) -> (checked: Result<(), LengthViolation>)
        ensures
            checked == match length_violation(self@) {
                Some(violation) => Err::<(), LengthViolation>(violation),
                None => Ok(()),
            },
    {
        check_length(self.name.as_str())
    }
}

/// The two resources that the HTTP layer serves.
#[derive(Debug, Clone, Copy, PartialEq, Eq)]
pub enum Resource {
    Todo,
    Label,
}

/// The requests that the HTTP layer passes on to a repository.
#[derive(Debug, Clone, Copy, PartialEq, Eq)]
pub enum Operation {
    Create,
    Find,
    All,
    Update,
    Delete,
}

pub const OK: u16 = 200;

pub const CREATED: u16 = 201;

pub const NO_CONTENT: u16 = 204;

pub const BAD_REQUEST: u16 = 400;

pub const NOT_FOUND: u16 = 404;

pub const CONFLICT: u16 = 409;

pub const INTERNAL_SERVER_ERROR: u16 = 500;

/// The status that answers a request that succeeded: a read is `OK`, a
/// write that returns the entity is `CREATED`, a delete is `NO_CONTENT`.
pub open spec fn success_status_of(operation: Operation) -> u16 {
    match operation {
        Operation::Find | Operation::All => OK,
        Operation::Create | Operation::Update => CREATED,
        Operation::Delete => NO_CONTENT,
    }
}

/// The status that answers a request that a repository refused: `NotFound`
/// is `NOT_FOUND`, `Unexpected` is `INTERNAL_SERVER_ERROR`, and `Duplicate`
/// is `INTERNAL_SERVER_ERROR` for labels and `CONFLICT` for items.
pub open spec fn error_status_of(resource: Resource, error: ErrorView) -> u16 {
    match error {
        ErrorView::NotFound(_) => NOT_FOUND,
        ErrorView::Unexpected(_) => INTERNAL_SERVER_ERROR,
        ErrorView::Duplicate(_) => match resource {
            Resource::Label => INTERNAL_SERVER_ERROR,
            Resource::Todo => CONFLICT,
        },
    }
}

/// The status that answers a request that succeeded.
pub fn success_status(operation: Operation) -> (status: u16)
    ensures
        status == success_status_of(operation),
{
    match operation {
        Operation::Find => OK,
        Operation::All => OK,
        Operation::Create => CREATED,
        Operation::Update => CREATED,
        Operation::Delete => NO_CONTENT,
    }
}

/// The status that answers a request that a repository refused.
pub fn error_status(resource: Resource, error: &RepositoryError) -> (status: u16)
    ensures
        status == error_status_of(resource, error@),
{
    match error {
        RepositoryError::NotFound(_) => NOT_FOUND,
        RepositoryError::Unexpected(_) => INTERNAL_SERVER_ERROR,
        RepositoryError::Duplicate(_) => match resource {
            Resource::Label => INTERNAL_SERVER_ERROR,
            Resource::Todo => CONFLICT,
        },
    }
}

/// The status that answers a request, from what the repository returned.
pub fn status<T>(resource: Resource, operation: Operation, outcome: &Result<T, RepositoryError>) -> (status:
    u16)
    ensures
        status == match *outcome {
            Ok(_) => success_status_of(operation),
            Err(error) => error_status_of(resource, error@),
        },
{
    match outcome {
        Ok(_) => success_status(operation),
        Err(error) => error_status(resource, error),
    }
}

} // verus!
