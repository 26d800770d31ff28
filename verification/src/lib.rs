//! Data access for a task tracker: items ("todos") that carry labels.
//!
//! - `repositories` holds the entities, the three kinds of error that a
//!   repository reports, and the operations that every backend offers, with
//!   their contracts.
//! - `repositories::rows` folds the flat rows of a join of items with labels
//!   into nested items.
//! - `repositories::label::memory` and `repositories::todo::memory` are the
//!   in-memory backends. Each states exactly what it answers, as an
//!   operation on a model of what it holds.
//! - `repositories::todo::writes`, with a few functions beside the types,
//!   holds what a relational backend decides between its statements. The
//!   statements themselves, and the lock around an in-memory store that
//!   several callers share, are the caller's.
//! - `handlers` holds what the HTTP layer decides from plain values.
//!
//! Every function is verified against its contract.

pub mod handlers;
pub mod repositories;
