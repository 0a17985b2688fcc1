//! An in-memory repository of protobuf-encoded records.
//!
//! Several record types share one string-keyed store of byte sequences. Each
//! type owns the keys that start with its prefix, records are encoded when they
//! are stored and decoded when they are read, and every operation is specified
//! over a mathematical map from store keys to bytes.

pub mod account;
pub mod error;
pub mod fields;
pub mod laws;
pub mod message;
pub mod record;
pub mod repository;
pub mod todo;
pub mod wire;

pub use account::{Account, ACCOUNT_PREFIX};
pub use error::RepoError;
pub use repository::{InMemoryRepo, Repository};
pub use todo::{Todo, TODO_PREFIX};
