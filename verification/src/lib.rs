//! Persistent state for smart contracts: a database of named maps, each with a fixed
//! key schema and a fixed value schema that every access is checked against.
//!
//! - [`types`]: values and the type signatures that admit them.
//! - [`errors`]: the type error that a rejected key or value raises.
//! - [`model`]: the mathematical model of a typed map and of a database, and what
//!   holds of their operations.
//! - [`database`]: the two interfaces and their in-memory implementations, verified
//!   against the model.
//! - [`assoc`]: association lists read as finite maps, the representation behind
//!   the in-memory implementations.

pub mod assoc;
pub mod database;
pub mod errors;
pub mod model;
pub mod types;
