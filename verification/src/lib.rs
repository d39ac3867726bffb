//! An in-memory task list: records with an identifier, a title and a
//! completion flag, the store that owns them, and the service that answers
//! requests against that store.
//!
//! Every executable function carries a contract over a mathematical model of
//! the store, and the properties that a client may rely on are proved over
//! that model in [`laws`].

pub mod laws;
pub mod model;
pub mod service;
pub mod store;
pub mod todo;
