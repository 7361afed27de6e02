//! A minimal unidirectional state container.
//!
//! The library provides an immutable, identity-indexed entity collection,
//! a vocabulary of entity actions with a pure entity reducer, and a
//! reducer-driven store that folds each dispatched action through an ordered
//! reducer chain and notifies registered selector/observer pairs after every
//! committed state transition.

pub mod collection;
pub mod entity;
pub mod error;
pub mod store;
pub mod todo;
pub mod trace;
