//! A line-oriented key-value store: the command grammar, the in-memory
//! store, the step function that orders log writes before mutations, and
//! the replay that rebuilds a store from its log.
pub mod codec;
pub mod store;
pub mod session;
pub mod laws;
