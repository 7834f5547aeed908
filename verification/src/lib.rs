//! Logical erasure on a key-value store.
//!
//! Every identity owns a wallet record whose generation counter names the
//! partition that holds the identity's files. Forgetting an identity advances
//! the counter: the files written so far stay where they are, and no read that
//! goes through the wallet record reaches them again.

pub mod backend;
pub mod laws;
pub mod model;
pub mod namespace;
pub mod path;
pub mod store;
pub mod wallet;
