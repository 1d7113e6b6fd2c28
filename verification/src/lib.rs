//! Receipt scoring and storage: a loyalty-points engine that scores a
//! purchase receipt by a fixed set of deterministic rules, stores the scored
//! receipt under a freshly generated identifier, and answers later queries
//! for the score by that identifier.

pub mod money;
pub mod receipt;
pub mod score;
pub mod store;
