//! Shred-arrival bookkeeping and the decision logic of its packet sources.

pub mod clock;
pub mod frame;
pub mod history;
pub mod registry;
pub mod shred;
pub mod sources;
pub mod store;
pub mod utc;
