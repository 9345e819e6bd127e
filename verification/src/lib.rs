//! A verified proof-of-existence claim registry.
//!
//! The registry maps an opaque byte-string claim to the account that owns it
//! and the logical time at which it was last written. Three state transitions
//! (create, revoke, transfer) and one point lookup operate on that mapping;
//! each transition either performs exactly one mutation and appends exactly
//! one event, or rejects with a typed error and leaves the state unchanged.
//!
//! The `model` module gives the mathematical state and the transition
//! functions; the `registry` module implements them executably and proves the
//! implementation against the model; the `laws` module proves the high-level
//! properties of the transition system.

pub mod laws;
pub mod model;
pub mod registry;

pub use model::AccountId;
pub use model::BlockNumber;
pub use model::ClaimRecord;
pub use model::Error;
pub use model::EventView;
pub use model::State;
pub use registry::Event;
pub use registry::Pallet;
