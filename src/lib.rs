//! A permanent, append-only registry of image-authentication records.
//!
//! Records are keyed by a 32-byte content hash, reference an optional parent
//! record for provenance, and carry a compact authority id drawn from a
//! deduplicating name dictionary. Batches of submissions are applied as one
//! atomic unit.
pub mod authority;
pub mod hash;
pub mod laws;
pub mod model;
pub mod pallet;
pub mod store;
pub mod types;

pub use pallet::{GenesisConfig, Pallet};
pub use types::{Config, Error, Event, ImageRecord, Submission, SubmissionType};
