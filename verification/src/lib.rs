//! A convergent last-write-wins register over an append-only link graph.
//!
//! A mementer is a logical object whose settings are never overwritten.
//! Each update adds a settings record and a link from the mementer to it,
//! and the current settings are recomputed on every read from the links
//! that the local replica knows.
//!
//! The library touches neither store nor network. Reads work on a
//! snapshot: the links known (`edge`) and what the store supplied for
//! their targets (`store`). `resolve` picks a mementer's current settings,
//! `timeline` collects its beads, and `convergence` states what holds of
//! the result on every replica. Writes are plans (`coordinator`) that the
//! caller carries out call by call.

pub mod convergence;
pub mod coordinator;
pub mod edge;
pub mod entries;
pub mod error;
pub mod hash;
pub mod resolve;
pub mod store;
pub mod timeline;

pub use coordinator::create_bead;
pub use coordinator::create_mementer;
pub use coordinator::update_mementer;
pub use coordinator::CreateBeadInput;
pub use coordinator::CreateMementerOutput;
pub use coordinator::CreateOutput;
pub use entries::Bead;
pub use entries::EntryTypes;
pub use entries::LinkTypes;
pub use entries::Mementer;
pub use entries::MementerEntry;
pub use entries::MementerSettings;
pub use error::MementerError;
pub use resolve::get_mementer;
pub use resolve::get_mementers;
pub use timeline::get_beads;
pub use timeline::BeadOutput;
pub use timeline::CreateBeadOutput;
