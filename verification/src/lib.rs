//! Asset-ingestion and access-synchronization engine.
//!
//! The library models the persistent state of a media service — asset
//! records, asset/offer associations with a dense display ordering,
//! per-user storage quotas, and a locally cached projection of externally
//! owned shops, offers and subscriptions — and implements the operations
//! on that state: quota-checked uploads (whole-object and multipart with
//! compensating cleanup), minimal-touch reordering of associations, and
//! event-driven maintenance of the authorization cache.
//!
//! All state lives in plain values; identifier parsing and formatting and
//! timestamp validation are delegated to outside crates behind a few
//! narrow trusted wrappers.

use vstd::prelude::*;

pub mod clock;
pub mod ids;
pub mod model;
pub mod quota;
pub mod services;
pub mod subscribers;
pub mod credentials;
pub mod files;
pub mod text;

verus! {

/// Error taxonomy for every operation of the engine.
///
/// `NotFound`: the asset, association or fact is absent or not owned by the
/// caller. `QuotaExceeded`: terminal for the current upload attempt.
/// `InvalidArgument`: malformed identifiers or values. `Transient`: a store
/// or database failure that is safe to retry. `Internal`: an unexpected
/// invariant violation.
#[derive(Clone, Copy, Debug, PartialEq, Eq, Structural)]
pub enum Error {
    NotFound,
    QuotaExceeded,
    InvalidArgument,
    Transient,
    Internal,
}

} // verus!
