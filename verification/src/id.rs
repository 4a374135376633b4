//! Stable item identities.
//!
//! Every item of an identity-addressed collection carries an [`ItemId`],
//! assigned once when the item is appended and immutable thereafter.  Ids are
//! drawn from a 128-bit space so that independently produced appends on
//! different replicas collide only with negligible probability; the final
//! order of concurrent appends is whatever total order the external
//! sequencer assigns, never one the collection infers locally.

use vstd::prelude::*;

verus! {

/// A stable, opaque identity of one collection item: 128 raw id bits.
#[derive(Clone, Copy, PartialEq, Eq, Structural, Debug)]
pub struct ItemId {
    pub bits: u128,
}

/// Relies on `uuid::Uuid::new_v4`, which draws a fresh version-4 UUID from
/// the process's entropy source, for the raw bits of a new id.  The result
/// depends on that entropy source, so nothing is assumed about its value;
/// callers check for themselves that a drawn id is unused.
#[verifier::external_body]
pub(crate) fn random_id_bits() -> u128 {
    uuid::Uuid::new_v4().as_u128()
}

} // verus!
