//! Sortable, locally unique identifiers: a machine identifier, a millisecond
//! timestamp and a per-generator counter, joined by hyphens.
//!
//! A generator is a [`SQUIDv0`]. Each call of [`SQUIDv0::generate`] reads the
//! wall clock and hands out the next identifier, or none where the clock
//! stands before the Unix epoch; [`SQUIDv0::generate_at`] hands out the
//! identifier for a timestamp that the caller brings along. Both are
//! verified against the state machine in
//! [`progress`], whose laws say what holds of a whole run: no identifier
//! comes twice unless the clock returns to a timestamp that it had left, and
//! while the clock does not go back identifiers sort in the order they were
//! made, as long as their fields keep their lengths. The text of an
//! identifier is laid down in [`layout`], on top of the decimal text in
//! [`decimal`] and the order of texts in [`order`].
//!
//! Only [`clock`] rests on trust: it holds the calls that read the wall
//! clock. Asking the host for its identifier is left to the caller, who
//! hands the outcome to [`SQUIDv0::from_lookup`].

pub mod clock;
pub mod decimal;
pub mod layout;
pub mod order;
pub mod progress;
pub mod versions;

pub use versions::v0::SQUIDv0;

use vstd::prelude::*;

verus! {

/// Something that hands out identifiers, one for each call. Callers that
/// need no more than that can take any scheme behind this trait.
pub trait SQUID {
    /// The next identifier, or none where the scheme cannot make one now.
    /// What it looks like, and what can keep it from being made, is up to
    /// the scheme.
    fn generate(&mut self) -> (id: Option<String>);
}

impl SQUID for SQUIDv0 {
    fn generate(&mut self) -> (id: Option<String>)
        ensures
            id is None ==> final(self)@ == old(self)@,
            id matches Some(text) ==> ({
                &&& final(self)@ == old(self)@.observe_up_to(
                    final(self)@.last_timestamp,
                    usize::MAX as nat,
                )
                &&& text@ == final(self)@.id()
                &&& crate::layout::has_id_shape(text@, old(self)@.machine_id)
            }),
    {
        SQUIDv0::generate(self)
    }
}

} // verus!
