//! The first identifier scheme: `<machine id>-<milliseconds>-<counter>`.
//!
//! The machine identifier is part of every identifier that a generator
//! hands out. Do not use this scheme where the identity of the machine must
//! stay private.

use crate::clock::read_millis;
use crate::decimal::{push_decimal, push_zero_padded};
use crate::layout::{has_id_shape, lemma_id_shape, COUNTER_WIDTH};
use crate::progress::Progress;
use vstd::prelude::*;
use vstd::string::StringExecFns;

verus! {

/// The machine identifier of a generator whose lookup found nothing.
pub const NIL_MACHINE_ID: &'static str = "00000000-0000-0000-0000-000000000000";

/// A generator of identifiers of the first scheme.
///
/// One generator belongs to one owner: it is not synchronized, and every
/// identifier changes it. Share it only behind a lock of its own.
pub struct SQUIDv0 {
    device_uuid: String,
    counter: usize,
    last_timestamp: u128,
}

impl View for SQUIDv0 {
    type V = Progress;

    closed spec fn view(&self) -> Progress {
        Progress {
            machine_id: self.device_uuid@,
            last_timestamp: self.last_timestamp as nat,
            counter: self.counter as nat,
        }
    }
}

impl SQUIDv0 {
    /// Whether the counter can go up once more. Only a generator that has
    /// handed out as many identifiers within one millisecond as a `usize`
    /// can count has no room left.
    pub open spec fn has_room(&self) -> bool {
        self@.counter < usize::MAX
    }

    /// A generator for the machine `machine_id`, taken verbatim: any text
    /// will do, the empty one too.
    #[must_use]
    pub fn with_machine_id(machine_id: String) -> (squid: Self)
        ensures
            squid@ == Progress::fresh(machine_id@),
    {
        SQUIDv0 { device_uuid: machine_id, counter: 0, last_timestamp: 0 }
    }

    /// A generator for the machine that a lookup was made for. An answer is
    /// taken verbatim, whatever text it is; where the lookup failed the
    /// generator carries the nil identifier.
    #[must_use]
    pub fn from_lookup(found: Option<String>) -> (squid: Self)
        ensures
            found matches Some(answer) ==> squid@ == Progress::fresh(answer@),
            found is None ==> squid@ == Progress::fresh(NIL_MACHINE_ID@),
    {
        match found {
            Some(answer) => Self::with_machine_id(answer),
            None => Self::with_machine_id(NIL_MACHINE_ID.to_owned()),
        }
    }

    /// The next identifier, made while the clock shows `timestamp`
    /// milliseconds since the Unix epoch. There is one in every state.
    ///
    /// Within the millisecond of the identifier before it the counter goes
    /// up by one; with any other timestamp it starts again at zero, and the
    /// generator records the timestamp. A counter that stands at the
    /// largest `usize` has nowhere to go up to, and starts again at zero
    /// too. The identifier is the text of the machine identifier, that
    /// timestamp and that counter.
    pub fn generate_at(&mut self, timestamp: u128) -> (id: String)
        ensures
            final(self)@ == old(self)@.observe_up_to(timestamp as nat, usize::MAX as nat),
            old(self).has_room() || timestamp != old(self)@.last_timestamp
                ==> final(self)@ == old(self)@.observe(timestamp as nat),
            final(self)@.machine_id == old(self)@.machine_id,
            final(self)@.last_timestamp == timestamp,
            timestamp == old(self)@.last_timestamp && old(self).has_room()
                ==> final(self)@.counter == old(self)@.counter + 1,
            timestamp != old(self)@.last_timestamp || !old(self).has_room()
                ==> final(self)@.counter == 0,
            id@ == final(self)@.id(),
            has_id_shape(id@, old(self)@.machine_id),
    {
        if timestamp == self.last_timestamp && self.counter < usize::MAX {
            self.counter += 1;
        } else {
            self.counter = 0;
            self.last_timestamp = timestamp;
        }
        let mut id = self.device_uuid.clone();
        proof {
            reveal_strlit("-");
            lemma_id_shape(self@.machine_id, self@.last_timestamp, self@.counter);
        }
        id.append("-");
        push_decimal(&mut id, timestamp);
        id.append("-");
        push_zero_padded(&mut id, self.counter as u128, COUNTER_WIDTH);
        id
    }

    /// The next identifier for a reading of the clock, where there is one.
    ///
    /// A reading in milliseconds since the Unix epoch gives the identifier
    /// that [`generate_at`](Self::generate_at) gives for it. A clock that
    /// stands before the epoch has no reading: there is no identifier then,
    /// and the generator is as it was.
    pub fn generate_from(&mut self, reading: Option<u128>) -> (id: Option<String>)
        ensures
            reading is None ==> id is None && final(self)@ == old(self)@,
            reading matches Some(timestamp) ==> ({
                &&& id matches Some(text)
                &&& final(self)@ == old(self)@.observe_up_to(timestamp as nat, usize::MAX as nat)
                &&& text@ == final(self)@.id()
                &&& has_id_shape(text@, old(self)@.machine_id)
            }),
    {
        match reading {
            Some(timestamp) => Some(self.generate_at(timestamp)),
            None => None,
        }
    }

    /// The next identifier, made with the time that the wall clock shows
    /// now, in milliseconds since the Unix epoch.
    ///
    /// Whatever the clock shows, the outcome is what
    /// [`generate_from`](Self::generate_from) gives for that reading: an
    /// identifier, made with the timestamp that the generator holds
    /// afterwards, or none at all and nothing changed where the clock stands
    /// before the epoch. That is a fault of the machine which nothing here
    /// can mend; a caller that cannot go on without an identifier stops
    /// there.
    pub fn generate(&mut self) -> (id: Option<String>)
        ensures
            id is None ==> final(self)@ == old(self)@,
            id matches Some(text) ==> ({
                &&& final(self)@ == old(self)@.observe_up_to(
                    final(self)@.last_timestamp,
                    usize::MAX as nat,
                )
                &&& text@ == final(self)@.id()
                &&& has_id_shape(text@, old(self)@.machine_id)
            }),
    {
        let reading = read_millis();
        self.generate_from(reading)
    }
}

} // verus!
