//! The state that outlives a poll: how far the transfer of the command in
//! flight has come, and the sense data of the last command that was
//! rejected.

use crate::scsi::enums::additional_sense_code::{AdditionalSenseCode, AdditionalSenseCodeError};
use vstd::prelude::*;

verus! {

/// The sense key of a command that asked for something the device cannot do.
pub const ILLEGAL_REQUEST: u8 = 0x05;

/// Transfer state and sense state.
#[derive(Clone, Copy, Debug, PartialEq, Eq, Structural)]
pub struct State {
    /// The bytes already moved for the command that is in its data phase.
    pub storage_offset: usize,
    /// The sense key, if a command was rejected since the last report.
    pub sense_key: Option<u8>,
    /// The additional sense code that goes with the key.
    pub sense_key_code: Option<u8>,
    /// The additional sense code qualifier that goes with the key.
    pub sense_qualifier: Option<u8>,
}

impl State {
    /// The state of a device that has moved nothing and has nothing to
    /// report.
    pub open spec fn cleared() -> State {
        State { storage_offset: 0, sense_key: None, sense_key_code: None, sense_qualifier: None }
    }

    /// The sense data as it is reported: key, code and qualifier, each zero
    /// when there is none.
    pub open spec fn sense(self) -> (u8, u8, u8) {
        (
            if self.sense_key is Some { self.sense_key->0 } else { 0u8 },
            if self.sense_key_code is Some { self.sense_key_code->0 } else { 0u8 },
            if self.sense_qualifier is Some { self.sense_qualifier->0 } else { 0u8 },
        )
    }

    /// The state with the sense data of a rejection in place of any earlier
    /// one, and the transfer state as it was.
    pub open spec fn with_sense(self, key: u8, code: AdditionalSenseCode) -> State {
        State {
            storage_offset: self.storage_offset,
            sense_key: Some(key),
            sense_key_code: Some(code.spec_pair().0),
            sense_qualifier: Some(code.spec_pair().1),
        }
    }

    /// The state with the transfer state cleared and the sense data as it
    /// was.
    pub open spec fn transfer_done(self) -> State {
        State { storage_offset: 0, ..self }
    }

    /// A state with nothing moved and nothing to report.
    pub fn new() -> (r: State)
        ensures
            r == State::cleared(),
            r.sense() == (0u8, 0u8, 0u8),
    {
        State { storage_offset: 0, sense_key: None, sense_key_code: None, sense_qualifier: None }
    }

    /// Clears the transfer state and the sense data.
    pub fn reset(&mut self)
        ensures
            *final(self) == State::cleared(),
    {
        *self = State::new();
    }

    /// Records the sense data of a rejected command. Whatever was recorded
    /// before is replaced.
    pub fn set_sense(&mut self, key: u8, code: AdditionalSenseCode)
        ensures
            *final(self) == old(self).with_sense(key, code),
            final(self).sense() == (key, code.spec_pair().0, code.spec_pair().1),
    {
        self.sense_key = Some(key);
        self.sense_key_code = Some(code.asc());
        self.sense_qualifier = Some(code.ascq());
    }

    /// The sense data as it is reported, without clearing it.
    pub fn peek_sense(&self) -> (r: (u8, u8, u8))
        ensures
            r == self.sense(),
    {
        let key = match self.sense_key {
            Some(k) => k,
            None => 0,
        };
        let code = match self.sense_key_code {
            Some(c) => c,
            None => 0,
        };
        let qualifier = match self.sense_qualifier {
            Some(q) => q,
            None => 0,
        };
        (key, code, qualifier)
    }

    /// Reports the sense data and clears the state in the same step: what
    /// was reported once is not reported again.
    pub fn take_sense(&mut self) -> (r: (u8, u8, u8))
        ensures
            r == old(self).sense(),
            *final(self) == State::cleared(),
            final(self).sense() == (0u8, 0u8, 0u8),
    {
        let r = self.peek_sense();
        self.reset();
        r
    }

    /// The reason that the recorded code and qualifier stand for. A pair
    /// outside the table is an error, never a crash: the sense is then
    /// unclassified.
    pub fn sense_reason(&self) -> (r: Result<AdditionalSenseCode, AdditionalSenseCodeError>)
        ensures
            r == match AdditionalSenseCode::spec_from(self.sense().1, self.sense().2) {
                Some(code) => Ok::<AdditionalSenseCode, AdditionalSenseCodeError>(code),
                None => Err::<AdditionalSenseCode, AdditionalSenseCodeError>(
                    AdditionalSenseCodeError::InvalidEnumDiscriminant,
                ),
            },
    {
        let sense = self.peek_sense();
        match AdditionalSenseCode::from(sense.1, sense.2) {
            Some(code) => Ok(code),
            None => Err(AdditionalSenseCodeError::InvalidEnumDiscriminant),
        }
    }
}

impl Default for State {
    fn default() -> (r: Self)
        ensures
            r == State::cleared(),
    {
        State::new()
    }
}

} // verus!
