//! The validation stage of a run: raw events go in one at a time, valid ones
//! are kept for the sink and invalid ones are counted and reported.

use vstd::prelude::*;

use crate::error::AppError;
use crate::model::{NormalizedEvent, RawEvent};
use crate::validate::{normalize, normalize_event};

verus! {

/// The events validated so far in a run.
#[derive(Debug)]
pub struct ValidationBatch {
    /// The events that passed validation, in the order they came.
    pub valid: Vec<NormalizedEvent>,
    /// How many events were refused.
    pub invalid_count: usize,
}

impl ValidationBatch {
    /// A batch that has seen no event yet.
    pub fn new() -> (b: ValidationBatch)
        ensures
            b.valid@.len() == 0,
            b.invalid_count == 0,
    {
        ValidationBatch { valid: Vec::new(), invalid_count: 0 }
    }

    /// Validates one more event: a valid one is kept at the end of `valid`, an
    /// invalid one is counted and its error handed back for reporting. Every
    /// event lands in exactly one of the two.
    pub fn accept(&mut self, raw: RawEvent) -> (refused: Option<AppError>)
        requires
            old(self).invalid_count < usize::MAX,
        ensures
            final(self).valid@.len() + final(self).invalid_count == old(self).valid@.len()
                + old(self).invalid_count + 1,
            match normalize(raw@) {
                Ok(v) => {
                    &&& refused is None
                    &&& final(self).valid@.len() == old(self).valid@.len() + 1
                    &&& final(self).valid@.drop_last() == old(self).valid@
                    &&& final(self).valid@.last()@ == v
                    &&& final(self).invalid_count == old(self).invalid_count
                },
                Err(msg) => {
                    &&& refused matches Some(AppError::Validation(m)) && m@ == msg
                    &&& final(self).valid@ == old(self).valid@
                    &&& final(self).invalid_count == old(self).invalid_count + 1
                },
            },
    {
        match normalize_event(raw) {
            Ok(event) => {
                self.valid.push(event);
                None
            },
            Err(err) => {
                self.invalid_count = self.invalid_count + 1;
                Some(err)
            },
        }
    }
}

} // verus!
