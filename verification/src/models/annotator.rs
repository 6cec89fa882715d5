//! Annotators.

use vstd::prelude::*;
use crate::validation::{length_within, text_length_within, InvalidField};

verus! {

/// A request to register an annotator under an address.
#[derive(Debug, Clone)]
pub struct CreateAnnotatorRequest {
    pub sui_address: String,
}

impl CreateAnnotatorRequest {
    /// Whether the request meets its rule: an address of 1 to 200
    /// characters.
    pub open spec fn is_valid(&self) -> bool {
        length_within(self.sui_address@.len(), 1, 200)
    }

    /// Accepts the request if it meets its rule, and names the field that
    /// broke it if not.
    pub fn validate(&self) -> (result: Result<(), Vec<InvalidField>>)
        ensures
            match result {
                Ok(_) => self.is_valid(),
                Err(fields) => !self.is_valid() && fields@ == seq![InvalidField::SuiAddress],
            },
    {
        if text_length_within(&self.sui_address, 1, 200) {
            Ok(())
        } else {
            Err(vec![InvalidField::SuiAddress])
        }
    }
}

} // verus!
