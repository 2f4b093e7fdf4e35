//! The card-translation site client; its page handling is outside work.

use vstd::prelude::*;

verus! {

/// A client of the card-translation site.
#[derive(Debug, Clone)]
pub struct LimitlessScraper {}

impl LimitlessScraper {
    pub fn new() -> (r: Self)
        ensures
            r == (LimitlessScraper {  }),
    {
        Self {  }
    }
}

} // verus!
