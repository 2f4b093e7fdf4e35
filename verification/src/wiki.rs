//! Card rows of the community wiki.

use vstd::prelude::*;

use crate::domain::Rarity;

verus! {

/// A client of the community wiki.
#[derive(Debug, Clone)]
pub struct PokemonWikiScraper {}

impl PokemonWikiScraper {
    pub fn new() -> (r: Self)
        ensures
            r == (PokemonWikiScraper {  }),
    {
        Self {  }
    }
}

/// One card row as the wiki's expansion table lists it.
#[derive(Debug, Clone)]
pub struct PokemonWikiCard {
    pub number: String,
    pub name: String,
    pub rarity: Rarity,
    pub exp_code: String,
}

} // verus!
