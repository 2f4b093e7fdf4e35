//! The query parameters of the catalog's browse pages, as plain values.

use vstd::prelude::*;

verus! {

/// A free-text card search.
#[derive(Debug, Clone)]
pub struct SearchParam {
    pub query: String,
}

/// A request to list one expansion's cards.
#[derive(Debug, Clone)]
pub struct ListQuery {
    pub code: String,
}

/// A request for one card's detail panel.
#[derive(Debug, Clone)]
pub struct ModalQuery {
    pub name: String,
    pub number: String,
    pub exp_code: String,
}

} // verus!
