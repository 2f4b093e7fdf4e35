//! Per-expansion update strategies: which sources to consult and how,
//! read from the catalog's strategy column.

use vstd::prelude::*;

verus! {

/// One source to consult for an expansion, with its strategy.
#[derive(Debug, Clone)]
pub enum Source {
    Manual(ManualStrategy),
    Ptcg(PtcgStrategy),
    Wiki(WikiStrategy),
    TcgCollector(TcgCollectorStrategy),
}

/// Hand-maintained card data.
#[derive(Debug, Clone)]
pub enum ManualStrategy {
    Data(Data),
}

/// The hand-maintained card rows.
#[derive(Debug, Clone)]
pub struct Data {
    pub card_data: Vec<CardData>,
}

/// One hand-maintained card row.
#[derive(Debug, Clone)]
pub struct CardData {
    pub number: String,
    pub name: String,
}

/// What to take from the official card-search site.
#[derive(Debug, Clone)]
pub enum PtcgStrategy {
    All,
    Pic,
}

/// What to take from the community wiki.
#[derive(Debug, Clone)]
pub enum WikiStrategy {
    Data(WikiData),
}

/// A bounded run of table rows, both ends included.
#[derive(Debug, Clone, Copy, PartialEq, Eq, Structural)]
pub struct RowRange {
    pub lo: i32,
    pub hi: i32,
}

/// Where and how far to read the wiki.
#[derive(Debug, Clone)]
pub struct WikiData {
    url: String,
    range: Option<RowRange>,
}

impl WikiData {
    /// A wiki strategy for the given page and row range.
    pub fn new(url: String, range: Option<RowRange>) -> (r: WikiData)
        ensures
            r.url() == url,
            r.range_bounds() == range,
    {
        WikiData { url, range }
    }

    pub closed spec fn spec_url(&self) -> String {
        self.url
    }

    pub closed spec fn spec_range(&self) -> Option<RowRange> {
        self.range
    }

    /// The wiki page to read.
    #[verifier::when_used_as_spec(spec_url)]
    pub fn url(&self) -> (r: String)
        ensures
            r == self.spec_url(),
    {
        self.url.clone()
    }

    /// The row range to read, if the strategy limits one.
    #[verifier::when_used_as_spec(spec_range)]
    pub fn range_bounds(&self) -> (r: Option<RowRange>)
        ensures
            r == self.spec_range(),
    {
        self.range
    }
}

/// What to take from the collector site.
#[derive(Debug, Clone)]
pub enum TcgCollectorStrategy {
    Pic(TcgCollectorPic),
    PicByName(PicByName),
    PicMappings(PicMappings),
}

/// Pictures by card-number range.
#[derive(Debug, Clone)]
pub struct TcgCollectorPic {
    pub range: RowRange,
}

/// Pictures for whole expansions, by expansion name.
#[derive(Debug, Clone)]
pub struct PicByName {
    pub exps: Vec<String>,
}

/// One card number mapped to the printing whose picture it uses.
#[derive(Debug, Clone)]
pub struct PicMapping {
    pub number: String,
    pub printing: String,
}

/// Pictures by explicit number-to-printing mappings.
#[derive(Debug, Clone)]
pub struct PicMappings {
    pub mappings: Vec<PicMapping>,
}

} // verus!
