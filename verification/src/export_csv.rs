//! The export row: one flat record per card, shared by every source's
//! exporter.

use vstd::prelude::*;

verus! {

/// One export row.  Every source maps its cards onto these columns; the
/// writer serializes them downstream.
#[derive(Debug, Clone)]
pub struct ExportCsv {
    pub product_id: Option<String>,
    pub brand: Option<String>,
    pub set: Option<String>,
    pub edition: Option<String>,
    pub series: Option<String>,
    pub rarity: Option<String>,
    pub material: Option<String>,
    pub release_year: Option<String>,
    pub language: Option<String>,
    pub card_name_english: Option<String>,
    pub card_name_chinese: Option<String>,
    pub card_name_japanese: Option<String>,
    pub card_number: Option<String>,
    pub image: Option<String>,
    pub value: Option<String>,
    pub reference: Option<String>,
    pub remark: Option<String>,
    pub remark1: Option<String>,
    pub remark2: Option<String>,
    pub remark3: Option<String>,
    pub remark4: Option<String>,
    pub remark5: Option<String>,
    pub remark6: Option<String>,
    pub remark7: Option<String>,
    pub remark8: Option<String>,
    pub remark9: Option<String>,
    pub remark10: Option<String>,
    pub enable: Option<String>,
    pub p_language: Option<String>,
    pub id: Option<String>,
}

impl ExportCsv {
    /// A row with every column empty.
    pub fn empty() -> (r: ExportCsv)
        ensures
            r.product_id is None,
            r.brand is None,
            r.set is None,
            r.edition is None,
            r.series is None,
            r.rarity is None,
            r.material is None,
            r.release_year is None,
            r.language is None,
            r.card_name_english is None,
            r.card_name_chinese is None,
            r.card_name_japanese is None,
            r.card_number is None,
            r.image is None,
            r.value is None,
            r.reference is None,
            r.remark is None,
            r.remark1 is None,
            r.remark2 is None,
            r.remark3 is None,
            r.remark4 is None,
            r.remark5 is None,
            r.remark6 is None,
            r.remark7 is None,
            r.remark8 is None,
            r.remark9 is None,
            r.remark10 is None,
            r.enable is None,
            r.p_language is None,
            r.id is None,
    {
        ExportCsv {
            product_id: None,
            brand: None,
            set: None,
            edition: None,
            series: None,
            rarity: None,
            material: None,
            release_year: None,
            language: None,
            card_name_english: None,
            card_name_chinese: None,
            card_name_japanese: None,
            card_number: None,
            image: None,
            value: None,
            reference: None,
            remark: None,
            remark1: None,
            remark2: None,
            remark3: None,
            remark4: None,
            remark5: None,
            remark6: None,
            remark7: None,
            remark8: None,
            remark9: None,
            remark10: None,
            enable: None,
            p_language: None,
            id: None,
        }
    }
}

} // verus!
