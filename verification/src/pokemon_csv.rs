//! The card-catalog export: one export row per normalized card.

use vstd::prelude::*;

use crate::dates::action_code_spec;
use crate::dates::created_datetime_spec;
use crate::dates::dec_int_digits;
use crate::dates::render_i64;
use crate::domain::PokemonCard;
use crate::text::clean_label;
use crate::text::clean_label_spec;
use crate::text::string_from;

verus! {

/// One catalog export row.
#[derive(Debug, Clone)]
pub struct PokemonCSV {
    pub product_id: Option<String>,
    pub brand: Option<String>,
    pub set: Option<String>,
    pub edition: Option<String>,
    pub series: Option<String>,
    pub rarity: Option<String>,
    pub material: Option<String>,
    pub release_year: Option<String>,
    pub language: Option<String>,
    pub card_name_english: Option<String>,
    pub card_name_chinese: Option<String>,
    pub card_name_japanese: Option<String>,
    pub card_number: Option<String>,
    pub image: Option<String>,
    pub value: Option<String>,
    pub reference: Option<String>,
    pub remark: Option<String>,
    pub remark1: Option<String>,
    pub remark2: Option<String>,
    pub remark3: Option<String>,
    pub remark4: Option<String>,
    pub remark5: Option<String>,
    pub remark6: Option<String>,
    pub remark7: Option<String>,
    pub remark8: Option<String>,
    pub remark9: Option<String>,
    pub remark10: Option<String>,
    pub enable: Option<String>,
    pub p_language: Option<String>,
    pub id: Option<String>,
}

/// Clean a scraped set name for the export.
pub fn sanitize(s: &str) -> (r: String)
    ensures
        r@ == clean_label_spec(s@),
{
    clean_label(s)
}

impl PokemonCSV {
    /// The export row of one normalized card.
    pub fn from_card(card: PokemonCard) -> (r: PokemonCSV)
        ensures
            r.brand is Some && r.brand->0@ == "Pokemon"@,
            r.set is Some && r.set->0@ == clean_label_spec(card.set_name@),
            r.rarity == card.rarity,
            r.language is Some && r.language->0@ == "ja"@,
            r.card_name_japanese is Some && r.card_name_japanese->0 == card.name,
            r.card_number == card.number,
            match card.sale_price {
                Some(p) => r.value is Some && r.value->0@ == dec_int_digits(p as int),
                None => r.value is None,
            },
            r.reference is Some && r.reference->0 == card.set_ref,
            r.remark1 is Some && r.remark1->0@ == action_code_spec(
                card.last_fetched_at.unix_seconds as int,
            ),
            r.remark2 is Some && r.remark2->0@ == created_datetime_spec(
                card.last_fetched_at.unix_seconds as int,
            ),
            r.remark3 is Some && r.remark3->0 == card.set_id,
            r.remark4 is Some && r.remark4->0 == card.id,
            r.remark9 == card.remark,
            r.product_id is None && r.edition is None && r.series is None && r.material is None
                && r.release_year is None && r.card_name_english is None
                && r.card_name_chinese is None && r.image is None && r.remark is None
                && r.remark5 is None && r.remark6 is None && r.remark7 is None
                && r.remark8 is None && r.remark10 is None && r.enable is None
                && r.p_language is None && r.id is None,
    {
        let value = match card.sale_price {
            Some(p) => {
                let digits = render_i64(p);
                Some(string_from(&digits))
            },
            None => None,
        };
        let remark1 = match card.last_fetched_at.action_code() {
            Some(code) => Some(code),
            None => None,
        };
        let remark2 = match card.last_fetched_at.created_datetime() {
            Some(ts) => Some(ts),
            None => None,
        };
        PokemonCSV {
            product_id: None,
            brand: Some(String::from_str("Pokemon")),
            set: Some(sanitize(card.set_name.as_str())),
            edition: None,
            series: None,
            rarity: card.rarity,
            material: None,
            release_year: None,
            language: Some(String::from_str("ja")),
            card_name_english: None,
            card_name_chinese: None,
            card_name_japanese: Some(card.name),
            card_number: card.number,
            image: None,
            value,
            reference: Some(card.set_ref),
            remark: None,
            remark1,
            remark2,
            remark3: Some(card.set_id),
            remark4: Some(card.id),
            remark5: None,
            remark6: None,
            remark7: None,
            remark8: None,
            remark9: card.remark,
            remark10: None,
            enable: None,
            p_language: None,
            id: None,
        }
    }
}

} // verus!
