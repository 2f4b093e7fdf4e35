//! The One Piece export: product rows and one export row per card.

use vstd::prelude::*;

use crate::dates::action_code_spec;
use crate::dates::created_datetime_spec;
use crate::export_csv::ExportCsv;
use crate::one_piece::op_rarity_label;
use crate::one_piece::OnePieceCard;
use crate::one_piece::OnePieceProduct;
use crate::text::clean_title;
use crate::text::clean_title_spec;
use crate::text::first_ix;
use crate::text::split_once_char;

verus! {

/// One product export row.
#[derive(Debug, Clone)]
pub struct OnePieceProductsCsv {
    pub title: String,
    pub date: String,
}

/// Clean a scraped product title or set name for the export.
pub fn sanitize(s: &str) -> (r: String)
    ensures
        r@ == clean_title_spec(s@),
{
    clean_title(s)
}

impl OnePieceProductsCsv {
    /// The export row of one product.
    pub fn from_product(p: OnePieceProduct) -> (r: OnePieceProductsCsv)
        ensures
            r.title@ == clean_title_spec(p.title@),
            r.date == p.date,
    {
        OnePieceProductsCsv { title: sanitize(p.title.as_str()), date: p.date }
    }
}

/// The export row of one card.  A card code names its set in front of
/// the dash; a code without one has no row.
pub fn export_row(card: OnePieceCard) -> (r: ExportCsv)
    requires
        first_ix(card.code@, '-') >= 0,
    ensures
        ({
            let set_code = card.code@.take(first_ix(card.code@, '-'));
            &&& r.brand is Some && r.brand->0@ == "One Piece"@
            &&& r.set is Some && r.set->0@ == clean_title_spec(card.set_name@)
            &&& r.rarity is Some && r.rarity->0@ == op_rarity_label(card.rarity)
            &&& r.language is Some && r.language->0@ == "ja"@
            &&& r.card_name_japanese is Some && r.card_name_japanese->0 == card.name
            &&& r.card_number is Some && r.card_number->0 == card.code
            &&& r.image is Some && r.image->0 == card.img_src
            &&& r.reference is Some && r.reference->0@ == set_code
            &&& r.remark1 is Some && r.remark1->0@ == action_code_spec(
                card.last_fetched_at.unix_seconds as int,
            )
            &&& r.remark2 is Some && r.remark2->0@ == created_datetime_spec(
                card.last_fetched_at.unix_seconds as int,
            )
            &&& r.remark4 is Some && r.remark4->0 == card.code
            &&& r.remark9 is Some && r.remark9->0@ == set_code
            &&& r.product_id is None && r.edition is None && r.series is None
                && r.material is None && r.release_year is None && r.card_name_english is None
                && r.card_name_chinese is None && r.value is None && r.remark is None
                && r.remark3 is None && r.remark5 is None && r.remark6 is None
                && r.remark7 is None && r.remark8 is None && r.remark10 is None
                && r.enable is None && r.p_language is None && r.id is None
        }),
{
    let parts = match split_once_char(card.code.as_str(), '-') {
        Some(p) => p,
        None => (String::new(), String::new()),
    };
    let set_code = parts.0;
    let mut row = ExportCsv::empty();
    row.brand = Some(String::from_str("One Piece"));
    row.set = Some(sanitize(card.set_name.as_str()));
    row.rarity = Some(String::from_str(card.rarity.label()));
    row.language = Some(String::from_str("ja"));
    row.card_name_japanese = Some(card.name);
    row.card_number = Some(card.code.clone());
    row.image = Some(card.img_src);
    row.reference = Some(set_code.clone());
    row.remark1 = match card.last_fetched_at.action_code() {
        Some(code) => Some(code),
        None => None,
    };
    row.remark2 = match card.last_fetched_at.created_datetime() {
        Some(ts) => Some(ts),
        None => None,
    };
    row.remark4 = Some(card.code);
    row.remark9 = Some(set_code);
    row
}

} // verus!
