//! The Weiss Schwarz export: one export row per card.

use vstd::prelude::*;

use crate::dates::action_code_spec;
use crate::dates::created_datetime_spec;
use crate::export_csv::ExportCsv;
use crate::text::clean_label;
use crate::text::clean_label_spec;
use crate::ws::WsCard;

verus! {

/// Clean a scraped set name for the export.
pub fn sanitize(s: &str) -> (r: String)
    ensures
        r@ == clean_label_spec(s@),
{
    clean_label(s)
}

/// The export row of one card.
pub fn export_row(card: WsCard) -> (r: ExportCsv)
    ensures
        r.brand is Some && r.brand->0@ == "Weiβ Schwarz"@,
        r.set is Some && r.set->0@ == clean_label_spec(card.set_name@),
        r.rarity == card.rarity,
        r.language is Some && r.language->0@ == "ja"@,
        r.card_name_japanese is Some && r.card_name_japanese->0 == card.name,
        r.card_number is Some && r.card_number->0 == card.code,
        r.image is Some && r.image->0 == card.img_src,
        r.reference is Some && r.reference->0 == card.set_code,
        r.remark1 is Some && r.remark1->0@ == action_code_spec(
            card.last_fetched_at.unix_seconds as int,
        ),
        r.remark2 is Some && r.remark2->0@ == created_datetime_spec(
            card.last_fetched_at.unix_seconds as int,
        ),
        r.remark4 is Some && r.remark4->0 == card.code,
        r.remark9 is Some && r.remark9->0 == card.set_code,
        r.product_id is None && r.edition is None && r.series is None && r.material is None
            && r.release_year is None && r.card_name_english is None
            && r.card_name_chinese is None && r.value is None && r.remark is None
            && r.remark3 is None && r.remark5 is None && r.remark6 is None && r.remark7 is None
            && r.remark8 is None && r.remark10 is None && r.enable is None
            && r.p_language is None && r.id is None,
{
    let mut row = ExportCsv::empty();
    row.brand = Some(String::from_str("Weiβ Schwarz"));
    row.set = Some(sanitize(card.set_name.as_str()));
    row.rarity = card.rarity;
    row.language = Some(String::from_str("ja"));
    row.card_name_japanese = Some(card.name);
    row.card_number = Some(card.code.clone());
    row.image = Some(card.img_src);
    row.reference = Some(card.set_code.clone());
    row.remark1 = match card.last_fetched_at.action_code() {
        Some(code) => Some(code),
        None => None,
    };
    row.remark2 = match card.last_fetched_at.created_datetime() {
        Some(ts) => Some(ts),
        None => None,
    };
    row.remark4 = Some(card.code);
    row.remark9 = Some(card.set_code);
    row
}

} // verus!
