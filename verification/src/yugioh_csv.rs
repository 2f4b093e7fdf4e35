//! The Yu-Gi-Oh export: one export row per printing.

use vstd::prelude::*;

use crate::dates::created_datetime_spec;
use crate::dates::dec_digits;
use crate::dates::render_u64;
use crate::domain::LastFetchedAt;
use crate::export_csv::ExportCsv;
use crate::text::first_ix;
use crate::text::split_once_char;
use crate::text::string_from;
use crate::yugioh::YugiohPrinting;

verus! {

/// The export row of one printing, stamped with the given clock reading.
/// A release date names its year in front of the dash; a date without
/// one has no row.
pub fn export_row(p: YugiohPrinting, now: LastFetchedAt) -> (r: ExportCsv)
    requires
        first_ix(p.release_date@, '-') >= 0,
    ensures
        ({
            let year = p.release_date@.take(first_ix(p.release_date@, '-'));
            &&& r.brand is Some && r.brand->0@ == "Yu-Gi-Oh!"@
            &&& r.set is Some && r.set->0 == p.expansion_name
            &&& r.rarity is Some && r.rarity->0 == p.rarity
            &&& r.release_year is Some && r.release_year->0@ == year
            &&& r.language is Some && r.language->0@ == "JP"@
            &&& r.card_name_english is Some && r.card_name_english->0 == p.name_en
            &&& r.card_name_japanese is Some && r.card_name_japanese->0 == p.name_jp
            &&& r.card_number is Some && r.card_number->0 == p.number
            &&& r.reference is Some && r.reference->0 == p.ref_code
            &&& r.remark1 is Some && r.remark1->0@ == dec_digits(now.unix_seconds as int)
            &&& r.remark2 is Some && r.remark2->0@ == created_datetime_spec(
                now.unix_seconds as int,
            )
            &&& r.remark5 is Some && r.remark5->0 == p.remark
            &&& r.product_id is None && r.edition is None && r.series is None
                && r.material is None && r.card_name_chinese is None && r.image is None
                && r.value is None && r.remark is None && r.remark3 is None
                && r.remark4 is None && r.remark6 is None && r.remark7 is None
                && r.remark8 is None && r.remark9 is None && r.remark10 is None
                && r.enable is None && r.p_language is None && r.id is None
        }),
{
    let year = match split_once_char(p.release_date.as_str(), '-') {
        Some(parts) => parts.0,
        None => String::new(),
    };
    let stamp = render_u64(now.unix_seconds);
    let mut row = ExportCsv::empty();
    row.brand = Some(String::from_str("Yu-Gi-Oh!"));
    row.set = Some(p.expansion_name);
    row.rarity = Some(p.rarity);
    row.release_year = Some(year);
    row.language = Some(String::from_str("JP"));
    row.card_name_english = Some(p.name_en);
    row.card_name_japanese = Some(p.name_jp);
    row.card_number = Some(p.number);
    row.reference = Some(p.ref_code);
    row.remark1 = Some(string_from(&stamp));
    row.remark2 = match now.created_datetime() {
        Some(ts) => Some(ts),
        None => None,
    };
    row.remark5 = Some(p.remark);
    row
}

} // verus!
