//! Card and expansion rows of the collector site, and its rarity-title
//! table.

use vstd::prelude::*;

use crate::dates::CivilDate;
use crate::domain::Rarity;
use crate::text::str_eq;

verus! {

/// A client of the collector site.
#[derive(Debug, Clone)]
pub struct TcgCollectorScraper {}

/// One expansion as the collector site lists it, its release date as
/// plain values.
#[derive(Debug, Clone)]
pub struct PtcgJpExpansion {
    pub name: String,
    pub code: String,
    pub link: Option<String>,
    pub symbol_src: Option<String>,
    pub logo_src: Option<String>,
    pub release_date: CivilDate,
}

/// A card's rarity under its detail-page address.
#[derive(Debug, Clone)]
pub struct TcgCollectorCardRarity {
    pub rarity: Rarity,
    pub url: String,
}

/// One card of an expansion list, with the raw detail page kept for a
/// later pass.
#[derive(Debug, Clone)]
pub struct TcgCollectorCardDetail {
    pub name: String,
    pub number: String,
    pub exp_code: String,
    pub html: String,
    pub url: String,
    pub rarity: Option<Rarity>,
}

/// The English-side card fields read out of one detail page.
#[derive(Debug, Clone)]
pub struct PtcgJpCard {
    pub name: String,
    pub number: String,
    pub exp_code: String,
    pub desc: Option<String>,
    pub skill1_name_en: Option<String>,
    pub skill1_damage: Option<String>,
    pub rarity: Option<Rarity>,
}

impl TcgCollectorCardDetail {
    /// The card the detail page describes, once the extractor has read
    /// the description and first skill out of the kept page.
    pub fn into_card(
        self,
        desc: Option<String>,
        skill1_name_en: Option<String>,
        skill1_damage: Option<String>,
    ) -> (r: PtcgJpCard)
        ensures
            r.name == self.name,
            r.number == self.number,
            r.exp_code == self.exp_code,
            r.rarity == self.rarity,
            r.desc == desc,
            r.skill1_name_en == skill1_name_en,
            r.skill1_damage == skill1_damage,
    {
        PtcgJpCard {
            name: self.name,
            number: self.number,
            exp_code: self.exp_code,
            rarity: self.rarity,
            desc,
            skill1_name_en,
            skill1_damage,
        }
    }
}

/// The rarity a collector-site symbol title names; anything else reads
/// as unknown.
pub open spec fn rarity_from_title(s: Seq<char>) -> Rarity {
    if s == "Ultra Rare (UR)"@ {
        Rarity::UR
    } else if s == "Shiny Super Rare (SSR)"@ {
        Rarity::SSR
    } else if s == "ACE SPEC Rare (ACE)"@ {
        Rarity::ACE
    } else if s == "Hyper Rare (HR)"@ {
        Rarity::HR
    } else if s == "Super Rare (SR)"@ {
        Rarity::SR
    } else if s == "Special Art Rare (SAR)"@ {
        Rarity::SAR
    } else if s == "Character Super Rare (CSR)"@ {
        Rarity::CSR
    } else if s == "Art Rare (AR)"@ {
        Rarity::AR
    } else if s == "Character Rare (CHR)"@ {
        Rarity::CHR
    } else if s == "Shiny (S)"@ {
        Rarity::S
    } else if s == "Amazing Rare"@ {
        Rarity::A
    } else if s == "Rare Holo"@ {
        Rarity::H
    } else if s == "Radiant Rare (K)"@ {
        Rarity::K
    } else if s == "Promo"@ {
        Rarity::PR
    } else if s == "Triple Rare (RRR)"@ {
        Rarity::RRR
    } else if s == "Double Rare (RR)"@ {
        Rarity::RR
    } else if s == "Rare (R)"@ {
        Rarity::R
    } else if s == "Uncommon (U)"@ {
        Rarity::U
    } else if s == "Common (C)"@ {
        Rarity::C
    } else if s == "Trainer Rare (TR)"@ {
        Rarity::TR
    } else {
        Rarity::Unknown
    }
}

/// Read a rarity off a collector-site symbol title.
pub fn parse_rarity_title(s: &str) -> (r: Rarity)
    ensures
        r == rarity_from_title(s@),
{
    if str_eq(s, "Ultra Rare (UR)") {
        Rarity::UR
    } else if str_eq(s, "Shiny Super Rare (SSR)") {
        Rarity::SSR
    } else if str_eq(s, "ACE SPEC Rare (ACE)") {
        Rarity::ACE
    } else if str_eq(s, "Hyper Rare (HR)") {
        Rarity::HR
    } else if str_eq(s, "Super Rare (SR)") {
        Rarity::SR
    } else if str_eq(s, "Special Art Rare (SAR)") {
        Rarity::SAR
    } else if str_eq(s, "Character Super Rare (CSR)") {
        Rarity::CSR
    } else if str_eq(s, "Art Rare (AR)") {
        Rarity::AR
    } else if str_eq(s, "Character Rare (CHR)") {
        Rarity::CHR
    } else if str_eq(s, "Shiny (S)") {
        Rarity::S
    } else if str_eq(s, "Amazing Rare") {
        Rarity::A
    } else if str_eq(s, "Rare Holo") {
        Rarity::H
    } else if str_eq(s, "Radiant Rare (K)") {
        Rarity::K
    } else if str_eq(s, "Promo") {
        Rarity::PR
    } else if str_eq(s, "Triple Rare (RRR)") {
        Rarity::RRR
    } else if str_eq(s, "Double Rare (RR)") {
        Rarity::RR
    } else if str_eq(s, "Rare (R)") {
        Rarity::R
    } else if str_eq(s, "Uncommon (U)") {
        Rarity::U
    } else if str_eq(s, "Common (C)") {
        Rarity::C
    } else if str_eq(s, "Trainer Rare (TR)") {
        Rarity::TR
    } else {
        Rarity::Unknown
    }
}

} // verus!
