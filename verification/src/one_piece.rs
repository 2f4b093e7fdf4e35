//! Card rows of the One Piece card list, and the label tables its pages
//! use.

use vstd::prelude::*;

use crate::domain::LastFetchedAt;
use crate::text::first_ix;
use crate::text::split_once_char;
use crate::text::str_eq;

verus! {

/// A card type as the list page labels it, in either language.
#[derive(Debug, Clone, Copy, PartialEq, Eq, Structural)]
pub enum OnePieceCardType {
    Leader,
    Event,
    Character,
    Stage,
}

/// The type a label names.
pub open spec fn card_type_from(s: Seq<char>) -> Option<OnePieceCardType> {
    if s == "LEADER"@ {
        Some(OnePieceCardType::Leader)
    } else if s == "EVENT"@ || s == "事件"@ {
        Some(OnePieceCardType::Event)
    } else if s == "CHARACTER"@ || s == "キャラ"@ {
        Some(OnePieceCardType::Character)
    } else if s == "STAGE"@ {
        Some(OnePieceCardType::Stage)
    } else {
        None
    }
}

impl OnePieceCardType {
    /// Parse a card type from its page label, `None` on anything else.
    pub fn parse(s: &str) -> (r: Option<OnePieceCardType>)
        ensures
            r == card_type_from(s@),
    {
        if str_eq(s, "LEADER") {
            Some(OnePieceCardType::Leader)
        } else if str_eq(s, "EVENT") || str_eq(s, "事件") {
            Some(OnePieceCardType::Event)
        } else if str_eq(s, "CHARACTER") || str_eq(s, "キャラ") {
            Some(OnePieceCardType::Character)
        } else if str_eq(s, "STAGE") {
            Some(OnePieceCardType::Stage)
        } else {
            None
        }
    }
}

/// A card rarity as the list page labels it.
#[derive(Debug, Clone, Copy, PartialEq, Eq, Structural)]
pub enum OnePieceCardRarity {
    SP,
    R,
    SEC,
    C,
    P,
    UC,
    SR,
    L,
}

/// The rarity a label names, special-print labels in either language.
pub open spec fn op_rarity_from(s: Seq<char>) -> Option<OnePieceCardRarity> {
    if s == "SP"@ || s == "SP卡"@ || s == "SPカード"@ {
        Some(OnePieceCardRarity::SP)
    } else if s == "R"@ {
        Some(OnePieceCardRarity::R)
    } else if s == "SEC"@ {
        Some(OnePieceCardRarity::SEC)
    } else if s == "C"@ {
        Some(OnePieceCardRarity::C)
    } else if s == "P"@ {
        Some(OnePieceCardRarity::P)
    } else if s == "UC"@ {
        Some(OnePieceCardRarity::UC)
    } else if s == "SR"@ {
        Some(OnePieceCardRarity::SR)
    } else if s == "L"@ {
        Some(OnePieceCardRarity::L)
    } else {
        None
    }
}

/// The catalog label of a One Piece rarity.
pub open spec fn op_rarity_label(r: OnePieceCardRarity) -> Seq<char> {
    match r {
        OnePieceCardRarity::SP => "SP"@,
        OnePieceCardRarity::R => "R"@,
        OnePieceCardRarity::SEC => "SEC"@,
        OnePieceCardRarity::C => "C"@,
        OnePieceCardRarity::P => "P"@,
        OnePieceCardRarity::UC => "UC"@,
        OnePieceCardRarity::SR => "SR"@,
        OnePieceCardRarity::L => "L"@,
    }
}

impl OnePieceCardRarity {
    /// Parse a rarity from its page label, `None` on anything else.
    pub fn parse(s: &str) -> (r: Option<OnePieceCardRarity>)
        ensures
            r == op_rarity_from(s@),
    {
        if str_eq(s, "SP") || str_eq(s, "SP卡") || str_eq(s, "SPカード") {
            Some(OnePieceCardRarity::SP)
        } else if str_eq(s, "R") {
            Some(OnePieceCardRarity::R)
        } else if str_eq(s, "SEC") {
            Some(OnePieceCardRarity::SEC)
        } else if str_eq(s, "C") {
            Some(OnePieceCardRarity::C)
        } else if str_eq(s, "P") {
            Some(OnePieceCardRarity::P)
        } else if str_eq(s, "UC") {
            Some(OnePieceCardRarity::UC)
        } else if str_eq(s, "SR") {
            Some(OnePieceCardRarity::SR)
        } else if str_eq(s, "L") {
            Some(OnePieceCardRarity::L)
        } else {
            None
        }
    }

    /// The catalog label of this rarity.
    pub fn label(&self) -> (r: &'static str)
        ensures
            r@ == op_rarity_label(*self),
    {
        match self {
            OnePieceCardRarity::SP => "SP",
            OnePieceCardRarity::R => "R",
            OnePieceCardRarity::SEC => "SEC",
            OnePieceCardRarity::C => "C",
            OnePieceCardRarity::P => "P",
            OnePieceCardRarity::UC => "UC",
            OnePieceCardRarity::SR => "SR",
            OnePieceCardRarity::L => "L",
        }
    }
}

/// One card row as the list page shows it.
#[derive(Debug, Clone)]
pub struct OnePieceCard {
    pub name: String,
    pub code: String,
    pub img_src: String,
    pub rarity: OnePieceCardRarity,
    pub set_name: String,
    pub card_type: OnePieceCardType,
    pub last_fetched_at: LastFetchedAt,
    pub get_info: String,
}

/// One product as the products page lists it.
#[derive(Debug, Clone)]
pub struct OnePieceProduct {
    pub title: String,
    pub date: String,
}

/// A stored card row, before its fetch timestamp is attached.
#[derive(Debug, Clone)]
pub struct OnePieceCardDto {
    pub name: String,
    pub code: String,
    pub img_src: String,
    pub rarity: OnePieceCardRarity,
    pub set_name: String,
    pub card_type: OnePieceCardType,
    pub get_info: String,
}

impl OnePieceCardDto {
    /// The card row this stored row describes, stamped with the given
    /// fetch timestamp.
    pub fn into_card(self, fetched_at: LastFetchedAt) -> (r: OnePieceCard)
        ensures
            r.name == self.name,
            r.code == self.code,
            r.img_src == self.img_src,
            r.rarity == self.rarity,
            r.set_name == self.set_name,
            r.card_type == self.card_type,
            r.get_info == self.get_info,
            r.last_fetched_at == fetched_at,
    {
        OnePieceCard {
            name: self.name,
            code: self.code,
            img_src: self.img_src,
            rarity: self.rarity,
            set_name: self.set_name,
            card_type: self.card_type,
            get_info: self.get_info,
            last_fetched_at: fetched_at,
        }
    }
}

/// The card code of an image file name: the part before the first dot,
/// for a file name that has one.
pub fn code_from_image_name(file_name: &str) -> (r: Option<String>)
    ensures
        match r {
            Some(code) => first_ix(file_name@, '.') >= 0 && code@ == file_name@.take(
                first_ix(file_name@, '.'),
            ),
            None => first_ix(file_name@, '.') == -1,
        },
{
    match split_once_char(file_name, '.') {
        Some(p) => Some(p.0),
        None => None,
    }
}

} // verus!
