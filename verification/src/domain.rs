//! The shared card-catalog domain: rarities, fetch timestamps and the
//! normalized card row the exporters consume.

use vstd::prelude::*;

use crate::dates::action_code_spec;
use crate::dates::civil_from_days;
use crate::dates::created_datetime_spec;
use crate::dates::render_pad2;
use crate::dates::render_pad4;
use crate::text::string_from;
use crate::text::str_eq;

verus! {

/// A card rarity as the catalog stores it.
#[derive(Debug, Clone, Copy, PartialEq, Eq, Hash, Structural)]
pub enum Rarity {
    UR,
    SSR,
    ACE,
    HR,
    SR,
    SAR,
    CSR,
    AR,
    CHR,
    S,
    A,
    H,
    K,
    PR,
    RRR,
    RR,
    R,
    U,
    C,
    TR,
    TD,
    Unknown,
}

/// The catalog label of a rarity.
pub open spec fn rarity_label(r: Rarity) -> Seq<char> {
    match r {
        Rarity::UR => "UR"@,
        Rarity::SSR => "SSR"@,
        Rarity::ACE => "ACE"@,
        Rarity::HR => "HR"@,
        Rarity::SR => "SR"@,
        Rarity::SAR => "SAR"@,
        Rarity::CSR => "CSR"@,
        Rarity::AR => "AR"@,
        Rarity::CHR => "CHR"@,
        Rarity::S => "S"@,
        Rarity::A => "A"@,
        Rarity::H => "H"@,
        Rarity::K => "K"@,
        Rarity::PR => "PR"@,
        Rarity::RRR => "RRR"@,
        Rarity::RR => "RR"@,
        Rarity::R => "R"@,
        Rarity::U => "U"@,
        Rarity::C => "C"@,
        Rarity::TR => "TR"@,
        Rarity::TD => "TD"@,
        Rarity::Unknown => "Unknown"@,
    }
}

/// The label a rarity parses from: each catalog label names its rarity,
/// and the one alias the sources use.
pub open spec fn rarity_from(s: Seq<char>) -> Option<Rarity> {
    if s == "UR"@ {
        Some(Rarity::UR)
    } else if s == "SSR"@ {
        Some(Rarity::SSR)
    } else if s == "ACE"@ {
        Some(Rarity::ACE)
    } else if s == "HR"@ {
        Some(Rarity::HR)
    } else if s == "SR"@ {
        Some(Rarity::SR)
    } else if s == "SAR"@ {
        Some(Rarity::SAR)
    } else if s == "CSR"@ {
        Some(Rarity::CSR)
    } else if s == "AR"@ {
        Some(Rarity::AR)
    } else if s == "CHR"@ {
        Some(Rarity::CHR)
    } else if s == "S"@ {
        Some(Rarity::S)
    } else if s == "A"@ {
        Some(Rarity::A)
    } else if s == "H"@ {
        Some(Rarity::H)
    } else if s == "K"@ {
        Some(Rarity::K)
    } else if s == "PR"@ {
        Some(Rarity::PR)
    } else if s == "RRR"@ {
        Some(Rarity::RRR)
    } else if s == "RR"@ {
        Some(Rarity::RR)
    } else if s == "R"@ {
        Some(Rarity::R)
    } else if s == "U"@ || s == "UC"@ {
        Some(Rarity::U)
    } else if s == "C"@ {
        Some(Rarity::C)
    } else if s == "TR"@ {
        Some(Rarity::TR)
    } else if s == "TD"@ {
        Some(Rarity::TD)
    } else if s == "Unknown"@ {
        Some(Rarity::Unknown)
    } else {
        None
    }
}

/// The page label the card-search site gives each rarity filter.
pub open spec fn rarity_search_label(r: Rarity) -> u32 {
    match r {
        Rarity::C => 1,
        Rarity::U => 2,
        Rarity::R => 3,
        Rarity::RR => 4,
        Rarity::RRR => 5,
        Rarity::PR => 6,
        Rarity::TR => 7,
        Rarity::SR => 8,
        Rarity::HR => 9,
        Rarity::UR => 10,
        Rarity::Unknown => 11,
        Rarity::K => 12,
        Rarity::A => 13,
        Rarity::AR => 14,
        Rarity::SAR => 15,
        Rarity::S => 16,
        Rarity::SSR => 17,
        Rarity::ACE => 18,
        _ => 0,
    }
}

impl Rarity {
    /// The catalog label of this rarity.
    pub fn label(&self) -> (r: &'static str)
        ensures
            r@ == rarity_label(*self),
    {
        match self {
            Rarity::UR => "UR",
            Rarity::SSR => "SSR",
            Rarity::ACE => "ACE",
            Rarity::HR => "HR",
            Rarity::SR => "SR",
            Rarity::SAR => "SAR",
            Rarity::CSR => "CSR",
            Rarity::AR => "AR",
            Rarity::CHR => "CHR",
            Rarity::S => "S",
            Rarity::A => "A",
            Rarity::H => "H",
            Rarity::K => "K",
            Rarity::PR => "PR",
            Rarity::RRR => "RRR",
            Rarity::RR => "RR",
            Rarity::R => "R",
            Rarity::U => "U",
            Rarity::C => "C",
            Rarity::TR => "TR",
            Rarity::TD => "TD",
            Rarity::Unknown => "Unknown",
        }
    }

    /// Parse a rarity from its label, `None` on anything else.
    pub fn parse(s: &str) -> (r: Option<Rarity>)
        ensures
            r == rarity_from(s@),
    {
        if str_eq(s, "UR") {
            Some(Rarity::UR)
        } else if str_eq(s, "SSR") {
            Some(Rarity::SSR)
        } else if str_eq(s, "ACE") {
            Some(Rarity::ACE)
        } else if str_eq(s, "HR") {
            Some(Rarity::HR)
        } else if str_eq(s, "SR") {
            Some(Rarity::SR)
        } else if str_eq(s, "SAR") {
            Some(Rarity::SAR)
        } else if str_eq(s, "CSR") {
            Some(Rarity::CSR)
        } else if str_eq(s, "AR") {
            Some(Rarity::AR)
        } else if str_eq(s, "CHR") {
            Some(Rarity::CHR)
        } else if str_eq(s, "S") {
            Some(Rarity::S)
        } else if str_eq(s, "A") {
            Some(Rarity::A)
        } else if str_eq(s, "H") {
            Some(Rarity::H)
        } else if str_eq(s, "K") {
            Some(Rarity::K)
        } else if str_eq(s, "PR") {
            Some(Rarity::PR)
        } else if str_eq(s, "RRR") {
            Some(Rarity::RRR)
        } else if str_eq(s, "RR") {
            Some(Rarity::RR)
        } else if str_eq(s, "R") {
            Some(Rarity::R)
        } else if str_eq(s, "U") || str_eq(s, "UC") {
            Some(Rarity::U)
        } else if str_eq(s, "C") {
            Some(Rarity::C)
        } else if str_eq(s, "TR") {
            Some(Rarity::TR)
        } else if str_eq(s, "TD") {
            Some(Rarity::TD)
        } else if str_eq(s, "Unknown") {
            Some(Rarity::Unknown)
        } else {
            None
        }
    }

    /// Parse a rarity from its label, `Unknown` on anything else.
    pub fn parse_or_unknown(s: &str) -> (r: Rarity)
        ensures
            r == match rarity_from(s@) {
                Some(x) => x,
                None => Rarity::Unknown,
            },
    {
        match Rarity::parse(s) {
            Some(x) => x,
            None => Rarity::Unknown,
        }
    }

    /// The card-search site's page label for this rarity.
    pub fn search_label(&self) -> (r: u32)
        ensures
            r == rarity_search_label(*self),
    {
        match self {
            Rarity::C => 1,
            Rarity::U => 2,
            Rarity::R => 3,
            Rarity::RR => 4,
            Rarity::RRR => 5,
            Rarity::PR => 6,
            Rarity::TR => 7,
            Rarity::SR => 8,
            Rarity::HR => 9,
            Rarity::UR => 10,
            Rarity::Unknown => 11,
            Rarity::K => 12,
            Rarity::A => 13,
            Rarity::AR => 14,
            Rarity::SAR => 15,
            Rarity::S => 16,
            Rarity::SSR => 17,
            Rarity::ACE => 18,
            _ => 0,
        }
    }

    /// Every rarity, in catalog order.
    pub fn all() -> (r: Vec<Rarity>)
        ensures
            r@ == seq![
                Rarity::UR, Rarity::SSR, Rarity::ACE, Rarity::HR, Rarity::SR, Rarity::SAR,
                Rarity::CSR, Rarity::AR, Rarity::CHR, Rarity::S, Rarity::A, Rarity::H, Rarity::K,
                Rarity::PR, Rarity::RRR, Rarity::RR, Rarity::R, Rarity::U, Rarity::C, Rarity::TR,
                Rarity::TD, Rarity::Unknown,
            ],
    {
        let mut v: Vec<Rarity> = Vec::new();
        v.push(Rarity::UR);
        v.push(Rarity::SSR);
        v.push(Rarity::ACE);
        v.push(Rarity::HR);
        v.push(Rarity::SR);
        v.push(Rarity::SAR);
        v.push(Rarity::CSR);
        v.push(Rarity::AR);
        v.push(Rarity::CHR);
        v.push(Rarity::S);
        v.push(Rarity::A);
        v.push(Rarity::H);
        v.push(Rarity::K);
        v.push(Rarity::PR);
        v.push(Rarity::RRR);
        v.push(Rarity::RR);
        v.push(Rarity::R);
        v.push(Rarity::U);
        v.push(Rarity::C);
        v.push(Rarity::TR);
        v.push(Rarity::TD);
        v.push(Rarity::Unknown);
        proof {
            assert(v@ =~= seq![
                Rarity::UR, Rarity::SSR, Rarity::ACE, Rarity::HR, Rarity::SR, Rarity::SAR,
                Rarity::CSR, Rarity::AR, Rarity::CHR, Rarity::S, Rarity::A, Rarity::H, Rarity::K,
                Rarity::PR, Rarity::RRR, Rarity::RR, Rarity::R, Rarity::U, Rarity::C, Rarity::TR,
                Rarity::TD, Rarity::Unknown,
            ]);
        }
        v
    }
}

/// When a row was fetched, as seconds since the Unix epoch.
#[derive(Debug, Clone, Copy, PartialEq, Eq, Structural)]
pub struct LastFetchedAt {
    pub unix_seconds: u64,
}

impl LastFetchedAt {
    /// A fetch timestamp; the caller supplies the clock reading.
    pub fn new(unix_seconds: u64) -> (r: LastFetchedAt)
        ensures
            r.unix_seconds == unix_seconds,
    {
        LastFetchedAt { unix_seconds }
    }

    /// The compact timestamp used as an export action code.
    pub fn action_code(&self) -> (r: Option<String>)
        ensures
            r is Some,
            r->0@ == action_code_spec(self.unix_seconds as int),
    {
        let ts = self.unix_seconds;
        let days = ts / 86400;
        let rem = ts % 86400;
        let (y, mo, dy) = civil_from_days(days);
        let mut out = render_pad4(y);
        let mut part = render_pad2(mo);
        out.append(&mut part);
        let mut part = render_pad2(dy);
        out.append(&mut part);
        let mut part = render_pad2(rem / 3600);
        out.append(&mut part);
        let mut part = render_pad2((rem % 3600) / 60);
        out.append(&mut part);
        let mut part = render_pad2(rem % 60);
        out.append(&mut part);
        Some(string_from(&out))
    }

    /// The day/month/year hour:minute timestamp of an export row.
    pub fn created_datetime(&self) -> (r: Option<String>)
        ensures
            r is Some,
            r->0@ == created_datetime_spec(self.unix_seconds as int),
    {
        let ts = self.unix_seconds;
        let days = ts / 86400;
        let rem = ts % 86400;
        let (y, mo, dy) = civil_from_days(days);
        let mut out = render_pad2(dy);
        out.push('/');
        let mut part = render_pad2(mo);
        out.append(&mut part);
        out.push('/');
        let mut part = render_pad4(y);
        out.append(&mut part);
        out.push(' ');
        let mut part = render_pad2(rem / 3600);
        out.append(&mut part);
        out.push(':');
        let mut part = render_pad2((rem % 3600) / 60);
        out.append(&mut part);
        Some(string_from(&out))
    }
}

/// The normalized card row the exporters consume.
#[derive(Debug, Clone)]
pub struct PokemonCard {
    pub id: String,
    pub set_id: String,
    pub set_name: String,
    pub set_ref: String,
    pub name: String,
    pub number: Option<String>,
    pub sale_price: Option<i64>,
    pub rarity: Option<String>,
    pub last_fetched_at: LastFetchedAt,
    pub remark: Option<String>,
}

/// Why scraped data could not be used as a card row.
#[derive(Debug, Clone, PartialEq, Eq, Structural)]
pub enum DataError {
    PokemonCardBuilder,
    LinkTitleParsing,
    FetchCardSet,
}

} // verus!
