//! Card and expansion rows of the official card-search site, and the
//! pure pieces of its page handling.

use vstd::prelude::*;

use crate::dates::CivilDate;
use crate::text::last_ix;
use crate::text::rsplit_once_char;

verus! {

/// One expansion as the card-search site lists it.
#[derive(Debug, Clone)]
pub struct ThePTCGSet {
    pub expansion_code: String,
    pub series: String,
    pub name: String,
    pub release_date: String,
}

/// One expansion row of the catalog, its release date as plain values.
#[derive(Debug, Clone)]
pub struct PtcgExpansion {
    pub code: String,
    pub series: String,
    pub name: String,
    pub release_date: CivilDate,
}

/// One skill printed on a card.
#[derive(Debug, Clone)]
pub struct Skill {
    pub name: String,
    pub cost: String,
    pub damage: String,
    pub effect: String,
}

/// One card detail page of the card-search site.
#[derive(Debug, Clone)]
pub struct ThePTCGCard {
    pub code: String,
    pub kind: String,
    pub evolve_marker: Option<String>,
    pub name: String,
    pub img_src: Option<String>,
    pub hp: Option<String>,
    pub skills: Vec<Skill>,
    pub weak_point: Option<String>,
    pub resist: Option<String>,
    pub escape: Option<String>,
    pub expansion_symbol: Option<String>,
    pub energy: Option<String>,
    pub number: Option<String>,
    pub artist: String,
    pub set_code: Option<String>,
}

/// The kind a detail page's section header names: the header that
/// introduces moves marks the plain card kind; any other header is the
/// kind itself.
pub fn kind_of_header(header: &str) -> (r: String)
    ensures
        r@ == if header@ == "招式"@ {
            "寶可夢卡"@
        } else {
            header@
        },
{
    if crate::text::str_eq(header, "招式") {
        String::from_str("寶可夢卡")
    } else {
        String::from_str(header)
    }
}

/// The card code at the tail of a detail-page link: the text between the
/// last two slashes, for a link that ends in a slash.
pub fn code_from_card_href(href: &str) -> (r: Option<String>)
    ensures
        match r {
            Some(code) => {
                let trimmed = href@.take(href@.len() - 1);
                &&& href@.len() > 0
                &&& href@.last() == '/'
                &&& last_ix(trimmed, '/') >= 0
                &&& code@ == trimmed.skip(last_ix(trimmed, '/') + 1)
            },
            None => href@.len() == 0 || href@.last() != '/' || last_ix(
                href@.take(href@.len() - 1),
                '/',
            ) == -1,
        },
{
    let v = crate::text::chars_of(href);
    let n = v.len();
    if n == 0 {
        return None;
    }
    if v[n - 1] != '/' {
        proof {
            assert(href@.last() == v@[n - 1]);
        }
        return None;
    }
    let mut head: Vec<char> = Vec::new();
    let mut i: usize = 0;
    while i < n - 1
        invariant
            i <= n - 1,
            n == v@.len(),
            n >= 1,
            head@ == v@.take(i as int),
        decreases n - 1 - i,
    {
        head.push(v[i]);
        i += 1;
        proof {
            assert(head@ =~= v@.take(i as int));
        }
    }
    let trimmed = crate::text::string_from(&head);
    proof {
        assert(trimmed@ == href@.take(href@.len() - 1));
    }
    match rsplit_once_char(trimmed.as_str(), '/') {
        Some(p) => Some(p.1),
        None => None,
    }
}

} // verus!
