//! Card rows of the Weiss Schwarz card list, and the pure pieces of its
//! paginated sweep.

use vstd::prelude::*;

use crate::domain::LastFetchedAt;
use crate::text::all_digits;
use crate::text::chars_of;
use crate::text::digits_val;
use crate::text::first_ix;
use crate::text::parse_digits;
use crate::text::replace_lit;
use crate::text::replace_lit_chars;
use crate::text::split_once_char;

verus! {

/// One card row as the list page shows it.
#[derive(Debug, Clone)]
pub struct WsCard {
    pub name: String,
    pub code: String,
    pub set_code: String,
    pub img_src: String,
    pub rarity: Option<String>,
    pub set_name: String,
    pub last_fetched_at: LastFetchedAt,
}

/// A stored card row, before its fetch timestamp is attached.
#[derive(Debug, Clone)]
pub struct WsCardDto {
    pub name: String,
    pub code: String,
    pub set_code: String,
    pub img_src: String,
    pub rarity: Option<String>,
    pub set_name: String,
}

impl WsCardDto {
    /// The card row this stored row describes, stamped with the given
    /// fetch timestamp.
    pub fn into_card(self, fetched_at: LastFetchedAt) -> (r: WsCard)
        ensures
            r.name == self.name,
            r.code == self.code,
            r.set_code == self.set_code,
            r.img_src == self.img_src,
            r.rarity == self.rarity,
            r.set_name == self.set_name,
            r.last_fetched_at == fetched_at,
    {
        WsCard {
            name: self.name,
            code: self.code,
            set_code: self.set_code,
            img_src: self.img_src,
            rarity: self.rarity,
            set_name: self.set_name,
            last_fetched_at: fetched_at,
        }
    }
}

/// The total page count as the listing page prints it: digits with
/// thousands separators.  Exactly when the text, its commas dropped, is a
/// nonempty digit string whose value fits.
pub fn parse_total_pages(s: &str) -> (r: Option<u32>)
    ensures
        ({
            let t = replace_lit(s@, ","@, Seq::<char>::empty());
            match r {
                Some(x) => t.len() > 0 && all_digits(t) && digits_val(t) <= u32::MAX
                    && x == digits_val(t),
                None => t.len() == 0 || !all_digits(t) || digits_val(t) > u32::MAX,
            }
        }),
{
    let v = chars_of(s);
    let mut comma: Vec<char> = Vec::new();
    comma.push(',');
    let empty: Vec<char> = Vec::new();
    proof {
        assert(comma@ =~= ","@) by {
            reveal_strlit(",");
        }
        assert(empty@ =~= Seq::<char>::empty());
    }
    let stripped = replace_lit_chars(&v, &comma, &empty);
    parse_digits(&stripped)
}

/// The set name with its first dash removed, as the list page's heading
/// decoration is stripped; a name without a dash is unchanged.
pub fn strip_first_dash(s: &str) -> (r: String)
    ensures
        r@ == if first_ix(s@, '-') >= 0 {
            s@.take(first_ix(s@, '-')) + s@.skip(first_ix(s@, '-') + 1)
        } else {
            s@
        },
{
    match split_once_char(s, '-') {
        Some(p) => {
            let mut out = p.0;
            out.append(p.1.as_str());
            out
        },
        None => String::from_str(s),
    }
}

/// The set code in front of the slash of a card number, for a card
/// number that has one.
pub fn set_code_of(card_no: &str) -> (r: Option<String>)
    ensures
        match r {
            Some(code) => first_ix(card_no@, '/') >= 0 && code@ == card_no@.take(
                first_ix(card_no@, '/'),
            ),
            None => first_ix(card_no@, '/') == -1,
        },
{
    match split_once_char(card_no, '/') {
        Some(p) => Some(p.0),
        None => None,
    }
}

} // verus!
