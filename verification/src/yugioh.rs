//! Printing rows of the official card database, and the pure pieces of
//! its link handling.

use vstd::prelude::*;

use crate::text::first_ix;
use crate::text::split_once_char;
use crate::text::str_eq;

verus! {

/// One printing of one card, as the database's update table lists it.
#[derive(Debug, Clone)]
pub struct YugiohPrinting {
    pub card_id: String,
    pub name_jp: String,
    pub name_en: String,
    pub rarity: String,
    pub number: String,
    pub release_date: String,
    pub remark: String,
    pub expansion_name: String,
    pub ref_code: String,
}

/// The value of a key in a query string of `key=value` pairs joined by
/// ampersands: the first pair whose key matches, if one does.
pub open spec fn query_value(q: Seq<char>, key: Seq<char>) -> Option<Seq<char>>
    decreases q.len(),
{
    let amp = first_ix(q, '&');
    let pair = if amp < 0 {
        q
    } else {
        q.take(amp)
    };
    let eq = first_ix(pair, '=');
    if eq >= 0 && pair.take(eq) == key {
        Some(pair.skip(eq + 1))
    } else if amp >= 0 {
        let cut = if amp + 1 <= q.len() {
            amp + 1
        } else {
            q.len() as int
        };
        query_value(q.skip(cut), key)
    } else {
        None
    }
}

/// Look a key up in a query string.
pub fn query_param(query: &str, key: &str) -> (r: Option<String>)
    ensures
        match r {
            Some(v) => query_value(query@, key@) == Some(v@),
            None => query_value(query@, key@) is None,
        },
{
    let mut rest: String = query.to_owned();
    loop
        invariant
            query_value(query@, key@) == query_value(rest@, key@),
        decreases rest@.len(),
    {
        let ghost q = rest@;
        let ghost amp = first_ix(q, '&');
        proof {
            crate::text::lemma_first_ix_bound(q, '&');
        }
        let (pair, more) = match split_once_char(rest.as_str(), '&') {
            Some(p) => (p.0, Some(p.1)),
            None => (rest, None),
        };
        proof {
            if amp < 0 {
                assert(pair@ == q);
            } else {
                assert(pair@ == q.take(amp));
            }
        }
        let ghost eq = first_ix(pair@, '=');
        match split_once_char(pair.as_str(), '=') {
            Some(kv) => {
                if str_eq(kv.0.as_str(), key) {
                    proof {
                        assert(kv.0@ == pair@.take(eq));
                        assert(query_value(q, key@) == Some(kv.1@));
                    }
                    return Some(kv.1);
                }
                proof {
                    assert(pair@.take(eq) != key@);
                }
            },
            None => {
                proof {
                    assert(eq == -1);
                }
            },
        }
        match more {
            Some(next) => {
                proof {
                    assert(amp >= 0);
                    assert(next@ == q.skip(amp + 1));
                    assert(query_value(q, key@) == query_value(next@, key@));
                }
                rest = next;
            },
            None => {
                proof {
                    assert(amp < 0);
                    assert(query_value(q, key@) is None);
                }
                return None;
            },
        }
    }
}

/// The card id a printing-detail link carries in its query string, if
/// the link has a query with one.
pub fn card_id_from_link(link: &str) -> (r: Option<String>)
    ensures
        match r {
            Some(id) => {
                let qm = first_ix(link@, '?');
                &&& qm >= 0
                &&& query_value(link@.skip(qm + 1), "cid"@) == Some(id@)
            },
            None => first_ix(link@, '?') == -1 || query_value(
                link@.skip(first_ix(link@, '?') + 1),
                "cid"@,
            ) is None,
        },
{
    match split_once_char(link, '?') {
        Some(p) => {
            let key = String::from_str("cid");
            query_param(p.1.as_str(), key.as_str())
        },
        None => None,
    }
}

/// The expansion reference and bare number of a printed card number:
/// the parts around the first dash, or the placeholders the exporter
/// uses when the number has no dash.
pub fn ref_and_number(number: &str) -> (r: (String, String))
    ensures
        ({
            let i = first_ix(number@, '-');
            if i >= 0 {
                r.0@ == number@.take(i) && r.1@ == number@.skip(i + 1)
            } else {
                r.0@ == "NONE"@ && r.1@ == "000"@
            }
        }),
{
    match split_once_char(number, '-') {
        Some(p) => p,
        None => (String::from_str("NONE"), String::from_str("000")),
    }
}

/// A card number rebuilt from its reference and bare number, joined by
/// a dash.
pub fn joined_number(ref_code: &str, number: &str) -> (r: String)
    ensures
        r@ == ref_code@ + "-"@ + number@,
{
    let mut s = String::from_str(ref_code);
    s.append("-");
    s.append(number);
    s
}

} // verus!
