//! Character-level text helpers for titles and set names.
//!
//! Everything here works on the character sequences behind `String`, so
//! that the cleanup the exporters and the discovery stage apply to scraped
//! titles is specified exactly.

use vstd::prelude::*;

verus! {

// ---------------------------------------------------------------------------
// Characters of a string
// ---------------------------------------------------------------------------

/// Relies on str::chars: the characters of the string, in order.
#[verifier::external_body]
pub(crate) fn chars_of(s: &str) -> (r: Vec<char>)
    ensures
        r@ == s@,
{
    s.chars().collect()
}

/// Relies on String's FromIterator over chars: the string of exactly
/// these characters, in order.
#[verifier::external_body]
pub(crate) fn string_from(cs: &Vec<char>) -> (r: String)
    ensures
        r@ == cs@,
{
    cs.iter().collect()
}

// ---------------------------------------------------------------------------
// HTML entities
// ---------------------------------------------------------------------------

/// The text with its HTML entities decoded; a function of the characters
/// alone.
pub uninterp spec fn decoded_of(s: Seq<char>) -> Seq<char>;

/// Relies on html_escape::decode_html_entities: decodes the entities of
/// the text, depending on nothing but the characters.
#[verifier::external_body]
pub(crate) fn decode_entities(s: &str) -> (r: String)
    ensures
        r@ == decoded_of(s@),
        s@.len() == 0 ==> r@.len() == 0,
{
    html_escape::decode_html_entities(s).into_owned()
}

// ---------------------------------------------------------------------------
// Trimming
// ---------------------------------------------------------------------------

/// The whitespace the cleanup strips at the ends of a title.
pub open spec fn is_space(c: char) -> bool {
    c == ' ' || c == '\t' || c == '\n' || c == '\r'
}

/// The sequence without its leading whitespace.
pub open spec fn trim_front(s: Seq<char>) -> Seq<char>
    decreases s.len(),
{
    if s.len() > 0 && is_space(s[0]) {
        trim_front(s.skip(1))
    } else {
        s
    }
}

/// The sequence without its trailing whitespace.
pub open spec fn trim_back(s: Seq<char>) -> Seq<char>
    decreases s.len(),
{
    if s.len() > 0 && is_space(s.last()) {
        trim_back(s.drop_last())
    } else {
        s
    }
}

/// The sequence without leading or trailing whitespace.
pub open spec fn trim_spec(s: Seq<char>) -> Seq<char> {
    trim_front(trim_back(s))
}

/// Dropping untouched leading characters keeps the back trim pointwise.
proof fn lemma_trim_back_take(s: Seq<char>, hi: int)
    requires
        0 <= hi <= s.len(),
        forall|j: int| hi <= j < s.len() ==> is_space(#[trigger] s[j]),
        hi == 0 || !is_space(s[hi - 1]),
    ensures
        trim_back(s) == s.take(hi),
    decreases s.len(),
{
    if s.len() == 0 {
        assert(s.take(hi) =~= s);
    } else if hi == s.len() {
        assert(s.take(hi) =~= s);
    } else {
        assert(is_space(s.last()));
        lemma_trim_back_take(s.drop_last(), hi);
        assert(s.drop_last().take(hi) =~= s.take(hi));
    }
}

/// The front trim drops exactly the leading whitespace.
proof fn lemma_trim_front_skip(s: Seq<char>, lo: int)
    requires
        0 <= lo <= s.len(),
        forall|j: int| 0 <= j < lo ==> is_space(#[trigger] s[j]),
        lo == s.len() || !is_space(s[lo]),
    ensures
        trim_front(s) == s.skip(lo),
    decreases lo,
{
    if lo == 0 {
        assert(s.skip(0) =~= s);
        if s.len() > 0 {
            assert(!is_space(s[0]));
        }
    } else {
        assert(is_space(s[0]));
        assert(trim_front(s) == trim_front(s.skip(1)));
        lemma_trim_front_skip(s.skip(1), lo - 1);
        assert(s.skip(1).skip(lo - 1) =~= s.skip(lo));
    }
}

/// Whether this character counts as whitespace for the cleanup.
pub fn is_space_char(c: char) -> (r: bool)
    ensures
        r == is_space(c),
{
    c == ' ' || c == '\t' || c == '\n' || c == '\r'
}

/// The characters without leading or trailing whitespace.
pub fn trim_chars(v: &Vec<char>) -> (r: Vec<char>)
    ensures
        r@ == trim_spec(v@),
{
    let n = v.len();
    let mut hi: usize = n;
    while hi > 0 && is_space_char(v[hi - 1])
        invariant
            hi <= n,
            n == v@.len(),
            forall|j: int| hi <= j < n ==> is_space(#[trigger] v@[j]),
        decreases hi,
    {
        hi -= 1;
    }
    let mut lo: usize = 0;
    while lo < hi && is_space_char(v[lo])
        invariant
            lo <= hi,
            hi <= n,
            n == v@.len(),
            forall|j: int| 0 <= j < lo ==> is_space(#[trigger] v@[j]),
        decreases hi - lo,
    {
        lo += 1;
    }
    let mut r: Vec<char> = Vec::new();
    let mut i: usize = lo;
    while i < hi
        invariant
            lo <= i <= hi <= n,
            n == v@.len(),
            r@ == v@.subrange(lo as int, i as int),
        decreases hi - i,
    {
        r.push(v[i]);
        i += 1;
        proof {
            assert(r@ =~= v@.subrange(lo as int, i as int));
        }
    }
    proof {
        lemma_trim_back_take(v@, hi as int);
        lemma_trim_front_skip(v@.take(hi as int), lo as int);
        assert(v@.take(hi as int).skip(lo as int) =~= v@.subrange(lo as int, hi as int));
    }
    r
}

/// The string without leading or trailing whitespace.
pub fn trim_text(s: &str) -> (r: String)
    ensures
        r@ == trim_spec(s@),
{
    let cs = chars_of(s);
    let t = trim_chars(&cs);
    string_from(&t)
}

/// A scraped title, readied for the catalog: whitespace trimmed, then the
/// HTML entities decoded.
pub fn normalize_title(raw: &str) -> (r: String)
    ensures
        r@ == decoded_of(trim_spec(raw@)),
{
    let t = trim_text(raw);
    decode_entities(t.as_str())
}

/// Whether two strings hold the same characters.
pub fn str_eq(a: &str, b: &str) -> (r: bool)
    ensures
        r == (a@ == b@),
{
    let va = chars_of(a);
    let vb = chars_of(b);
    if va.len() != vb.len() {
        proof {
            assert(a@ != b@);
        }
        return false;
    }
    let n = va.len();
    let mut i: usize = 0;
    while i < n
        invariant
            i <= n,
            n == va@.len(),
            n == vb@.len(),
            va@ == a@,
            vb@ == b@,
            forall|j: int| 0 <= j < i ==> va@[j] == vb@[j],
        decreases n - i,
    {
        if va[i] != vb[i] {
            proof {
                assert(a@[i as int] != b@[i as int]);
            }
            return false;
        }
        i += 1;
    }
    proof {
        assert(a@ =~= b@);
    }
    true
}

// ---------------------------------------------------------------------------
// Finding characters
// ---------------------------------------------------------------------------

/// The index of the first occurrence of `c`, or -1.
pub open spec fn first_ix(s: Seq<char>, c: char) -> int
    decreases s.len(),
{
    if s.len() == 0 {
        -1
    } else if s[0] == c {
        0
    } else {
        let r = first_ix(s.skip(1), c);
        if r < 0 {
            -1
        } else {
            r + 1
        }
    }
}

/// The index of the last occurrence of `c`, or -1.
pub open spec fn last_ix(s: Seq<char>, c: char) -> int
    decreases s.len(),
{
    if s.len() == 0 {
        -1
    } else if s.last() == c {
        s.len() - 1
    } else {
        last_ix(s.drop_last(), c)
    }
}

/// A first occurrence at `i` pins `first_ix` down.
pub proof fn lemma_first_ix_is(s: Seq<char>, c: char, i: int)
    requires
        0 <= i < s.len(),
        s[i] == c,
        forall|j: int| 0 <= j < i ==> s[j] != c,
    ensures
        first_ix(s, c) == i,
    decreases i,
{
    if i > 0 {
        assert(s[0] != c);
        assert(s.skip(1)[i - 1] == c);
        assert(forall|j: int| 0 <= j < i - 1 ==> #[trigger] s.skip(1)[j] == s[j + 1]);
        lemma_first_ix_is(s.skip(1), c, i - 1);
    }
}

/// A first occurrence lies inside the sequence and hits `c`.
pub proof fn lemma_first_ix_bound(s: Seq<char>, c: char)
    ensures
        first_ix(s, c) == -1 || (0 <= first_ix(s, c) < s.len() && s[first_ix(s, c)] == c),
    decreases s.len(),
{
    if s.len() > 0 && s[0] != c {
        lemma_first_ix_bound(s.skip(1), c);
    }
}

/// A sequence without `c` has no first occurrence.
pub proof fn lemma_first_ix_none(s: Seq<char>, c: char)
    requires
        forall|j: int| 0 <= j < s.len() ==> s[j] != c,
    ensures
        first_ix(s, c) == -1,
    decreases s.len(),
{
    if s.len() > 0 {
        assert(forall|j: int| 0 <= j < s.len() - 1 ==> #[trigger] s.skip(1)[j] == s[j + 1]);
        lemma_first_ix_none(s.skip(1), c);
    }
}

/// A last occurrence at `i` pins `last_ix` down.
pub proof fn lemma_last_ix_is(s: Seq<char>, c: char, i: int)
    requires
        0 <= i < s.len(),
        s[i] == c,
        forall|j: int| i < j < s.len() ==> s[j] != c,
    ensures
        last_ix(s, c) == i,
    decreases s.len(),
{
    if i < s.len() - 1 {
        assert(s.last() != c);
        assert(forall|j: int| 0 <= j < s.len() - 1 ==> #[trigger] s.drop_last()[j] == s[j]);
        lemma_last_ix_is(s.drop_last(), c, i);
    }
}

/// A sequence without `c` has no last occurrence.
pub proof fn lemma_last_ix_none(s: Seq<char>, c: char)
    requires
        forall|j: int| 0 <= j < s.len() ==> s[j] != c,
    ensures
        last_ix(s, c) == -1,
    decreases s.len(),
{
    if s.len() > 0 {
        assert(forall|j: int| 0 <= j < s.len() - 1 ==> #[trigger] s.drop_last()[j] == s[j]);
        lemma_last_ix_none(s.drop_last(), c);
    }
}

/// The first occurrence of `c` in the characters, if any.
pub fn find_first(v: &Vec<char>, c: char) -> (r: Option<usize>)
    ensures
        match r {
            Some(i) => i == first_ix(v@, c) && i < v@.len() && v@[i as int] == c,
            None => first_ix(v@, c) == -1,
        },
{
    let n = v.len();
    let mut i: usize = 0;
    while i < n
        invariant
            i <= n,
            n == v@.len(),
            forall|j: int| 0 <= j < i ==> v@[j] != c,
        decreases n - i,
    {
        if v[i] == c {
            proof {
                lemma_first_ix_is(v@, c, i as int);
            }
            return Some(i);
        }
        i += 1;
    }
    proof {
        lemma_first_ix_none(v@, c);
    }
    None
}

/// The last occurrence of `c` in the characters, if any.
pub fn find_last(v: &Vec<char>, c: char) -> (r: Option<usize>)
    ensures
        match r {
            Some(i) => i == last_ix(v@, c) && i < v@.len() && v@[i as int] == c,
            None => last_ix(v@, c) == -1,
        },
{
    let n = v.len();
    let mut i: usize = n;
    while i > 0
        invariant
            i <= n,
            n == v@.len(),
            forall|j: int| i <= j < n ==> v@[j] != c,
        decreases i,
    {
        i -= 1;
        if v[i] == c {
            proof {
                lemma_last_ix_is(v@, c, i as int);
            }
            return Some(i);
        }
    }
    proof {
        lemma_last_ix_none(v@, c);
    }
    None
}

// ---------------------------------------------------------------------------
// Splitting on a character
// ---------------------------------------------------------------------------

/// The text before and after the first occurrence of `c`, or `None` when
/// the text has none.
pub fn split_once_char(s: &str, c: char) -> (r: Option<(String, String)>)
    ensures
        match r {
            Some(p) => {
                let i = first_ix(s@, c);
                &&& i >= 0
                &&& p.0@ == s@.take(i)
                &&& p.1@ == s@.skip(i + 1)
            },
            None => first_ix(s@, c) == -1,
        },
{
    let v = chars_of(s);
    match find_first(&v, c) {
        Some(i) => {
            let mut a: Vec<char> = Vec::new();
            let mut j: usize = 0;
            while j < i
                invariant
                    j <= i,
                    i < v@.len(),
                    a@ == v@.take(j as int),
                decreases i - j,
            {
                a.push(v[j]);
                j += 1;
                proof {
                    assert(a@ =~= v@.take(j as int));
                }
            }
            let mut b: Vec<char> = Vec::new();
            let n = v.len();
            let mut k: usize = i + 1;
            while k < n
                invariant
                    i < n,
                    i + 1 <= k <= n,
                    n == v@.len(),
                    b@ == v@.subrange(i + 1, k as int),
                decreases n - k,
            {
                b.push(v[k]);
                k += 1;
                proof {
                    assert(b@ =~= v@.subrange(i + 1, k as int));
                }
            }
            proof {
                assert(b@ =~= v@.skip(i + 1));
            }
            Some((string_from(&a), string_from(&b)))
        },
        None => None,
    }
}

/// The text before and after the last occurrence of `c`, or `None` when
/// the text has none.
pub fn rsplit_once_char(s: &str, c: char) -> (r: Option<(String, String)>)
    ensures
        match r {
            Some(p) => {
                let i = last_ix(s@, c);
                &&& i >= 0
                &&& p.0@ == s@.take(i)
                &&& p.1@ == s@.skip(i + 1)
            },
            None => last_ix(s@, c) == -1,
        },
{
    let v = chars_of(s);
    match find_last(&v, c) {
        Some(i) => {
            let mut a: Vec<char> = Vec::new();
            let mut j: usize = 0;
            while j < i
                invariant
                    j <= i,
                    i < v@.len(),
                    a@ == v@.take(j as int),
                decreases i - j,
            {
                a.push(v[j]);
                j += 1;
                proof {
                    assert(a@ =~= v@.take(j as int));
                }
            }
            let mut b: Vec<char> = Vec::new();
            let n = v.len();
            let mut k: usize = i + 1;
            while k < n
                invariant
                    i < n,
                    i + 1 <= k <= n,
                    n == v@.len(),
                    b@ == v@.subrange(i + 1, k as int),
                decreases n - k,
            {
                b.push(v[k]);
                k += 1;
                proof {
                    assert(b@ =~= v@.subrange(i + 1, k as int));
                }
            }
            proof {
                assert(b@ =~= v@.skip(i + 1));
            }
            Some((string_from(&a), string_from(&b)))
        },
        None => None,
    }
}

// ---------------------------------------------------------------------------
// Literal replacement
// ---------------------------------------------------------------------------

/// The text with every occurrence of `lit` replaced by `rep`, scanning
/// left to right over non-overlapping occurrences.
pub open spec fn replace_lit(s: Seq<char>, lit: Seq<char>, rep: Seq<char>) -> Seq<char>
    decreases s.len(),
{
    if s.len() == 0 || lit.len() == 0 {
        s
    } else if s.len() >= lit.len() && s.take(lit.len() as int) == lit {
        rep + replace_lit(s.skip(lit.len() as int), lit, rep)
    } else {
        seq![s[0]] + replace_lit(s.skip(1), lit, rep)
    }
}

/// Whether `lit` occurs at position `i` of `v`.
fn match_at(v: &Vec<char>, i: usize, lit: &Vec<char>) -> (r: bool)
    requires
        i <= v@.len(),
    ensures
        r == (i + lit@.len() <= v@.len() && v@.subrange(i as int, i + lit@.len()) =~= lit@),
{
    let l = lit.len();
    let n = v.len();
    if l > n - i {
        return false;
    }
    let mut j: usize = 0;
    while j < l
        invariant
            j <= l,
            l == lit@.len(),
            n == v@.len(),
            i + l <= n,
            forall|k: int| 0 <= k < j ==> v@[i + k] == lit@[k],
        decreases l - j,
    {
        if v[i + j] != lit[j] {
            proof {
                assert(v@.subrange(i as int, i + lit@.len())[j as int] != lit@[j as int]);
            }
            return false;
        }
        j += 1;
    }
    proof {
        assert(v@.subrange(i as int, i + lit@.len()) =~= lit@);
    }
    true
}

/// The characters with every occurrence of `lit` replaced by `rep`.
pub fn replace_lit_chars(v: &Vec<char>, lit: &Vec<char>, rep: &Vec<char>) -> (r: Vec<char>)
    requires
        lit@.len() > 0,
    ensures
        r@ == replace_lit(v@, lit@, rep@),
{
    let n = v.len();
    let l = lit.len();
    let mut out: Vec<char> = Vec::new();
    let mut i: usize = 0;
    proof {
        assert(v@.skip(0) =~= v@);
        assert(out@ + replace_lit(v@, lit@, rep@) =~= replace_lit(v@, lit@, rep@));
    }
    while i < n
        invariant
            i <= n,
            n == v@.len(),
            l == lit@.len(),
            l > 0,
            replace_lit(v@, lit@, rep@) == out@ + replace_lit(v@.skip(i as int), lit@, rep@),
        decreases n - i,
    {
        let ghost pre = out@;
        let ghost sfx = v@.skip(i as int);
        if match_at(v, i, lit) {
            let mut k: usize = 0;
            while k < rep.len()
                invariant
                    k <= rep@.len(),
                    out@ == pre + rep@.take(k as int),
                decreases rep@.len() - k,
            {
                out.push(rep[k]);
                k += 1;
                proof {
                    assert(out@ =~= pre + rep@.take(k as int));
                }
            }
            proof {
                assert(rep@.take(rep@.len() as int) =~= rep@);
            }
            i += l;
            proof {
                assert(sfx.len() >= l);
                assert(sfx.take(l as int) =~= v@.subrange(i - l, i as int));
                assert(sfx.take(l as int) == lit@);
                assert(sfx.skip(l as int) =~= v@.skip(i as int));
                assert(replace_lit(sfx, lit@, rep@) == rep@ + replace_lit(
                    v@.skip(i as int),
                    lit@,
                    rep@,
                ));
                assert(pre + (rep@ + replace_lit(v@.skip(i as int), lit@, rep@)) =~= (pre + rep@)
                    + replace_lit(v@.skip(i as int), lit@, rep@));
            }
        } else {
            out.push(v[i]);
            i += 1;
            proof {
                assert(sfx.len() > 0);
                assert(sfx[0] == v@[i - 1]);
                if sfx.len() >= l {
                    assert(sfx.take(l as int) =~= v@.subrange(i - 1, i - 1 + l));
                    assert(!(sfx.take(l as int) == lit@)) by {
                        if sfx.take(l as int) == lit@ {
                            assert(v@.subrange(i - 1, i - 1 + l) =~= lit@);
                        }
                    }
                }
                assert(sfx.skip(1) =~= v@.skip(i as int));
                assert(replace_lit(sfx, lit@, rep@) == seq![v@[i - 1]] + replace_lit(
                    v@.skip(i as int),
                    lit@,
                    rep@,
                ));
                assert(pre + (seq![v@[i - 1]] + replace_lit(v@.skip(i as int), lit@, rep@))
                    =~= (pre + seq![v@[i - 1]]) + replace_lit(v@.skip(i as int), lit@, rep@));
                assert(out@ =~= pre + seq![v@[i - 1]]);
            }
        }
    }
    proof {
        assert(v@.skip(n as int) =~= Seq::<char>::empty());
        assert(out@ + Seq::<char>::empty() =~= out@);
    }
    out
}

// ---------------------------------------------------------------------------
// Set-name cleanup pieces
// ---------------------------------------------------------------------------

/// A count digit as the sources print it: 1 through 9.
pub open spec fn is_count_digit(c: char) -> bool {
    '1' <= c && c <= '9'
}

/// The text with every count marker — a digit 1-9 followed by the
/// kind-counter character — removed, scanning left to right.
pub open spec fn remove_counts(s: Seq<char>) -> Seq<char>
    decreases s.len(),
{
    if s.len() == 0 {
        s
    } else if s.len() >= 2 && is_count_digit(s[0]) && s[1] == '種' {
        remove_counts(s.skip(2))
    } else {
        seq![s[0]] + remove_counts(s.skip(1))
    }
}

/// The characters with every count marker removed.
pub fn remove_counts_chars(v: &Vec<char>) -> (r: Vec<char>)
    ensures
        r@ == remove_counts(v@),
{
    let n = v.len();
    let mut out: Vec<char> = Vec::new();
    let mut i: usize = 0;
    proof {
        assert(v@.skip(0) =~= v@);
        assert(out@ + remove_counts(v@) =~= remove_counts(v@));
    }
    while i < n
        invariant
            i <= n,
            n == v@.len(),
            remove_counts(v@) == out@ + remove_counts(v@.skip(i as int)),
        decreases n - i,
    {
        let ghost pre = out@;
        let ghost sfx = v@.skip(i as int);
        let c = v[i];
        let marker = i + 1 < n && c >= '1' && c <= '9' && v[i + 1] == '種';
        if marker {
            i += 2;
            proof {
                assert(sfx.len() >= 2);
                assert(sfx[0] == c && sfx[1] == v@[i - 1]);
                assert(sfx.skip(2) =~= v@.skip(i as int));
            }
        } else {
            out.push(c);
            i += 1;
            proof {
                assert(sfx.len() > 0);
                assert(sfx[0] == c);
                if sfx.len() >= 2 {
                    assert(sfx[1] == v@[i as int]);
                }
                assert(sfx.skip(1) =~= v@.skip(i as int));
                assert(remove_counts(sfx) == seq![c] + remove_counts(v@.skip(i as int)));
                assert(pre + (seq![c] + remove_counts(v@.skip(i as int))) =~= (pre + seq![c])
                    + remove_counts(v@.skip(i as int)));
                assert(out@ =~= pre + seq![c]);
            }
        }
    }
    proof {
        assert(v@.skip(n as int) =~= Seq::<char>::empty());
        assert(out@ + Seq::<char>::empty() =~= out@);
    }
    out
}

/// The corner brackets the sources decorate set names with.
pub open spec fn is_corner_bracket(c: char) -> bool {
    c == '【' || c == '】'
}

/// The text with every corner bracket removed.
pub open spec fn remove_brackets(s: Seq<char>) -> Seq<char>
    decreases s.len(),
{
    if s.len() == 0 {
        s
    } else if is_corner_bracket(s[0]) {
        remove_brackets(s.skip(1))
    } else {
        seq![s[0]] + remove_brackets(s.skip(1))
    }
}

/// The characters with every corner bracket removed.
pub fn remove_brackets_chars(v: &Vec<char>) -> (r: Vec<char>)
    ensures
        r@ == remove_brackets(v@),
{
    let n = v.len();
    let mut out: Vec<char> = Vec::new();
    let mut i: usize = 0;
    proof {
        assert(v@.skip(0) =~= v@);
        assert(out@ + remove_brackets(v@) =~= remove_brackets(v@));
    }
    while i < n
        invariant
            i <= n,
            n == v@.len(),
            remove_brackets(v@) == out@ + remove_brackets(v@.skip(i as int)),
        decreases n - i,
    {
        let ghost pre = out@;
        let ghost sfx = v@.skip(i as int);
        let c = v[i];
        if c == '【' || c == '】' {
            i += 1;
            proof {
                assert(sfx[0] == c);
                assert(sfx.skip(1) =~= v@.skip(i as int));
            }
        } else {
            out.push(c);
            i += 1;
            proof {
                assert(sfx[0] == c);
                assert(sfx.skip(1) =~= v@.skip(i as int));
                assert(pre + (seq![c] + remove_brackets(v@.skip(i as int))) =~= (pre + seq![c])
                    + remove_brackets(v@.skip(i as int)));
                assert(out@ =~= pre + seq![c]);
            }
        }
    }
    proof {
        assert(v@.skip(n as int) =~= Seq::<char>::empty());
        assert(out@ + Seq::<char>::empty() =~= out@);
    }
    out
}

/// The text with the bracketed span removed: everything from the first
/// opening corner bracket through the last closing one, when the closing
/// one stands later; otherwise the text unchanged.
pub open spec fn remove_span(s: Seq<char>) -> Seq<char> {
    let i = first_ix(s, '【');
    let j = last_ix(s, '】');
    if 0 <= i && i < j {
        s.take(i) + s.skip(j + 1)
    } else {
        s
    }
}

/// The characters with the bracketed span removed.
pub fn remove_span_chars(v: &Vec<char>) -> (r: Vec<char>)
    ensures
        r@ == remove_span(v@),
{
    let oi = find_first(v, '【');
    let oj = find_last(v, '】');
    match (oi, oj) {
        (Some(i), Some(j)) if i < j => {
            let n = v.len();
            let mut out: Vec<char> = Vec::new();
            let mut a: usize = 0;
            while a < i
                invariant
                    a <= i,
                    i < n,
                    n == v@.len(),
                    out@ == v@.take(a as int),
                decreases i - a,
            {
                out.push(v[a]);
                a += 1;
                proof {
                    assert(out@ =~= v@.take(a as int));
                }
            }
            let mut b: usize = j + 1;
            while b < n
                invariant
                    j < n,
                    j + 1 <= b <= n,
                    n == v@.len(),
                    out@ == v@.take(i as int) + v@.subrange(j + 1, b as int),
                decreases n - b,
            {
                out.push(v[b]);
                b += 1;
                proof {
                    assert(out@ =~= v@.take(i as int) + v@.subrange(j + 1, b as int));
                }
            }
            proof {
                assert(v@.subrange(j + 1, n as int) =~= v@.skip(j + 1));
            }
            out
        },
        _ => {
            let mut out: Vec<char> = Vec::new();
            let n = v.len();
            let mut a: usize = 0;
            while a < n
                invariant
                    a <= n,
                    n == v@.len(),
                    out@ == v@.take(a as int),
                decreases n - a,
            {
                out.push(v[a]);
                a += 1;
                proof {
                    assert(out@ =~= v@.take(a as int));
                }
            }
            proof {
                assert(v@.take(n as int) =~= v@);
            }
            out
        },
    }
}

// ---------------------------------------------------------------------------
// Decimal digits
// ---------------------------------------------------------------------------

/// True when every character is a decimal digit.
pub open spec fn all_digits(s: Seq<char>) -> bool {
    forall|i: int| 0 <= i < s.len() ==> '0' <= #[trigger] s[i] && s[i] <= '9'
}

/// The number the digit string denotes.
pub open spec fn digits_val(s: Seq<char>) -> int
    decreases s.len(),
{
    if s.len() == 0 {
        0
    } else {
        digits_val(s.drop_last()) * 10 + (s.last() as int - '0' as int)
    }
}

/// Parse an unsigned decimal number: exactly when the text is nonempty,
/// all digits, and its value fits.
pub fn parse_digits(v: &Vec<char>) -> (r: Option<u32>)
    ensures
        match r {
            Some(x) => v@.len() > 0 && all_digits(v@) && digits_val(v@) <= u32::MAX
                && x == digits_val(v@),
            None => v@.len() == 0 || !all_digits(v@) || digits_val(v@) > u32::MAX,
        },
{
    let n = v.len();
    if n == 0 {
        return None;
    }
    let mut acc: u64 = 0;
    let mut i: usize = 0;
    proof {
        assert(v@.take(0) =~= Seq::<char>::empty());
    }
    while i < n
        invariant
            i <= n,
            n == v@.len(),
            all_digits(v@.take(i as int)),
            acc <= u32::MAX,
            acc == digits_val(v@.take(i as int)),
        decreases n - i,
    {
        let c = v[i];
        if c < '0' || c > '9' {
            proof {
                assert(v@[i as int] == c);
            }
            return None;
        }
        let d = ((c as u32) - ('0' as u32)) as u64;
        let t = acc * 10 + d;
        proof {
            let tk = v@.take(i + 1);
            assert(tk.drop_last() =~= v@.take(i as int));
            assert(tk.last() == c);
            assert(digits_val(tk) == acc * 10 + d);
            assert(all_digits(tk)) by {
                assert(forall|j: int| 0 <= j < i ==> tk[j] == v@.take(i as int)[j]);
            }
        }
        if t > 0xFFFF_FFFF {
            proof {
                if all_digits(v@) {
                    lemma_digits_grow(v@, i + 1);
                }
            }
            return None;
        }
        acc = t;
        i += 1;
    }
    proof {
        assert(v@.take(n as int) =~= v@);
    }
    Some(acc as u32)
}

/// Digit strings denote non-negative numbers.
proof fn lemma_digits_nonneg(s: Seq<char>)
    requires
        all_digits(s),
    ensures
        digits_val(s) >= 0,
    decreases s.len(),
{
    if s.len() > 0 {
        let rest = s.drop_last();
        assert(all_digits(rest)) by {
            assert(forall|j: int| 0 <= j < rest.len() ==> rest[j] == s[j]);
        }
        lemma_digits_nonneg(rest);
        assert(digits_val(rest) * 10 >= 0) by (nonlinear_arith)
            requires
                digits_val(rest) >= 0,
        ;
        assert('0' <= s.last() && s.last() <= '9');
    }
}

/// A longer digit prefix never denotes a smaller number.
proof fn lemma_digits_grow(s: Seq<char>, i: int)
    requires
        0 <= i <= s.len(),
        all_digits(s),
    ensures
        digits_val(s) >= digits_val(s.take(i)),
    decreases s.len() - i,
{
    if i < s.len() {
        lemma_digits_grow(s, i + 1);
        let t = s.take(i + 1);
        assert(t.drop_last() =~= s.take(i));
        assert(t.last() == s[i]);
        assert(digits_val(t) == digits_val(s.take(i)) * 10 + (s[i] as int - '0' as int));
        assert(all_digits(s.take(i))) by {
            assert(forall|j: int| 0 <= j < i ==> s.take(i)[j] == s[j]);
        }
        lemma_digits_nonneg(s.take(i));
        assert('0' <= s[i] && s[i] <= '9');
        assert(digits_val(s.take(i + 1)) >= digits_val(s.take(i))) by (nonlinear_arith)
            requires
                digits_val(s.take(i + 1)) == digits_val(s.take(i)) * 10 + (s[i] as int
                    - '0' as int),
                s[i] as int - '0' as int >= 0,
                digits_val(s.take(i)) >= 0,
        ;
    } else {
        assert(s.take(i) =~= s);
    }
}

/// The decimal digits of the text, in order, everything else dropped.
pub open spec fn only_digits(s: Seq<char>) -> Seq<char>
    decreases s.len(),
{
    if s.len() == 0 {
        s
    } else if '0' <= s[0] && s[0] <= '9' {
        seq![s[0]] + only_digits(s.skip(1))
    } else {
        only_digits(s.skip(1))
    }
}

/// Keep only the decimal digits of the text.
pub fn filter_digits(s: &str) -> (r: String)
    ensures
        r@ == only_digits(s@),
{
    let v = chars_of(s);
    let n = v.len();
    let mut out: Vec<char> = Vec::new();
    let mut i: usize = 0;
    proof {
        assert(v@.skip(0) =~= v@);
        assert(out@ + only_digits(v@) =~= only_digits(v@));
    }
    while i < n
        invariant
            i <= n,
            n == v@.len(),
            only_digits(v@) == out@ + only_digits(v@.skip(i as int)),
        decreases n - i,
    {
        let ghost pre = out@;
        let ghost sfx = v@.skip(i as int);
        let c = v[i];
        if c >= '0' && c <= '9' {
            out.push(c);
            i += 1;
            proof {
                assert(sfx[0] == c);
                assert(sfx.skip(1) =~= v@.skip(i as int));
                assert(pre + (seq![c] + only_digits(v@.skip(i as int))) =~= (pre + seq![c])
                    + only_digits(v@.skip(i as int)));
                assert(out@ =~= pre + seq![c]);
            }
        } else {
            i += 1;
            proof {
                assert(sfx[0] == c);
                assert(sfx.skip(1) =~= v@.skip(i as int));
            }
        }
    }
    proof {
        assert(v@.skip(n as int) =~= Seq::<char>::empty());
        assert(out@ + Seq::<char>::empty() =~= out@);
    }
    string_from(&out)
}

// ---------------------------------------------------------------------------
// The set-name and title cleanups
// ---------------------------------------------------------------------------

/// The set-name cleanup the exporters share: corner brackets dropped,
/// escaped ampersands unescaped, count markers removed, ends trimmed.
pub open spec fn clean_label_spec(s: Seq<char>) -> Seq<char> {
    trim_spec(remove_counts(replace_lit(remove_brackets(s), "&amp;"@, "&"@)))
}

/// Apply the shared set-name cleanup.
pub fn clean_label(s: &str) -> (r: String)
    ensures
        r@ == clean_label_spec(s@),
{
    let v = chars_of(s);
    let no_brackets = remove_brackets_chars(&v);
    let mut amp: Vec<char> = Vec::new();
    amp.push('&');
    amp.push('a');
    amp.push('m');
    amp.push('p');
    amp.push(';');
    let mut rep: Vec<char> = Vec::new();
    rep.push('&');
    proof {
        reveal_strlit("&amp;");
        reveal_strlit("&");
        assert(amp@ =~= "&amp;"@);
        assert(rep@ =~= "&"@);
    }
    let unescaped = replace_lit_chars(&no_brackets, &amp, &rep);
    let no_counts = remove_counts_chars(&unescaped);
    let trimmed = trim_chars(&no_counts);
    string_from(&trimmed)
}

/// The product-title cleanup: the bracketed span dropped, ends trimmed,
/// escaped ampersands and non-breaking spaces removed outright.
pub open spec fn clean_title_spec(s: Seq<char>) -> Seq<char> {
    replace_lit(
        replace_lit(trim_spec(remove_span(s)), "&amp;"@, Seq::<char>::empty()),
        "&nbsp;"@,
        Seq::<char>::empty(),
    )
}

/// Apply the product-title cleanup.
pub fn clean_title(s: &str) -> (r: String)
    ensures
        r@ == clean_title_spec(s@),
{
    let v = chars_of(s);
    let no_span = remove_span_chars(&v);
    let trimmed = trim_chars(&no_span);
    let mut amp: Vec<char> = Vec::new();
    amp.push('&');
    amp.push('a');
    amp.push('m');
    amp.push('p');
    amp.push(';');
    let mut nbsp: Vec<char> = Vec::new();
    nbsp.push('&');
    nbsp.push('n');
    nbsp.push('b');
    nbsp.push('s');
    nbsp.push('p');
    nbsp.push(';');
    let empty: Vec<char> = Vec::new();
    proof {
        reveal_strlit("&amp;");
        reveal_strlit("&nbsp;");
        assert(amp@ =~= "&amp;"@);
        assert(nbsp@ =~= "&nbsp;"@);
        assert(empty@ =~= Seq::<char>::empty());
    }
    let no_amp = replace_lit_chars(&trimmed, &amp, &empty);
    let cleaned = replace_lit_chars(&no_amp, &nbsp, &empty);
    string_from(&cleaned)
}

} // verus!