//! Choosing the catalog page that a wiki box is asked for: by prefab
//! hash, or by a fuzzy search over keys, titles and prefab names.

use vstd::prelude::*;
use vstd::string::StrSliceExecFns;
use crate::catalog::{Page, Stationpedia};
use nucleo_matcher::pattern::{AtomKind, CaseMatching, Normalization, Pattern};

verus! {

/// Whether `c` is an ASCII digit.
pub open spec fn is_digit(c: char) -> bool {
    '0' <= c <= '9'
}

/// The value of a run of decimal digits.
pub open spec fn digits_value(d: Seq<char>) -> int
    decreases d.len(),
{
    if d.len() == 0 {
        0
    } else {
        digits_value(d.drop_last()) * 10 + (d.last() as u32 - '0' as u32)
    }
}

/// The integer that `s` writes: an optional `+` or `-`, then one or more
/// decimal digits and nothing else, within the range of `i64`.
pub open spec fn parsed_i64(s: Seq<char>) -> Option<i64> {
    let signed = s.len() > 0 && (s[0] == '-' || s[0] == '+');
    let body = if signed {
        s.drop_first()
    } else {
        s
    };
    let value = if s.len() > 0 && s[0] == '-' {
        -digits_value(body)
    } else {
        digits_value(body)
    };
    if body.len() > 0 && (forall|i: int| 0 <= i < body.len() ==> is_digit(body[i])) && i64::MIN
        <= value <= i64::MAX {
        Some(value as i64)
    } else {
        None
    }
}

/// Relies on `str::parse::<i64>`: it accepts an optional sign followed by
/// decimal digits, and fails on anything else or out of range.
#[verifier::external_body]
fn parse_i64(s: &str) -> (r: Option<i64>)
    ensures
        r == parsed_i64(s@),
{
    s.parse::<i64>().ok()
}

/// The fuzzy-match score of `text` against the search `search`.
pub uninterp spec fn fuzzy_score(text: Seq<char>, search: Seq<char>) -> u32;

/// Relies on nucleo_matcher's `Pattern::new` (smart case, smart
/// normalization, fuzzy atoms) and `Pattern::score` with a default
/// `Matcher`, the text read as ASCII bytes: the score depends on the two
/// texts alone, and no match scores 0. The matcher asserts that the text
/// has at most `u32::MAX` bytes; four per character bound them.
#[verifier::external_body]
fn text_match(text: &str, search: &str) -> (r: u32)
    requires
        text@.len() <= 0x3fff_ffff,
    ensures
        r == fuzzy_score(text@, search@),
{
    let mut matcher = nucleo_matcher::Matcher::default();
    let pattern = Pattern::new(search, CaseMatching::Smart, Normalization::Smart, AtomKind::Fuzzy);
    pattern.score(nucleo_matcher::Utf32Str::Ascii(text.as_bytes()), &mut matcher).unwrap_or(0)
}

/// The score of `text` against `search`; a text too long to score scores 0.
pub open spec fn match_score(text: Seq<char>, search: Seq<char>) -> u32 {
    if text.len() <= 0x3fff_ffff {
        fuzzy_score(text, search)
    } else {
        0
    }
}

/// Whether a page matches the search: its key, title or prefab name
/// scores above 100.
pub open spec fn is_hit(page: Page, search: Seq<char>) -> bool {
    match_score(page.key@, search) > 100 || match_score(page.title@, search) > 100 || match_score(
        page.prefab_name@,
        search,
    ) > 100
}

/// Whether the page's key, title or prefab name is the search itself.
pub open spec fn is_exact(page: Page, search: Seq<char>) -> bool {
    page.key@ == search || page.title@ == search || page.prefab_name@ == search
}

/// For each page, whether it matches the search.
pub open spec fn hits_of(pages: Seq<Page>, search: Seq<char>) -> Seq<bool> {
    Seq::new(pages.len(), |i: int| is_hit(pages[i], search))
}

/// The indices among the first `n` that `matched` marks.
pub open spec fn hit_indices(matched: Seq<bool>, n: int) -> Seq<int>
    decreases n,
{
    if n <= 0 {
        seq![]
    } else if matched[n - 1] {
        hit_indices(matched, n - 1).push(n - 1)
    } else {
        hit_indices(matched, n - 1)
    }
}

/// The first page among the first `n` that `matched` marks and that names
/// the search exactly.
pub open spec fn first_exact_hit(pages: Seq<Page>, matched: Seq<bool>, search: Seq<char>, n: int) -> Option<int>
    decreases n,
{
    if n <= 0 {
        None
    } else {
        match first_exact_hit(pages, matched, search, n - 1) {
            Some(i) => Some(i),
            None => if matched[n - 1] && is_exact(pages[n - 1], search) {
                Some(n - 1)
            } else {
                None
            },
        }
    }
}

/// What a search picks, given which pages match it: nothing where none
/// does; else the first match that names the search exactly; else the only
/// match; else all of them.
pub open spec fn picked(pages: Seq<Page>, matched: Seq<bool>, search: Seq<char>, r: Selection) -> bool {
    let hits = hit_indices(matched, pages.len() as int);
    if hits.len() == 0 {
        r == Selection::NoMatch
    } else {
        match first_exact_hit(pages, matched, search, pages.len() as int) {
            Some(i) => r == Selection::Found(i as usize),
            None => if hits.len() > 1 {
                match r {
                    Selection::Ambiguous(found) => found@.map_values(|i: usize| i as int) == hits,
                    _ => false,
                }
            } else {
                r == Selection::Found(hits[0] as usize)
            },
        }
    }
}

/// The first page among the first `n` with the given prefab hash.
pub open spec fn first_with_hash(pages: Seq<Page>, hash: i64, n: int) -> Option<int>
    decreases n,
{
    if n <= 0 {
        None
    } else {
        match first_with_hash(pages, hash, n - 1) {
            Some(i) => Some(i),
            None => if pages[n - 1].prefab_hash == hash {
                Some(n - 1)
            } else {
                None
            },
        }
    }
}

/// The request for a wiki box: a prefab hash, or a name to search for.
#[derive(Clone, Debug, PartialEq)]
pub struct Wikibox {
    pub item: String,
}

/// Which page a request picks.
#[derive(Clone, Debug, PartialEq)]
pub enum Selection {
    /// The page at this index.
    Found(usize),
    /// The request is a prefab hash that no page has.
    UnknownHash(i64),
    /// No page matches the search.
    NoMatch,
    /// Several pages match and none exactly: their indices.
    Ambiguous(Vec<usize>),
}

/// The score of `text` against `search`.
fn score(text: &String, search: &str) -> (r: u32)
    ensures
        r == match_score(text@, search@),
{
    if text.as_str().unicode_len() <= 0x3fff_ffff {
        text_match(text.as_str(), search)
    } else {
        0
    }
}

impl Wikibox {
    /// The page that the search picks, given for each page whether it
    /// matches.
    pub fn pick(&self, pedia: &Stationpedia, matched: &Vec<bool>) -> (r: Selection)
        requires
            matched@.len() == pedia.pages@.len(),
        ensures
            picked(pedia.pages@, matched@, self.item@, r),
    {
        let pages = &pedia.pages;
        let mut hits: Vec<usize> = Vec::new();
        let mut exact: Option<usize> = None;
        let mut i: usize = 0;
        while i < pages.len()
            invariant
                i <= pages@.len(),
                matched@.len() == pages@.len(),
                hits@.map_values(|k: usize| k as int) == hit_indices(matched@, i as int),
                match first_exact_hit(pages@, matched@, self.item@, i as int) {
                    Some(e) => exact == Some(e as usize) && e < i,
                    None => exact is None,
                },
                forall|k: int| 0 <= k < hits@.len() ==> hits@[k] < i,
            decreases pages.len() - i,
        {
            let page = &pages[i];
            if matched[i] {
                let ghost before = hits@;
                hits.push(i);
                assert(hits@.map_values(|k: usize| k as int) =~= before.map_values(
                    |k: usize| k as int,
                ).push(i as int));
                if exact.is_none() && (page.key == self.item || page.title == self.item
                    || page.prefab_name == self.item) {
                    exact = Some(i);
                }
            }
            i = i + 1;
        }
        if hits.len() == 0 {
            assert(hits@.map_values(|k: usize| k as int).len() == 0);
            return Selection::NoMatch;
        }
        assert(hits@.map_values(|k: usize| k as int)[0] == hits@[0] as int);
        if let Some(e) = exact {
            return Selection::Found(e);
        }
        if hits.len() > 1 {
            return Selection::Ambiguous(hits);
        }
        Selection::Found(hits[0])
    }

    /// The page that the request picks: where it reads as an integer, the
    /// first page with that prefab hash; else what the search picks among
    /// the pages whose key, title or prefab name match it.
    pub fn select(&self, pedia: &Stationpedia) -> (r: Selection)
        ensures
            match parsed_i64(self.item@) {
                Some(hash) => match first_with_hash(pedia.pages@, hash, pedia.pages@.len() as int) {
                    Some(i) => r == Selection::Found(i as usize),
                    None => r == Selection::UnknownHash(hash),
                },
                None => picked(pedia.pages@, hits_of(pedia.pages@, self.item@), self.item@, r),
            },
    {
        let pages = &pedia.pages;
        if let Some(hash) = parse_i64(self.item.as_str()) {
            let mut found: Option<usize> = None;
            let mut i: usize = 0;
            while i < pages.len()
                invariant
                    i <= pages@.len(),
                    match first_with_hash(pages@, hash, i as int) {
                        Some(e) => found == Some(e as usize) && e < i,
                        None => found is None,
                    },
                decreases pages.len() - i,
            {
                if found.is_none() && pages[i].prefab_hash == hash {
                    found = Some(i);
                }
                i = i + 1;
            }
            return match found {
                Some(i) => Selection::Found(i),
                None => Selection::UnknownHash(hash),
            };
        }
        let item = self.item.as_str();
        let mut matched: Vec<bool> = Vec::new();
        let mut i: usize = 0;
        while i < pages.len()
            invariant
                i <= pages@.len(),
                item@ == self.item@,
                matched@ =~= hits_of(pages@, self.item@).take(i as int),
            decreases pages.len() - i,
        {
            let page = &pages[i];
            let hit = score(&page.key, item) > 100 || score(&page.title, item) > 100 || score(
                &page.prefab_name,
                item,
            ) > 100;
            matched.push(hit);
            i = i + 1;
        }
        assert(matched@ =~= hits_of(pages@, self.item@));
        self.pick(pedia, &matched)
    }
}

} // verus!
