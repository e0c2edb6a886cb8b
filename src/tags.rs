//! Removal of markup tags: colour tags first, any leftover tag last.

use vstd::prelude::*;
use crate::text::find_from;

verus! {

/// The pattern of a colour tag, opening or closing.
pub const COLOR_TAG_PATTERN: &'static str = "<color=.*?>|</color>";

/// The pattern of any tag: `<`, at least one character other than `>`, `>`.
pub const ANY_TAG_PATTERN: &'static str = "<[^>]+>";

/// The pattern of any tag, opening or closing, as the instruction table
/// writes it; it matches exactly where `ANY_TAG_PATTERN` does, since `/`
/// is itself a character other than `>`.
pub const SLASH_TAG_PATTERN: &'static str = "</?[^>]+>";

/// Whether `s` begins with `p`.
pub open spec fn starts_with(s: Seq<char>, p: Seq<char>) -> bool {
    p.len() <= s.len() && s.take(p.len() as int) == p
}

/// Where an opening colour tag `<color=...>` begins `s`, the index of its
/// `>`: the first one after `<color=`, with no line break before it.
pub open spec fn color_open_end(s: Seq<char>) -> Option<int> {
    if starts_with(s, "<color="@) {
        match find_from(s, seq!['>'], 7) {
            Some(e) => if 7 <= e < s.len() && !s.subrange(7, e).contains('\n') {
                Some(e)
            } else {
                None
            },
            None => None,
        }
    } else {
        None
    }
}

/// `s` with every colour tag removed, in one sweep from left to right.
pub open spec fn without_color_tags(s: Seq<char>) -> Seq<char>
    decreases s.len(),
{
    if s.len() == 0 {
        s
    } else if color_open_end(s) is Some {
        without_color_tags(s.skip(color_open_end(s)->0 + 1))
    } else if starts_with(s, "</color>"@) && s.len() >= 8 {
        without_color_tags(s.skip(8))
    } else {
        seq![s[0]] + without_color_tags(s.drop_first())
    }
}

/// Where a tag begins `s`, the index of its `>`: the first one after the
/// `<`, with at least one character between them.
pub open spec fn tag_end(s: Seq<char>) -> Option<int> {
    if s.len() > 0 && s[0] == '<' {
        match find_from(s, seq!['>'], 1) {
            Some(e) => if 2 <= e < s.len() {
                Some(e)
            } else {
                None
            },
            None => None,
        }
    } else {
        None
    }
}

/// `s` with every tag removed, in one sweep from left to right.
pub open spec fn without_tags(s: Seq<char>) -> Seq<char>
    decreases s.len(),
{
    if s.len() == 0 {
        s
    } else if tag_end(s) is Some {
        without_tags(s.skip(tag_end(s)->0 + 1))
    } else {
        seq![s[0]] + without_tags(s.drop_first())
    }
}

/// Relies on `regex::Regex::new` and `Regex::replace_all` with an empty
/// replacement: every match of the pattern is removed, the matches taken
/// leftmost-first and without overlap, from left to right. In these
/// patterns `.` matches any character but a line break, `.*?` as few as it
/// can, and `[^>]` any character but `>`.
#[verifier::external_body]
fn remove_matches(pattern: &str, text: &str) -> (r: String)
    requires
        pattern@ == COLOR_TAG_PATTERN@ || pattern@ == ANY_TAG_PATTERN@ || pattern@
            == SLASH_TAG_PATTERN@,
    ensures
        pattern@ == COLOR_TAG_PATTERN@ ==> r@ == without_color_tags(text@),
        pattern@ == ANY_TAG_PATTERN@ ==> r@ == without_tags(text@),
        pattern@ == SLASH_TAG_PATTERN@ ==> r@ == without_tags(text@),
{
    regex::Regex::new(pattern).unwrap().replace_all(text, "").into_owned()
}

/// `text` with its colour tags removed; the text between them stays.
pub fn strip_color_tags(text: &str) -> (r: String)
    ensures
        r@ == without_color_tags(text@),
{
    remove_matches(COLOR_TAG_PATTERN, text)
}

/// `text` with every tag removed; the text around them stays.
pub fn strip_tags(text: &str) -> (r: String)
    ensures
        r@ == without_tags(text@),
{
    remove_matches(ANY_TAG_PATTERN, text)
}

/// `text` with every tag removed, by the instruction table's pattern.
pub fn strip_slash_tags(text: &str) -> (r: String)
    ensures
        r@ == without_tags(text@),
{
    remove_matches(SLASH_TAG_PATTERN, text)
}

} // verus!
