//! The description translator: annotated text with `<link=...>` and
//! `<color=...>` tags becomes wiki markup.

use vstd::prelude::*;
use vstd::string::StringExecFns;
use crate::catalog::{page_with_key, Page, Stationpedia};
use crate::tags::{starts_with, strip_color_tags, strip_tags, without_color_tags, without_tags};
use crate::text::{occurs_at, chars_of, find_from, find_in, lemma_find_from, matches_at, push_range, string_of_range};

verus! {

/// A curated link target: links to `identifier` go to the page `target`.
#[derive(Clone, Debug, PartialEq)]
pub struct LinkOverride {
    pub identifier: String,
    pub target: String,
}

/// The table of curated link targets; where an identifier is listed twice,
/// the first entry counts.
#[derive(Clone, Debug, PartialEq)]
pub struct LinkOverrides {
    pub links: Vec<LinkOverride>,
}

/// The target that the first entry for `id` gives.
pub open spec fn override_for(links: Seq<LinkOverride>, id: Seq<char>) -> Option<Seq<char>>
    decreases links.len(),
{
    if links.len() == 0 {
        None
    } else if links[0].identifier@ == id {
        Some(links[0].target@)
    } else {
        override_for(links.drop_first(), id)
    }
}

impl LinkOverrides {
    /// The curated target for `identifier`, if the table has one.
    pub fn get_override(&self, identifier: &str) -> (r: Option<&String>)
        ensures
            match r {
                Some(t) => override_for(self.links@, identifier@) == Some(t@),
                None => override_for(self.links@, identifier@) is None,
            },
    {
        let wanted = identifier.to_owned();
        let mut i: usize = 0;
        assert(self.links@.skip(0) =~= self.links@);
        while i < self.links.len()
            invariant
                i <= self.links@.len(),
                wanted@ == identifier@,
                override_for(self.links@, identifier@) == override_for(
                    self.links@.skip(i as int),
                    identifier@,
                ),
            decreases self.links.len() - i,
        {
            assert(self.links@.skip(i as int).drop_first() =~= self.links@.skip(i + 1));
            if self.links[i].identifier == wanted {
                return Some(&self.links[i].target);
            }
            i = i + 1;
        }
        None
    }
}

/// The marker that opens a link span.
pub open spec fn link_open() -> Seq<char> {
    seq!['<', 'l', 'i', 'n', 'k', '=']
}

/// The tag that closes a link span.
pub open spec fn link_close() -> Seq<char> {
    seq!['<', '/', 'l', 'i', 'n', 'k', '>']
}

/// The prefix of an identifier that names a slot.
pub open spec fn slot_prefix() -> Seq<char> {
    seq!['S', 'l', 'o', 't']
}

/// A wiki link to `target` that shows `display`: `[[target]]` where the two
/// are equal, `[[target|display]]` where they differ.
pub open spec fn wiki_link(target: Seq<char>, display: Seq<char>) -> Seq<char> {
    if target == display {
        "[["@ + target + "]]"@
    } else {
        "[["@ + target + "|"@ + display + "]]"@
    }
}

/// The page that links to `id` go to: the curated target first, then the
/// title of the catalog page with that key.
pub open spec fn link_target(id: Seq<char>, pages: Seq<Page>, links: Seq<LinkOverride>) -> Option<
    Seq<char>,
> {
    match override_for(links, id) {
        Some(target) => Some(target),
        None => match page_with_key(pages, id) {
            Some(page) => Some(page.title@),
            None => None,
        },
    }
}

/// What a link span with identifier `id` and text `display` becomes: a
/// link to its target where it has one; else, for a slot, its name and the
/// word `slot`; else a link to the identifier itself.
pub open spec fn resolved_link(
    id: Seq<char>,
    display: Seq<char>,
    pages: Seq<Page>,
    links: Seq<LinkOverride>,
) -> Seq<char> {
    match link_target(id, pages, links) {
        Some(target) => wiki_link(target, display),
        None => if starts_with(id, slot_prefix()) {
            id.skip(4) + " slot"@
        } else {
            "[["@ + id + "|"@ + display + "]]"@
        },
    }
}

/// What the text after a `<link=` marker, up to the next marker, becomes:
/// the identifier runs to the first `>`, the shown text from there to the
/// first `</link>`, and what follows stays. A segment without `>` or
/// without `</link>` after it gives nothing.
pub open spec fn rendered_segment(seg: Seq<char>, pages: Seq<Page>, links: Seq<LinkOverride>) -> Seq<
    char,
> {
    match find_from(seg, seq!['>'], 0) {
        Some(g) => match find_from(seg, link_close(), g + 1) {
            Some(c) => if 0 <= g < c && c + 7 <= seg.len() {
                resolved_link(seg.take(g), seg.subrange(g + 1, c), pages, links) + seg.skip(c + 7)
            } else {
                seq![]
            },
            None => seq![],
        },
        None => seq![],
    }
}

/// The segments of `s` from index `pos` on, each rendered: a segment runs
/// up to the next `<link=` marker, or to the end.
pub open spec fn links_from(s: Seq<char>, pos: int, pages: Seq<Page>, links: Seq<LinkOverride>) -> Seq<
    char,
>
    decreases s.len() - pos,
{
    match find_from(s, link_open(), pos) {
        Some(j) => if 0 <= pos <= j && j + 6 <= s.len() {
            rendered_segment(s.subrange(pos, j), pages, links) + links_from(s, j + 6, pages, links)
        } else {
            seq![]
        },
        None => if 0 <= pos <= s.len() {
            rendered_segment(s.subrange(pos, s.len() as int), pages, links)
        } else {
            seq![]
        },
    }
}

/// `s` with each link span resolved: the text before the first marker
/// stays, each later segment is rendered.
pub open spec fn linked(s: Seq<char>, pages: Seq<Page>, links: Seq<LinkOverride>) -> Seq<char> {
    match find_from(s, link_open(), 0) {
        Some(i) => if 0 <= i && i + 6 <= s.len() {
            s.take(i) + links_from(s, i + 6, pages, links)
        } else {
            s
        },
        None => s,
    }
}

/// The whole translation: colour tags removed, link spans resolved, and
/// leftover tags removed.
pub open spec fn translated(text: Seq<char>, pages: Seq<Page>, links: Seq<LinkOverride>) -> Seq<char> {
    without_tags(linked(without_color_tags(text), pages, links))
}

/// Appends `wiki_link(target, display)` to `out`.
fn push_wiki_link(out: &mut String, target: &String, display: &String)
    ensures
        final(out)@ == old(out)@ + wiki_link(target@, display@),
{
    out.append("[[");
    out.append(target.as_str());
    if *target != *display {
        out.append("|");
        out.append(display.as_str());
    }
    out.append("]]");
}

/// Resolves one link span and appends what it becomes.
pub fn push_resolved_link(
    out: &mut String,
    id: &String,
    display: &String,
    pedia: &Stationpedia,
    overrides: &LinkOverrides,
)
    ensures
        final(out)@ == old(out)@ + resolved_link(id@, display@, pedia.pages@, overrides.links@),
{
    match overrides.get_override(id.as_str()) {
        Some(target) => push_wiki_link(out, target, display),
        None => match pedia.lookup_key(id.as_str()) {
            Some(page) => push_wiki_link(out, &page.title, display),
            None => {
                let idc = chars_of(id.as_str());
                let slot: Vec<char> = vec!['S', 'l', 'o', 't'];
                if matches_at(&idc, &slot, 0) {
                    push_range(out, &idc, 4, idc.len());
                    out.append(" slot");
                } else {
                    out.append("[[");
                    out.append(id.as_str());
                    out.append("|");
                    out.append(display.as_str());
                    out.append("]]");
                }
            },
        },
    }
}

/// Renders the segment `s[from..to]` and appends it.
fn push_segment(
    out: &mut String,
    s: &Vec<char>,
    from: usize,
    to: usize,
    pedia: &Stationpedia,
    overrides: &LinkOverrides,
)
    requires
        from <= to <= s@.len(),
    ensures
        final(out)@ == old(out)@ + rendered_segment(
            s@.subrange(from as int, to as int),
            pedia.pages@,
            overrides.links@,
        ),
{
    let seg = chars_of(string_of_range(s, from, to).as_str());
    let gt: Vec<char> = vec!['>'];
    let close: Vec<char> = vec!['<', '/', 'l', 'i', 'n', 'k', '>'];
    assert(gt@ =~= seq!['>']);
    assert(close@ =~= link_close());
    let ghost empty_tail = old(out)@;
    assert(empty_tail + seq![] =~= empty_tail);
    if let Some(g) = find_in(&seg, &gt, 0) {
        proof {
            lemma_find_from(seg@, gt@, 0);
        }
        if let Some(c) = find_in(&seg, &close, g + 1) {
            proof {
                lemma_find_from(seg@, close@, g + 1);
            }
            let id = string_of_range(&seg, 0, g);
            let display = string_of_range(&seg, g + 1, c);
            push_resolved_link(out, &id, &display, pedia, overrides);
            push_range(out, &seg, c + 7, seg.len());
            assert(seg@.take(g as int) == seg@.subrange(0, g as int));
            assert(seg@.skip(c + 7) == seg@.subrange(c + 7, seg@.len() as int));
        }
    }
}

/// Resolves every link span of `s` and appends the result.
fn push_linked(out: &mut String, s: &Vec<char>, pedia: &Stationpedia, overrides: &LinkOverrides)
    ensures
        final(out)@ == old(out)@ + linked(s@, pedia.pages@, overrides.links@),
{
    let ghost pages = pedia.pages@;
    let ghost links = overrides.links@;
    let marker: Vec<char> = vec!['<', 'l', 'i', 'n', 'k', '='];
    assert(marker@ =~= link_open());
    match find_in(s, &marker, 0) {
        None => {
            push_range(out, s, 0, s.len());
            assert(s@.subrange(0, s@.len() as int) == s@);
        },
        Some(i) => {
            proof {
                lemma_find_from(s@, marker@, 0);
            }
            let ghost goal = out@ + linked(s@, pages, links);
            push_range(out, s, 0, i);
            assert(s@.take(i as int) == s@.subrange(0, i as int));
            assert(occurs_at(s@, marker@, i as int));
            assert(i + 6 <= s.len());
            let mut pos = i + 6;
            loop
                invariant_except_break
                    out@ + links_from(s@, pos as int, pages, links) == goal,
                invariant
                    pos <= s@.len(),
                    marker@ == link_open(),
                    pages == pedia.pages@,
                    links == overrides.links@,
                ensures
                    out@ == goal,
                decreases s@.len() - pos,
            {
                match find_in(s, &marker, pos) {
                    Some(j) => {
                        proof {
                            lemma_find_from(s@, marker@, pos as int);
                        }
                        push_segment(out, s, pos, j, pedia, overrides);
                        assert(out@ + links_from(s@, j + 6, pages, links) == goal);
                        assert(occurs_at(s@, marker@, j as int));
                        assert(j + 6 <= s.len());
                        pos = j + 6;
                    },
                    None => {
                        push_segment(out, s, pos, s.len(), pedia, overrides);
                        assert(out@ == goal);
                        break ;
                    },
                }
            }
        },
    }
}

/// Translates annotated text into wiki markup: colour tags are removed,
/// each `<link=ID>TEXT</link>` span becomes a wiki link (or a slot name),
/// a link span that is not closed is dropped, and any tag left is removed.
pub fn translate_to_wiki(text: &str, pedia: &Stationpedia, overrides: &LinkOverrides) -> (r: String)
    ensures
        r@ == translated(text@, pedia.pages@, overrides.links@),
{
    let plain = strip_color_tags(text);
    let chars = chars_of(plain.as_str());
    let mut out = String::new();
    push_linked(&mut out, &chars, pedia, overrides);
    assert(out@ == linked(without_color_tags(text@), pedia.pages@, overrides.links@));
    strip_tags(out.as_str())
}

} // verus!
