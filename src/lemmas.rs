//! Laws of the translation, proved over its specification.

use vstd::prelude::*;
use crate::catalog::{page_with_key, Page};
use crate::tags::{color_open_end, starts_with, tag_end, without_color_tags, without_tags};
use crate::text::{find_from, has_part, lemma_find_from, lemma_find_from_is, occurs_at};
use crate::wiki::{
    link_close, link_open, link_target, linked, links_from, override_for, rendered_segment,
    resolved_link, slot_prefix, translated, wiki_link, LinkOverride,
};

verus! {

/// No colour tag, opening or closing, starts at index `i` of `s`.
pub open spec fn no_color_tag_at(s: Seq<char>, i: int) -> bool {
    color_open_end(s.skip(i)) is None && !starts_with(s.skip(i), "</color>"@)
}

/// `s` holds no tag: no `<` in it is followed by a `>` with at least one
/// character between them and no `>` before.
pub open spec fn tag_free(s: Seq<char>) -> bool {
    forall|i: int| 0 <= i < s.len() ==> #[trigger] tag_end(s.skip(i)) is None
}

/// Text in which no colour tag starts is left as it is by colour stripping.
pub proof fn lemma_color_free(s: Seq<char>)
    requires
        forall|i: int| 0 <= i < s.len() && s[i] == '<' ==> no_color_tag_at(s, i),
    ensures
        without_color_tags(s) == s,
    decreases s.len(),
{
    reveal_strlit("<color=");
    reveal_strlit("</color>");
    if s.len() > 0 {
        assert(s.skip(0) =~= s);
        if s[0] != '<' {
            if starts_with(s, "<color="@) {
                assert(s.take(7)[0] == s[0]);
            }
            if starts_with(s, "</color>"@) {
                assert(s.take(8)[0] == s[0]);
            }
        } else {
            assert(no_color_tag_at(s, 0));
        }
        assert(color_open_end(s) is None);
        let t = s.drop_first();
        assert forall|i: int| 0 <= i < t.len() && t[i] == '<' implies no_color_tag_at(t, i) by {
            assert(t.skip(i) =~= s.skip(i + 1));
            assert(s[i + 1] == '<');
        }
        lemma_color_free(t);
        assert(seq![s[0]] + t =~= s);
    }
}

/// Tag removal leaves text that holds no tag as it is.
pub proof fn lemma_tag_free_kept(s: Seq<char>)
    requires
        tag_free(s),
    ensures
        without_tags(s) == s,
    decreases s.len(),
{
    if s.len() > 0 {
        assert(s.skip(0) =~= s);
        assert(tag_end(s.skip(0)) is None);
        let t = s.drop_first();
        assert forall|i: int| 0 <= i < t.len() implies #[trigger] tag_end(t.skip(i)) is None by {
            assert(t.skip(i) =~= s.skip(i + 1));
            assert(tag_end(s.skip(i + 1)) is None);
        }
        lemma_tag_free_kept(t);
        assert(seq![s[0]] + t =~= s);
    }
}

/// Text without `<` holds no tag.
pub proof fn lemma_no_open_tag_free(s: Seq<char>)
    requires
        !s.contains('<'),
    ensures
        tag_free(s),
{
    assert forall|i: int| 0 <= i < s.len() implies #[trigger] tag_end(s.skip(i)) is None by {
        if s.skip(i).len() > 0 && s.skip(i)[0] == '<' {
            assert(s[i] == '<');
        }
    }
}

/// Text that holds no tag holds no colour tag either.
pub proof fn lemma_tag_free_color_free(s: Seq<char>)
    requires
        tag_free(s),
    ensures
        forall|i: int| 0 <= i < s.len() && s[i] == '<' ==> no_color_tag_at(s, i),
{
    reveal_strlit("<color=");
    reveal_strlit("</color>");
    assert forall|i: int| 0 <= i < s.len() && s[i] == '<' implies no_color_tag_at(s, i) by {
        let t = s.skip(i);
        assert(tag_end(t) is None);
        let gt = seq!['>'];
        lemma_find_from(t, gt, 1);
        if color_open_end(t) is Some {
            let e = color_open_end(t)->0;
            lemma_find_from(t, gt, 7);
            assert forall|k: int| 1 <= k < 7 implies !occurs_at(t, gt, k) by {
                assert(t.take(7)[k] == t[k]);
                assert(t.subrange(k, k + 1)[0] == t[k]);
            }
            lemma_find_from_is(t, gt, 1, Some(e));
        }
        if starts_with(t, "</color>"@) {
            assert(t.take(8)[7] == '>');
            assert(t.subrange(7, 8) =~= gt);
            assert forall|k: int| 1 <= k < 7 implies !occurs_at(t, gt, k) by {
                assert(t.take(8)[k] == t[k]);
                assert(t.subrange(k, k + 1)[0] == t[k]);
            }
            lemma_find_from_is(t, gt, 1, Some(7));
        }
    }
}

/// Tag removal keeps no character that `s` lacks.
pub proof fn lemma_without_tags_lacks(s: Seq<char>, c: char)
    requires
        !s.contains(c),
    ensures
        !without_tags(s).contains(c),
    decreases s.len(),
{
    if s.len() > 0 {
        if tag_end(s) is Some {
            let u = s.skip(tag_end(s)->0 + 1);
            assert forall|k: int| 0 <= k < u.len() implies u[k] != c by {
                assert(u[k] == s[k + tag_end(s)->0 + 1]);
            }
            lemma_without_tags_lacks(u, c);
        } else {
            let u = s.drop_first();
            assert forall|k: int| 0 <= k < u.len() implies u[k] != c by {
                assert(u[k] == s[k + 1]);
            }
            lemma_without_tags_lacks(u, c);
            let w = seq![s[0]] + without_tags(u);
            assert forall|k: int| 0 <= k < w.len() implies w[k] != c by {
                if k == 0 {
                    assert(s[0] != c);
                } else {
                    assert(w[k] == without_tags(u)[k - 1]);
                }
            }
        }
    }
}

/// What tag removal leaves holds no tag.
pub proof fn lemma_without_tags_tag_free(s: Seq<char>)
    ensures
        tag_free(without_tags(s)),
    decreases s.len(),
{
    let gt = seq!['>'];
    if s.len() == 0 {
    } else if tag_end(s) is Some {
        lemma_without_tags_tag_free(s.skip(tag_end(s)->0 + 1));
    } else {
        let t = s.drop_first();
        let w2 = without_tags(t);
        lemma_without_tags_tag_free(t);
        let w = seq![s[0]] + w2;
        assert(w == without_tags(s));
        assert forall|i: int| 0 <= i < w.len() implies #[trigger] tag_end(w.skip(i)) is None by {
            if i > 0 {
                assert(w.skip(i) =~= w2.skip(i - 1));
            } else {
                assert(w.skip(0) =~= w);
                if s[0] == '<' {
                    lemma_find_from(s, gt, 1);
                    match find_from(s, gt, 1) {
                        Some(e) => {
                            assert(e == 1);
                            assert(s.subrange(1, 2)[0] == s[1]);
                            assert(t[0] == '>');
                            assert(tag_end(t) is None);
                            assert(w2 == seq![t[0]] + without_tags(t.drop_first()));
                            assert(w[1] == '>');
                            assert(w.subrange(1, 2) =~= gt);
                            lemma_find_from_is(w, gt, 1, Some(1));
                        },
                        None => {
                            assert forall|k: int| 0 <= k < t.len() implies t[k] != '>' by {
                                if t[k] == '>' {
                                    assert(s.subrange(k + 1, k + 2) =~= gt);
                                    assert(occurs_at(s, gt, k + 1));
                                }
                            }
                            lemma_without_tags_lacks(t, '>');
                            assert forall|k: int| 1 <= k implies !occurs_at(w, gt, k) by {
                                if occurs_at(w, gt, k) {
                                    assert(w.subrange(k, k + 1)[0] == w[k]);
                                    assert(w[k] == w2[k - 1]);
                                }
                            }
                            lemma_find_from_is(w, gt, 1, None);
                        },
                    }
                }
            }
        }
    }
}

/// A link span: `<link=`, the identifier, `>`, the shown text, `</link>`.
pub open spec fn link_span(id: Seq<char>, display: Seq<char>) -> Seq<char> {
    link_open() + id + seq!['>'] + display + link_close()
}

/// No colour tag starts where `<` is followed by a character other than
/// `c`, unless that is `/` followed by something other than `c`.
pub proof fn lemma_not_color_start(u: Seq<char>)
    requires
        u.len() >= 3,
        u[0] == '<',
        u[1] != 'c',
        u[1] == '/' ==> u[2] != 'c',
    ensures
        color_open_end(u) is None,
        !starts_with(u, "</color>"@),
{
    reveal_strlit("<color=");
    reveal_strlit("</color>");
    if starts_with(u, "<color="@) {
        assert(u.take(7)[1] == u[1]);
    }
    if starts_with(u, "</color>"@) {
        assert(u.take(8)[1] == u[1]);
        assert(u.take(8)[2] == u[2]);
    }
}

/// A pattern whose first character does not occur in `s` from `from` on
/// does not occur there.
pub proof fn lemma_first_char_absent(s: Seq<char>, pat: Seq<char>, from: int)
    requires
        0 <= from,
        pat.len() > 0,
        forall|k: int| from <= k < s.len() ==> s[k] != pat[0],
    ensures
        find_from(s, pat, from) is None,
{
    assert forall|k: int| from <= k implies !occurs_at(s, pat, k) by {
        if occurs_at(s, pat, k) {
            assert(s.subrange(k, k + pat.len())[0] == s[k]);
        }
    }
    lemma_find_from_is(s, pat, from, None);
}

/// The segment after a marker that holds an identifier, `>`, a shown text
/// and `</link>` renders as the resolved link.
pub proof fn lemma_span_segment(
    id: Seq<char>,
    display: Seq<char>,
    pages: Seq<Page>,
    links: Seq<LinkOverride>,
)
    requires
        !id.contains('>'),
        !display.contains('<'),
    ensures
        rendered_segment(id + seq!['>'] + display + link_close(), pages, links) == resolved_link(
            id,
            display,
            pages,
            links,
        ),
{
    let gt = seq!['>'];
    let cl = link_close();
    let seg = id + gt + display + cl;
    let g = id.len() as int;
    assert(seg.subrange(g, g + 1) =~= gt);
    assert forall|k: int| 0 <= k < g implies !occurs_at(seg, gt, k) by {
        assert(seg.subrange(k, k + 1)[0] == id[k]);
    }
    lemma_find_from_is(seg, gt, 0, Some(g));
    let c = g + 1 + display.len();
    assert(seg.subrange(c, c + 7) =~= cl);
    assert forall|k: int| g + 1 <= k < c implies !occurs_at(seg, cl, k) by {
        assert(seg.subrange(k, k + 7)[0] == display[k - g - 1]);
    }
    lemma_find_from_is(seg, cl, g + 1, Some(c));
    assert(seg.take(g) =~= id);
    assert(seg.subrange(g + 1, c) =~= display);
    assert(seg.skip(c + 7) =~= seq![]);
    let r = resolved_link(id, display, pages, links);
    assert(r + seq![] =~= r);
}

/// A single well-formed link span, with no `<` in the identifier, the
/// shown text or what they resolve to, translates to its resolution.
pub proof fn lemma_single_span(
    id: Seq<char>,
    display: Seq<char>,
    pages: Seq<Page>,
    links: Seq<LinkOverride>,
)
    requires
        !id.contains('<'),
        !id.contains('>'),
        !display.contains('<'),
        !resolved_link(id, display, pages, links).contains('<'),
    ensures
        translated(link_span(id, display), pages, links) == resolved_link(
            id,
            display,
            pages,
            links,
        ),
{
    let s = link_span(id, display);
    let m = link_open();
    let gt = seq!['>'];
    let cl = link_close();
    let cpos = 6 + id.len() + 1 + display.len();
    assert(s.len() == cpos + 7);
    assert forall|i: int| 0 <= i < s.len() && s[i] == '<' implies i == 0 || i == cpos by {
        if 6 <= i < 6 + id.len() {
            assert(s[i] == id[i - 6]);
        } else if 6 + id.len() < i < cpos {
            assert(s[i] == display[i - 7 - id.len()]);
        } else if 0 < i < 6 || i == 6 + id.len() || cpos < i {
        }
    }
    assert forall|i: int| 0 <= i < s.len() && s[i] == '<' implies no_color_tag_at(s, i) by {
        lemma_not_color_start(s.skip(i));
    }
    lemma_color_free(s);
    assert(s.subrange(0, 6) =~= m);
    lemma_find_from_is(s, m, 0, Some(0));
    assert forall|k: int| 6 <= k implies !occurs_at(s, m, k) by {
        if occurs_at(s, m, k) {
            assert(s.subrange(k, k + 6)[0] == s[k]);
            assert(s.subrange(k, k + 6)[1] == s[k + 1]);
        }
    }
    lemma_find_from_is(s, m, 6, None);
    let seg = s.subrange(6, s.len() as int);
    assert(seg =~= id + gt + display + cl);
    assert(links_from(s, 6, pages, links) == rendered_segment(seg, pages, links));
    lemma_span_segment(id, display, pages, links);
    let r = resolved_link(id, display, pages, links);
    assert(r + seq![] =~= r);
    assert(s.take(0) + r =~= r);
    lemma_no_open_tag_free(r);
    lemma_tag_free_kept(r);
}

/// Where colour stripping leaves text that holds no tag and no link
/// marker, translating gives exactly that text, and translating the result
/// again gives it unchanged.
pub proof fn color_only_text_translates_to_plain(
    text: Seq<char>,
    pages: Seq<Page>,
    links: Seq<LinkOverride>,
)
    requires
        tag_free(without_color_tags(text)),
        !has_part(without_color_tags(text), link_open()),
    ensures
        translated(text, pages, links) == without_color_tags(text),
        translated(translated(text, pages, links), pages, links) == translated(text, pages, links),
{
    let c = without_color_tags(text);
    lemma_tag_free_kept(c);
    lemma_tag_free_color_free(c);
    lemma_color_free(c);
}

/// Whatever the input, the translation holds no tag.
pub proof fn translation_leaves_no_tag(text: Seq<char>, pages: Seq<Page>, links: Seq<LinkOverride>)
    ensures
        tag_free(translated(text, pages, links)),
{
    lemma_without_tags_tag_free(linked(without_color_tags(text), pages, links));
}

/// Two texts without `<` joined hold no `<`.
pub proof fn lemma_join_lacks_open(a: Seq<char>, b: Seq<char>)
    requires
        !a.contains('<'),
        !b.contains('<'),
    ensures
        !(a + b).contains('<'),
{
    assert forall|k: int| 0 <= k < (a + b).len() implies (a + b)[k] != '<' by {
        if k < a.len() {
            assert((a + b)[k] == a[k]);
        } else {
            assert((a + b)[k] == b[k - a.len()]);
        }
    }
}

/// A piped wiki link built of texts without `<` holds no `<`.
proof fn lemma_piped_link_lacks_open(target: Seq<char>, display: Seq<char>)
    requires
        !target.contains('<'),
        !display.contains('<'),
    ensures
        !("[["@ + target + "|"@ + display + "]]"@).contains('<'),
        !("[["@ + target + "]]"@).contains('<'),
        !wiki_link(target, display).contains('<'),
{
    reveal_strlit("[[");
    reveal_strlit("]]");
    reveal_strlit("|");
    lemma_join_lacks_open("[["@, target);
    lemma_join_lacks_open("[["@ + target, "]]"@);
    lemma_join_lacks_open("[["@ + target, "|"@);
    lemma_join_lacks_open("[["@ + target + "|"@, display);
    lemma_join_lacks_open("[["@ + target + "|"@ + display, "]]"@);
}

/// An identifier that both the override table and the catalog know links
/// to the override's target, not to the catalog page's title.
pub proof fn override_takes_precedence(
    id: Seq<char>,
    display: Seq<char>,
    pages: Seq<Page>,
    links: Seq<LinkOverride>,
)
    requires
        override_for(links, id) is Some,
        page_with_key(pages, id) is Some,
        !id.contains('<'),
        !id.contains('>'),
        !display.contains('<'),
        !override_for(links, id)->0.contains('<'),
    ensures
        translated(link_span(id, display), pages, links) == wiki_link(
            override_for(links, id)->0,
            display,
        ),
{
    lemma_piped_link_lacks_open(override_for(links, id)->0, display);
    lemma_single_span(id, display, pages, links);
}

/// A span whose shown text equals the page it links to becomes
/// `[[target]]`; one whose text differs becomes `[[target|text]]`.
pub proof fn equal_text_gives_short_link(
    id: Seq<char>,
    display: Seq<char>,
    pages: Seq<Page>,
    links: Seq<LinkOverride>,
    target: Seq<char>,
)
    requires
        link_target(id, pages, links) == Some(target),
        !id.contains('<'),
        !id.contains('>'),
        !display.contains('<'),
        !target.contains('<'),
    ensures
        display == target ==> translated(link_span(id, display), pages, links) == "[["@ + target
            + "]]"@,
        display != target ==> translated(link_span(id, display), pages, links) == "[["@ + target
            + "|"@ + display + "]]"@,
{
    lemma_piped_link_lacks_open(target, display);
    lemma_single_span(id, display, pages, links);
}

/// A span whose identifier is `Slot` and a name, where neither table knows
/// that identifier, becomes the name and the word `slot`, whatever its
/// shown text.
pub proof fn slot_span_names_the_slot(
    name: Seq<char>,
    display: Seq<char>,
    pages: Seq<Page>,
    links: Seq<LinkOverride>,
)
    requires
        link_target(slot_prefix() + name, pages, links) is None,
        !name.contains('<'),
        !name.contains('>'),
        !display.contains('<'),
    ensures
        translated(link_span(slot_prefix() + name, display), pages, links) == name + " slot"@,
{
    let id = slot_prefix() + name;
    reveal_strlit(" slot");
    assert(id.take(4) =~= slot_prefix());
    assert(id.skip(4) =~= name);
    assert forall|k: int| 0 <= k < id.len() implies id[k] != '<' && id[k] != '>' by {
        if k >= 4 {
            assert(id[k] == name[k - 4]);
        }
    }
    lemma_join_lacks_open(name, " slot"@);
    lemma_single_span(id, display, pages, links);
}

/// A span whose identifier neither table knows, and which names no slot,
/// links to the identifier itself and shows its text.
pub proof fn unknown_identifier_links_to_itself(
    id: Seq<char>,
    display: Seq<char>,
    pages: Seq<Page>,
    links: Seq<LinkOverride>,
)
    requires
        link_target(id, pages, links) is None,
        !starts_with(id, slot_prefix()),
        !id.contains('<'),
        !id.contains('>'),
        !display.contains('<'),
    ensures
        translated(link_span(id, display), pages, links) == "[["@ + id + "|"@ + display + "]]"@,
{
    lemma_piped_link_lacks_open(id, display);
    lemma_single_span(id, display, pages, links);
}

/// A link span that is never closed is dropped, with all that follows its
/// marker; the text before it stays.
pub proof fn unclosed_span_is_dropped(
    before: Seq<char>,
    rest: Seq<char>,
    pages: Seq<Page>,
    links: Seq<LinkOverride>,
)
    requires
        !before.contains('<'),
        !rest.contains('<'),
    ensures
        translated(before + link_open() + rest, pages, links) == before,
{
    let m = link_open();
    let s = before + m + rest;
    let p = before.len() as int;
    assert forall|i: int| 0 <= i < s.len() && s[i] == '<' implies i == p by {
        if i < p {
            assert(s[i] == before[i]);
        } else if i >= p + 6 {
            assert(s[i] == rest[i - p - 6]);
        }
    }
    assert forall|i: int| 0 <= i < s.len() && s[i] == '<' implies no_color_tag_at(s, i) by {
        lemma_not_color_start(s.skip(i));
    }
    lemma_color_free(s);
    assert(s.subrange(p, p + 6) =~= m);
    assert forall|k: int| 0 <= k < p implies !occurs_at(s, m, k) by {
        if occurs_at(s, m, k) {
            assert(s.subrange(k, k + 6)[0] == s[k]);
        }
    }
    lemma_find_from_is(s, m, 0, Some(p));
    lemma_first_char_absent(s, m, p + 6);
    let seg = s.subrange(p + 6, s.len() as int);
    assert(seg =~= rest);
    lemma_find_from(seg, seq!['>'], 0);
    match find_from(seg, seq!['>'], 0) {
        Some(g) => lemma_first_char_absent(seg, link_close(), g + 1),
        None => {},
    }
    assert(rendered_segment(seg, pages, links) =~= seq![]);
    assert(s.take(p) =~= before);
    assert(linked(s, pages, links) =~= before);
    lemma_no_open_tag_free(before);
    lemma_tag_free_kept(before);
}

/// Tag removal passes over a prefix without `<` unchanged.
pub proof fn lemma_without_tags_plain_prefix(a: Seq<char>, x: Seq<char>)
    requires
        !a.contains('<'),
    ensures
        without_tags(a + x) == a + without_tags(x),
    decreases a.len(),
{
    if a.len() == 0 {
        assert(a + x =~= x);
        assert(a + without_tags(x) =~= without_tags(x));
    } else {
        let t = a.drop_first();
        assert((a + x)[0] == a[0]);
        assert((a + x).drop_first() =~= t + x);
        assert forall|k: int| 0 <= k < t.len() implies t[k] != '<' by {
            assert(t[k] == a[k + 1]);
        }
        lemma_without_tags_plain_prefix(t, x);
        assert(seq![a[0]] + (t + without_tags(x)) =~= a + without_tags(x));
    }
}

/// A tag other than a colour tag or a link marker, such as `<pos=300>`, is
/// removed from the translation, and the text on either side of it stays
/// as it was.
pub proof fn leftover_tag_is_removed(
    before: Seq<char>,
    inner: Seq<char>,
    after: Seq<char>,
    pages: Seq<Page>,
    links: Seq<LinkOverride>,
)
    requires
        !before.contains('<'),
        !after.contains('<'),
        inner.len() > 0,
        !inner.contains('<'),
        !inner.contains('>'),
        !starts_with(inner, "color="@),
        inner != "/color"@,
        !starts_with(inner, "link="@),
    ensures
        translated(before + seq!['<'] + inner + seq!['>'] + after, pages, links) == before + after,
{
    reveal_strlit("color=");
    reveal_strlit("/color");
    reveal_strlit("link=");
    reveal_strlit("<color=");
    reveal_strlit("</color>");
    let n = inner.len() as int;
    let u = seq!['<'] + inner + seq!['>'] + after;
    let s = before + u;
    let p = before.len() as int;
    assert(s =~= before + seq!['<'] + inner + seq!['>'] + after);
    assert(u[n + 1] == '>');
    assert forall|k: int| 1 <= k <= n implies u[k] == inner[k - 1] && u[k] != '>' && u[k] != '<' by {
        assert(u[k] == inner[k - 1]);
    }
    // no colour tag opens at the `<`
    if starts_with(u, "<color="@) {
        if n >= 6 {
            assert forall|k: int| 0 <= k < 6 implies inner[k] == "color="@[k] by {
                assert(u.take(7)[k + 1] == u[k + 1]);
            }
            assert(inner.take(6) =~= "color="@);
        } else {
            assert(u.take(7)[n + 1] == u[n + 1]);
        }
    }
    if starts_with(u, "</color>"@) {
        if n >= 7 {
            assert(u.take(8)[7] == u[7]);
        } else if n == 6 {
            assert forall|k: int| 0 <= k < 6 implies inner[k] == "/color"@[k] by {
                assert(u.take(8)[k + 1] == u[k + 1]);
            }
            assert(inner =~= "/color"@);
        } else {
            assert(u.take(8)[n + 1] == u[n + 1]);
        }
    }
    assert(u.len() >= 3);
    assert(color_open_end(u) is None);
    assert forall|i: int| 0 <= i < s.len() && s[i] == '<' implies i == p by {
        if i < p {
            assert(s[i] == before[i]);
        } else if i > p {
            assert(s[i] == u[i - p]);
            if i - p > n + 1 {
                assert(u[i - p] == after[i - p - n - 2]);
            }
        }
    }
    assert forall|i: int| 0 <= i < s.len() && s[i] == '<' implies no_color_tag_at(s, i) by {
        assert(s.skip(i) =~= u);
    }
    lemma_color_free(s);
    // no link marker either
    let m = link_open();
    assert forall|k: int| 0 <= k implies !occurs_at(s, m, k) by {
        if occurs_at(s, m, k) {
            assert(s.subrange(k, k + 6)[0] == s[k]);
            assert(k == p);
            if n >= 5 {
                assert forall|j: int| 0 <= j < 5 implies inner[j] == "link="@[j] by {
                    assert(s.subrange(k, k + 6)[j + 1] == s[k + j + 1]);
                    assert(s[k + j + 1] == u[j + 1]);
                }
                assert(inner.take(5) =~= "link="@);
            } else {
                assert(s.subrange(k, k + 6)[n + 1] == s[k + n + 1]);
                assert(s[k + n + 1] == u[n + 1]);
            }
        }
    }
    lemma_find_from_is(s, m, 0, None);
    assert(linked(s, pages, links) == s);
    // the tag goes, the rest stays
    lemma_without_tags_plain_prefix(before, u);
    let gt = seq!['>'];
    assert(u.subrange(n + 1, n + 2) =~= gt);
    assert forall|k: int| 1 <= k < n + 1 implies !occurs_at(u, gt, k) by {
        assert(u.subrange(k, k + 1)[0] == u[k]);
    }
    lemma_find_from_is(u, gt, 1, Some(n + 1));
    assert(u.skip(n + 2) =~= after);
    lemma_no_open_tag_free(after);
    lemma_tag_free_kept(after);
}

/// A link span that is never closed before the next marker is dropped with
/// the rest of its segment; the text before it stays, and a well-formed
/// span after it is still resolved.
pub proof fn broken_span_keeps_text_around_it(
    before: Seq<char>,
    broken: Seq<char>,
    id: Seq<char>,
    display: Seq<char>,
    pages: Seq<Page>,
    links: Seq<LinkOverride>,
)
    requires
        !before.contains('<'),
        !broken.contains('<'),
        !id.contains('<'),
        !id.contains('>'),
        !display.contains('<'),
        !resolved_link(id, display, pages, links).contains('<'),
    ensures
        translated(before + link_open() + broken + link_span(id, display), pages, links) == before
            + resolved_link(id, display, pages, links),
{
    let m = link_open();
    let gt = seq!['>'];
    let cl = link_close();
    let s = before + m + broken + link_span(id, display);
    let p = before.len() as int;
    let q = p + 6 + broken.len();
    let cpos = q + 6 + id.len() + 1 + display.len();
    assert(s =~= before + m + broken + m + id + gt + display + cl);
    assert(s.len() == cpos + 7);
    assert forall|i: int| 0 <= i < s.len() && s[i] == '<' implies i == p || i == q || i == cpos by {
        if i < p {
            assert(s[i] == before[i]);
        } else if p + 6 <= i < q {
            assert(s[i] == broken[i - p - 6]);
        } else if q + 6 <= i < q + 6 + id.len() {
            assert(s[i] == id[i - q - 6]);
        } else if q + 6 + id.len() < i < cpos {
            assert(s[i] == display[i - q - 7 - id.len()]);
        }
    }
    assert forall|i: int| 0 <= i < s.len() && s[i] == '<' implies no_color_tag_at(s, i) by {
        lemma_not_color_start(s.skip(i));
    }
    lemma_color_free(s);
    assert(s.subrange(p, p + 6) =~= m);
    assert forall|k: int| 0 <= k < p implies !occurs_at(s, m, k) by {
        if occurs_at(s, m, k) {
            assert(s.subrange(k, k + 6)[0] == s[k]);
        }
    }
    lemma_find_from_is(s, m, 0, Some(p));
    assert(s.subrange(q, q + 6) =~= m);
    assert forall|k: int| p + 6 <= k < q implies !occurs_at(s, m, k) by {
        if occurs_at(s, m, k) {
            assert(s.subrange(k, k + 6)[0] == s[k]);
        }
    }
    lemma_find_from_is(s, m, p + 6, Some(q));
    assert forall|k: int| q + 6 <= k implies !occurs_at(s, m, k) by {
        if occurs_at(s, m, k) {
            assert(s.subrange(k, k + 6)[0] == s[k]);
            assert(s.subrange(k, k + 6)[1] == s[k + 1]);
        }
    }
    lemma_find_from_is(s, m, q + 6, None);
    let broken_seg = s.subrange(p + 6, q);
    assert(broken_seg =~= broken);
    lemma_find_from(broken_seg, gt, 0);
    match find_from(broken_seg, gt, 0) {
        Some(g) => lemma_first_char_absent(broken_seg, cl, g + 1),
        None => {},
    }
    assert(rendered_segment(broken_seg, pages, links) =~= seq![]);
    let seg = s.subrange(q + 6, s.len() as int);
    assert(seg =~= id + gt + display + cl);
    lemma_span_segment(id, display, pages, links);
    let r = resolved_link(id, display, pages, links);
    assert(links_from(s, q + 6, pages, links) == r);
    assert(links_from(s, p + 6, pages, links) =~= r);
    assert(s.take(p) =~= before);
    assert(linked(s, pages, links) == before + r);
    lemma_without_tags_plain_prefix(before, r);
    lemma_no_open_tag_free(r);
    lemma_tag_free_kept(r);
}

} // verus!
