//! The wiki boxes of a catalog page: its quoted description and its
//! structure box.

use vstd::prelude::*;
use vstd::string::StringExecFns;
use crate::catalog::{page_with_prefab_name, BuildState, Page, Stationpedia, Structure, Tool};
use crate::text::{decimal, push_count, push_decimal};
use crate::wiki::{translate_to_wiki, translated, LinkOverrides};

verus! {

/// What `textwrap::dedent` makes of a text.
pub uninterp spec fn dedented(s: Seq<char>) -> Seq<char>;

/// Relies on `textwrap::dedent`: the common leading whitespace of the
/// lines is removed; the result depends on the text alone.
#[verifier::external_body]
fn dedent(s: &str) -> (r: String)
    ensures
        r@ == dedented(s@),
{
    textwrap::dedent(s)
}

/// The opening of a quoted description.
pub open spec fn quote_open() -> Seq<char> {
    dedented("<blockquote><q>"@)
}

/// The closing of a quoted description.
pub open spec fn quote_close() -> Seq<char> {
    "</q><br>\n'''- Stationpedia'''</blockquote>"@
}

/// Why a structure box cannot be written.
#[derive(Clone, Debug, PartialEq, Eq)]
pub enum StructureError {
    /// A tool or an item names a prefab that the catalog lacks.
    UnknownPrefab,
    /// A build state lists no exit tool or no placing item where one is read.
    MissingTool,
    /// A build state lists more than one exit tool.
    SeveralExitTools,
    /// The first build state is placed with a tool.
    ToolAtPlacement,
    /// A build state made without a tool lists more than one item.
    SeveralItems,
}

/// The title of the page with the given prefab name.
pub open spec fn title_of(pages: Seq<Page>, name: Seq<char>) -> Option<Seq<char>> {
    match page_with_prefab_name(pages, name) {
        Some(p) => Some(p.title@),
        None => None,
    }
}

/// A tool or an item, with its quantity where it has one: `3 x [[Name]]`.
pub open spec fn counted_link(quantity: Option<i64>, title: Seq<char>) -> Seq<char> {
    match quantity {
        Some(q) => decimal(q as int) + " x "@ + "[["@ + title + "]]"@,
        None => "[["@ + title + "]]"@,
    }
}

/// Whether one of `tools` is a tool proper.
pub open spec fn has_tool(tools: Seq<Tool>) -> bool {
    exists|i: int| 0 <= i < tools.len() && tools[i].is_tool
}

/// The exit tool line of build state `count`.
pub open spec fn exit_rows(state: BuildState, count: nat, pages: Seq<Page>) -> Result<
    Seq<char>,
    StructureError,
> {
    match state.tool_exit {
        None => Ok(seq![]),
        Some(exit) => if exit@.len() > 1 {
            Err(StructureError::SeveralExitTools)
        } else if exit@.len() == 0 {
            Err(StructureError::MissingTool)
        } else {
            match title_of(pages, exit@[0].prefab_name@) {
                None => Err(StructureError::UnknownPrefab),
                Some(t) => Ok(
                    "| decon_with_tool"@ + decimal(count + 1 as int) + " = [["@ + t + "]]\n"@,
                ),
            }
        },
    }
}

/// The lines for what builds state `count`, and the recommended item
/// after it; `rec` is the one before it.
pub open spec fn build_rows(
    state: BuildState,
    count: nat,
    rec: Option<Seq<char>>,
    pages: Seq<Page>,
) -> Result<(Seq<char>, Option<Seq<char>>), StructureError> {
    match state.tool {
        None => Ok((seq![], rec)),
        Some(tools) => {
            let tools = tools@;
            if count == 0 {
                if has_tool(tools) {
                    Err(StructureError::ToolAtPlacement)
                } else if tools.len() == 0 {
                    Err(StructureError::MissingTool)
                } else {
                    match title_of(pages, tools[0].prefab_name@) {
                        None => Err(StructureError::UnknownPrefab),
                        Some(t) => Ok(
                            (
                                "| placed_with_item = [["@ + t + "]]\n"@ + "| item_rec1 = [["@ + t
                                    + "]]\n"@,
                                rec,
                            ),
                        ),
                    }
                }
            } else if has_tool(tools) && tools.len() > 0 {
                match title_of(pages, tools[0].prefab_name@) {
                    None => Err(StructureError::UnknownPrefab),
                    Some(t1) => {
                        let line1 = "| const_with_tool"@ + decimal(count as int) + " = "@
                            + counted_link(tools[0].quantity, t1) + "\n"@;
                        if tools.len() > 1 {
                            match title_of(pages, tools[1].prefab_name@) {
                                None => Err(StructureError::UnknownPrefab),
                                Some(t2) => {
                                    let item = counted_link(tools[1].quantity, t2);
                                    Ok(
                                        (
                                            line1 + "| const_with_item"@ + decimal(count as int)
                                                + " = "@ + item + "\n"@,
                                            Some(item),
                                        ),
                                    )
                                },
                            }
                        } else {
                            Ok((line1, None))
                        }
                    },
                }
            } else if tools.len() == 0 {
                Ok((seq![], rec))
            } else {
                match title_of(pages, tools[0].prefab_name@) {
                    None => Err(StructureError::UnknownPrefab),
                    Some(t1) => if tools.len() > 1 {
                        Err(StructureError::SeveralItems)
                    } else {
                        let item = counted_link(tools[0].quantity, t1);
                        Ok(
                            (
                                "| const_with_item"@ + decimal(count as int) + " = "@ + item
                                    + "\n"@,
                                Some(item),
                            ),
                        )
                    },
                }
            }
        },
    }
}

/// The lines of build state `count`, and the recommended item after it.
pub open spec fn state_rows(
    state: BuildState,
    count: nat,
    rec: Option<Seq<char>>,
    pages: Seq<Page>,
) -> Result<(Seq<char>, Option<Seq<char>>), StructureError> {
    match exit_rows(state, count, pages) {
        Err(e) => Err(e),
        Ok(exit) => match build_rows(state, count, rec, pages) {
            Err(e) => Err(e),
            Ok((lines, rec2)) => Ok(
                (
                    exit + lines + match rec2 {
                        Some(r) => "| item_rec"@ + decimal(count + 1 as int) + " = "@ + r + "\n"@,
                        None => seq![],
                    },
                    rec2,
                ),
            ),
        },
    }
}

/// The lines of the build states from index `i` on.
pub open spec fn states_rows(
    states: Seq<BuildState>,
    i: nat,
    rec: Option<Seq<char>>,
    pages: Seq<Page>,
) -> Result<Seq<char>, StructureError>
    decreases states.len() - i,
{
    if i >= states.len() {
        Ok(seq![])
    } else {
        match state_rows(states[i as int], i, rec, pages) {
            Err(e) => Err(e),
            Ok((lines, rec2)) => match states_rows(states, i + 1, rec2, pages) {
                Err(e) => Err(e),
                Ok(rest) => Ok(lines + rest),
            },
        }
    }
}

/// The title of the page with the given prefab name, or the error.
fn title_for<'a>(pedia: &'a Stationpedia, name: &String) -> (r: Result<&'a String, StructureError>)
    ensures
        match title_of(pedia.pages@, name@) {
            Some(t) => r is Ok && r->Ok_0@ == t,
            None => r == Err::<&String, StructureError>(StructureError::UnknownPrefab),
        },
{
    match pedia.lookup_prefab_name(name.as_str()) {
        Some(page) => Ok(&page.title),
        None => Err(StructureError::UnknownPrefab),
    }
}

/// `counted_link` as a string.
fn counted_link_string(quantity: Option<i64>, title: &String) -> (r: String)
    ensures
        r@ == counted_link(quantity, title@),
{
    let mut r = String::new();
    if let Some(q) = quantity {
        push_decimal(&mut r, q);
        r.append(" x ");
    }
    r.append("[[");
    r.append(title.as_str());
    r.append("]]");
    r
}

/// Whether one of `tools` is a tool proper.
fn any_tool(tools: &Vec<Tool>) -> (r: bool)
    ensures
        r == has_tool(tools@),
{
    let mut i: usize = 0;
    while i < tools.len()
        invariant
            i <= tools@.len(),
            forall|k: int| 0 <= k < i ==> !tools@[k].is_tool,
        decreases tools.len() - i,
    {
        if tools[i].is_tool {
            return true;
        }
        i = i + 1;
    }
    false
}

/// The rows for the exit tool of build state `count`.
fn push_exit_rows(out: &mut String, state: &BuildState, count: usize, pedia: &Stationpedia) -> (r:
    Result<(), StructureError>)
    requires
        count < usize::MAX,
    ensures
        match exit_rows(*state, count as nat, pedia.pages@) {
            Err(e) => r == Err::<(), StructureError>(e),
            Ok(lines) => r is Ok && final(out)@ == old(out)@ + lines,
        },
{
    if let Some(exit) = &state.tool_exit {
        if exit.len() > 1 {
            return Err(StructureError::SeveralExitTools);
        }
        if exit.len() == 0 {
            return Err(StructureError::MissingTool);
        }
        let t = match title_for(pedia, &exit[0].prefab_name) {
            Ok(t) => t,
            Err(e) => return Err(e),
        };
        out.append("| decon_with_tool");
        push_count(out, count + 1);
        out.append(" = [[");
        out.append(t.as_str());
        out.append("]]\n");
    }
    Ok(())
}

/// The rows for what builds state `count`; `rec` becomes the recommended
/// item after it.
fn push_build_rows(
    out: &mut String,
    state: &BuildState,
    count: usize,
    rec: &mut Option<String>,
    pedia: &Stationpedia,
) -> (r: Result<(), StructureError>)
    ensures
        match build_rows(*state, count as nat, old(rec).deep_view(), pedia.pages@) {
            Err(e) => r == Err::<(), StructureError>(e),
            Ok((lines, rec2)) => r is Ok && final(out)@ == old(out)@ + lines
                && final(rec).deep_view() == rec2,
        },
{
    if let Some(tools) = &state.tool {
        let tool_in = any_tool(tools);
        if count == 0 {
            if tool_in {
                return Err(StructureError::ToolAtPlacement);
            }
            if tools.len() == 0 {
                return Err(StructureError::MissingTool);
            }
            let t = match title_for(pedia, &tools[0].prefab_name) {
                Ok(t) => t,
                Err(e) => return Err(e),
            };
            out.append("| placed_with_item = [[");
            out.append(t.as_str());
            out.append("]]\n");
            out.append("| item_rec1 = [[");
            out.append(t.as_str());
            out.append("]]\n");
        } else if tool_in && tools.len() > 0 {
            let t1 = match title_for(pedia, &tools[0].prefab_name) {
                Ok(t) => t,
                Err(e) => return Err(e),
            };
            let first = counted_link_string(tools[0].quantity, t1);
            out.append("| const_with_tool");
            push_count(out, count);
            out.append(" = ");
            out.append(first.as_str());
            out.append("\n");
            *rec = None;
            if tools.len() > 1 {
                let t2 = match title_for(pedia, &tools[1].prefab_name) {
                    Ok(t) => t,
                    Err(e) => return Err(e),
                };
                let item = counted_link_string(tools[1].quantity, t2);
                out.append("| const_with_item");
                push_count(out, count);
                out.append(" = ");
                out.append(item.as_str());
                out.append("\n");
                *rec = Some(item);
            }
        } else if tools.len() > 0 {
            let t1 = match title_for(pedia, &tools[0].prefab_name) {
                Ok(t) => t,
                Err(e) => return Err(e),
            };
            if tools.len() > 1 {
                return Err(StructureError::SeveralItems);
            }
            let item = counted_link_string(tools[0].quantity, t1);
            out.append("| const_with_item");
            push_count(out, count);
            out.append(" = ");
            out.append(item.as_str());
            out.append("\n");
            *rec = Some(item);
        }
    }
    Ok(())
}

/// The rows of build state `count`; `rec` becomes the recommended item
/// after it.
fn push_state_rows(
    out: &mut String,
    state: &BuildState,
    count: usize,
    rec: &mut Option<String>,
    pedia: &Stationpedia,
) -> (r: Result<(), StructureError>)
    requires
        count < usize::MAX,
    ensures
        match state_rows(*state, count as nat, old(rec).deep_view(), pedia.pages@) {
            Err(e) => r == Err::<(), StructureError>(e),
            Ok((lines, rec2)) => r is Ok && final(out)@ == old(out)@ + lines
                && final(rec).deep_view() == rec2,
        },
{
    let ghost start = out@;
    match push_exit_rows(out, state, count, pedia) {
        Ok(()) => {},
        Err(e) => return Err(e),
    }
    let ghost mid = out@;
    match push_build_rows(out, state, count, rec, pedia) {
        Ok(()) => {},
        Err(e) => return Err(e),
    }
    let ghost end = out@;
    if let Some(r) = rec {
        out.append("| item_rec");
        push_count(out, count + 1);
        out.append(" = ");
        out.append(r.as_str());
        out.append("\n");
    }
    proof {
        let tail = out@.subrange(end.len() as int, out@.len() as int);
        assert(out@ =~= end + tail);
        assert(end =~= mid + end.subrange(mid.len() as int, end.len() as int));
        assert(mid =~= start + mid.subrange(start.len() as int, mid.len() as int));
    }
    Ok(())
}

/// Appends the rows of all build states of `structure`.
pub fn push_structure_rows(out: &mut String, structure: &Structure, pedia: &Stationpedia) -> (r:
    Result<(), StructureError>)
    ensures
        match states_rows(structure.build_states.0@, 0, None, pedia.pages@) {
            Err(e) => r == Err::<(), StructureError>(e),
            Ok(lines) => r is Ok && final(out)@ == old(out)@ + lines,
        },
{
    let states = &structure.build_states.0;
    let ghost pages = pedia.pages@;
    let ghost start = out@;
    let ghost whole = states_rows(states@, 0, None, pages);
    let mut rec: Option<String> = None;
    let mut i: usize = 0;
    assert(out@.subrange(0, start.len() as int) =~= start);
    assert(out@.subrange(start.len() as int, out@.len() as int) + states_rows(states@, 0, None, pages)->Ok_0 =~= states_rows(states@, 0, None, pages)->Ok_0);
    while i < states.len()
        invariant
            i <= states@.len(),
            pages == pedia.pages@,
            states@ == structure.build_states.0@,
            whole == states_rows(states@, 0, None, pages),
            out@.len() >= start.len(),
            out@.subrange(0, start.len() as int) == start,
            whole == match states_rows(states@, i as nat, rec.deep_view(), pages) {
                Err(e) => Err(e),
                Ok(rest) => Ok(out@.subrange(start.len() as int, out@.len() as int) + rest),
            },
        decreases states.len() - i,
    {
        let ghost before = out@;
        let ghost rec_before = rec.deep_view();
        match push_state_rows(out, &states[i], i, &mut rec, pedia) {
            Ok(()) => {},
            Err(e) => return Err(e),
        }
        proof {
            let written = before.subrange(start.len() as int, before.len() as int);
            let lines = out@.subrange(before.len() as int, out@.len() as int);
            assert(out@ =~= before + lines);
            assert(out@.subrange(start.len() as int, out@.len() as int) =~= written + lines);
            assert(out@.subrange(0, start.len() as int) =~= before.subrange(0, start.len() as int));
            match state_rows(states@[i as int], i as nat, rec_before, pages) {
                Ok((l, r2)) => {
                    assert(lines =~= l);
                },
                Err(_) => {},
            }
            match states_rows(states@, (i + 1) as nat, rec.deep_view(), pages) {
                Err(e) => {},
                Ok(rest) => {
                    assert(written + (lines + rest) =~= (written + lines) + rest);
                },
            }
        }
        i = i + 1;
    }
    proof {
        let written = out@.subrange(start.len() as int, out@.len() as int);
        assert(written + seq![] =~= written);
        assert(out@ =~= start + written);
    }
    Ok(())
}

/// The indentation of the header lines, as the box template is written.
pub open spec fn indent() -> Seq<char> {
    "                "@
}

/// The opening of a structure box, before its common indentation is removed.
pub open spec fn structure_header(title: Seq<char>, prefab_name: Seq<char>, prefab_hash: i64) -> Seq<
    char,
> {
    "\n"@ + indent() + "{{Structurebox\n"@ + indent() + "| name = "@ + title + "\n"@ + indent()
        + "| image = [[File:"@ + prefab_name + ".png]]\n"@ + indent() + "| prefab_hash = "@
        + decimal(prefab_hash as int) + "\n"@ + indent() + "| prefab_name = "@ + prefab_name
        + "\n"@
}

/// The power row of a structure box, where the page gives a power draw.
pub open spec fn power_row(power: Option<String>) -> Seq<char> {
    match power {
        Some(p) => "| power_usage = "@ + p@ + "\n"@,
        None => seq![],
    }
}

/// The grid row of a structure box.
pub open spec fn grid_row(small_grid: bool) -> Seq<char> {
    if small_grid {
        "| placed_on_grid = Small Grid\n"@
    } else {
        "| placed_on_grid = Large Grid\n"@
    }
}

impl Page {
    /// The structure box of the page, where its thing is a structure.
    pub fn structure(&self, pedia: &Stationpedia) -> (r: Result<Option<String>, StructureError>)
        ensures
            match self.structure {
                None => r == Ok::<Option<String>, StructureError>(None),
                Some(st) => match states_rows(st.build_states.0@, 0, None, pedia.pages@) {
                    Err(e) => r == Err::<Option<String>, StructureError>(e),
                    Ok(rows) => match r {
                        Ok(Some(text)) => text@ == dedented(
                            structure_header(self.title@, self.prefab_name@, self.prefab_hash),
                        ) + power_row(self.base_power_draw) + grid_row(st.small_grid) + rows
                            + "}}"@,
                        _ => false,
                    },
                },
            },
    {
        let structure = match &self.structure {
            Some(s) => s,
            None => return Ok(None),
        };
        let mut header = String::new();
        header.append("\n");
        header.append("                ");
        header.append("{{Structurebox\n");
        header.append("                ");
        header.append("| name = ");
        header.append(self.title.as_str());
        header.append("\n");
        header.append("                ");
        header.append("| image = [[File:");
        header.append(self.prefab_name.as_str());
        header.append(".png]]\n");
        header.append("                ");
        header.append("| prefab_hash = ");
        push_decimal(&mut header, self.prefab_hash);
        header.append("\n");
        header.append("                ");
        header.append("| prefab_name = ");
        header.append(self.prefab_name.as_str());
        header.append("\n");
        let mut out = dedent(header.as_str());
        if let Some(power) = &self.base_power_draw {
            out.append("| power_usage = ");
            out.append(power.as_str());
            out.append("\n");
        }
        if structure.small_grid {
            out.append("| placed_on_grid = Small Grid\n");
        } else {
            out.append("| placed_on_grid = Large Grid\n");
        }
        match push_structure_rows(&mut out, structure, pedia) {
            Ok(()) => {},
            Err(e) => return Err(e),
        }
        out.append("}}");
        Ok(Some(out))
    }

    /// The page's description, translated and quoted; none where the page
    /// has no description.
    pub fn description(&self, pedia: &Stationpedia, overrides: &LinkOverrides) -> (r: Option<String>)
        ensures
            self.description@.len() == 0 ==> r is None,
            self.description@.len() > 0 ==> r is Some && r->0@ == quote_open() + translated(
                self.description@,
                pedia.pages@,
                overrides.links@,
            ) + quote_close(),
    {
        if self.description.as_str().is_empty() {
            return None;
        }
        let mut out = dedent("<blockquote><q>");
        let body = translate_to_wiki(self.description.as_str(), pedia, overrides);
        out.append(body.as_str());
        out.append("</q><br>\n'''- Stationpedia'''</blockquote>");
        Some(out)
    }
}

} // verus!
