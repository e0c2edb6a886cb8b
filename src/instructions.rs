//! The instruction reference table of the wiki.

use vstd::prelude::*;
use vstd::string::StringExecFns;
use crate::catalog::Command;
use crate::tags::{strip_slash_tags, without_tags};
use crate::text::{chars_of, push_char};

verus! {

/// An instruction as the configuration places it: its category, its
/// position there, and the texts that the configuration gives for it.
#[derive(Clone, Debug)]
pub struct ConfigInstruction {
    pub command: String,
    pub category: Vec<String>,
    pub example: Option<String>,
    pub note: Option<String>,
    pub desc: Option<String>,
    pub syntax: Option<String>,
    pub info: Command,
    pub order: usize,
}

/// `s` with each `|` written as `{{!}}`, which a wiki template cell can hold.
pub open spec fn pipes_escaped(s: Seq<char>) -> Seq<char>
    decreases s.len(),
{
    if s.len() == 0 {
        s
    } else if s.last() == '|' {
        pipes_escaped(s.drop_last()) + seq!['{', '{', '!', '}', '}']
    } else {
        pipes_escaped(s.drop_last()).push(s.last())
    }
}

/// `s` with each `|` written as `{{!}}`.
pub fn escape_pipes(s: &str) -> (r: String)
    ensures
        r@ == pipes_escaped(s@),
{
    let chars = chars_of(s);
    let mut r = String::new();
    let mut i: usize = 0;
    while i < chars.len()
        invariant
            i <= chars@.len(),
            chars@ == s@,
            r@ == pipes_escaped(chars@.take(i as int)),
        decreases chars.len() - i,
    {
        assert(chars@.take(i + 1).drop_last() =~= chars@.take(i as int));
        if chars[i] == '|' {
            push_char(&mut r, '{');
            push_char(&mut r, '{');
            push_char(&mut r, '!');
            push_char(&mut r, '}');
            push_char(&mut r, '}');
            assert(r@ =~= pipes_escaped(chars@.take(i as int)) + seq!['{', '{', '!', '}', '}']);
        } else {
            push_char(&mut r, chars[i]);
        }
        i = i + 1;
    }
    assert(chars@.take(chars@.len() as int) =~= chars@);
    r
}

/// The description cell: the configured one, else the catalog's with its
/// pipes escaped.
pub open spec fn description_cell(ins: ConfigInstruction) -> Seq<char> {
    match ins.desc {
        Some(d) => d@,
        None => pipes_escaped(ins.info.desc@),
    }
}

/// The syntax cell: the configured one, else the catalog's example with its
/// pipes escaped and its tags removed.
pub open spec fn syntax_cell(ins: ConfigInstruction) -> Seq<char> {
    match ins.syntax {
        Some(s) => s@,
        None => without_tags(pipes_escaped(ins.info.example@)),
    }
}

/// An optional part of the entry: its heading line and its text.
pub open spec fn optional_part(name: Seq<char>, text: Option<String>) -> Seq<char> {
    match text {
        Some(t) => "\n|"@ + name + "=\n"@ + t@,
        None => seq![],
    }
}

/// The table entry of one instruction.
pub open spec fn instruction_entry(ins: ConfigInstruction) -> Seq<char> {
    "{{ICInstruction|instruction="@ + ins.command@ + "|description="@ + description_cell(ins)
        + "|syntax="@ + syntax_cell(ins) + optional_part("example"@, ins.example)
        + optional_part("note"@, ins.note) + "}}\n"@
}

/// The entries of a run of instructions, in order.
pub open spec fn instruction_entries(inss: Seq<ConfigInstruction>) -> Seq<char>
    decreases inss.len(),
{
    if inss.len() == 0 {
        seq![]
    } else {
        instruction_entries(inss.drop_last()) + instruction_entry(inss.last())
    }
}

/// Appends an optional part of an entry.
fn push_optional_part(out: &mut String, name: &str, text: &Option<String>)
    ensures
        final(out)@ == old(out)@ + optional_part(name@, *text),
{
    if let Some(t) = text {
        out.append("\n|");
        out.append(name);
        out.append("=\n");
        out.append(t.as_str());
    } else {
        assert(old(out)@ + seq![] =~= old(out)@);
    }
}

/// Appends the table entry of one instruction.
fn push_entry(output: &mut String, ins: &ConfigInstruction)
    ensures
        final(output)@ == old(output)@ + instruction_entry(*ins),
{
    let desc = match &ins.desc {
        Some(d) => d.clone(),
        None => escape_pipes(ins.info.desc.as_str()),
    };
    let syntax = match &ins.syntax {
        Some(s) => s.clone(),
        None => strip_slash_tags(escape_pipes(ins.info.example.as_str()).as_str()),
    };
    output.append("{{ICInstruction|instruction=");
    output.append(ins.command.as_str());
    output.append("|description=");
    output.append(desc.as_str());
    output.append("|syntax=");
    output.append(syntax.as_str());
    push_optional_part(output, "example", &ins.example);
    push_optional_part(output, "note", &ins.note);
    output.append("}}\n");
}

/// Appends the table entry of each instruction, in order.
pub fn render(inss: &Vec<ConfigInstruction>, output: &mut String)
    ensures
        final(output)@ == old(output)@ + instruction_entries(inss@),
{
    let mut i: usize = 0;
    assert(inss@.take(0) =~= seq![]);
    assert(old(output)@ + seq![] =~= old(output)@);
    while i < inss.len()
        invariant
            i <= inss@.len(),
            output@ == old(output)@ + instruction_entries(inss@.take(i as int)),
        decreases inss.len() - i,
    {
        push_entry(output, &inss[i]);
        assert(inss@.take(i + 1).drop_last() =~= inss@.take(i as int));
        i = i + 1;
    }
    assert(inss@.take(inss@.len() as int) =~= inss@);
}

/// `sorted` with `ins` placed after every entry whose order is at most its
/// own, and before the entries after those.
pub open spec fn insert_by_order(sorted: Seq<ConfigInstruction>, ins: ConfigInstruction) -> Seq<
    ConfigInstruction,
>
    decreases sorted.len(),
{
    if sorted.len() == 0 || sorted.last().order <= ins.order {
        sorted.push(ins)
    } else {
        insert_by_order(sorted.drop_last(), ins).push(sorted.last())
    }
}

/// The instructions ordered by their position in the configuration; those
/// at one position keep the order they came in.
pub open spec fn by_order(inss: Seq<ConfigInstruction>) -> Seq<ConfigInstruction>
    decreases inss.len(),
{
    if inss.len() == 0 {
        inss
    } else {
        insert_by_order(by_order(inss.drop_last()), inss.last())
    }
}

/// The view of a category path.
pub open spec fn path_view(path: Seq<String>) -> Seq<Seq<char>> {
    path.map_values(|s: String| s@)
}

/// The instructions of one category, in the order they came in.
pub open spec fn of_category(inss: Seq<ConfigInstruction>, category: Seq<Seq<char>>) -> Seq<
    ConfigInstruction,
>
    decreases inss.len(),
{
    if inss.len() == 0 {
        inss
    } else if path_view(inss.last().category@) == category {
        of_category(inss.drop_last(), category).push(inss.last())
    } else {
        of_category(inss.drop_last(), category)
    }
}

/// The parts joined, with `sep` between each two.
pub open spec fn joined(parts: Seq<Seq<char>>, sep: Seq<char>) -> Seq<char>
    decreases parts.len(),
{
    if parts.len() == 0 {
        seq![]
    } else if parts.len() == 1 {
        parts[0]
    } else {
        joined(parts.drop_last(), sep) + sep + parts.last()
    }
}

/// `n` equals signs.
pub open spec fn equals_run(n: nat) -> Seq<char> {
    Seq::new(n, |i: int| '=')
}

/// The heading of a category: its path joined by ` / `, between runs of
/// one more equals sign than the path has levels.
pub open spec fn category_heading(category: Seq<Seq<char>>) -> Seq<char> {
    equals_run(category.len() + 1) + " "@ + joined(category, " / "@) + " "@ + equals_run(
        category.len() + 1,
    ) + "\n\n"@
}

/// Whether a category is listed: one under `Deprecated` is not.
pub open spec fn is_listed(category: Seq<Seq<char>>) -> bool {
    !(category.len() > 0 && category[0] == "Deprecated"@)
}

/// The sections of the first `n` categories: each listed one with its
/// heading, its instructions by order, and a blank line.
pub open spec fn sections(
    categories: Seq<Seq<Seq<char>>>,
    inss: Seq<ConfigInstruction>,
    n: int,
) -> Seq<char>
    decreases n,
{
    if n <= 0 {
        seq![]
    } else if is_listed(categories[n - 1]) {
        sections(categories, inss, n - 1) + category_heading(categories[n - 1])
            + instruction_entries(by_order(of_category(inss, categories[n - 1]))) + "\n"@
    } else {
        sections(categories, inss, n - 1)
    }
}

/// The opening of the instruction page.
pub open spec fn page_preamble() -> Seq<char> {
    "<noinclude>\nSee [[IC10]] for the primary page for the IC10 instruction set. This page lists all available instructions\n</noinclude>\n\n"@
}

/// The instructions at the given indices.
pub open spec fn at_indices(inss: Seq<ConfigInstruction>, idx: Seq<usize>) -> Seq<ConfigInstruction> {
    idx.map_values(|k: usize| inss[k as int])
}

/// Places index `k` after every index of `sorted` whose instruction's order
/// is at most that of instruction `k`.
fn insert_in_order(sorted: &mut Vec<usize>, k: usize, inss: &Vec<ConfigInstruction>)
    requires
        k < inss@.len(),
        forall|j: int| 0 <= j < old(sorted)@.len() ==> old(sorted)@[j] < inss@.len(),
    ensures
        at_indices(inss@, final(sorted)@) == insert_by_order(
            at_indices(inss@, old(sorted)@),
            inss@[k as int],
        ),
        forall|j: int| 0 <= j < final(sorted)@.len() ==> final(sorted)@[j] < inss@.len(),
    decreases old(sorted)@.len(),
{
    let ghost before = at_indices(inss@, sorted@);
    if sorted.len() == 0 || inss[sorted[sorted.len() - 1]].order <= inss[k].order {
        sorted.push(k);
        assert(at_indices(inss@, sorted@) =~= before.push(inss@[k as int]));
    } else {
        let last = sorted.pop().unwrap();
        assert(at_indices(inss@, sorted@) =~= before.drop_last());
        insert_in_order(sorted, k, inss);
        let ghost mid = at_indices(inss@, sorted@);
        sorted.push(last);
        assert(at_indices(inss@, sorted@) =~= mid.push(inss@[last as int]));
    }
}

/// Whether two category paths are the same.
fn same_path(a: &Vec<String>, b: &Vec<String>) -> (r: bool)
    ensures
        r == (path_view(a@) == path_view(b@)),
{
    if a.len() != b.len() {
        assert(path_view(a@).len() != path_view(b@).len());
        return false;
    }
    let mut i: usize = 0;
    while i < a.len()
        invariant
            i <= a@.len(),
            a@.len() == b@.len(),
            forall|k: int| 0 <= k < i ==> a@[k]@ == b@[k]@,
        decreases a.len() - i,
    {
        if a[i] != b[i] {
            assert(path_view(a@)[i as int] != path_view(b@)[i as int]);
            return false;
        }
        i = i + 1;
    }
    assert(path_view(a@) =~= path_view(b@));
    true
}

/// Appends `n` equals signs.
fn push_equals(out: &mut String, n: usize)
    ensures
        final(out)@ == old(out)@ + equals_run(n as nat),
{
    let mut i: usize = 0;
    while i < n
        invariant
            i <= n,
            out@ == old(out)@ + equals_run(i as nat),
        decreases n - i,
    {
        push_char(out, '=');
        assert(equals_run((i + 1) as nat) =~= equals_run(i as nat).push('='));
        i = i + 1;
    }
}

/// Appends the heading of a category.
fn push_heading(out: &mut String, category: &Vec<String>)
    requires
        category@.len() < usize::MAX,
    ensures
        final(out)@ == old(out)@ + category_heading(path_view(category@)),
{
    let ghost path = path_view(category@);
    let ghost start = out@;
    push_equals(out, category.len() + 1);
    out.append(" ");
    let ghost before_join = out@;
    let mut i: usize = 0;
    while i < category.len()
        invariant
            i <= category@.len(),
            path == path_view(category@),
            out@ == before_join + joined(path.take(i as int), " / "@),
        decreases category.len() - i,
    {
        if i > 0 {
            out.append(" / ");
        }
        out.append(category[i].as_str());
        proof {
            let t = path.take(i + 1);
            assert(t.drop_last() =~= path.take(i as int));
            if i == 0 {
                assert(joined(path.take(0), " / "@) =~= seq![]);
            }
        }
        i = i + 1;
    }
    assert(path.take(category@.len() as int) =~= path);
    out.append(" ");
    push_equals(out, category.len() + 1);
    out.append("\n\n");
}

/// The instruction page: for each listed category, in the order given, its
/// heading and the entries of its instructions by order.
pub fn instructions_page(categories: &Vec<Vec<String>>, instructions: &Vec<ConfigInstruction>) -> (r:
    String)
    requires
        forall|k: int| 0 <= k < categories@.len() ==> categories@[k]@.len() < usize::MAX,
    ensures
        r@ == page_preamble() + sections(
            categories@.map_values(|c: Vec<String>| path_view(c@)),
            instructions@,
            categories@.len() as int,
        ),
{
    let ghost cats = categories@.map_values(|c: Vec<String>| path_view(c@));
    let mut out = String::new();
    out.append(
        "<noinclude>\nSee [[IC10]] for the primary page for the IC10 instruction set. This page lists all available instructions\n</noinclude>\n\n",
    );
    let mut c: usize = 0;
    while c < categories.len()
        invariant
            c <= categories@.len(),
            cats == categories@.map_values(|c: Vec<String>| path_view(c@)),
            forall|k: int| 0 <= k < categories@.len() ==> categories@[k]@.len() < usize::MAX,
            out@ == page_preamble() + sections(cats, instructions@, c as int),
        decreases categories.len() - c,
    {
        let category = &categories[c];
        let ghost path = path_view(category@);
        assert(cats[c as int] == path);
        let deprecated = category.len() > 0 && category[0] == "Deprecated".to_owned();
        if !deprecated {
            let ghost before = out@;
            push_heading(&mut out, category);
            let mut group: Vec<usize> = Vec::new();
            let mut i: usize = 0;
            assert(instructions@.take(0) =~= seq![]);
            assert(at_indices(instructions@, group@) =~= seq![]);
            while i < instructions.len()
                invariant
                    i <= instructions@.len(),
                    path == path_view(category@),
                    forall|j: int| 0 <= j < group@.len() ==> group@[j] < instructions@.len(),
                    at_indices(instructions@, group@) == by_order(
                        of_category(instructions@.take(i as int), path),
                    ),
                decreases instructions.len() - i,
            {
                let ghost prefix = instructions@.take(i as int);
                assert(instructions@.take(i + 1).drop_last() =~= prefix);
                assert(instructions@.take(i + 1).last() == instructions@[i as int]);
                if same_path(&instructions[i].category, category) {
                    assert(of_category(prefix, path).push(instructions@[i as int]).drop_last()
                        =~= of_category(prefix, path));
                    insert_in_order(&mut group, i, instructions);
                }
                i = i + 1;
            }
            assert(instructions@.take(instructions@.len() as int) =~= instructions@);
            let ghost ordered = at_indices(instructions@, group@);
            let ghost before_entries = out@;
            let mut j: usize = 0;
            assert(ordered.take(0) =~= seq![]);
            assert(before_entries + seq![] =~= before_entries);
            while j < group.len()
                invariant
                    j <= group@.len(),
                    ordered == at_indices(instructions@, group@),
                    forall|q: int| 0 <= q < group@.len() ==> group@[q] < instructions@.len(),
                    out@ == before_entries + instruction_entries(ordered.take(j as int)),
                decreases group.len() - j,
            {
                push_entry(&mut out, &instructions[group[j]]);
                assert(ordered.take(j + 1).drop_last() =~= ordered.take(j as int));
                j = j + 1;
            }
            assert(ordered.take(group@.len() as int) =~= ordered);
            out.append("\n");
        }
        c = c + 1;
    }
    out
}

} // verus!
