//! The data network table of a device: one row per logic value, with its
//! type, access, description and values.

use vstd::prelude::*;
use vstd::string::StringExecFns;
use crate::catalog::{ModeInsert, Page, Stationpedia};
use crate::text::{chars_of, decimal, find_in, has_part, matches_at, occurs_at, push_char, push_count};
use crate::wiki::{translate_to_wiki, translated, LinkOverrides};

verus! {

/// What the text `trim` leaves of a text.
pub uninterp spec fn trimmed(s: Seq<char>) -> Seq<char>;

/// Relies on `str::trim`: leading and trailing whitespace is removed; the
/// result depends on the text alone.
#[verifier::external_body]
fn trim(s: &str) -> (r: &str)
    ensures
        r@ == trimmed(s@),
{
    s.trim()
}

/// `s` with every occurrence of `pat`, taken from left to right without
/// overlap, replaced by `rep`.
pub open spec fn replaced(s: Seq<char>, pat: Seq<char>, rep: Seq<char>) -> Seq<char>
    decreases s.len(),
{
    if s.len() == 0 {
        s
    } else if pat.len() > 0 && occurs_at(s, pat, 0) {
        rep + replaced(s.skip(pat.len() as int), pat, rep)
    } else {
        seq![s[0]] + replaced(s.drop_first(), pat, rep)
    }
}

/// Appends `s` with every occurrence of `pat` replaced by `rep`.
fn push_replaced(out: &mut String, s: &Vec<char>, pat: &Vec<char>, rep: &str)
    requires
        pat@.len() > 0,
    ensures
        final(out)@ == old(out)@ + replaced(s@, pat@, rep@),
{
    let mut i: usize = 0;
    assert(s@.skip(0) =~= s@);
    while i < s.len()
        invariant
            i <= s@.len(),
            pat@.len() > 0,
            out@ + replaced(s@.skip(i as int), pat@, rep@) == old(out)@ + replaced(s@, pat@, rep@),
        decreases s.len() - i,
    {
        let ghost rest = s@.skip(i as int);
        if matches_at(s, pat, i) {
            assert(rest.subrange(0, pat@.len() as int) =~= s@.subrange(i as int, i + pat@.len()));
            assert(rest.skip(pat@.len() as int) =~= s@.skip(i + pat@.len()));
            out.append(rep);
            assert(out@ + replaced(s@.skip(i + pat@.len()), pat@, rep@) =~= old(out)@ + replaced(s@, pat@, rep@)
                ) by {
                assert(replaced(rest, pat@, rep@) == rep@ + replaced(rest.skip(pat@.len() as int), pat@, rep@));
            }
            i = i + pat.len();
        } else {
            proof {
                if pat@.len() <= rest.len() && rest.subrange(0, pat@.len() as int) == pat@ {
                    assert(s@.subrange(i as int, i + pat@.len()) =~= rest.subrange(0, pat@.len() as int));
                }
            }
            assert(rest.drop_first() =~= s@.skip(i + 1));
            let ghost before = out@;
            push_char(out, s[i]);
            assert(out@ + replaced(s@.skip(i + 1), pat@, rep@) =~= before + (seq![s@[i as int]] + replaced(rest.drop_first(), pat@, rep@)));
            i = i + 1;
        }
    }
    assert(replaced(s@.skip(i as int), pat@, rep@) =~= seq![]);
    assert(out@ + seq![] =~= out@);
}

/// Whether `pat` occurs in `s`.
fn has_text(s: &str, pat: &str) -> (r: bool)
    ensures
        r == has_part(s@, pat@),
{
    let sc = chars_of(s);
    let pc = chars_of(pat);
    find_in(&sc, &pc, 0).is_some()
}

/// What a description cell shows of a text: its translation; where the
/// text runs over several lines, in a block with a line break at each.
pub open spec fn cell_text(text: Seq<char>, pages: Seq<Page>, links: Seq<crate::wiki::LinkOverride>) -> Seq<char> {
    if text.contains('\n') {
        "<div>"@ + replaced(translated(text, pages, links), seq!['\n'], "<br>\n"@) + "</div>"@
    } else {
        translated(text, pages, links)
    }
}

/// What a description cell shows of a text whose surrounding whitespace is
/// already gone.
pub fn wiki_cell(text: &str, pedia: &Stationpedia, overrides: &LinkOverrides) -> (r: String)
    ensures
        r@ == cell_text(text@, pedia.pages@, overrides.links@),
{
    let out = translate_to_wiki(text, pedia, overrides);
    let chars = chars_of(text);
    let newline: Vec<char> = vec!['\n'];
    assert(newline@ =~= seq!['\n']);
    if find_in(&chars, &newline, 0).is_some() {
        proof {
            crate::text::lemma_find_from(chars@, newline@, 0);
            let k = crate::text::find_from(chars@, newline@, 0)->0;
            assert(chars@.subrange(k, k + 1)[0] == chars@[k]);
            assert(text@[k] == '\n');
            assert(text@.contains('\n'));
        }
        let mut r = String::new();
        r.append("<div>");
        push_replaced(&mut r, &chars_of(out.as_str()), &newline, "<br>\n");
        r.append("</div>");
        r
    } else {
        proof {
            crate::text::lemma_find_from(chars@, newline@, 0);
            if text@.contains('\n') {
                let k = choose|k: int| 0 <= k < text@.len() && text@[k] == '\n';
                assert(chars@.subrange(k, k + 1) =~= newline@);
                assert(occurs_at(chars@, newline@, k));
            }
            assert(!text@.contains('\n'));
        }
        out
    }
}

/// A description cell: the text trimmed, then `wiki_cell`.
pub fn wikify(text: &str, pedia: &Stationpedia, overrides: &LinkOverrides) -> (r: String)
    ensures
        r@ == cell_text(trimmed(text@), pedia.pages@, overrides.links@),
{
    wiki_cell(trim(text), pedia, overrides)
}

/// A value name with its key, as a configuration table lists it.
#[derive(Clone, Debug, PartialEq)]
pub struct NamedValue {
    pub key: String,
    pub name: String,
}

/// The values that the configuration gives for a logic value.
#[derive(Clone, Debug, PartialEq)]
pub enum ConfiguredValues {
    /// Names numbered from 0.
    List(Vec<String>),
    /// One text.
    Text(String),
    /// Names under their own keys.
    Table(Vec<NamedValue>),
}

/// One logic value of a device, with what the configuration says of it.
#[derive(Clone, Debug, PartialEq)]
pub struct LogicRow {
    pub logic_type: String,
    pub access: String,
    /// The configured value type, if any.
    pub value_type: Option<String>,
    /// The description to show, if any, before trimming.
    pub description: Option<String>,
    pub values: Option<ConfiguredValues>,
}

/// The type of a logic value: the configured one, else `Float` for a ratio
/// or a pressure, else `Integer`.
pub open spec fn value_type_of(logic_type: Seq<char>, configured: Option<Seq<char>>) -> Seq<char> {
    match configured {
        Some(t) => t,
        None => if has_part(logic_type, "Ratio"@) || has_part(logic_type, "Pressure"@) {
            "Float"@
        } else {
            "Integer"@
        },
    }
}

/// The access marks: `|r=0` where the value cannot be read, `|w=0` where it
/// cannot be written.
pub open spec fn access_marks(access: Seq<char>) -> Seq<char> {
    (if has_part(access, "Read"@) {
        seq![]
    } else {
        "|r=0"@
    }) + (if has_part(access, "Write"@) {
        seq![]
    } else {
        "|w=0"@
    })
}

/// Names numbered from 0: `|0|first|1|second...`.
pub open spec fn numbered(names: Seq<Seq<char>>) -> Seq<char>
    decreases names.len(),
{
    if names.len() == 0 {
        seq![]
    } else {
        numbered(names.drop_last()) + "|"@ + decimal(names.len() - 1) + "|"@ + names.last()
    }
}

/// Names under their keys: `|key|name...`.
pub open spec fn keyed(values: Seq<NamedValue>) -> Seq<char>
    decreases values.len(),
{
    if values.len() == 0 {
        seq![]
    } else {
        keyed(values.drop_last()) + "|"@ + values.last().key@ + "|"@ + values.last().name@
    }
}

/// The values part of a row where the configuration gives none.
pub open spec fn default_values(logic_type: Seq<char>, value_type: Seq<char>, modes: Seq<ModeInsert>) -> Seq<char> {
    if logic_type == "Mode"@ && modes.len() > 0 {
        "|multiple="@ + decimal(modes.len() as int) + numbered(modes.map_values(|m: ModeInsert| m.logic_name@))
    } else if value_type == "Boolean"@ {
        "|0 or 1"@
    } else if has_part(logic_type, "Ratio"@) {
        "|0.0 to 1.0"@
    } else {
        seq![]
    }
}

/// The values part of a row.
pub open spec fn values_part(row: LogicRow, value_type: Seq<char>, modes: Seq<ModeInsert>) -> Seq<char> {
    match row.values {
        Some(ConfiguredValues::List(names)) => "|multiple="@ + decimal(names@.len() as int) + numbered(
            names@.map_values(|s: String| s@),
        ),
        Some(ConfiguredValues::Text(t)) => "|"@ + t@,
        Some(ConfiguredValues::Table(values)) => "|multiple="@ + decimal(values@.len() as int) + keyed(
            values@,
        ),
        None => default_values(row.logic_type@, value_type, modes),
    }
}

/// One row of the data parameter table.
pub open spec fn parameter_row(row: LogicRow, modes: Seq<ModeInsert>, pages: Seq<Page>, links: Seq<crate::wiki::LinkOverride>) -> Seq<char> {
    let ty = value_type_of(row.logic_type@, match row.value_type {
        Some(t) => Some(t@),
        None => None,
    });
    "\n{{Data Parameters/row|"@ + row.logic_type@ + "|"@ + ty + access_marks(row.access@) + match row.description {
        Some(d) => "|"@ + cell_text(trimmed(d@), pages, links),
        None => seq![],
    } + values_part(row, ty, modes) + "}}"@
}

/// The rows of the table, in order.
pub open spec fn parameter_rows(rows: Seq<LogicRow>, modes: Seq<ModeInsert>, pages: Seq<Page>, links: Seq<crate::wiki::LinkOverride>) -> Seq<char>
    decreases rows.len(),
{
    if rows.len() == 0 {
        seq![]
    } else {
        parameter_rows(rows.drop_last(), modes, pages, links) + parameter_row(rows.last(), modes, pages, links)
    }
}

/// The data network table before the device's title is put in.
pub open spec fn network_table(rows: Seq<LogicRow>, modes: Seq<ModeInsert>, pages: Seq<Page>, links: Seq<crate::wiki::LinkOverride>) -> Seq<char> {
    "{{Data Network Header}}\n"@ + if rows.len() > 0 {
        "{{Data Parameters|"@ + parameter_rows(rows, modes, pages, links) + "\n}}\n"@
    } else {
        "|{{Data Parameters|empty=}}\n"@
    }
}

/// Appends the names numbered from 0.
fn push_numbered(out: &mut String, names: &Vec<String>)
    ensures
        final(out)@ == old(out)@ + numbered(names@.map_values(|s: String| s@)),
{
    let ghost all = names@.map_values(|s: String| s@);
    let mut i: usize = 0;
    assert(all.take(0) =~= seq![]);
    assert(old(out)@ + seq![] =~= old(out)@);
    while i < names.len()
        invariant
            i <= names@.len(),
            all == names@.map_values(|s: String| s@),
            out@ == old(out)@ + numbered(all.take(i as int)),
        decreases names.len() - i,
    {
        out.append("|");
        push_count(out, i);
        out.append("|");
        out.append(names[i].as_str());
        assert(all.take(i + 1).drop_last() =~= all.take(i as int));
        i = i + 1;
    }
    assert(all.take(names@.len() as int) =~= all);
}

/// Appends the mode names numbered from 0.
fn push_mode_names(out: &mut String, modes: &Vec<ModeInsert>)
    ensures
        final(out)@ == old(out)@ + numbered(modes@.map_values(|m: ModeInsert| m.logic_name@)),
{
    let ghost all = modes@.map_values(|m: ModeInsert| m.logic_name@);
    let mut i: usize = 0;
    assert(all.take(0) =~= seq![]);
    assert(old(out)@ + seq![] =~= old(out)@);
    while i < modes.len()
        invariant
            i <= modes@.len(),
            all == modes@.map_values(|m: ModeInsert| m.logic_name@),
            out@ == old(out)@ + numbered(all.take(i as int)),
        decreases modes.len() - i,
    {
        out.append("|");
        push_count(out, i);
        out.append("|");
        out.append(modes[i].logic_name.as_str());
        assert(all.take(i + 1).drop_last() =~= all.take(i as int));
        i = i + 1;
    }
    assert(all.take(modes@.len() as int) =~= all);
}

/// Appends the names under their keys.
fn push_keyed(out: &mut String, values: &Vec<NamedValue>)
    ensures
        final(out)@ == old(out)@ + keyed(values@),
{
    let mut i: usize = 0;
    assert(values@.take(0) =~= seq![]);
    assert(old(out)@ + seq![] =~= old(out)@);
    while i < values.len()
        invariant
            i <= values@.len(),
            out@ == old(out)@ + keyed(values@.take(i as int)),
        decreases values.len() - i,
    {
        out.append("|");
        out.append(values[i].key.as_str());
        out.append("|");
        out.append(values[i].name.as_str());
        assert(values@.take(i + 1).drop_last() =~= values@.take(i as int));
        i = i + 1;
    }
    assert(values@.take(values@.len() as int) =~= values@);
}

/// The type of a logic value.
pub fn value_type(logic_type: &String, configured: &Option<String>) -> (r: String)
    ensures
        r@ == value_type_of(
            logic_type@,
            match configured {
                Some(t) => Some(t@),
                None => None,
            },
        ),
{
    match configured {
        Some(t) => t.clone(),
        None => if has_text(logic_type.as_str(), "Ratio") || has_text(logic_type.as_str(), "Pressure") {
            "Float".to_owned()
        } else {
            "Integer".to_owned()
        },
    }
}

/// The access marks of a logic value.
pub fn access_marks_of(access: &String) -> (r: String)
    ensures
        r@ == access_marks(access@),
{
    let mut r = String::new();
    if !has_text(access.as_str(), "Read") {
        r.append("|r=0");
    }
    let ghost mid = r@;
    if !has_text(access.as_str(), "Write") {
        r.append("|w=0");
    } else {
        assert(r@ =~= mid + seq![]);
    }
    assert(r@ =~= access_marks(access@));
    r
}

/// Appends the values part of a row.
fn push_values_part(out: &mut String, row: &LogicRow, ty: &String, modes: &Vec<ModeInsert>)
    ensures
        final(out)@ == old(out)@ + values_part(*row, ty@, modes@),
{
    match &row.values {
        Some(ConfiguredValues::List(names)) => {
            out.append("|multiple=");
            push_count(out, names.len());
            push_numbered(out, names);
        },
        Some(ConfiguredValues::Text(t)) => {
            out.append("|");
            out.append(t.as_str());
        },
        Some(ConfiguredValues::Table(values)) => {
            out.append("|multiple=");
            push_count(out, values.len());
            push_keyed(out, values);
        },
        None => {
            if row.logic_type == "Mode".to_owned() && modes.len() > 0 {
                out.append("|multiple=");
                push_count(out, modes.len());
                push_mode_names(out, modes);
            } else if *ty == "Boolean".to_owned() {
                out.append("|0 or 1");
            } else if has_text(row.logic_type.as_str(), "Ratio") {
                out.append("|0.0 to 1.0");
            } else {
                assert(old(out)@ =~= old(out)@ + seq![]);
            }
        },
    }
}

/// Appends one row of the data parameter table.
pub fn push_parameter_row(
    out: &mut String,
    row: &LogicRow,
    modes: &Vec<ModeInsert>,
    pedia: &Stationpedia,
    overrides: &LinkOverrides,
)
    ensures
        final(out)@ == old(out)@ + parameter_row(*row, modes@, pedia.pages@, overrides.links@),
{
    let ty = value_type(&row.logic_type, &row.value_type);
    out.append("\n{{Data Parameters/row|");
    out.append(row.logic_type.as_str());
    out.append("|");
    out.append(ty.as_str());
    let marks = access_marks_of(&row.access);
    out.append(marks.as_str());
    let ghost before_desc = out@;
    if let Some(d) = &row.description {
        out.append("|");
        let cell = wikify(d.as_str(), pedia, overrides);
        out.append(cell.as_str());
    } else {
        assert(out@ =~= before_desc + seq![]);
    }
    push_values_part(out, row, &ty, modes);
    out.append("}}");
}

impl Page {
    /// The data network table of the page's device, from its logic values;
    /// `{device}` anywhere in it becomes the page's title.
    pub fn data_network_properties(
        &self,
        rows: &Vec<LogicRow>,
        pedia: &Stationpedia,
        overrides: &LinkOverrides,
    ) -> (r: String)
        ensures
            r@ == replaced(
                network_table(rows@, self.mode_insert@, pedia.pages@, overrides.links@),
                "{device}"@,
                self.title@,
            ),
    {
        let mut out = String::new();
        out.append("{{Data Network Header}}\n");
        if rows.len() > 0 {
            out.append("{{Data Parameters|");
            let ghost start = out@;
            let mut i: usize = 0;
            assert(rows@.take(0) =~= seq![]);
            assert(start + seq![] =~= start);
            while i < rows.len()
                invariant
                    i <= rows@.len(),
                    out@ == start + parameter_rows(
                        rows@.take(i as int),
                        self.mode_insert@,
                        pedia.pages@,
                        overrides.links@,
                    ),
                decreases rows.len() - i,
            {
                push_parameter_row(&mut out, &rows[i], &self.mode_insert, pedia, overrides);
                assert(rows@.take(i + 1).drop_last() =~= rows@.take(i as int));
                i = i + 1;
            }
            assert(rows@.take(rows@.len() as int) =~= rows@);
            out.append("\n}}\n");
            assert(out@ =~= "{{Data Network Header}}\n"@ + ("{{Data Parameters|"@ + parameter_rows(
                rows@,
                self.mode_insert@,
                pedia.pages@,
                overrides.links@,
            ) + "\n}}\n"@));
        } else {
            out.append("|{{Data Parameters|empty=}}\n");
        }
        assert(out@ =~= network_table(rows@, self.mode_insert@, pedia.pages@, overrides.links@));
        let chars = chars_of(out.as_str());
        let device = chars_of("{device}");
        proof {
            reveal_strlit("{device}");
        }
        let mut r = String::new();
        push_replaced(&mut r, &chars, &device, self.title.as_str());
        r
    }
}

/// A values setting of the configuration.
#[derive(Clone, Debug, PartialEq)]
pub enum ValuesSetting {
    /// Values of a kind the table shows.
    Given(ConfiguredValues),
    /// A value of another kind, which shows nothing.
    Unreadable,
}

/// The values setting of a logic value for all devices: a table stands for
/// its `default` entry.
#[derive(Clone, Debug, PartialEq)]
pub enum GlobalValues {
    Defaulted(Option<ValuesSetting>),
    Plain(ValuesSetting),
}

/// The description setting of a logic value for all devices: a text, or a
/// table that stands for its `default` entry.
#[derive(Clone, Debug, PartialEq)]
pub enum DescriptionSetting {
    Text(String),
    Defaulted(Option<String>),
    Unreadable,
}

/// What the configuration says of one logic value, for one device and for
/// all devices.
#[derive(Clone, Debug, PartialEq)]
pub struct LogicSettings {
    pub value_type: Option<String>,
    pub device_description: Option<String>,
    pub global_description: Option<DescriptionSetting>,
    pub device_values: Option<ValuesSetting>,
    pub global_values: Option<GlobalValues>,
}

/// The description to show: the device's own, else the one for all
/// devices.
pub open spec fn chosen_description(s: LogicSettings) -> Option<String> {
    match s.device_description {
        Some(d) => Some(d),
        None => match s.global_description {
            Some(DescriptionSetting::Text(t)) => Some(t),
            Some(DescriptionSetting::Defaulted(d)) => d,
            _ => None,
        },
    }
}

/// The values to show: the device's own setting, else the one for all
/// devices; a setting of another kind shows none.
pub open spec fn chosen_values(s: LogicSettings) -> Option<ConfiguredValues> {
    let setting = match s.device_values {
        Some(v) => Some(v),
        None => match s.global_values {
            Some(GlobalValues::Defaulted(d)) => d,
            Some(GlobalValues::Plain(v)) => Some(v),
            None => None,
        },
    };
    match setting {
        Some(ValuesSetting::Given(v)) => Some(v),
        _ => None,
    }
}

/// The row of a logic value, from what the configuration says of it.
pub fn logic_row(logic_type: String, access: String, settings: LogicSettings) -> (r: LogicRow)
    ensures
        r == (LogicRow {
            logic_type,
            access,
            value_type: settings.value_type,
            description: chosen_description(settings),
            values: chosen_values(settings),
        }),
{
    let LogicSettings {
        value_type,
        device_description,
        global_description,
        device_values,
        global_values,
    } = settings;
    let description = match device_description {
        Some(d) => Some(d),
        None => match global_description {
            Some(DescriptionSetting::Text(t)) => Some(t),
            Some(DescriptionSetting::Defaulted(d)) => d,
            _ => None,
        },
    };
    let setting = match device_values {
        Some(v) => Some(v),
        None => match global_values {
            Some(GlobalValues::Defaulted(d)) => d,
            Some(GlobalValues::Plain(v)) => Some(v),
            None => None,
        },
    };
    let values = match setting {
        Some(ValuesSetting::Given(v)) => Some(v),
        _ => None,
    };
    LogicRow { logic_type, access, value_type, description, values }
}

} // verus!
