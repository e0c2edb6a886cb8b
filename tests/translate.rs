use stationpedia::catalog::{Page, Stationpedia};
use stationpedia::tags::{strip_color_tags, strip_tags};
use stationpedia::wiki::{translate_to_wiki, LinkOverride, LinkOverrides};

fn page(key: &str, title: &str, prefab_name: &str, prefab_hash: i64) -> Page {
    Page {
        connection_insert: vec![],
        constructs: vec![],
        description: String::new(),
        structure: None,
        key: key.to_string(),
        logic_insert: vec![],
        logic_slot_insert: vec![],
        mode_insert: vec![],
        prefab_hash,
        prefab_name: prefab_name.to_string(),
        slot_inserts: vec![],
        title: title.to_string(),
        transmission_receiver: None,
        wireless_logic: None,
        base_power_draw: None,
        max_pressure: None,
        growth_time: None,
        circuit_holder: false,
        resource_consumer: None,
        source_code: false,
    }
}

fn catalog() -> Stationpedia {
    Stationpedia {
        pages: vec![
            page("Xigo", "Xigo", "Xigo", 1),
            page("ThingItemTablet", "Tablet", "ItemTablet", 2),
            page("ThingItemHardSuit", "Hardsuit", "ItemHardsuit", 3),
        ],
    }
}

fn no_overrides() -> LinkOverrides {
    LinkOverrides { links: vec![] }
}

fn overrides(pairs: &[(&str, &str)]) -> LinkOverrides {
    LinkOverrides {
        links: pairs
            .iter()
            .map(|(i, t)| LinkOverride { identifier: i.to_string(), target: t.to_string() })
            .collect(),
    }
}

fn tr(text: &str, links: &LinkOverrides) -> String {
    translate_to_wiki(text, &catalog(), links)
}

#[test]
fn end_to_end_equal_display() {
    let out = tr("The <link=Xigo><color=#0080FFFF>Xigo</color></link> Padi", &no_overrides());
    assert_eq!(out, "The [[Xigo]] Padi");
}

#[test]
fn end_to_end_differing_display() {
    let out = tr(
        "<link=ThingItemTablet><color=green>Handheld Tablet</color></link>",
        &no_overrides(),
    );
    assert_eq!(out, "[[Tablet|Handheld Tablet]]");
}

#[test]
fn color_only_text_is_stripped_and_stable() {
    let once = tr("plain <color=red>red</color> and <color=#00FF00>green</color> text", &no_overrides());
    assert_eq!(once, "plain red and green text");
    let twice = tr(&once, &no_overrides());
    assert_eq!(twice, once);
}

#[test]
fn override_beats_catalog() {
    let links = overrides(&[("Xigo", "Xigo (faction)")]);
    assert_eq!(tr("<link=Xigo>Xigo</link>", &links), "[[Xigo (faction)|Xigo]]");
}

#[test]
fn override_equal_to_display_is_short() {
    let links = overrides(&[("Xigo", "Xigo (faction)")]);
    assert_eq!(tr("<link=Xigo>Xigo (faction)</link>", &links), "[[Xigo (faction)]]");
}

#[test]
fn first_override_entry_counts() {
    let links = overrides(&[("Xigo", "First"), ("Xigo", "Second")]);
    assert_eq!(tr("<link=Xigo>First</link>", &links), "[[First]]");
    assert_eq!(links.get_override("Xigo").map(|s| s.as_str()), Some("First"));
    assert_eq!(links.get_override("Other"), None);
}

#[test]
fn equality_is_case_sensitive() {
    assert_eq!(tr("<link=ThingItemTablet>tablet</link>", &no_overrides()), "[[Tablet|tablet]]");
}

#[test]
fn slot_identifier_names_the_slot() {
    assert_eq!(tr("<link=SlotFoo>Bar</link>", &no_overrides()), "Foo slot");
    assert_eq!(
        tr("the <link=SlotProgrammableChip><color=orange>Programmable Chip</color></link>", &no_overrides()),
        "the ProgrammableChip slot"
    );
}

#[test]
fn slot_identifier_known_to_overrides_links() {
    let links = overrides(&[("SlotFoo", "Foo Slot Page")]);
    assert_eq!(tr("<link=SlotFoo>Bar</link>", &links), "[[Foo Slot Page|Bar]]");
}

#[test]
fn unknown_identifier_links_to_itself() {
    assert_eq!(tr("<link=UnknownXyz>Display</link>", &no_overrides()), "[[UnknownXyz|Display]]");
}

#[test]
fn unclosed_span_is_dropped() {
    assert_eq!(tr("Before <link=Foo>Display", &no_overrides()), "Before ");
}

#[test]
fn span_without_closing_bracket_is_dropped() {
    assert_eq!(tr("x <link=abc", &no_overrides()), "x ");
}

#[test]
fn broken_span_does_not_hide_later_ones() {
    assert_eq!(
        tr("A <link=Foo>Display <link=Bar>B</link> C", &no_overrides()),
        "A [[Bar|B]] C"
    );
}

#[test]
fn text_before_first_marker_stays_verbatim() {
    assert_eq!(tr("a > b <link=X>Y</link>", &no_overrides()), "a > b [[X|Y]]");
}

#[test]
fn same_identifier_resolves_each_time() {
    assert_eq!(
        tr("<link=ThingItemTablet>Tablet</link> and <link=ThingItemTablet>pad</link>", &no_overrides()),
        "[[Tablet]] and [[Tablet|pad]]"
    );
}

#[test]
fn leftover_tag_is_removed() {
    assert_eq!(tr("Connects to <pos=300>the hub", &no_overrides()), "Connects to the hub");
    assert_eq!(tr("a<pos=300>b", &no_overrides()), "ab");
    assert_eq!(
        tr("Connects to <pos=300><link=ThingItemHardSuit><color=green>Hardsuit</color></link>", &no_overrides()),
        "Connects to [[Hardsuit]]"
    );
}

#[test]
fn empty_text_stays_empty() {
    assert_eq!(tr("", &no_overrides()), "");
}

#[test]
fn empty_brackets_are_no_tag() {
    assert_eq!(tr("a <> b", &no_overrides()), "a <> b");
}

#[test]
fn color_tag_across_line_break_goes_in_last_pass() {
    assert_eq!(strip_color_tags("<color=a\nb>x"), "<color=a\nb>x");
    assert_eq!(tr("<color=a\nb>x", &no_overrides()), "x");
}

#[test]
fn color_stripping_keeps_inner_text() {
    assert_eq!(strip_color_tags("<color=green>Hi</color> there</color>"), "Hi there");
}

#[test]
fn tag_stripping_removes_each_tag() {
    assert_eq!(strip_tags("<b>bold</b> <i>it</i>"), "bold it");
    assert_eq!(strip_tags("<<b>x>"), "x>");
}
