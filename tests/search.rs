use stationpedia::catalog::{Page, Stationpedia};
use stationpedia::search::{Selection, Wikibox};

fn page(key: &str, title: &str, prefab_name: &str, prefab_hash: i64) -> Page {
    Page {
        connection_insert: vec![],
        constructs: vec![],
        description: String::new(),
        structure: None,
        key: key.to_string(),
        logic_insert: vec![],
        logic_slot_insert: vec![],
        mode_insert: vec![],
        prefab_hash,
        prefab_name: prefab_name.to_string(),
        slot_inserts: vec![],
        title: title.to_string(),
        transmission_receiver: None,
        wireless_logic: None,
        base_power_draw: None,
        max_pressure: None,
        growth_time: None,
        circuit_holder: false,
        resource_consumer: None,
        source_code: false,
    }
}

fn pedia() -> Stationpedia {
    Stationpedia {
        pages: vec![
            page("ThingStructureAdvancedFurnace", "Advanced Furnace", "StructureAdvancedFurnace", -1234),
            page("ThingStructureAdvancedFurnaceLarge", "Large Advanced Furnace", "StructureAdvancedFurnaceLarge", 555),
            page("ThingItemWrench", "Wrench", "ItemWrench", -1234),
        ],
    }
}

fn ask(item: &str) -> Selection {
    Wikibox { item: item.to_string() }.select(&pedia())
}

#[test]
fn select_by_hash_takes_first() {
    assert_eq!(ask("-1234"), Selection::Found(0));
    assert_eq!(ask("+555"), Selection::Found(1));
}

#[test]
fn select_by_unknown_hash() {
    assert_eq!(ask("42"), Selection::UnknownHash(42));
}

#[test]
fn select_exact_name_among_hits() {
    assert_eq!(ask("StructureAdvancedFurnaceLarge"), Selection::Found(1));
    assert_eq!(ask("ThingStructureAdvancedFurnace"), Selection::Found(0));
}

#[test]
fn select_without_match() {
    assert_eq!(ask("qqqqqqqqqqqqqqqqqqqq"), Selection::NoMatch);
}

#[test]
fn select_ambiguous_lists_hits() {
    match ask("AdvancedFurnac") {
        Selection::Ambiguous(found) => assert_eq!(found, vec![0, 1]),
        other => panic!("expected several matches, got {:?}", other),
    }
}

#[test]
fn pick_prefers_exact_name() {
    let w = Wikibox { item: "Wrench".to_string() };
    assert_eq!(w.pick(&pedia(), &vec![true, false, true]), Selection::Found(2));
}

#[test]
fn pick_single_match() {
    let w = Wikibox { item: "furn".to_string() };
    assert_eq!(w.pick(&pedia(), &vec![false, true, false]), Selection::Found(1));
}

#[test]
fn pick_several_matches() {
    let w = Wikibox { item: "furn".to_string() };
    assert_eq!(w.pick(&pedia(), &vec![true, true, false]), Selection::Ambiguous(vec![0, 1]));
}

#[test]
fn pick_exact_name_needs_a_match() {
    let w = Wikibox { item: "Wrench".to_string() };
    assert_eq!(w.pick(&pedia(), &vec![false, false, false]), Selection::NoMatch);
    assert_eq!(w.pick(&pedia(), &vec![true, true, false]), Selection::Ambiguous(vec![0, 1]));
}
