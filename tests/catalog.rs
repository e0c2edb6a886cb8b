use stationpedia::catalog::{Page, Stationpedia};

fn page(key: &str, title: &str, prefab_name: &str, prefab_hash: i64) -> Page {
    Page {
        connection_insert: vec![],
        constructs: vec![],
        description: String::new(),
        structure: None,
        key: key.to_string(),
        logic_insert: vec![],
        logic_slot_insert: vec![],
        mode_insert: vec![],
        prefab_hash,
        prefab_name: prefab_name.to_string(),
        slot_inserts: vec![],
        title: title.to_string(),
        transmission_receiver: None,
        wireless_logic: None,
        base_power_draw: None,
        max_pressure: None,
        growth_time: None,
        circuit_holder: false,
        resource_consumer: None,
        source_code: false,
    }
}

fn pedia() -> Stationpedia {
    Stationpedia {
        pages: vec![
            page("ThingA", "First A", "ItemA", 10),
            page("ThingB", "B", "ItemB", 20),
            page("ThingA", "Second A", "ItemA", 10),
        ],
    }
}

#[test]
fn lookup_key_finds_first() {
    let p = pedia();
    assert_eq!(p.lookup_key("ThingA").map(|p| p.title.as_str()), Some("First A"));
    assert_eq!(p.lookup_key("ThingB").map(|p| p.title.as_str()), Some("B"));
    assert!(p.lookup_key("thinga").is_none());
}

#[test]
fn lookup_prefab_name_finds_first() {
    let p = pedia();
    assert_eq!(p.lookup_prefab_name("ItemA").map(|p| p.title.as_str()), Some("First A"));
    assert!(p.lookup_prefab_name("ItemC").is_none());
}

#[test]
fn lookup_hash_finds_first() {
    let p = pedia();
    assert_eq!(p.lookup_hash(10).map(|p| p.title.as_str()), Some("First A"));
    assert_eq!(p.lookup_hash(20).map(|p| p.key.as_str()), Some("ThingB"));
    assert!(p.lookup_hash(30).is_none());
}
