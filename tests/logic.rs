use stationpedia::catalog::{ModeInsert, Page, Stationpedia};
use stationpedia::logic::{
    logic_row, wiki_cell, wikify, ConfiguredValues, DescriptionSetting, GlobalValues, LogicRow,
    LogicSettings, NamedValue, ValuesSetting,
};
use stationpedia::wiki::LinkOverrides;

fn page(key: &str, title: &str, prefab_name: &str, prefab_hash: i64) -> Page {
    Page {
        connection_insert: vec![],
        constructs: vec![],
        description: String::new(),
        structure: None,
        key: key.to_string(),
        logic_insert: vec![],
        logic_slot_insert: vec![],
        mode_insert: vec![],
        prefab_hash,
        prefab_name: prefab_name.to_string(),
        slot_inserts: vec![],
        title: title.to_string(),
        transmission_receiver: None,
        wireless_logic: None,
        base_power_draw: None,
        max_pressure: None,
        growth_time: None,
        circuit_holder: false,
        resource_consumer: None,
        source_code: false,
    }
}

fn row(logic_type: &str, access: &str, ty: Option<&str>, desc: Option<&str>, values: Option<ConfiguredValues>) -> LogicRow {
    LogicRow {
        logic_type: logic_type.to_string(),
        access: access.to_string(),
        value_type: ty.map(|s| s.to_string()),
        description: desc.map(|s| s.to_string()),
        values,
    }
}

fn no_links() -> LinkOverrides {
    LinkOverrides { links: vec![] }
}

#[test]
fn data_network_table_rows() {
    let mut pump = page("ThingPump", "Pump", "StructurePump", 7);
    pump.mode_insert = vec![
        ModeInsert { logic_access_types: "0".to_string(), logic_name: "Off".to_string() },
        ModeInsert { logic_access_types: "1".to_string(), logic_name: "On".to_string() },
    ];
    let pedia = Stationpedia { pages: vec![pump.clone()] };
    let rows = vec![
        row("Mode", "Read Write", None, None, None),
        row("Ratio", "Read", None, Some("  A {device} ratio  "), None),
        row("On", "Write", Some("Boolean"), Some("line1\nline2 <link=SlotX>y</link>"), None),
        row("Setting", "Read Write", None, None, Some(ConfiguredValues::List(vec!["a".to_string(), "b".to_string()]))),
        row("Color", "ReadWrite", None, None, Some(ConfiguredValues::Table(vec![NamedValue { key: "0".to_string(), name: "Blue".to_string() }]))),
        row("Pressure", "Read", None, None, Some(ConfiguredValues::Text("kPa".to_string()))),
    ];
    let out = pump.data_network_properties(&rows, &pedia, &no_links());
    let expected = "{{Data Network Header}}\n{{Data Parameters|\
\n{{Data Parameters/row|Mode|Integer|multiple=2|0|Off|1|On}}\
\n{{Data Parameters/row|Ratio|Float|w=0|A Pump ratio|0.0 to 1.0}}\
\n{{Data Parameters/row|On|Boolean|r=0|<div>line1<br>\nline2 X slot</div>|0 or 1}}\
\n{{Data Parameters/row|Setting|Integer|multiple=2|0|a|1|b}}\
\n{{Data Parameters/row|Color|Integer|multiple=1|0|Blue}}\
\n{{Data Parameters/row|Pressure|Float|w=0|kPa}}\
\n}}\n";
    assert_eq!(out, expected);
}

#[test]
fn data_network_table_empty() {
    let p = page("ThingLamp", "Lamp", "StructureLamp", 8);
    let pedia = Stationpedia { pages: vec![] };
    assert_eq!(
        p.data_network_properties(&vec![], &pedia, &no_links()),
        "{{Data Network Header}}\n|{{Data Parameters|empty=}}\n"
    );
}

#[test]
fn cells_trim_and_break_lines() {
    let pedia = Stationpedia { pages: vec![] };
    assert_eq!(wikify("  one  ", &pedia, &no_links()), "one");
    assert_eq!(wiki_cell("a\nb", &pedia, &no_links()), "<div>a<br>\nb</div>");
    assert_eq!(wiki_cell("plain", &pedia, &no_links()), "plain");
}

fn settings() -> LogicSettings {
    LogicSettings {
        value_type: None,
        device_description: None,
        global_description: None,
        device_values: None,
        global_values: None,
    }
}

#[test]
fn device_settings_come_first() {
    let mut s = settings();
    s.device_description = Some("device".to_string());
    s.global_description = Some(DescriptionSetting::Text("global".to_string()));
    s.device_values = Some(ValuesSetting::Unreadable);
    s.global_values = Some(GlobalValues::Plain(ValuesSetting::Given(ConfiguredValues::Text("g".to_string()))));
    let r = logic_row("Mode".to_string(), "Read".to_string(), s);
    assert_eq!(r.description, Some("device".to_string()));
    assert_eq!(r.values, None);
}

#[test]
fn global_settings_use_defaults() {
    let mut s = settings();
    s.value_type = Some("Boolean".to_string());
    s.global_description = Some(DescriptionSetting::Defaulted(Some("by default".to_string())));
    s.global_values = Some(GlobalValues::Defaulted(Some(ValuesSetting::Given(ConfiguredValues::List(vec!["x".to_string()])))));
    let r = logic_row("On".to_string(), "Write".to_string(), s);
    assert_eq!(r.value_type, Some("Boolean".to_string()));
    assert_eq!(r.description, Some("by default".to_string()));
    assert_eq!(r.values, Some(ConfiguredValues::List(vec!["x".to_string()])));
    let mut t = settings();
    t.global_description = Some(DescriptionSetting::Defaulted(None));
    t.global_values = Some(GlobalValues::Defaulted(None));
    let r = logic_row("On".to_string(), "Write".to_string(), t);
    assert_eq!(r.description, None);
    assert_eq!(r.values, None);
}
