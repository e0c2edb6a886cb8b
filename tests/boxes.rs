use stationpedia::catalog::{BuildState, BuildStates, Page, Stationpedia, Structure, Tool};
use stationpedia::wiki::{LinkOverride, LinkOverrides};
use stationpedia::wikibox::StructureError;

fn page(key: &str, title: &str, prefab_name: &str, prefab_hash: i64) -> Page {
    Page {
        connection_insert: vec![],
        constructs: vec![],
        description: String::new(),
        structure: None,
        key: key.to_string(),
        logic_insert: vec![],
        logic_slot_insert: vec![],
        mode_insert: vec![],
        prefab_hash,
        prefab_name: prefab_name.to_string(),
        slot_inserts: vec![],
        title: title.to_string(),
        transmission_receiver: None,
        wireless_logic: None,
        base_power_draw: None,
        max_pressure: None,
        growth_time: None,
        circuit_holder: false,
        resource_consumer: None,
        source_code: false,
    }
}

fn tool(is_tool: bool, prefab_name: &str, quantity: Option<i64>) -> Tool {
    Tool { is_tool, prefab_name: prefab_name.to_string(), quantity }
}

fn state(tools: Option<Vec<Tool>>, exit: Option<Vec<Tool>>) -> BuildState {
    BuildState { tool: tools, tool_exit: exit, can_manufacture: false, machine_tier: None }
}

fn pedia() -> Stationpedia {
    Stationpedia {
        pages: vec![
            page("ThingItemKitWall", "Kit (Wall)", "ItemKitWall", 1),
            page("ThingItemWrench", "Wrench", "ItemWrench", 2),
            page("ThingItemSteelSheets", "Steel Sheets", "ItemSteelSheets", 3),
            page("ThingItemAngleGrinder", "Angle Grinder", "ItemAngleGrinder", 4),
            page("ThingItemTablet", "Tablet", "ItemTablet", 5),
        ],
    }
}

fn wall(states: Vec<BuildState>) -> Page {
    let mut p = page("ThingStructureWall", "Wall", "StructureWall", -123);
    p.base_power_draw = Some("10W".to_string());
    p.structure = Some(Structure { small_grid: false, build_states: BuildStates(states) });
    p
}

#[test]
fn structure_box_lists_build_states() {
    let p = wall(vec![
        state(Some(vec![tool(false, "ItemKitWall", None)]), None),
        state(
            Some(vec![tool(true, "ItemWrench", None), tool(false, "ItemSteelSheets", Some(2))]),
            Some(vec![tool(true, "ItemAngleGrinder", None)]),
        ),
        state(None, None),
    ]);
    let out = p.structure(&pedia()).unwrap().unwrap();
    let expected = "\n{{Structurebox\n| name = Wall\n| image = [[File:StructureWall.png]]\n| prefab_hash = -123\n| prefab_name = StructureWall\n| power_usage = 10W\n| placed_on_grid = Large Grid\n| placed_with_item = [[Kit (Wall)]]\n| item_rec1 = [[Kit (Wall)]]\n| decon_with_tool2 = [[Angle Grinder]]\n| const_with_tool1 = [[Wrench]]\n| const_with_item1 = 2 x [[Steel Sheets]]\n| item_rec2 = 2 x [[Steel Sheets]]\n| item_rec3 = 2 x [[Steel Sheets]]\n}}";
    assert_eq!(out, expected);
}

#[test]
fn structure_box_item_without_tool() {
    let mut p = wall(vec![
        state(Some(vec![tool(false, "ItemKitWall", None)]), None),
        state(Some(vec![tool(false, "ItemSteelSheets", Some(-3))]), None),
    ]);
    p.base_power_draw = None;
    if let Some(s) = &mut p.structure {
        s.small_grid = true;
    }
    let out = p.structure(&pedia()).unwrap().unwrap();
    let expected = "\n{{Structurebox\n| name = Wall\n| image = [[File:StructureWall.png]]\n| prefab_hash = -123\n| prefab_name = StructureWall\n| placed_on_grid = Small Grid\n| placed_with_item = [[Kit (Wall)]]\n| item_rec1 = [[Kit (Wall)]]\n| const_with_item1 = -3 x [[Steel Sheets]]\n| item_rec2 = -3 x [[Steel Sheets]]\n}}";
    assert_eq!(out, expected);
}

#[test]
fn no_structure_gives_no_box() {
    let p = page("ThingItemTablet", "Tablet", "ItemTablet", 5);
    assert_eq!(p.structure(&pedia()), Ok(None));
}

#[test]
fn structure_box_errors() {
    let unknown = wall(vec![state(Some(vec![tool(false, "ItemNothing", None)]), None)]);
    assert_eq!(unknown.structure(&pedia()), Err(StructureError::UnknownPrefab));
    let placed_with_tool = wall(vec![state(Some(vec![tool(true, "ItemWrench", None)]), None)]);
    assert_eq!(placed_with_tool.structure(&pedia()), Err(StructureError::ToolAtPlacement));
    let two_exits = wall(vec![state(
        None,
        Some(vec![tool(true, "ItemWrench", None), tool(true, "ItemAngleGrinder", None)]),
    )]);
    assert_eq!(two_exits.structure(&pedia()), Err(StructureError::SeveralExitTools));
    let no_exit = wall(vec![state(None, Some(vec![]))]);
    assert_eq!(no_exit.structure(&pedia()), Err(StructureError::MissingTool));
    let two_items = wall(vec![
        state(Some(vec![tool(false, "ItemKitWall", None)]), None),
        state(
            Some(vec![tool(false, "ItemSteelSheets", None), tool(false, "ItemKitWall", None)]),
            None,
        ),
    ]);
    assert_eq!(two_items.structure(&pedia()), Err(StructureError::SeveralItems));
}

#[test]
fn description_is_translated_and_quoted() {
    let mut p = page("ThingX", "X", "X", 9);
    p.description = "An improved <link=ThingItemTablet><color=green>Handheld Tablet</color></link>.".to_string();
    let links = LinkOverrides { links: vec![LinkOverride { identifier: "Xigo".to_string(), target: "Xigo (faction)".to_string() }] };
    assert_eq!(
        p.description(&pedia(), &links),
        Some("<blockquote><q>An improved [[Tablet|Handheld Tablet]].</q><br>\n'''- Stationpedia'''</blockquote>".to_string())
    );
}

#[test]
fn empty_description_gives_none() {
    let p = page("ThingX", "X", "X", 9);
    assert_eq!(p.description(&pedia(), &LinkOverrides { links: vec![] }), None);
}

fn source(title: &str, reagents: &[&str], food_quality: Option<i64>) -> stationpedia::recipes::ItemSource {
    stationpedia::recipes::ItemSource {
        title: title.to_string(),
        reagents: reagents.iter().map(|s| s.to_string()).collect(),
        food_quality,
    }
}

fn amount(items: &Vec<stationpedia::recipes::ItemSource>, ingredient: &str, creator: &str) -> (String, String) {
    stationpedia::recipes::recipe_amount(items, &ingredient.to_string(), &creator.to_string())
}

#[test]
fn recipe_amount_units() {
    let items = vec![];
    assert_eq!(amount(&items, "Iron", "StructureAutolathe"), ("g".to_string(), "Iron".to_string()));
    assert_eq!(amount(&items, "Milk", "StructureAutolathe"), ("ml".to_string(), "Milk".to_string()));
    assert_eq!(amount(&items, "Potato", "StructureAutolathe"), (" x".to_string(), "Potato".to_string()));
}

#[test]
fn recipe_amount_cooking_takes_uncooked_food() {
    let items = vec![
        source("Cooked Soy", &["Soy"], Some(2)),
        source("Soybean", &["Soy"], Some(1)),
        source("Flour Sack", &["Flour"], None),
    ];
    assert_eq!(amount(&items, "Soy", "ApplianceMicrowave"), (" x".to_string(), "Soybean".to_string()));
    assert_eq!(amount(&items, "Soy", "AppliancePackagingMachine"), (" x".to_string(), "Cooked Soy".to_string()));
    assert_eq!(amount(&items, "Flour", "StructureAutomatedOven"), ("g".to_string(), "Flour".to_string()));
}

#[test]
fn recipe_amount_special_names() {
    let items = vec![source("Olive", &["Oil"], Some(5))];
    assert_eq!(amount(&items, "Steel", "AppliancePackagingMachine"), (" x".to_string(), "Empty Can".to_string()));
    assert_eq!(amount(&items, "Oil", "StructureAdvancedPackagingMachine"), (" x".to_string(), "Olive".to_string()));
    assert_eq!(amount(&items, "Fenoxitone", "ApplianceChemistryStation"), (" x".to_string(), "Fern".to_string()));
    assert_eq!(amount(&items, "Steel", "ApplianceChemistryStation"), ("g".to_string(), "Steel".to_string()));
}
