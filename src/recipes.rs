//! What a recipe's ingredient is called on the wiki, and its unit.

use vstd::prelude::*;

verus! {

/// What the recipe logic reads of a catalog item: its page title, the
/// reagents it holds a positive amount of, and its food quality if it is
/// food.
#[derive(Clone, Debug, PartialEq)]
pub struct ItemSource {
    pub title: String,
    pub reagents: Vec<String>,
    pub food_quality: Option<i64>,
}

/// Whether `item` holds some of `ingredient`.
pub open spec fn holds(item: ItemSource, ingredient: Seq<char>) -> bool {
    exists|k: int| 0 <= k < item.reagents@.len() && item.reagents@[k]@ == ingredient
}

/// Whether `item` is food of the wanted quality; for a packaging machine,
/// oil takes any food.
pub open spec fn quality_fits(item: ItemSource, wanted: i64, any_food: bool) -> bool {
    match item.food_quality {
        Some(q) => q == wanted || any_food,
        None => false,
    }
}

/// The title of the first of the first `n` items that holds the ingredient
/// and is food of the wanted quality.
pub open spec fn food_source(
    items: Seq<ItemSource>,
    ingredient: Seq<char>,
    wanted: i64,
    any_food: bool,
    n: int,
) -> Option<Seq<char>>
    decreases n,
{
    if n <= 0 {
        None
    } else {
        match food_source(items, ingredient, wanted, any_food, n - 1) {
            Some(t) => Some(t),
            None => if holds(items[n - 1], ingredient) && quality_fits(items[n - 1], wanted, any_food) {
                Some(items[n - 1].title@)
            } else {
                None
            },
        }
    }
}

/// The food source of the ingredient, or the ingredient itself.
pub open spec fn source_or_self(
    items: Seq<ItemSource>,
    ingredient: Seq<char>,
    wanted: i64,
    any_food: bool,
) -> Seq<char> {
    match food_source(items, ingredient, wanted, any_food, items.len() as int) {
        Some(t) => t,
        None => ingredient,
    }
}

/// The name the wiki uses for an ingredient of a recipe made by `creator`:
/// ovens and microwaves take the uncooked food that holds it, packaging
/// machines the food that holds it (cans for steel), and the chemistry
/// station takes fern for fenoxitone.
pub open spec fn ingredient_name(items: Seq<ItemSource>, ingredient: Seq<char>, creator: Seq<char>) -> Seq<
    char,
> {
    if creator == "ApplianceMicrowave"@ || creator == "StructureAutomatedOven"@ {
        source_or_self(items, ingredient, 1, false)
    } else if creator == "AppliancePackagingMachine"@ || creator == "StructureAdvancedPackagingMachine"@ {
        if ingredient == "Steel"@ {
            "Empty Can"@
        } else {
            source_or_self(items, ingredient, 2, ingredient == "Oil"@)
        }
    } else if creator == "ApplianceChemistryStation"@ && ingredient == "Fenoxitone"@ {
        "Fern"@
    } else {
        ingredient
    }
}

/// The ingredients measured in grams.
pub open spec fn gram_names() -> Seq<Seq<char>> {
    seq![
        "Iron"@, "Gold"@, "Carbon"@, "Uranium"@, "Copper"@, "Steel"@, "Hydrocarbon"@, "Silver"@,
        "Electrum"@, "Invar"@, "Constantan"@, "Solder"@, "Silicon"@, "Waspaloy"@, "Stellite"@,
        "Inconel"@, "Hastelloy"@, "Astroloy"@, "Cobalt"@, "Flour"@,
    ]
}

/// The unit written after an ingredient's amount.
pub open spec fn unit_of(name: Seq<char>) -> Seq<char> {
    if gram_names().contains(name) {
        "g"@
    } else if name == "Milk"@ || name == "Soy Oil"@ {
        "ml"@
    } else {
        " x"@
    }
}

/// The title of the first item that holds the ingredient and is food of
/// the wanted quality.
fn find_food_source(items: &Vec<ItemSource>, ingredient: &String, wanted: i64, any_food: bool) -> (r:
    Option<String>)
    ensures
        match food_source(items@, ingredient@, wanted, any_food, items@.len() as int) {
            Some(t) => r is Some && r->0@ == t,
            None => r is None,
        },
{
    let mut i: usize = 0;
    while i < items.len()
        invariant
            i <= items@.len(),
            food_source(items@, ingredient@, wanted, any_food, i as int) is None,
        decreases items.len() - i,
    {
        let item = &items[i];
        let mut held = false;
        let mut k: usize = 0;
        while k < item.reagents.len()
            invariant
                k <= item.reagents@.len(),
                held <==> exists|j: int| 0 <= j < k && item.reagents@[j]@ == ingredient@,
            decreases item.reagents.len() - k,
        {
            if item.reagents[k] == *ingredient {
                held = true;
            }
            k = k + 1;
        }
        let fits = match item.food_quality {
            Some(q) => q == wanted || any_food,
            None => false,
        };
        if held && fits {
            let t = item.title.clone();
            proof {
                let n = items@.len() as int;
                lemma_food_source_stays(items@, ingredient@, wanted, any_food, i + 1, n);
            }
            return Some(t);
        }
        i = i + 1;
    }
    None
}

/// Once found among the first `m` items, the food source stays the same
/// among more.
proof fn lemma_food_source_stays(
    items: Seq<ItemSource>,
    ingredient: Seq<char>,
    wanted: i64,
    any_food: bool,
    m: int,
    n: int,
)
    requires
        m <= n,
        food_source(items, ingredient, wanted, any_food, m) is Some,
    ensures
        food_source(items, ingredient, wanted, any_food, n) == food_source(
            items,
            ingredient,
            wanted,
            any_food,
            m,
        ),
    decreases n - m,
{
    if m < n {
        lemma_food_source_stays(items, ingredient, wanted, any_food, m, n - 1);
    }
}

/// The unit of an ingredient's amount, and the name the wiki uses for it.
pub fn recipe_amount(items: &Vec<ItemSource>, ingredient: &String, creator_prefab_name: &String) -> (r: (
    String,
    String,
))
    ensures
        r.1@ == ingredient_name(items@, ingredient@, creator_prefab_name@),
        r.0@ == unit_of(r.1@),
{
    let creator = creator_prefab_name;
    let name = if *creator == "ApplianceMicrowave".to_owned() || *creator
        == "StructureAutomatedOven".to_owned() {
        match find_food_source(items, ingredient, 1, false) {
            Some(t) => t,
            None => ingredient.clone(),
        }
    } else if *creator == "AppliancePackagingMachine".to_owned() || *creator
        == "StructureAdvancedPackagingMachine".to_owned() {
        if *ingredient == "Steel".to_owned() {
            "Empty Can".to_owned()
        } else {
            let oil = *ingredient == "Oil".to_owned();
            match find_food_source(items, ingredient, 2, oil) {
                Some(t) => t,
                None => ingredient.clone(),
            }
        }
    } else if *creator == "ApplianceChemistryStation".to_owned() && *ingredient
        == "Fenoxitone".to_owned() {
        "Fern".to_owned()
    } else {
        ingredient.clone()
    };
    let grams: Vec<&str> = vec![
        "Iron", "Gold", "Carbon", "Uranium", "Copper", "Steel", "Hydrocarbon", "Silver",
        "Electrum", "Invar", "Constantan", "Solder", "Silicon", "Waspaloy", "Stellite",
        "Inconel", "Hastelloy", "Astroloy", "Cobalt", "Flour",
    ];
    let ghost names = grams@.map_values(|s: &str| s@);
    assert(names =~= gram_names());
    let mut in_grams = false;
    let mut k: usize = 0;
    while k < grams.len()
        invariant
            k <= grams@.len(),
            names == grams@.map_values(|s: &str| s@),
            in_grams <==> exists|j: int| 0 <= j < k && names[j] == name@,
        decreases grams.len() - k,
    {
        let candidate = grams[k].to_owned();
        assert(names[k as int] == candidate@);
        if name == candidate {
            in_grams = true;
        }
        k = k + 1;
    }
    let unit = if in_grams {
        "g".to_owned()
    } else if name == "Milk".to_owned() || name == "Soy Oil".to_owned() {
        "ml".to_owned()
    } else {
        " x".to_owned()
    };
    (unit, name)
}

} // verus!
