//! The catalog records that the wiki generator reads, and lookups into them.

use vstd::prelude::*;

verus! {

/// A scripting command of the game, as listed in the catalog.
#[derive(Clone, Debug, PartialEq, PartialOrd, Eq, Ord, Hash)]
pub struct Command {
    pub desc: String,
    pub example: String,
}

/// A slot of a core prefab.
#[derive(Clone, Debug, PartialEq)]
pub struct CorePrefabSlot {
    pub slot_class: String,
    pub slot_name: String,
    pub string_hash: i64,
    pub string_key: String,
}

/// The item classification of a core prefab.
#[derive(Clone, Debug, PartialEq)]
pub struct CorePrefabItem {
    pub slot_class: String,
    pub sorting_class: String,
}

/// What a device consumes and processes.
#[derive(Clone, Debug, PartialEq, PartialOrd, Ord, Eq)]
pub struct ResourceConsumer {
    pub consumed_resources: Vec<String>,
    pub processed_reagents: Vec<i64>,
}

/// A thing that a kit constructs.
#[derive(Clone, Debug, PartialEq, PartialOrd, Eq, Ord, Hash)]
pub struct Constructs {
    pub name_of_thing: String,
    pub page_link: String,
    pub prefab_hash: i64,
}

/// A placeable structure: its grid and its build states.
#[derive(Clone, Debug, PartialEq, PartialOrd, Eq, Ord, Hash)]
pub struct Structure {
    pub small_grid: bool,
    pub build_states: BuildStates,
}

/// The build states of a structure, from the first placement on.
#[derive(Clone, Debug, PartialEq, PartialOrd, Eq, Ord, Hash)]
pub struct BuildStates(pub Vec<BuildState>);

/// One build state: what builds it, and what takes it apart.
#[derive(Clone, Debug, PartialEq, PartialOrd, Eq, Ord, Hash)]
pub struct BuildState {
    pub tool: Option<Vec<Tool>>,
    pub tool_exit: Option<Vec<Tool>>,
    pub can_manufacture: bool,
    pub machine_tier: Option<MachineTier>,
}

/// The tier of a fabricating machine.
#[derive(Clone, Debug, PartialEq, PartialOrd, Eq, Ord, Hash)]
pub enum MachineTier {
    Undefined,
    TierOne,
    TierTwo,
    TierThree,
    Max,
}

/// A tool or an item used in a build state.
#[derive(Clone, Debug, PartialEq, PartialOrd, Eq, Ord, Hash)]
pub struct Tool {
    pub is_tool: bool,
    pub prefab_name: String,
    pub quantity: Option<i64>,
}

/// A slot of a page's thing.
#[derive(Clone, Debug, PartialEq, PartialOrd, Eq, Ord, Hash)]
pub struct SlotInsert {
    pub slot_index: String,
    pub slot_name: String,
    pub slot_type: String,
}

/// A logic value of a page's thing, with its access.
#[derive(Clone, Debug, PartialEq, PartialOrd, Eq, Ord, Hash)]
pub struct LogicInsert {
    pub logic_access_types: String,
    pub logic_name: String,
}

/// A slot logic value of a page's thing, with its access.
#[derive(Clone, Debug, PartialEq, PartialOrd, Eq, Ord, Hash)]
pub struct LogicSlotInsert {
    pub logic_access_types: String,
    pub logic_name: String,
}

/// A mode of a page's thing.
#[derive(Clone, Debug, PartialEq, PartialOrd, Eq, Ord, Hash)]
pub struct ModeInsert {
    pub logic_access_types: String,
    pub logic_name: String,
}

/// A connection of a page's thing.
#[derive(Clone, Debug, PartialEq, PartialOrd, Eq, Ord, Hash)]
pub struct ConnectionInsert {
    pub logic_access_types: String,
    pub logic_name: String,
}

/// An instruction that a chip's memory accepts.
#[derive(Clone, Debug, PartialEq, PartialOrd, Eq, Ord, Hash)]
pub struct Instruction {
    pub description: String,
    pub type_: String,
    pub value: i64,
}

/// What the library reads of a catalog page: its names, its description
/// and the parts of its thing that hold no measured quantity.
#[derive(Clone, Debug, PartialEq)]
pub struct Page {
    pub connection_insert: Vec<ConnectionInsert>,
    pub constructs: Vec<Constructs>,
    pub description: String,
    pub structure: Option<Structure>,
    pub key: String,
    pub logic_insert: Vec<LogicInsert>,
    pub logic_slot_insert: Vec<LogicSlotInsert>,
    pub mode_insert: Vec<ModeInsert>,
    pub prefab_hash: i64,
    pub prefab_name: String,
    pub slot_inserts: Vec<SlotInsert>,
    pub title: String,
    pub transmission_receiver: Option<bool>,
    pub wireless_logic: Option<bool>,
    pub base_power_draw: Option<String>,
    pub max_pressure: Option<String>,
    pub growth_time: Option<String>,
    pub circuit_holder: bool,
    pub resource_consumer: Option<ResourceConsumer>,
    pub source_code: bool,
}

/// The catalog: its pages, in the order of the export.
#[derive(Clone, Debug, PartialEq)]
pub struct Stationpedia {
    pub pages: Vec<Page>,
}

/// The first page whose key is `key`.
pub open spec fn page_with_key(pages: Seq<Page>, key: Seq<char>) -> Option<Page>
    decreases pages.len(),
{
    if pages.len() == 0 {
        None
    } else if pages[0].key@ == key {
        Some(pages[0])
    } else {
        page_with_key(pages.drop_first(), key)
    }
}

/// The first page whose prefab name is `name`.
pub open spec fn page_with_prefab_name(pages: Seq<Page>, name: Seq<char>) -> Option<Page>
    decreases pages.len(),
{
    if pages.len() == 0 {
        None
    } else if pages[0].prefab_name@ == name {
        Some(pages[0])
    } else {
        page_with_prefab_name(pages.drop_first(), name)
    }
}

/// The first page whose prefab hash is `hash`.
pub open spec fn page_with_hash(pages: Seq<Page>, hash: i64) -> Option<Page>
    decreases pages.len(),
{
    if pages.len() == 0 {
        None
    } else if pages[0].prefab_hash == hash {
        Some(pages[0])
    } else {
        page_with_hash(pages.drop_first(), hash)
    }
}

impl Stationpedia {
    /// The first page with the given prefab name.
    pub fn lookup_prefab_name(&self, prefab_name: &str) -> (r: Option<&Page>)
        ensures
            match r {
                Some(p) => page_with_prefab_name(self.pages@, prefab_name@) == Some(*p),
                None => page_with_prefab_name(self.pages@, prefab_name@) is None,
            },
    {
        let wanted = prefab_name.to_owned();
        let mut i: usize = 0;
        assert(self.pages@.skip(0) =~= self.pages@);
        while i < self.pages.len()
            invariant
                i <= self.pages@.len(),
                wanted@ == prefab_name@,
                page_with_prefab_name(self.pages@, prefab_name@) == page_with_prefab_name(
                    self.pages@.skip(i as int),
                    prefab_name@,
                ),
            decreases self.pages.len() - i,
        {
            assert(self.pages@.skip(i as int).drop_first() =~= self.pages@.skip(i + 1));
            if self.pages[i].prefab_name == wanted {
                return Some(&self.pages[i]);
            }
            i = i + 1;
        }
        None
    }

    /// The first page with the given key.
    pub fn lookup_key(&self, key: &str) -> (r: Option<&Page>)
        ensures
            match r {
                Some(p) => page_with_key(self.pages@, key@) == Some(*p),
                None => page_with_key(self.pages@, key@) is None,
            },
    {
        let wanted = key.to_owned();
        let mut i: usize = 0;
        assert(self.pages@.skip(0) =~= self.pages@);
        while i < self.pages.len()
            invariant
                i <= self.pages@.len(),
                wanted@ == key@,
                page_with_key(self.pages@, key@) == page_with_key(
                    self.pages@.skip(i as int),
                    key@,
                ),
            decreases self.pages.len() - i,
        {
            assert(self.pages@.skip(i as int).drop_first() =~= self.pages@.skip(i + 1));
            if self.pages[i].key == wanted {
                return Some(&self.pages[i]);
            }
            i = i + 1;
        }
        None
    }

    /// The first page with the given prefab hash.
    pub fn lookup_hash(&self, hash: i64) -> (r: Option<&Page>)
        ensures
            match r {
                Some(p) => page_with_hash(self.pages@, hash) == Some(*p),
                None => page_with_hash(self.pages@, hash) is None,
            },
    {
        let mut i: usize = 0;
        assert(self.pages@.skip(0) =~= self.pages@);
        while i < self.pages.len()
            invariant
                i <= self.pages@.len(),
                page_with_hash(self.pages@, hash) == page_with_hash(
                    self.pages@.skip(i as int),
                    hash,
                ),
            decreases self.pages.len() - i,
        {
            assert(self.pages@.skip(i as int).drop_first() =~= self.pages@.skip(i + 1));
            if self.pages[i].prefab_hash == hash {
                return Some(&self.pages[i]);
            }
            i = i + 1;
        }
        None
    }
}

} // verus!
