//! Items: stacks, the registry they are named in, and what their names say.

use vstd::prelude::*;
use vstd::string::*;

use crate::text::{self, decimal_text, has_prefix, has_suffix, natural_text, str_eq, strip_prefix_or_all};

verus! {

/// A stack of items in a slot.
#[derive(Clone, Copy, Debug, PartialEq, Eq, Structural)]
pub struct SlotItem {
    pub item_id: i32,
    pub count: i8,
}

/// What the registry says of one item.
#[derive(Debug)]
pub struct ItemDef {
    pub name: String,
    pub stack_size: u32,
    /// The default state of the block that the item places, if it is a block.
    pub block_state: Option<u32>,
}

/// The items of a protocol version, by their number.
#[derive(Debug)]
pub struct ItemRegistry {
    pub items: Vec<ItemDef>,
}

/// The stack size of an item that the registry does not know.
pub const DEFAULT_STACK: i8 = 64;

impl ItemRegistry {
    pub open spec fn knows(&self, item_id: i32) -> bool {
        0 <= item_id < self.items@.len()
    }

    /// The name of an item.
    pub open spec fn name_of(&self, item_id: i32) -> Option<Seq<char>> {
        if self.knows(item_id) {
            Some(self.items@[item_id as int].name@)
        } else {
            None
        }
    }

    pub fn item_name(&self, item_id: i32) -> (r: Option<&str>)
        ensures
            match r {
                Some(name) => self.name_of(item_id) == Some(name@),
                None => self.name_of(item_id) is None,
            },
    {
        if item_id >= 0 && (item_id as u64) < self.items.len() as u64 {
            Some(self.items[item_id as usize].name.as_str())
        } else {
            None
        }
    }

    /// How many of an item fit into one slot.
    pub open spec fn stack_limit(&self, item_id: i32) -> int {
        if self.knows(item_id) {
            let size = self.items@[item_id as int].stack_size;
            if size < 127 {
                size as int
            } else {
                127
            }
        } else {
            DEFAULT_STACK as int
        }
    }

    pub fn stack_max(&self, item_id: i32) -> (r: i8)
        ensures
            r == self.stack_limit(item_id),
            0 <= r,
    {
        if item_id >= 0 && (item_id as u64) < self.items.len() as u64 {
            let size: u32 = self.items[item_id as usize].stack_size;
            if size < 127 {
                size as i8
            } else {
                127
            }
        } else {
            DEFAULT_STACK
        }
    }

    /// The block state that a held stack places: that of a real block, held at
    /// least once, other than the item number 0.
    pub open spec fn placeable(&self, held: Option<SlotItem>) -> Option<u32> {
        match held {
            Some(item) => if item.count > 0 && item.item_id > 0 && self.knows(item.item_id) {
                self.items@[item.item_id as int].block_state
            } else {
                None
            },
            None => None,
        }
    }

    /// The block state that a held stack places. `air` lists the states that
    /// are air, which cannot be placed.
    pub fn placeable_state(&self, held: Option<SlotItem>, air: &Vec<u32>) -> (r: Option<u32>)
        ensures
            r == match self.placeable(held) {
                Some(state) => if air@.contains(state) {
                    None
                } else {
                    Some(state)
                },
                None => None,
            },
    {
        match held {
            Some(item) => {
                if item.count > 0 && item.item_id > 0 && (item.item_id as u64)
                    < self.items.len() as u64 {
                    match self.items[item.item_id as usize].block_state {
                        Some(state) => {
                            if has_state(air, state) {
                                None
                            } else {
                                Some(state)
                            }
                        },
                        None => None,
                    }
                } else {
                    None
                }
            },
            None => None,
        }
    }

    /// A readable name for an item: its registered one, or its number.
    pub open spec fn label(&self, item_id: i32) -> Seq<char> {
        match self.name_of(item_id) {
            Some(name) => name,
            None => "item#"@ + text::decimal(item_id as int),
        }
    }

    pub fn item_label(&self, item_id: i32) -> (r: String)
        ensures
            r@ == self.label(item_id),
    {
        match self.item_name(item_id) {
            Some(name) => name.to_owned(),
            None => {
                let number = decimal_text(item_id as i64);
                let mut out = "item#".to_owned();
                out.append(number.as_str());
                out
            },
        }
    }

    /// One occupied slot in a summary: its place, its item and its count.
    pub open spec fn summary_entry(&self, place: int, item: SlotItem) -> Seq<char> {
        seq!['['] + text::decimal(place) + seq![']', '='] + self.label(item.item_id) + seq!['x']
            + text::decimal(item.count as int)
    }

    /// The occupied slots among the first `n`, separated by spaces.
    pub open spec fn summary(&self, slots: Seq<Option<SlotItem>>, n: int) -> Seq<char>
        decreases n,
    {
        if n <= 0 {
            Seq::empty()
        } else {
            let before = self.summary(slots, n - 1);
            match slots[n - 1] {
                Some(item) => if before.len() == 0 {
                    self.summary_entry(n - 1, item)
                } else {
                    before.push(' ') + self.summary_entry(n - 1, item)
                },
                None => before,
            }
        }
    }

    /// Lists the occupied slots.
    pub fn inventory_summary(&self, slots: &Vec<Option<SlotItem>>) -> (r: String)
        ensures
            r@ == (if self.summary(slots@, slots@.len() as int).len() == 0 {
                "empty"@
            } else {
                self.summary(slots@, slots@.len() as int)
            }),
    {
        let mut out = String::new();
        let mut i: usize = 0;
        while i < slots.len()
            invariant
                i <= slots@.len(),
                out@ == self.summary(slots@, i as int),
            decreases slots@.len() - i,
        {
            match slots[i] {
                Some(item) => {
                    let ghost before = out@;
                    if !out.as_str().is_empty() {
                        out.push(' ');
                    }
                    let ghost lead = out@;
                    out.push('[');
                    let place = natural_text(i as u64);
                    out.append(place.as_str());
                    out.push(']');
                    out.push('=');
                    let label = self.item_label(item.item_id);
                    out.append(label.as_str());
                    out.push('x');
                    let count = decimal_text(item.count as i64);
                    out.append(count.as_str());
                    proof {
                        assert(out@ =~= lead + self.summary_entry(i as int, item));
                        assert(Seq::<char>::empty() + self.summary_entry(i as int, item)
                            =~= self.summary_entry(i as int, item));
                    }
                },
                None => {},
            }
            i = i + 1;
        }
        if out.as_str().is_empty() {
            "empty".to_owned()
        } else {
            out
        }
    }

    /// Whether an item burns in a furnace.
    pub open spec fn is_fuel(&self, item_id: i32) -> bool {
        self.name_of(item_id) matches Some(name) && fuel_name(name)
    }

    pub fn is_furnace_fuel(&self, item_id: i32) -> (r: bool)
        ensures
            r == self.is_fuel(item_id),
    {
        match self.item_name(item_id) {
            Some(name) => burns(name),
            None => false,
        }
    }

    /// Whether a furnace turns an item into another.
    pub open spec fn smelts(&self, item_id: i32) -> bool {
        self.name_of(item_id) matches Some(name) && smeltable_name(name)
    }

    pub fn is_smeltable(&self, item_id: i32) -> (r: bool)
        ensures
            r == self.smelts(item_id),
    {
        match self.item_name(item_id) {
            Some(name) => melts(name),
            None => false,
        }
    }
}

fn has_state(states: &Vec<u32>, state: u32) -> (r: bool)
    ensures
        r == states@.contains(state),
{
    let mut i: usize = 0;
    while i < states.len()
        invariant
            i <= states@.len(),
            forall|j: int| 0 <= j < i ==> states@[j] != state,
        decreases states@.len() - i,
    {
        if states[i] == state {
            return true;
        }
        i = i + 1;
    }
    false
}

/// Whether a text is one of a list.
pub open spec fn one_of(s: Seq<char>, list: Seq<Seq<char>>) -> bool {
    exists|i: int| 0 <= i < list.len() && #[trigger] list[i] == s
}

/// Whether a text ends with one of a list.
pub open spec fn ends_with_one_of(s: Seq<char>, list: Seq<Seq<char>>) -> bool {
    exists|i: int| 0 <= i < list.len() && text::ends_with(s, #[trigger] list[i])
}

pub open spec fn views(list: Seq<&str>) -> Seq<Seq<char>> {
    Seq::new(list.len(), |i: int| list[i]@)
}

fn equals_any(s: &str, list: &[&str]) -> (r: bool)
    ensures
        r == one_of(s@, views(list@)),
{
    let mut i: usize = 0;
    while i < list.len()
        invariant
            i <= list@.len(),
            forall|j: int| 0 <= j < i ==> #[trigger] views(list@)[j] != s@,
        decreases list@.len() - i,
    {
        if str_eq(s, list[i]) {
            assert(views(list@)[i as int] == s@);
            return true;
        }
        i = i + 1;
    }
    false
}

fn ends_with_any(s: &str, list: &[&str]) -> (r: bool)
    ensures
        r == ends_with_one_of(s@, views(list@)),
{
    let mut i: usize = 0;
    while i < list.len()
        invariant
            i <= list@.len(),
            forall|j: int| 0 <= j < i ==> !text::ends_with(s@, #[trigger] views(list@)[j]),
        decreases list@.len() - i,
    {
        if has_suffix(s, list[i]) {
            assert(text::ends_with(s@, views(list@)[i as int]));
            return true;
        }
        i = i + 1;
    }
    false
}

pub open spec fn fuel_names() -> Seq<Seq<char>> {
    seq![
        "coal"@,
        "charcoal"@,
        "coal_block"@,
        "blaze_rod"@,
        "lava_bucket"@,
        "dried_kelp_block"@,
        "bamboo"@,
        "stick"@,
        "scaffolding"@,
    ]
}

pub open spec fn fuel_suffixes() -> Seq<Seq<char>> {
    seq![
        "_planks"@,
        "_log"@,
        "_wood"@,
        "_stem"@,
        "_hyphae"@,
        "_sapling"@,
        "_boat"@,
        "_sign"@,
        "_fence"@,
        "_fence_gate"@,
        "_stairs"@,
        "_slab"@,
        "_pressure_plate"@,
        "_button"@,
        "_door"@,
        "_trapdoor"@,
    ]
}

/// Whether an item of that name burns in a furnace.
pub open spec fn fuel_name(name: Seq<char>) -> bool {
    one_of(name, fuel_names()) || ends_with_one_of(name, fuel_suffixes())
}

fn burns(name: &str) -> (r: bool)
    ensures
        r == fuel_name(name@),
{
    let names: [&str; 9] = [
        "coal",
        "charcoal",
        "coal_block",
        "blaze_rod",
        "lava_bucket",
        "dried_kelp_block",
        "bamboo",
        "stick",
        "scaffolding",
    ];
    let suffixes: [&str; 16] = [
        "_planks",
        "_log",
        "_wood",
        "_stem",
        "_hyphae",
        "_sapling",
        "_boat",
        "_sign",
        "_fence",
        "_fence_gate",
        "_stairs",
        "_slab",
        "_pressure_plate",
        "_button",
        "_door",
        "_trapdoor",
    ];
    proof {
        assert(views(names@) =~= fuel_names());
        assert(views(suffixes@) =~= fuel_suffixes());
    }
    equals_any(name, names.as_slice()) || ends_with_any(name, suffixes.as_slice())
}

pub open spec fn smeltable_names() -> Seq<Seq<char>> {
    seq![
        "sand"@,
        "red_sand"@,
        "cobblestone"@,
        "stone"@,
        "clay_ball"@,
        "clay"@,
        "netherrack"@,
        "ancient_debris"@,
        "cactus"@,
        "kelp"@,
        "potato"@,
        "chorus_fruit"@,
        "wet_sponge"@,
        "sea_pickle"@,
    ]
}

pub open spec fn smeltable_suffixes() -> Seq<Seq<char>> {
    seq!["_ore"@, "_log"@, "_wood"@, "_stem"@, "_hyphae"@]
}

/// Tools and armour that melt down.
pub open spec fn melting_gear() -> Seq<Seq<char>> {
    seq![
        "sword"@,
        "pickaxe"@,
        "axe"@,
        "shovel"@,
        "hoe"@,
        "helmet"@,
        "chestplate"@,
        "leggings"@,
        "boots"@,
        "horse_armor"@,
    ]
}

pub open spec fn gear_of(name: Seq<char>, metal: Seq<char>) -> bool {
    text::starts_with(name, metal) && one_of(text::without_prefix(name, metal), melting_gear())
}

/// Whether a furnace turns an item of that name into another.
pub open spec fn smeltable_name(name: Seq<char>) -> bool {
    ||| one_of(name, smeltable_names())
    ||| text::starts_with(name, "raw_"@)
    ||| ends_with_one_of(name, smeltable_suffixes())
    ||| gear_of(name, "iron_"@)
    ||| gear_of(name, "golden_"@)
}

fn melts_as_gear(name: &str, metal: &str) -> (r: bool)
    ensures
        r == gear_of(name@, metal@),
{
    let gear: [&str; 10] = [
        "sword",
        "pickaxe",
        "axe",
        "shovel",
        "hoe",
        "helmet",
        "chestplate",
        "leggings",
        "boots",
        "horse_armor",
    ];
    proof {
        assert(views(gear@) =~= melting_gear());
    }
    has_prefix(name, metal) && equals_any(strip_prefix_or_all(name, metal), gear.as_slice())
}

fn melts(name: &str) -> (r: bool)
    ensures
        r == smeltable_name(name@),
{
    let names: [&str; 14] = [
        "sand",
        "red_sand",
        "cobblestone",
        "stone",
        "clay_ball",
        "clay",
        "netherrack",
        "ancient_debris",
        "cactus",
        "kelp",
        "potato",
        "chorus_fruit",
        "wet_sponge",
        "sea_pickle",
    ];
    let suffixes: [&str; 5] = ["_ore", "_log", "_wood", "_stem", "_hyphae"];
    proof {
        assert(views(names@) =~= smeltable_names());
        assert(views(suffixes@) =~= smeltable_suffixes());
    }
    equals_any(name, names.as_slice()) || has_prefix(name, "raw_") || ends_with_any(
        name,
        suffixes.as_slice(),
    ) || melts_as_gear(name, "iron_") || melts_as_gear(name, "golden_")
}

pub open spec fn interactable_names() -> Seq<Seq<char>> {
    seq![
        "chest"@,
        "trapped_chest"@,
        "ender_chest"@,
        "shulker_box"@,
        "barrel"@,
        "crafting_table"@,
        "furnace"@,
        "blast_furnace"@,
        "smoker"@,
        "hopper"@,
        "dispenser"@,
        "dropper"@,
        "brewing_stand"@,
        "beacon"@,
        "anvil"@,
        "chipped_anvil"@,
        "damaged_anvil"@,
        "enchanting_table"@,
        "lectern"@,
        "loom"@,
        "cartography_table"@,
        "stonecutter"@,
        "grindstone"@,
        "smithing_table"@,
        "lever"@,
        "note_block"@,
        "jukebox"@,
        "composter"@,
        "cake"@,
        "respawn_anchor"@,
        "flower_pot"@,
    ]
}

pub open spec fn interactable_suffixes() -> Seq<Seq<char>> {
    seq![
        "_shulker_box"@,
        "_door"@,
        "_trapdoor"@,
        "_fence_gate"@,
        "_button"@,
        "_bed"@,
        "_cauldron"@,
    ]
}

/// Whether using a block does something, so that nothing is placed against it.
/// The name may carry the vanilla namespace.
pub open spec fn interactable(name: Seq<char>) -> bool {
    let bare = text::without_prefix(name, "minecraft:"@);
    ||| one_of(bare, interactable_names())
    ||| ends_with_one_of(bare, interactable_suffixes())
    ||| text::starts_with(bare, "potted_"@)
}

pub fn is_interactable_block(name: &str) -> (r: bool)
    ensures
        r == interactable(name@),
{
    let names: [&str; 31] = [
        "chest",
        "trapped_chest",
        "ender_chest",
        "shulker_box",
        "barrel",
        "crafting_table",
        "furnace",
        "blast_furnace",
        "smoker",
        "hopper",
        "dispenser",
        "dropper",
        "brewing_stand",
        "beacon",
        "anvil",
        "chipped_anvil",
        "damaged_anvil",
        "enchanting_table",
        "lectern",
        "loom",
        "cartography_table",
        "stonecutter",
        "grindstone",
        "smithing_table",
        "lever",
        "note_block",
        "jukebox",
        "composter",
        "cake",
        "respawn_anchor",
        "flower_pot",
    ];
    let suffixes: [&str; 7] = [
        "_shulker_box",
        "_door",
        "_trapdoor",
        "_fence_gate",
        "_button",
        "_bed",
        "_cauldron",
    ];
    proof {
        assert(views(names@) =~= interactable_names());
        assert(views(suffixes@) =~= interactable_suffixes());
    }
    let bare = strip_prefix_or_all(name, "minecraft:");
    equals_any(bare, names.as_slice()) || ends_with_any(bare, suffixes.as_slice()) || has_prefix(
        bare,
        "potted_",
    )
}

/// What armour is made of.
#[derive(Clone, Copy, Debug, PartialEq, Eq, Structural)]
pub enum Material {
    Leather,
    Gold,
    Diamond,
    Netherite,
    Chainmail,
    Turtle,
    /// Iron, and whatever else.
    Plain,
}

pub open spec fn material_of(name: Seq<char>) -> Material {
    if text::starts_with(name, "leather_"@) {
        Material::Leather
    } else if text::starts_with(name, "golden_"@) {
        Material::Gold
    } else if text::starts_with(name, "diamond_"@) {
        Material::Diamond
    } else if text::starts_with(name, "netherite_"@) {
        Material::Netherite
    } else if text::starts_with(name, "chainmail_"@) {
        Material::Chainmail
    } else if name == "turtle_helmet"@ {
        Material::Turtle
    } else {
        Material::Plain
    }
}

pub fn armour_material(name: &str) -> (r: Material)
    ensures
        r == material_of(name@),
{
    if text::has_prefix(name, "leather_") {
        Material::Leather
    } else if text::has_prefix(name, "golden_") {
        Material::Gold
    } else if text::has_prefix(name, "diamond_") {
        Material::Diamond
    } else if text::has_prefix(name, "netherite_") {
        Material::Netherite
    } else if text::has_prefix(name, "chainmail_") {
        Material::Chainmail
    } else if text::str_eq(name, "turtle_helmet") {
        Material::Turtle
    } else {
        Material::Plain
    }
}

impl ItemRegistry {
    /// Whether a slot holds an item of some name.
    pub open spec fn slot_is(&self, slots: Seq<Option<SlotItem>>, slot: int, name: Seq<char>) -> bool {
        0 <= slot < slots.len() && slots[slot] is Some && self.name_of(slots[slot]->0.item_id)
            == Some(name)
    }

    pub fn slot_holds(&self, slots: &Vec<Option<SlotItem>>, slot: usize, name: &str) -> (r: bool)
        ensures
            r == self.slot_is(slots@, slot as int, name@),
    {
        if slot >= slots.len() {
            return false;
        }
        match slots[slot] {
            Some(item) => match self.item_name(item.item_id) {
                Some(found) => text::str_eq(found, name),
                None => false,
            },
            None => false,
        }
    }
}

/// A known item stacks as high as the registry says, up to 127, and an unknown one up to
/// 64.
pub proof fn stacks_are_as_high_as_registered(registry: &ItemRegistry, item_id: i32)
    ensures
        0 <= item_id < registry.items@.len() ==> {
            let size = registry.items@[item_id as int].stack_size as int;
            registry.stack_limit(item_id) == if size < 127 {
                size
            } else {
                127
            }
        },
        item_id < 0 || item_id >= registry.items@.len() ==> registry.stack_limit(item_id) == 64,
        0 <= item_id < registry.items@.len() ==> registry.name_of(item_id) == Some(
            registry.items@[item_id as int].name@,
        ),
        item_id < 0 || item_id >= registry.items@.len() ==> registry.name_of(item_id) is None,
{
}

/// A held stack places the block of its item, if it has one and is not empty.
pub proof fn held_blocks_are_placed(registry: &ItemRegistry, item: SlotItem)
    ensures
        registry.placeable(None) is None,
        item.count <= 0 ==> registry.placeable(Some(item)) is None,
        item.item_id <= 0 || item.item_id >= registry.items@.len() ==> registry.placeable(
            Some(item),
        ) is None,
        item.count > 0 && 0 < item.item_id < registry.items@.len() ==> registry.placeable(Some(item))
            == registry.items@[item.item_id as int].block_state,
{
}

/// A summary lists the occupied slots in order, each with its place, its item and its
/// count, and passes over the empty ones.
pub proof fn summaries_list_occupied_slots(
    registry: &ItemRegistry,
    slots: Seq<Option<SlotItem>>,
    n: int,
)
    requires
        0 <= n < slots.len(),
    ensures
        registry.summary(slots, 0) == Seq::<char>::empty(),
        slots[n] is None ==> registry.summary(slots, n + 1) == registry.summary(slots, n),
        slots[n] matches Some(item) ==> {
            let entry = seq!['['] + text::decimal(n) + seq![']', '='] + registry.label(item.item_id)
                + seq!['x'] + text::decimal(item.count as int);
            registry.summary(slots, n + 1) == if registry.summary(slots, n).len() == 0 {
                entry
            } else {
                registry.summary(slots, n).push(' ') + entry
            }
        },
        ({
            let unknown = registry.items@.len() as i32;
            registry.items@.len() <= i32::MAX ==> registry.label(unknown) == "item#"@
                + text::decimal(registry.items@.len() as int)
        }),
{
}

proof fn lemma_suffix(s: Seq<char>, list: Seq<Seq<char>>, i: int)
    requires
        0 <= i < list.len(),
    ensures
        ends_with_one_of(s + list[i], list),
{
    text::prefixes_and_suffixes_part_a_text(s, list[i]);
    assert(text::ends_with(s + list[i], list[i]));
}

/// Whatever is made of wood burns: planks, logs and all that is built of them; and so do
/// coal, rods, lava and the plants that dry.
pub proof fn wood_burns(kind: Seq<char>)
    ensures
        fuel_name(kind + "_planks"@),
        fuel_name(kind + "_log"@),
        fuel_name(kind + "_wood"@),
        fuel_name(kind + "_stem"@),
        fuel_name(kind + "_hyphae"@),
        fuel_name(kind + "_sapling"@),
        fuel_name(kind + "_boat"@),
        fuel_name(kind + "_sign"@),
        fuel_name(kind + "_fence"@),
        fuel_name(kind + "_fence_gate"@),
        fuel_name(kind + "_stairs"@),
        fuel_name(kind + "_slab"@),
        fuel_name(kind + "_pressure_plate"@),
        fuel_name(kind + "_button"@),
        fuel_name(kind + "_door"@),
        fuel_name(kind + "_trapdoor"@),
        fuel_name("coal"@),
        fuel_name("charcoal"@),
        fuel_name("coal_block"@),
        fuel_name("blaze_rod"@),
        fuel_name("lava_bucket"@),
        fuel_name("dried_kelp_block"@),
        fuel_name("bamboo"@),
        fuel_name("stick"@),
        fuel_name("scaffolding"@),
{
    let list = fuel_suffixes();
    lemma_suffix(kind, list, 0);
    lemma_suffix(kind, list, 1);
    lemma_suffix(kind, list, 2);
    lemma_suffix(kind, list, 3);
    lemma_suffix(kind, list, 4);
    lemma_suffix(kind, list, 5);
    lemma_suffix(kind, list, 6);
    lemma_suffix(kind, list, 7);
    lemma_suffix(kind, list, 8);
    lemma_suffix(kind, list, 9);
    lemma_suffix(kind, list, 10);
    lemma_suffix(kind, list, 11);
    lemma_suffix(kind, list, 12);
    lemma_suffix(kind, list, 13);
    lemma_suffix(kind, list, 14);
    lemma_suffix(kind, list, 15);
    let names = fuel_names();
    assert(names[0] == "coal"@ && names[1] == "charcoal"@ && names[2] == "coal_block"@);
    assert(names[3] == "blaze_rod"@ && names[4] == "lava_bucket"@);
    assert(names[5] == "dried_kelp_block"@ && names[6] == "bamboo"@ && names[7] == "stick"@);
    assert(names[8] == "scaffolding"@);
}

/// Ores and raw metals smelt, wood chars, iron and golden gear melts down, and so do sand,
/// stone, clay and some that grow.
pub proof fn ores_smelt(kind: Seq<char>, gear: Seq<char>)
    requires
        one_of(gear, melting_gear()),
    ensures
        smeltable_name(kind + "_ore"@),
        smeltable_name(kind + "_log"@),
        smeltable_name(kind + "_wood"@),
        smeltable_name(kind + "_stem"@),
        smeltable_name(kind + "_hyphae"@),
        smeltable_name("raw_"@ + kind),
        smeltable_name("iron_"@ + gear),
        smeltable_name("golden_"@ + gear),
        smeltable_name("sand"@),
        smeltable_name("red_sand"@),
        smeltable_name("cobblestone"@),
        smeltable_name("stone"@),
        smeltable_name("clay_ball"@),
        smeltable_name("clay"@),
        smeltable_name("netherrack"@),
        smeltable_name("ancient_debris"@),
        smeltable_name("cactus"@),
        smeltable_name("kelp"@),
        smeltable_name("potato"@),
        smeltable_name("chorus_fruit"@),
        smeltable_name("wet_sponge"@),
        smeltable_name("sea_pickle"@),
{
    let list = smeltable_suffixes();
    lemma_suffix(kind, list, 0);
    lemma_suffix(kind, list, 1);
    lemma_suffix(kind, list, 2);
    lemma_suffix(kind, list, 3);
    lemma_suffix(kind, list, 4);
    text::prefixes_and_suffixes_part_a_text("raw_"@, kind);
    text::prefixes_and_suffixes_part_a_text("iron_"@, gear);
    text::prefixes_and_suffixes_part_a_text("golden_"@, gear);
    let names = smeltable_names();
    assert(names[0] == "sand"@ && names[1] == "red_sand"@ && names[2] == "cobblestone"@);
    assert(names[3] == "stone"@ && names[4] == "clay_ball"@ && names[5] == "clay"@);
    assert(names[6] == "netherrack"@ && names[7] == "ancient_debris"@ && names[8] == "cactus"@);
    assert(names[9] == "kelp"@ && names[10] == "potato"@ && names[11] == "chorus_fruit"@);
    assert(names[12] == "wet_sponge"@ && names[13] == "sea_pickle"@);
}

/// The tools and the armour that melt down.
pub proof fn tools_and_armour_melt()
    ensures
        one_of("sword"@, melting_gear()),
        one_of("pickaxe"@, melting_gear()),
        one_of("axe"@, melting_gear()),
        one_of("shovel"@, melting_gear()),
        one_of("hoe"@, melting_gear()),
        one_of("helmet"@, melting_gear()),
        one_of("chestplate"@, melting_gear()),
        one_of("leggings"@, melting_gear()),
        one_of("boots"@, melting_gear()),
        one_of("horse_armor"@, melting_gear()),
{
    let names = melting_gear();
    assert(names[0] == "sword"@ && names[1] == "pickaxe"@ && names[2] == "axe"@);
    assert(names[3] == "shovel"@ && names[4] == "hoe"@ && names[5] == "helmet"@);
    assert(names[6] == "chestplate"@ && names[7] == "leggings"@ && names[8] == "boots"@);
    assert(names[9] == "horse_armor"@);
}

/// Doors, gates, buttons, beds, cauldrons, shulker boxes and potted plants of every kind
/// do something when they are used, and the namespace of their name makes no difference.
pub proof fn doors_open(kind: Seq<char>)
    requires
        !text::starts_with(kind, "minecraft:"@),
        kind.len() >= 10,
    ensures
        interactable(kind + "_shulker_box"@),
        interactable(kind + "_door"@),
        interactable(kind + "_trapdoor"@),
        interactable(kind + "_fence_gate"@),
        interactable(kind + "_button"@),
        interactable(kind + "_bed"@),
        interactable(kind + "_cauldron"@),
        interactable("minecraft:"@ + "potted_"@ + kind),
        interactable("minecraft:"@ + kind) <==> interactable(kind),
{
    reveal_strlit("minecraft:");
    assert("minecraft:"@.len() == 10);
    let list = interactable_suffixes();
    lemma_kind_suffix(kind, 0);
    lemma_kind_suffix(kind, 1);
    lemma_kind_suffix(kind, 2);
    lemma_kind_suffix(kind, 3);
    lemma_kind_suffix(kind, 4);
    lemma_kind_suffix(kind, 5);
    lemma_kind_suffix(kind, 6);
    text::prefixes_and_suffixes_part_a_text("potted_"@, kind);
    assert("minecraft:"@ + "potted_"@ + kind =~= "minecraft:"@ + ("potted_"@ + kind));
    text::prefixes_and_suffixes_part_a_text("minecraft:"@, "potted_"@ + kind);
    text::prefixes_and_suffixes_part_a_text("minecraft:"@, kind);
}

proof fn lemma_kind_suffix(kind: Seq<char>, i: int)
    requires
        "minecraft:"@.len() == 10,
        kind.len() >= 10,
        !text::starts_with(kind, "minecraft:"@),
        0 <= i < interactable_suffixes().len(),
    ensures
        interactable(kind + interactable_suffixes()[i]),
{
    let suffix = interactable_suffixes()[i];
    let name = kind + suffix;
    assert(name.subrange(0, 10) =~= kind.subrange(0, 10));
    lemma_suffix(kind, interactable_suffixes(), i);
}

/// The material of armour is what its name begins with.
pub proof fn armour_is_named_by_its_material(piece: Seq<char>)
    ensures
        material_of("leather_"@ + piece) is Leather,
        material_of("golden_"@ + piece) is Gold,
        material_of("diamond_"@ + piece) is Diamond,
        material_of("netherite_"@ + piece) is Netherite,
        material_of("chainmail_"@ + piece) is Chainmail,
        material_of("turtle_helmet"@) is Turtle,
        material_of("iron_"@ + piece) is Plain,
{
    reveal_strlit("leather_");
    reveal_strlit("golden_");
    reveal_strlit("diamond_");
    reveal_strlit("netherite_");
    reveal_strlit("chainmail_");
    reveal_strlit("turtle_helmet");
    reveal_strlit("iron_");
    lemma_begins(("leather_"@ + piece), 'l');
    lemma_begins(("golden_"@ + piece), 'g');
    lemma_begins(("diamond_"@ + piece), 'd');
    lemma_begins(("netherite_"@ + piece), 'n');
    lemma_begins(("chainmail_"@ + piece), 'c');
    lemma_begins("turtle_helmet"@, 't');
    lemma_begins(("iron_"@ + piece), 'i');
    text::prefixes_and_suffixes_part_a_text("leather_"@, piece);
    text::prefixes_and_suffixes_part_a_text("golden_"@, piece);
    text::prefixes_and_suffixes_part_a_text("diamond_"@, piece);
    text::prefixes_and_suffixes_part_a_text("netherite_"@, piece);
    text::prefixes_and_suffixes_part_a_text("chainmail_"@, piece);
    assert("turtle_helmet"@[0] == 't');
    assert(("iron_"@ + piece)[0] == 'i');
}

proof fn lemma_begins(name: Seq<char>, c: char)
    requires
        name.len() > 0,
        name[0] == c,
    ensures
        c != 'l' ==> !text::starts_with(name, "leather_"@),
        c != 'g' ==> !text::starts_with(name, "golden_"@),
        c != 'd' ==> !text::starts_with(name, "diamond_"@),
        c != 'n' ==> !text::starts_with(name, "netherite_"@),
        c != 'c' ==> !text::starts_with(name, "chainmail_"@),
{
    reveal_strlit("leather_");
    reveal_strlit("golden_");
    reveal_strlit("diamond_");
    reveal_strlit("netherite_");
    reveal_strlit("chainmail_");
    if text::starts_with(name, "leather_"@) {
        assert("leather_"@[0] == name[0]);
    }
    if text::starts_with(name, "golden_"@) {
        assert("golden_"@[0] == name[0]);
    }
    if text::starts_with(name, "diamond_"@) {
        assert("diamond_"@[0] == name[0]);
    }
    if text::starts_with(name, "netherite_"@) {
        assert("netherite_"@[0] == name[0]);
    }
    if text::starts_with(name, "chainmail_"@) {
        assert("chainmail_"@[0] == name[0]);
    }
}

/// Nothing burns but what is named and what is made of wood.
pub proof fn nothing_else_burns(name: Seq<char>)
    requires
        fuel_name(name),
    ensures
        name == "coal"@ || name == "charcoal"@ || name == "coal_block"@ || name == "blaze_rod"@
            || name == "lava_bucket"@ || name == "dried_kelp_block"@ || name == "bamboo"@ || name
            == "stick"@ || name == "scaffolding"@ || text::ends_with(name, "_planks"@)
            || text::ends_with(name, "_log"@) || text::ends_with(name, "_wood"@)
            || text::ends_with(name, "_stem"@) || text::ends_with(name, "_hyphae"@)
            || text::ends_with(name, "_sapling"@) || text::ends_with(name, "_boat"@)
            || text::ends_with(name, "_sign"@) || text::ends_with(name, "_fence"@)
            || text::ends_with(name, "_fence_gate"@) || text::ends_with(name, "_stairs"@)
            || text::ends_with(name, "_slab"@) || text::ends_with(name, "_pressure_plate"@)
            || text::ends_with(name, "_button"@) || text::ends_with(name, "_door"@)
            || text::ends_with(name, "_trapdoor"@),
{
}

/// Nothing smelts but what is named, ores, wood, raw metals, and gear of iron and gold.
pub proof fn nothing_else_smelts(name: Seq<char>)
    requires
        smeltable_name(name),
    ensures
        name == "sand"@ || name == "red_sand"@ || name == "cobblestone"@ || name == "stone"@ || name
            == "clay_ball"@ || name == "clay"@ || name == "netherrack"@ || name
            == "ancient_debris"@ || name == "cactus"@ || name == "kelp"@ || name == "potato"@
            || name == "chorus_fruit"@ || name == "wet_sponge"@ || name == "sea_pickle"@
            || text::ends_with(name, "_ore"@) || text::ends_with(name, "_log"@)
            || text::ends_with(name, "_wood"@) || text::ends_with(name, "_stem"@)
            || text::ends_with(name, "_hyphae"@) || text::starts_with(name, "raw_"@)
            || text::starts_with(name, "iron_"@) || text::starts_with(name, "golden_"@),
        text::starts_with(name, "iron_"@) && !text::ends_with(name, "_ore"@) && !text::ends_with(
            name,
            "_log"@,
        ) && !text::ends_with(name, "_wood"@) && !text::ends_with(name, "_stem"@)
            && !text::ends_with(name, "_hyphae"@) ==> one_of(
            text::without_prefix(name, "iron_"@),
            melting_gear(),
        ),
{
    reveal_strlit("sand");
    reveal_strlit("red_sand");
    reveal_strlit("cobblestone");
    reveal_strlit("stone");
    reveal_strlit("clay_ball");
    reveal_strlit("clay");
    reveal_strlit("netherrack");
    reveal_strlit("ancient_debris");
    reveal_strlit("cactus");
    reveal_strlit("kelp");
    reveal_strlit("potato");
    reveal_strlit("chorus_fruit");
    reveal_strlit("wet_sponge");
    reveal_strlit("sea_pickle");
    reveal_strlit("iron_");
    reveal_strlit("raw_");
    reveal_strlit("golden_");
    if text::starts_with(name, "iron_"@) {
        assert(name[0] == "iron_"@[0]);
        assert(name[0] == 'i');
    }
    if text::starts_with(name, "raw_"@) {
        assert(name[0] == "raw_"@[0]);
        assert(name[0] == 'r');
    }
    if text::starts_with(name, "golden_"@) {
        assert(name[0] == "golden_"@[0]);
        assert(name[0] == 'g');
    }
}

/// The blocks that do something when they are used are the named ones, whatever their
/// namespace, and the kinds of doors and the like; no other.
pub proof fn blocks_that_work(name: Seq<char>)
    requires
        !text::starts_with(name, "minecraft:"@),
    ensures
        interactable(name) <==> name == "chest"@ || name == "trapped_chest"@ || name
            == "ender_chest"@ || name == "shulker_box"@ || name == "barrel"@ || name
            == "crafting_table"@ || name == "furnace"@ || name == "blast_furnace"@ || name
            == "smoker"@ || name == "hopper"@ || name == "dispenser"@ || name == "dropper"@ || name
            == "brewing_stand"@ || name == "beacon"@ || name == "anvil"@ || name
            == "chipped_anvil"@ || name == "damaged_anvil"@ || name == "enchanting_table"@ || name
            == "lectern"@ || name == "loom"@ || name == "cartography_table"@ || name
            == "stonecutter"@ || name == "grindstone"@ || name == "smithing_table"@ || name
            == "lever"@ || name == "note_block"@ || name == "jukebox"@ || name == "composter"@
            || name == "cake"@ || name == "respawn_anchor"@ || name == "flower_pot"@
            || text::ends_with(name, "_shulker_box"@) || text::ends_with(name, "_door"@)
            || text::ends_with(name, "_trapdoor"@) || text::ends_with(name, "_fence_gate"@)
            || text::ends_with(name, "_button"@) || text::ends_with(name, "_bed"@)
            || text::ends_with(name, "_cauldron"@) || text::starts_with(name, "potted_"@),
{
    let names = interactable_names();
    let ends = interactable_suffixes();
    assert(names[0] == "chest"@ && names[1] == "trapped_chest"@ && names[2] == "ender_chest"@
        && names[3] == "shulker_box"@ && names[4] == "barrel"@ && names[5] == "crafting_table"@
        && names[6] == "furnace"@ && names[7] == "blast_furnace"@ && names[8] == "smoker"@
        && names[9] == "hopper"@ && names[10] == "dispenser"@ && names[11] == "dropper"@
        && names[12] == "brewing_stand"@ && names[13] == "beacon"@ && names[14] == "anvil"@
        && names[15] == "chipped_anvil"@ && names[16] == "damaged_anvil"@ && names[17]
        == "enchanting_table"@ && names[18] == "lectern"@ && names[19] == "loom"@ && names[20]
        == "cartography_table"@ && names[21] == "stonecutter"@ && names[22] == "grindstone"@
        && names[23] == "smithing_table"@ && names[24] == "lever"@ && names[25] == "note_block"@
        && names[26] == "jukebox"@ && names[27] == "composter"@ && names[28] == "cake"@ && names[29]
        == "respawn_anchor"@ && names[30] == "flower_pot"@);
    assert(ends[0] == "_shulker_box"@ && ends[1] == "_door"@ && ends[2] == "_trapdoor"@ && ends[3]
        == "_fence_gate"@ && ends[4] == "_button"@ && ends[5] == "_bed"@ && ends[6]
        == "_cauldron"@);
    assert(names.len() == 31 && ends.len() == 7);
}

/// A slot holds an item of some name exactly if there is a stack in it whose item has that
/// name.
pub proof fn slots_hold_named_items(
    registry: &ItemRegistry,
    slots: Seq<Option<SlotItem>>,
    slot: int,
    name: Seq<char>,
)
    ensures
        registry.slot_is(slots, slot, name) <==> 0 <= slot < slots.len() && (slots[slot] matches Some(
            item,
        ) && 0 <= item.item_id < registry.items@.len() && registry.items@[item.item_id as int].name@
            == name),
{
}

} // verus!
