//! The recipes that the server declares, and the recipe book.

use vstd::prelude::*;
use vstd::string::*;

use crate::items::SlotItem;
use crate::join::MAX_IDENTIFIER;
use crate::protocol::ProtocolVersion;
use crate::slots::{self, FedSlot, Outcome, Parsed, SlotReader, SlotState};
use crate::text::{self, has_prefix, str_eq};
use crate::wire;

verus! {

#[derive(Debug)]
pub struct StonecutterRecipe {
    pub id: String,
    pub ingredients: Vec<i32>,
    pub result: Option<SlotItem>,
}

#[verifier::ext_equal]
pub struct StonecutterModel {
    pub id: Seq<char>,
    pub ingredients: Seq<i32>,
    pub result: Option<SlotItem>,
}

impl View for StonecutterRecipe {
    type V = StonecutterModel;

    open spec fn view(&self) -> StonecutterModel {
        StonecutterModel { id: self.id@, ingredients: self.ingredients@, result: self.result }
    }
}

/// A recipe of the crafting grid; one without a shape has width and height 0.
/// Each ingredient is a list of alternatives.
#[derive(Debug)]
pub struct CraftingRecipe {
    pub id: String,
    pub width: u8,
    pub height: u8,
    pub ingredients: Vec<Vec<i32>>,
    pub result: Option<SlotItem>,
}

#[verifier::ext_equal]
pub struct CraftingModel {
    pub id: Seq<char>,
    pub width: u8,
    pub height: u8,
    pub ingredients: Seq<Seq<i32>>,
    pub result: Option<SlotItem>,
}

pub open spec fn alternatives(ingredients: Seq<Vec<i32>>) -> Seq<Seq<i32>> {
    Seq::new(ingredients.len(), |i: int| ingredients[i]@)
}

impl View for CraftingRecipe {
    type V = CraftingModel;

    open spec fn view(&self) -> CraftingModel {
        CraftingModel {
            id: self.id@,
            width: self.width,
            height: self.height,
            ingredients: alternatives(self.ingredients@),
            result: self.result,
        }
    }
}

pub open spec fn crafting_views(recipes: Seq<CraftingRecipe>) -> Seq<CraftingModel> {
    Seq::new(recipes.len(), |i: int| recipes[i]@)
}

pub open spec fn stonecutter_views(recipes: Seq<StonecutterRecipe>) -> Seq<StonecutterModel> {
    Seq::new(recipes.len(), |i: int| recipes[i]@)
}

#[derive(Debug)]
pub struct DeclaredRecipes {
    pub crafting: Vec<CraftingRecipe>,
    pub stonecutting: Vec<StonecutterRecipe>,
}

#[verifier::ext_equal]
pub struct DeclaredModel {
    pub crafting: Seq<CraftingModel>,
    pub stonecutting: Seq<StonecutterModel>,
}

impl View for DeclaredRecipes {
    type V = DeclaredModel;

    open spec fn view(&self) -> DeclaredModel {
        DeclaredModel {
            crafting: crafting_views(self.crafting@),
            stonecutting: stonecutter_views(self.stonecutting@),
        }
    }
}

/// The most recipes in a packet.
pub const MAX_RECIPES: i32 = 65536;

/// The most alternatives of an ingredient, and ingredients of a recipe.
pub const MAX_ALTERNATIVES: i32 = 4096;

/// The longest side of a shaped recipe.
pub const MAX_SIDE: i32 = 16;

/// `n` more alternatives behind those in `acc`; an empty stack is none.
pub open spec fn take_alternatives(
    st: SlotState,
    n: nat,
    protocol: ProtocolVersion,
    acc: Seq<i32>,
) -> Parsed<Seq<i32>>
    decreases n,
{
    if n == 0 {
        (Some(acc), st)
    } else {
        match slots::take_slot(st, protocol) {
            (Some(slot), st) => take_alternatives(
                st,
                (n - 1) as nat,
                protocol,
                match slot {
                    Some(item) => acc.push(item.item_id),
                    None => acc,
                },
            ),
            (None, st) => (None, st),
        }
    }
}

/// An ingredient: its number of alternatives, and these.
pub open spec fn take_ingredient(st: SlotState, protocol: ProtocolVersion) -> Parsed<Seq<i32>> {
    match slots::plain(st, wire::take_varint(st.rest)) {
        (Some(count), st) => if 0 <= count <= MAX_ALTERNATIVES {
            take_alternatives(st, count as nat, protocol, Seq::empty())
        } else {
            (None, st)
        },
        (None, st) => (None, st),
    }
}

/// `n` more ingredients behind those in `acc`.
pub open spec fn take_ingredients(
    st: SlotState,
    n: nat,
    protocol: ProtocolVersion,
    acc: Seq<Seq<i32>>,
) -> Parsed<Seq<Seq<i32>>>
    decreases n,
{
    if n == 0 {
        (Some(acc), st)
    } else {
        match take_ingredient(st, protocol) {
            (Some(ingredient), st) => take_ingredients(
                st,
                (n - 1) as nat,
                protocol,
                acc.push(ingredient),
            ),
            (None, st) => (None, st),
        }
    }
}

pub open spec fn take_text(st: SlotState) -> Parsed<Seq<char>> {
    slots::plain(st, wire::take_string(st.rest, MAX_IDENTIFIER as nat))
}

pub open spec fn take_number(st: SlotState) -> Parsed<i32> {
    slots::plain(st, wire::take_varint(st.rest))
}

/// The group and the category of a recipe.
pub open spec fn take_group(st: SlotState) -> Parsed<()> {
    match take_text(st) {
        (Some(_), st) => match take_number(st) {
            (Some(_), st) => (Some(()), st),
            (None, st) => (None, st),
        },
        (None, st) => (None, st),
    }
}

pub open spec fn take_shapeless(st: SlotState, protocol: ProtocolVersion, id: Seq<char>) -> Parsed<
    CraftingModel,
> {
    match take_group(st) {
        (Some(_), st) => match take_number(st) {
            (Some(count), st) => if 0 <= count <= MAX_ALTERNATIVES {
                match take_ingredients(st, count as nat, protocol, Seq::empty()) {
                    (Some(ingredients), st) => match slots::take_slot(st, protocol) {
                        (Some(result), st) => (
                            Some(CraftingModel { id, width: 0, height: 0, ingredients, result }),
                            st,
                        ),
                        (None, st) => (None, st),
                    },
                    (None, st) => (None, st),
                }
            } else {
                (None, st)
            },
            (None, st) => (None, st),
        },
        (None, st) => (None, st),
    }
}

/// The width and height of a shaped recipe.
pub open spec fn take_shape(st: SlotState) -> Parsed<(i32, i32)> {
    match take_number(st) {
        (Some(width), st) => match take_number(st) {
            (Some(height), st) => if 0 <= width <= MAX_SIDE && 0 <= height <= MAX_SIDE {
                (Some((width, height)), st)
            } else {
                (None, st)
            },
            (None, st) => (None, st),
        },
        (None, st) => (None, st),
    }
}

/// The shape, group and category; from protocol 766 on the shape comes last.
pub open spec fn take_shaped_head(st: SlotState, protocol: ProtocolVersion) -> Parsed<(i32, i32)> {
    if protocol.data_components() {
        match take_group(st) {
            (Some(_), st) => take_shape(st),
            (None, st) => (None, st),
        }
    } else {
        match take_shape(st) {
            (Some(shape), st) => match take_group(st) {
                (Some(_), st) => (Some(shape), st),
                (None, st) => (None, st),
            },
            (None, st) => (None, st),
        }
    }
}

pub open spec fn take_shaped(st: SlotState, protocol: ProtocolVersion, id: Seq<char>) -> Parsed<
    CraftingModel,
> {
    match take_shaped_head(st, protocol) {
        (Some((width, height)), st) => match take_ingredients(
            st,
            (width * height) as nat,
            protocol,
            Seq::empty(),
        ) {
            (Some(ingredients), st) => match slots::take_slot(st, protocol) {
                (Some(result), st) => match slots::plain(st, wire::take_bool(st.rest)) {
                    (Some(_), st) => (
                        Some(
                            CraftingModel {
                                id,
                                width: width as u8,
                                height: height as u8,
                                ingredients,
                                result,
                            },
                        ),
                        st,
                    ),
                    (None, st) => (None, st),
                },
                (None, st) => (None, st),
            },
            (None, st) => (None, st),
        },
        (None, st) => (None, st),
    }
}

/// A recipe of a furnace or campfire: it is read and not kept.
pub open spec fn take_cooking(st: SlotState, protocol: ProtocolVersion) -> Parsed<()> {
    match take_group(st) {
        (Some(_), st) => match take_ingredient(st, protocol) {
            (Some(_), st) => match slots::take_slot(st, protocol) {
                (Some(_), st) => match slots::plain(st, wire::take_u32(st.rest)) {
                    (Some(_), st) => match take_number(st) {
                        (Some(_), st) => (Some(()), st),
                        (None, st) => (None, st),
                    },
                    (None, st) => (None, st),
                },
                (None, st) => (None, st),
            },
            (None, st) => (None, st),
        },
        (None, st) => (None, st),
    }
}

pub open spec fn take_stonecutting(
    st: SlotState,
    protocol: ProtocolVersion,
    id: Seq<char>,
) -> Parsed<StonecutterModel> {
    match take_text(st) {
        (Some(_), st) => match take_ingredient(st, protocol) {
            (Some(ingredients), st) => match slots::take_slot(st, protocol) {
                (Some(result), st) => (Some(StonecutterModel { id, ingredients, result }), st),
                (None, st) => (None, st),
            },
            (None, st) => (None, st),
        },
        (None, st) => (None, st),
    }
}

/// A recipe of the smithing table: it is read and not kept. Only one that
/// transforms an item has a result.
pub open spec fn take_smithing(
    st: SlotState,
    protocol: ProtocolVersion,
    transforms: bool,
) -> Parsed<()> {
    match take_ingredients(st, 3, protocol, Seq::empty()) {
        (Some(_), st) => if transforms {
            match slots::take_slot(st, protocol) {
                (Some(_), st) => (Some(()), st),
                (None, st) => (None, st),
            }
        } else {
            (Some(()), st)
        },
        (None, st) => (None, st),
    }
}

/// What a recipe is made in, which says how it is written.
#[derive(Clone, Copy, Debug, PartialEq, Eq, Structural)]
pub enum RecipeKind {
    Shapeless,
    Shaped,
    Cooking,
    Stonecutting,
    SmithingTransform,
    SmithingTrim,
    Special,
    Unknown,
}

/// The kind of a recipe by the name it has up to protocol 765.
pub open spec fn kind_by_name(name: Seq<char>) -> RecipeKind {
    if name == "minecraft:crafting_shapeless"@ {
        RecipeKind::Shapeless
    } else if name == "minecraft:crafting_shaped"@ {
        RecipeKind::Shaped
    } else if name == "minecraft:smelting"@ || name == "minecraft:blasting"@ || name
        == "minecraft:smoking"@ || name == "minecraft:campfire_cooking"@ {
        RecipeKind::Cooking
    } else if name == "minecraft:stonecutting"@ {
        RecipeKind::Stonecutting
    } else if name == "minecraft:smithing_transform"@ {
        RecipeKind::SmithingTransform
    } else if name == "minecraft:smithing_trim"@ {
        RecipeKind::SmithingTrim
    } else if text::starts_with(name, "minecraft:crafting_special_"@) || name
        == "minecraft:crafting_decorated_pot"@ {
        RecipeKind::Special
    } else {
        RecipeKind::Unknown
    }
}

/// The kind of a recipe by the number it has from protocol 766 on.
pub open spec fn kind_by_number(number: i32) -> RecipeKind {
    if number == 0 {
        RecipeKind::Shaped
    } else if number == 1 {
        RecipeKind::Shapeless
    } else if 2 <= number <= 14 || number == 22 {
        RecipeKind::Special
    } else if 15 <= number <= 18 {
        RecipeKind::Cooking
    } else if number == 19 {
        RecipeKind::Stonecutting
    } else if number == 20 {
        RecipeKind::SmithingTransform
    } else if number == 21 {
        RecipeKind::SmithingTrim
    } else {
        RecipeKind::Unknown
    }
}

/// The identifier and the kind of a recipe; from protocol 766 on the kind
/// comes last.
pub open spec fn take_head(st: SlotState, protocol: ProtocolVersion) -> Parsed<
    (Seq<char>, RecipeKind),
> {
    match take_text(st) {
        (Some(first), st) => if protocol.data_components() {
            match take_number(st) {
                (Some(number), st) => (Some((first, kind_by_number(number))), st),
                (None, st) => (None, st),
            }
        } else {
            match take_text(st) {
                (Some(id), st) => (Some((id, kind_by_name(first))), st),
                (None, st) => (None, st),
            }
        },
        (None, st) => (None, st),
    }
}

/// What follows the head of a recipe.
pub open spec fn take_kind(
    st: SlotState,
    protocol: ProtocolVersion,
    id: Seq<char>,
    kind: RecipeKind,
    acc: DeclaredModel,
) -> Parsed<DeclaredModel> {
    match kind {
        RecipeKind::Shapeless => match take_shapeless(st, protocol, id) {
            (Some(recipe), st) => (
                Some(DeclaredModel { crafting: acc.crafting.push(recipe), ..acc }),
                st,
            ),
            (None, st) => (None, st),
        },
        RecipeKind::Shaped => match take_shaped(st, protocol, id) {
            (Some(recipe), st) => (
                Some(DeclaredModel { crafting: acc.crafting.push(recipe), ..acc }),
                st,
            ),
            (None, st) => (None, st),
        },
        RecipeKind::Stonecutting => match take_stonecutting(st, protocol, id) {
            (Some(recipe), st) => (
                Some(DeclaredModel { stonecutting: acc.stonecutting.push(recipe), ..acc }),
                st,
            ),
            (None, st) => (None, st),
        },
        RecipeKind::Cooking => match take_cooking(st, protocol) {
            (Some(_), st) => (Some(acc), st),
            (None, st) => (None, st),
        },
        RecipeKind::SmithingTransform => match take_smithing(st, protocol, true) {
            (Some(_), st) => (Some(acc), st),
            (None, st) => (None, st),
        },
        RecipeKind::SmithingTrim => match take_smithing(st, protocol, false) {
            (Some(_), st) => (Some(acc), st),
            (None, st) => (None, st),
        },
        RecipeKind::Special => match take_number(st) {
            (Some(_), st) => (Some(acc), st),
            (None, st) => (None, st),
        },
        RecipeKind::Unknown => (None, st),
    }
}

/// `n` more recipes, those that are kept behind those in `acc`.
pub open spec fn take_recipes(
    st: SlotState,
    n: nat,
    protocol: ProtocolVersion,
    acc: DeclaredModel,
) -> Parsed<DeclaredModel>
    decreases n,
{
    if n == 0 {
        (Some(acc), st)
    } else {
        match take_head(st, protocol) {
            (Some((id, kind)), st) => match take_kind(st, protocol, id, kind, acc) {
                (Some(acc), st) => take_recipes(st, (n - 1) as nat, protocol, acc),
                (None, st) => (None, st),
            },
            (None, st) => (None, st),
        }
    }
}

/// The recipes that a packet declares.
pub open spec fn declared_recipes(st: SlotState, protocol: ProtocolVersion) -> Parsed<
    DeclaredModel,
> {
    match take_number(st) {
        (Some(count), st) => if 0 <= count <= MAX_RECIPES {
            take_recipes(
                st,
                count as nat,
                protocol,
                DeclaredModel { crafting: Seq::empty(), stonecutting: Seq::empty() },
            )
        } else {
            (None, st)
        },
        (None, st) => (None, st),
    }
}

fn read_text(r: &mut SlotReader) -> (v: Option<String>)
    requires
        old(r).wf(),
    ensures
        final(r).wf(),
        final(r)@ == take_text(old(r)@).1,
        match take_text(old(r)@).0 {
            Some(want) => v matches Some(got) && got@ == want,
            None => v is None,
        },
{
    r.reader.string(MAX_IDENTIFIER)
}

fn read_number(r: &mut SlotReader) -> (v: Option<i32>)
    requires
        old(r).wf(),
    ensures
        final(r).wf(),
        (v, final(r)@) == take_number(old(r)@),
{
    r.reader.varint()
}

fn read_group(r: &mut SlotReader) -> (v: Option<()>)
    requires
        old(r).wf(),
    ensures
        final(r).wf(),
        (v, final(r)@) == take_group(old(r)@),
{
    match read_text(r) {
        Some(_) => match read_number(r) {
            Some(_) => Some(()),
            None => None,
        },
        None => None,
    }
}

fn read_ingredient(r: &mut SlotReader, protocol: ProtocolVersion) -> (v: Option<Vec<i32>>)
    requires
        old(r).wf(),
    ensures
        final(r).wf(),
        final(r)@ == take_ingredient(old(r)@, protocol).1,
        match take_ingredient(old(r)@, protocol).0 {
            Some(want) => v matches Some(got) && got@ == want,
            None => v is None,
        },
{
    let count: i32 = match read_number(r) {
        Some(count) => count,
        None => return None,
    };
    if count < 0 || count > MAX_ALTERNATIVES {
        return None;
    }
    let ghost want = take_ingredient(old(r)@, protocol);
    let mut items: Vec<i32> = Vec::new();
    let mut left: i32 = count;
    while left > 0
        invariant
            r.wf(),
            0 <= left,
            want == take_ingredient(old(r)@, protocol),
            want == take_alternatives(r@, left as nat, protocol, items@),
        decreases left,
    {
        match r.slot(protocol) {
            Some(Some(item)) => items.push(item.item_id),
            Some(None) => {},
            None => return None,
        }
        left = left - 1;
    }
    Some(items)
}

fn read_ingredients(r: &mut SlotReader, n: i32, protocol: ProtocolVersion) -> (v: Option<
    Vec<Vec<i32>>,
>)
    requires
        old(r).wf(),
        0 <= n,
    ensures
        final(r).wf(),
        final(r)@ == take_ingredients(old(r)@, n as nat, protocol, Seq::empty()).1,
        match take_ingredients(old(r)@, n as nat, protocol, Seq::empty()).0 {
            Some(want) => v matches Some(got) && alternatives(got@) == want,
            None => v is None,
        },
{
    let ghost want = take_ingredients(r@, n as nat, protocol, Seq::empty());
    let mut out: Vec<Vec<i32>> = Vec::new();
    let mut left: i32 = n;
    proof {
        assert(alternatives(out@) =~= Seq::empty());
    }
    while left > 0
        invariant
            r.wf(),
            0 <= left,
            want == take_ingredients(old(r)@, n as nat, protocol, Seq::empty()),
            want == take_ingredients(r@, left as nat, protocol, alternatives(out@)),
        decreases left,
    {
        let ghost before = out@;
        match read_ingredient(r, protocol) {
            Some(ingredient) => {
                out.push(ingredient);
                proof {
                    assert(alternatives(out@) =~= alternatives(before).push(ingredient@));
                }
            },
            None => return None,
        }
        left = left - 1;
    }
    Some(out)
}

fn read_shapeless(r: &mut SlotReader, protocol: ProtocolVersion, id: String) -> (v: Option<
    CraftingRecipe,
>)
    requires
        old(r).wf(),
    ensures
        final(r).wf(),
        final(r)@ == take_shapeless(old(r)@, protocol, id@).1,
        match take_shapeless(old(r)@, protocol, id@).0 {
            Some(want) => v matches Some(got) && got@ == want,
            None => v is None,
        },
{
    if read_group(r).is_none() {
        return None;
    }
    let count: i32 = match read_number(r) {
        Some(count) => count,
        None => return None,
    };
    if count < 0 || count > MAX_ALTERNATIVES {
        return None;
    }
    let ingredients = match read_ingredients(r, count, protocol) {
        Some(v) => v,
        None => return None,
    };
    match r.slot(protocol) {
        Some(result) => Some(CraftingRecipe { id, width: 0, height: 0, ingredients, result }),
        None => None,
    }
}

fn read_shape(r: &mut SlotReader) -> (v: Option<(i32, i32)>)
    requires
        old(r).wf(),
    ensures
        final(r).wf(),
        (v, final(r)@) == take_shape(old(r)@),
{
    let width: i32 = match read_number(r) {
        Some(v) => v,
        None => return None,
    };
    let height: i32 = match read_number(r) {
        Some(v) => v,
        None => return None,
    };
    if 0 <= width && width <= MAX_SIDE && 0 <= height && height <= MAX_SIDE {
        Some((width, height))
    } else {
        None
    }
}

fn read_shaped_head(r: &mut SlotReader, protocol: ProtocolVersion) -> (v: Option<(i32, i32)>)
    requires
        old(r).wf(),
    ensures
        final(r).wf(),
        (v, final(r)@) == take_shaped_head(old(r)@, protocol),
{
    if protocol.uses_data_components() {
        if read_group(r).is_none() {
            return None;
        }
        read_shape(r)
    } else {
        match read_shape(r) {
            Some(shape) => {
                if read_group(r).is_none() {
                    return None;
                }
                Some(shape)
            },
            None => None,
        }
    }
}

fn read_shaped(r: &mut SlotReader, protocol: ProtocolVersion, id: String) -> (v: Option<
    CraftingRecipe,
>)
    requires
        old(r).wf(),
    ensures
        final(r).wf(),
        final(r)@ == take_shaped(old(r)@, protocol, id@).1,
        match take_shaped(old(r)@, protocol, id@).0 {
            Some(want) => v matches Some(got) && got@ == want,
            None => v is None,
        },
{
    let (width, height): (i32, i32) = match read_shaped_head(r, protocol) {
        Some(v) => v,
        None => return None,
    };
    proof {
        assert(0 <= width * height <= 256) by (nonlinear_arith)
            requires
                0 <= width <= 16,
                0 <= height <= 16,
        ;
    }
    let ingredients = match read_ingredients(r, width * height, protocol) {
        Some(v) => v,
        None => return None,
    };
    let result: Option<SlotItem> = match r.slot(protocol) {
        Some(v) => v,
        None => return None,
    };
    match r.reader.bool() {
        Some(_) => Some(
            CraftingRecipe { id, width: width as u8, height: height as u8, ingredients, result },
        ),
        None => None,
    }
}

fn read_cooking(r: &mut SlotReader, protocol: ProtocolVersion) -> (v: Option<()>)
    requires
        old(r).wf(),
    ensures
        final(r).wf(),
        (v, final(r)@) == take_cooking(old(r)@, protocol),
{
    if read_group(r).is_none() {
        return None;
    }
    if read_ingredient(r, protocol).is_none() {
        return None;
    }
    if r.slot(protocol).is_none() {
        return None;
    }
    if r.reader.u32().is_none() {
        return None;
    }
    match read_number(r) {
        Some(_) => Some(()),
        None => None,
    }
}

fn read_stonecutting(r: &mut SlotReader, protocol: ProtocolVersion, id: String) -> (v: Option<
    StonecutterRecipe,
>)
    requires
        old(r).wf(),
    ensures
        final(r).wf(),
        final(r)@ == take_stonecutting(old(r)@, protocol, id@).1,
        match take_stonecutting(old(r)@, protocol, id@).0 {
            Some(want) => v matches Some(got) && got@ == want,
            None => v is None,
        },
{
    if read_text(r).is_none() {
        return None;
    }
    let ingredients = match read_ingredient(r, protocol) {
        Some(v) => v,
        None => return None,
    };
    match r.slot(protocol) {
        Some(result) => Some(StonecutterRecipe { id, ingredients, result }),
        None => None,
    }
}

fn read_smithing(r: &mut SlotReader, protocol: ProtocolVersion, transforms: bool) -> (v: Option<()>)
    requires
        old(r).wf(),
    ensures
        final(r).wf(),
        (v, final(r)@) == take_smithing(old(r)@, protocol, transforms),
{
    if read_ingredients(r, 3, protocol).is_none() {
        return None;
    }
    if transforms {
        match r.slot(protocol) {
            Some(_) => Some(()),
            None => None,
        }
    } else {
        Some(())
    }
}

fn find_kind_by_name(name: &str) -> (r: RecipeKind)
    ensures
        r == kind_by_name(name@),
{
    if str_eq(name, "minecraft:crafting_shapeless") {
        RecipeKind::Shapeless
    } else if str_eq(name, "minecraft:crafting_shaped") {
        RecipeKind::Shaped
    } else if str_eq(name, "minecraft:smelting") || str_eq(name, "minecraft:blasting") || str_eq(
        name,
        "minecraft:smoking",
    ) || str_eq(name, "minecraft:campfire_cooking") {
        RecipeKind::Cooking
    } else if str_eq(name, "minecraft:stonecutting") {
        RecipeKind::Stonecutting
    } else if str_eq(name, "minecraft:smithing_transform") {
        RecipeKind::SmithingTransform
    } else if str_eq(name, "minecraft:smithing_trim") {
        RecipeKind::SmithingTrim
    } else if has_prefix(name, "minecraft:crafting_special_") || str_eq(
        name,
        "minecraft:crafting_decorated_pot",
    ) {
        RecipeKind::Special
    } else {
        RecipeKind::Unknown
    }
}

fn find_kind_by_number(number: i32) -> (r: RecipeKind)
    ensures
        r == kind_by_number(number),
{
    if number == 0 {
        RecipeKind::Shaped
    } else if number == 1 {
        RecipeKind::Shapeless
    } else if 2 <= number && number <= 14 || number == 22 {
        RecipeKind::Special
    } else if 15 <= number && number <= 18 {
        RecipeKind::Cooking
    } else if number == 19 {
        RecipeKind::Stonecutting
    } else if number == 20 {
        RecipeKind::SmithingTransform
    } else if number == 21 {
        RecipeKind::SmithingTrim
    } else {
        RecipeKind::Unknown
    }
}

fn read_head(r: &mut SlotReader, protocol: ProtocolVersion) -> (v: Option<(String, RecipeKind)>)
    requires
        old(r).wf(),
    ensures
        final(r).wf(),
        final(r)@ == take_head(old(r)@, protocol).1,
        match take_head(old(r)@, protocol).0 {
            Some((id, kind)) => v matches Some(got) && got.0@ == id && got.1 == kind,
            None => v is None,
        },
{
    let first = match read_text(r) {
        Some(v) => v,
        None => return None,
    };
    if protocol.uses_data_components() {
        match read_number(r) {
            Some(number) => Some((first, find_kind_by_number(number))),
            None => None,
        }
    } else {
        match read_text(r) {
            Some(id) => Some((id, find_kind_by_name(first.as_str()))),
            None => None,
        }
    }
}

fn read_kind(
    r: &mut SlotReader,
    protocol: ProtocolVersion,
    id: String,
    kind: RecipeKind,
    acc: &mut DeclaredRecipes,
) -> (v: Option<()>)
    requires
        old(r).wf(),
    ensures
        final(r).wf(),
        final(r)@ == take_kind(old(r)@, protocol, id@, kind, old(acc)@).1,
        match take_kind(old(r)@, protocol, id@, kind, old(acc)@).0 {
            Some(want) => v is Some && final(acc)@ == want,
            None => v is None,
        },
{
    match kind {
        RecipeKind::Shapeless => match read_shapeless(r, protocol, id) {
            Some(recipe) => {
                acc.crafting.push(recipe);
                proof {
                    assert(crafting_views(acc.crafting@) =~= crafting_views(
                        old(acc).crafting@,
                    ).push(recipe@));
                }
                Some(())
            },
            None => None,
        },
        RecipeKind::Shaped => match read_shaped(r, protocol, id) {
            Some(recipe) => {
                acc.crafting.push(recipe);
                proof {
                    assert(crafting_views(acc.crafting@) =~= crafting_views(
                        old(acc).crafting@,
                    ).push(recipe@));
                }
                Some(())
            },
            None => None,
        },
        RecipeKind::Stonecutting => match read_stonecutting(r, protocol, id) {
            Some(recipe) => {
                acc.stonecutting.push(recipe);
                proof {
                    assert(stonecutter_views(acc.stonecutting@) =~= stonecutter_views(
                        old(acc).stonecutting@,
                    ).push(recipe@));
                }
                Some(())
            },
            None => None,
        },
        RecipeKind::Cooking => read_cooking(r, protocol),
        RecipeKind::SmithingTransform => read_smithing(r, protocol, true),
        RecipeKind::SmithingTrim => read_smithing(r, protocol, false),
        RecipeKind::Special => match read_number(r) {
            Some(_) => Some(()),
            None => None,
        },
        RecipeKind::Unknown => None,
    }
}

fn read_recipes(r: &mut SlotReader, protocol: ProtocolVersion) -> (v: Option<DeclaredRecipes>)
    requires
        old(r).wf(),
    ensures
        final(r).wf(),
        final(r)@ == declared_recipes(old(r)@, protocol).1,
        match declared_recipes(old(r)@, protocol).0 {
            Some(want) => v matches Some(got) && got@ == want,
            None => v is None,
        },
{
    let count: i32 = match read_number(r) {
        Some(count) => count,
        None => return None,
    };
    if count < 0 || count > MAX_RECIPES {
        return None;
    }
    let ghost want = declared_recipes(old(r)@, protocol);
    let mut recipes = DeclaredRecipes { crafting: Vec::new(), stonecutting: Vec::new() };
    let mut left: i32 = count;
    proof {
        assert(crafting_views(recipes.crafting@) =~= Seq::empty());
        assert(stonecutter_views(recipes.stonecutting@) =~= Seq::empty());
    }
    while left > 0
        invariant
            r.wf(),
            0 <= left,
            want == declared_recipes(old(r)@, protocol),
            want == take_recipes(r@, left as nat, protocol, recipes@),
        decreases left,
    {
        let (id, kind) = match read_head(r, protocol) {
            Some(head) => head,
            None => return None,
        };
        if read_kind(r, protocol, id, kind, &mut recipes).is_none() {
            return None;
        }
        left = left - 1;
    }
    Some(recipes)
}

/// What a round of reading gave agrees with what was to be read.
pub open spec fn declared_as(want: Parsed<DeclaredModel>, got: Outcome<DeclaredRecipes>) -> bool {
    match slots::ended_with(want) {
        Outcome::Done(model) => got matches Outcome::Done(value) && value@ == model,
        Outcome::NeedSlot(n) => got == Outcome::<DeclaredRecipes>::NeedSlot(n),
        Outcome::Malformed => got == Outcome::<DeclaredRecipes>::Malformed,
    }
}

/// Reads the recipes that a packet declares, with the stacks decoded so far.
pub fn parse_declared_recipes(body: &[u8], protocol: ProtocolVersion, fed: &Vec<FedSlot>) -> (r:
    Outcome<DeclaredRecipes>)
    ensures
        declared_as(declared_recipes(slots::first_state(body@, fed@), protocol), r),
{
    let mut reader = SlotReader::new(body, fed);
    match read_recipes(&mut reader, protocol) {
        Some(recipes) => Outcome::Done(recipes),
        None => reader.stopped(),
    }
}

/// The alternatives of an ingredient are the items of its stacks, in their order, and an
/// empty stack is none.
pub proof fn alternatives_are_the_stacks(
    st: SlotState,
    n: nat,
    protocol: ProtocolVersion,
    acc: Seq<i32>,
    item: SlotItem,
    behind: SlotState,
)
    ensures
        take_alternatives(st, 0, protocol, acc) == (Some(acc), st),
        slots::take_slot(st, protocol) == (Some(Some(item)), behind) ==> take_alternatives(
            st,
            n + 1,
            protocol,
            acc,
        ) == take_alternatives(behind, n, protocol, acc.push(item.item_id)),
        slots::take_slot(st, protocol) == (Some(None::<SlotItem>), behind) ==> take_alternatives(
            st,
            n + 1,
            protocol,
            acc,
        ) == take_alternatives(behind, n, protocol, acc),
{
}

/// An ingredient has its number of alternatives in front of them, which is 4096 at the
/// most, and ingredients follow one another.
pub proof fn ingredients_follow_one_another(
    st: SlotState,
    n: nat,
    protocol: ProtocolVersion,
    acc: Seq<Seq<i32>>,
    count: i32,
    rest: Seq<u8>,
    ingredient: Seq<i32>,
    behind: SlotState,
)
    requires
        wire::take_varint(st.rest) == (Some(count), rest),
    ensures
        0 <= count <= 4096 ==> take_ingredient(st, protocol) == take_alternatives(
            SlotState { rest, ..st },
            count as nat,
            protocol,
            Seq::empty(),
        ),
        count < 0 || count > 4096 ==> take_ingredient(st, protocol).0 is None,
        take_ingredients(st, 0, protocol, acc) == (Some(acc), st),
        take_ingredient(st, protocol) == (Some(ingredient), behind) ==> take_ingredients(
            st,
            n + 1,
            protocol,
            acc,
        ) == take_ingredients(behind, n, protocol, acc.push(ingredient)),
{
}

/// A recipe without a shape has its group first, then its ingredients behind their number,
/// and last what it makes.
pub proof fn shapeless_recipes_are_read_in_order(
    st: SlotState,
    protocol: ProtocolVersion,
    id: Seq<char>,
    s1: SlotState,
    count: i32,
    s2: SlotState,
    ingredients: Seq<Seq<i32>>,
    s3: SlotState,
    result: Option<SlotItem>,
    s4: SlotState,
)
    requires
        take_group(st) == (Some(()), s1),
        take_number(s1) == (Some(count), s2),
        0 <= count <= 4096,
        take_ingredients(s2, count as nat, protocol, Seq::empty()) == (Some(ingredients), s3),
        slots::take_slot(s3, protocol) == (Some(result), s4),
    ensures
        take_shapeless(st, protocol, id) == (
            Some(CraftingModel { id, width: 0, height: 0, ingredients, result }),
            s4,
        ),
{
}

/// A shaped recipe has as many ingredients as its grid has fields, then what it makes and a
/// flag that is not kept. Its shape stands before its group up to protocol 765 and behind
/// it from 766 on, the width first.
pub proof fn shaped_recipes_are_read_in_order(
    st: SlotState,
    protocol: ProtocolVersion,
    id: Seq<char>,
    s1: SlotState,
    width: i32,
    s2: SlotState,
    height: i32,
    s3: SlotState,
    s4: SlotState,
    ingredients: Seq<Seq<i32>>,
    s5: SlotState,
    result: Option<SlotItem>,
    s6: SlotState,
)
    requires
        protocol.number() >= 766 ==> take_group(st) == (Some(()), s1) && s4 == s3,
        protocol.number() < 766 ==> s1 == st && take_group(s3) == (Some(()), s4),
        take_number(s1) == (Some(width), s2),
        take_number(s2) == (Some(height), s3),
        0 <= width <= 16,
        0 <= height <= 16,
        take_ingredients(s4, (width * height) as nat, protocol, Seq::empty()) == (
            Some(ingredients),
            s5,
        ),
        slots::take_slot(s5, protocol) == (Some(result), s6),
        s6.rest.len() > 0,
    ensures
        take_shaped(st, protocol, id) matches (Some(recipe), _) && recipe.id == id && recipe.width
            == width && recipe.height == height && recipe.ingredients == ingredients
            && recipe.result == result,
{
}

/// A recipe of the stonecutter has its group, what it takes and what it makes.
pub proof fn cuts_are_read_in_order(
    st: SlotState,
    protocol: ProtocolVersion,
    id: Seq<char>,
    group: Seq<char>,
    s1: SlotState,
    ingredients: Seq<i32>,
    s2: SlotState,
    result: Option<SlotItem>,
    s3: SlotState,
)
    requires
        take_text(st) == (Some(group), s1),
        take_ingredient(s1, protocol) == (Some(ingredients), s2),
        slots::take_slot(s2, protocol) == (Some(result), s3),
    ensures
        take_stonecutting(st, protocol, id) == (
            Some(StonecutterModel { id, ingredients, result }),
            s3,
        ),
{
}

/// Recipes of furnaces and of the smithing table are passed over: the first have a group,
/// an ingredient, a stack, a number of four bytes and one more; the second three
/// ingredients, and a stack where they transform an item.
pub proof fn other_recipes_are_passed_over(
    st: SlotState,
    protocol: ProtocolVersion,
    s1: SlotState,
    ingredient: Seq<i32>,
    s2: SlotState,
    result: Option<SlotItem>,
    s3: SlotState,
    bits: u32,
    rest: Seq<u8>,
    time: i32,
    s4: SlotState,
    three: Seq<Seq<i32>>,
    s5: SlotState,
    s6: SlotState,
    made: Option<SlotItem>,
)
    ensures
        take_group(st) == (Some(()), s1) && take_ingredient(s1, protocol) == (Some(ingredient), s2)
            && slots::take_slot(s2, protocol) == (Some(result), s3) && wire::take_u32(s3.rest) == (
            Some(bits),
            rest,
        ) && take_number(SlotState { rest, ..s3 }) == (Some(time), s4) ==> take_cooking(
            st,
            protocol,
        ) == (Some(()), s4),
        take_ingredients(st, 3, protocol, Seq::empty()) == (Some(three), s5) ==> take_smithing(
            st,
            protocol,
            false,
        ) == (Some(()), s5),
        take_ingredients(st, 3, protocol, Seq::empty()) == (Some(three), s5) && slots::take_slot(
            s5,
            protocol,
        ) == (Some(made), s6) ==> take_smithing(st, protocol, true) == (Some(()), s6),
{
}

proof fn lemma_kind_names()
    ensures
        "minecraft:crafting_shapeless"@ != "minecraft:crafting_shaped"@,
        "minecraft:smelting"@.len() == 18,
        "minecraft:smelting"@[10] == 's' && "minecraft:smelting"@[11] == 'm',
        "minecraft:blasting"@.len() == 18 && "minecraft:blasting"@[10] == 'b',
        "minecraft:smoking"@.len() == 17,
        "minecraft:campfire_cooking"@.len() == 26 && "minecraft:campfire_cooking"@[11] == 'a',
        "minecraft:stonecutting"@.len() == 22,
        "minecraft:smithing_transform"@.len() == 28 && "minecraft:smithing_transform"@[10] == 's',
        "minecraft:smithing_trim"@.len() == 23,
        "minecraft:crafting_decorated_pot"@.len() == 32,
        "minecraft:crafting_shapeless"@.len() == 28 && "minecraft:crafting_shapeless"@[10] == 'c',
        "minecraft:crafting_shaped"@.len() == 25,
{
    reveal_strlit("minecraft:crafting_shapeless");
    reveal_strlit("minecraft:crafting_shaped");
    reveal_strlit("minecraft:smelting");
    reveal_strlit("minecraft:blasting");
    reveal_strlit("minecraft:smoking");
    reveal_strlit("minecraft:campfire_cooking");
    reveal_strlit("minecraft:stonecutting");
    reveal_strlit("minecraft:smithing_transform");
    reveal_strlit("minecraft:smithing_trim");
    reveal_strlit("minecraft:crafting_decorated_pot");
    assert("minecraft:crafting_shapeless"@.len() == 28);
    assert("minecraft:crafting_shaped"@.len() == 25);
}

/// Recipes are named after where they are made up to protocol 765.
pub proof fn kinds_have_names()
    ensures
        kind_by_name("minecraft:crafting_shapeless"@) == RecipeKind::Shapeless,
        kind_by_name("minecraft:crafting_shaped"@) == RecipeKind::Shaped,
        kind_by_name("minecraft:smelting"@) == RecipeKind::Cooking,
        kind_by_name("minecraft:blasting"@) == RecipeKind::Cooking,
        kind_by_name("minecraft:smoking"@) == RecipeKind::Cooking,
        kind_by_name("minecraft:campfire_cooking"@) == RecipeKind::Cooking,
        kind_by_name("minecraft:stonecutting"@) == RecipeKind::Stonecutting,
        kind_by_name("minecraft:smithing_transform"@) == RecipeKind::SmithingTransform,
        kind_by_name("minecraft:smithing_trim"@) == RecipeKind::SmithingTrim,
        kind_by_name("minecraft:crafting_decorated_pot"@) == RecipeKind::Special,
{
    lemma_kind_names();
}

/// From protocol 766 on kinds of recipes have numbers.
pub proof fn kinds_have_numbers(number: i32)
    ensures
        kind_by_number(number) == RecipeKind::Shaped <==> number == 0,
        kind_by_number(number) == RecipeKind::Shapeless <==> number == 1,
        kind_by_number(number) == RecipeKind::Special <==> 2 <= number <= 14 || number == 22,
        kind_by_number(number) == RecipeKind::Cooking <==> 15 <= number <= 18,
        kind_by_number(number) == RecipeKind::Stonecutting <==> number == 19,
        kind_by_number(number) == RecipeKind::SmithingTransform <==> number == 20,
        kind_by_number(number) == RecipeKind::SmithingTrim <==> number == 21,
        kind_by_number(number) == RecipeKind::Unknown <==> number < 0 || number > 22,
{
}

/// A recipe begins with the name of its kind and its own up to protocol 765, and with its
/// name and the number of its kind from 766 on.
pub proof fn recipes_begin_with_their_kind(
    st: SlotState,
    protocol: ProtocolVersion,
    first: Seq<char>,
    s1: SlotState,
    second: Seq<char>,
    number: i32,
    s2: SlotState,
)
    requires
        take_text(st) == (Some(first), s1),
    ensures
        protocol.number() < 766 && take_text(s1) == (Some(second), s2) ==> take_head(st, protocol)
            == (Some((second, kind_by_name(first))), s2),
        protocol.number() >= 766 && take_number(s1) == (Some(number), s2) ==> take_head(
            st,
            protocol,
        ) == (Some((first, kind_by_number(number))), s2),
{
}

/// Of the recipes that a packet declares, those of the crafting grid and of the stonecutter
/// are kept, each kind in its order; the others are passed over.
pub proof fn crafting_and_cutting_are_kept(
    st: SlotState,
    protocol: ProtocolVersion,
    id: Seq<char>,
    acc: DeclaredModel,
    grid: CraftingModel,
    cut: StonecutterModel,
    behind: SlotState,
    kind: RecipeKind,
)
    ensures
        take_shapeless(st, protocol, id) == (Some(grid), behind) ==> take_kind(
            st,
            protocol,
            id,
            RecipeKind::Shapeless,
            acc,
        ) == (
            Some(
                DeclaredModel {
                    crafting: acc.crafting.push(grid),
                    stonecutting: acc.stonecutting,
                },
            ),
            behind,
        ),
        take_shaped(st, protocol, id) == (Some(grid), behind) ==> take_kind(
            st,
            protocol,
            id,
            RecipeKind::Shaped,
            acc,
        ) == (
            Some(
                DeclaredModel {
                    crafting: acc.crafting.push(grid),
                    stonecutting: acc.stonecutting,
                },
            ),
            behind,
        ),
        take_stonecutting(st, protocol, id) == (Some(cut), behind) ==> take_kind(
            st,
            protocol,
            id,
            RecipeKind::Stonecutting,
            acc,
        ) == (
            Some(
                DeclaredModel {
                    crafting: acc.crafting,
                    stonecutting: acc.stonecutting.push(cut),
                },
            ),
            behind,
        ),
        kind is Cooking || kind is SmithingTransform || kind is SmithingTrim || kind is Special ==> (
        take_kind(st, protocol, id, kind, acc).0 matches Some(after) ==> after == acc),
        take_cooking(st, protocol) == (Some(()), behind) ==> take_kind(
            st,
            protocol,
            id,
            RecipeKind::Cooking,
            acc,
        ) == (Some(acc), behind),
        take_smithing(st, protocol, true) == (Some(()), behind) ==> take_kind(
            st,
            protocol,
            id,
            RecipeKind::SmithingTransform,
            acc,
        ) == (Some(acc), behind),
        take_smithing(st, protocol, false) == (Some(()), behind) ==> take_kind(
            st,
            protocol,
            id,
            RecipeKind::SmithingTrim,
            acc,
        ) == (Some(acc), behind),
        take_number(st).0 is Some ==> take_kind(st, protocol, id, RecipeKind::Special, acc) == (
            Some(acc),
            take_number(st).1,
        ),
        take_kind(st, protocol, id, RecipeKind::Unknown, acc).0 is None,
{
}

/// Recipes follow one another behind their number, which is 65536 at the most.
pub proof fn recipes_follow_one_another(
    st: SlotState,
    n: nat,
    protocol: ProtocolVersion,
    acc: DeclaredModel,
    id: Seq<char>,
    kind: RecipeKind,
    s1: SlotState,
    next: DeclaredModel,
    s2: SlotState,
    count: i32,
    s3: SlotState,
)
    ensures
        take_recipes(st, 0, protocol, acc) == (Some(acc), st),
        take_head(st, protocol) == (Some((id, kind)), s1) && take_kind(s1, protocol, id, kind, acc)
            == (Some(next), s2) ==> take_recipes(st, n + 1, protocol, acc) == take_recipes(
            s2,
            n,
            protocol,
            next,
        ),
        take_number(st) == (Some(count), s3) && 0 <= count <= 65536 ==> declared_recipes(
            st,
            protocol,
        ) == take_recipes(
            s3,
            count as nat,
            protocol,
            DeclaredModel { crafting: Seq::empty(), stonecutting: Seq::empty() },
        ),
        take_number(st) == (Some(count), s3) && (count < 0 || count > 65536) ==> declared_recipes(
            st,
            protocol,
        ).0 is None,
{
}

/// Recipes stand for their parts, ingredients and lists in order.
pub proof fn recipes_stand_for_their_parts(
    grid: CraftingRecipe,
    cut: StonecutterRecipe,
    declared: DeclaredRecipes,
    i: int,
)
    ensures
        grid@.id == grid.id@,
        grid@.width == grid.width && grid@.height == grid.height,
        grid@.result == grid.result,
        grid@.ingredients.len() == grid.ingredients@.len(),
        0 <= i < grid.ingredients@.len() ==> grid@.ingredients[i] == grid.ingredients@[i]@,
        cut@.id == cut.id@,
        cut@.ingredients == cut.ingredients@,
        cut@.result == cut.result,
        declared@.crafting.len() == declared.crafting@.len(),
        declared@.stonecutting.len() == declared.stonecutting@.len(),
        0 <= i < declared.crafting@.len() ==> declared@.crafting[i] == declared.crafting@[i]@,
        0 <= i < declared.stonecutting@.len() ==> declared@.stonecutting[i]
            == declared.stonecutting@[i]@,
{
}

/// What a packet declares is handed out once every stack in it was decoded; until then the
/// next one is asked for by its distance from the end, and a broken packet is refused.
pub proof fn declarations_wait_for_their_stacks(
    body: &[u8],
    protocol: ProtocolVersion,
    fed: &Vec<FedSlot>,
    outcome: Outcome<DeclaredRecipes>,
)
    requires
        call_ensures(parse_declared_recipes, (body, protocol, fed), outcome),
    ensures
        ({
            let start = SlotState { rest: body@, fed: fed@, next: 0, wanting: false };
            let (found, end) = declared_recipes(start, protocol);
            &&& found matches Some(model) ==> (outcome matches Outcome::Done(got) && got@ == model)
            &&& found is None && end.wanting ==> (outcome matches Outcome::NeedSlot(distance)
                && distance == end.rest.len() as usize)
            &&& found is None && !end.wanting ==> outcome is Malformed
        }),
{
}

} // verus!
