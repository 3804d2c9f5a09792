//! The recipe book: the recipes that are known and those that are unlocked.

use vstd::prelude::*;

use crate::items::SlotItem;
use crate::join::MAX_IDENTIFIER;
use crate::recipes::{
    self, CraftingModel, CraftingRecipe, DeclaredModel, DeclaredRecipes, StonecutterModel,
    StonecutterRecipe, MAX_ALTERNATIVES, MAX_RECIPES, MAX_SIDE,
};
use crate::slots::{self, FedSlot, Outcome, Parsed, SlotReader, SlotState};
use crate::table::KeySet;
use crate::text::{self, decimal_text, str_eq};
use crate::wire::{self, Reader, Taken};

verus! {

/// What a slot of a displayed recipe shows: the items that fit, and one stack
/// to draw.
#[derive(Debug)]
pub struct SlotDisplay {
    pub items: Vec<i32>,
    pub representative: Option<SlotItem>,
}

#[verifier::ext_equal]
pub struct DisplayModel {
    pub items: Seq<i32>,
    pub representative: Option<SlotItem>,
}

impl View for SlotDisplay {
    type V = DisplayModel;

    open spec fn view(&self) -> DisplayModel {
        DisplayModel { items: self.items@, representative: self.representative }
    }
}

pub open spec fn empty_display() -> DisplayModel {
    DisplayModel { items: Seq::empty(), representative: None }
}

/// The place of a number in a rising sequence: behind all smaller ones.
pub open spec fn rank(items: Seq<i32>, item: i32) -> int
    decreases items.len(),
{
    if items.len() == 0 {
        0
    } else if items.last() < item {
        items.len() as int
    } else {
        rank(items.drop_last(), item)
    }
}

/// A rising sequence with one more number; one that is there already is not
/// repeated.
pub open spec fn with_item(items: Seq<i32>, item: i32) -> Seq<i32> {
    let at = rank(items, item);
    if at < items.len() && items[at] == item {
        items
    } else {
        items.insert(at, item)
    }
}

/// The numbers of a sequence in rising order, each once.
pub open spec fn risen(items: Seq<i32>) -> Seq<i32>
    decreases items.len(),
{
    if items.len() == 0 {
        items
    } else {
        with_item(risen(items.drop_last()), items.last())
    }
}

pub open spec fn rising(items: Seq<i32>) -> bool {
    forall|i: int, j: int| 0 <= i < j < items.len() ==> items[i] < items[j]
}

proof fn lemma_rank(items: Seq<i32>, item: i32)
    requires
        rising(items),
    ensures
        0 <= rank(items, item) <= items.len(),
        forall|i: int| 0 <= i < rank(items, item) ==> items[i] < item,
        forall|i: int| rank(items, item) <= i < items.len() ==> item <= items[i],
    decreases items.len(),
{
    if items.len() > 0 && items.last() >= item {
        let shorter = items.drop_last();
        assert(rising(shorter));
        lemma_rank(shorter, item);
        assert forall|i: int| 0 <= i < rank(items, item) implies items[i] < item by {
            assert(shorter[i] == items[i]);
        }
        assert forall|i: int| rank(items, item) <= i < items.len() implies item <= items[i] by {
            if i < shorter.len() {
                assert(shorter[i] == items[i]);
            }
        }
    } else if items.len() > 0 {
        assert forall|i: int| 0 <= i < items.len() implies items[i] < item by {
            if i < items.len() - 1 {
                assert(items[i] < items[items.len() - 1]);
            }
        }
    }
}

proof fn lemma_with_item(items: Seq<i32>, item: i32)
    requires
        rising(items),
    ensures
        rising(with_item(items, item)),
        forall|v: i32|
            with_item(items, item).contains(v) <==> items.contains(v) || v == item,
{
    lemma_rank(items, item);
    let at = rank(items, item);
    let after = with_item(items, item);
    if at < items.len() && items[at] == item {
        assert(items.contains(item));
    } else {
        assert forall|i: int, j: int| 0 <= i < j < after.len() implies after[i] < after[j] by {
            if j < at {
            } else if j == at {
            } else if i < at {
                assert(items[i] < item && item <= items[j - 1]);
            } else if i == at {
                assert(items[j - 1] >= item);
                if j - 1 > at {
                    assert(items[at] < items[j - 1]);
                }
            } else {
                assert(items[i - 1] < items[j - 1]);
            }
        }
        assert forall|v: i32| after.contains(v) <==> items.contains(v) || v == item by {
            assert(after[at] == item);
            if items.contains(v) {
                let k = choose|k: int| 0 <= k < items.len() && items[k] == v;
                if k < at {
                    assert(after[k] == v);
                } else {
                    assert(after[k + 1] == v);
                }
            }
            if after.contains(v) && v != item {
                let k = choose|k: int| 0 <= k < after.len() && after[k] == v;
                if k < at {
                    assert(items[k] == v);
                } else {
                    assert(items[k - 1] == v);
                }
            }
        }
    }
}

/// Sorting keeps every item, in rising order and without repeats.
pub proof fn sorting_keeps_the_items(items: Seq<i32>)
    ensures
        rising(risen(items)),
        forall|v: i32| risen(items).contains(v) <==> items.contains(v),
    decreases items.len(),
{
    if items.len() > 0 {
        let shorter = items.drop_last();
        sorting_keeps_the_items(shorter);
        lemma_with_item(risen(shorter), items.last());
        assert forall|v: i32| risen(items).contains(v) <==> items.contains(v) by {
            if items.contains(v) {
                let k = choose|k: int| 0 <= k < items.len() && items[k] == v;
                if k < shorter.len() {
                    assert(shorter[k] == v);
                }
            }
            if shorter.contains(v) {
                let k = choose|k: int| 0 <= k < shorter.len() && shorter[k] == v;
                assert(items[k] == v);
            }
            assert(items[items.len() - 1] == items.last());
        }
    }
}

fn sort_items(items: &Vec<i32>) -> (r: Vec<i32>)
    ensures
        r@ == risen(items@),
{
    let mut out: Vec<i32> = Vec::new();
    let mut i: usize = 0;
    while i < items.len()
        invariant
            i <= items@.len(),
            out@ == risen(items@.take(i as int)),
        decreases items@.len() - i,
    {
        let item: i32 = items[i];
        proof {
            sorting_keeps_the_items(items@.take(i as int));
            assert(items@.take(i + 1).drop_last() =~= items@.take(i as int));
            lemma_rank(out@, item);
            assert(out@.take(out@.len() as int) =~= out@);
        }
        let mut at: usize = out.len();
        while at > 0 && out[at - 1] >= item
            invariant
                at <= out@.len(),
                rank(out@, item) == rank(out@.take(at as int), item),
            decreases at,
        {
            proof {
                assert(out@.take(at as int).drop_last() =~= out@.take(at - 1));
            }
            at = at - 1;
        }
        proof {
            if at > 0 {
                assert(out@.take(at as int).last() == out@[at - 1]);
            }
            assert(at == rank(out@, item));
        }
        if at < out.len() && out[at] == item {
        } else {
            out.insert(at, item);
        }
        i = i + 1;
    }
    proof {
        assert(items@.take(i as int) =~= items@);
    }
    out
}

/// How deeply the slots of a displayed recipe may nest.
pub const MAX_NESTING: u32 = 32;

pub open spec fn room_below(depth: nat) -> nat {
    if depth <= 33 {
        (34 - depth) as nat
    } else {
        0
    }
}

/// Several displays in one: all their items, and the first stack to draw.
pub open spec fn combined(acc: DisplayModel, child: DisplayModel) -> DisplayModel {
    DisplayModel {
        items: acc.items + child.items,
        representative: match acc.representative {
            Some(item) => Some(item),
            None => child.representative,
        },
    }
}

/// What a slot of a displayed recipe shows.
pub open spec fn take_display(st: SlotState, depth: nat) -> Parsed<DisplayModel>
    decreases room_below(depth), 0nat,
{
    if depth > MAX_NESTING {
        (None, st)
    } else {
        match recipes::take_number(st) {
            (Some(kind), st) => if kind == 0 || kind == 1 {
                (Some(empty_display()), st)
            } else if kind == 2 {
                match recipes::take_number(st) {
                    (Some(item_id), st) => (
                        Some(
                            DisplayModel {
                                items: seq![item_id],
                                representative: Some(SlotItem { item_id, count: 1 }),
                            },
                        ),
                        st,
                    ),
                    (None, st) => (None, st),
                }
            } else if kind == 3 {
                match slots::take_component_slot(st) {
                    (Some(i), st) => (
                        Some(
                            DisplayModel {
                                items: match st.fed[i].item {
                                    Some(item) => seq![item.item_id],
                                    None => Seq::empty(),
                                },
                                representative: st.fed[i].item,
                            },
                        ),
                        st,
                    ),
                    (None, st) => (None, st),
                }
            } else if kind == 4 {
                match recipes::take_text(st) {
                    (Some(_), st) => (Some(empty_display()), st),
                    (None, st) => (None, st),
                }
            } else if kind == 5 {
                match take_display(st, depth + 1) {
                    (Some(base), st) => match take_display(st, depth + 1) {
                        (Some(_), st) => match take_display(st, depth + 1) {
                            (Some(_), st) => (Some(base), st),
                            (None, st) => (None, st),
                        },
                        (None, st) => (None, st),
                    },
                    (None, st) => (None, st),
                }
            } else if kind == 6 {
                match take_display(st, depth + 1) {
                    (Some(input), st) => match take_display(st, depth + 1) {
                        (Some(_), st) => (Some(input), st),
                        (None, st) => (None, st),
                    },
                    (None, st) => (None, st),
                }
            } else if kind == 7 {
                match recipes::take_number(st) {
                    (Some(count), st) => if 0 <= count <= MAX_ALTERNATIVES {
                        match take_children(st, count as nat, depth + 1, empty_display()) {
                            (Some(all), st) => (
                                Some(DisplayModel { items: risen(all.items), ..all }),
                                st,
                            ),
                            (None, st) => (None, st),
                        }
                    } else {
                        (None, st)
                    },
                    (None, st) => (None, st),
                }
            } else {
                (None, st)
            },
            (None, st) => (None, st),
        }
    }
}

/// `n` more displays, combined with those in `acc`.
pub open spec fn take_children(st: SlotState, n: nat, depth: nat, acc: DisplayModel) -> Parsed<
    DisplayModel,
>
    decreases room_below(depth), n,
{
    if n == 0 {
        (Some(acc), st)
    } else {
        match take_display(st, depth) {
            (Some(child), st) => take_children(st, (n - 1) as nat, depth, combined(acc, child)),
            (None, st) => (None, st),
        }
    }
}

pub open spec fn displayed_as(want: Option<DisplayModel>, got: Option<SlotDisplay>) -> bool {
    match want {
        Some(model) => got matches Some(value) && value@ == model,
        None => got is None,
    }
}

fn append_items(items: &mut Vec<i32>, more: &Vec<i32>)
    ensures
        final(items)@ == old(items)@ + more@,
{
    let ghost before = items@;
    let mut i: usize = 0;
    proof {
        assert(before + more@.take(0) =~= before);
    }
    while i < more.len()
        invariant
            i <= more@.len(),
            items@ == before + more@.take(i as int),
        decreases more@.len() - i,
    {
        items.push(more[i]);
        proof {
            assert(more@.take(i + 1) =~= more@.take(i as int).push(more@[i as int]));
            assert(items@ =~= before + more@.take(i + 1));
        }
        i = i + 1;
    }
    proof {
        assert(more@.take(i as int) =~= more@);
    }
}

fn read_display(r: &mut SlotReader, depth: u32) -> (v: Option<SlotDisplay>)
    requires
        old(r).wf(),
        depth <= 33,
    ensures
        final(r).wf(),
        final(r)@ == take_display(old(r)@, depth as nat).1,
        displayed_as(take_display(old(r)@, depth as nat).0, v),
    decreases 34 - depth, 0nat,
{
    if depth > MAX_NESTING {
        return None;
    }
    let kind: i32 = match r.reader.varint() {
        Some(kind) => kind,
        None => return None,
    };
    if kind == 0 || kind == 1 {
        Some(SlotDisplay { items: Vec::new(), representative: None })
    } else if kind == 2 {
        match r.reader.varint() {
            Some(item_id) => {
                let mut items: Vec<i32> = Vec::new();
                items.push(item_id);
                Some(SlotDisplay { items, representative: Some(SlotItem { item_id, count: 1 }) })
            },
            None => None,
        }
    } else if kind == 3 {
        match r.component_slot() {
            Some(i) => {
                let representative: Option<SlotItem> = r.fed[i].item;
                let mut items: Vec<i32> = Vec::new();
                match representative {
                    Some(item) => items.push(item.item_id),
                    None => {},
                }
                Some(SlotDisplay { items, representative })
            },
            None => None,
        }
    } else if kind == 4 {
        match r.reader.string(MAX_IDENTIFIER) {
            Some(_) => Some(SlotDisplay { items: Vec::new(), representative: None }),
            None => None,
        }
    } else if kind == 5 {
        let base = match read_display(r, depth + 1) {
            Some(v) => v,
            None => return None,
        };
        if read_display(r, depth + 1).is_none() {
            return None;
        }
        if read_display(r, depth + 1).is_none() {
            return None;
        }
        Some(base)
    } else if kind == 6 {
        let input = match read_display(r, depth + 1) {
            Some(v) => v,
            None => return None,
        };
        if read_display(r, depth + 1).is_none() {
            return None;
        }
        Some(input)
    } else if kind == 7 {
        let count: i32 = match r.reader.varint() {
            Some(count) => count,
            None => return None,
        };
        if count < 0 || count > MAX_ALTERNATIVES {
            return None;
        }
        match read_children(r, count, depth + 1) {
            Some(all) => Some(
                SlotDisplay { items: sort_items(&all.items), representative: all.representative },
            ),
            None => None,
        }
    } else {
        None
    }
}

fn read_children(r: &mut SlotReader, n: i32, depth: u32) -> (v: Option<SlotDisplay>)
    requires
        old(r).wf(),
        0 <= n,
        depth <= 33,
    ensures
        final(r).wf(),
        final(r)@ == take_children(old(r)@, n as nat, depth as nat, empty_display()).1,
        displayed_as(take_children(old(r)@, n as nat, depth as nat, empty_display()).0, v),
    decreases 34 - depth, 1nat,
{
    let ghost want = take_children(r@, n as nat, depth as nat, empty_display());
    let mut all = SlotDisplay { items: Vec::new(), representative: None };
    let mut left: i32 = n;
    proof {
        assert(all@ =~= empty_display());
    }
    while left > 0
        invariant
            r.wf(),
            0 <= left,
            depth <= 33,
            want == take_children(old(r)@, n as nat, depth as nat, empty_display()),
            want == take_children(r@, left as nat, depth as nat, all@),
        decreases left,
    {
        let ghost before = all@;
        match read_display(r, depth) {
            Some(child) => {
                if all.representative.is_none() {
                    all.representative = child.representative;
                }
                append_items(&mut all.items, &child.items);
                proof {
                    assert(all@ =~= combined(before, child@));
                }
            },
            None => return None,
        }
        left = left - 1;
    }
    Some(all)
}

/// The items of `n` more slots behind those in `acc`.
pub open spec fn take_shown_items(st: SlotState, n: nat, acc: Seq<Seq<i32>>) -> Parsed<
    Seq<Seq<i32>>,
>
    decreases n,
{
    if n == 0 {
        (Some(acc), st)
    } else {
        match take_display(st, 0) {
            (Some(display), st) => take_shown_items(st, (n - 1) as nat, acc.push(display.items)),
            (None, st) => (None, st),
        }
    }
}

/// `n` slots that are read and not kept.
pub open spec fn take_unused(st: SlotState, n: nat) -> Parsed<()>
    decreases n,
{
    if n == 0 {
        (Some(()), st)
    } else {
        match take_display(st, 0) {
            (Some(_), st) => take_unused(st, (n - 1) as nat),
            (None, st) => (None, st),
        }
    }
}

/// The most ingredients of a displayed recipe.
pub const MAX_SHOWN: i32 = 256;

/// The stack that a recipe makes, and the station that it is made at.
pub open spec fn take_result(st: SlotState) -> Parsed<Option<SlotItem>> {
    match take_display(st, 0) {
        (Some(result), st) => match take_display(st, 0) {
            (Some(_), st) => (Some(result.representative), st),
            (None, st) => (None, st),
        },
        (None, st) => (None, st),
    }
}

/// The ingredients, the result and the station of a crafting recipe.
pub open spec fn take_shown_crafting(st: SlotState, id: Seq<char>, width: u8, height: u8) -> Parsed<
    CraftingModel,
> {
    match recipes::take_number(st) {
        (Some(count), st) => if 0 <= count <= MAX_SHOWN {
            match take_shown_items(st, count as nat, Seq::empty()) {
                (Some(ingredients), st) => match take_result(st) {
                    (Some(result), st) => (
                        Some(CraftingModel { id, width, height, ingredients, result }),
                        st,
                    ),
                    (None, st) => (None, st),
                },
                (None, st) => (None, st),
            }
        } else {
            (None, st)
        },
        (None, st) => (None, st),
    }
}

/// A displayed recipe: one for the crafting grid or for the stonecutter is
/// kept, others are read only.
pub open spec fn take_recipe_display(st: SlotState, id: Seq<char>, acc: DeclaredModel) -> Parsed<
    DeclaredModel,
> {
    match recipes::take_number(st) {
        (Some(kind), st) => if kind == 0 {
            match take_shown_crafting(st, id, 0, 0) {
                (Some(recipe), st) => (
                    Some(DeclaredModel { crafting: acc.crafting.push(recipe), ..acc }),
                    st,
                ),
                (None, st) => (None, st),
            }
        } else if kind == 1 {
            match recipes::take_shape(st) {
                (Some((width, height)), st) => match take_shown_crafting(
                    st,
                    id,
                    width as u8,
                    height as u8,
                ) {
                    (Some(recipe), st) => (
                        Some(DeclaredModel { crafting: acc.crafting.push(recipe), ..acc }),
                        st,
                    ),
                    (None, st) => (None, st),
                },
                (None, st) => (None, st),
            }
        } else if kind == 2 {
            match take_unused(st, 4) {
                (Some(_), st) => match recipes::take_number(st) {
                    (Some(_), st) => match slots::plain(st, wire::take_u32(st.rest)) {
                        (Some(_), st) => (Some(acc), st),
                        (None, st) => (None, st),
                    },
                    (None, st) => (None, st),
                },
                (None, st) => (None, st),
            }
        } else if kind == 3 {
            match take_display(st, 0) {
                (Some(ingredient), st) => match take_result(st) {
                    (Some(result), st) => (
                        Some(
                            DeclaredModel {
                                stonecutting: acc.stonecutting.push(
                                    StonecutterModel {
                                        id,
                                        ingredients: ingredient.items,
                                        result,
                                    },
                                ),
                                ..acc
                            },
                        ),
                        st,
                    ),
                    (None, st) => (None, st),
                },
                (None, st) => (None, st),
            }
        } else if kind == 4 {
            match take_unused(st, 5) {
                (Some(_), st) => (Some(acc), st),
                (None, st) => (None, st),
            }
        } else {
            (None, st)
        },
        (None, st) => (None, st),
    }
}

/// A set of items by number: as a tag, or as a list behind its length plus 1.
pub open spec fn take_id_set(st: SlotState) -> Parsed<()> {
    match recipes::take_number(st) {
        (Some(encoded), st) => if encoded == 0 {
            match recipes::take_text(st) {
                (Some(_), st) => (Some(()), st),
                (None, st) => (None, st),
            }
        } else if 1 <= encoded <= 65537 {
            take_numbers(st, (encoded - 1) as nat)
        } else {
            (None, st)
        },
        (None, st) => (None, st),
    }
}

pub open spec fn take_numbers(st: SlotState, n: nat) -> Parsed<()>
    decreases n,
{
    if n == 0 {
        (Some(()), st)
    } else {
        match recipes::take_number(st) {
            (Some(_), st) => take_numbers(st, (n - 1) as nat),
            (None, st) => (None, st),
        }
    }
}

pub open spec fn take_id_sets(st: SlotState, n: nat) -> Parsed<()>
    decreases n,
{
    if n == 0 {
        (Some(()), st)
    } else {
        match take_id_set(st) {
            (Some(_), st) => take_id_sets(st, (n - 1) as nat),
            (None, st) => (None, st),
        }
    }
}

/// The items that unlock a recipe, where the server sends them.
pub open spec fn take_requirements(st: SlotState) -> Parsed<()> {
    match slots::plain(st, wire::take_bool(st.rest)) {
        (Some(present), st) => if present {
            match recipes::take_number(st) {
                (Some(count), st) => if 0 <= count <= MAX_SHOWN {
                    take_id_sets(st, count as nat)
                } else {
                    (None, st)
                },
                (None, st) => (None, st),
            }
        } else {
            (Some(()), st)
        },
        (None, st) => (None, st),
    }
}

/// What follows a displayed recipe: its group, category, requirements, flags.
pub open spec fn take_entry_tail(st: SlotState) -> Parsed<()> {
    match take_numbers(st, 2) {
        (Some(_), st) => match take_requirements(st) {
            (Some(_), st) => match slots::plain(st, wire::take_u8(st.rest)) {
                (Some(_), st) => (Some(()), st),
                (None, st) => (None, st),
            },
            (None, st) => (None, st),
        },
        (None, st) => (None, st),
    }
}

/// What a packet adds to the book.
#[verifier::ext_equal]
pub struct AddedModel {
    pub recipes: DeclaredModel,
    pub unlocked: Seq<Seq<char>>,
    pub replace: bool,
}

/// `n` more entries behind those in `acc`.
pub open spec fn take_entries(
    st: SlotState,
    n: nat,
    acc: DeclaredModel,
    unlocked: Seq<Seq<char>>,
) -> Parsed<(DeclaredModel, Seq<Seq<char>>)>
    decreases n,
{
    if n == 0 {
        (Some((acc, unlocked)), st)
    } else {
        match recipes::take_number(st) {
            (Some(display_id), st) => {
                let id = text::decimal(display_id as int);
                match take_recipe_display(st, id, acc) {
                    (Some(acc), st) => match take_entry_tail(st) {
                        (Some(_), st) => take_entries(st, (n - 1) as nat, acc, unlocked.push(id)),
                        (None, st) => (None, st),
                    },
                    (None, st) => (None, st),
                }
            },
            (None, st) => (None, st),
        }
    }
}

pub open spec fn no_recipes() -> DeclaredModel {
    DeclaredModel { crafting: Seq::empty(), stonecutting: Seq::empty() }
}

pub open spec fn added_recipes(st: SlotState) -> Parsed<AddedModel> {
    match recipes::take_number(st) {
        (Some(count), st) => if 0 <= count <= MAX_RECIPES {
            match take_entries(st, count as nat, no_recipes(), Seq::empty()) {
                (Some((recipes, unlocked)), st) => match slots::plain(
                    st,
                    wire::take_bool(st.rest),
                ) {
                    (Some(replace), st) => (Some(AddedModel { recipes, unlocked, replace }), st),
                    (None, st) => (None, st),
                },
                (None, st) => (None, st),
            }
        } else {
            (None, st)
        },
        (None, st) => (None, st),
    }
}

fn read_shown_items(r: &mut SlotReader, n: i32) -> (v: Option<Vec<Vec<i32>>>)
    requires
        old(r).wf(),
        0 <= n,
    ensures
        final(r).wf(),
        final(r)@ == take_shown_items(old(r)@, n as nat, Seq::empty()).1,
        match take_shown_items(old(r)@, n as nat, Seq::empty()).0 {
            Some(want) => v matches Some(got) && recipes::alternatives(got@) == want,
            None => v is None,
        },
{
    let ghost want = take_shown_items(r@, n as nat, Seq::empty());
    let mut out: Vec<Vec<i32>> = Vec::new();
    let mut left: i32 = n;
    proof {
        assert(recipes::alternatives(out@) =~= Seq::empty());
    }
    while left > 0
        invariant
            r.wf(),
            0 <= left,
            want == take_shown_items(old(r)@, n as nat, Seq::empty()),
            want == take_shown_items(r@, left as nat, recipes::alternatives(out@)),
        decreases left,
    {
        let ghost before = out@;
        match read_display(r, 0) {
            Some(display) => {
                let items = display.items;
                out.push(items);
                proof {
                    assert(recipes::alternatives(out@) =~= recipes::alternatives(before).push(
                        items@,
                    ));
                }
            },
            None => return None,
        }
        left = left - 1;
    }
    Some(out)
}

fn skip_displays(r: &mut SlotReader, n: u32) -> (v: Option<()>)
    requires
        old(r).wf(),
    ensures
        final(r).wf(),
        (v, final(r)@) == take_unused(old(r)@, n as nat),
{
    let ghost want = take_unused(r@, n as nat);
    let mut left: u32 = n;
    while left > 0
        invariant
            r.wf(),
            want == take_unused(old(r)@, n as nat),
            want == take_unused(r@, left as nat),
        decreases left,
    {
        if read_display(r, 0).is_none() {
            return None;
        }
        left = left - 1;
    }
    Some(())
}

fn read_result(r: &mut SlotReader) -> (v: Option<Option<SlotItem>>)
    requires
        old(r).wf(),
    ensures
        final(r).wf(),
        (v, final(r)@) == take_result(old(r)@),
{
    let result = match read_display(r, 0) {
        Some(v) => v,
        None => return None,
    };
    if read_display(r, 0).is_none() {
        return None;
    }
    Some(result.representative)
}

fn read_shown_crafting(r: &mut SlotReader, id: String, width: u8, height: u8) -> (v: Option<
    CraftingRecipe,
>)
    requires
        old(r).wf(),
    ensures
        final(r).wf(),
        final(r)@ == take_shown_crafting(old(r)@, id@, width, height).1,
        match take_shown_crafting(old(r)@, id@, width, height).0 {
            Some(want) => v matches Some(got) && got@ == want,
            None => v is None,
        },
{
    let count: i32 = match r.reader.varint() {
        Some(count) => count,
        None => return None,
    };
    if count < 0 || count > MAX_SHOWN {
        return None;
    }
    let ingredients = match read_shown_items(r, count) {
        Some(v) => v,
        None => return None,
    };
    match read_result(r) {
        Some(result) => Some(CraftingRecipe { id, width, height, ingredients, result }),
        None => None,
    }
}

fn push_crafting(acc: &mut DeclaredRecipes, recipe: CraftingRecipe)
    ensures
        final(acc)@ == (DeclaredModel {
            crafting: old(acc)@.crafting.push(recipe@),
            ..old(acc)@
        }),
{
    acc.crafting.push(recipe);
    proof {
        assert(recipes::crafting_views(acc.crafting@) =~= recipes::crafting_views(
            old(acc).crafting@,
        ).push(recipe@));
    }
}

fn push_stonecutting(acc: &mut DeclaredRecipes, recipe: StonecutterRecipe)
    ensures
        final(acc)@ == (DeclaredModel {
            stonecutting: old(acc)@.stonecutting.push(recipe@),
            ..old(acc)@
        }),
{
    acc.stonecutting.push(recipe);
    proof {
        assert(recipes::stonecutter_views(acc.stonecutting@) =~= recipes::stonecutter_views(
            old(acc).stonecutting@,
        ).push(recipe@));
    }
}

fn read_recipe_display(r: &mut SlotReader, id: String, acc: &mut DeclaredRecipes) -> (v: Option<()>)
    requires
        old(r).wf(),
    ensures
        final(r).wf(),
        final(r)@ == take_recipe_display(old(r)@, id@, old(acc)@).1,
        match take_recipe_display(old(r)@, id@, old(acc)@).0 {
            Some(want) => v is Some && final(acc)@ == want,
            None => v is None,
        },
{
    let kind: i32 = match r.reader.varint() {
        Some(kind) => kind,
        None => return None,
    };
    if kind == 0 {
        match read_shown_crafting(r, id, 0, 0) {
            Some(recipe) => {
                push_crafting(acc, recipe);
                Some(())
            },
            None => None,
        }
    } else if kind == 1 {
        let width: i32 = match r.reader.varint() {
            Some(v) => v,
            None => return None,
        };
        let height: i32 = match r.reader.varint() {
            Some(v) => v,
            None => return None,
        };
        if !(0 <= width && width <= MAX_SIDE && 0 <= height && height <= MAX_SIDE) {
            return None;
        }
        match read_shown_crafting(r, id, width as u8, height as u8) {
            Some(recipe) => {
                push_crafting(acc, recipe);
                Some(())
            },
            None => None,
        }
    } else if kind == 2 {
        if skip_displays(r, 4).is_none() {
            return None;
        }
        if r.reader.varint().is_none() {
            return None;
        }
        match r.reader.u32() {
            Some(_) => Some(()),
            None => None,
        }
    } else if kind == 3 {
        let ingredient = match read_display(r, 0) {
            Some(v) => v,
            None => return None,
        };
        match read_result(r) {
            Some(result) => {
                push_stonecutting(
                    acc,
                    StonecutterRecipe { id, ingredients: ingredient.items, result },
                );
                Some(())
            },
            None => None,
        }
    } else if kind == 4 {
        skip_displays(r, 5)
    } else {
        None
    }
}

fn skip_numbers(r: &mut SlotReader, n: i32) -> (v: Option<()>)
    requires
        old(r).wf(),
        0 <= n,
    ensures
        final(r).wf(),
        (v, final(r)@) == take_numbers(old(r)@, n as nat),
{
    let ghost want = take_numbers(r@, n as nat);
    let mut left: i32 = n;
    while left > 0
        invariant
            r.wf(),
            0 <= left,
            want == take_numbers(old(r)@, n as nat),
            want == take_numbers(r@, left as nat),
        decreases left,
    {
        if r.reader.varint().is_none() {
            return None;
        }
        left = left - 1;
    }
    Some(())
}

fn skip_id_set(r: &mut SlotReader) -> (v: Option<()>)
    requires
        old(r).wf(),
    ensures
        final(r).wf(),
        (v, final(r)@) == take_id_set(old(r)@),
{
    let encoded: i32 = match r.reader.varint() {
        Some(v) => v,
        None => return None,
    };
    if encoded == 0 {
        match r.reader.string(MAX_IDENTIFIER) {
            Some(_) => Some(()),
            None => None,
        }
    } else if 1 <= encoded && encoded <= 65537 {
        skip_numbers(r, encoded - 1)
    } else {
        None
    }
}

fn skip_requirements(r: &mut SlotReader) -> (v: Option<()>)
    requires
        old(r).wf(),
    ensures
        final(r).wf(),
        (v, final(r)@) == take_requirements(old(r)@),
{
    let ghost want = take_requirements(r@);
    match r.reader.bool() {
        Some(present) => {
            if !present {
                return Some(());
            }
        },
        None => return None,
    }
    let count: i32 = match r.reader.varint() {
        Some(v) => v,
        None => return None,
    };
    if count < 0 || count > MAX_SHOWN {
        return None;
    }
    let mut left: i32 = count;
    while left > 0
        invariant
            r.wf(),
            0 <= left,
            want == take_requirements(old(r)@),
            want == take_id_sets(r@, left as nat),
        decreases left,
    {
        if skip_id_set(r).is_none() {
            return None;
        }
        left = left - 1;
    }
    Some(())
}

fn skip_entry_tail(r: &mut SlotReader) -> (v: Option<()>)
    requires
        old(r).wf(),
    ensures
        final(r).wf(),
        (v, final(r)@) == take_entry_tail(old(r)@),
{
    if skip_numbers(r, 2).is_none() {
        return None;
    }
    if skip_requirements(r).is_none() {
        return None;
    }
    match r.reader.u8() {
        Some(_) => Some(()),
        None => None,
    }
}

/// What a packet adds to the book.
#[derive(Debug)]
pub struct AddedRecipes {
    pub recipes: DeclaredRecipes,
    pub unlocked: Vec<String>,
    pub replace: bool,
}

pub open spec fn texts(list: Seq<String>) -> Seq<Seq<char>> {
    Seq::new(list.len(), |i: int| list[i]@)
}

impl View for AddedRecipes {
    type V = AddedModel;

    open spec fn view(&self) -> AddedModel {
        AddedModel {
            recipes: self.recipes@,
            unlocked: texts(self.unlocked@),
            replace: self.replace,
        }
    }
}

fn read_added(r: &mut SlotReader) -> (v: Option<AddedRecipes>)
    requires
        old(r).wf(),
    ensures
        final(r).wf(),
        final(r)@ == added_recipes(old(r)@).1,
        match added_recipes(old(r)@).0 {
            Some(want) => v matches Some(got) && got@ == want,
            None => v is None,
        },
{
    let count: i32 = match r.reader.varint() {
        Some(count) => count,
        None => return None,
    };
    if count < 0 || count > MAX_RECIPES {
        return None;
    }
    let ghost entries = take_entries(r@, count as nat, no_recipes(), Seq::empty());
    let ghost want = added_recipes(old(r)@);
    let mut found = DeclaredRecipes { crafting: Vec::new(), stonecutting: Vec::new() };
    let mut unlocked: Vec<String> = Vec::new();
    let mut left: i32 = count;
    proof {
        assert(found@ =~= no_recipes());
        assert(texts(unlocked@) =~= Seq::empty());
    }
    while left > 0
        invariant
            r.wf(),
            0 <= left,
            want == added_recipes(old(r)@),
            want == (match entries {
                (Some((recipes, unlocked)), st) => match slots::plain(
                    st,
                    wire::take_bool(st.rest),
                ) {
                    (Some(replace), st) => (Some(AddedModel { recipes, unlocked, replace }), st),
                    (None, st) => (None, st),
                },
                (None, st) => (None, st),
            }),
            entries == take_entries(r@, left as nat, found@, texts(unlocked@)),
        decreases left,
    {
        let display_id: i32 = match r.reader.varint() {
            Some(v) => v,
            None => return None,
        };
        let id = decimal_text(display_id as i64);
        let label = id.clone();
        if read_recipe_display(r, id, &mut found).is_none() {
            return None;
        }
        if skip_entry_tail(r).is_none() {
            return None;
        }
        let ghost before = unlocked@;
        unlocked.push(label);
        proof {
            assert(texts(unlocked@) =~= texts(before).push(label@));
        }
        left = left - 1;
    }
    match r.reader.bool() {
        Some(replace) => Some(AddedRecipes { recipes: found, unlocked, replace }),
        None => None,
    }
}

pub open spec fn added_as(want: Parsed<AddedModel>, got: Outcome<AddedRecipes>) -> bool {
    match slots::ended_with(want) {
        Outcome::Done(model) => got matches Outcome::Done(value) && value@ == model,
        Outcome::NeedSlot(n) => got == Outcome::<AddedRecipes>::NeedSlot(n),
        Outcome::Malformed => got == Outcome::<AddedRecipes>::Malformed,
    }
}

/// Reads what a packet adds to the book, with the stacks decoded so far.
pub fn parse_recipe_book_add(body: &[u8], fed: &Vec<FedSlot>) -> (r: Outcome<AddedRecipes>)
    ensures
        added_as(added_recipes(slots::first_state(body@, fed@)), r),
{
    let mut reader = SlotReader::new(body, fed);
    match read_added(&mut reader) {
        Some(added) => Outcome::Done(added),
        None => reader.stopped(),
    }
}

/// The recipes that are known, and the identifiers of the unlocked ones.
#[derive(Debug)]
pub struct RecipeBook {
    pub crafting: Vec<CraftingRecipe>,
    pub stonecutting: Vec<StonecutterRecipe>,
    pub unlocked: KeySet<String>,
}

#[verifier::ext_equal]
pub struct BookModel {
    pub crafting: Seq<CraftingModel>,
    pub stonecutting: Seq<StonecutterModel>,
    pub unlocked: Set<Seq<char>>,
}

impl View for RecipeBook {
    type V = BookModel;

    open spec fn view(&self) -> BookModel {
        BookModel {
            crafting: recipes::crafting_views(self.crafting@),
            stonecutting: recipes::stonecutter_views(self.stonecutting@),
            unlocked: self.unlocked@,
        }
    }
}

/// The crafting recipes that have none of some identifiers.
pub open spec fn other_crafting(list: Seq<CraftingModel>, ids: Set<Seq<char>>) -> Seq<CraftingModel>
    decreases list.len(),
{
    if list.len() == 0 {
        list
    } else if ids.contains(list.last().id) {
        other_crafting(list.drop_last(), ids)
    } else {
        other_crafting(list.drop_last(), ids).push(list.last())
    }
}

/// The stonecutter recipes that have none of some identifiers.
pub open spec fn other_stonecutting(list: Seq<StonecutterModel>, ids: Set<Seq<char>>) -> Seq<
    StonecutterModel,
>
    decreases list.len(),
{
    if list.len() == 0 {
        list
    } else if ids.contains(list.last().id) {
        other_stonecutting(list.drop_last(), ids)
    } else {
        other_stonecutting(list.drop_last(), ids).push(list.last())
    }
}

/// The book after a packet that adds to it.
pub open spec fn book_with(book: BookModel, added: AddedModel) -> BookModel {
    if added.replace {
        BookModel {
            crafting: added.recipes.crafting,
            stonecutting: added.recipes.stonecutting,
            unlocked: added.unlocked.to_set(),
        }
    } else {
        BookModel {
            crafting: book.crafting + added.recipes.crafting,
            stonecutting: book.stonecutting + added.recipes.stonecutting,
            unlocked: book.unlocked.union(added.unlocked.to_set()),
        }
    }
}

/// The book without the recipes of some identifiers.
pub open spec fn book_without(book: BookModel, ids: Set<Seq<char>>) -> BookModel {
    BookModel {
        crafting: other_crafting(book.crafting, ids),
        stonecutting: other_stonecutting(book.stonecutting, ids),
        unlocked: book.unlocked.difference(ids),
    }
}

/// `n` more numbers as identifiers behind those in `acc`.
pub open spec fn take_number_ids(s: Seq<u8>, n: nat, acc: Seq<Seq<char>>) -> Taken<Seq<Seq<char>>>
    decreases n,
{
    if n == 0 {
        (Some(acc), s)
    } else {
        match wire::take_varint(s) {
            (Some(id), rest) => take_number_ids(
                rest,
                (n - 1) as nat,
                acc.push(text::decimal(id as int)),
            ),
            (None, rest) => (None, rest),
        }
    }
}

/// The identifiers that a packet removes from the book.
pub open spec fn removed_ids(body: Seq<u8>) -> Option<Seq<Seq<char>>> {
    match wire::take_varint(body) {
        (Some(count), rest) => if 0 <= count <= MAX_RECIPES {
            take_number_ids(rest, count as nat, Seq::empty()).0
        } else {
            None
        },
        (None, _) => None,
    }
}

/// `n` more identifiers behind those in `acc`.
pub open spec fn take_text_ids(s: Seq<u8>, n: nat, acc: Seq<Seq<char>>) -> Taken<Seq<Seq<char>>>
    decreases n,
{
    if n == 0 {
        (Some(acc), s)
    } else {
        match wire::take_string(s, MAX_IDENTIFIER as nat) {
            (Some(id), rest) => take_text_ids(rest, (n - 1) as nat, acc.push(id)),
            (None, rest) => (None, rest),
        }
    }
}

pub open spec fn take_recipe_ids(s: Seq<u8>) -> Taken<Seq<Seq<char>>> {
    match wire::take_varint(s) {
        (Some(count), rest) => if 0 <= count <= MAX_RECIPES {
            take_text_ids(rest, count as nat, Seq::empty())
        } else {
            (None, rest)
        },
        (None, rest) => (None, rest),
    }
}

/// What a packet does to the unlocked recipes.
pub enum Unlocking {
    Replace(Seq<Seq<char>>),
    Unlock(Seq<Seq<char>>),
    Lock(Seq<Seq<char>>),
}

pub open spec fn unlocking(body: Seq<u8>) -> Option<Unlocking> {
    match wire::take_varint(body) {
        (Some(action), rest) => match crate::join::take_bools(rest, 8) {
            (Some(_), rest) => match take_recipe_ids(rest) {
                (Some(ids), rest) => if action == 0 {
                    match take_recipe_ids(rest).0 {
                        Some(_) => Some(Unlocking::Replace(ids)),
                        None => None,
                    }
                } else if action == 1 {
                    Some(Unlocking::Unlock(ids))
                } else if action == 2 {
                    Some(Unlocking::Lock(ids))
                } else {
                    None
                },
                (None, _) => None,
            },
            (None, _) => None,
        },
        (None, _) => None,
    }
}

pub open spec fn unlocked_after(unlocked: Set<Seq<char>>, change: Unlocking) -> Set<Seq<char>> {
    match change {
        Unlocking::Replace(ids) => ids.to_set(),
        Unlocking::Unlock(ids) => unlocked.union(ids.to_set()),
        Unlocking::Lock(ids) => unlocked.difference(ids.to_set()),
    }
}

/// The book after recipes were unlocked or locked; a malformed packet is
/// ignored.
pub open spec fn book_unlocked(book: BookModel, body: Seq<u8>) -> BookModel {
    match unlocking(body) {
        Some(change) => BookModel { unlocked: unlocked_after(book.unlocked, change), ..book },
        None => book,
    }
}

proof fn lemma_texts_take(list: Seq<String>, n: int)
    requires
        0 <= n < list.len(),
    ensures
        forall|id: Seq<char>|
            #![auto]
            texts(list.take(n + 1)).to_set().contains(id) <==> texts(list.take(n)).to_set().contains(
                id,
            ) || id == list[n]@,
{
    let shorter = texts(list.take(n));
    let longer = texts(list.take(n + 1));
    assert(longer =~= shorter.push(list[n]@));
    assert forall|id: Seq<char>|
        #![auto]
        longer.to_set().contains(id) <==> shorter.to_set().contains(id) || id == list[n]@ by {
        if shorter.contains(id) {
            let k = choose|k: int| 0 <= k < shorter.len() && shorter[k] == id;
            assert(longer[k] == id);
        }
        assert(longer[n] == list[n]@);
    }
}

fn insert_all(set: &mut KeySet<String>, ids: &Vec<String>)
    requires
        old(set).wf(),
    ensures
        final(set).wf(),
        final(set)@ == old(set)@.union(texts(ids@).to_set()),
{
    let ghost before = set@;
    let mut i: usize = 0;
    proof {
        assert(texts(ids@.take(0)) =~= Seq::empty());
        assert(before =~= before.union(texts(ids@.take(0)).to_set()));
    }
    while i < ids.len()
        invariant
            i <= ids@.len(),
            set.wf(),
            set@ == before.union(texts(ids@.take(i as int)).to_set()),
        decreases ids@.len() - i,
    {
        let ghost seen = set@;
        let id = ids[i].clone();
        set.insert(id);
        proof {
            lemma_texts_take(ids@, i as int);
            let longer = texts(ids@.take(i + 1)).to_set();
            let shorter = texts(ids@.take(i as int)).to_set();
            assert forall|c: Seq<char>| set@.contains(c) <==> before.union(longer).contains(c) by {
                assert(longer.contains(c) <==> shorter.contains(c) || c == ids@[i as int]@);
                assert(seen.contains(c) <==> before.contains(c) || shorter.contains(c));
            }
            assert(set@ =~= before.union(texts(ids@.take(i + 1)).to_set()));
        }
        i = i + 1;
    }
    proof {
        assert(ids@.take(i as int) =~= ids@);
    }
}

fn remove_all(set: &mut KeySet<String>, ids: &Vec<String>)
    requires
        old(set).wf(),
    ensures
        final(set).wf(),
        final(set)@ == old(set)@.difference(texts(ids@).to_set()),
{
    let ghost before = set@;
    let mut i: usize = 0;
    proof {
        assert(texts(ids@.take(0)) =~= Seq::empty());
        assert(before =~= before.difference(texts(ids@.take(0)).to_set()));
    }
    while i < ids.len()
        invariant
            i <= ids@.len(),
            set.wf(),
            set@ == before.difference(texts(ids@.take(i as int)).to_set()),
        decreases ids@.len() - i,
    {
        set.remove(&ids[i]);
        proof {
            lemma_texts_take(ids@, i as int);
            assert(set@ =~= before.difference(texts(ids@.take(i + 1)).to_set()));
        }
        i = i + 1;
    }
    proof {
        assert(ids@.take(i as int) =~= ids@);
    }
}

fn is_among(id: &str, ids: &Vec<String>) -> (r: bool)
    ensures
        r == texts(ids@).to_set().contains(id@),
{
    let mut i: usize = 0;
    while i < ids.len()
        invariant
            i <= ids@.len(),
            forall|k: int| 0 <= k < i ==> (#[trigger] ids@[k])@ != id@,
        decreases ids@.len() - i,
    {
        if str_eq(ids[i].as_str(), id) {
            proof {
                assert(texts(ids@)[i as int] == id@);
            }
            return true;
        }
        i = i + 1;
    }
    proof {
        if texts(ids@).contains(id@) {
            let k = choose|k: int| 0 <= k < ids@.len() && texts(ids@)[k] == id@;
            assert(ids@[k]@ == id@);
        }
    }
    false
}

fn read_number_ids(r: &mut Reader, n: i32) -> (v: Option<Vec<String>>)
    requires
        0 <= n,
    ensures
        match take_number_ids(old(r)@, n as nat, Seq::empty()).0 {
            Some(want) => v matches Some(got) && texts(got@) == want,
            None => v is None,
        },
{
    let ghost want = take_number_ids(r@, n as nat, Seq::empty());
    let mut out: Vec<String> = Vec::new();
    let mut left: i32 = n;
    proof {
        assert(texts(out@) =~= Seq::empty());
    }
    while left > 0
        invariant
            0 <= left,
            want == take_number_ids(old(r)@, n as nat, Seq::empty()),
            want == take_number_ids(r@, left as nat, texts(out@)),
        decreases left,
    {
        let ghost before = out@;
        match r.varint() {
            Some(id) => {
                let label = decimal_text(id as i64);
                out.push(label);
                proof {
                    assert(texts(out@) =~= texts(before).push(label@));
                }
            },
            None => return None,
        }
        left = left - 1;
    }
    Some(out)
}

fn read_recipe_ids(r: &mut Reader) -> (v: Option<Vec<String>>)
    ensures
        final(r)@ == take_recipe_ids(old(r)@).1,
        match take_recipe_ids(old(r)@).0 {
            Some(want) => v matches Some(got) && texts(got@) == want,
            None => v is None,
        },
{
    let count: i32 = match r.varint() {
        Some(count) => count,
        None => return None,
    };
    if count < 0 || count > MAX_RECIPES {
        return None;
    }
    let ghost want = take_recipe_ids(old(r)@);
    let mut out: Vec<String> = Vec::new();
    let mut left: i32 = count;
    proof {
        assert(texts(out@) =~= Seq::empty());
    }
    while left > 0
        invariant
            0 <= left,
            want == take_recipe_ids(old(r)@),
            want == take_text_ids(r@, left as nat, texts(out@)),
        decreases left,
    {
        let ghost before = out@;
        match r.string(MAX_IDENTIFIER) {
            Some(id) => {
                out.push(id);
                proof {
                    assert(texts(out@) =~= texts(before).push(id@));
                }
            },
            None => return None,
        }
        left = left - 1;
    }
    Some(out)
}

fn skip_eight_bools(r: &mut Reader) -> (v: Option<()>)
    ensures
        v == crate::join::take_bools(old(r)@, 8).0,
        final(r)@ == crate::join::take_bools(old(r)@, 8).1,
{
    let mut left: u32 = 8;
    while left > 0
        invariant
            crate::join::take_bools(old(r)@, 8) == crate::join::take_bools(r@, left as nat),
        decreases left,
    {
        if r.bool().is_none() {
            return None;
        }
        left = left - 1;
    }
    Some(())
}

fn append_crafting(list: &mut Vec<CraftingRecipe>, more: Vec<CraftingRecipe>)
    ensures
        recipes::crafting_views(final(list)@) == recipes::crafting_views(old(list)@)
            + recipes::crafting_views(more@),
{
    let mut more = more;
    let ghost added = more@;
    let ghost before = list@;
    list.append(&mut more);
    proof {
        assert(recipes::crafting_views(before + added) =~= recipes::crafting_views(before)
            + recipes::crafting_views(added));
    }
}

fn append_stonecutting(list: &mut Vec<StonecutterRecipe>, more: Vec<StonecutterRecipe>)
    ensures
        recipes::stonecutter_views(final(list)@) == recipes::stonecutter_views(old(list)@)
            + recipes::stonecutter_views(more@),
{
    let mut more = more;
    let ghost added = more@;
    let ghost before = list@;
    list.append(&mut more);
    proof {
        assert(recipes::stonecutter_views(before + added) =~= recipes::stonecutter_views(before)
            + recipes::stonecutter_views(added));
    }
}

fn retain_crafting(list: &mut Vec<CraftingRecipe>, ids: &Vec<String>)
    ensures
        recipes::crafting_views(final(list)@) == other_crafting(
            recipes::crafting_views(old(list)@),
            texts(ids@).to_set(),
        ),
{
    let ghost all = recipes::crafting_views(list@);
    let ghost set = texts(ids@).to_set();
    let mut turned: Vec<CraftingRecipe> = Vec::new();
    while list.len() > 0
        invariant
            list@.len() + turned@.len() == all.len(),
            forall|i: int| 0 <= i < list@.len() ==> (#[trigger] list@[i])@ == all[i],
            forall|i: int|
                0 <= i < turned@.len() ==> (#[trigger] turned@[i])@ == all[all.len() - 1 - i],
        decreases list@.len(),
    {
        match list.pop() {
            Some(recipe) => turned.push(recipe),
            None => {},
        }
    }
    proof {
        assert(recipes::crafting_views(list@) =~= all.take(0));
    }
    while turned.len() > 0
        invariant
            set == texts(ids@).to_set(),
            turned@.len() <= all.len(),
            forall|i: int|
                0 <= i < turned@.len() ==> (#[trigger] turned@[i])@ == all[all.len() - 1 - i],
            recipes::crafting_views(list@) == other_crafting(
                all.take(all.len() - turned@.len()),
                set,
            ),
        decreases turned@.len(),
    {
        let ghost n = all.len() - turned@.len();
        match turned.pop() {
            Some(recipe) => {
                proof {
                    assert(recipe@ == all[n]);
                    assert(all.take(n + 1).drop_last() =~= all.take(n));
                    assert(all.take(n + 1).last() == recipe@);
                }
                if !is_among(recipe.id.as_str(), ids) {
                    let ghost before = list@;
                    list.push(recipe);
                    proof {
                        assert(recipes::crafting_views(list@) =~= recipes::crafting_views(
                            before,
                        ).push(recipe@));
                    }
                }
            },
            None => {},
        }
    }
    proof {
        assert(all.take(all.len() as int) =~= all);
    }
}

fn retain_stonecutting(list: &mut Vec<StonecutterRecipe>, ids: &Vec<String>)
    ensures
        recipes::stonecutter_views(final(list)@) == other_stonecutting(
            recipes::stonecutter_views(old(list)@),
            texts(ids@).to_set(),
        ),
{
    let ghost all = recipes::stonecutter_views(list@);
    let ghost set = texts(ids@).to_set();
    let mut turned: Vec<StonecutterRecipe> = Vec::new();
    while list.len() > 0
        invariant
            list@.len() + turned@.len() == all.len(),
            forall|i: int| 0 <= i < list@.len() ==> (#[trigger] list@[i])@ == all[i],
            forall|i: int|
                0 <= i < turned@.len() ==> (#[trigger] turned@[i])@ == all[all.len() - 1 - i],
        decreases list@.len(),
    {
        match list.pop() {
            Some(recipe) => turned.push(recipe),
            None => {},
        }
    }
    proof {
        assert(recipes::stonecutter_views(list@) =~= all.take(0));
    }
    while turned.len() > 0
        invariant
            set == texts(ids@).to_set(),
            turned@.len() <= all.len(),
            forall|i: int|
                0 <= i < turned@.len() ==> (#[trigger] turned@[i])@ == all[all.len() - 1 - i],
            recipes::stonecutter_views(list@) == other_stonecutting(
                all.take(all.len() - turned@.len()),
                set,
            ),
        decreases turned@.len(),
    {
        let ghost n = all.len() - turned@.len();
        match turned.pop() {
            Some(recipe) => {
                proof {
                    assert(recipe@ == all[n]);
                    assert(all.take(n + 1).drop_last() =~= all.take(n));
                    assert(all.take(n + 1).last() == recipe@);
                }
                if !is_among(recipe.id.as_str(), ids) {
                    let ghost before = list@;
                    list.push(recipe);
                    proof {
                        assert(recipes::stonecutter_views(list@) =~= recipes::stonecutter_views(
                            before,
                        ).push(recipe@));
                    }
                }
            },
            None => {},
        }
    }
    proof {
        assert(all.take(all.len() as int) =~= all);
    }
}

impl RecipeBook {
    pub open spec fn wf(&self) -> bool {
        self.unlocked.wf()
    }

    pub fn new() -> (r: Self)
        ensures
            r.wf(),
            r@ == (BookModel {
                crafting: Seq::empty(),
                stonecutting: Seq::empty(),
                unlocked: Set::empty(),
            }),
    {
        let r = RecipeBook {
            crafting: Vec::new(),
            stonecutting: Vec::new(),
            unlocked: KeySet::new(),
        };
        proof {
            assert(r@.crafting =~= Seq::empty());
            assert(r@.stonecutting =~= Seq::empty());
        }
        r
    }

    /// The server declared its recipes.
    pub fn declare(&mut self, declared: DeclaredRecipes)
        requires
            old(self).wf(),
        ensures
            final(self).wf(),
            final(self)@ == (BookModel {
                crafting: declared@.crafting,
                stonecutting: declared@.stonecutting,
                ..old(self)@
            }),
    {
        self.crafting = declared.crafting;
        self.stonecutting = declared.stonecutting;
    }

    /// The server added recipes to the book.
    pub fn handle_recipe_book_add_768(&mut self, added: AddedRecipes)
        requires
            old(self).wf(),
        ensures
            final(self).wf(),
            final(self)@ == book_with(old(self)@, added@),
    {
        if added.replace {
            self.crafting = added.recipes.crafting;
            self.stonecutting = added.recipes.stonecutting;
            self.unlocked = KeySet::new();
            insert_all(&mut self.unlocked, &added.unlocked);
            proof {
                assert(self.unlocked@ =~= texts(added.unlocked@).to_set());
            }
        } else {
            append_crafting(&mut self.crafting, added.recipes.crafting);
            append_stonecutting(&mut self.stonecutting, added.recipes.stonecutting);
            insert_all(&mut self.unlocked, &added.unlocked);
        }
    }

    /// The server removed recipes from the book. Returns whether the packet
    /// was in order; otherwise nothing changes.
    pub fn handle_recipe_book_remove_768(&mut self, body: &[u8]) -> (ok: bool)
        requires
            old(self).wf(),
        ensures
            final(self).wf(),
            match removed_ids(body@) {
                Some(ids) => ok && final(self)@ == book_without(old(self)@, ids.to_set()),
                None => !ok && *final(self) == *old(self),
            },
    {
        let mut r = Reader::new(body);
        let count: i32 = match r.varint() {
            Some(count) => count,
            None => return false,
        };
        if count < 0 || count > MAX_RECIPES {
            return false;
        }
        let ids = match read_number_ids(&mut r, count) {
            Some(ids) => ids,
            None => return false,
        };
        retain_crafting(&mut self.crafting, &ids);
        retain_stonecutting(&mut self.stonecutting, &ids);
        remove_all(&mut self.unlocked, &ids);
        true
    }

    /// The server unlocked or locked recipes. A malformed packet is ignored.
    pub fn handle_unlock_recipes(&mut self, body: &[u8])
        requires
            old(self).wf(),
        ensures
            final(self).wf(),
            final(self)@ == book_unlocked(old(self)@, body@),
    {
        let mut r = Reader::new(body);
        let action: i32 = match r.varint() {
            Some(v) => v,
            None => return ,
        };
        if skip_eight_bools(&mut r).is_none() {
            return ;
        }
        let ids = match read_recipe_ids(&mut r) {
            Some(ids) => ids,
            None => return ,
        };
        if action == 0 {
            if read_recipe_ids(&mut r).is_none() {
                return ;
            }
            self.unlocked = KeySet::new();
            insert_all(&mut self.unlocked, &ids);
            proof {
                assert(self.unlocked@ =~= texts(ids@).to_set());
            }
        } else if action == 1 {
            insert_all(&mut self.unlocked, &ids);
        } else if action == 2 {
            remove_all(&mut self.unlocked, &ids);
        }
    }
}

/// Recipes that were removed are gone, and the others stay.
pub proof fn removed_recipes_are_gone(book: BookModel, ids: Set<Seq<char>>)
    ensures
        forall|r: CraftingModel|
            book_without(book, ids).crafting.contains(r) <==> book.crafting.contains(r)
                && !ids.contains(r.id),
        forall|r: StonecutterModel|
            book_without(book, ids).stonecutting.contains(r) <==> book.stonecutting.contains(r)
                && !ids.contains(r.id),
{
    lemma_other_crafting(book.crafting, ids);
    lemma_other_stonecutting(book.stonecutting, ids);
}

proof fn lemma_other_crafting(list: Seq<CraftingModel>, ids: Set<Seq<char>>)
    ensures
        forall|r: CraftingModel|
            other_crafting(list, ids).contains(r) <==> list.contains(r) && !ids.contains(r.id),
    decreases list.len(),
{
    if list.len() > 0 {
        let shorter = list.drop_last();
        lemma_other_crafting(shorter, ids);
        let kept = other_crafting(shorter, ids);
        assert forall|r: CraftingModel|
            other_crafting(list, ids).contains(r) <==> list.contains(r) && !ids.contains(r.id) by {
            if list.contains(r) {
                let k = choose|k: int| 0 <= k < list.len() && list[k] == r;
                if k < shorter.len() {
                    assert(shorter[k] == r);
                }
            }
            if shorter.contains(r) {
                let k = choose|k: int| 0 <= k < shorter.len() && shorter[k] == r;
                assert(list[k] == r);
            }
            assert(list[list.len() - 1] == list.last());
            let longer = kept.push(list.last());
            assert(longer[kept.len() as int] == list.last());
            if kept.contains(r) {
                let k = choose|k: int| 0 <= k < kept.len() && kept[k] == r;
                assert(longer[k] == r);
            }
            if longer.contains(r) && r != list.last() {
                let k = choose|k: int| 0 <= k < longer.len() && longer[k] == r;
                assert(kept[k] == r);
            }
        }
    }
}

proof fn lemma_other_stonecutting(list: Seq<StonecutterModel>, ids: Set<Seq<char>>)
    ensures
        forall|r: StonecutterModel|
            other_stonecutting(list, ids).contains(r) <==> list.contains(r) && !ids.contains(r.id),
    decreases list.len(),
{
    if list.len() > 0 {
        let shorter = list.drop_last();
        lemma_other_stonecutting(shorter, ids);
        let kept = other_stonecutting(shorter, ids);
        assert forall|r: StonecutterModel|
            other_stonecutting(list, ids).contains(r) <==> list.contains(r) && !ids.contains(
                r.id,
            ) by {
            if list.contains(r) {
                let k = choose|k: int| 0 <= k < list.len() && list[k] == r;
                if k < shorter.len() {
                    assert(shorter[k] == r);
                }
            }
            if shorter.contains(r) {
                let k = choose|k: int| 0 <= k < shorter.len() && shorter[k] == r;
                assert(list[k] == r);
            }
            assert(list[list.len() - 1] == list.last());
            let longer = kept.push(list.last());
            assert(longer[kept.len() as int] == list.last());
            if kept.contains(r) {
                let k = choose|k: int| 0 <= k < kept.len() && kept[k] == r;
                assert(longer[k] == r);
            }
            if longer.contains(r) && r != list.last() {
                let k = choose|k: int| 0 <= k < longer.len() && longer[k] == r;
                assert(kept[k] == r);
            }
        }
    }
}

/// Locking the recipes that were just unlocked leaves those that were unlocked
/// before and are not among them.
pub proof fn locking_undoes_unlocking(unlocked: Set<Seq<char>>, ids: Seq<Seq<char>>)
    ensures
        unlocked_after(unlocked_after(unlocked, Unlocking::Unlock(ids)), Unlocking::Lock(ids))
            == unlocked.difference(ids.to_set()),
        unlocked.disjoint(ids.to_set()) ==> unlocked_after(
            unlocked_after(unlocked, Unlocking::Unlock(ids)),
            Unlocking::Lock(ids),
        ) == unlocked,
{
    let set = ids.to_set();
    assert(unlocked.union(set).difference(set) =~= unlocked.difference(set));
    if unlocked.disjoint(set) {
        assert(unlocked.difference(set) =~= unlocked);
    }
}

/// A slot of kind 2 shows one item, of kind 3 the stack that follows; kinds 0, 1 and 4 show
/// nothing, and kinds beyond 7 are refused.
pub proof fn slots_show_items_by_kind(
    st: SlotState,
    depth: nat,
    kind: i32,
    s1: SlotState,
    item_id: i32,
    s2: SlotState,
)
    requires
        depth <= 32,
        recipes::take_number(st) == (Some(kind), s1),
    ensures
        kind == 0 || kind == 1 ==> (take_display(st, depth) matches (Some(shown), behind)
            && shown.items.len() == 0 && shown.representative is None && behind == s1),
        kind == 2 && recipes::take_number(s1) == (Some(item_id), s2) ==> (take_display(
            st,
            depth,
        ) matches (Some(shown), behind) && shown.items == seq![item_id] && shown.representative
            == Some(SlotItem { item_id, count: 1 }) && behind == s2),
        kind == 3 && 0 <= s1.next < s1.fed.len() && s1.fed[s1.next].used <= s1.rest.len() ==> (
        take_display(st, depth) matches (Some(shown), _) && shown.representative
            == s1.fed[s1.next].item && (s1.fed[s1.next].item matches Some(item) ==> shown.items
            == seq![item.item_id]) && (s1.fed[s1.next].item is None ==> shown.items.len() == 0)),
        kind == 4 && recipes::take_text(s1).0 is Some ==> (take_display(st, depth) matches (
            Some(shown),
            behind,
        ) && shown.items.len() == 0 && shown.representative is None && behind
            == recipes::take_text(s1).1),
        kind < 0 || kind > 7 ==> take_display(st, depth).0 is None,
{
}

/// A trimmed item is shown as its base, and one with a remainder as its input: what comes
/// first of several slots.
pub proof fn first_parts_are_shown(
    st: SlotState,
    depth: nat,
    kind: i32,
    s1: SlotState,
    first: DisplayModel,
    s2: SlotState,
    second: DisplayModel,
    s3: SlotState,
    third: DisplayModel,
    s4: SlotState,
)
    requires
        depth <= 32,
        recipes::take_number(st) == (Some(kind), s1),
        take_display(s1, depth + 1) == (Some(first), s2),
        take_display(s2, depth + 1) == (Some(second), s3),
    ensures
        kind == 6 ==> take_display(st, depth) == (Some(first), s3),
        kind == 5 && take_display(s3, depth + 1) == (Some(third), s4) ==> take_display(st, depth)
            == (Some(first), s4),
{
    reveal_with_fuel(take_display, 2);
}

/// A choice of slots shows every item of any of them, in rising order and without repeats,
/// and the first stack that one of them has; slots nest 32 deep at the most.
pub proof fn choices_show_every_item(
    st: SlotState,
    depth: nat,
    s1: SlotState,
    count: i32,
    s2: SlotState,
    all: DisplayModel,
    s3: SlotState,
    item: i32,
)
    requires
        recipes::take_number(st) == (Some(7i32), s1),
        recipes::take_number(s1) == (Some(count), s2),
        0 <= count <= 4096,
        take_children(s2, count as nat, depth + 1, empty_display()) == (Some(all), s3),
    ensures
        depth <= 32 ==> (take_display(st, depth) matches (Some(shown), behind) && behind == s3
            && shown.representative == all.representative && rising(shown.items) && (
        shown.items.contains(item) <==> all.items.contains(item))),
        depth > 32 ==> take_display(st, depth).0 is None,
{
    reveal_with_fuel(take_display, 2);
    sorting_keeps_the_items(all.items);
}

/// The slots of a choice add their items one after the other, and the first stack counts.
pub proof fn choices_add_up(
    st: SlotState,
    n: nat,
    depth: nat,
    acc: DisplayModel,
    child: DisplayModel,
    behind: SlotState,
)
    ensures
        take_children(st, 0, depth, acc) == (Some(acc), st),
        take_display(st, depth) == (Some(child), behind) ==> take_children(st, n + 1, depth, acc)
            == take_children(behind, n, depth, combined(acc, child)),
        combined(acc, child).items == acc.items + child.items,
        acc.representative is Some ==> combined(acc, child).representative == acc.representative,
        acc.representative is None ==> combined(acc, child).representative == child.representative,
        empty_display().items.len() == 0 && empty_display().representative is None,
{
    reveal_with_fuel(take_children, 2);
}

/// What a recipe takes comes slot by slot; what it makes comes before the station.
pub proof fn shown_slots_come_in_order(
    st: SlotState,
    n: nat,
    acc: Seq<Seq<i32>>,
    shown: DisplayModel,
    s1: SlotState,
    station: DisplayModel,
    s2: SlotState,
)
    requires
        take_display(st, 0) == (Some(shown), s1),
    ensures
        take_shown_items(st, 0, acc) == (Some(acc), st),
        take_shown_items(st, n + 1, acc) == take_shown_items(s1, n, acc.push(shown.items)),
        take_unused(st, 0) == (Some(()), st),
        take_unused(st, n + 1) == take_unused(s1, n),
        take_display(s1, 0) == (Some(station), s2) ==> take_result(st) == (
            Some(shown.representative),
            s2,
        ),
{
    reveal_with_fuel(take_shown_items, 2);
    reveal_with_fuel(take_unused, 2);
}

/// A displayed recipe of kind 0 has no shape, one of kind 1 has its width and its height in
/// front; both have their ingredients behind their number and then the result.
pub proof fn displayed_crafting_is_kept(
    st: SlotState,
    id: Seq<char>,
    acc: DeclaredModel,
    kind: i32,
    s1: SlotState,
    width: i32,
    height: i32,
    s2: SlotState,
    count: i32,
    s3: SlotState,
    ingredients: Seq<Seq<i32>>,
    s4: SlotState,
    result: Option<SlotItem>,
    s5: SlotState,
)
    requires
        recipes::take_number(st) == (Some(kind), s1),
        kind == 0 && s2 == s1 && width == 0 && height == 0 || kind == 1 && recipes::take_shape(s1)
            == (Some((width, height)), s2),
        recipes::take_number(s2) == (Some(count), s3),
        0 <= count <= 256,
        take_shown_items(s3, count as nat, Seq::empty()) == (Some(ingredients), s4),
        take_result(s4) == (Some(result), s5),
    ensures
        take_recipe_display(st, id, acc) == (
            Some(
                DeclaredModel {
                    crafting: acc.crafting.push(
                        CraftingModel {
                            id,
                            width: width as u8,
                            height: height as u8,
                            ingredients,
                            result,
                        },
                    ),
                    stonecutting: acc.stonecutting,
                },
            ),
            s5,
        ),
{
}

/// A displayed recipe of kind 3 is one of the stonecutter; kinds 2 and 4 are passed over,
/// with four slots, a number and four bytes, and with five slots.
pub proof fn displayed_cuts_are_kept(
    st: SlotState,
    id: Seq<char>,
    acc: DeclaredModel,
    kind: i32,
    s1: SlotState,
    shown: DisplayModel,
    s2: SlotState,
    result: Option<SlotItem>,
    s3: SlotState,
)
    requires
        recipes::take_number(st) == (Some(kind), s1),
    ensures
        kind == 3 && take_display(s1, 0) == (Some(shown), s2) && take_result(s2) == (
            Some(result),
            s3,
        ) ==> take_recipe_display(st, id, acc) == (
            Some(
                DeclaredModel {
                    crafting: acc.crafting,
                    stonecutting: acc.stonecutting.push(
                        StonecutterModel { id, ingredients: shown.items, result },
                    ),
                },
            ),
            s3,
        ),
        kind == 4 && take_unused(s1, 5) == (Some(()), s2) ==> take_recipe_display(st, id, acc) == (
            Some(acc),
            s2,
        ),
        kind == 2 && take_unused(s1, 4) == (Some(()), s2) && recipes::take_number(s2).0 is Some
            && recipes::take_number(s2).1 == s3 && s3.rest.len() >= 4 ==> take_recipe_display(
            st,
            id,
            acc,
        ) == (
            Some(acc),
            SlotState { rest: s3.rest.subrange(4, s3.rest.len() as int), ..s3 },
        ),
        kind < 0 || kind > 4 ==> take_recipe_display(st, id, acc).0 is None,
{
}

/// A set of items is a tag behind 0, and else as many numbers as the first one less 1.
pub proof fn item_sets_are_passed_over(
    st: SlotState,
    n: nat,
    encoded: i32,
    s1: SlotState,
    s2: SlotState,
)
    requires
        recipes::take_number(st) == (Some(encoded), s1),
    ensures
        encoded == 0 && recipes::take_text(s1).0 is Some ==> take_id_set(st) == (
            Some(()),
            recipes::take_text(s1).1,
        ),
        1 <= encoded <= 65537 ==> take_id_set(st) == take_numbers(s1, (encoded - 1) as nat),
        encoded < 0 || encoded > 65537 ==> take_id_set(st).0 is None,
        take_numbers(st, 0) == (Some(()), st),
        take_numbers(st, n + 1) == take_numbers(s1, n),
        take_id_sets(st, 0) == (Some(()), st),
        take_id_set(st) == (Some(()), s2) ==> take_id_sets(st, n + 1) == take_id_sets(s2, n),
{
    reveal_with_fuel(take_numbers, 2);
    reveal_with_fuel(take_id_sets, 2);
}

/// What unlocks a recipe comes behind a flag and a number, and is passed over with the group
/// and the category in front and a byte behind.
pub proof fn requirements_are_passed_over(st: SlotState, count: i32, s1: SlotState)
    requires
        st.rest.len() > 0,
    ensures
        st.rest[0] == 0 ==> take_requirements(st) == (
            Some(()),
            SlotState { rest: st.rest.subrange(1, st.rest.len() as int), ..st },
        ),
        st.rest[0] != 0 && recipes::take_number(
            SlotState { rest: st.rest.subrange(1, st.rest.len() as int), ..st },
        ) == (Some(count), s1) && 0 <= count <= 256 ==> take_requirements(st) == take_id_sets(
            s1,
            count as nat,
        ),
        take_numbers(st, 2) == (Some(()), s1) && take_requirements(s1).0 is Some
            && take_requirements(s1).1.rest.len() > 0 ==> take_entry_tail(st).0 is Some
            && take_entry_tail(st).1.rest == take_requirements(s1).1.rest.subrange(
            1,
            take_requirements(s1).1.rest.len() as int,
        ),
{
}

/// Entries of the book follow one another: each has a number, which is its name, and is
/// unlocked; behind them a flag says whether they replace the book.
pub proof fn entries_follow_one_another(
    st: SlotState,
    n: nat,
    acc: DeclaredModel,
    unlocked: Seq<Seq<char>>,
    number: i32,
    s1: SlotState,
    next: DeclaredModel,
    s2: SlotState,
    s3: SlotState,
)
    requires
        recipes::take_number(st) == (Some(number), s1),
        take_recipe_display(s1, text::decimal(number as int), acc) == (Some(next), s2),
        take_entry_tail(s2) == (Some(()), s3),
    ensures
        take_entries(st, 0, acc, unlocked) == (Some((acc, unlocked)), st),
        take_entries(st, n + 1, acc, unlocked) == take_entries(
            s3,
            n,
            next,
            unlocked.push(text::decimal(number as int)),
        ),
{
    reveal_with_fuel(take_entries, 2);
}

/// The packet has its number of entries first and the flag last.
pub proof fn additions_end_with_a_flag(
    st: SlotState,
    count: i32,
    s1: SlotState,
    recipes: DeclaredModel,
    unlocked: Seq<Seq<char>>,
    s2: SlotState,
)
    requires
        recipes::take_number(st) == (Some(count), s1),
    ensures
        0 <= count <= 65536 && take_entries(
            s1,
            count as nat,
            DeclaredModel { crafting: Seq::empty(), stonecutting: Seq::empty() },
            Seq::empty(),
        ) == (Some((recipes, unlocked)), s2) && s2.rest.len() > 0 ==> added_recipes(st).0 == Some(
            AddedModel { recipes, unlocked, replace: s2.rest[0] != 0 },
        ),
        count < 0 || count > 65536 ==> added_recipes(st).0 is None,
{
}

/// Added recipes come behind those in the book and are unlocked beside them; where they
/// replace the book, only they are in it.
pub proof fn additions_join_the_book(book: BookModel, added: AddedModel, id: Seq<char>)
    ensures
        ({
            let after = book_with(book, added);
            let news = added.unlocked.contains(id);
            &&& added.replace ==> after.crafting == added.recipes.crafting && after.stonecutting
                == added.recipes.stonecutting && (after.unlocked.contains(id) <==> news)
            &&& !added.replace ==> after.crafting == book.crafting + added.recipes.crafting
                && after.stonecutting == book.stonecutting + added.recipes.stonecutting && (
            after.unlocked.contains(id) <==> news || book.unlocked.contains(id))
        }),
{
}

/// Removed recipes are no longer unlocked, the others keep their order.
pub proof fn removals_keep_the_order(
    book: BookModel,
    ids: Set<Seq<char>>,
    id: Seq<char>,
    list: Seq<CraftingModel>,
    recipe: CraftingModel,
    cuts: Seq<StonecutterModel>,
    cut: StonecutterModel,
)
    ensures
        book_without(book, ids).unlocked.contains(id) <==> book.unlocked.contains(id)
            && !ids.contains(id),
        !ids.contains(recipe.id) ==> other_crafting(list.push(recipe), ids) == other_crafting(
            list,
            ids,
        ).push(recipe),
        !ids.contains(cut.id) ==> other_stonecutting(cuts.push(cut), ids) == other_stonecutting(
            cuts,
            ids,
        ).push(cut),
        ids.contains(recipe.id) ==> other_crafting(list.push(recipe), ids) == other_crafting(
            list,
            ids,
        ),
        ids.contains(cut.id) ==> other_stonecutting(cuts.push(cut), ids) == other_stonecutting(
            cuts,
            ids,
        ),
{
    assert(list.push(recipe).drop_last() =~= list);
    assert(cuts.push(cut).drop_last() =~= cuts);
}

/// The names of recipes come one by one behind their number, which is 65536 at the most;
/// those that leave the book come as numbers.
pub proof fn names_come_one_by_one(
    s: Seq<u8>,
    n: nat,
    acc: Seq<Seq<char>>,
    number: i32,
    name: Seq<char>,
    rest: Seq<u8>,
)
    ensures
        take_number_ids(s, 0, acc) == (Some(acc), s),
        wire::take_varint(s) == (Some(number), rest) ==> take_number_ids(s, n + 1, acc)
            == take_number_ids(rest, n, acc.push(text::decimal(number as int))),
        take_text_ids(s, 0, acc) == (Some(acc), s),
        wire::take_string(s, 32767) == (Some(name), rest) ==> take_text_ids(s, n + 1, acc)
            == take_text_ids(rest, n, acc.push(name)),
        wire::take_varint(s) == (Some(number), rest) && 0 <= number <= 65536 ==> removed_ids(s)
            == take_number_ids(rest, number as nat, Seq::empty()).0 && take_recipe_ids(s)
            == take_text_ids(rest, number as nat, Seq::empty()),
        wire::take_varint(s) == (Some(number), rest) && (number < 0 || number > 65536)
            ==> removed_ids(s) is None && take_recipe_ids(s).0 is None,
{
    reveal_with_fuel(take_number_ids, 2);
    reveal_with_fuel(take_text_ids, 2);
}

/// The packet about unlocked recipes says what it does, has eight flags that are not kept
/// and then the recipes: 0 replaces the unlocked ones, 1 adds to them and 2 takes away.
pub proof fn unlocking_says_what_it_does(
    book: BookModel,
    body: Seq<u8>,
    action: i32,
    r1: Seq<u8>,
    ids: Seq<Seq<char>>,
    r2: Seq<u8>,
    id: Seq<char>,
)
    requires
        wire::take_varint(body) == (Some(action), r1),
        r1.len() >= 8,
        take_recipe_ids(r1.subrange(8, r1.len() as int)) == (Some(ids), r2),
    ensures
        ({
            let after = book_unlocked(book, body);
            let named = ids.contains(id);
            &&& action == 0 && take_recipe_ids(r2).0 is Some ==> (after.unlocked.contains(id)
                <==> named)
            &&& action == 1 ==> (after.unlocked.contains(id) <==> named || book.unlocked.contains(
                id,
            ))
            &&& action == 2 ==> (after.unlocked.contains(id) <==> !named && book.unlocked.contains(
                id,
            ))
            &&& action < 0 || action > 2 ==> after == book
            &&& after.crafting == book.crafting && after.stonecutting == book.stonecutting
        }),
{
    lemma_eight_flags(r1);
}

proof fn lemma_eight_flags(s: Seq<u8>)
    requires
        s.len() >= 8,
    ensures
        crate::join::take_bools(s, 8) == (Some(()), s.subrange(8, s.len() as int)),
{
    let n = s.len() as int;
    assert(s.subrange(1, n).subrange(1, n - 1) =~= s.subrange(2, n));
    assert(s.subrange(2, n).subrange(1, n - 2) =~= s.subrange(3, n));
    assert(s.subrange(3, n).subrange(1, n - 3) =~= s.subrange(4, n));
    assert(s.subrange(4, n).subrange(1, n - 4) =~= s.subrange(5, n));
    assert(s.subrange(5, n).subrange(1, n - 5) =~= s.subrange(6, n));
    assert(s.subrange(6, n).subrange(1, n - 6) =~= s.subrange(7, n));
    assert(s.subrange(7, n).subrange(1, n - 7) =~= s.subrange(8, n));
    reveal_with_fuel(crate::join::take_bools, 9);
}

/// The book and what is added to it stand for their parts, in order.
pub proof fn books_stand_for_their_parts(
    book: RecipeBook,
    added: AddedRecipes,
    shown: SlotDisplay,
    i: int,
)
    ensures
        book@.crafting.len() == book.crafting@.len(),
        book@.stonecutting.len() == book.stonecutting@.len(),
        0 <= i < book.crafting@.len() ==> book@.crafting[i] == book.crafting@[i]@,
        0 <= i < book.stonecutting@.len() ==> book@.stonecutting[i] == book.stonecutting@[i]@,
        book@.unlocked == book.unlocked@,
        added@.recipes == added.recipes@,
        added@.replace == added.replace,
        added@.unlocked.len() == added.unlocked@.len(),
        0 <= i < added.unlocked@.len() ==> added@.unlocked[i] == added.unlocked@[i]@,
        shown@.items == shown.items@,
        shown@.representative == shown.representative,
{
}

/// Declared recipes replace those in the book, and leave what is unlocked.
pub proof fn declared_recipes_fill_the_book(book: &mut RecipeBook, declared: DeclaredRecipes)
    requires
        old(book).wf(),
        call_ensures(RecipeBook::declare, (book, declared), ()),
    ensures
        final(book)@.crafting == declared@.crafting,
        final(book)@.stonecutting == declared@.stonecutting,
        final(book)@.unlocked == old(book)@.unlocked,
{
}

/// What a packet adds is handed out once every stack in it was decoded; until then the next
/// one is asked for by its distance from the end, and a broken packet is refused.
pub proof fn additions_wait_for_their_stacks(
    body: &[u8],
    fed: &Vec<FedSlot>,
    outcome: Outcome<AddedRecipes>,
)
    requires
        call_ensures(parse_recipe_book_add, (body, fed), outcome),
    ensures
        ({
            let start = SlotState { rest: body@, fed: fed@, next: 0, wanting: false };
            let (found, end) = added_recipes(start);
            &&& found matches Some(model) ==> (outcome matches Outcome::Done(got) && got@ == model)
            &&& found is None && end.wanting ==> (outcome matches Outcome::NeedSlot(distance)
                && distance == end.rest.len() as usize)
            &&& found is None && !end.wanting ==> outcome is Malformed
        }),
{
}

/// A packet that breaks off unlocks nothing.
pub proof fn broken_packets_leave_the_book(
    book: BookModel,
    body: Seq<u8>,
    action: i32,
    rest: Seq<u8>,
)
    ensures
        wire::take_varint(body).0 is None ==> book_unlocked(book, body) == book,
        wire::take_varint(body) == (Some(action), rest) && rest.len() < 8 ==> book_unlocked(
            book,
            body,
        ) == book,
{
    if wire::take_varint(body) == (Some(action), rest) && rest.len() < 8 {
        lemma_few_flags(rest, 8);
    }
}

proof fn lemma_few_flags(s: Seq<u8>, n: nat)
    requires
        s.len() < n,
    ensures
        crate::join::take_bools(s, n).0 is None,
    decreases n,
{
    if s.len() > 0 {
        lemma_few_flags(s.subrange(1, s.len() as int), (n - 1) as nat);
    }
}

} // verus!
