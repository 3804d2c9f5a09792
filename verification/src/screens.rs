//! The screens over the game: menus, the choice of recipes, and what a click,
//! a key or the wheel does on them. Where the cursor is over something, that
//! is given by its place in order.

use vstd::arithmetic::div_mod::{lemma_fundamental_div_mod, lemma_fundamental_div_mod_converse_mod};
use vstd::prelude::*;

use crate::items::SlotItem;
use crate::recipe_book::{RecipeBook, BookModel};
use crate::recipes::{CraftingModel, StonecutterModel};
use crate::table::KeySet;

verus! {

/// From where the world is seen.
#[derive(Clone, Copy, Debug, PartialEq, Eq, Structural)]
pub enum Perspective {
    FirstPerson,
    ThirdPersonBack,
    ThirdPersonFront,
}

impl Perspective {
    pub open spec fn spec_next(self) -> Perspective {
        match self {
            Perspective::FirstPerson => Perspective::ThirdPersonBack,
            Perspective::ThirdPersonBack => Perspective::ThirdPersonFront,
            Perspective::ThirdPersonFront => Perspective::FirstPerson,
        }
    }

    #[verifier::when_used_as_spec(spec_next)]
    pub fn next(self) -> (r: Perspective)
        ensures
            r == self.spec_next(),
    {
        match self {
            Perspective::FirstPerson => Perspective::ThirdPersonBack,
            Perspective::ThirdPersonBack => Perspective::ThirdPersonFront,
            Perspective::ThirdPersonFront => Perspective::FirstPerson,
        }
    }
}

/// Three changes of the perspective lead back to the first one, and no fewer.
pub proof fn perspectives_go_round(p: Perspective)
    ensures
        p.next().next().next() == p,
        p.next() != p,
        p.next().next() != p,
{
}

/// The choice after one of `n`; a value that is none of them counts as the
/// first.
pub open spec fn choice_after(current: Option<int>, n: int) -> int {
    match current {
        Some(i) => (i + 1) % n,
        None => 1int % n,
    }
}

pub fn next_choice(current: Option<usize>, n: usize) -> (r: usize)
    requires
        0 < n,
        current is Some ==> current->0 < n,
    ensures
        r == choice_after(
            match current {
                Some(i) => Some(i as int),
                None => None,
            },
            n as int,
        ),
        r < n,
{
    let i: usize = match current {
        Some(i) => i,
        None => 0,
    };
    if i + 1 == n {
        proof {
            assert((i + 1) % (n as int) == 0) by (nonlinear_arith)
                requires
                    i + 1 == n,
                    0 < n,
            ;
        }
        0
    } else {
        proof {
            assert((i + 1) % (n as int) == i + 1) by (nonlinear_arith)
                requires
                    0 <= i + 1 < n,
            ;
        }
        i + 1
    }
}

/// Where a recipe can be placed: in a window, on a grid of so many columns.
#[derive(Clone, Copy, Debug, PartialEq, Eq, Structural)]
pub struct RecipeContext {
    pub window_id: i8,
    pub grid: usize,
}

/// The number of the menu of the crafting table.
pub const CRAFTING_MENU: i32 = 11;

pub const ANVIL_MENU: i32 = 7;

pub const ENCHANTING_MENU: i32 = 12;

pub const LOOM_MENU: i32 = 17;

pub const STONECUTTER_MENU: i32 = 23;

/// The player's own inventory has a grid of two columns, the crafting table
/// one of three.
pub open spec fn recipe_context_of(
    inventory_open: bool,
    container: Option<(u8, i32)>,
) -> Option<RecipeContext> {
    match container {
        Some((window_id, menu_type)) => if menu_type == CRAFTING_MENU && window_id <= 127 {
            Some(RecipeContext { window_id: window_id as i8, grid: 3 })
        } else {
            None
        },
        None => if inventory_open {
            Some(RecipeContext { window_id: 0, grid: 2 })
        } else {
            None
        },
    }
}

pub fn crafting_recipe_context(inventory_open: bool, container: Option<(u8, i32)>) -> (r: Option<
    RecipeContext,
>)
    ensures
        r == recipe_context_of(inventory_open, container),
{
    match container {
        Some((window_id, menu_type)) => {
            if menu_type == CRAFTING_MENU && window_id <= 127 {
                Some(RecipeContext { window_id: window_id as i8, grid: 3 })
            } else {
                None
            }
        },
        None => {
            if inventory_open {
                Some(RecipeContext { window_id: 0, grid: 2 })
            } else {
                None
            }
        },
    }
}

/// Whether a recipe fits on a grid.
pub open spec fn fits_grid(recipe: CraftingModel, grid: int) -> bool {
    if recipe.width == 0 {
        recipe.ingredients.len() <= grid * grid
    } else {
        recipe.width <= grid && recipe.height <= grid
    }
}

/// Whether a recipe is shown: it is unlocked, or nothing is known of that, and
/// it fits.
pub open spec fn is_visible(recipe: CraftingModel, unlocked: Set<Seq<char>>, grid: int) -> bool {
    (unlocked == Set::<Seq<char>>::empty() || unlocked.contains(recipe.id)) && fits_grid(
        recipe,
        grid,
    )
}

/// The places of the recipes that are shown, in their order.
pub open spec fn visible_places(book: BookModel, grid: int, n: int) -> Seq<usize>
    decreases n,
{
    if n <= 0 {
        Seq::empty()
    } else {
        let before = visible_places(book, grid, n - 1);
        if is_visible(book.crafting[n - 1], book.unlocked, grid) {
            before.push((n - 1) as usize)
        } else {
            before
        }
    }
}

fn is_empty_set(set: &KeySet<String>) -> (r: bool)
    requires
        set.wf(),
    ensures
        r == (set@ == Set::<Seq<char>>::empty()),
{
    if set.items.len() == 0 {
        proof {
            assert(set@ =~= Set::<Seq<char>>::empty());
        }
        true
    } else {
        proof {
            assert(set@.contains(set.items@[0]@));
        }
        false
    }
}

/// The recipes that the book shows, by their places.
pub fn visible_crafting_recipes(book: &RecipeBook, grid: usize) -> (r: Vec<usize>)
    requires
        book.wf(),
        grid <= 3,
    ensures
        r@ == visible_places(book@, grid as int, book.crafting@.len() as int),
{
    let all: bool = is_empty_set(&book.unlocked);
    let ghost model = book@;
    let mut out: Vec<usize> = Vec::new();
    let mut i: usize = 0;
    proof {
        assert(grid * grid <= 9) by (nonlinear_arith)
            requires
                0 <= grid <= 3,
        ;
    }
    while i < book.crafting.len()
        invariant
            i <= book.crafting@.len(),
            book.wf(),
            grid <= 3,
            0 <= grid * grid <= 9,
            model == book@,
            all == (model.unlocked == Set::<Seq<char>>::empty()),
            out@ == visible_places(model, grid as int, i as int),
        decreases book.crafting@.len() - i,
    {
        let recipe = &book.crafting[i];
        proof {
            assert(model.crafting[i as int] == recipe@);
            assert(recipe@.ingredients.len() == recipe.ingredients@.len());
        }
        let fits: bool = if recipe.width == 0 {
            recipe.ingredients.len() <= grid * grid
        } else {
            recipe.width as usize <= grid && recipe.height as usize <= grid
        };
        if fits && (all || book.unlocked.contains(&recipe.id)) {
            out.push(i);
        }
        i = i + 1;
    }
    out
}

/// The places of the stonecutter recipes that take an item, in their order.
pub open spec fn applicable_places(list: Seq<StonecutterModel>, item_id: i32, n: int) -> Seq<usize>
    decreases n,
{
    if n <= 0 {
        Seq::empty()
    } else {
        let before = applicable_places(list, item_id, n - 1);
        if list[n - 1].ingredients.contains(item_id) {
            before.push((n - 1) as usize)
        } else {
            before
        }
    }
}

fn takes_item(ingredients: &Vec<i32>, item_id: i32) -> (r: bool)
    ensures
        r == ingredients@.contains(item_id),
{
    let mut i: usize = 0;
    while i < ingredients.len()
        invariant
            i <= ingredients@.len(),
            forall|k: int| 0 <= k < i ==> ingredients@[k] != item_id,
        decreases ingredients@.len() - i,
    {
        if ingredients[i] == item_id {
            return true;
        }
        i = i + 1;
    }
    false
}

/// The stonecutter recipes for the item in the first slot of the menu, by
/// their places; none where the slot is empty.
pub fn applicable_stonecutter_recipes(book: &RecipeBook, slots: &Vec<Option<SlotItem>>) -> (r: Vec<
    usize,
>)
    ensures
        r@ == if slots@.len() > 0 && slots@[0] is Some {
            applicable_places(
                book@.stonecutting,
                slots@[0]->0.item_id,
                book.stonecutting@.len() as int,
            )
        } else {
            Seq::empty()
        },
{
    let mut out: Vec<usize> = Vec::new();
    if slots.len() == 0 {
        return out;
    }
    let input: SlotItem = match slots[0] {
        Some(input) => input,
        None => return out,
    };
    let ghost list = book@.stonecutting;
    let mut i: usize = 0;
    while i < book.stonecutting.len()
        invariant
            i <= book.stonecutting@.len(),
            list == book@.stonecutting,
            out@ == applicable_places(list, input.item_id, i as int),
        decreases book.stonecutting@.len() - i,
    {
        proof {
            assert(list[i as int] == book.stonecutting@[i as int]@);
        }
        if takes_item(&book.stonecutting[i].ingredients, input.item_id) {
            out.push(i);
        }
        i = i + 1;
    }
    out
}

/// The patterns of the loom.
pub const LOOM_PATTERNS: usize = 34;

/// The number of choices on a page of the loom or the stonecutter.
pub open spec fn per_page_of(menu_type: i32) -> int {
    if menu_type == LOOM_MENU {
        16
    } else {
        12
    }
}

pub fn choices_per_page(menu_type: i32) -> (r: usize)
    ensures
        r == per_page_of(menu_type),
{
    if menu_type == LOOM_MENU {
        16
    } else {
        12
    }
}

/// The last page of `total` entries.
pub open spec fn last_page(total: int, per_page: int) -> int {
    if total > 0 {
        (total - 1) / per_page
    } else {
        0
    }
}

pub fn max_page(total: usize, per_page: usize) -> (r: usize)
    requires
        0 < per_page,
    ensures
        r == last_page(total as int, per_page as int),
{
    if total > 0 {
        (total - 1) / per_page
    } else {
        0
    }
}

/// A page, or the last one where there are not so many.
pub fn page_within(page: usize, total: usize, per_page: usize) -> (r: usize)
    requires
        0 < per_page,
    ensures
        r == if page <= last_page(total as int, per_page as int) {
            page as int
        } else {
            last_page(total as int, per_page as int)
        },
{
    let last: usize = max_page(total, per_page);
    if page <= last {
        page
    } else {
        last
    }
}

/// The entry behind a place on a page, if there is one.
pub open spec fn entry_at(page: int, per_page: int, visible: int, total: int) -> Option<int> {
    let index = page * per_page + visible;
    if index < total {
        Some(index)
    } else {
        None
    }
}

pub fn page_entry(page: usize, per_page: usize, visible: usize, total: usize) -> (r: Option<usize>)
    requires
        0 < per_page,
        visible < per_page,
        page <= last_page(total as int, per_page as int),
    ensures
        match entry_at(page as int, per_page as int, visible as int, total as int) {
            Some(i) => r == Some(i as usize) && i < total,
            None => r is None,
        },
{
    if total == 0 {
        proof {
            assert(page * per_page == 0) by (nonlinear_arith)
                requires
                    page == 0,
            ;
        }
        return None;
    }
    proof {
        assert(page * per_page <= total - 1) by (nonlinear_arith)
            requires
                0 < per_page,
                0 <= page <= (total - 1) / (per_page as int),
                0 < total,
        ;
    }
    let start: usize = page * per_page;
    if visible < total - start {
        Some(start + visible)
    } else {
        None
    }
}

/// Every entry stands on exactly one page: on that of its number divided by
/// the size of a page.
pub proof fn every_entry_has_its_page(index: int, per_page: int, total: int)
    requires
        0 < per_page,
        0 <= index < total,
    ensures
        0 <= index / per_page <= last_page(total, per_page),
        entry_at(index / per_page, per_page, index % per_page, total) == Some(index),
{
    assert(index / per_page * per_page + index % per_page == index) by (nonlinear_arith)
        requires
            0 < per_page,
            0 <= index,
    ;
    assert(0 <= index / per_page <= (total - 1) / per_page) by (nonlinear_arith)
        requires
            0 < per_page,
            0 <= index <= total - 1,
    ;
}

/// The turn of the wheel.
#[derive(Clone, Copy, Debug, PartialEq, Eq, Structural)]
pub enum Wheel {
    Up,
    Down,
    Rest,
}

/// The page after a turn of the wheel.
pub open spec fn page_turned(page: int, wheel: Wheel, last: int) -> int {
    match wheel {
        Wheel::Up => if page > 0 {
            page - 1
        } else {
            0
        },
        Wheel::Down => if page + 1 < last {
            page + 1
        } else {
            last
        },
        Wheel::Rest => page,
    }
}

pub fn turn_page(page: usize, wheel: Wheel, last: usize) -> (r: usize)
    ensures
        r == page_turned(page as int, wheel, last as int),
{
    match wheel {
        Wheel::Up => {
            if page > 0 {
                page - 1
            } else {
                0
            }
        },
        Wheel::Down => {
            if page < last && page + 1 < last {
                page + 1
            } else {
                last
            }
        },
        Wheel::Rest => page,
    }
}

/// The slot of the hotbar after a turn of the wheel: up is the one before.
pub open spec fn slot_turned(slot: int, wheel: Wheel) -> int {
    match wheel {
        Wheel::Up => (slot + 8) % 9,
        Wheel::Down => (slot + 1) % 9,
        Wheel::Rest => slot,
    }
}

pub fn turn_slot(slot: u8, wheel: Wheel) -> (r: u8)
    requires
        slot <= 8,
    ensures
        r == slot_turned(slot as int, wheel),
        r <= 8,
{
    match wheel {
        Wheel::Up => (slot + 8) % 9,
        Wheel::Down => (slot + 1) % 9,
        Wheel::Rest => slot,
    }
}

/// Turning the wheel back and forth leaves the hotbar as it was, and nine
/// turns go round it.
pub proof fn hotbar_turns_undo_each_other(slot: int)
    requires
        0 <= slot <= 8,
    ensures
        slot_turned(slot_turned(slot, Wheel::Up), Wheel::Down) == slot,
        slot_turned(slot_turned(slot, Wheel::Down), Wheel::Up) == slot,
{
}

/// The choice in a bundle of `count` stacks after a turn of the wheel. A bundle
/// without a choice begins at its first or last stack.
pub open spec fn bundle_turned(
    slot: i32,
    count: int,
    choice: Option<(i32, i32)>,
    wheel: Wheel,
) -> Option<int> {
    let current = match choice {
        Some((chosen_slot, index)) => if chosen_slot == slot {
            index as int
        } else if wheel == Wheel::Up {
            1
        } else {
            -1
        },
        None => if wheel == Wheel::Up {
            1
        } else {
            -1
        },
    };
    match wheel {
        Wheel::Up => Some((current - 1) % count),
        Wheel::Down => Some((current + 1) % count),
        Wheel::Rest => None,
    }
}

fn wrap(value: i64, count: i64) -> (r: i64)
    requires
        0 < count <= i32::MAX,
        i32::MIN - 1 <= value <= i32::MAX + 1,
    ensures
        r == value as int % count as int,
        0 <= r < count,
{
    if value >= 0 {
        value % count
    } else {
        let back: i64 = (-value) % count;
        proof {
            let v = value as int;
            let n = count as int;
            let q = (-v) / n;
            let left = (-v) % n;
            lemma_fundamental_div_mod(-v, n);
            if left == 0 {
                assert(v == (-q) * n + 0) by (nonlinear_arith)
                    requires
                        -v == n * q + left,
                        left == 0,
                ;
                lemma_fundamental_div_mod_converse_mod(v, n, -q, 0);
            } else {
                assert(v == (-q - 1) * n + (n - left)) by (nonlinear_arith)
                    requires
                        -v == n * q + left,
                ;
                lemma_fundamental_div_mod_converse_mod(v, n, -q - 1, n - left);
            }
        }
        if back == 0 {
            0
        } else {
            count - back
        }
    }
}

pub fn turn_bundle(slot: i32, count: usize, choice: Option<(i32, i32)>, wheel: Wheel) -> (r: Option<
    i32,
>)
    requires
        0 < count <= i32::MAX,
    ensures
        match bundle_turned(slot, count as int, choice, wheel) {
            Some(i) => r == Some(i as i32) && 0 <= i < count,
            None => r is None,
        },
{
    let fresh: i64 = if wheel == Wheel::Up {
        1
    } else {
        -1
    };
    let current: i64 = match choice {
        Some((chosen_slot, index)) => {
            if chosen_slot == slot {
                index as i64
            } else {
                fresh
            }
        },
        None => fresh,
    };
    match wheel {
        Wheel::Up => Some(wrap(current - 1, count as i64) as i32),
        Wheel::Down => Some(wrap(current + 1, count as i64) as i32),
        Wheel::Rest => None,
    }
}

/// What a click on an item screen asks for.
#[derive(Clone, Copy, Debug, PartialEq, Eq, Structural)]
pub enum ClickAction {
    Nothing,
    /// Opens or closes the recipe book.
    ToggleBook,
    /// Places the recipe at a place of those that are shown.
    PlaceRecipe(usize),
    /// Presses a button of the menu.
    MenuButton(i8),
    /// Chooses an enchantment.
    Enchant(i8),
    /// Clicks on a slot.
    Slot(usize),
}

/// What the cursor is over: the button of the recipe book, a recipe on its
/// page, a choice on the page of the menu, an enchantment, a slot.
#[derive(Clone, Copy, Debug, PartialEq, Eq, Structural)]
pub struct Hits {
    pub book_button: bool,
    pub recipe: Option<usize>,
    pub choice: Option<usize>,
    pub enchantment: Option<usize>,
    pub slot: Option<usize>,
}

/// The size of a page of the recipe book.
pub const RECIPES_PER_PAGE: usize = 20;

/// What a click does to a menu that has choices: a choice beyond the numbers
/// of buttons is none.
pub open spec fn choice_click(page: int, menu_type: i32, visible: int, total: int) -> Option<
    ClickAction,
> {
    match entry_at(page, per_page_of(menu_type), visible, total) {
        Some(index) => Some(
            if index <= 127 {
                ClickAction::MenuButton(index as i8)
            } else {
                ClickAction::Nothing
            },
        ),
        None => None,
    }
}

/// What a click asks for in a menu of the server. `total` is the number of its
/// choices, `page` the page of them that is shown.
pub open spec fn menu_click_of(
    menu_type: i32,
    has_layout: bool,
    total: int,
    page: int,
    hits: Hits,
) -> ClickAction {
    if !has_layout {
        ClickAction::Nothing
    } else if (menu_type == LOOM_MENU || menu_type == STONECUTTER_MENU) && hits.choice is Some
        && choice_click(page, menu_type, hits.choice->0 as int, total) is Some {
        choice_click(page, menu_type, hits.choice->0 as int, total)->0
    } else if menu_type == ENCHANTING_MENU && hits.enchantment is Some && hits.enchantment->0 < 3 {
        ClickAction::Enchant(hits.enchantment->0 as i8)
    } else {
        match hits.slot {
            Some(slot) => ClickAction::Slot(slot),
            None => ClickAction::Nothing,
        }
    }
}

pub fn menu_click(menu_type: i32, has_layout: bool, total: usize, page: usize, hits: Hits) -> (r:
    ClickAction)
    requires
        hits.choice is Some ==> hits.choice->0 < per_page_of(menu_type),
        page <= last_page(total as int, per_page_of(menu_type)),
    ensures
        r == menu_click_of(menu_type, has_layout, total as int, page as int, hits),
{
    if !has_layout {
        return ClickAction::Nothing;
    }
    if menu_type == LOOM_MENU || menu_type == STONECUTTER_MENU {
        match hits.choice {
            Some(visible) => match page_entry(
                page,
                choices_per_page(menu_type),
                visible,
                total,
            ) {
                Some(index) => {
                    if index <= 127 {
                        return ClickAction::MenuButton(index as i8);
                    }
                    return ClickAction::Nothing;
                },
                None => {},
            },
            None => {},
        }
    }
    if menu_type == ENCHANTING_MENU {
        match hits.enchantment {
            Some(option) => {
                if option < 3 {
                    return ClickAction::Enchant(option as i8);
                }
            },
            None => {},
        }
    }
    match hits.slot {
        Some(slot) => ClickAction::Slot(slot),
        None => ClickAction::Nothing,
    }
}

/// What a click asks for in the recipe book, if it is for the book.
pub open spec fn book_click_of(book_open: bool, page: int, shown: int, hits: Hits) -> Option<
    ClickAction,
> {
    if hits.book_button {
        Some(ClickAction::ToggleBook)
    } else if book_open && hits.recipe is Some {
        match entry_at(page, RECIPES_PER_PAGE as int, hits.recipe->0 as int, shown) {
            Some(index) => Some(ClickAction::PlaceRecipe(index as usize)),
            None => None,
        }
    } else {
        None
    }
}

pub fn book_click(book_open: bool, page: usize, shown: usize, hits: Hits) -> (r: Option<
    ClickAction,
>)
    requires
        hits.recipe is Some ==> hits.recipe->0 < RECIPES_PER_PAGE,
    ensures
        r == book_click_of(book_open, page as int, shown as int, hits),
{
    if hits.book_button {
        return Some(ClickAction::ToggleBook);
    }
    if book_open {
        match hits.recipe {
            Some(visible) => {
                if page <= max_page(shown, RECIPES_PER_PAGE) {
                    match page_entry(page, RECIPES_PER_PAGE, visible, shown) {
                        Some(index) => return Some(ClickAction::PlaceRecipe(index)),
                        None => {},
                    }
                }
            },
            None => {},
        }
    }
    None
}

/// Which of the menus over the game are open.
#[derive(Clone, Copy, Debug, PartialEq, Eq, Structural)]
pub struct Menus {
    pub menu_open: bool,
    pub controls_help_open: bool,
    pub options_open: bool,
    pub inventory_open: bool,
    pub debug_open: bool,
}

/// What a press of the escape key asks for.
#[derive(Clone, Copy, Debug, PartialEq, Eq, Structural)]
pub enum EscapeAction {
    DeclinePack,
    CloseItemScreen,
    /// The menus have changed; nothing else is to be done.
    Menus,
    /// The pause menu was opened or closed, and the cursor with it.
    Cursor(bool),
}

/// The escape key closes what is on top, or opens the pause menu.
pub open spec fn escaped(menus: Menus, prompt_open: bool, item_screen_open: bool) -> (
    Menus,
    EscapeAction,
) {
    if prompt_open {
        (menus, EscapeAction::DeclinePack)
    } else if menus.controls_help_open {
        (Menus { controls_help_open: false, ..menus }, EscapeAction::Menus)
    } else if menus.options_open {
        (Menus { options_open: false, ..menus }, EscapeAction::Menus)
    } else if item_screen_open {
        (menus, EscapeAction::CloseItemScreen)
    } else {
        (
            Menus { menu_open: !menus.menu_open, ..menus },
            EscapeAction::Cursor(!menus.menu_open),
        )
    }
}

/// What a click on a button of the pause menu asks for.
#[derive(Clone, Copy, Debug, PartialEq, Eq, Structural)]
pub enum MenuAction {
    NextFov,
    NextSensitivity,
    ToggleFullscreen,
    /// The menus have changed; nothing else is to be done.
    Menus,
    Resume,
    Quit,
}

/// The buttons of the options are the field of view, the sensitivity, the full
/// screen and the end; those of the pause menu are the game, the options, the
/// help and the end.
pub open spec fn menu_pressed(menus: Menus, button: int) -> (Menus, MenuAction) {
    if menus.options_open {
        if button == 0 {
            (menus, MenuAction::NextFov)
        } else if button == 1 {
            (menus, MenuAction::NextSensitivity)
        } else if button == 2 {
            (menus, MenuAction::ToggleFullscreen)
        } else {
            (Menus { options_open: false, ..menus }, MenuAction::Menus)
        }
    } else if menus.controls_help_open {
        (Menus { controls_help_open: false, ..menus }, MenuAction::Menus)
    } else if button == 0 {
        (Menus { menu_open: false, ..menus }, MenuAction::Resume)
    } else if button == 1 {
        (Menus { options_open: true, ..menus }, MenuAction::Menus)
    } else if button == 2 {
        (Menus { controls_help_open: true, ..menus }, MenuAction::Menus)
    } else {
        (menus, MenuAction::Quit)
    }
}

impl Menus {
    pub fn new() -> (r: Self)
        ensures
            r == (Menus {
                menu_open: false,
                controls_help_open: false,
                options_open: false,
                inventory_open: false,
                debug_open: false,
            }),
    {
        Menus {
            menu_open: false,
            controls_help_open: false,
            options_open: false,
            inventory_open: false,
            debug_open: false,
        }
    }

    pub fn escape(&mut self, prompt_open: bool, item_screen_open: bool) -> (r: EscapeAction)
        ensures
            (*final(self), r) == escaped(*old(self), prompt_open, item_screen_open),
    {
        if prompt_open {
            EscapeAction::DeclinePack
        } else if self.controls_help_open {
            self.controls_help_open = false;
            EscapeAction::Menus
        } else if self.options_open {
            self.options_open = false;
            EscapeAction::Menus
        } else if item_screen_open {
            EscapeAction::CloseItemScreen
        } else {
            self.menu_open = !self.menu_open;
            EscapeAction::Cursor(self.menu_open)
        }
    }

    pub fn press(&mut self, button: usize) -> (r: MenuAction)
        ensures
            (*final(self), r) == menu_pressed(*old(self), button as int),
    {
        if self.options_open {
            if button == 0 {
                MenuAction::NextFov
            } else if button == 1 {
                MenuAction::NextSensitivity
            } else if button == 2 {
                MenuAction::ToggleFullscreen
            } else {
                self.options_open = false;
                MenuAction::Menus
            }
        } else if self.controls_help_open {
            self.controls_help_open = false;
            MenuAction::Menus
        } else if button == 0 {
            self.menu_open = false;
            MenuAction::Resume
        } else if button == 1 {
            self.options_open = true;
            MenuAction::Menus
        } else if button == 2 {
            self.controls_help_open = true;
            MenuAction::Menus
        } else {
            MenuAction::Quit
        }
    }
}

/// Opening the help or the options from the pause menu and pressing escape
/// leads back to the pause menu.
pub proof fn escape_leads_back(menus: Menus, button: int)
    requires
        menus.menu_open,
        !menus.options_open,
        !menus.controls_help_open,
        button == 1 || button == 2,
    ensures
        escaped(menu_pressed(menus, button).0, false, false) == (menus, EscapeAction::Menus),
{
}

/// Pressing escape twice in the game opens the pause menu and closes it.
pub proof fn escape_opens_and_closes(menus: Menus)
    requires
        !menus.options_open,
        !menus.controls_help_open,
    ensures
        escaped(escaped(menus, false, false).0, false, false).0 == menus,
{
}

/// The keys that mean something on their own.
#[derive(Clone, Copy, Debug, PartialEq, Eq, Structural)]
pub enum GameKey {
    Escape,
    Debug,
    Camera,
    SwapHands,
    Jump,
    Chat,
    Command,
    Inventory,
    RecipeBook,
    Other,
}

/// Which screen takes a key.
#[derive(Clone, Copy, Debug, PartialEq, Eq, Structural)]
pub enum KeyRoute {
    /// The line of chat takes every key.
    Chat,
    Book,
    /// The name of an item in an anvil.
    Anvil,
    Escape,
    ToggleDebug,
    NextPerspective,
    SwapHands,
    OpenChat,
    OpenCommand,
    /// The inventory opens or closes; where a menu of the server is open, that
    /// closes. The key is also held.
    Inventory(bool),
    ToggleRecipeBook,
    /// The key is held from now on; the flag says whether it is a press of the
    /// jump key that can be the second of two.
    Hold(bool),
    Release,
    Ignore,
}

/// What is on the screen when a key is pressed.
#[derive(Clone, Copy, Debug, PartialEq, Eq, Structural)]
pub struct KeyContext {
    pub chat_open: bool,
    pub book_open: bool,
    pub anvil_open: bool,
    pub item_screen_open: bool,
    pub menu_open: bool,
    pub container_open: bool,
    /// Whether recipes can be placed.
    pub recipes: bool,
}

pub open spec fn key_route_of(context: KeyContext, key: GameKey, pressed: bool, repeat: bool) -> KeyRoute {
    let fresh = pressed && !repeat;
    let playing = !context.item_screen_open && !context.menu_open;
    if context.chat_open {
        if pressed {
            KeyRoute::Chat
        } else {
            KeyRoute::Ignore
        }
    } else if context.book_open {
        if pressed {
            KeyRoute::Book
        } else {
            KeyRoute::Ignore
        }
    } else if context.anvil_open && pressed && key != GameKey::Escape {
        KeyRoute::Anvil
    } else if key == GameKey::Escape {
        if fresh {
            KeyRoute::Escape
        } else {
            KeyRoute::Ignore
        }
    } else if !pressed {
        KeyRoute::Release
    } else if fresh && key == GameKey::Debug {
        KeyRoute::ToggleDebug
    } else if fresh && key == GameKey::Camera && !context.item_screen_open {
        KeyRoute::NextPerspective
    } else if fresh && key == GameKey::SwapHands && playing {
        KeyRoute::SwapHands
    } else if fresh && key == GameKey::Chat && !context.item_screen_open {
        KeyRoute::OpenChat
    } else if fresh && key == GameKey::Command && !context.item_screen_open {
        KeyRoute::OpenCommand
    } else if fresh && key == GameKey::Inventory {
        KeyRoute::Inventory(context.container_open)
    } else if fresh && key == GameKey::RecipeBook && context.recipes {
        KeyRoute::ToggleRecipeBook
    } else {
        KeyRoute::Hold(fresh && key == GameKey::Jump && playing)
    }
}

pub fn key_route(context: KeyContext, key: GameKey, pressed: bool, repeat: bool) -> (r: KeyRoute)
    ensures
        r == key_route_of(context, key, pressed, repeat),
{
    if context.chat_open {
        if pressed {
            return KeyRoute::Chat;
        }
        return KeyRoute::Ignore;
    }
    if context.book_open {
        if pressed {
            return KeyRoute::Book;
        }
        return KeyRoute::Ignore;
    }
    if context.anvil_open && pressed && key != GameKey::Escape {
        return KeyRoute::Anvil;
    }
    if key == GameKey::Escape {
        if pressed && !repeat {
            return KeyRoute::Escape;
        }
        return KeyRoute::Ignore;
    }
    if !pressed {
        return KeyRoute::Release;
    }
    let playing: bool = !context.item_screen_open && !context.menu_open;
    if !repeat {
        match key {
            GameKey::Debug => return KeyRoute::ToggleDebug,
            GameKey::Camera => {
                if !context.item_screen_open {
                    return KeyRoute::NextPerspective;
                }
            },
            GameKey::SwapHands => {
                if playing {
                    return KeyRoute::SwapHands;
                }
            },
            GameKey::Chat => {
                if !context.item_screen_open {
                    return KeyRoute::OpenChat;
                }
            },
            GameKey::Command => {
                if !context.item_screen_open {
                    return KeyRoute::OpenCommand;
                }
            },
            GameKey::Inventory => return KeyRoute::Inventory(context.container_open),
            GameKey::RecipeBook => {
                if context.recipes {
                    return KeyRoute::ToggleRecipeBook;
                }
            },
            GameKey::Jump => return KeyRoute::Hold(playing),
            _ => {},
        }
    }
    KeyRoute::Hold(false)
}

/// The nanoseconds in which a second press makes a double press: 350
/// milliseconds.
pub const DOUBLE_PRESS: u64 = 350_000_000;

/// Two presses of the jump key, with their times in nanoseconds, can be one
/// double press. Returns whether this is one, and the press to compare the next one with.
pub fn double_press(last: Option<u64>, now: u64) -> (r: (bool, Option<u64>))
    ensures
        r == if last is Some && last->0 <= now && now - last->0 <= DOUBLE_PRESS {
            (true, None)
        } else {
            (false, Some(now))
        },
{
    match last {
        Some(last) => {
            if last <= now && now - last <= DOUBLE_PRESS {
                (true, None)
            } else {
                (false, Some(now))
            }
        },
        None => (false, Some(now)),
    }
}

/// A key that is typed while a line of chat is open never moves the player.
pub proof fn chat_takes_every_key(context: KeyContext, key: GameKey, pressed: bool, repeat: bool)
    requires
        context.chat_open,
    ensures
        key_route_of(context, key, pressed, repeat) == KeyRoute::Chat || key_route_of(
            context,
            key,
            pressed,
            repeat,
        ) == KeyRoute::Ignore,
{
}

/// The buttons of a mouse that mean something.
#[derive(Clone, Copy, Debug, PartialEq, Eq, Structural)]
pub enum MouseKey {
    Left,
    Right,
    Other,
}

/// Where a button of the mouse goes.
#[derive(Clone, Copy, Debug, PartialEq, Eq, Structural)]
pub enum MouseRoute {
    /// To the question about a resource pack.
    Prompt,
    Menu,
    Book,
    /// To the slots of the open windows, as that button.
    Items(i8),
    /// The player attacks, or stops.
    Attack(bool),
    /// The player uses what it holds, or stops; a held book is opened instead.
    UseItem(bool),
    Ignore,
}

pub open spec fn mouse_route_of(
    context: KeyContext,
    prompt_open: bool,
    key: MouseKey,
    pressed: bool,
) -> MouseRoute {
    let click = pressed && key == MouseKey::Left;
    if prompt_open {
        if click {
            MouseRoute::Prompt
        } else {
            MouseRoute::Ignore
        }
    } else if context.menu_open {
        if click {
            MouseRoute::Menu
        } else {
            MouseRoute::Ignore
        }
    } else if context.item_screen_open {
        if click && context.book_open {
            MouseRoute::Book
        } else if click {
            MouseRoute::Items(0)
        } else if pressed && key == MouseKey::Right {
            MouseRoute::Items(1)
        } else {
            MouseRoute::Ignore
        }
    } else {
        match key {
            MouseKey::Left => MouseRoute::Attack(pressed),
            MouseKey::Right => MouseRoute::UseItem(pressed),
            MouseKey::Other => MouseRoute::Ignore,
        }
    }
}

pub fn mouse_route(context: KeyContext, prompt_open: bool, key: MouseKey, pressed: bool) -> (r:
    MouseRoute)
    ensures
        r == mouse_route_of(context, prompt_open, key, pressed),
{
    let click: bool = pressed && key == MouseKey::Left;
    if prompt_open || context.menu_open {
        if !click {
            return MouseRoute::Ignore;
        }
        if prompt_open {
            return MouseRoute::Prompt;
        }
        return MouseRoute::Menu;
    }
    if context.item_screen_open {
        if click {
            if context.book_open {
                return MouseRoute::Book;
            }
            return MouseRoute::Items(0);
        }
        if pressed && key == MouseKey::Right {
            return MouseRoute::Items(1);
        }
        return MouseRoute::Ignore;
    }
    match key {
        MouseKey::Left => MouseRoute::Attack(pressed),
        MouseKey::Right => MouseRoute::UseItem(pressed),
        MouseKey::Other => MouseRoute::Ignore,
    }
}

/// Where the wheel of the mouse goes.
#[derive(Clone, Copy, Debug, PartialEq, Eq, Structural)]
pub enum WheelRoute {
    /// To the bundle under the cursor.
    Bundle,
    RecipeBook,
    /// To the choices of a loom or a stonecutter.
    Choices,
    Hotbar,
    Ignore,
}

pub open spec fn wheel_route_of(
    context: KeyContext,
    over_bundle: bool,
    book_open: bool,
    menu_type: Option<i32>,
) -> WheelRoute {
    if context.item_screen_open {
        if over_bundle {
            WheelRoute::Bundle
        } else if book_open && context.recipes {
            WheelRoute::RecipeBook
        } else if menu_type == Some(LOOM_MENU) || menu_type == Some(STONECUTTER_MENU) {
            WheelRoute::Choices
        } else {
            WheelRoute::Ignore
        }
    } else if context.chat_open || context.menu_open {
        WheelRoute::Ignore
    } else {
        WheelRoute::Hotbar
    }
}

pub fn wheel_route(
    context: KeyContext,
    over_bundle: bool,
    book_open: bool,
    menu_type: Option<i32>,
) -> (r: WheelRoute)
    ensures
        r == wheel_route_of(context, over_bundle, book_open, menu_type),
{
    if !context.item_screen_open {
        if context.chat_open || context.menu_open {
            return WheelRoute::Ignore;
        }
        return WheelRoute::Hotbar;
    }
    if over_bundle {
        return WheelRoute::Bundle;
    }
    if book_open && context.recipes {
        return WheelRoute::RecipeBook;
    }
    match menu_type {
        Some(menu) => {
            if menu == LOOM_MENU || menu == STONECUTTER_MENU {
                WheelRoute::Choices
            } else {
                WheelRoute::Ignore
            }
        },
        None => WheelRoute::Ignore,
    }
}

/// Whether the player stands still because a screen is open.
pub open spec fn stands_still(context: KeyContext, prompt_open: bool) -> bool {
    context.item_screen_open || context.chat_open || context.menu_open || prompt_open
}

pub fn is_held_still(context: KeyContext, prompt_open: bool) -> (r: bool)
    ensures
        r == stands_still(context, prompt_open),
{
    context.item_screen_open || context.chat_open || context.menu_open || prompt_open
}

/// While a screen is open, the mouse neither attacks nor uses what the player
/// holds, and the wheel does not change what it holds.
pub proof fn screens_keep_the_mouse(
    context: KeyContext,
    prompt_open: bool,
    key: MouseKey,
    pressed: bool,
    over_bundle: bool,
    book_open: bool,
    menu_type: Option<i32>,
)
    requires
        context.item_screen_open || context.menu_open || prompt_open,
    ensures
        !(mouse_route_of(context, prompt_open, key, pressed) is Attack),
        !(mouse_route_of(context, prompt_open, key, pressed) is UseItem),
        (context.item_screen_open || context.menu_open) ==> wheel_route_of(
            context,
            over_bundle,
            book_open,
            menu_type,
        ) != WheelRoute::Hotbar,
        stands_still(context, prompt_open),
{
}

/// Whether the cursor is free, and which of the watched screens are open now.
/// When a menu of the server opens, the inventory closes.
#[derive(Clone, Copy, Debug, PartialEq, Eq, Structural)]
pub struct Watched {
    pub container: bool,
    pub prompt: bool,
}

/// What a change of the watched screens asks for.
#[derive(Clone, Copy, Debug, PartialEq, Eq, Structural)]
pub struct WatchStep {
    pub changed: bool,
    /// The inventory closes, and the menu begins afresh.
    pub reset: bool,
    pub cursor_free: bool,
}

pub fn watch(
    seen: Watched,
    now: Watched,
    inventory_open: bool,
    chat_open: bool,
    menu_open: bool,
) -> (r: WatchStep)
    ensures
        r.changed == (seen != now),
        r.reset == (r.changed && now.container),
        r.cursor_free == (now.container || (inventory_open && !r.reset) || chat_open || menu_open
            || now.prompt),
{
    let changed: bool = seen.container != now.container || seen.prompt != now.prompt;
    let reset: bool = changed && now.container;
    WatchStep {
        changed,
        reset,
        cursor_free: now.container || (inventory_open && !reset) || chat_open || menu_open
            || now.prompt,
    }
}

/// The world is seen from the eyes, then from behind, then from the front.
pub proof fn the_back_comes_before_the_front()
    ensures
        Perspective::FirstPerson.next() == Perspective::ThirdPersonBack,
        Perspective::ThirdPersonBack.next() == Perspective::ThirdPersonFront,
{
}

/// The choices come in order, and the first follows the last.
pub proof fn choices_go_round(i: int, n: int)
    requires
        0 <= i < n,
    ensures
        i + 1 < n ==> choice_after(Some(i), n) == i + 1,
        i + 1 == n ==> choice_after(Some(i), n) == 0,
        n >= 2 ==> choice_after(None, n) == 1,
{
    if i + 1 == n {
        assert(n % n == 0) by (nonlinear_arith)
            requires
                n > 0,
        ;
    } else {
        assert((i + 1) % n == i + 1) by (nonlinear_arith)
            requires
                0 <= i + 1 < n,
        ;
    }
    if n >= 2 {
        assert(1int % n == 1) by (nonlinear_arith)
            requires
                n >= 2,
        ;
    }
}

/// Recipes are placed on the three columns of an open crafting table, and else on the two of
/// the open inventory, which is window 0.
pub proof fn recipes_need_a_grid(inventory_open: bool, window_id: u8, menu_type: i32)
    ensures
        recipe_context_of(inventory_open, None) is Some <==> inventory_open,
        recipe_context_of(inventory_open, None) matches Some(context) ==> context.window_id == 0
            && context.grid == 2,
        recipe_context_of(inventory_open, Some((window_id, menu_type))) is Some <==> menu_type == 11
            && window_id <= 127,
        recipe_context_of(inventory_open, Some((window_id, menu_type))) matches Some(context)
            ==> context.window_id == window_id && context.grid == 3,
{
}

/// A recipe with a shape fits where neither its width nor its height exceeds the grid, one
/// without a shape where its ingredients do not outnumber the fields.
pub proof fn recipes_fit_by_shape(recipe: CraftingModel)
    ensures
        recipe.width == 0 ==> (fits_grid(recipe, 2) <==> recipe.ingredients.len() <= 4) && (
        fits_grid(recipe, 3) <==> recipe.ingredients.len() <= 9),
        recipe.width > 0 ==> forall|grid: int|
            fits_grid(recipe, grid) <==> recipe.width <= grid && recipe.height <= grid,
{
}

/// A recipe is among those shown exactly if it fits and is unlocked, or none is.
pub proof fn shown_recipes_are_unlocked(book: BookModel, grid: int, n: int, i: usize)
    requires
        0 <= n <= book.crafting.len(),
        n <= usize::MAX,
    ensures
        i < n ==> (visible_places(book, grid, n).contains(i) <==> fits_grid(
            book.crafting[i as int],
            grid,
        ) && (book.unlocked.contains(book.crafting[i as int].id) || book.unlocked
            == Set::<Seq<char>>::empty())),
        i >= n ==> !visible_places(book, grid, n).contains(i),
        forall|a: int, b: int|
            0 <= a < b < visible_places(book, grid, n).len() ==> visible_places(
                book,
                grid,
                n,
            )[a] < visible_places(book, grid, n)[b],
    decreases n,
{
    if n > 0 {
        let before = visible_places(book, grid, n - 1);
        shown_recipes_are_unlocked(book, grid, n - 1, i);
        if is_visible(book.crafting[n - 1], book.unlocked, grid) {
            let all = before.push((n - 1) as usize);
            assert(all[before.len() as int] == (n - 1) as usize);
            if before.contains(i) {
                let k = choose|k: int| 0 <= k < before.len() && before[k] == i;
                assert(all[k] == i);
            }
            assert forall|a: int, b: int| 0 <= a < b < all.len() implies all[a] < all[b] by {
                if b == before.len() {
                    shown_recipes_are_unlocked(book, grid, n - 1, before[a]);
                    assert(before.contains(before[a]));
                }
            }
        }
    }
}

/// A stonecutter recipe is offered exactly if it takes the item that lies there.
pub proof fn offered_cuts_take_the_item(list: Seq<StonecutterModel>, item_id: i32, n: int, i: usize)
    requires
        0 <= n <= list.len(),
        n <= usize::MAX,
    ensures
        i < n ==> (applicable_places(list, item_id, n).contains(i)
            <==> list[i as int].ingredients.contains(item_id)),
        i >= n ==> !applicable_places(list, item_id, n).contains(i),
        forall|a: int, b: int|
            0 <= a < b < applicable_places(list, item_id, n).len() ==> applicable_places(
                list,
                item_id,
                n,
            )[a] < applicable_places(list, item_id, n)[b],
    decreases n,
{
    if n > 0 {
        let before = applicable_places(list, item_id, n - 1);
        offered_cuts_take_the_item(list, item_id, n - 1, i);
        if list[n - 1].ingredients.contains(item_id) {
            let all = before.push((n - 1) as usize);
            assert(all[before.len() as int] == (n - 1) as usize);
            if before.contains(i) {
                let k = choose|k: int| 0 <= k < before.len() && before[k] == i;
                assert(all[k] == i);
            }
            assert forall|a: int, b: int| 0 <= a < b < all.len() implies all[a] < all[b] by {
                if b == before.len() {
                    offered_cuts_take_the_item(list, item_id, n - 1, before[a]);
                    assert(before.contains(before[a]));
                }
            }
        }
    }
}

/// The last page is the one that holds the last entry; the loom shows sixteen choices on a
/// page and every other menu twelve.
pub proof fn last_pages_hold_the_last_entry(total: int, per_page: int, menu_type: i32)
    requires
        0 < per_page,
        0 <= total,
    ensures
        total > 0 ==> last_page(total, per_page) * per_page < total <= (last_page(total, per_page)
            + 1) * per_page,
        total == 0 ==> last_page(total, per_page) == 0,
        per_page_of(menu_type) == 16 <==> menu_type == 17,
        per_page_of(menu_type) == 12 <==> menu_type != 17,
{
    if total > 0 {
        let q = (total - 1) / per_page;
        let r = (total - 1) % per_page;
        lemma_fundamental_div_mod(total - 1, per_page);
        assert(q * per_page == per_page * q) by (nonlinear_arith);
        assert((q + 1) * per_page == q * per_page + per_page) by (nonlinear_arith);
        assert(0 <= r < per_page) by (nonlinear_arith)
            requires
                r == (total - 1) % per_page,
                per_page > 0,
        ;
    }
}

/// The wheel leads one page back or on, and stops at the first and the last.
pub proof fn wheels_turn_pages(page: int, last: int)
    requires
        0 <= page <= last,
    ensures
        page > 0 ==> page_turned(page, Wheel::Up, last) == page - 1,
        page_turned(0, Wheel::Up, last) == 0,
        page < last ==> page_turned(page, Wheel::Down, last) == page + 1,
        page_turned(last, Wheel::Down, last) == last,
        page_turned(page, Wheel::Rest, last) == page,
{
}

/// The wheel leads to the slot of the hotbar before or behind, round its ends.
pub proof fn wheels_turn_the_hotbar(slot: int)
    requires
        0 <= slot <= 8,
    ensures
        slot < 8 ==> slot_turned(slot, Wheel::Down) == slot + 1,
        slot_turned(8, Wheel::Down) == 0,
        slot > 0 ==> slot_turned(slot, Wheel::Up) == slot - 1,
        slot_turned(0, Wheel::Up) == 8,
        slot_turned(slot, Wheel::Rest) == slot,
{
}

/// In a bundle the wheel leads from a stack to the next, round its ends; without a choice in
/// that slot it begins with the first stack.
pub proof fn wheels_turn_bundles(slot: i32, count: int, index: i32, other: i32)
    requires
        0 <= index < count,
        other != slot,
    ensures
        index + 1 < count ==> bundle_turned(slot, count, Some((slot, index)), Wheel::Down) == Some(
            index + 1,
        ),
        index + 1 == count ==> bundle_turned(slot, count, Some((slot, index)), Wheel::Down) == Some(
            0int,
        ),
        index > 0 ==> bundle_turned(slot, count, Some((slot, index)), Wheel::Up) == Some(index - 1),
        index == 0 ==> bundle_turned(slot, count, Some((slot, index)), Wheel::Up) == Some(
            count - 1,
        ),
        bundle_turned(slot, count, None, Wheel::Down) == Some(0int),
        bundle_turned(slot, count, None, Wheel::Up) == Some(0int),
        bundle_turned(slot, count, Some((other, index)), Wheel::Down) == Some(0int),
        bundle_turned(slot, count, Some((other, index)), Wheel::Up) == Some(0int),
        bundle_turned(slot, count, Some((slot, index)), Wheel::Rest) is None,
{
    assert(0int % count == 0) by (nonlinear_arith)
        requires
            count > 0,
    ;
    if index + 1 < count {
        assert((index + 1) % count == index + 1) by (nonlinear_arith)
            requires
                0 <= index + 1 < count,
        ;
    } else {
        assert(count % count == 0) by (nonlinear_arith)
            requires
                count > 0,
        ;
    }
    if index > 0 {
        assert((index - 1) % count == index - 1) by (nonlinear_arith)
            requires
                0 <= index - 1 < count,
        ;
    } else {
        vstd::arithmetic::div_mod::lemma_mod_add_multiples_vanish(-1, count);
        assert((count - 1) % count == count - 1) by (nonlinear_arith)
            requires
                0 <= count - 1 < count,
        ;
        assert((-1 + count) % count == -1int % count);
    }
}

/// A click on a choice of the loom or the stonecutter presses its button, one on an
/// enchantment chooses that, and else it falls on the slot below.
pub proof fn clicks_fall_on_what_is_below(
    menu_type: i32,
    has_layout: bool,
    total: int,
    page: int,
    hits: Hits,
)
    requires
        0 <= page,
        0 <= total,
    ensures
        ({
            let click = menu_click_of(menu_type, has_layout, total, page, hits);
            let chooses = menu_type == 17 || menu_type == 23;
            &&& !has_layout ==> click == ClickAction::Nothing
            &&& has_layout && menu_type == 17 && hits.choice is Some && 16 * page + hits.choice->0
                < total && 16 * page + hits.choice->0 <= 127 ==> click == ClickAction::MenuButton(
                (16 * page + hits.choice->0) as i8,
            )
            &&& has_layout && menu_type == 23 && hits.choice is Some && 12 * page + hits.choice->0
                < total && 12 * page + hits.choice->0 <= 127 ==> click == ClickAction::MenuButton(
                (12 * page + hits.choice->0) as i8,
            )
            &&& has_layout && menu_type == 12 && hits.enchantment is Some && hits.enchantment->0 < 3
                ==> click == ClickAction::Enchant(hits.enchantment->0 as i8)
            &&& has_layout && !(chooses && hits.choice is Some) && !(menu_type == 12
                && hits.enchantment is Some && hits.enchantment->0 < 3) ==> click == (
            match hits.slot {
                Some(slot) => ClickAction::Slot(slot),
                None => ClickAction::Nothing,
            })
        }),
{
    assert(page * 16 == 16 * page && page * 12 == 12 * page) by (nonlinear_arith);
}

/// The button of the recipe book opens and closes it; while it is open, a click on one of
/// the twenty recipes of a page places that one.
pub proof fn clicks_fall_on_recipes(book_open: bool, page: int, shown: int, hits: Hits)
    requires
        0 <= page,
        shown <= usize::MAX,
    ensures
        hits.book_button ==> book_click_of(book_open, page, shown, hits) == Some(
            ClickAction::ToggleBook,
        ),
        !hits.book_button && book_open && hits.recipe is Some && 20 * page + hits.recipe->0 < shown
            ==> book_click_of(book_open, page, shown, hits) == Some(
            ClickAction::PlaceRecipe((20 * page + hits.recipe->0) as usize),
        ),
        !hits.book_button && (!book_open || hits.recipe is None || 20 * page + hits.recipe->0
            >= shown) ==> book_click_of(book_open, page, shown, hits) is None,
{
    assert(page * 20 == 20 * page) by (nonlinear_arith);
}

/// Escape answers the question about a pack first, then closes the help, the options and
/// the item screen, and only then opens or closes the pause menu.
pub proof fn escape_closes_what_is_on_top(menus: Menus, prompt_open: bool, item_screen_open: bool)
    ensures
        ({
            let (after, action) = escaped(menus, prompt_open, item_screen_open);
            let sub = menus.controls_help_open || menus.options_open;
            &&& action == EscapeAction::DeclinePack <==> prompt_open
            &&& action == EscapeAction::Menus <==> !prompt_open && sub
            &&& action == EscapeAction::CloseItemScreen <==> !prompt_open && !sub
                && item_screen_open
            &&& action is Cursor <==> !prompt_open && !sub && !item_screen_open
            &&& action is Cursor ==> after.menu_open == !menus.menu_open && action
                == EscapeAction::Cursor(after.menu_open)
            &&& !(action is Cursor) ==> after.menu_open == menus.menu_open
            &&& action == EscapeAction::Menus && menus.controls_help_open
                ==> !after.controls_help_open && after.options_open == menus.options_open
            &&& action == EscapeAction::Menus && !menus.controls_help_open ==> !after.options_open
            &&& action != EscapeAction::Menus ==> after.options_open == menus.options_open
                && after.controls_help_open == menus.controls_help_open
            &&& after.inventory_open == menus.inventory_open && after.debug_open
                == menus.debug_open
        }),
{
}

/// The buttons do what they say: the game goes on, the options and the help open, and the
/// last one quits or leads back.
pub proof fn buttons_do_what_they_say(menus: Menus, button: int)
    ensures
        ({
            let (after, action) = menu_pressed(menus, button);
            let plain = !menus.options_open && !menus.controls_help_open;
            &&& action == MenuAction::Resume <==> plain && button == 0
            &&& action == MenuAction::Quit <==> plain && button != 0 && button != 1 && button != 2
            &&& action == MenuAction::NextFov <==> menus.options_open && button == 0
            &&& action == MenuAction::NextSensitivity <==> menus.options_open && button == 1
            &&& action == MenuAction::ToggleFullscreen <==> menus.options_open && button == 2
            &&& after.menu_open == (menus.menu_open && action != MenuAction::Resume)
            &&& plain ==> after.options_open == (button == 1)
            &&& plain ==> after.controls_help_open == (button == 2)
            &&& menus.options_open ==> after.options_open == (0 <= button <= 2)
                && after.controls_help_open == menus.controls_help_open
            &&& !menus.options_open && menus.controls_help_open ==> !after.controls_help_open
                && !after.options_open
            &&& after.inventory_open == menus.inventory_open && after.debug_open
                == menus.debug_open
        }),
{
}

/// Where no line, book or anvil takes the keys, each key does what it is for, once for a
/// press, and those that do nothing on their own are held until they are released.
pub proof fn keys_do_what_they_are_for(
    context: KeyContext,
    key: GameKey,
    pressed: bool,
    repeat: bool,
)
    ensures
        ({
            let route = key_route_of(context, key, pressed, repeat);
            let free = !context.chat_open && !context.book_open && !(context.anvil_open && pressed
                && key != GameKey::Escape);
            let fresh = free && pressed && !repeat;
            let playing = !context.item_screen_open && !context.menu_open;
            &&& route == KeyRoute::Chat <==> context.chat_open && pressed
            &&& route == KeyRoute::Book <==> !context.chat_open && context.book_open && pressed
            &&& route == KeyRoute::Anvil <==> !context.chat_open && !context.book_open
                && context.anvil_open && pressed && key != GameKey::Escape
            &&& route == KeyRoute::Escape <==> fresh && key == GameKey::Escape
            &&& route == KeyRoute::ToggleDebug <==> fresh && key == GameKey::Debug
            &&& route == KeyRoute::NextPerspective <==> fresh && key == GameKey::Camera
                && !context.item_screen_open
            &&& route == KeyRoute::SwapHands <==> fresh && key == GameKey::SwapHands && playing
            &&& route == KeyRoute::OpenChat <==> fresh && key == GameKey::Chat
                && !context.item_screen_open
            &&& route == KeyRoute::OpenCommand <==> fresh && key == GameKey::Command
                && !context.item_screen_open
            &&& route is Inventory <==> fresh && key == GameKey::Inventory
            &&& route == KeyRoute::Inventory(true) <==> fresh && key == GameKey::Inventory
                && context.container_open
            &&& route == KeyRoute::ToggleRecipeBook <==> fresh && key == GameKey::RecipeBook
                && context.recipes
            &&& route == KeyRoute::Release <==> free && !pressed && key != GameKey::Escape
            &&& route == KeyRoute::Hold(true) <==> fresh && key == GameKey::Jump && playing
            &&& free && pressed && repeat && key != GameKey::Escape ==> route == KeyRoute::Hold(
                false,
            )
            &&& free && pressed && key == GameKey::Other ==> route == KeyRoute::Hold(false)
        }),
{
}

/// In the game the left button attacks and the right one uses; over a screen a press goes
/// to what is on top.
pub proof fn buttons_go_to_what_is_on_top(
    context: KeyContext,
    prompt_open: bool,
    key: MouseKey,
    pressed: bool,
)
    ensures
        ({
            let route = mouse_route_of(context, prompt_open, key, pressed);
            let left = pressed && key == MouseKey::Left;
            let over_menu = !prompt_open && context.menu_open;
            let over_items = !prompt_open && !context.menu_open && context.item_screen_open;
            let playing = !prompt_open && !context.menu_open && !context.item_screen_open;
            &&& route == MouseRoute::Prompt <==> left && prompt_open
            &&& route == MouseRoute::Menu <==> left && over_menu
            &&& route == MouseRoute::Book <==> left && over_items && context.book_open
            &&& route == MouseRoute::Items(0) <==> left && over_items && !context.book_open
            &&& route == MouseRoute::Items(1) <==> pressed && key == MouseKey::Right && over_items
            &&& route is Attack <==> playing && key == MouseKey::Left
            &&& route == MouseRoute::Attack(true) <==> playing && left
            &&& route is UseItem <==> playing && key == MouseKey::Right
            &&& route == MouseRoute::UseItem(true) <==> playing && pressed && key == MouseKey::Right
        }),
{
}

/// The wheel turns the bundle under the cursor, the recipe book, the choices or the hotbar,
/// whichever is on top.
pub proof fn wheels_go_to_what_is_on_top(
    context: KeyContext,
    over_bundle: bool,
    book_open: bool,
    menu_type: Option<i32>,
)
    ensures
        ({
            let route = wheel_route_of(context, over_bundle, book_open, menu_type);
            let items = context.item_screen_open;
            &&& route == WheelRoute::Bundle <==> items && over_bundle
            &&& route == WheelRoute::RecipeBook <==> items && !over_bundle && book_open
                && context.recipes
            &&& route == WheelRoute::Choices <==> items && !over_bundle && !(book_open
                && context.recipes) && (menu_type == Some(17i32) || menu_type == Some(23i32))
            &&& route == WheelRoute::Hotbar <==> !items && !context.chat_open && !context.menu_open
        }),
{
}

/// A player moves exactly while no screen, line, menu or question is open.
pub proof fn open_screens_hold_the_player(context: KeyContext, prompt_open: bool)
    ensures
        stands_still(context, prompt_open) <==> context.item_screen_open || context.chat_open
            || context.menu_open || prompt_open,
{
}

/// A second press within 350 milliseconds makes a double press, and the next one begins
/// anew; a later one begins a pair.
pub proof fn double_presses_are_quick(last: u64, now: u64, answer: (bool, Option<u64>))
    requires
        last <= now,
        call_ensures(double_press, (Some(last), now), answer),
    ensures
        now - last <= 350_000_000 ==> answer == (true, None::<u64>),
        now - last > 350_000_000 ==> answer == (false, Some(now)),
{
}

/// A single press never is a double one, and begins a pair.
pub proof fn first_presses_begin_a_pair(now: u64, answer: (bool, Option<u64>))
    requires
        call_ensures(double_press, (None::<u64>, now), answer),
    ensures
        answer == (false, Some(now)),
{
}

/// The cursor is free exactly while something is open; a menu of the server that opens
/// closes the inventory, and what stays as it was changes nothing.
pub proof fn open_screens_free_the_cursor(
    seen: Watched,
    now: Watched,
    inventory_open: bool,
    chat_open: bool,
    menu_open: bool,
    step: WatchStep,
)
    requires
        call_ensures(watch, (seen, now, inventory_open, chat_open, menu_open), step),
    ensures
        step.changed <==> seen.container != now.container || seen.prompt != now.prompt,
        step.reset <==> step.changed && now.container,
        now.container || now.prompt || chat_open || menu_open ==> step.cursor_free,
        !now.container && !now.prompt && !chat_open && !menu_open ==> (step.cursor_free
            <==> inventory_open),
{
}

} // verus!
