//! Books, typed lines, labels and menus.

use crabcraft::book::wrapped_book_lines;
use crabcraft::book_screen::{BookKey, BookScreen};
use crabcraft::chars::{blank, control, trim};
use crabcraft::cli::{model_file, model_places, models_directory, parse_args};
use crabcraft::items::{armour_material, ItemDef, ItemRegistry, SlotItem};
use crabcraft::labels::{
    bundle_items, bundle_lines, chosen_stack, count_label, latency_label, mode_label,
    pack_buttons, pack_question, pages_label, player_label, pretty_item_name, shown_chat_lines,
};
use crabcraft::player::PlayerState;
use crabcraft::players::PlayerListEntry;
use crabcraft::scoreboard::ScoreboardState;
use crabcraft::nbt::{NamedTag, Nbt};
use crabcraft::recipe_book::RecipeBook;
use crabcraft::recipes::{CraftingRecipe, StonecutterRecipe};
use crabcraft::screens::{
    applicable_stonecutter_recipes, book_click, crafting_recipe_context, double_press,
    is_held_still, key_route, max_page, menu_click, mouse_route, next_choice, page_entry,
    page_within, turn_bundle, turn_page, turn_slot, visible_crafting_recipes, watch, wheel_route,
    ClickAction, EscapeAction, GameKey, Hits, KeyContext, KeyRoute, MenuAction, Menus, MouseKey,
    MouseRoute, Perspective, RecipeContext, Watched, Wheel, WheelRoute,
};
use crabcraft::text::{decimal_text, parse_decimal, parse_i32, split_host_port};
use crabcraft::typing::{key_name, ChatInput, LineKey};

fn slot(item_id: i32, count: i8) -> Option<SlotItem> {
    Some(SlotItem { item_id, count })
}

fn tag(name: &str, value: Nbt) -> NamedTag {
    NamedTag { name: name.to_string(), value }
}

#[test]
fn book_pages_wrap_words_newlines_and_long_runs() {
    assert_eq!(wrapped_book_lines("one two three", 7, 10), vec!["one two", "three"]);
    assert_eq!(wrapped_book_lines("first\nsecond", 20, 10), vec!["first", "second"]);
    assert_eq!(wrapped_book_lines("abcdefgh", 4, 10), vec!["abcd", "efgh"]);
    assert_eq!(wrapped_book_lines("a\nb\nc", 20, 2), vec!["a", "b"]);
}

#[test]
fn book_lines_keep_the_letters_and_short_words() {
    let page = "the quick  brown\tfox\njumps over a-very-long-hyphenated-word today";
    let lines = wrapped_book_lines(page, 9, usize::MAX);
    let solid = |text: &str| text.chars().filter(|c| !c.is_whitespace()).collect::<String>();
    assert_eq!(solid(&lines.concat()), solid(page));
    for fewer in 0..lines.len() {
        assert_eq!(wrapped_book_lines(page, 9, fewer), lines[..fewer]);
    }
    let page = "aa bb cc dd eeeee f";
    let lines = wrapped_book_lines(page, 5, 100);
    assert_eq!(lines, vec!["aa bb", "cc dd", "eeeee", "f"]);
    assert_eq!(lines.join(" "), page);
}

#[test]
fn book_lines_keep_blanks_and_empty_paragraphs() {
    assert_eq!(wrapped_book_lines("", 5, 3), vec![""]);
    assert_eq!(wrapped_book_lines("a\n\nb", 5, 9), vec!["a", "", "b"]);
    assert_eq!(wrapped_book_lines("a  b", 9, 9), vec!["a  b"]);
    assert_eq!(wrapped_book_lines("ab cdefgh i", 4, 9), vec!["ab", "cdef", "gh i"]);
    assert!(wrapped_book_lines("x", 5, 0).is_empty());
}

#[test]
fn item_names_are_human_readable() {
    assert_eq!(pretty_item_name("diamond_pickaxe"), "Diamond Pickaxe");
    assert_eq!(pretty_item_name("oak_log"), "Oak Log");
    assert_ne!(
        armour_material("diamond_chestplate"),
        armour_material("golden_chestplate")
    );
    assert_eq!(pretty_item_name(""), "");
    assert_eq!(pretty_item_name("a__b"), "A  B");
    assert_eq!(pretty_item_name("\u{df}x"), "SSx");
}

#[test]
fn bundle_metadata_drives_interactive_tooltip_items() {
    let entry = Nbt::Compound(vec![tag("id", Nbt::Int(42)), tag("count", Nbt::Byte(5))]);
    let metadata = Nbt::Compound(vec![tag("bundle_contents", Nbt::List(vec![entry]))]);
    assert_eq!(
        bundle_items(Some(&metadata)),
        vec![SlotItem { item_id: 42, count: 5 }]
    );
    assert!(bundle_items(None).is_empty());
}

#[test]
fn bundles_describe_themselves() {
    let registry = ItemRegistry {
        items: vec![ItemDef { name: "oak_log".to_string(), stack_size: 64, block_state: None }],
    };
    let contents = vec![SlotItem { item_id: 0, count: 3 }, SlotItem { item_id: 9, count: 1 }];
    assert_eq!(
        bundle_lines(&registry, &contents, Some(0)),
        vec!["Bundle", "Oak Log x3", "Scroll to select  1 / 2"]
    );
    assert_eq!(
        bundle_lines(&registry, &contents, Some(1)),
        vec!["Bundle", "Item #9 x1", "Scroll to select  2 / 2"]
    );
    assert_eq!(
        bundle_lines(&registry, &contents, None),
        vec!["Bundle", "2 stacks  -  scroll to select"]
    );
    assert_eq!(
        bundle_lines(&registry, &contents[..1].to_vec(), None)[1],
        "1 stack  -  scroll to select"
    );
    assert_eq!(chosen_stack(4, 2, Some((4, 1))), Some(1));
    assert_eq!(chosen_stack(4, 2, Some((4, 2))), None);
    assert_eq!(chosen_stack(4, 2, Some((3, 1))), None);
}

#[test]
fn small_labels() {
    assert_eq!(latency_label(-5), "0ms");
    assert_eq!(latency_label(120), "120ms");
    assert_eq!(count_label(1), None);
    assert_eq!(count_label(64).as_deref(), Some("64"));
    assert_eq!(pack_buttons(true), ("Proceed", "Disconnect"));
    assert_eq!(pack_buttons(false), ("Accept", "Decline"));
    assert!(pack_question(true).contains("requires"));
    assert_eq!((shown_chat_lines(3, false), shown_chat_lines(30, false)), (3, 7));
    assert_eq!(shown_chat_lines(30, true), 10);
}

fn writable(text: &str) -> BookScreen {
    let data = Nbt::Compound(vec![tag("pages", Nbt::List(vec![Nbt::String(text.to_string())]))]);
    BookScreen::open("writable_book", Some(&data), 3).unwrap()
}

#[test]
fn books_open_with_their_pages() {
    let data = Nbt::Compound(vec![
        tag(
            "pages",
            Nbt::List(vec![
                Nbt::String(r#"{"text":"one"}"#.to_string()),
                Nbt::Int(4),
                Nbt::String("two".to_string()),
            ]),
        ),
        tag("title", Nbt::String("Tales".to_string())),
    ]);
    let book = BookScreen::open("written_book", Some(&data), 2).unwrap();
    assert_eq!(book.pages, vec!["one", "two"]);
    assert_eq!(book.heading(), "Tales");
    assert_eq!(book.page_label(), "Page 1 of 2");
    assert!(!book.writable);
    assert!(BookScreen::open("stick", None, 2).is_none());
    let empty = BookScreen::open("writable_book", None, 2).unwrap();
    assert_eq!(empty.pages, vec![""]);
    assert_eq!(empty.heading(), "Writable Book");
    assert!(empty.finish().is_none());
}

#[test]
fn books_are_written_page_by_page() {
    let mut book = writable("ab");
    assert!(!book.key(BookKey::Other, "c\u{7}d"));
    assert_eq!(book.pages[0], "abcd");
    book.key(BookKey::Backspace, "");
    book.key(BookKey::Enter, "\r");
    assert_eq!(book.pages[0], "abc\n");
    assert!(!book.press(1));
    assert_eq!((book.page, book.pages.len()), (1, 2));
    book.press(0);
    book.key(BookKey::On, "");
    book.key(BookKey::Back, "");
    assert_eq!(book.page, 0);
    assert!(book.key(BookKey::Escape, ""));
    let edit = book.finish().unwrap();
    assert_eq!((edit.slot, edit.title), (3, None));
    assert_eq!(edit.pages, vec!["abc\n", ""]);
}

#[test]
fn books_keep_to_their_limits() {
    let mut book = writable(&"x".repeat(1023));
    book.key(BookKey::Other, "yz");
    assert_eq!(book.pages[0].len(), 1024);
    book.key(BookKey::Enter, "");
    assert_eq!(book.pages[0].len(), 1024);
    for _ in 0..200 {
        book.press(1);
    }
    assert_eq!(book.pages.len(), 100);
}

#[test]
fn books_are_signed_with_a_title() {
    let mut book = writable("text");
    book.press(2);
    assert!(book.signing);
    assert_eq!(book.page_label(), "");
    assert!(!book.press(4));
    assert!(!book.key(BookKey::Enter, "\r"));
    book.key(BookKey::Other, "  My very long title indeed");
    assert_eq!(book.sign_title, "  My very long t");
    book.key(BookKey::Backspace, "");
    assert!(!book.key(BookKey::Escape, ""));
    assert!(!book.signing);
    book.press(2);
    assert!(book.press(4));
    assert_eq!(book.finish().unwrap().title.as_deref(), Some("My very long"));
}

#[test]
fn signed_books_cannot_be_written() {
    let mut book = BookScreen::open("written_book", None, 0).unwrap();
    book.key(BookKey::Other, "abc");
    book.press(2);
    book.press(1);
    assert_eq!(book.pages, vec![""]);
    assert!(!book.signing && !book.dirty);
    assert!(book.press(3));
}

#[test]
fn chat_lines_are_typed_and_sent() {
    let mut chat = ChatInput::new();
    chat.start(true);
    assert_eq!(chat.buffer, "/");
    chat.key(LineKey::Other, "help\u{8}");
    assert_eq!(chat.key(LineKey::Backspace, ""), None);
    assert_eq!(chat.key(LineKey::Enter, "\r").as_deref(), Some("/hel"));
    assert!(!chat.open && chat.buffer.is_empty());
    chat.start(false);
    chat.key(LineKey::Other, "  ");
    assert_eq!(chat.key(LineKey::Enter, ""), None);
    chat.start(false);
    chat.key(LineKey::Other, &"\u{e4}".repeat(300));
    assert_eq!(chat.buffer.len(), 200);
    chat.key(LineKey::Escape, "");
    assert!(!chat.open && chat.buffer.is_empty());
}

#[test]
fn item_names_are_typed() {
    let mut name = String::new();
    assert!(!key_name(&mut name, true, ""));
    assert!(key_name(&mut name, false, &"n".repeat(60)));
    assert_eq!(name.len(), 50);
    assert!(!key_name(&mut name, false, "n"));
    assert!(key_name(&mut name, true, ""));
    assert_eq!(name.len(), 49);
}

#[test]
fn blanks_are_those_of_unicode() {
    for c in (0..0x11_0000u32).filter_map(char::from_u32) {
        assert_eq!(blank(c), c.is_whitespace(), "{:x}", c as u32);
        assert_eq!(control(c), c.is_control(), "{:x}", c as u32);
    }
    assert_eq!(trim(" \u{3000}a b\n"), "a b");
    assert_eq!(trim(" \t "), "");
}

#[test]
fn options_cycle_and_camera_apply_selected_fov() {
    let fov: [f32; 4] = [60.0, 70.0, 90.0, 110.0];
    let sensitivity: [f32; 5] = [0.06, 0.09, 0.12, 0.18, 0.24];
    let after = |current: f32, choices: &[f32]| {
        let found = choices.iter().position(|choice| (choice - current).abs() < f32::EPSILON);
        choices[next_choice(found, choices.len())]
    };
    assert_eq!(after(70.0, &fov), 90.0);
    assert_eq!(after(110.0, &fov), 60.0);
    assert_eq!(after(0.12, &sensitivity), 0.18);
    assert_eq!(Perspective::FirstPerson.next(), Perspective::ThirdPersonBack);
    assert_eq!(Perspective::ThirdPersonFront.next(), Perspective::FirstPerson);
}

#[test]
fn perspectives_and_choices_cycle() {
    assert_eq!(Perspective::FirstPerson.next(), Perspective::ThirdPersonBack);
    assert_eq!(Perspective::ThirdPersonFront.next(), Perspective::FirstPerson);
    assert_eq!(next_choice(Some(1), 4), 2);
    assert_eq!(next_choice(Some(3), 4), 0);
    assert_eq!(next_choice(None, 5), 1);
    assert_eq!(next_choice(None, 1), 0);
}

#[test]
fn recipe_grids_page_loom_patterns_and_stonecutter_choices() {
    let shown = |per_page: usize, page: usize, total: usize| {
        (0..per_page)
            .filter(|&visible| page_entry(page, per_page, visible, total).is_some())
            .count()
    };
    assert_eq!(shown(16, 2, 34), 2);
    assert_eq!(shown(12, 0, 12), 12);
    assert_eq!(page_entry(2, 16, 1, 34), Some(33));
    assert_eq!((max_page(34, 16), max_page(0, 12), max_page(13, 12)), (2, 0, 1));
    assert_eq!(page_within(9, 34, 16), 2);
}

fn recipe(id: &str, width: u8, height: u8, ingredients: usize) -> CraftingRecipe {
    CraftingRecipe {
        id: id.to_string(),
        width,
        height,
        ingredients: vec![vec![1]; ingredients],
        result: None,
    }
}

#[test]
fn recipes_are_shown_where_they_fit() {
    let mut book = RecipeBook::new();
    book.crafting = vec![
        recipe("small", 0, 0, 4),
        recipe("large", 0, 0, 5),
        recipe("square", 2, 2, 4),
        recipe("wide", 3, 1, 3),
    ];
    assert_eq!(visible_crafting_recipes(&book, 2), vec![0, 2]);
    assert_eq!(visible_crafting_recipes(&book, 3), vec![0, 1, 2, 3]);
    book.unlocked.insert("wide".to_string());
    assert_eq!(visible_crafting_recipes(&book, 3), vec![3]);
    let cut = |id: &str, ingredients: Vec<i32>| StonecutterRecipe {
        id: id.to_string(),
        ingredients,
        result: None,
    };
    book.stonecutting = vec![cut("a", vec![1, 2]), cut("b", vec![3]), cut("c", vec![2])];
    assert_eq!(applicable_stonecutter_recipes(&book, &vec![slot(2, 1)]), vec![0, 2]);
    assert!(applicable_stonecutter_recipes(&book, &vec![None]).is_empty());
    assert!(applicable_stonecutter_recipes(&book, &vec![]).is_empty());
}

#[test]
fn recipes_are_placed_in_their_window() {
    assert_eq!(
        crafting_recipe_context(true, None),
        Some(RecipeContext { window_id: 0, grid: 2 })
    );
    assert_eq!(
        crafting_recipe_context(true, Some((5, 11))),
        Some(RecipeContext { window_id: 5, grid: 3 })
    );
    assert_eq!(crafting_recipe_context(true, Some((200, 11))), None);
    assert_eq!(crafting_recipe_context(true, Some((5, 2))), None);
    assert_eq!(crafting_recipe_context(false, None), None);
}

const NO_HITS: Hits = Hits {
    book_button: false,
    recipe: None,
    choice: None,
    enchantment: None,
    slot: None,
};

#[test]
fn clicks_go_to_what_is_under_the_cursor() {
    let slot_hit = Hits { slot: Some(6), ..NO_HITS };
    assert_eq!(menu_click(2, true, 0, 0, slot_hit), ClickAction::Slot(6));
    assert_eq!(menu_click(2, false, 0, 0, slot_hit), ClickAction::Nothing);
    let choice = Hits { choice: Some(1), slot: Some(6), ..NO_HITS };
    assert_eq!(menu_click(17, true, 34, 2, choice), ClickAction::MenuButton(33));
    assert_eq!(menu_click(23, true, 1, 0, choice), ClickAction::Slot(6));
    assert_eq!(menu_click(23, true, 500, 20, choice), ClickAction::Nothing);
    let enchantment = Hits { enchantment: Some(2), slot: Some(6), ..NO_HITS };
    assert_eq!(menu_click(12, true, 0, 0, enchantment), ClickAction::Enchant(2));
    assert_eq!(menu_click(7, true, 0, 0, enchantment), ClickAction::Slot(6));
    let button = Hits { book_button: true, recipe: Some(0), ..NO_HITS };
    assert_eq!(book_click(true, 0, 9, button), Some(ClickAction::ToggleBook));
    let cell = Hits { recipe: Some(3), ..NO_HITS };
    assert_eq!(book_click(true, 1, 40, cell), Some(ClickAction::PlaceRecipe(23)));
    assert_eq!(book_click(true, 1, 20, cell), None);
    assert_eq!(book_click(false, 1, 40, cell), None);
}

#[test]
fn the_wheel_turns_pages_slots_and_bundles() {
    assert_eq!(turn_page(0, Wheel::Up, 5), 0);
    assert_eq!(turn_page(3, Wheel::Up, 5), 2);
    assert_eq!(turn_page(3, Wheel::Down, 5), 4);
    assert_eq!(turn_page(9, Wheel::Down, 5), 5);
    assert_eq!(turn_page(3, Wheel::Rest, 5), 3);
    assert_eq!(turn_slot(0, Wheel::Up), 8);
    assert_eq!(turn_slot(8, Wheel::Down), 0);
    assert_eq!(turn_slot(4, Wheel::Rest), 4);
    assert_eq!(turn_bundle(5, 3, None, Wheel::Up), Some(0));
    assert_eq!(turn_bundle(5, 3, None, Wheel::Down), Some(0));
    assert_eq!(turn_bundle(5, 3, Some((5, 0)), Wheel::Up), Some(2));
    assert_eq!(turn_bundle(5, 3, Some((5, 2)), Wheel::Down), Some(0));
    assert_eq!(turn_bundle(5, 3, Some((4, 2)), Wheel::Down), Some(0));
    assert_eq!(turn_bundle(5, 3, None, Wheel::Rest), None);
}

#[test]
fn escape_closes_what_is_on_top() {
    let mut menus = Menus::new();
    assert_eq!(menus.escape(true, true), EscapeAction::DeclinePack);
    assert_eq!(menus.escape(false, true), EscapeAction::CloseItemScreen);
    assert_eq!(menus.escape(false, false), EscapeAction::Cursor(true));
    assert_eq!(menus.press(1), MenuAction::Menus);
    assert!(menus.options_open);
    assert_eq!(menus.press(0), MenuAction::NextFov);
    assert_eq!(menus.press(1), MenuAction::NextSensitivity);
    assert_eq!(menus.press(2), MenuAction::ToggleFullscreen);
    assert_eq!(menus.escape(false, false), EscapeAction::Menus);
    assert_eq!(menus.press(2), MenuAction::Menus);
    assert!(menus.controls_help_open);
    assert_eq!(menus.press(0), MenuAction::Menus);
    assert_eq!(menus.press(3), MenuAction::Quit);
    assert_eq!(menus.press(0), MenuAction::Resume);
    assert!(!menus.menu_open);
}

#[test]
fn keys_find_their_screen() {
    let playing = KeyContext {
        chat_open: false,
        book_open: false,
        anvil_open: false,
        item_screen_open: false,
        menu_open: false,
        container_open: false,
        recipes: false,
    };
    let press = |context: KeyContext, key: GameKey| key_route(context, key, true, false);
    assert_eq!(press(playing, GameKey::Other), KeyRoute::Hold(false));
    assert_eq!(press(playing, GameKey::Jump), KeyRoute::Hold(true));
    assert_eq!(key_route(playing, GameKey::Jump, true, true), KeyRoute::Hold(false));
    assert_eq!(key_route(playing, GameKey::Jump, false, false), KeyRoute::Release);
    assert_eq!(press(playing, GameKey::Chat), KeyRoute::OpenChat);
    assert_eq!(press(playing, GameKey::Command), KeyRoute::OpenCommand);
    assert_eq!(press(playing, GameKey::SwapHands), KeyRoute::SwapHands);
    assert_eq!(press(playing, GameKey::Camera), KeyRoute::NextPerspective);
    assert_eq!(press(playing, GameKey::Debug), KeyRoute::ToggleDebug);
    assert_eq!(press(playing, GameKey::Escape), KeyRoute::Escape);
    assert_eq!(key_route(playing, GameKey::Escape, true, true), KeyRoute::Ignore);
    assert_eq!(press(playing, GameKey::Inventory), KeyRoute::Inventory(false));
    assert_eq!(press(playing, GameKey::RecipeBook), KeyRoute::Hold(false));
    let chat = KeyContext { chat_open: true, ..playing };
    assert_eq!(press(chat, GameKey::Escape), KeyRoute::Chat);
    assert_eq!(key_route(chat, GameKey::Other, false, false), KeyRoute::Ignore);
    let anvil = KeyContext {
        anvil_open: true,
        item_screen_open: true,
        container_open: true,
        ..playing
    };
    assert_eq!(press(anvil, GameKey::Inventory), KeyRoute::Anvil);
    assert_eq!(press(anvil, GameKey::Escape), KeyRoute::Escape);
    assert_eq!(double_press(None, 5), (false, Some(5)));
    assert_eq!(double_press(Some(5), 350_000_005), (true, None));
    assert_eq!(double_press(Some(5), 350_000_006), (false, Some(350_000_006)));
}

#[test]
fn the_cursor_follows_the_screens() {
    let closed = Watched { container: false, prompt: false };
    let menu = Watched { container: true, prompt: false };
    let step = watch(closed, menu, true, false, false);
    assert!(step.changed && step.reset && step.cursor_free);
    let step = watch(menu, closed, false, false, false);
    assert!(step.changed && !step.reset && !step.cursor_free);
    assert!(!watch(menu, menu, false, false, false).changed);
}

fn args(list: &[&str]) -> Vec<String> {
    list.iter().map(|arg| arg.to_string()).collect()
}

#[test]
fn arguments_have_defaults() {
    let launch = parse_args(&args(&[]));
    assert!(!launch.render && !launch.online);
    assert_eq!(launch.addr, "127.0.0.1:25565");
    assert_eq!((launch.username.as_str(), launch.seconds), ("Ferris", 35));
    let launch = parse_args(&args(&["online", "render", "host", "Ann", "7"]));
    assert!(launch.render && launch.online);
    assert_eq!(launch.addr, "host");
    assert_eq!((launch.username.as_str(), launch.seconds), ("Ann", 7));
    let launch = parse_args(&args(&["host", "render", "soon"]));
    assert!(!launch.render);
    assert_eq!((launch.username.as_str(), launch.seconds), ("render", 35));
}

#[test]
fn model_directories_are_searched_in_order() {
    assert_eq!(models_directory(true, &vec![true]), None);
    assert_eq!(models_directory(false, &vec![false, true, true]), Some(1));
    assert_eq!(models_directory(false, &vec![false, false, false]), None);
    assert_eq!(model_places(), ["resource_pack/models/entity", "models/entity", "entity"]);
    assert_eq!(model_file(), "cow.geo.json");
}

#[test]
fn addresses_and_numbers_are_parsed() {
    assert_eq!(split_host_port("example.org:1234"), ("example.org".to_string(), 1234));
    assert_eq!(split_host_port("example.org"), ("example.org".to_string(), 25565));
    assert_eq!(split_host_port("example.org:x"), ("example.org".to_string(), 25565));
    assert_eq!(split_host_port("a:b:70000"), ("a:b".to_string(), 25565));
    assert_eq!(parse_decimal("+7", 10), Some(7));
    assert_eq!(parse_decimal("11", 10), None);
    assert_eq!(parse_i32("-12"), Some(-12));
    assert_eq!(parse_i32("-"), None);
    assert_eq!(parse_i32("-+1"), None);
    assert_eq!(decimal_text(i64::MIN), i64::MIN.to_string());
}

const PLAYING: KeyContext = KeyContext {
    chat_open: false,
    book_open: false,
    anvil_open: false,
    item_screen_open: false,
    menu_open: false,
    container_open: false,
    recipes: false,
};

#[test]
fn the_mouse_goes_to_the_screen_on_top() {
    let left = |context, prompt| mouse_route(context, prompt, MouseKey::Left, true);
    assert_eq!(left(PLAYING, false), MouseRoute::Attack(true));
    assert_eq!(
        mouse_route(PLAYING, false, MouseKey::Right, false),
        MouseRoute::UseItem(false)
    );
    assert_eq!(mouse_route(PLAYING, false, MouseKey::Other, true), MouseRoute::Ignore);
    assert_eq!(left(PLAYING, true), MouseRoute::Prompt);
    assert_eq!(mouse_route(PLAYING, true, MouseKey::Right, true), MouseRoute::Ignore);
    let menu = KeyContext { menu_open: true, item_screen_open: true, ..PLAYING };
    assert_eq!(left(menu, false), MouseRoute::Menu);
    let items = KeyContext { item_screen_open: true, ..PLAYING };
    assert_eq!(left(items, false), MouseRoute::Items(0));
    assert_eq!(mouse_route(items, false, MouseKey::Right, true), MouseRoute::Items(1));
    assert_eq!(mouse_route(items, false, MouseKey::Right, false), MouseRoute::Ignore);
    let book = KeyContext { book_open: true, ..items };
    assert_eq!(left(book, false), MouseRoute::Book);
    assert_eq!(mouse_route(book, false, MouseKey::Right, true), MouseRoute::Items(1));
    assert!(is_held_still(items, false) && is_held_still(PLAYING, true));
    assert!(!is_held_still(PLAYING, false));
}

#[test]
fn the_wheel_goes_to_what_it_can_turn() {
    assert_eq!(wheel_route(PLAYING, true, true, Some(17)), WheelRoute::Hotbar);
    let chat = KeyContext { chat_open: true, ..PLAYING };
    assert_eq!(wheel_route(chat, false, false, None), WheelRoute::Ignore);
    let items = KeyContext { item_screen_open: true, recipes: true, ..PLAYING };
    assert_eq!(wheel_route(items, true, true, Some(17)), WheelRoute::Bundle);
    assert_eq!(wheel_route(items, false, true, Some(17)), WheelRoute::RecipeBook);
    assert_eq!(wheel_route(items, false, false, Some(17)), WheelRoute::Choices);
    assert_eq!(wheel_route(items, false, false, Some(23)), WheelRoute::Choices);
    assert_eq!(wheel_route(items, false, false, Some(2)), WheelRoute::Ignore);
    assert_eq!(wheel_route(items, false, false, None), WheelRoute::Ignore);
}

#[test]
fn books_show_their_buttons() {
    let mut book = writable("");
    assert_eq!(book.buttons(), vec![0, 1, 2, 3]);
    book.press(2);
    assert_eq!(book.buttons(), vec![4, 5]);
    let read = BookScreen::open("written_book", None, 0).unwrap();
    assert_eq!(read.buttons(), vec![0, 1, 3]);
}

#[test]
fn labels_tell_modes_and_pages() {
    let mut player = PlayerState::default();
    player.gamemode = 1;
    assert_eq!(mode_label(&player), "Mode 1  ");
    player.flying = true;
    player.gliding = true;
    assert_eq!(mode_label(&player), "Mode 1  Flying Gliding");
    player.swimming = true;
    assert_eq!(mode_label(&player), "Mode 1  Flying Swimming Gliding");
    assert_eq!(pages_label(0, 0), "1 / 1");
    assert_eq!(pages_label(2, 10), "3 / 11");
}

#[test]
fn listed_players_show_the_name_for_the_list() {
    let board = ScoreboardState::new();
    let mut entry = PlayerListEntry {
        name: "Steve".to_owned(),
        display_name: None,
        game_mode: 0,
        latency: 0,
        listed: true,
    };
    assert_eq!(player_label(&entry, &board), "Steve");
    entry.display_name = Some("The Builder".to_owned());
    assert_eq!(player_label(&entry, &board), "The Builder");
}
