//! Single packets, and the parts of the state that they reach.

use crabcraft::digging::{DigPacket, Digger};
use crabcraft::entities::{Angle, Entities, Entity, Equipment, Girth, Height, Velocity};
use crabcraft::items::{ItemDef, ItemRegistry, SlotItem};
use crabcraft::nbt::Nbt;
use crabcraft::overlays::{decode_game_state, decode_system_chat};
use crabcraft::particles::is_scattered;
use crabcraft::protocol::ProtocolVersion;
use crabcraft::recipe_book::RecipeBook;
use crabcraft::recipes::{CraftingRecipe, DeclaredRecipes, StonecutterRecipe};
use crabcraft::scoreboard::ScoreboardState;
use crabcraft::screens::{choices_per_page, LOOM_MENU, STONECUTTER_MENU};
use crabcraft::windows::{decode_open_screen_765, WindowSlot, Windows};
use crabcraft::wire::BlockPos;

fn put_varint(body: &mut Vec<u8>, value: i32) {
    let mut rest = value as u32;
    while rest >= 0x80 {
        body.push((rest & 0x7f) as u8 | 0x80);
        rest >>= 7;
    }
    body.push(rest as u8);
}

fn put_string(body: &mut Vec<u8>, text: &str) {
    put_varint(body, text.len() as i32);
    body.extend_from_slice(text.as_bytes());
}

fn put_nbt_string(body: &mut Vec<u8>, text: &str) {
    body.push(8);
    body.extend_from_slice(&(text.len() as u16).to_be_bytes());
    body.extend_from_slice(text.as_bytes());
}

/// A slot with one item that carries an integer under a name.
fn put_item(body: &mut Vec<u8>, item_id: i32, name: &str, value: i32) {
    body.push(1);
    put_varint(body, item_id);
    body.push(1);
    body.push(10);
    body.extend_from_slice(&[0, 0]);
    body.push(3);
    body.extend_from_slice(&(name.len() as u16).to_be_bytes());
    body.extend_from_slice(name.as_bytes());
    body.extend_from_slice(&value.to_be_bytes());
    body.push(0);
}

fn damage(tag: &Option<Nbt>) -> Option<i32> {
    match tag {
        Some(Nbt::Compound(tags)) => match tags.first() {
            Some(tag) if tag.name == "Damage" => match tag.value {
                Nbt::Int(value) => Some(value),
                _ => None,
            },
            _ => None,
        },
        _ => None,
    }
}

#[test]
fn system_messages_tell_overlays_apart() {
    let mut body = Vec::new();
    put_nbt_string(&mut body, "sleeping is not possible");
    body.push(1);
    assert_eq!(
        decode_system_chat(&body),
        Some(("sleeping is not possible".to_owned(), true))
    );
    body.pop();
    assert_eq!(decode_system_chat(&body), None);
    body.push(0);
    assert_eq!(decode_system_chat(&body).map(|(_, overlay)| overlay), Some(false));
}

#[test]
fn game_states_have_a_reason_and_a_value() {
    let mut body = vec![7];
    body.extend_from_slice(&0.5_f32.to_be_bytes());
    assert_eq!(decode_game_state(&body), Some((7, 0.5_f32.to_bits())));
    assert_eq!(decode_game_state(&body[..4]), None);
}

#[test]
fn opened_menus_name_their_kind() {
    let mut body = Vec::new();
    put_varint(&mut body, 3);
    put_varint(&mut body, 11);
    put_nbt_string(&mut body, "Crafting");
    assert_eq!(decode_open_screen_765(&body), Some((3, 11, "Crafting".to_owned())));
    assert_eq!(decode_open_screen_765(&body[..5]), None);
}

fn put_score(scoreboard: &mut ScoreboardState, objective: &str, name: &str, score: i32) {
    let mut body = Vec::new();
    put_string(&mut body, name);
    put_varint(&mut body, 0);
    put_string(&mut body, objective);
    put_varint(&mut body, score);
    assert!(scoreboard.handle_score(&body, ProtocolVersion::V1_20_1));
}

fn score(scoreboard: &ScoreboardState, objective: &str, name: &str) -> Option<i32> {
    let scores = scoreboard.scores.get(&objective.to_owned())?;
    scores.get(&name.to_owned()).copied()
}

#[test]
fn scores_are_reset_in_one_objective_or_in_all() {
    let mut scoreboard = ScoreboardState::new();
    for objective in ["kills", "deaths"] {
        put_score(&mut scoreboard, objective, "a", 1);
        put_score(&mut scoreboard, objective, "b", 2);
    }
    let mut one = Vec::new();
    put_string(&mut one, "a");
    one.push(1);
    put_string(&mut one, "kills");
    assert!(scoreboard.handle_reset_score_765(&one));
    assert_eq!(score(&scoreboard, "kills", "a"), None);
    assert_eq!(score(&scoreboard, "kills", "b"), Some(2));
    assert_eq!(score(&scoreboard, "deaths", "a"), Some(1));
    let mut all = Vec::new();
    put_string(&mut all, "b");
    all.push(0);
    assert!(scoreboard.handle_reset_score_765(&all));
    assert_eq!(score(&scoreboard, "kills", "b"), None);
    assert_eq!(score(&scoreboard, "deaths", "b"), None);
    assert_eq!(score(&scoreboard, "deaths", "a"), Some(1));
    assert!(!scoreboard.handle_reset_score_765(&one[..2]));
    assert_eq!(score(&scoreboard, "deaths", "a"), Some(1));
}

#[test]
fn snapshots_carry_the_data_of_items() {
    let mut windows = Windows::new();
    let mut body = vec![0];
    put_varint(&mut body, 4);
    put_varint(&mut body, 2);
    body.push(0);
    put_item(&mut body, 5, "Damage", 17);
    body.push(0);
    windows.capture_container_content_nbt(&body);
    assert_eq!(windows.inventory_nbt.len(), 46);
    assert_eq!(damage(&windows.inventory_nbt[0]), None);
    assert_eq!(damage(&windows.inventory_nbt[1]), Some(17));
    let before = damage(&windows.inventory_nbt[1]);
    windows.capture_container_content_nbt(&body[..6]);
    assert_eq!(damage(&windows.inventory_nbt[1]), before);
}

#[test]
fn updates_carry_the_data_of_an_item() {
    let mut windows = Windows::new();
    let mut body = vec![0];
    put_varint(&mut body, 4);
    body.extend_from_slice(&36_i16.to_be_bytes());
    put_item(&mut body, 5, "Damage", 3);
    windows.capture_container_slot_nbt(&body);
    assert_eq!(damage(&windows.inventory_nbt[36]), Some(3));
    let update = WindowSlot { window_id: 0, state_id: 0, slot: 36, item: None };
    windows.capture_slot_metadata(update, None);
    assert_eq!(damage(&windows.inventory_nbt[36]), None);
    windows.capture_content_metadata(0, vec![Some(Nbt::Int(1))]);
    assert!(matches!(windows.inventory_nbt[0], Some(Nbt::Int(1))));
    assert_eq!(windows.inventory_nbt.len(), 46);
    windows.set_player_slot(40, Some(SlotItem { item_id: 9, count: 2 }));
    windows.set_player_metadata(40, Some(Nbt::Int(6)));
    assert_eq!(windows.inventory[40], Some(SlotItem { item_id: 9, count: 2 }));
    assert!(matches!(windows.inventory_nbt[40], Some(Nbt::Int(6))));
    windows.set_player_slot(46, Some(SlotItem { item_id: 9, count: 2 }));
    windows.set_player_slot(-1, Some(SlotItem { item_id: 9, count: 2 }));
    assert_eq!(windows.inventory.iter().flatten().count(), 1);
}

#[test]
fn declared_recipes_replace_those_before() {
    let mut book = RecipeBook::new();
    let crafting = |id: &str| CraftingRecipe {
        id: id.to_owned(),
        width: 1,
        height: 1,
        ingredients: vec![vec![1]],
        result: Some(SlotItem { item_id: 2, count: 1 }),
    };
    let stonecutting = |id: &str| StonecutterRecipe {
        id: id.to_owned(),
        ingredients: vec![3],
        result: Some(SlotItem { item_id: 4, count: 2 }),
    };
    book.declare(DeclaredRecipes {
        crafting: vec![crafting("a"), crafting("b")],
        stonecutting: vec![stonecutting("c")],
    });
    book.declare(DeclaredRecipes {
        crafting: vec![crafting("d")],
        stonecutting: vec![],
    });
    assert_eq!(book.crafting.len(), 1);
    assert_eq!(book.crafting[0].id, "d");
    assert!(book.stonecutting.is_empty());
}

#[test]
fn entities_move_to_a_place_and_turn() {
    let mut entities = Entities::new();
    let entity = Entity {
        x: 0,
        y: 0,
        z: 0,
        girth: Girth::OfKind,
        height: Height::OfKind,
        type_id: 1,
        scale: 1,
        yaw: Angle::Step(3),
        head_yaw: Angle::Step(4),
        velocity: Velocity { x: 0, y: 0, z: 0 },
        equipment: Equipment {
            main_hand: None,
            off_hand: None,
            boots: None,
            leggings: None,
            chestplate: None,
            helmet: None,
        },
        vehicle: None,
        pose: 0,
        invisible: false,
        glowing: false,
        swing_sequence: 0,
        hurt_sequence: 0,
        item: None,
        block_state: None,
    };
    entities.entities.insert(7, entity);
    let point = (1.5_f64.to_bits(), 2.0_f64.to_bits(), (-3.0_f64).to_bits());
    entities.move_to(7, point, None);
    entities.move_to(8, point, Some(9));
    assert_eq!(entities.entities.len(), 1);
    let moved = entities.entities.get(&7).unwrap();
    assert_eq!((moved.x, moved.y, moved.z), point);
    assert_eq!(moved.yaw, Angle::Step(3));
    entities.move_to(7, point, Some(64));
    assert_eq!(entities.entities.get(&7).unwrap().yaw, Angle::Step(64));
}

#[test]
fn held_buttons_break_one_block_at_a_time() {
    let mut digger = Digger::new();
    let (one, two) = (BlockPos { x: 1, y: 2, z: 3 }, BlockPos { x: 1, y: 2, z: 4 });
    let packet =
        |status, block, sequence| Some(DigPacket { status, block, face: 1, sequence });
    assert_eq!(digger.hold(Some((one, 1)), Some(2), false).second, packet(0, one, 1));
    assert!(digger.is_digging(one));
    let step = digger.hold(Some((two, 1)), Some(2), false);
    assert_eq!((step.first, step.second), (packet(1, one, 2), packet(0, two, 3)));
    assert_eq!(digger.hold(Some((two, 1)), Some(2), false).broken, None);
    let step = digger.hold(Some((two, 1)), Some(2), false);
    assert_eq!((step.first, step.broken), (packet(2, two, 4), Some(two)));
    digger.hold(Some((one, 1)), Some(9), false);
    assert_eq!(digger.hold(None, None, false).first, packet(1, one, 6));
    assert_eq!(digger.hold(None, None, false).first, None);
}

#[test]
fn menus_of_choices_have_pages() {
    assert_eq!(choices_per_page(LOOM_MENU), 16);
    assert_eq!(choices_per_page(STONECUTTER_MENU), 12);
}

#[test]
fn single_particles_stay_where_they_are() {
    assert!(!is_scattered(0));
    assert!(is_scattered(1));
}

#[test]
fn slots_hold_items_by_name() {
    let items = ItemRegistry {
        items: vec![
            ItemDef { name: "air".to_owned(), stack_size: 64, block_state: Some(0) },
            ItemDef { name: "elytra".to_owned(), stack_size: 1, block_state: None },
        ],
    };
    let mut slots = vec![None; 46];
    assert!(!items.slot_holds(&slots, 6, "elytra"));
    slots[6] = Some(SlotItem { item_id: 1, count: 1 });
    assert!(items.slot_holds(&slots, 6, "elytra"));
    assert!(!items.slot_holds(&slots, 7, "elytra"));
    assert!(!items.slot_holds(&slots, 46, "elytra"));
}
