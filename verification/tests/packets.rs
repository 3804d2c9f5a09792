//! Packets of the server and the state that they lead to.

use crabcraft::bits::{clamp_unit, is_at_most, is_less, to_byte};
use crabcraft::chunks::{
    chunk_of, decode_block_change, decode_unload_chunk, face_direction, DirtyChunks,
};
use crabcraft::component::plain_text;
use crabcraft::effects::{
    effect_level, handle_entity_effect, handle_remove_effect, icon_ids, tick_effects,
    ActiveEffect, Effects,
};
use crabcraft::entities::{
    decode_rel_move, Angle, Entities, Entity, EntityRegistry, Equipment, Girth, Height, Velocity,
};
use crabcraft::join::decode_join_game;
use crabcraft::looks::{looks, ItemLook, Looks, Motions};
use crabcraft::maps::{map_pixel_color, pixel_runs, MapState, Maps, PixelRun};
use crabcraft::metadata::{decode_equipment, pose_metadata_type, MetaChange};
use crabcraft::nbt::{read_anonymous_nbt, read_nbt, NamedTag, Nbt};
use crabcraft::overlays::{
    handle_boss_bar, notch_count, push_chat, shown_bars, tick_of_day, BossBarState, BossBars,
    EnvironmentState, Messages, TitleState,
};
use crabcraft::particles::{decode_particles, excess, jitter, lifetime, spawn_count, spread};
use crabcraft::play::Play;
use crabcraft::player::{correction, PlayerState};
use crabcraft::players::{list_grid, PlayerListState};
use crabcraft::protocol::ProtocolVersion;
use crabcraft::recipe_book::{parse_recipe_book_add, RecipeBook};
use crabcraft::recipes::parse_declared_recipes;
use crabcraft::registries::{
    merge_registry_data_766, registry_name_by_id, RegistryData, RegistryEntry,
};
use crabcraft::scoreboard::ScoreboardState;
use crabcraft::signs::{read_chunk_signs, sign_from_nbt, SignState, Signs};
use crabcraft::slots::{FedSlot, Outcome};
use crabcraft::items::{ItemDef, ItemRegistry, SlotItem};
use crabcraft::sounds::{decode_sound, protocol_number, SoundSource};
use crabcraft::table::Table;
use crabcraft::uuids::offline_uuid;
use crabcraft::wire::{BlockPos, Reader};

fn slot(item_id: i32, count: i8) -> Option<SlotItem> {
    Some(SlotItem { item_id, count })
}

fn put_varint(body: &mut Vec<u8>, value: i32) {
    let mut rest = value as u32;
    while rest >= 0x80 {
        body.push((rest & 0x7f) as u8 | 0x80);
        rest >>= 7;
    }
    body.push(rest as u8);
}

fn put_string(body: &mut Vec<u8>, text: &str) {
    put_varint(body, text.len() as i32);
    body.extend_from_slice(text.as_bytes());
}

fn put_bool(body: &mut Vec<u8>, value: bool) {
    body.push(u8::from(value));
}

fn put_i32(body: &mut Vec<u8>, value: i32) {
    body.extend_from_slice(&value.to_be_bytes());
}

fn put_i64(body: &mut Vec<u8>, value: i64) {
    body.extend_from_slice(&value.to_be_bytes());
}

fn put_position(body: &mut Vec<u8>, x: i64, y: i64, z: i64) {
    let packed = ((x & 0x3ff_ffff) << 38) | ((z & 0x3ff_ffff) << 12) | (y & 0xfff);
    put_i64(body, packed);
}

fn put_nbt_string(body: &mut Vec<u8>, text: &str) {
    body.push(8);
    body.extend_from_slice(&(text.len() as u16).to_be_bytes());
    body.extend_from_slice(text.as_bytes());
}

fn tag(name: &str, value: Nbt) -> NamedTag {
    NamedTag { name: name.to_string(), value }
}

#[test]
fn join_game_764_reads_configuration_era_field_order() {
    let mut body = Vec::new();
    put_i32(&mut body, 1234);
    put_bool(&mut body, false);
    put_varint(&mut body, 1);
    put_string(&mut body, "minecraft:overworld");
    put_varint(&mut body, 20);
    put_varint(&mut body, 12);
    put_varint(&mut body, 8);
    put_bool(&mut body, false);
    put_bool(&mut body, true);
    put_bool(&mut body, false);
    put_string(&mut body, "minecraft:overworld");
    put_string(&mut body, "minecraft:overworld");
    put_i64(&mut body, 42);
    body.push(1);
    body.push((-1_i8) as u8);
    put_bool(&mut body, false);
    put_bool(&mut body, false);
    put_bool(&mut body, false);
    put_varint(&mut body, 0);

    let join = decode_join_game(&body, ProtocolVersion::V1_20_2, None).unwrap();
    let mut player = PlayerState::default();
    player.join(join.entity_id, join.game_mode);
    assert_eq!(player.entity_id, 1234);
    assert_eq!(player.gamemode, 1);
    assert_eq!(join.dimension_type, "minecraft:overworld");
    assert!(join.codec.is_none());
    assert!(decode_join_game(&body[..40], ProtocolVersion::V1_20_2, None).is_none());

    let mut play = Play::new(None, false);
    assert!(play.handle_join_game(&body[..40], ProtocolVersion::V1_20_2, None).is_none());
    assert_eq!((play.player.entity_id, play.player.gamemode), (0, 0));
    let joined = play.handle_join_game(&body, ProtocolVersion::V1_20_2, None).unwrap();
    assert_eq!(joined.dimension_type, "minecraft:overworld");
    assert_eq!(play.player.entity_id, 1234);
    assert_eq!(play.player.gamemode, 1);
}

fn join_766(dimension: i32) -> Vec<u8> {
    let mut body = Vec::new();
    put_i32(&mut body, 9);
    put_bool(&mut body, false);
    put_varint(&mut body, 0);
    put_varint(&mut body, 20);
    put_varint(&mut body, 12);
    put_varint(&mut body, 8);
    body.extend_from_slice(&[0, 1, 0]);
    put_varint(&mut body, dimension);
    put_string(&mut body, "minecraft:overworld");
    put_i64(&mut body, 42);
    body.extend_from_slice(&[3, 0xff, 0, 0]);
    put_bool(&mut body, true);
    put_string(&mut body, "minecraft:the_end");
    put_position(&mut body, 1, 2, 3);
    put_varint(&mut body, 0);
    put_bool(&mut body, false);
    body
}

#[test]
fn dimensions_are_found_by_their_numbers() {
    let dimensions = RegistryData {
        id: "minecraft:dimension_type".to_string(),
        entries: vec![
            RegistryEntry { name: "minecraft:overworld".to_string(), element: None },
            RegistryEntry { name: "minecraft:the_nether".to_string(), element: Some(Nbt::Int(1)) },
        ],
    };
    let biomes = RegistryData {
        id: "minecraft:biome".to_string(),
        entries: vec![RegistryEntry { name: "minecraft:plains".to_string(), element: None }],
    };
    let codec = merge_registry_data_766(None, dimensions);
    let codec = merge_registry_data_766(Some(codec), biomes);
    assert_eq!(
        registry_name_by_id(&codec, "minecraft:dimension_type", 1).as_deref(),
        Some("minecraft:the_nether")
    );
    assert_eq!(
        registry_name_by_id(&codec, "minecraft:biome", 0).as_deref(),
        Some("minecraft:plains")
    );
    assert_eq!(registry_name_by_id(&codec, "minecraft:biome", 1), None);

    let join = decode_join_game(&join_766(1), ProtocolVersion::V1_21, Some(&codec)).unwrap();
    assert_eq!(join.dimension_type, "minecraft:the_nether");
    assert_eq!((join.entity_id, join.game_mode), (9, 3));
    let join = decode_join_game(&join_766(7), ProtocolVersion::V1_21, Some(&codec)).unwrap();
    assert_eq!(join.dimension_type, "minecraft:overworld");

    let again = RegistryData {
        id: "minecraft:biome".to_string(),
        entries: vec![RegistryEntry { name: "minecraft:desert".to_string(), element: None }],
    };
    let codec = merge_registry_data_766(Some(codec), again);
    assert_eq!(
        registry_name_by_id(&codec, "minecraft:biome", 0).as_deref(),
        Some("minecraft:desert")
    );
}

#[test]
fn the_oldest_join_carries_its_registries() {
    let mut body = Vec::new();
    put_i32(&mut body, 5);
    body.extend_from_slice(&[0, 2, 0xff, 0]);
    body.extend_from_slice(&[10, 0, 0, 0]);
    put_string(&mut body, "minecraft:overworld");
    let join = decode_join_game(&body, ProtocolVersion::V1_20_1, None).unwrap();
    assert_eq!((join.entity_id, join.game_mode), (5, 2));
    assert!(matches!(join.codec, Some(Nbt::Compound(tags)) if tags.is_empty()));
}

#[test]
fn teams_765_apply_nbt_prefixes_and_suffixes_to_names() {
    let mut scoreboard = ScoreboardState::new();
    let mut body = Vec::new();
    put_string(&mut body, "builders");
    body.push(0);
    put_nbt_string(&mut body, "Builders");
    body.push(3);
    put_string(&mut body, "always");
    put_string(&mut body, "always");
    put_varint(&mut body, 10);
    put_nbt_string(&mut body, "[");
    put_nbt_string(&mut body, "]");
    put_varint(&mut body, 1);
    put_string(&mut body, "Ferris");

    scoreboard.handle_team_packet(&body, ProtocolVersion::V1_20_3);
    assert_eq!(scoreboard.decorated_name("Ferris"), "[Ferris]");
    assert_eq!(scoreboard.decorated_name("Notch"), "Notch");

    let mut leave = Vec::new();
    put_string(&mut leave, "builders");
    leave.push(4);
    put_varint(&mut leave, 1);
    put_string(&mut leave, "Ferris");
    scoreboard.handle_team_packet(&leave, ProtocolVersion::V1_20_3);
    assert_eq!(scoreboard.decorated_name("Ferris"), "Ferris");
}

#[test]
fn sidebars_show_the_highest_scores_first() {
    let mut scoreboard = ScoreboardState::new();
    let mut objective = Vec::new();
    put_string(&mut objective, "kills");
    objective.push(0);
    put_string(&mut objective, r#"{"text":"Kills"}"#);
    put_varint(&mut objective, 0);
    assert!(scoreboard.handle_objective(&objective, ProtocolVersion::V1_20_1));
    let mut display = vec![1];
    put_string(&mut display, "kills");
    scoreboard.handle_display(&display);
    for (name, score) in [("b", 3), ("a", 3), ("c", 9)] {
        let mut body = Vec::new();
        put_string(&mut body, name);
        put_varint(&mut body, 0);
        put_string(&mut body, "kills");
        put_varint(&mut body, score);
        assert!(scoreboard.handle_score(&body, ProtocolVersion::V1_20_1));
    }
    let (title, rows) = scoreboard.sidebar_rows().unwrap();
    assert_eq!(title, "Kills");
    let rows: Vec<(&str, i32)> = rows.iter().map(|row| (row.name.as_str(), row.score)).collect();
    assert_eq!(rows, vec![("c", 9), ("a", 3), ("b", 3)]);
}

#[test]
fn offline_uuid_matches_java_name_uuid() {
    let uuid = offline_uuid("Notch");
    assert_eq!(uuid.high, 0xb50a_d385_829d_3141);
    assert_eq!(uuid.low, 0xa216_7e7d_7539_ba7f);
    assert_eq!(
        uuid::Uuid::from_u64_pair(uuid.high, uuid.low).to_string(),
        "b50ad385-829d-3141-a216-7e7d7539ba7f"
    );
}

fn kinds() -> EntityRegistry {
    EntityRegistry {
        names: vec!["falling_block".to_string(), "slime".to_string(), "boat".to_string()],
        block_states: 100,
    }
}

#[test]
fn falling_block_spawn_data_is_validated_by_entity_type_and_registry() {
    let registry = kinds();
    assert_eq!(registry.spawned_block_state(0, 1), Some(1));
    assert_eq!(registry.spawned_block_state(1, 1), None);
    assert_eq!(registry.spawned_block_state(0, -1), None);
    assert_eq!(registry.spawned_block_state(0, i32::MAX), None);
    assert_eq!(registry.spawned_block_state(-1, 1), None);
}

#[test]
fn component_era_metadata_uses_shifted_pose_serializer() {
    assert_eq!(pose_metadata_type(ProtocolVersion::V1_20_1), 20);
    assert_eq!(pose_metadata_type(ProtocolVersion::V1_20_3), 20);
    assert_eq!(pose_metadata_type(ProtocolVersion::V1_20_5), 21);
    assert_eq!(pose_metadata_type(ProtocolVersion::V1_21), 21);
}

fn entity(x: f64, y: f64, z: f64) -> Entity {
    Entity {
        x: x.to_bits(),
        y: y.to_bits(),
        z: z.to_bits(),
        girth: Girth::OfKind,
        height: Height::OfKind,
        type_id: 1,
        scale: 1,
        yaw: Angle::Step(64),
        head_yaw: Angle::Step(64),
        velocity: Velocity { x: 0, y: 0, z: 0 },
        equipment: Equipment {
            main_hand: None,
            off_hand: None,
            boots: None,
            leggings: None,
            chestplate: None,
            helmet: None,
        },
        vehicle: None,
        pose: 0,
        invisible: false,
        glowing: false,
        swing_sequence: 0,
        hurt_sequence: 0,
        item: None,
        block_state: None,
    }
}

fn passengers(vehicle: i32, list: &[i32]) -> Vec<u8> {
    let mut body = Vec::new();
    put_varint(&mut body, vehicle);
    put_varint(&mut body, list.len() as i32);
    for &passenger in list {
        put_varint(&mut body, passenger);
    }
    body
}

#[test]
fn passenger_updates_mount_and_dismount_the_local_player() {
    let mut player = PlayerState::default();
    player.entity_id = 42;
    let mut entities = Entities::new();
    entities.entities.insert(7, entity(5.0, 63.0, -2.0));

    assert_eq!(entities.handle_set_passengers(&passengers(7, &[42]), &mut player), Some(7));
    assert_eq!(player.vehicle, Some(7));
    assert_eq!((f64::from_bits(player.x), f64::from_bits(player.z)), (5.0, -2.0));

    assert_eq!(entities.handle_set_passengers(&passengers(7, &[]), &mut player), None);
    assert_eq!(player.vehicle, None);
}

#[test]
fn other_entities_ride_and_leave() {
    let mut player = PlayerState::default();
    let mut entities = Entities::new();
    entities.entities.insert(7, entity(0.0, 0.0, 0.0));
    entities.entities.insert(8, entity(0.0, 0.0, 0.0));
    entities.handle_set_passengers(&passengers(7, &[8]), &mut player);
    assert_eq!(entities.entities.get(&8).unwrap().vehicle, Some(7));
    entities.handle_set_passengers(&passengers(7, &[]), &mut player);
    assert_eq!(entities.entities.get(&8).unwrap().vehicle, None);
}

#[test]
fn removed_vehicles_let_the_player_go() {
    let mut player = PlayerState::default();
    player.vehicle = Some(7);
    let mut entities = Entities::new();
    entities.entities.insert(7, entity(0.0, 0.0, 0.0));
    entities.entities.insert(8, entity(0.0, 0.0, 0.0));
    entities.handle_entity_destroy(&[3, 7], &mut player);
    assert!(entities.entities.get(&7).is_none());
    assert_eq!(player.vehicle, Some(7));
    entities.handle_entity_destroy(&[1, 7], &mut player);
    assert_eq!(player.vehicle, None);
    assert_eq!(entities.entities.len(), 1);
    entities.clear();
    assert_eq!(entities.entities.len(), 0);
}

fn spawn_body(id: i32, kind: i32, data: i32) -> Vec<u8> {
    let mut body = Vec::new();
    put_varint(&mut body, id);
    body.extend_from_slice(&[0; 16]);
    put_varint(&mut body, kind);
    for value in [1.5f64, 64.0, -3.25] {
        body.extend_from_slice(&value.to_be_bytes());
    }
    body.extend_from_slice(&[1, 2, 3]);
    put_varint(&mut body, data);
    body.extend_from_slice(&[0, 4, 0xff, 0xff, 0, 0]);
    body
}

#[test]
fn spawned_entities_keep_what_the_packet_says() {
    let mut entities = Entities::new();
    entities.handle_spawn_object(&spawn_body(11, 0, 5), &kinds());
    let spawned = *entities.entities.get(&11).unwrap();
    assert_eq!(f64::from_bits(spawned.x), 1.5);
    assert_eq!(f64::from_bits(spawned.z), -3.25);
    assert_eq!((spawned.yaw, spawned.head_yaw), (Angle::Step(2), Angle::Step(3)));
    assert_eq!(spawned.velocity, Velocity { x: 4, y: -1, z: 0 });
    assert_eq!(spawned.block_state, Some(5));
    assert_eq!((spawned.girth, spawned.height), (Girth::OfKind, Height::OfKind));
    entities.handle_spawn_object(&spawn_body(12, 99, 5), &kinds());
    assert_eq!(entities.entities.get(&12).unwrap().height, Height::Unknown);

    let mut body = vec![13];
    body.extend_from_slice(&[0; 16]);
    body.extend_from_slice(&[0; 24]);
    body.push(9);
    entities.handle_spawn_player(&body);
    assert_eq!(entities.entities.get(&13).unwrap().type_id, 122);

    entities.handle_entity_head_rotation(&[13, 200]);
    assert_eq!(entities.entities.get(&13).unwrap().head_yaw, Angle::Step(200));
    assert_eq!(entities.handle_entity_rotation(&[13, 100, 0]), Some(13));
    assert_eq!(entities.entities.get(&13).unwrap().yaw, Angle::Step(100));
    entities.handle_entity_velocity(&[13, 0, 1, 0, 2, 0, 3]);
    assert_eq!(
        entities.entities.get(&13).unwrap().velocity,
        Velocity { x: 1, y: 2, z: 3 }
    );
    entities.handle_animation(&[13, 3]);
    entities.handle_animation(&[13, 1]);
    entities.handle_hurt(&[13]);
    let seen = *entities.entities.get(&13).unwrap();
    assert_eq!((seen.swing_sequence, seen.hurt_sequence), (1, 1));
}

#[test]
fn moves_are_read_in_steps() {
    let step = decode_rel_move(&[13, 0x10, 0, 0xf0, 0, 0, 1, 77, 0], true).unwrap();
    assert_eq!((step.dx, step.dy, step.dz), (4096, -4096, 1));
    assert_eq!(step.yaw, Some(77));
    assert!(decode_rel_move(&[13, 0x10, 0, 0xf0, 0, 0, 1], true).is_none());
    let step = decode_rel_move(&[13, 0x10, 0, 0xf0, 0, 0, 1], false).unwrap();
    assert_eq!(step.yaw, None);

    let mut entities = Entities::new();
    entities.entities.insert(13, entity(1.0, 2.0, 3.0));
    let mut body = vec![13];
    for value in [8.0f64, 9.0, 10.0] {
        body.extend_from_slice(&value.to_be_bytes());
    }
    body.push(5);
    entities.handle_entity_teleport(&body);
    let moved = *entities.entities.get(&13).unwrap();
    assert_eq!(f64::from_bits(moved.y), 9.0);
    assert_eq!(moved.yaw, Angle::Step(5));

    let mut player = PlayerState::default();
    let mut body = Vec::new();
    for value in [1.0f64, 2.0, 3.0] {
        body.extend_from_slice(&value.to_be_bytes());
    }
    body.extend_from_slice(&45.0f32.to_be_bytes());
    body.extend_from_slice(&10.0f32.to_be_bytes());
    assert_eq!(entities.handle_vehicle_move(&body, &mut player), None);
    player.vehicle = Some(13);
    assert_eq!(entities.handle_vehicle_move(&body, &mut player), Some(13));
    assert_eq!(f64::from_bits(player.x), 1.0);
    assert_eq!(f32::from_bits(player.pitch), 10.0);
    assert_eq!(
        entities.entities.get(&13).unwrap().yaw,
        Angle::Degrees(45.0f32.to_bits())
    );
}

#[test]
fn metadata_changes_looks() {
    let registry = kinds();
    let mut entities = Entities::new();
    entities.entities.insert(4, entity(0.0, 0.0, 0.0));
    let none: Vec<FedSlot> = Vec::new();
    // Flags, a custom name, a size, a pose, the end.
    let body = [4, 0, 0, 0x60, 2, 6, 0, 16, 1, 3, 6, 20, 5, 0xff];
    let read = entities
        .decode_metadata(&body, ProtocolVersion::V1_20_1, &registry, &none)
        .unwrap();
    assert_eq!(
        read.changes,
        vec![MetaChange::Flags(true, true), MetaChange::Size(3), MetaChange::Pose(5)]
    );
    assert_eq!(read.need, None);
    entities.apply_metadata(4, &read.changes, &registry);
    let seen = *entities.entities.get(&4).unwrap();
    assert!(seen.invisible && seen.glowing);
    assert_eq!((seen.scale, seen.girth, seen.height), (3, Girth::Slime(3), Height::Crouching));

    // A stack of data components is asked for; what came before it counts.
    let body = [4, 0, 0, 0x20, 8, 7, 0xaa, 0xff];
    let read = entities
        .decode_metadata(&body, ProtocolVersion::V1_21, &registry, &none)
        .unwrap();
    assert_eq!(read.changes, vec![MetaChange::Flags(true, false)]);
    assert_eq!(read.need, Some(2));
    let fed = vec![FedSlot { item: slot(9, 1), metadata: None, used: 1 }];
    let read = entities
        .decode_metadata(&body, ProtocolVersion::V1_21, &registry, &fed)
        .unwrap();
    assert_eq!(
        read.changes,
        vec![MetaChange::Flags(true, false), MetaChange::Item(Some(9))]
    );
    assert_eq!(read.need, None);
}

#[test]
fn equipment_goes_to_its_slots() {
    let mut entities = Entities::new();
    entities.entities.insert(4, entity(0.0, 0.0, 0.0));
    // A sword in the main hand, and nothing on the head.
    let body = [4, 0x80, 1, 7, 1, 0, 5, 0];
    let none: Vec<FedSlot> = Vec::new();
    match decode_equipment(&body, ProtocolVersion::V1_20_1, &none) {
        Outcome::Done((id, pieces)) => {
            assert_eq!(pieces, vec![(0, Some(7)), (5, None)]);
            entities.apply_equipment(id, &pieces);
        }
        _ => panic!("the packet is complete"),
    }
    assert_eq!(entities.entities.get(&4).unwrap().equipment.main_hand, Some(7));
    assert!(matches!(
        decode_equipment(&body[..3], ProtocolVersion::V1_20_1, &none),
        Outcome::Malformed
    ));
}

#[test]
fn declared_recipes_extract_stonecutter_inputs_and_results() {
    let mut body = Vec::new();
    put_varint(&mut body, 3);
    put_string(&mut body, "minecraft:crafting_special_repairitem");
    put_string(&mut body, "minecraft:repair");
    put_varint(&mut body, 0);
    put_string(&mut body, "minecraft:crafting_shapeless");
    put_string(&mut body, "minecraft:test_planks");
    put_string(&mut body, "");
    put_varint(&mut body, 0);
    put_varint(&mut body, 1);
    put_varint(&mut body, 1);
    put_bool(&mut body, true);
    put_varint(&mut body, 12);
    body.push(1);
    body.push(0);
    put_bool(&mut body, true);
    put_varint(&mut body, 13);
    body.push(4);
    body.push(0);
    put_string(&mut body, "minecraft:stonecutting");
    put_string(&mut body, "minecraft:stone_slab_from_stone_stonecutting");
    put_string(&mut body, "");
    put_varint(&mut body, 1);
    put_bool(&mut body, true);
    put_varint(&mut body, 1);
    body.push(1);
    body.push(0);
    put_bool(&mut body, true);
    put_varint(&mut body, 53);
    body.push(2);
    body.push(0);

    let none: Vec<FedSlot> = Vec::new();
    let recipes = match parse_declared_recipes(&body, ProtocolVersion::V1_20_1, &none) {
        Outcome::Done(recipes) => recipes,
        _ => panic!("the packet is complete"),
    };
    assert_eq!(recipes.stonecutting.len(), 1);
    assert_eq!(recipes.stonecutting[0].ingredients, vec![1]);
    assert_eq!(recipes.stonecutting[0].result, slot(53, 2));
    assert_eq!(recipes.crafting.len(), 1);
    assert_eq!(recipes.crafting[0].id, "minecraft:test_planks");
    assert_eq!(recipes.crafting[0].ingredients, vec![vec![12]]);
    assert_eq!(recipes.crafting[0].result, slot(13, 4));
}

#[test]
fn component_recipes_ask_for_their_stacks() {
    // One shaped recipe of one by one: an ingredient, a result, a flag.
    let mut body = vec![1];
    put_string(&mut body, "minecraft:one");
    body.extend_from_slice(&[0, 0, 0, 1, 1, 1, 0xaa, 0xbb, 1]);
    let mut fed = Vec::new();
    assert!(matches!(
        parse_declared_recipes(&body, ProtocolVersion::V1_20_5, &fed),
        Outcome::NeedSlot(3)
    ));
    fed.push(FedSlot { item: slot(5, 1), metadata: None, used: 1 });
    assert!(matches!(
        parse_declared_recipes(&body, ProtocolVersion::V1_20_5, &fed),
        Outcome::NeedSlot(2)
    ));
    fed.push(FedSlot { item: slot(6, 1), metadata: None, used: 1 });
    match parse_declared_recipes(&body, ProtocolVersion::V1_20_5, &fed) {
        Outcome::Done(recipes) => {
            assert_eq!((recipes.crafting[0].width, recipes.crafting[0].height), (1, 1));
            assert_eq!(recipes.crafting[0].ingredients, vec![vec![5]]);
            assert_eq!(recipes.crafting[0].result, slot(6, 1));
        }
        _ => panic!("the packet is complete"),
    }
    let mut unknown = vec![1];
    put_string(&mut unknown, "minecraft:one");
    unknown.push(23);
    assert!(matches!(
        parse_declared_recipes(&unknown, ProtocolVersion::V1_20_5, &fed),
        Outcome::Malformed
    ));
}

#[test]
fn protocol_768_recipe_book_displays_feed_existing_recipe_ui() {
    let mut book = RecipeBook::new();
    let mut body = Vec::new();
    put_varint(&mut body, 2);

    put_varint(&mut body, 17);
    put_varint(&mut body, 1);
    put_varint(&mut body, 2);
    put_varint(&mut body, 1);
    put_varint(&mut body, 2);
    put_varint(&mut body, 2);
    put_varint(&mut body, 1);
    put_varint(&mut body, 2);
    put_varint(&mut body, 2);
    put_varint(&mut body, 2);
    put_varint(&mut body, 3);
    put_varint(&mut body, 0);
    put_varint(&mut body, 0);
    put_varint(&mut body, 0);
    put_bool(&mut body, false);
    body.push(0);

    put_varint(&mut body, 18);
    put_varint(&mut body, 3);
    put_varint(&mut body, 7);
    put_varint(&mut body, 2);
    put_varint(&mut body, 2);
    put_varint(&mut body, 4);
    put_varint(&mut body, 2);
    put_varint(&mut body, 5);
    put_varint(&mut body, 2);
    put_varint(&mut body, 6);
    put_varint(&mut body, 0);
    put_varint(&mut body, 0);
    put_varint(&mut body, 10);
    put_bool(&mut body, false);
    body.push(0);
    put_bool(&mut body, true);

    let none: Vec<FedSlot> = Vec::new();
    match parse_recipe_book_add(&body, &none) {
        Outcome::Done(added) => book.handle_recipe_book_add_768(added),
        _ => panic!("the packet is complete"),
    }
    assert_eq!(book.crafting.len(), 1);
    assert_eq!(book.crafting[0].id, "17");
    assert_eq!(book.crafting[0].width, 2);
    assert_eq!(book.crafting[0].ingredients, vec![vec![1], vec![2]]);
    assert_eq!(book.crafting[0].result, slot(3, 1));
    assert_eq!(book.stonecutting.len(), 1);
    assert_eq!(book.stonecutting[0].id, "18");
    assert_eq!(book.stonecutting[0].ingredients, vec![4, 5]);
    assert_eq!(book.stonecutting[0].result, slot(6, 1));
    assert_eq!(book.unlocked.items.len(), 2);

    let mut remove = Vec::new();
    put_varint(&mut remove, 1);
    put_varint(&mut remove, 17);
    assert!(book.handle_recipe_book_remove_768(&remove));
    assert!(book.crafting.is_empty());
    assert_eq!(book.stonecutting.len(), 1);
}

#[test]
fn composite_displays_are_sorted_without_repeats() {
    // One stonecutter recipe whose ingredient is made of 9, 4 and 9.
    let body = [1, 1, 3, 7, 3, 2, 9, 2, 4, 2, 9, 0, 0, 0, 0, 0, 0, 1];
    let none: Vec<FedSlot> = Vec::new();
    match parse_recipe_book_add(&body, &none) {
        Outcome::Done(added) => {
            assert_eq!(added.recipes.stonecutting[0].ingredients, vec![4, 9]);
            assert_eq!(added.recipes.stonecutting[0].result, None);
            assert!(added.replace);
        }
        _ => panic!("the packet is complete"),
    }
    // A display that nests too deeply.
    let mut deep = vec![1, 1, 3];
    deep.extend_from_slice(&[6; 40]);
    assert!(matches!(parse_recipe_book_add(&deep, &none), Outcome::Malformed));
}

#[test]
fn recipes_are_unlocked_and_locked() {
    let mut book = RecipeBook::new();
    let message = |action: u8| {
        let mut body = vec![action];
        body.extend_from_slice(&[0; 8]);
        body.push(2);
        put_string(&mut body, "a");
        put_string(&mut body, "b");
        if action == 0 {
            body.push(0);
        }
        body
    };
    book.handle_unlock_recipes(&message(1));
    assert_eq!(book.unlocked.items, vec!["a", "b"]);
    book.handle_unlock_recipes(&message(2));
    assert!(book.unlocked.items.is_empty());
    book.handle_unlock_recipes(&message(0));
    assert_eq!(book.unlocked.items.len(), 2);
    book.handle_unlock_recipes(&message(3));
    assert_eq!(book.unlocked.items.len(), 2);
}

#[test]
fn map_packets_apply_partial_pixels_and_markers() {
    let mut maps = Maps::new();
    let mut body = Vec::new();
    put_varint(&mut body, 7);
    body.push(2);
    put_bool(&mut body, true);
    put_bool(&mut body, true);
    put_varint(&mut body, 1);
    put_varint(&mut body, 0);
    body.push(10);
    body.push((-12_i8) as u8);
    body.push(3);
    put_bool(&mut body, true);
    put_string(&mut body, r#"{"text":"Home"}"#);
    body.push(2);
    body.push(2);
    body.push(4);
    body.push(5);
    put_varint(&mut body, 4);
    body.extend_from_slice(&[4, 8, 12, 16]);

    maps.handle_map_data(&body, ProtocolVersion::V1_20_1);
    let map = maps.maps.get(&7).unwrap();
    assert_eq!((map.scale, map.locked), (2, true));
    assert_eq!(map.markers[0].label.as_deref(), Some("Home"));
    assert_eq!(&map.colors[5 * 128 + 4..5 * 128 + 6], &[4, 8]);
    assert_eq!(&map.colors[6 * 128 + 4..6 * 128 + 6], &[12, 16]);
    assert_eq!(maps.latest, Some(7));

    // A patch beyond the edge is ignored with all the rest.
    maps.handle_map_data(&[8, 0, 0, 0, 2, 1, 127, 0, 2, 1, 1], ProtocolVersion::V1_20_1);
    assert!(maps.maps.get(&8).is_none());
    assert_eq!(maps.latest, Some(7));
}

#[test]
fn map_rows_are_drawn_in_runs() {
    let mut map = MapState::default();
    map.colors[0] = 6;
    assert!(map.markers.is_empty());
    let runs = pixel_runs(&map.colors, 0);
    assert_eq!(
        runs,
        vec![
            PixelRun { start: 0, end: 1, color: 6 },
            PixelRun { start: 1, end: 128, color: 0 }
        ]
    );
    assert!(map_pixel_color(6).is_some());
    assert!(map_pixel_color(0).is_none());
}

#[test]
fn map_colours_have_a_base_and_a_shade() {
    assert_eq!(map_pixel_color(6), Some((0x7fb238, 255)));
    assert_eq!(map_pixel_color(4), Some((0x7fb238, 180)));
    assert_eq!(map_pixel_color(143), Some((0x700200, 135)));
    let hue = 36u32.wrapping_mul(0x045d_9f3b);
    assert_eq!(map_pixel_color(145), Some((0x404040 | (hue & 0xbfbfbf), 220)));
}

#[test]
fn maps_are_drawn_while_a_hand_holds_one() {
    let registry = ItemRegistry {
        items: vec![
            ItemDef { name: "air".to_string(), stack_size: 64, block_state: None },
            ItemDef { name: "filled_map".to_string(), stack_size: 64, block_state: None },
        ],
    };
    let mut maps = Maps::new();
    maps.handle_map_data(&[7, 0, 0, 0, 0], ProtocolVersion::V1_20_1);
    let mut inventory = vec![None; 46];
    assert!(maps.held_map(&registry, &inventory, 2).is_none());
    inventory[38] = slot(1, 1);
    assert!(maps.held_map(&registry, &inventory, 2).is_some());
    assert!(maps.held_map(&registry, &inventory, 3).is_none());
    inventory[45] = slot(1, 1);
    assert!(maps.held_map(&registry, &inventory, 3).is_some());
}

fn side(messages: [&str; 4], glowing: i8) -> Nbt {
    Nbt::Compound(vec![
        tag(
            "messages",
            Nbt::List(messages.iter().map(|text| Nbt::String(text.to_string())).collect()),
        ),
        tag("has_glowing_text", Nbt::Byte(glowing)),
    ])
}

#[test]
fn sign_nbt_retains_both_sides_and_flattens_components() {
    let data = Nbt::Compound(vec![
        tag(
            "front_text",
            side(
                [
                    r#"{"text":"Hello ","extra":[{"text":"world"}]}"#,
                    r#""second""#,
                    r#"{"text":""}"#,
                    r#"{"translate":"container.chest"}"#,
                ],
                1,
            ),
        ),
        tag("back_text", side([r#"{"text":"Back"}"#, "{}", "{}", "{}"], 0)),
    ]);
    let sign = sign_from_nbt(&data).unwrap();
    assert_eq!(sign.front, ["Hello world", "second", r#"{"text":""}"#, "Chest"]);
    assert_eq!(sign.back[0], "Back");
    assert!(sign.front_glowing);
    assert!(!sign.back_glowing);
}

#[test]
fn older_signs_have_four_lines() {
    let data = Nbt::Compound(vec![tag("Text2", Nbt::String("\"hi\"".to_string()))]);
    let sign = sign_from_nbt(&data).unwrap();
    assert_eq!(sign.front, ["", "hi", "", ""]);
    assert!(sign_from_nbt(&Nbt::Compound(vec![])).is_none());
    assert_eq!(sign.shown_lines(), ["", "hi", "", ""]);
    let long = "x".repeat(120);
    let back = SignState {
        front: [String::new(), String::new(), String::new(), String::new()],
        back: [long.clone(), String::new(), String::new(), String::new()],
        front_glowing: false,
        back_glowing: false,
    };
    assert_eq!(back.shown_lines()[0].len(), 90);
}

fn sign_entity(packed: u8, y: i16, text: &str) -> Vec<u8> {
    let mut body = vec![packed];
    body.extend_from_slice(&y.to_be_bytes());
    body.push(7);
    body.push(10);
    body.push(8);
    body.extend_from_slice(&[0, 5]);
    body.extend_from_slice(b"Text1");
    body.extend_from_slice(&(text.len() as u16).to_be_bytes());
    body.extend_from_slice(text.as_bytes());
    body.push(0);
    body
}

#[test]
fn chunks_bring_their_signs() {
    let mut body = vec![2];
    body.extend(sign_entity(0x3f, 64, "\"a\""));
    body.extend(sign_entity(0x00, -5, "\"b\""));
    let read = read_chunk_signs(&body, -1, 2, ProtocolVersion::V1_21).unwrap();
    assert_eq!(read[0].position, BlockPos { x: -13, y: 64, z: 47 });
    assert_eq!(read[1].position, BlockPos { x: -16, y: -5, z: 32 });
    assert!(read_chunk_signs(&body[..8], -1, 2, ProtocolVersion::V1_21).is_none());

    let mut signs = Signs::new();
    signs.replace_chunk_signs((-1, 2), read);
    assert_eq!(signs.signs.len(), 2);
    let mut other = vec![1];
    other.extend(sign_entity(0x11, 1, "\"c\""));
    let read = read_chunk_signs(&other, 4, 4, ProtocolVersion::V1_21).unwrap();
    signs.replace_chunk_signs((4, 4), read);
    assert_eq!(signs.signs.len(), 3);
    signs.replace_chunk_signs((-1, 2), Vec::new());
    assert_eq!(signs.signs.len(), 1);
    let at = BlockPos { x: 65, y: 1, z: 65 };
    signs.handle_block_change(at, Some("minecraft:oak_sign"));
    assert!(signs.signs.contains(&at));
    signs.handle_block_change(at, Some("minecraft:stone"));
    assert!(!signs.signs.contains(&at));

    let mut body = Vec::new();
    put_position(&mut body, 5, -6, -7);
    body.push(7);
    body.extend_from_slice(&sign_entity(0, 0, "\"d\"")[4..]);
    signs.handle_block_entity_data(&body, ProtocolVersion::V1_21);
    let at = BlockPos { x: 5, y: -6, z: -7 };
    assert_eq!(signs.signs.get(&at).unwrap().front[0], "d");
}

#[test]
fn dirty_chunks_come_out_once() {
    let mut dirty = DirtyChunks::new();
    dirty.mark_neighborhood(0, 0);
    dirty.mark_neighborhood(1, 0);
    dirty.extend(&vec![(0, 0), (9, 9)]);
    let first = dirty.take_batch(4);
    let second = dirty.take_batch(100);
    assert_eq!(first.len(), 4);
    assert_eq!(first.len() + second.len(), 9);
    assert!(first.iter().all(|chunk| !second.contains(chunk)));
    assert!(dirty.take_batch(1).is_empty());
}

#[test]
fn coordinates_and_faces() {
    assert_eq!(chunk_of(15), 0);
    assert_eq!(chunk_of(16), 1);
    assert_eq!(chunk_of(-1), -1);
    assert_eq!(chunk_of(-16), -1);
    assert_eq!(chunk_of(-17), -2);
    assert_eq!(chunk_of(i32::MIN), i32::MIN >> 4);
    assert_eq!(face_direction([0, -1, 0]), 0);
    assert_eq!(face_direction([0, 1, 0]), 1);
    assert_eq!(face_direction([0, 0, -1]), 2);
    assert_eq!(face_direction([0, 0, 1]), 3);
    assert_eq!(face_direction([-1, 0, 0]), 4);
    assert_eq!(face_direction([1, 0, 0]), 5);
    assert_eq!(face_direction([1, 1, 0]), 1);
    assert_eq!(decode_unload_chunk(&[0, 0, 0, 1, 0xff, 0xff, 0xff, 0xff]), Some((1, -1)));
    assert_eq!(decode_unload_chunk(&[0, 0, 0, 1]), None);
    let mut body = Vec::new();
    put_position(&mut body, -1, -2, -3);
    put_varint(&mut body, 300);
    assert_eq!(
        decode_block_change(&body),
        Some((BlockPos { x: -1, y: -2, z: -3 }, 300))
    );
}

#[test]
fn effects_have_levels_and_run_out() {
    let effect = |amplifier, duration| ActiveEffect {
        amplifier,
        duration,
        ambient: false,
        show_particles: true,
        show_icon: true,
    };
    let mut effects: Effects = Table::new();
    effects.insert(8, effect(2, 200));
    assert_eq!(effect_level(&effects, 8), 3);
    assert_eq!(effect_level(&effects, 9), 0);
    effects.insert(1, effect(0, 1));
    effects.insert(5, effect(0, -1));
    tick_effects(&mut effects);
    assert_eq!(effect_level(&effects, 1), 0);
    assert_eq!(effect_level(&effects, 5), 1);
    assert_eq!(icon_ids(&effects), vec![5, 8]);
    handle_entity_effect(&mut effects, 3, &[3, 2, 0, 10, 0]);
    handle_entity_effect(&mut effects, 3, &[4, 6, 0, 10, 4]);
    assert_eq!(effect_level(&effects, 2), 1);
    assert_eq!(effect_level(&effects, 6), 0);
    assert_eq!(icon_ids(&effects), vec![5, 8]);
    handle_remove_effect(&mut effects, 3, &[3, 2]);
    assert_eq!(effect_level(&effects, 2), 0);
}

#[test]
fn health_leads_to_sounds_and_respawns() {
    let mut player = PlayerState::default();
    let bits = |value: f32| value.to_bits();
    assert_eq!(f32::from_bits(player.health), 20.0);
    assert_eq!(f32::from_bits(player.flying_speed), 0.05);
    assert_eq!(f32::from_bits(player.walking_speed), 0.1);
    let same = player.handle_health(bits(20.0), 20, false);
    assert!(!same.hurt && !same.respawn && !same.dead);
    let hurt = player.handle_health(bits(7.5), 18, false);
    assert!(hurt.hurt && !hurt.respawn);
    let died = player.handle_health(bits(0.0), 18, false);
    assert!(died.respawn && died.dead && !died.hurt);
    let still = player.handle_health(bits(-1.0), 18, died.dead);
    assert!(!still.respawn && still.dead);
    let back = player.handle_health(bits(20.0), 20, still.dead);
    assert!(!back.dead && !back.respawn);
    assert_eq!(player.food, 20);
}

#[test]
fn abilities_experience_and_slots() {
    let mut player = PlayerState::default();
    player.handle_abilities(0x06, 1, 2);
    assert!(player.allow_flying && player.flying);
    assert_eq!((player.flying_speed, player.walking_speed), (1, 2));
    player.handle_abilities(0x01, 1, 2);
    assert!(!player.allow_flying && !player.flying);
    let mut body = 0.5f32.to_be_bytes().to_vec();
    body.push(30);
    player.handle_experience(&body);
    assert_eq!((f32::from_bits(player.xp_bar), player.xp_level), (0.5, 30));
    player.handle_held_item(&[4], ProtocolVersion::V1_21_2);
    assert_eq!(player.selected_slot, 4);
    player.handle_held_item(&[9], ProtocolVersion::V1_21_2);
    player.handle_held_item(&[0x84, 2], ProtocolVersion::V1_21_4);
    assert_eq!(player.selected_slot, 4);
    player.handle_held_item(&[8], ProtocolVersion::V1_21_4);
    assert_eq!(player.selected_slot, 8);
    assert!(player.mark_spawned());
    assert!(!player.mark_spawned());
    player.vehicle = Some(3);
    player.handle_respawn();
    assert_eq!(player.vehicle, None);
    let parts = correction(0x29);
    assert!(parts.x && !parts.y && parts.yaw && parts.velocity_x && !parts.velocity_z);
}

#[test]
fn particles_are_read_in_both_orders() {
    let mut tail = vec![1];
    tail.extend_from_slice(&[0; 24]);
    tail.extend_from_slice(&[0; 16]);
    tail.extend_from_slice(&[0, 0, 0, 9]);
    let mut old = vec![5];
    old.extend_from_slice(&tail);
    let burst = decode_particles(&old, ProtocolVersion::V1_20_1).unwrap();
    assert_eq!((burst.particle_id, burst.count, burst.long_distance), (5, 9, true));
    let mut new = tail.clone();
    new.push(6);
    let burst = decode_particles(&new, ProtocolVersion::V1_21).unwrap();
    assert_eq!((burst.particle_id, burst.count), (6, 9));
    let mut newest = vec![0, 1];
    newest.extend_from_slice(&tail[1..]);
    newest.push(7);
    let burst = decode_particles(&newest, ProtocolVersion::V1_21_4).unwrap();
    assert_eq!((burst.particle_id, burst.long_distance), (7, false));
    assert!(decode_particles(&old[..20], ProtocolVersion::V1_20_1).is_none());
}

#[test]
fn particle_numbers_wrap_around() {
    for index in 0..128i32 {
        for salt in 1..7i32 {
            let value = index
                .wrapping_mul(1_103_515_245)
                .wrapping_add(salt * 12_345)
                .wrapping_abs()
                % 2_001;
            assert_eq!(jitter(index as u32, salt as u32), value);
        }
    }
    assert_eq!(lifetime(7), 27);
    assert_eq!(lifetime(-31), 21);
    assert_eq!(lifetime(i32::MIN), 28);
    assert_eq!((spawn_count(-3), spawn_count(5), spawn_count(500)), (1, 5, 128));
    assert_eq!((excess(4096), excess(5000)), (0, 904));
    let product = (-5i32 as u32).wrapping_mul(0x9e37_79b9);
    assert_eq!(
        spread(-5, 0x9e37_79b9),
        (product as u8, (product >> 8) as u8, (product >> 16) as u8)
    );
}

#[test]
fn sounds_have_names_or_numbers() {
    let mut body = vec![0];
    put_string(&mut body, "minecraft:block.stone.break");
    body.push(1);
    body.extend_from_slice(&8.0f32.to_be_bytes());
    body.push(4);
    for value in [8, -16, 24] {
        put_i32(&mut body, value);
    }
    body.extend_from_slice(&1.0f32.to_be_bytes());
    let sound = decode_sound(&body, false).unwrap();
    assert_eq!(sound.event, "block.stone.break");
    assert_eq!(sound.fixed_range, Some(8.0f32.to_bits()));
    assert_eq!(sound.source, SoundSource::Place(8, -16, 24));
    assert_eq!(sound.volume, 1.0f32.to_bits());

    let mut body = vec![77, 4, 13];
    body.extend_from_slice(&0.5f32.to_be_bytes());
    let sound = decode_sound(&body, true).unwrap();
    assert_eq!(sound.event, "@protocol:77");
    assert_eq!(sound.source, SoundSource::Entity(13));
    assert_eq!(protocol_number(&sound.event), Some(77));
    assert_eq!(protocol_number("@protocol:-2147483648"), Some(i32::MIN));
    assert_eq!(protocol_number("@protocol:+5"), Some(5));
    assert_eq!(protocol_number("@protocol:2147483648"), None);
    assert_eq!(protocol_number("random/pop"), None);
    assert!(decode_sound(&[77, 4], true).is_none());
}

#[test]
fn text_components_are_flattened() {
    assert_eq!(plain_text(r#"{"text":"a","extra":["b",{"text":"c"}]}"#), "abc");
    assert_eq!(plain_text("not json"), "not json");
    assert_eq!(plain_text(r#""quoted""#), "quoted");
}

#[test]
fn tags_are_read_named_and_anonymous() {
    let mut named = Reader::new(&[10, 0, 1, b'r', 1, 0, 1, b'b', 0xff, 0]);
    let root = read_nbt(&mut named).unwrap();
    assert!(matches!(root.get("b"), Some(Nbt::Byte(-1))));
    let mut anonymous = Reader::new(&[9, 3, 0, 0, 0, 2, 0, 0, 0, 1, 0, 0, 0, 2, 99]);
    match read_anonymous_nbt(&mut anonymous).unwrap() {
        Nbt::List(items) => assert_eq!(items.len(), 2),
        _ => panic!("a list"),
    }
    assert_eq!(anonymous.remaining(), 1);
    assert!(read_anonymous_nbt(&mut Reader::new(&[9, 3, 0, 0])).is_none());
}

#[test]
fn numbers_are_compared_by_their_bits() {
    let bits = |value: f32| value.to_bits();
    assert!(is_less(bits(-1.0), bits(0.0)));
    assert!(!is_less(bits(-0.0), bits(0.0)));
    assert!(is_at_most(bits(0.0), bits(-0.0)));
    assert!(!is_at_most(bits(f32::NAN), bits(0.0)));
    assert_eq!(clamp_unit(bits(7.0)), bits(1.0));
    assert_eq!(clamp_unit(bits(-7.0)), bits(0.0));
    assert_eq!(clamp_unit(bits(0.25)), bits(0.25));
    for value in [-3.0f32, 0.0, 0.99, 1.0, 2.5, 254.9, 255.0, 1000.0, f32::INFINITY] {
        assert_eq!(to_byte(bits(value)), value as u8);
    }
}

#[test]
fn titles_bars_and_chat() {
    let mut title = TitleState::default();
    let mut body = Vec::new();
    put_string(&mut body, r#"{"text":"Welcome"}"#);
    title.handle_title_text(&body, false, ProtocolVersion::V1_20_1);
    assert_eq!(title.title, "Welcome");
    assert_eq!(title.remaining, title.fade_in + title.stay + title.fade_out);
    let left = title.remaining;
    title.tick();
    assert_eq!(title.remaining, left - 1);
    title.handle_clear_titles(&[1]);
    assert_eq!((title.title.as_str(), title.remaining), ("", 0));

    let mut bars: BossBars = Table::new();
    let mut body = vec![0; 16];
    body.push(0);
    put_string(&mut body, r#"{"text":"Wither"}"#);
    body.extend_from_slice(&2.0f32.to_be_bytes());
    body.extend_from_slice(&[2, 1, 0]);
    handle_boss_bar(&mut bars, &body, ProtocolVersion::V1_20_1);
    let bar = bars.get(&"00000000-0000-0000-0000-000000000000".to_string()).unwrap();
    assert_eq!(bar.title, "Wither");
    assert_eq!(f32::from_bits(bar.health), 1.0);
    assert_eq!(notch_count(bar.divisions), 6);

    let mut log = Vec::new();
    for i in 0..105 {
        push_chat(&mut log, format!("line {i}"));
    }
    assert_eq!(log.len(), 100);
    assert_eq!(log[0], "line 5");

    let mut messages = Messages::new();
    messages.handle_system_chat("over".to_string(), true);
    messages.handle_system_chat("said".to_string(), false);
    assert_eq!(messages.action_bar.as_ref().unwrap().text, "over");
    assert_eq!(messages.chat_log, vec!["said"]);
    for _ in 0..60 {
        messages.tick();
    }
    assert!(messages.action_bar.is_none());

    let mut environment = EnvironmentState::default();
    environment.change_weather(7, 3.0f32.to_bits());
    assert_eq!(f32::from_bits(environment.rain_level), 1.0);
    environment.change_weather(1, 0);
    assert_eq!(f32::from_bits(environment.rain_level), 0.0);
    let mut body = Vec::new();
    put_i64(&mut body, 5);
    put_i64(&mut body, -6_000);
    environment.handle_update_time(&body);
    assert_eq!(environment.time_of_day, -6_000);
}

#[test]
fn days_go_round() {
    assert_eq!(tick_of_day(6_000), tick_of_day(30_000));
    assert_eq!(tick_of_day(-6_000), tick_of_day(6_000));
}

#[test]
fn player_lists_follow_the_server() {
    let mut list = PlayerListState::new();
    let mut body = vec![0x01 | 0x08 | 0x10, 2];
    for (id, name, latency) in [(1u8, "Zoe", 40), (2u8, "adam", 7)] {
        body.extend_from_slice(&[id; 16]);
        put_string(&mut body, name);
        body.push(0);
        body.push(1);
        put_varint(&mut body, latency);
    }
    list.handle_player_info(&body, ProtocolVersion::V1_20_1);
    let places = list.listed_places();
    let names: Vec<&str> =
        places.iter().map(|&place| list.entries.values[place].name.as_str()).collect();
    assert_eq!(names, vec!["adam", "Zoe"]);
    let mut gone = vec![1];
    gone.extend_from_slice(&[1; 16]);
    list.handle_player_remove(&gone);
    assert_eq!(list.entries.len(), 1);
    let mut header = Vec::new();
    put_string(&mut header, r#"{"text":"Top"}"#);
    put_string(&mut header, r#"{"text":"Bottom"}"#);
    list.handle_header(&header, ProtocolVersion::V1_20_1);
    assert_eq!((list.header.as_str(), list.footer.as_str()), ("Top", "Bottom"));
    assert_eq!(list_grid(0), (1, 1));
    assert_eq!(list_grid(20), (20, 1));
    assert_eq!(list_grid(21), (20, 2));
}

#[test]
fn entities_look_like_what_they_are() {
    let mut e = entity(0.0, 0.0, 0.0);
    assert_eq!(looks(&e, true, None, true), Looks::Body(true));
    assert_eq!(looks(&e, true, None, false), Looks::Body(false));
    e.invisible = true;
    assert_eq!(looks(&e, true, None, true), Looks::Hidden);
    e.glowing = true;
    assert_eq!(looks(&e, true, None, true), Looks::Body(true));
    let shape = ItemLook { is_block: false, has_icon: true };
    e.item = Some(4);
    assert_eq!(looks(&e, true, Some(shape), true), Looks::ItemIcon);
    assert_eq!(
        looks(&e, true, Some(ItemLook { is_block: true, has_icon: true }), true),
        Looks::ItemBlock
    );
    assert_eq!(looks(&e, true, None, true), Looks::Body(true));
    e.block_state = Some(3);
    assert_eq!(looks(&e, true, Some(shape), true), Looks::Block);
    assert_eq!(looks(&e, false, Some(shape), true), Looks::ItemIcon);
}

#[test]
fn motions_begin_once() {
    let mut e = entity(0.0, 0.0, 0.0);
    let mut motions = Motions::of(&e);
    assert_eq!(motions.step(&e), (false, false));
    e.swing_sequence += 1;
    assert_eq!(motions.step(&e), (true, false));
    e.hurt_sequence += 1;
    assert_eq!(motions.step(&e), (false, true));
    assert_eq!(motions.step(&e), (false, false));
    let mut all = Entities::new();
    all.entities.insert(3, entity(5.0, 0.0, 0.0));
    e.vehicle = Some(3);
    assert_eq!(all.mount_of(&e).map(|vehicle| vehicle.x), Some(5.0f64.to_bits()));
    e.vehicle = Some(4);
    assert!(all.mount_of(&e).is_none());
}

#[test]
fn six_boss_bars_are_shown_in_order() {
    let mut bars: BossBars = Table::new();
    for name in ["g", "b", "f", "a", "e", "d", "c"] {
        bars.insert(
            name.to_string(),
            BossBarState { title: String::new(), health: 0, color: 0, divisions: 0, flags: 0 },
        );
    }
    let shown: Vec<&str> = shown_bars(&bars).iter().map(|&i| bars.keys[i].as_str()).collect();
    assert_eq!(shown, vec!["a", "b", "c", "d", "e", "f"]);
}
