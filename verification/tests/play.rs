//! The tick: digging, moving, and what the server is told.

use crabcraft::commands::{
    bundle_form, chat_packet, click_form, recipe_form, recipe_key, use_form, vehicle_forms,
    ChatPacket, RecipeKey,
};
use crabcraft::digging::{DigOverlay, DigPacket, Digger};
use crabcraft::motion::{
    axis, digit_slot, fluid_kind, gait, hotbar_changed, input_flags, is_boat, local_pose, paddles,
    stature, steer_flags, step_plan, Climb, Edges, FluidKind, Gait, Held, Lean, MoveInput, Pace,
    Stature,
};
use crabcraft::entities::EntityRegistry;
use crabcraft::overlays::BorderPacket;
use crabcraft::packets::{play_packet, PlayPacket};
use crabcraft::play::{Play, Rest};
use crabcraft::player::PlayerState;
use crabcraft::protocol::ProtocolVersion;
use crabcraft::session::{
    chunk_batch_reply, configuration_action, greeting, login_action, login_uuid,
    phase_after_login, play_action, spawn_reply, ConfigurationAction, ConfigurationIds, Form,
    LoginAction, LoginIds, Phase, PlayAction,
};
use crabcraft::uuids::offline_uuid;
use crabcraft::wire::{BlockPos, Uuid};

const BLOCK: BlockPos = BlockPos { x: 1, y: 2, z: 3 };
const OTHER: BlockPos = BlockPos { x: 4, y: 5, z: 6 };

fn packet(status: i32, block: BlockPos, face: i8, sequence: i32) -> Option<DigPacket> {
    Some(DigPacket { status, block, face, sequence })
}

#[test]
fn blocks_break_after_their_ticks() {
    let mut digger = Digger::new();
    let step = digger.dig_anew(BLOCK, 1, Some(9), false);
    assert_eq!((step.first, step.second), (None, packet(0, BLOCK, 1, 1)));
    assert!(digger.is_digging(BLOCK) && !digger.is_digging(OTHER));
    let mut hits = 0;
    for _ in 0..8 {
        let step = digger.dig_on(1);
        assert_eq!((step.first, step.broken), (None, None));
        hits += usize::from(step.hit == Some(BLOCK));
    }
    assert_eq!(hits, 2);
    assert_eq!(digger.overlay(), Some(DigOverlay { block: BLOCK, stage: 8 }));
    let step = digger.dig_on(4);
    assert_eq!(step.first, packet(2, BLOCK, 4, 2));
    assert_eq!(step.broken, Some(BLOCK));
    assert_eq!(digger.overlay(), None);
}

#[test]
fn another_block_ends_the_dig() {
    let mut digger = Digger::new();
    digger.dig_anew(BLOCK, 1, Some(9), false);
    let step = digger.dig_anew(OTHER, 2, Some(5), false);
    assert_eq!(step.first, packet(1, BLOCK, 1, 2));
    assert_eq!(step.second, packet(0, OTHER, 2, 3));
    assert_eq!(digger.cancel_dig(), packet(1, OTHER, 2, 4));
    assert_eq!(digger.cancel_dig(), None);
    let step = digger.dig_anew(BLOCK, 0, None, false);
    assert_eq!((step.second, step.broken), (None, None));
}

#[test]
fn some_blocks_break_at_once() {
    let mut digger = Digger::new();
    let step = digger.dig_anew(BLOCK, 1, Some(0), false);
    assert_eq!(step.third, packet(2, BLOCK, 1, 2));
    assert_eq!(step.broken, Some(BLOCK));
    let step = digger.dig_anew(BLOCK, 1, Some(50), true);
    assert_eq!((step.third, step.broken), (None, Some(BLOCK)));
    assert!(digger.dig.is_none());
    let hand = digger.hand_packet(6);
    assert_eq!((hand.status, hand.sequence), (6, 4));
    digger.sequence = i32::MAX;
    assert_eq!(digger.next_sequence(), i32::MIN);
}

#[test]
fn buttons_have_edges() {
    let mut held = Held { attack: false, use_item: false, jump: false };
    let down = Held { attack: true, use_item: true, jump: true };
    assert_eq!(
        held.step(down),
        Edges { attack: true, use_item: true, release_use: false, jump: true }
    );
    assert_eq!(
        held.step(down),
        Edges { attack: false, use_item: false, release_use: false, jump: false }
    );
    let up = Held { attack: false, use_item: false, jump: false };
    assert!(held.step(up).release_use);
}

const STILL: MoveInput = MoveInput {
    forward: false,
    sprint: false,
    sneak: false,
    toggle_flight: false,
    jump_pressed: false,
    in_water: false,
    wears_elytra: false,
    can_stand: true,
};

#[test]
fn ways_to_move_follow_the_controls() {
    let mut player = PlayerState::default();
    let run = MoveInput { forward: true, sprint: true, ..STILL };
    let told = player.step_movement(run);
    assert_eq!(told.sprint, Some(3));
    assert!(player.sprinting);
    let told = player.step_movement(MoveInput { in_water: true, ..run });
    assert_eq!(told.sprint, None);
    assert!(player.swimming);
    let told = player.step_movement(MoveInput { sneak: true, ..run });
    assert_eq!((told.sneak, told.sprint), (Some(0), Some(4)));
    let told = player.step_movement(MoveInput { can_stand: false, ..STILL });
    assert_eq!(told.sneak, None);
    assert!(player.sneaking);
    assert_eq!(player.step_movement(STILL).sneak, Some(1));
    player.food = 6;
    assert_eq!(player.step_movement(run).sprint, None);
    player.gamemode = 1;
    assert_eq!(player.step_movement(run).sprint, Some(3));
}

#[test]
fn flight_and_glides_start_where_they_may() {
    let mut player = PlayerState::default();
    let toggle = MoveInput { toggle_flight: true, ..STILL };
    assert_eq!(player.step_movement(toggle).abilities, None);
    player.allow_flying = true;
    assert_eq!(player.step_movement(toggle).abilities, Some(2));
    assert_eq!(player.step_movement(toggle).abilities, Some(0));
    let leap = MoveInput { jump_pressed: true, wears_elytra: true, ..STILL };
    assert_eq!(player.step_movement(leap).glide, Some(8));
    assert!(player.gliding);
    assert_eq!(local_pose(&player), 4);
    player.on_ground = true;
    assert_eq!(player.step_movement(leap).glide, None);
    assert!(!player.gliding);
    player.on_ground = false;
    player.vehicle = Some(1);
    assert_eq!(player.step_movement(leap).glide, None);
}

#[test]
fn steps_have_their_rules() {
    let mut player = PlayerState::default();
    let plan = step_plan(&player, None, true, false);
    assert_eq!(plan.pace, Pace::Walk(Gait::Walk));
    assert_eq!(plan.climb, Climb::Fall(false));
    assert_eq!(plan.stature, Stature::Standing);
    player.on_ground = true;
    assert_eq!(step_plan(&player, None, true, false).climb, Climb::Fall(true));
    let plan = step_plan(&player, Some(FluidKind::Water), true, true);
    assert_eq!(plan.climb, Climb::Fluid(FluidKind::Water, Lean::Positive));
    player.gliding = true;
    assert_eq!(step_plan(&player, None, false, false).climb, Climb::Glide);
    assert_eq!(stature(&player), Stature::Lying);
    player.flying = true;
    player.gamemode = 3;
    let plan = step_plan(&player, Some(FluidKind::Lava), true, true);
    assert_eq!((plan.pace, plan.climb), (Pace::Flight, Climb::Flight(Lean::Neutral)));
    assert!(plan.noclip);
    assert_eq!(gait(true, true, None), Gait::Sneak);
    assert_eq!(gait(false, true, None), Gait::Sprint);
    assert_eq!(gait(false, true, Some(FluidKind::Water)), Gait::WaterSprint);
    assert_eq!(gait(true, false, Some(FluidKind::Water)), Gait::WaterSneak);
    assert_eq!(gait(false, false, Some(FluidKind::Water)), Gait::Water);
    assert_eq!(gait(true, true, Some(FluidKind::Lava)), Gait::Lava);
}

#[test]
fn fluids_are_found_among_blocks() {
    let water = Some("minecraft:water");
    let lava = Some("minecraft:lava");
    let stone = Some("minecraft:stone");
    assert_eq!(fluid_kind(&vec![stone, None, water]), Some(FluidKind::Water));
    assert_eq!(fluid_kind(&vec![water, lava]), Some(FluidKind::Lava));
    assert_eq!(fluid_kind(&vec![stone, None]), None);
}

#[test]
fn controls_become_flags() {
    assert_eq!(steer_flags(true, true), 3);
    assert_eq!(input_flags(Lean::Positive, Lean::Negative, true, false, true), 1 | 8 | 16 | 64);
    assert_eq!(input_flags(Lean::Negative, Lean::Positive, false, true, false), 2 | 4 | 32);
    assert_eq!(paddles(Lean::Neutral, Lean::Positive), (true, false));
    assert_eq!(paddles(Lean::Negative, Lean::Neutral), (true, true));
    assert!(is_boat(Some("chest_boat")) && !is_boat(Some("pig")) && !is_boat(None));
    assert_eq!(axis(true, false), Lean::Positive);
    assert_eq!(axis(true, true), Lean::Neutral);
    assert_eq!(digit_slot(&vec![false, true, false, true], 7), 3);
    assert_eq!(digit_slot(&vec![false; 9], 7), 7);
    assert!(hotbar_changed(3, 2) && !hotbar_changed(3, 3) && !hotbar_changed(9, 3));
}

#[test]
fn sessions_go_through_their_phases() {
    assert_eq!(phase_after_login(ProtocolVersion::V1_20_1), Phase::Play);
    assert_eq!(phase_after_login(ProtocolVersion::V1_20_2), Phase::Configuration);
    let account = Uuid { high: 1, low: 2 };
    assert_eq!(login_uuid(ProtocolVersion::V1_20_1, None, "Ann"), None);
    assert_eq!(login_uuid(ProtocolVersion::V1_21, Some(account), "Ann"), Some(account));
    assert_eq!(login_uuid(ProtocolVersion::V1_21, None, "Ann"), Some(offline_uuid("Ann")));
    let ids = LoginIds { compression: 3, encryption: 1, disconnect: 0, success: 2 };
    assert_eq!(login_action(ids, 3, false), LoginAction::SetCompression);
    assert_eq!(login_action(ids, 1, true), LoginAction::Encrypt);
    assert_eq!(login_action(ids, 1, false), LoginAction::NeedsAccount);
    assert_eq!(login_action(ids, 0, false), LoginAction::Refused);
    assert_eq!(login_action(ids, 2, false), LoginAction::Accepted);
    assert_eq!(login_action(ids, 9, false), LoginAction::Ignore);
    assert_eq!(greeting("Ann"), "Ann here via Crabcraft (pure Rust).");
    assert_eq!(spawn_reply(ProtocolVersion::V1_21), (Form::Shared, false));
    assert_eq!(spawn_reply(ProtocolVersion::V1_21_2), (Form::V768, false));
    assert_eq!(spawn_reply(ProtocolVersion::V1_21_5), (Form::V768, true));
}

#[test]
fn configuration_packets_differ_by_version() {
    let ids = ConfigurationIds { finish: 2, keep_alive: 3, ping: 4, registry: 5 };
    let of = |protocol, id| configuration_action(protocol, ids, id);
    assert_eq!(of(ProtocolVersion::V1_20_2, 2), ConfigurationAction::Finish);
    assert_eq!(of(ProtocolVersion::V1_20_2, 6), ConfigurationAction::AskForPack);
    assert_eq!(of(ProtocolVersion::V1_20_3, 6), ConfigurationAction::RemovePack);
    assert_eq!(of(ProtocolVersion::V1_20_3, 7), ConfigurationAction::AddPack);
    assert_eq!(of(ProtocolVersion::V1_20_3, 5), ConfigurationAction::Registries);
    assert_eq!(of(ProtocolVersion::V1_20_3, 1), ConfigurationAction::Refused);
    assert_eq!(of(ProtocolVersion::V1_21, 2), ConfigurationAction::Refused);
    assert_eq!(of(ProtocolVersion::V1_21, 7), ConfigurationAction::Registry);
    assert_eq!(of(ProtocolVersion::V1_21, 14), ConfigurationAction::KnownPacks);
    assert_eq!(of(ProtocolVersion::V1_21, 6), ConfigurationAction::Ignore);
}

#[test]
fn play_packets_differ_by_version() {
    assert_eq!(play_action(ProtocolVersion::V1_20_1, 0x67), PlayAction::Shared);
    assert_eq!(play_action(ProtocolVersion::V1_20_3, 0x67), PlayAction::Reconfigure);
    assert_eq!(play_action(ProtocolVersion::V1_21, 0x46), PlayAction::AddPack);
    assert_eq!(play_action(ProtocolVersion::V1_21_2, 0x46), PlayAction::Ignore);
    assert_eq!(play_action(ProtocolVersion::V1_21_4, 0x44), PlayAction::AddToRecipeBook);
    assert_eq!(play_action(ProtocolVersion::V1_21_5, 0x44), PlayAction::RemoveFromRecipeBook);
    assert_eq!(play_action(ProtocolVersion::V1_21_5, 0x65), PlayAction::PlayerSlot);
    assert_eq!(chunk_batch_reply(ProtocolVersion::V1_20_1, 0x0c), None);
    assert_eq!(chunk_batch_reply(ProtocolVersion::V1_20_2, 0x0c), Some(Form::Shared));
    assert_eq!(chunk_batch_reply(ProtocolVersion::V1_21, 0x0c), Some(Form::V766));
    assert_eq!(chunk_batch_reply(ProtocolVersion::V1_21_5, 0x0b), Some(Form::V768));
    assert_eq!(chunk_batch_reply(ProtocolVersion::V1_21_4, 0x0b), None);
}

#[test]
fn commands_take_the_form_of_the_version() {
    assert!(matches!(
        chat_packet(ProtocolVersion::V1_21_5, "/seed"),
        ChatPacket::Command(text) if text == "seed"
    ));
    assert!(matches!(
        chat_packet(ProtocolVersion::V1_21_5, "hi"),
        ChatPacket::Message770(text) if text == "hi"
    ));
    assert!(matches!(
        chat_packet(ProtocolVersion::V1_21, "hi"),
        ChatPacket::Message(text) if text == "hi"
    ));
    let number = RecipeKey::Numeric(4);
    let name = RecipeKey::Namespaced("a".to_string());
    assert_eq!(recipe_form(ProtocolVersion::V1_21_4, &number), Some(Form::V769));
    assert_eq!(recipe_form(ProtocolVersion::V1_21_2, &number), Some(Form::V768));
    assert_eq!(recipe_form(ProtocolVersion::V1_21, &number), None);
    assert_eq!(recipe_form(ProtocolVersion::V1_21, &name), Some(Form::Shared));
    assert_eq!(bundle_form(ProtocolVersion::V1_21), None);
    assert_eq!(bundle_form(ProtocolVersion::V1_21_5), Some(Form::V769));
    assert_eq!(click_form(ProtocolVersion::V1_20_3), Form::Shared);
    assert_eq!(click_form(ProtocolVersion::V1_20_5), Form::V766);
    assert_eq!(click_form(ProtocolVersion::V1_21_5), Form::V767);
    assert_eq!(use_form(ProtocolVersion::V1_21_4), Form::V769);
    assert_eq!(use_form(ProtocolVersion::V1_21), Form::Shared);
    assert_eq!(vehicle_forms(ProtocolVersion::V1_21_2), (Form::V768, Form::Shared));
}

const OLDEST: ProtocolVersion = ProtocolVersion::V1_20_1;

fn registry() -> EntityRegistry {
    EntityRegistry { names: vec!["boat".to_string()], block_states: 10 }
}

fn title(text: &str) -> Vec<u8> {
    let mut body = vec![text.len() as u8];
    body.extend_from_slice(text.as_bytes());
    body
}

fn spawn(id: u8) -> Vec<u8> {
    let mut body = vec![id];
    body.extend_from_slice(&[0; 16]);
    body.push(0);
    body.extend_from_slice(&[0; 24]);
    body.extend_from_slice(&[0, 0, 0, 0]);
    body.extend_from_slice(&[0; 6]);
    body
}

#[test]
fn packets_have_numbers() {
    assert_eq!(play_packet(0x28), Some(PlayPacket::JoinGame));
    assert_eq!(play_packet(0x22), Some(PlayPacket::Border(BorderPacket::Initialize)));
    assert_eq!(play_packet(0x4b), Some(PlayPacket::Border(BorderPacket::WarningReach)));
    assert_eq!(play_packet(0x2c), Some(PlayPacket::RelativeMove(true)));
    assert_eq!(play_packet(0x5d), Some(PlayPacket::Title(true)));
    assert_eq!(play_packet(0x61), Some(PlayPacket::Sound(true)));
    assert_eq!(play_packet(0x02), None);
    assert_eq!(play_packet(-1), None);
    assert_eq!((0..0x80).filter(|&id| play_packet(id).is_some()).count(), 56);
}

#[test]
fn packets_reach_their_part() {
    let mut play = Play::new(None, false);
    let kinds = registry();
    assert_eq!(
        play.receive(PlayPacket::Title(false), &title("Hello"), OLDEST, &kinds),
        Rest::Nothing
    );
    assert_eq!(play.title.title, "Hello");
    assert_eq!(play.title.remaining, 100);
    play.receive(PlayPacket::HeldItem, &[4], OLDEST, &kinds);
    assert_eq!(play.player.selected_slot, 4);
    play.receive(PlayPacket::GameState, &[3, 0x3f, 0x80, 0, 0], OLDEST, &kinds);
    assert_eq!(play.player.gamemode, 1);
    play.receive(PlayPacket::GameState, &[7, 0x3f, 0x00, 0, 0], OLDEST, &kinds);
    assert_eq!(play.environment.rain_level, 0.5f32.to_bits());
    assert_eq!(
        play.receive(PlayPacket::Particles, &[], OLDEST, &kinds),
        Rest::Elsewhere
    );
    assert_eq!(
        play.receive(PlayPacket::ResourcePack, &[], ProtocolVersion::V1_21, &kinds),
        Rest::Elsewhere
    );
    play.receive(PlayPacket::SpawnEntity, &spawn(7), OLDEST, &kinds);
    assert_eq!(play.entities.entities.keys, vec![7]);
    assert_eq!(
        play.receive(PlayPacket::SetPassengers, &[7, 1, 0], OLDEST, &kinds),
        Rest::Seat(7)
    );
    assert_eq!(play.player.vehicle, Some(7));
    assert_eq!(
        play.receive(PlayPacket::EntityRotation, &[7, 64, 0], OLDEST, &kinds),
        Rest::Seat(7)
    );
    play.receive(PlayPacket::Respawn, &[], OLDEST, &kinds);
    assert_eq!(play.player.vehicle, None);
    assert!(play.entities.entities.keys.is_empty());
    assert!(play.windows.container.is_none());
}

#[test]
fn broken_scores_end_the_session() {
    let mut play = Play::new(None, false);
    let mut body = title("kills");
    body.push(0);
    body.extend_from_slice(&[8, 0, 1, b'K']);
    body.push(0);
    assert_eq!(
        play.receive(PlayPacket::ScoreboardObjective, &body, ProtocolVersion::V1_20_3, &registry()),
        Rest::Malformed
    );
    assert!(play.scoreboard.objectives.keys.is_empty());
    body.push(0);
    assert_eq!(
        play.receive(PlayPacket::ScoreboardObjective, &body, ProtocolVersion::V1_20_3, &registry()),
        Rest::Nothing
    );
    assert_eq!(play.scoreboard.objectives.keys, vec!["kills"]);
}

#[test]
fn a_tick_moves_everything_on() {
    let mut play = Play::new(None, false);
    play.receive(PlayPacket::Title(false), &title("T"), OLDEST, &registry());
    play.receive(PlayPacket::EntityEffect, &[0, 5, 1, 1, 4], OLDEST, &registry());
    assert_eq!(play.effects.keys, vec![5]);
    play.border.lerp_remaining_ms = 80;
    assert_eq!(play.tick(), Some((50, 80)));
    assert_eq!(play.title.remaining, 99);
    assert!(play.effects.keys.is_empty());
    assert_eq!(play.tick(), Some((30, 30)));
    assert_eq!(play.tick(), None);
}

#[test]
fn joining_tells_who_the_player_is() {
    let mut play = Play::new(None, false);
    assert!(play.handle_join_game(&[0, 0], OLDEST, None).is_none());
    let mut body = vec![0, 0, 1, 2, 0];
    body.extend_from_slice(&[1, 255, 0, 0]);
    body.extend_from_slice(&title("minecraft:overworld"));
    let joined = play.handle_join_game(&body, OLDEST, None).unwrap();
    assert_eq!(joined.dimension_type, "minecraft:overworld");
    assert_eq!((play.player.entity_id, play.player.gamemode), (258, 1));
}

#[test]
fn recipes_are_named_as_their_version_does() {
    let number = recipe_key(ProtocolVersion::V1_21_2, "17");
    assert!(matches!(number, RecipeKey::Numeric(17)));
    assert!(matches!(
        recipe_key(ProtocolVersion::V1_21, "17"),
        RecipeKey::Namespaced(name) if name == "17"
    ));
    assert!(matches!(
        recipe_key(ProtocolVersion::V1_21_5, "minecraft:chest"),
        RecipeKey::Namespaced(name) if name == "minecraft:chest"
    ));
}
