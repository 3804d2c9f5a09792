//! What a session knows while it plays, and what the packets of the server
//! make of it.

use vstd::prelude::*;

use crate::bits::{self, to_byte};
use crate::effects::{
    self, handle_entity_effect, handle_remove_effect, tick_effects, Effects,
};
use crate::entities::{self, Entities, EntityRegistry};
use crate::join::{self, decode_join_game, JoinGame};
use crate::maps::{self, Maps};
use crate::nbt::Nbt;
use crate::overlays::{
    self, decode_game_state, handle_boss_bar, BossBars, EnvironmentState, Messages, TitleState,
    WorldBorderState,
};
use crate::packets::PlayPacket;
use crate::packs::{self, ResourcePacks};
use crate::player::{self, PlayerState};
use crate::players::{self, PlayerListState};
use crate::protocol::ProtocolVersion;
use crate::recipe_book::{self, RecipeBook};
use crate::scoreboard::{self, ScoreboardState};
use crate::signs::{self, Signs};
use crate::table::Table;
use crate::windows::Windows;
use crate::wire::BlockPos;

verus! {

/// Everything that packets tell a session.
#[derive(Debug)]
pub struct Play {
    pub player: PlayerState,
    pub environment: EnvironmentState,
    pub effects: Effects,
    pub messages: Messages,
    pub title: TitleState,
    pub boss_bars: BossBars,
    pub border: WorldBorderState,
    pub scoreboard: ScoreboardState,
    pub players: PlayerListState,
    pub maps: Maps,
    pub signs: Signs,
    pub entities: Entities,
    pub windows: Windows,
    pub recipes: RecipeBook,
    pub packs: ResourcePacks,
}

/// What is left to do about a packet.
#[derive(Clone, Copy, Debug, PartialEq, Eq, Structural)]
pub enum Rest {
    Nothing,
    /// This entity moved or took a passenger: where it carries the player, the
    /// player sits on it.
    Seat(i32),
    /// The packet is about something else than this state.
    Elsewhere,
    /// The packet breaks off: the session ends.
    Malformed,
}

pub open spec fn well_formed(ok: bool) -> Rest {
    if ok {
        Rest::Nothing
    } else {
        Rest::Malformed
    }
}

pub open spec fn seat(entity: Option<i32>) -> Rest {
    match entity {
        Some(id) => Rest::Seat(id),
        None => Rest::Nothing,
    }
}

fn to_seat(entity: Option<i32>) -> (r: Rest)
    ensures
        r == seat(entity),
{
    match entity {
        Some(id) => Rest::Seat(id),
        None => Rest::Nothing,
    }
}

/// The state after the server changed the game: the mode of the player, or the
/// weather.
pub open spec fn game_changed(before: Play, body: Seq<u8>) -> Play {
    match overlays::game_state(body) {
        Some((reason, value)) => if reason == 3 {
            Play {
                player: PlayerState { gamemode: bits::whole_byte(value), ..before.player },
                ..before
            }
        } else {
            Play { environment: before.environment.weather_after(reason, value), ..before }
        },
        None => before,
    }
}

impl Play {
    pub open spec fn wf(&self) -> bool {
        &&& self.effects.wf()
        &&& self.boss_bars.wf()
        &&& self.scoreboard.wf()
        &&& self.players.wf()
        &&& self.maps.wf()
        &&& self.signs.wf()
        &&& self.entities.wf()
        &&& self.windows.wf()
        &&& self.recipes.wf()
    }

    /// A session that has heard nothing yet.
    pub fn new(base: Option<String>, renderer_active: bool) -> (r: Self)
        ensures
            r.wf(),
            r.player == player::new_player(),
            r.environment == overlays::first_morning(),
            r.effects@ == Map::<i32, effects::ActiveEffect>::empty(),
            r.messages.action_bar is None,
            r.messages.chat_log@.len() == 0,
            r.title.is_blank(),
            r.boss_bars@ == Map::<Seq<char>, overlays::BossBarModel>::empty(),
            r.border == overlays::full_border(),
            r.scoreboard@ == (scoreboard::ScoreboardModel {
                objectives: Map::empty(),
                sidebar: None,
                scores: Map::empty(),
                teams: Map::empty(),
            }),
            r.players.entries@ == Map::<Seq<char>, players::PlayerModel>::empty(),
            r.players.header@.len() == 0,
            r.players.footer@.len() == 0,
            r.maps.maps@ == Map::<i32, maps::MapModel>::empty(),
            r.maps.latest is None,
            r.signs.signs@ == Map::<BlockPos, signs::SignModel>::empty(),
            r.entities.entities@ == Map::<i32, entities::Entity>::empty(),
            forall|i: int|
                0 <= i < r.windows.inventory@.len() ==> #[trigger] r.windows.inventory@[i] is None,
            forall|i: int|
                0 <= i < r.windows.inventory_nbt@.len()
                    ==> #[trigger] r.windows.inventory_nbt@[i] is None,
            r.windows.container is None,
            r.windows.carried is None,
            r.windows.window_state == 0,
            r.recipes@ == (recipe_book::BookModel {
                crafting: Seq::empty(),
                stonecutting: Seq::empty(),
                unlocked: Set::empty(),
            }),
            r.packs@ == (packs::PacksModel {
                request: None,
                prompt_open: false,
                layers: Seq::empty(),
                base: players::opt_view(base),
                cached: None,
                renderer_active,
                reload_ack: false,
            }),
    {
        Play {
            player: PlayerState::default(),
            environment: EnvironmentState::default(),
            effects: Table::new(),
            messages: Messages::new(),
            title: TitleState::default(),
            boss_bars: Table::new(),
            border: WorldBorderState::default(),
            scoreboard: ScoreboardState::new(),
            players: PlayerListState::new(),
            maps: Maps::new(),
            signs: Signs::new(),
            entities: Entities::new(),
            windows: Windows::new(),
            recipes: RecipeBook::new(),
            packs: ResourcePacks::new(base, renderer_active),
        }
    }

    /// What a packet makes of the state, part by part: the part that it is
    /// about changes as that part says, the others stay.
    pub open spec fn received(
        self,
        after: Play,
        packet: PlayPacket,
        body: Seq<u8>,
        protocol: ProtocolVersion,
        registry: EntityRegistry,
    ) -> bool {
        match packet {
            PlayPacket::ActionBar => {
                &&& after == Play { messages: after.messages, ..self }
                &&& self.messages.bar_set(after.messages, body, protocol)
            },
            PlayPacket::Title(subtitle) => {
                &&& after == Play { title: after.title, ..self }
                &&& self.title.text_set(after.title, body, subtitle, protocol)
            },
            PlayPacket::TitleTime => after == Play { title: self.title.timed(body), ..self },
            PlayPacket::ClearTitles => {
                &&& after == Play { title: after.title, ..self }
                &&& self.title.cleared(after.title, body)
            },
            PlayPacket::BossBar => {
                &&& after == Play { boss_bars: after.boss_bars, ..self }
                &&& after.boss_bars@ =~= overlays::bars_after(self.boss_bars@, body, protocol)
            },
            PlayPacket::Border(change) => after == Play {
                border: overlays::border_after(self.border, change, body),
                ..self
            },
            PlayPacket::GameState => after == game_changed(self, body),
            PlayPacket::UpdateTime => after == Play {
                environment: self.environment.timed(body),
                ..self
            },
            PlayPacket::ScoreboardDisplay => {
                &&& after == Play { scoreboard: after.scoreboard, ..self }
                &&& after.scoreboard@ =~= scoreboard::displayed(self.scoreboard@, body)
            },
            PlayPacket::ScoreboardObjective => {
                &&& after == Play { scoreboard: after.scoreboard, ..self }
                &&& after.scoreboard@ =~= (match scoreboard::objective_set(
                    self.scoreboard@,
                    body,
                    protocol,
                ) {
                    Some(board) => board,
                    None => self.scoreboard@,
                })
            },
            PlayPacket::ScoreboardScore => {
                &&& after == Play { scoreboard: after.scoreboard, ..self }
                &&& after.scoreboard@ =~= (match scoreboard::score_set(
                    self.scoreboard@,
                    body,
                    protocol,
                ) {
                    Some(board) => board,
                    None => self.scoreboard@,
                })
            },
            PlayPacket::Teams => {
                &&& after == Play { scoreboard: after.scoreboard, ..self }
                &&& after.scoreboard@ =~= scoreboard::team_set(self.scoreboard@, body, protocol)
            },
            PlayPacket::PlayerInfo => {
                &&& after == Play { players: after.players, ..self }
                &&& self.players.same_texts(after.players)
                &&& after.players.entries@ =~= players::after_info(
                    self.players.entries@,
                    body,
                    protocol,
                )
            },
            PlayPacket::PlayerRemove => {
                &&& after == Play { players: after.players, ..self }
                &&& self.players.same_texts(after.players)
                &&& after.players.entries@ =~= players::after_removal(self.players.entries@, body)
            },
            PlayPacket::PlayerListHeader => {
                &&& after == Play { players: after.players, ..self }
                &&& self.players.texts_set(after.players, body, protocol)
            },
            PlayPacket::MapData => {
                &&& after == Play { maps: after.maps, ..self }
                &&& after.maps.maps@ =~= maps::maps_after(self.maps.maps@, body, protocol)
                &&& after.maps.latest == (match maps::map_update(body, protocol) {
                    Some(update) => Some(update.map_id),
                    None => self.maps.latest,
                })
            },
            PlayPacket::BlockEntityData => {
                &&& after == Play { signs: after.signs, ..self }
                &&& after.signs.signs@ =~= signs::signs_after(self.signs.signs@, body, protocol)
            },
            PlayPacket::EntityEffect => {
                &&& after == Play { effects: after.effects, ..self }
                &&& after.effects@ =~= effects::effects_with(
                    self.effects@,
                    self.player.entity_id,
                    body,
                )
            },
            PlayPacket::RemoveEntityEffect => {
                &&& after == Play { effects: after.effects, ..self }
                &&& after.effects@ =~= effects::effects_without(
                    self.effects@,
                    self.player.entity_id,
                    body,
                )
            },
            PlayPacket::UnlockRecipes => {
                &&& after == Play { recipes: after.recipes, ..self }
                &&& after.recipes@ =~= recipe_book::book_unlocked(self.recipes@, body)
            },
            PlayPacket::ResourcePack => if protocol.nbt_components() {
                after == self
            } else {
                &&& after == Play { packs: after.packs, ..self }
                &&& after.packs@ =~= packs::asked(self.packs@, body)
            },
            PlayPacket::Experience => after == Play {
                player: self.player.with_experience(body),
                ..self
            },
            PlayPacket::HeldItem => after == Play {
                player: self.player.holding(body, protocol),
                ..self
            },
            PlayPacket::Respawn => {
                &&& after == Play {
                    player: PlayerState { vehicle: None, ..self.player },
                    entities: after.entities,
                    ..self
                }
                &&& after.entities.entities@ =~= Map::<i32, entities::Entity>::empty()
            },
            PlayPacket::SpawnEntity
            | PlayPacket::SpawnPlayer
            | PlayPacket::EntityHeadRotation
            | PlayPacket::EntityRotation
            | PlayPacket::EntityVelocity
            | PlayPacket::EntityTeleport
            | PlayPacket::EntityAnimation
            | PlayPacket::HurtAnimation => {
                &&& after == Play { entities: after.entities, ..self }
                &&& after.entities.entities@ =~= entities_after(
                    self.entities.entities@,
                    packet,
                    body,
                    registry,
                )
            },
            PlayPacket::EntityDestroy => {
                &&& after == Play {
                    player: entities::unseated(self.player, body),
                    entities: after.entities,
                    ..self
                }
                &&& after.entities.entities@ =~= self.entities.entities@.remove_keys(
                    entities::destroyed(body).0.to_set(),
                )
            },
            PlayPacket::VehicleMove => {
                let ride = entities::ridden(self.entities.entities@, self.player, body);
                &&& after == Play { player: ride.player, entities: after.entities, ..self }
                &&& after.entities.entities@ =~= ride.entities
            },
            PlayPacket::SetPassengers => {
                let ride = entities::boarded(self.entities.entities@, self.player, body);
                &&& after == Play { player: ride.player, entities: after.entities, ..self }
                &&& after.entities.entities@ =~= ride.entities
            },
            _ => after == self,
        }
    }

    /// What is left to do after a packet.
    pub open spec fn rest(self, packet: PlayPacket, body: Seq<u8>, protocol: ProtocolVersion) -> Rest {
        match packet {
            PlayPacket::EntityRotation => seat(
                entities::bodies_turned(self.entities.entities@, body).1,
            ),
            PlayPacket::VehicleMove => seat(
                entities::ridden(self.entities.entities@, self.player, body).seat,
            ),
            PlayPacket::SetPassengers => seat(
                entities::boarded(self.entities.entities@, self.player, body).seat,
            ),
            PlayPacket::ResourcePack => if protocol.nbt_components() {
                Rest::Elsewhere
            } else {
                Rest::Nothing
            },
            PlayPacket::ScoreboardObjective => well_formed(
                scoreboard::objective_set(self.scoreboard@, body, protocol) is Some,
            ),
            PlayPacket::ScoreboardScore => well_formed(
                scoreboard::score_set(self.scoreboard@, body, protocol) is Some,
            ),
            PlayPacket::BlockChange
            | PlayPacket::ContainerContent
            | PlayPacket::ContainerSlot
            | PlayPacket::UnloadChunk
            | PlayPacket::MapChunk
            | PlayPacket::Particles
            | PlayPacket::JoinGame
            | PlayPacket::RelativeMove(_)
            | PlayPacket::EntityMetadata
            | PlayPacket::EntityEquipment
            | PlayPacket::Health
            | PlayPacket::Sound(_)
            | PlayPacket::DeclareRecipes => Rest::Elsewhere,
            _ => Rest::Nothing,
        }
    }
}

/// The entities after a packet about one of them alone.
pub open spec fn entities_after(
    entities: Map<i32, entities::Entity>,
    packet: PlayPacket,
    body: Seq<u8>,
    registry: EntityRegistry,
) -> Map<i32, entities::Entity> {
    match packet {
        PlayPacket::SpawnEntity => entities::joined_by(
            entities,
            entities::spawned_object(body, registry),
        ),
        PlayPacket::SpawnPlayer => entities::joined_by(entities, entities::spawned_player(body)),
        PlayPacket::EntityHeadRotation => entities::heads_turned(entities, body),
        PlayPacket::EntityRotation => entities::bodies_turned(entities, body).0,
        PlayPacket::EntityVelocity => entities::pushed(entities, body),
        PlayPacket::EntityTeleport => entities::transported(entities, body),
        PlayPacket::EntityAnimation => entities::animated(entities, body),
        PlayPacket::HurtAnimation => entities::hurt(entities, body),
        _ => entities,
    }
}

impl Play {
    /// A packet came from the server.
    pub fn receive(
        &mut self,
        packet: PlayPacket,
        body: &[u8],
        protocol: ProtocolVersion,
        registry: &EntityRegistry,
    ) -> (rest: Rest)
        requires
            old(self).wf(),
        ensures
            final(self).wf(),
            old(self).received(*final(self), packet, body@, protocol, *registry),
            rest == old(self).rest(packet, body@, protocol),
    {
        match packet {
            PlayPacket::ActionBar => self.messages.handle_action_bar(body, protocol),
            PlayPacket::Title(subtitle) => self.title.handle_title_text(body, subtitle, protocol),
            PlayPacket::TitleTime => self.title.handle_title_time(body),
            PlayPacket::ClearTitles => self.title.handle_clear_titles(body),
            PlayPacket::BossBar => handle_boss_bar(&mut self.boss_bars, body, protocol),
            PlayPacket::Border(change) => self.border.handle_packet(change, body),
            PlayPacket::GameState => self.change_game(body),
            PlayPacket::UpdateTime => self.environment.handle_update_time(body),
            PlayPacket::ScoreboardDisplay => self.scoreboard.handle_display(body),
            PlayPacket::ScoreboardObjective => {
                if !self.scoreboard.handle_objective(body, protocol) {
                    return Rest::Malformed;
                }
            },
            PlayPacket::ScoreboardScore => {
                if !self.scoreboard.handle_score(body, protocol) {
                    return Rest::Malformed;
                }
            },
            PlayPacket::Teams => self.scoreboard.handle_team_packet(body, protocol),
            PlayPacket::PlayerInfo => self.players.handle_player_info(body, protocol),
            PlayPacket::PlayerRemove => self.players.handle_player_remove(body),
            PlayPacket::PlayerListHeader => self.players.handle_header(body, protocol),
            PlayPacket::MapData => self.maps.handle_map_data(body, protocol),
            PlayPacket::BlockEntityData => self.signs.handle_block_entity_data(body, protocol),
            PlayPacket::EntityEffect => {
                handle_entity_effect(&mut self.effects, self.player.entity_id, body)
            },
            PlayPacket::RemoveEntityEffect => {
                handle_remove_effect(&mut self.effects, self.player.entity_id, body)
            },
            PlayPacket::UnlockRecipes => self.recipes.handle_unlock_recipes(body),
            PlayPacket::ResourcePack => {
                if protocol.uses_nbt_components() {
                    return Rest::Elsewhere;
                }
                self.packs.handle_resource_pack_request(body);
            },
            PlayPacket::Experience => self.player.handle_experience(body),
            PlayPacket::HeldItem => self.player.handle_held_item(body, protocol),
            PlayPacket::Respawn => {
                self.entities.clear();
                self.player.handle_respawn();
            },
            PlayPacket::SpawnEntity => self.entities.handle_spawn_object(body, registry),
            PlayPacket::SpawnPlayer => self.entities.handle_spawn_player(body),
            PlayPacket::EntityHeadRotation => self.entities.handle_entity_head_rotation(body),
            PlayPacket::EntityVelocity => self.entities.handle_entity_velocity(body),
            PlayPacket::EntityTeleport => self.entities.handle_entity_teleport(body),
            PlayPacket::EntityAnimation => self.entities.handle_animation(body),
            PlayPacket::HurtAnimation => self.entities.handle_hurt(body),
            PlayPacket::EntityDestroy => {
                self.entities.handle_entity_destroy(body, &mut self.player)
            },
            PlayPacket::EntityRotation => {
                let turned = self.entities.handle_entity_rotation(body);
                return to_seat(turned);
            },
            PlayPacket::VehicleMove => {
                let vehicle = self.entities.handle_vehicle_move(body, &mut self.player);
                return to_seat(vehicle);
            },
            PlayPacket::SetPassengers => {
                let vehicle = self.entities.handle_set_passengers(body, &mut self.player);
                return to_seat(vehicle);
            },
            PlayPacket::BlockChange
            | PlayPacket::ContainerContent
            | PlayPacket::ContainerSlot
            | PlayPacket::UnloadChunk
            | PlayPacket::MapChunk
            | PlayPacket::Particles
            | PlayPacket::JoinGame
            | PlayPacket::RelativeMove(_)
            | PlayPacket::EntityMetadata
            | PlayPacket::EntityEquipment
            | PlayPacket::Health
            | PlayPacket::Sound(_)
            | PlayPacket::DeclareRecipes => {
                return Rest::Elsewhere;
            },
        }
        Rest::Nothing
    }

    fn change_game(&mut self, body: &[u8])
        requires
            old(self).wf(),
        ensures
            *final(self) == game_changed(*old(self), body@),
    {
        match decode_game_state(body) {
            Some((reason, value)) => {
                if reason == 3 {
                    self.player.gamemode = to_byte(value);
                } else {
                    self.environment.change_weather(reason, value);
                }
            },
            None => {},
        }
    }

    /// The player joined a game: what it says of the player is kept, the rest
    /// is handed back.
    pub fn handle_join_game(
        &mut self,
        body: &[u8],
        protocol: ProtocolVersion,
        codec: Option<&Nbt>,
    ) -> (r: Option<JoinGame>)
        requires
            old(self).wf(),
        ensures
            final(self).wf(),
            match join::join_game(
                body@,
                protocol,
                match codec {
                    Some(codec) => Some(codec@),
                    None => None,
                },
            ) {
                Some(want) => {
                    &&& r matches Some(got) && got@ == want
                    &&& *final(self) == (Play {
                        player: PlayerState {
                            entity_id: want.entity_id,
                            gamemode: want.game_mode,
                            ..old(self).player
                        },
                        ..*old(self)
                    })
                },
                None => r is None && *final(self) == *old(self),
            },
    {
        let joined = decode_join_game(body, protocol, codec);
        match &joined {
            Some(game) => self.player.join(game.entity_id, game.game_mode),
            None => {},
        }
        joined
    }

    /// The state one tick later.
    pub open spec fn ticked(self, after: Play) -> bool {
        &&& after == Play {
            effects: after.effects,
            messages: self.messages.ticked(),
            title: self.title.ticked(),
            border: self.border.ticked().0,
            ..self
        }
        &&& after.effects@ =~= effects::ticked(self.effects@)
    }

    /// One tick passes. Hands back how far the world border gets on its way:
    /// the milliseconds covered and the milliseconds left before.
    pub fn tick(&mut self) -> (step: Option<(i32, i32)>)
        requires
            old(self).wf(),
        ensures
            final(self).wf(),
            old(self).ticked(*final(self)),
            step == old(self).border.ticked().1,
    {
        tick_effects(&mut self.effects);
        self.messages.tick();
        self.title.tick();
        self.border.tick()
    }
}

/// Packets of this kind never touch the windows of the player: what is in them
/// changes by the packets about windows and by clicks alone.
pub proof fn windows_are_left_alone(
    before: Play,
    after: Play,
    packet: PlayPacket,
    body: Seq<u8>,
    protocol: ProtocolVersion,
    registry: EntityRegistry,
)
    requires
        before.received(after, packet, body, protocol, registry),
    ensures
        after.windows == before.windows,
{
}

/// A packet that is about something else, or that breaks off, leaves what is
/// known of the game as it was.
pub proof fn foreign_packets_change_nothing(
    before: Play,
    after: Play,
    packet: PlayPacket,
    body: Seq<u8>,
    protocol: ProtocolVersion,
    registry: EntityRegistry,
)
    requires
        before.received(after, packet, body, protocol, registry),
        before.rest(packet, body, protocol) is Elsewhere || before.rest(
            packet,
            body,
            protocol,
        ) is Malformed,
    ensures
        after == (Play { scoreboard: after.scoreboard, ..before }),
        after.scoreboard@ == before.scoreboard@,
{
}

/// A respawn forgets every entity, and the player rides none.
pub proof fn respawns_start_over(
    before: Play,
    after: Play,
    body: Seq<u8>,
    protocol: ProtocolVersion,
    registry: EntityRegistry,
)
    requires
        before.received(after, PlayPacket::Respawn, body, protocol, registry),
    ensures
        after.entities.entities@.dom().is_empty(),
        after.player.vehicle is None,
{
}

/// What a packet says over the game is shown: the line above the hotbar, titles and their
/// times, boss bars and the border.
pub proof fn overlays_are_told_by_their_packets(
    before: Play,
    after: Play,
    packet: PlayPacket,
    body: Seq<u8>,
    protocol: ProtocolVersion,
    registry: EntityRegistry,
)
    requires
        before.received(after, packet, body, protocol, registry),
    ensures
        packet is ActionBar ==> before.messages.bar_set(after.messages, body, protocol),
        packet == PlayPacket::Title(false) ==> before.title.text_set(
            after.title,
            body,
            false,
            protocol,
        ),
        packet == PlayPacket::Title(true) ==> before.title.text_set(
            after.title,
            body,
            true,
            protocol,
        ),
        packet is TitleTime ==> after.title == before.title.timed(body),
        packet is ClearTitles ==> before.title.cleared(after.title, body),
        packet is BossBar ==> after.boss_bars@ == overlays::bars_after(
            before.boss_bars@,
            body,
            protocol,
        ),
        packet matches PlayPacket::Border(change) ==> after.border == overlays::border_after(
            before.border,
            change,
            body,
        ),
        packet is UpdateTime ==> after.environment == before.environment.timed(body),
        !(packet is ActionBar) ==> after.messages == before.messages,
        !(packet is Title || packet is TitleTime || packet is ClearTitles) ==> after.title
            == before.title,
        !(packet is BossBar) ==> after.boss_bars == before.boss_bars,
        !(packet is Border) ==> after.border == before.border,
        !(packet is UpdateTime || packet is GameState) ==> after.environment == before.environment,
{
}

/// The third reason for a change of the game is a new mode of the player, and leaves the
/// weather; all others leave the mode.
pub proof fn modes_change_by_the_third_reason(
    before: Play,
    after: Play,
    body: Seq<u8>,
    protocol: ProtocolVersion,
    registry: EntityRegistry,
    reason: u8,
    value: u32,
)
    requires
        before.received(after, PlayPacket::GameState, body, protocol, registry),
        overlays::game_state(body) == Some((reason, value)),
    ensures
        reason == 3 ==> after.player.gamemode == bits::whole_byte(value) && after.environment
            == before.environment,
        reason != 3 ==> after.player == before.player && after.environment
            == before.environment.weather_after(reason, value),
        after.player.health == before.player.health && after.player.x == before.player.x,
{
}

/// Scores, teams and the list of players change by the packets about them and by no others.
pub proof fn boards_are_told_by_their_packets(
    before: Play,
    after: Play,
    packet: PlayPacket,
    body: Seq<u8>,
    protocol: ProtocolVersion,
    registry: EntityRegistry,
)
    requires
        before.received(after, packet, body, protocol, registry),
    ensures
        packet is ScoreboardDisplay ==> after.scoreboard@ == scoreboard::displayed(
            before.scoreboard@,
            body,
        ),
        packet is ScoreboardObjective && scoreboard::objective_set(
            before.scoreboard@,
            body,
            protocol,
        ) is Some ==> Some(after.scoreboard@) == scoreboard::objective_set(
            before.scoreboard@,
            body,
            protocol,
        ),
        packet is ScoreboardScore && scoreboard::score_set(
            before.scoreboard@,
            body,
            protocol,
        ) is Some ==> Some(after.scoreboard@) == scoreboard::score_set(
            before.scoreboard@,
            body,
            protocol,
        ),
        packet is Teams ==> after.scoreboard@ == scoreboard::team_set(
            before.scoreboard@,
            body,
            protocol,
        ),
        packet is PlayerInfo ==> after.players.entries@ == players::after_info(
            before.players.entries@,
            body,
            protocol,
        ),
        packet is PlayerRemove ==> after.players.entries@ == players::after_removal(
            before.players.entries@,
            body,
        ),
        packet is PlayerListHeader ==> before.players.texts_set(after.players, body, protocol),
        !(packet is ScoreboardDisplay || packet is ScoreboardObjective || packet is ScoreboardScore
            || packet is Teams) ==> after.scoreboard == before.scoreboard,
        !(packet is PlayerInfo || packet is PlayerRemove || packet is PlayerListHeader)
            ==> after.players == before.players,
{
}

/// Maps, signs, effects, recipes and packs change by the packets about them and by no
/// others.
pub proof fn lists_are_told_by_their_packets(
    before: Play,
    after: Play,
    packet: PlayPacket,
    body: Seq<u8>,
    protocol: ProtocolVersion,
    registry: EntityRegistry,
)
    requires
        before.received(after, packet, body, protocol, registry),
    ensures
        packet is MapData ==> after.maps.maps@ == maps::maps_after(
            before.maps.maps@,
            body,
            protocol,
        ),
        packet is MapData ==> (maps::map_update(body, protocol) matches Some(update) ==> after.maps.latest
            == Some(update.map_id)),
        packet is BlockEntityData ==> after.signs.signs@ == signs::signs_after(
            before.signs.signs@,
            body,
            protocol,
        ),
        packet is EntityEffect ==> after.effects@ == effects::effects_with(
            before.effects@,
            before.player.entity_id,
            body,
        ),
        packet is RemoveEntityEffect ==> after.effects@ == effects::effects_without(
            before.effects@,
            before.player.entity_id,
            body,
        ),
        packet is UnlockRecipes ==> after.recipes@ == recipe_book::book_unlocked(
            before.recipes@,
            body,
        ),
        packet is ResourcePack && protocol.number() < 765 ==> after.packs@ == packs::asked(
            before.packs@,
            body,
        ),
        !(packet is MapData) ==> after.maps == before.maps,
        !(packet is BlockEntityData) ==> after.signs == before.signs,
        !(packet is EntityEffect || packet is RemoveEntityEffect) ==> after.effects
            == before.effects,
        !(packet is UnlockRecipes) ==> after.recipes == before.recipes,
        !(packet is ResourcePack) || protocol.number() >= 765 ==> after.packs == before.packs,
{
}

/// The packets about entities reach them: they come, turn, are pushed and carried, swing
/// their arm, get hurt and go.
pub proof fn entities_are_told_by_their_packets(
    before: Play,
    after: Play,
    packet: PlayPacket,
    body: Seq<u8>,
    protocol: ProtocolVersion,
    registry: EntityRegistry,
)
    requires
        before.received(after, packet, body, protocol, registry),
    ensures
        ({
            let old_ones = before.entities.entities@;
            let new_ones = after.entities.entities@;
            &&& packet is SpawnEntity ==> (entities::spawned_object(body, registry) matches Some(
                (id, entity),
            ) ==> new_ones == old_ones.insert(id, entity))
            &&& packet is SpawnPlayer ==> (entities::spawned_player(body) matches Some(
                (id, entity),
            ) ==> new_ones == old_ones.insert(id, entity))
            &&& packet is EntityHeadRotation ==> new_ones == entities::heads_turned(old_ones, body)
            &&& packet is EntityRotation ==> new_ones == entities::bodies_turned(old_ones, body).0
            &&& packet is EntityVelocity ==> new_ones == entities::pushed(old_ones, body)
            &&& packet is EntityTeleport ==> new_ones == entities::transported(old_ones, body)
            &&& packet is EntityAnimation ==> new_ones == entities::animated(old_ones, body)
            &&& packet is HurtAnimation ==> new_ones == entities::hurt(old_ones, body)
            &&& packet is VehicleMove ==> new_ones == entities::ridden(
                old_ones,
                before.player,
                body,
            ).entities
            &&& packet is SetPassengers ==> new_ones == entities::boarded(
                old_ones,
                before.player,
                body,
            ).entities
        }),
{
}

/// Destroyed entities are gone and the others stay as they were.
pub proof fn destroyed_entities_are_gone(
    before: Play,
    after: Play,
    body: Seq<u8>,
    protocol: ProtocolVersion,
    registry: EntityRegistry,
    id: i32,
)
    requires
        before.received(after, PlayPacket::EntityDestroy, body, protocol, registry),
    ensures
        after.entities.entities@.dom().contains(id) <==> before.entities.entities@.dom().contains(
            id,
        ) && !entities::destroyed(body).0.contains(id),
        after.entities.entities@.dom().contains(id) ==> after.entities.entities@[id]
            == before.entities.entities@[id],
        after.player.vehicle == Some(id) ==> before.player.vehicle == Some(id) && (
        entities::destroyed(body).1 ==> !entities::destroyed(body).0.contains(id)),
{
}

/// The player hears of its experience, of the slot it holds and of what it rides, and by
/// all other packets stays as it is.
pub proof fn players_are_told_by_their_packets(
    before: Play,
    after: Play,
    packet: PlayPacket,
    body: Seq<u8>,
    protocol: ProtocolVersion,
    registry: EntityRegistry,
)
    requires
        before.received(after, packet, body, protocol, registry),
    ensures
        packet is Experience ==> after.player == before.player.with_experience(body),
        packet is HeldItem ==> after.player == before.player.holding(body, protocol),
        packet is VehicleMove ==> after.player == entities::ridden(
            before.entities.entities@,
            before.player,
            body,
        ).player,
        packet is SetPassengers ==> after.player == entities::boarded(
            before.entities.entities@,
            before.player,
            body,
        ).player,
        packet is Respawn ==> after.player.x == before.player.x && after.player.health
            == before.player.health && after.player.entity_id == before.player.entity_id,
        !(packet is Experience || packet is HeldItem || packet is VehicleMove
            || packet is SetPassengers || packet is Respawn || packet is GameState
            || packet is EntityDestroy) ==> after.player == before.player,
{
}

/// A packet after which an entity may carry the player elsewhere says so; packets about
/// chunks, windows, metadata and the like are left to others; a broken score ends the
/// session.
pub proof fn packets_say_what_is_left(
    state: Play,
    packet: PlayPacket,
    body: Seq<u8>,
    protocol: ProtocolVersion,
)
    ensures
        ({
            let rest = state.rest(packet, body, protocol);
            &&& packet is VehicleMove ==> (rest is Seat <==> entities::ridden(
                state.entities.entities@,
                state.player,
                body,
            ).seat is Some)
            &&& rest matches Rest::Seat(id) ==> packet is VehicleMove && state.player.vehicle
                == Some(id) || packet is SetPassengers && (entities::passengers_of(
                body,
            ) matches Some((vehicle, passengers)) && vehicle == id && passengers.contains(
                state.player.entity_id,
            )) || packet is EntityRotation && (entities::id_and_byte(body) matches Some((turned, _))
                && turned == id)
            &&& packet is EntityRotation ==> (rest is Seat <==> entities::id_and_byte(body) is Some)
            &&& packet is SetPassengers ==> (rest is Seat <==> (entities::passengers_of(
                body,
            ) matches Some((_, passengers)) && passengers.contains(state.player.entity_id)))
            &&& rest is Elsewhere <==> packet is BlockChange || packet is ContainerContent
                || packet is ContainerSlot || packet is UnloadChunk || packet is MapChunk
                || packet is Particles || packet is JoinGame || packet is RelativeMove
                || packet is EntityMetadata || packet is EntityEquipment || packet is Health
                || packet is Sound || packet is DeclareRecipes || (packet is ResourcePack
                && protocol.number() >= 765)
            &&& rest is Malformed <==> (packet is ScoreboardObjective && scoreboard::objective_set(
                state.scoreboard@,
                body,
                protocol,
            ) is None) || (packet is ScoreboardScore && scoreboard::score_set(
                state.scoreboard@,
                body,
                protocol,
            ) is None)
        }),
{
}

/// A tick ages effects, counts down the line above the hotbar and the title, moves the
/// border on, and changes nothing else.
pub proof fn ticks_age_what_passes(before: Play, after: Play)
    requires
        before.ticked(after),
    ensures
        after.effects@ == effects::ticked(before.effects@),
        after.messages == before.messages.ticked(),
        after.title == before.title.ticked(),
        after.border == before.border.ticked().0,
        after.player == before.player,
        after.environment == before.environment,
        after.entities == before.entities,
        after.windows == before.windows,
        after.scoreboard == before.scoreboard,
        after.boss_bars == before.boss_bars,
        after.players == before.players,
        after.signs == before.signs,
        after.maps == before.maps,
        after.packs == before.packs,
        after.recipes == before.recipes,
{
}

} // verus!
