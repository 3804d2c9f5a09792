//! The state of the local player. Floating-point numbers are kept as their
//! bits.

use vstd::prelude::*;

use crate::bits::{self, is_at_most, is_less};
use crate::protocol::ProtocolVersion;
use crate::wire::{self, Reader};

verus! {

/// The bits of 20.0.
pub const FULL_HEALTH: u32 = 0x41a0_0000;

/// The bits of 0.05.
pub const FLYING_SPEED: u32 = 0x3d4c_cccd;

/// The bits of 0.1.
pub const WALKING_SPEED: u32 = 0x3dcc_cccd;

#[derive(Clone, Copy, Debug, PartialEq, Eq, Structural)]
pub struct PlayerState {
    pub entity_id: i32,
    pub x: u64,
    pub y: u64,
    pub z: u64,
    pub yaw: u32,
    pub pitch: u32,
    pub spawned: bool,
    pub on_ground: bool,
    pub health: u32,
    pub food: i32,
    /// The selected slot of the hotbar, 0 to 8.
    pub selected_slot: u8,
    /// 0 is survival, 1 creative, 2 adventure, 3 spectator.
    pub gamemode: u8,
    pub xp_bar: u32,
    pub xp_level: i32,
    pub sneaking: bool,
    pub sprinting: bool,
    pub allow_flying: bool,
    pub flying: bool,
    pub flying_speed: u32,
    pub walking_speed: u32,
    pub swimming: bool,
    pub gliding: bool,
    /// The entity that the player rides.
    pub vehicle: Option<i32>,
}

/// A player who has not spawned yet.
pub open spec fn new_player() -> PlayerState {
    PlayerState {
        entity_id: 0,
        x: 0,
        y: 0,
        z: 0,
        yaw: 0,
        pitch: 0,
        spawned: false,
        on_ground: false,
        health: FULL_HEALTH,
        food: 20,
        selected_slot: 0,
        gamemode: 0,
        xp_bar: 0,
        xp_level: 0,
        sneaking: false,
        sprinting: false,
        allow_flying: false,
        flying: false,
        flying_speed: FLYING_SPEED,
        walking_speed: WALKING_SPEED,
        swimming: false,
        gliding: false,
        vehicle: None,
    }
}

impl Default for PlayerState {
    fn default() -> (r: PlayerState)
        ensures
            r == new_player(),
    {
        PlayerState {
            entity_id: 0,
            x: 0,
            y: 0,
            z: 0,
            yaw: 0,
            pitch: 0,
            spawned: false,
            on_ground: false,
            health: FULL_HEALTH,
            food: 20,
            selected_slot: 0,
            gamemode: 0,
            xp_bar: 0,
            xp_level: 0,
            sneaking: false,
            sprinting: false,
            allow_flying: false,
            flying: false,
            flying_speed: FLYING_SPEED,
            walking_speed: WALKING_SPEED,
            swimming: false,
            gliding: false,
            vehicle: None,
        }
    }
}

/// What a change of health leads to.
#[derive(Clone, Copy, Debug, PartialEq, Eq, Structural)]
pub struct HealthOutcome {
    /// The player was hurt and lives.
    pub hurt: bool,
    /// The player has just died, and asks to respawn.
    pub respawn: bool,
    /// Whether the player is dead now.
    pub dead: bool,
}

pub open spec fn health_outcome(before: u32, health: u32, dead: bool) -> HealthOutcome {
    let alive = bits::less(0, health);
    let dying = bits::at_most(health, 0) && !dead;
    HealthOutcome {
        hurt: bits::less(health, before) && alive,
        respawn: dying,
        dead: if dying {
            true
        } else if alive {
            false
        } else {
            dead
        },
    }
}

/// Which parts of a position that the server sends are relative.
#[derive(Clone, Copy, Debug, PartialEq, Eq, Structural)]
pub struct Correction {
    pub x: bool,
    pub y: bool,
    pub z: bool,
    pub yaw: bool,
    pub pitch: bool,
    pub velocity_x: bool,
    pub velocity_y: bool,
    pub velocity_z: bool,
}

pub open spec fn correction_of(flags: i32) -> Correction {
    Correction {
        x: flags & 0x01 != 0,
        y: flags & 0x02 != 0,
        z: flags & 0x04 != 0,
        yaw: flags & 0x08 != 0,
        pitch: flags & 0x10 != 0,
        velocity_x: flags & 0x20 != 0,
        velocity_y: flags & 0x40 != 0,
        velocity_z: flags & 0x80 != 0,
    }
}

pub fn correction(flags: i32) -> (r: Correction)
    ensures
        r == correction_of(flags),
{
    Correction {
        x: flags & 0x01 != 0,
        y: flags & 0x02 != 0,
        z: flags & 0x04 != 0,
        yaw: flags & 0x08 != 0,
        pitch: flags & 0x10 != 0,
        velocity_x: flags & 0x20 != 0,
        velocity_y: flags & 0x40 != 0,
        velocity_z: flags & 0x80 != 0,
    }
}

/// The experience bar and level in a packet.
pub open spec fn experience(body: Seq<u8>) -> Option<(u32, i32)> {
    match wire::take_u32(body) {
        (Some(bar), rest) => match wire::take_varint(rest).0 {
            Some(level) => Some((bar, level)),
            None => None,
        },
        (None, _) => None,
    }
}

/// The slot of the hotbar that the server selects: one byte, or a variable
/// length number from protocol 769 on. Anything but 0 to 8 is ignored.
pub open spec fn held_slot(body: Seq<u8>, protocol: ProtocolVersion) -> Option<u8> {
    let slot = if protocol.since_769() {
        match wire::take_varint(body).0 {
            Some(slot) => Some(slot as int),
            None => None,
        }
    } else {
        match wire::take_u8(body).0 {
            Some(slot) => Some(slot as int),
            None => None,
        }
    };
    match slot {
        Some(slot) => if 0 <= slot <= 8 {
            Some(slot as u8)
        } else {
            None
        },
        None => None,
    }
}

impl PlayerState {
    /// The server let the player in.
    pub fn join(&mut self, entity_id: i32, gamemode: u8)
        ensures
            *final(self) == (PlayerState { entity_id, gamemode, ..*old(self) }),
    {
        self.entity_id = entity_id;
        self.gamemode = gamemode;
    }

    /// The player died or changed the dimension.
    pub fn handle_respawn(&mut self)
        ensures
            *final(self) == (PlayerState { vehicle: None, ..*old(self) }),
    {
        self.vehicle = None;
    }

    /// The server placed the player. Returns whether it did so for the first
    /// time.
    pub fn mark_spawned(&mut self) -> (first: bool)
        ensures
            first == !old(self).spawned,
            *final(self) == (PlayerState { spawned: true, ..*old(self) }),
    {
        let first: bool = !self.spawned;
        self.spawned = true;
        first
    }

    pub fn handle_abilities(&mut self, flags: i8, flying_speed: u32, walking_speed: u32)
        ensures
            *final(self) == (PlayerState {
                allow_flying: flags & 0x04 != 0,
                flying: flags & 0x02 != 0,
                flying_speed,
                walking_speed,
                ..*old(self)
            }),
    {
        self.allow_flying = flags & 0x04 != 0;
        self.flying = flags & 0x02 != 0;
        self.flying_speed = flying_speed;
        self.walking_speed = walking_speed;
    }

    pub fn handle_health(&mut self, health: u32, food: i32, dead: bool) -> (r: HealthOutcome)
        ensures
            *final(self) == (PlayerState { health, food, ..*old(self) }),
            r == health_outcome(old(self).health, health, dead),
    {
        let before: u32 = self.health;
        self.health = health;
        self.food = food;
        let alive: bool = is_less(0, health);
        let dying: bool = is_at_most(health, 0) && !dead;
        HealthOutcome {
            hurt: is_less(health, before) && alive,
            respawn: dying,
            dead: if dying {
                true
            } else if alive {
                false
            } else {
                dead
            },
        }
    }

    pub open spec fn with_experience(self, body: Seq<u8>) -> PlayerState {
        match experience(body) {
            Some((xp_bar, xp_level)) => PlayerState { xp_bar, xp_level, ..self },
            None => self,
        }
    }

    pub fn handle_experience(&mut self, body: &[u8])
        ensures
            *final(self) == old(self).with_experience(body@),
    {
        let mut r = Reader::new(body);
        match r.u32() {
            Some(bar) => match r.varint() {
                Some(level) => {
                    self.xp_bar = bar;
                    self.xp_level = level;
                },
                None => {},
            },
            None => {},
        }
    }

    pub open spec fn holding(self, body: Seq<u8>, protocol: ProtocolVersion) -> PlayerState {
        match held_slot(body, protocol) {
            Some(selected_slot) => PlayerState { selected_slot, ..self },
            None => self,
        }
    }

    pub fn handle_held_item(&mut self, body: &[u8], protocol: ProtocolVersion)
        ensures
            *final(self) == old(self).holding(body@, protocol),
    {
        let mut r = Reader::new(body);
        if protocol.since_769() {
            match r.varint() {
                Some(slot) => {
                    if 0 <= slot && slot <= 8 {
                        self.selected_slot = slot as u8;
                    }
                },
                None => {},
            }
        } else {
            match r.u8() {
                Some(slot) => {
                    if slot <= 8 {
                        self.selected_slot = slot;
                    }
                },
                None => {},
            }
        }
    }
}

/// A death is reported once: while the player stays dead, no further report of
/// that asks to respawn again, and a live player can die again.
pub proof fn deaths_are_reported_once(before: u32, health: u32, again: u32, dead: bool)
    ensures
        health_outcome(before, health, dead).respawn ==> !health_outcome(
            health,
            again,
            health_outcome(before, health, dead).dead,
        ).respawn,
        bits::less(0, health) ==> !health_outcome(before, health, dead).dead,
        health_outcome(before, health, dead).hurt ==> !health_outcome(before, health, dead).respawn,
{
}

/// Each part of a position has a bit of its own in the packet: x, y, z, yaw, pitch and
/// the three parts of the speed are relative exactly where the bits from the lowest on
/// are set.
pub proof fn parts_have_their_bits(flags: i32)
    ensures
        ({
            let relative = correction_of(flags);
            &&& relative.x <==> (flags as u32) % 2 == 1
            &&& relative.y <==> (flags as u32 / 2) % 2 == 1
            &&& relative.z <==> (flags as u32 / 4) % 2 == 1
            &&& relative.yaw <==> (flags as u32 / 8) % 2 == 1
            &&& relative.pitch <==> (flags as u32 / 16) % 2 == 1
            &&& relative.velocity_x <==> (flags as u32 / 32) % 2 == 1
            &&& relative.velocity_y <==> (flags as u32 / 64) % 2 == 1
            &&& relative.velocity_z <==> (flags as u32 / 128) % 2 == 1
        }),
{
    assert(flags & 0x01 != 0 <==> (flags as u32) % 2 == 1) by (bit_vector);
    assert(flags & 0x02 != 0 <==> (flags as u32 / 2) % 2 == 1) by (bit_vector);
    assert(flags & 0x04 != 0 <==> (flags as u32 / 4) % 2 == 1) by (bit_vector);
    assert(flags & 0x08 != 0 <==> (flags as u32 / 8) % 2 == 1) by (bit_vector);
    assert(flags & 0x10 != 0 <==> (flags as u32 / 16) % 2 == 1) by (bit_vector);
    assert(flags & 0x20 != 0 <==> (flags as u32 / 32) % 2 == 1) by (bit_vector);
    assert(flags & 0x40 != 0 <==> (flags as u32 / 64) % 2 == 1) by (bit_vector);
    assert(flags & 0x80 != 0 <==> (flags as u32 / 128) % 2 == 1) by (bit_vector);
}

/// Making one more part relative leaves the others as they are.
pub proof fn parts_are_independent(flags: i32)
    ensures
        correction_of(0) == (Correction {
            x: false,
            y: false,
            z: false,
            yaw: false,
            pitch: false,
            velocity_x: false,
            velocity_y: false,
            velocity_z: false,
        }),
        correction_of(flags | 1) == (Correction { x: true, ..correction_of(flags) }),
        correction_of(flags | 2) == (Correction { y: true, ..correction_of(flags) }),
        correction_of(flags | 4) == (Correction { z: true, ..correction_of(flags) }),
        correction_of(flags | 8) == (Correction { yaw: true, ..correction_of(flags) }),
        correction_of(flags | 16) == (Correction { pitch: true, ..correction_of(flags) }),
{
    assert(forall|m: i32| #[trigger] (0i32 & m) == 0) by (bit_vector);
    assert(forall|f: i32, m: i32| #[trigger] ((f | 1) & m) == (f & m) | (1 & m)) by (bit_vector);
    assert(forall|f: i32, m: i32| #[trigger] ((f | 2) & m) == (f & m) | (2 & m)) by (bit_vector);
    assert(forall|f: i32, m: i32| #[trigger] ((f | 4) & m) == (f & m) | (4 & m)) by (bit_vector);
    assert(forall|f: i32, m: i32| #[trigger] ((f | 8) & m) == (f & m) | (8 & m)) by (bit_vector);
    assert(forall|f: i32, m: i32| #[trigger] ((f | 16) & m) == (f & m) | (16 & m)) by (bit_vector);
    assert(forall|a: i32| #[trigger] (a | 0) == a) by (bit_vector);
    assert(forall|a: i32, b: i32| b != 0 ==> #[trigger] (a | b) != 0) by (bit_vector);
    lemma_single_bits();
}

proof fn lemma_single_bits()
    ensures
        1i32 & 1 == 1 && 1i32 & 2 == 0 && 1i32 & 4 == 0 && 1i32 & 8 == 0 && 1i32 & 16 == 0 && 1i32
            & 32 == 0 && 1i32 & 64 == 0 && 1i32 & 128 == 0,
        2i32 & 1 == 0 && 2i32 & 2 == 2 && 2i32 & 4 == 0 && 2i32 & 8 == 0 && 2i32 & 16 == 0 && 2i32
            & 32 == 0 && 2i32 & 64 == 0 && 2i32 & 128 == 0,
        4i32 & 1 == 0 && 4i32 & 2 == 0 && 4i32 & 4 == 4 && 4i32 & 8 == 0 && 4i32 & 16 == 0 && 4i32
            & 32 == 0 && 4i32 & 64 == 0 && 4i32 & 128 == 0,
        8i32 & 1 == 0 && 8i32 & 2 == 0 && 8i32 & 4 == 0 && 8i32 & 8 == 8 && 8i32 & 16 == 0 && 8i32
            & 32 == 0 && 8i32 & 64 == 0 && 8i32 & 128 == 0,
        16i32 & 1 == 0 && 16i32 & 2 == 0 && 16i32 & 4 == 0 && 16i32 & 8 == 0 && 16i32 & 16 == 16
            && 16i32 & 32 == 0 && 16i32 & 64 == 0 && 16i32 & 128 == 0,
{
    assert(1i32 & 1 == 1 && 1i32 & 2 == 0 && 1i32 & 4 == 0 && 1i32 & 8 == 0 && 1i32 & 16 == 0
        && 1i32 & 32 == 0 && 1i32 & 64 == 0 && 1i32 & 128 == 0 && 2i32 & 1 == 0 && 2i32 & 2 == 2
        && 2i32 & 4 == 0 && 2i32 & 8 == 0 && 2i32 & 16 == 0 && 2i32 & 32 == 0 && 2i32 & 64 == 0
        && 2i32 & 128 == 0 && 4i32 & 1 == 0 && 4i32 & 2 == 0 && 4i32 & 4 == 4 && 4i32 & 8 == 0
        && 4i32 & 16 == 0 && 4i32 & 32 == 0 && 4i32 & 64 == 0 && 4i32 & 128 == 0 && 8i32 & 1 == 0
        && 8i32 & 2 == 0 && 8i32 & 4 == 0 && 8i32 & 8 == 8 && 8i32 & 16 == 0 && 8i32 & 32 == 0
        && 8i32 & 64 == 0 && 8i32 & 128 == 0 && 16i32 & 1 == 0 && 16i32 & 2 == 0 && 16i32 & 4 == 0
        && 16i32 & 8 == 0 && 16i32 & 16 == 16 && 16i32 & 32 == 0 && 16i32 & 64 == 0 && 16i32 & 128
        == 0) by (bit_vector);
}

/// A player is hurt by losing health and living on, dies at zero or below, and asks to
/// respawn once. A report of health that is no number changes nothing of that.
pub proof fn health_decides_over_life(before: u32, health: u32, dead: bool)
    ensures
        ({
            let outcome = health_outcome(before, health, dead);
            let alive = 0 < health <= 0x7f80_0000;
            let gone = health == 0 || 0x8000_0000 <= health <= 0xff80_0000;
            &&& outcome.respawn <==> gone && !dead
            &&& outcome.dead <==> gone || (dead && !alive)
            &&& before <= 0x7f80_0000 ==> (outcome.hurt <==> alive && health < before)
            &&& outcome.hurt ==> alive
        }),
{
}

/// Experience comes as the bits of the bar and the level behind it, and changes
/// nothing else.
pub proof fn experience_sets_bar_and_level(
    player: PlayerState,
    body: Seq<u8>,
    bar: u32,
    rest: Seq<u8>,
    level: i32,
)
    requires
        wire::take_u32(body) == (Some(bar), rest),
        wire::take_varint(rest).0 == Some(level),
    ensures
        player.with_experience(body).xp_bar == bar,
        player.with_experience(body).xp_level == level,
        player.with_experience(body) == (PlayerState {
            xp_bar: player.with_experience(body).xp_bar,
            xp_level: player.with_experience(body).xp_level,
            ..player
        }),
{
}

/// The server selects a slot of the hotbar by its number, and none outside it.
pub proof fn selected_slots_are_in_the_hotbar(
    player: PlayerState,
    body: Seq<u8>,
    protocol: ProtocolVersion,
)
    ensures
        ({
            let after = player.holding(body, protocol);
            &&& after.selected_slot != player.selected_slot ==> after.selected_slot < 9
            &&& after == (PlayerState { selected_slot: after.selected_slot, ..player })
            &&& protocol is V1_21_4 || protocol is V1_21_5 ==> (wire::take_varint(
                body,
            ).0 matches Some(slot) ==> (0 <= slot < 9 ==> after.selected_slot == slot))
            &&& protocol !is V1_21_4 && protocol !is V1_21_5 && body.len() > 0 && body[0] < 9
                ==> after.selected_slot == body[0]
        }),
{
}

/// A new player has full health and food and nothing else: it has no place yet, no
/// experience, the first slot, and walks.
pub proof fn players_begin_whole()
    ensures
        ({
            let player = new_player();
            &&& player.health == 0x41a0_0000 && player.food == 20
            &&& player.entity_id == 0 && player.selected_slot == 0 && player.gamemode == 0
            &&& player.x == 0 && player.y == 0 && player.z == 0 && player.yaw == 0 && player.pitch
                == 0
            &&& player.xp_bar == 0 && player.xp_level == 0
            &&& !player.spawned && !player.on_ground && !player.sneaking && !player.sprinting
            &&& !player.allow_flying && !player.flying && !player.swimming && !player.gliding
            &&& player.flying_speed == 0x3d4c_cccd && player.walking_speed == 0x3dcc_cccd
            &&& player.vehicle is None
        }),
{
}

/// The abilities of a player are flags: the bit of 2 makes it fly and the one of 4 lets it;
/// the speeds come in flight first.
pub proof fn abilities_have_their_bits(
    player: &mut PlayerState,
    flags: i8,
    flying_speed: u32,
    walking_speed: u32,
)
    requires
        call_ensures(
            PlayerState::handle_abilities,
            (player, flags, flying_speed, walking_speed),
            (),
        ),
    ensures
        final(player).flying <==> (flags as u8 / 2) % 2 == 1,
        final(player).allow_flying <==> (flags as u8 / 4) % 2 == 1,
        final(player).flying_speed == flying_speed,
        final(player).walking_speed == walking_speed,
        final(player).health == old(player).health,
        final(player).gamemode == old(player).gamemode,
        final(player).x == old(player).x,
{
    assert((flags & 0x02 != 0 <==> (flags as u8 / 2) % 2 == 1) && (flags & 0x04 != 0 <==> (flags as u8
        / 4) % 2 == 1)) by (bit_vector);
}

/// A respawn takes the player off its vehicle and changes nothing else; joining a game sets
/// its number and its mode.
pub proof fn players_join_and_respawn(player: &mut PlayerState, entity_id: i32, gamemode: u8)
    ensures
        call_ensures(PlayerState::handle_respawn, (player,), ()) ==> *final(player) == (PlayerState {
            vehicle: None,
            ..*old(player)
        }),
        call_ensures(PlayerState::join, (player, entity_id, gamemode), ()) ==> *final(player) == (
        PlayerState { entity_id, gamemode, ..*old(player) }),
{
}

/// A player spawns once: only the first time is the first.
pub proof fn players_spawn_once(player: &mut PlayerState, first: bool)
    requires
        call_ensures(PlayerState::mark_spawned, (player,), first),
    ensures
        first <==> !old(player).spawned,
        final(player).spawned,
        final(player).health == old(player).health,
        final(player).x == old(player).x && final(player).y == old(player).y && final(player).z
            == old(player).z,
{
}

/// A packet that breaks off leaves experience and hotbar as they are.
pub proof fn broken_packets_leave_the_player(
    player: PlayerState,
    body: Seq<u8>,
    protocol: ProtocolVersion,
)
    ensures
        body.len() < 4 ==> player.with_experience(body) == player,
        body.len() == 0 ==> player.holding(body, protocol) == player,
        wire::take_varint(body).0 is None && protocol.number() >= 769 ==> player.holding(
            body,
            protocol,
        ) == player,
{
}

} // verus!
