//! The entities around the player. Floating-point numbers are kept as their
//! bits, angles and speeds in the steps that they travel in.

use vstd::prelude::*;
use vstd::string::*;

use crate::player::PlayerState;
use crate::table::{self, Table};
use crate::text::str_eq;
use crate::wire::{self, Reader, Taken};

verus! {

/// The kinds of entities by number, and how many block states there are.
#[derive(Debug)]
pub struct EntityRegistry {
    pub names: Vec<String>,
    pub block_states: u32,
}

impl EntityRegistry {
    pub open spec fn name_of(&self, type_id: i32) -> Option<Seq<char>> {
        if 0 <= type_id < self.names@.len() {
            Some(self.names@[type_id as int]@)
        } else {
            None
        }
    }

    /// The name of a kind of entity.
    pub fn entity_name(&self, type_id: i32) -> (r: Option<&str>)
        ensures
            match self.name_of(type_id) {
                Some(name) => r matches Some(got) && got@ == name,
                None => r is None,
            },
    {
        if type_id >= 0 && (type_id as usize) < self.names.len() {
            Some(self.names[type_id as usize].as_str())
        } else {
            None
        }
    }

    /// The block that falls, where the kind is that of falling blocks.
    pub open spec fn falling_state(&self, kind: i32, data: i32) -> Option<u32> {
        if self.name_of(kind) == Some("falling_block"@) && 0 <= data < self.block_states {
            Some(data as u32)
        } else {
            None
        }
    }

    /// Only a falling block carries a block state; other kinds use the same
    /// number otherwise.
    pub fn spawned_block_state(&self, kind: i32, data: i32) -> (r: Option<u32>)
        ensures
            r == self.falling_state(kind, data),
    {
        match self.entity_name(kind) {
            Some(name) => {
                if str_eq(name, "falling_block") && data >= 0 && (data as u32) < self.block_states {
                    Some(data as u32)
                } else {
                    None
                }
            },
            None => None,
        }
    }

    pub open spec fn sizable(&self, type_id: i32) -> bool {
        self.name_of(type_id) == Some("slime"@) || self.name_of(type_id) == Some("magma_cube"@)
    }

    pub fn is_sizable(&self, type_id: i32) -> (r: bool)
        ensures
            r == self.sizable(type_id),
    {
        match self.entity_name(type_id) {
            Some(name) => str_eq(name, "slime") || str_eq(name, "magma_cube"),
            None => false,
        }
    }
}

/// A direction: in 256ths of a turn, or in degrees by their bits.
#[derive(Clone, Copy, Debug, PartialEq, Eq, Structural)]
pub enum Angle {
    Step(u8),
    Degrees(u32),
}

/// Half the width of an entity.
#[derive(Clone, Copy, Debug, PartialEq, Eq, Structural)]
pub enum Girth {
    /// As the registry says of its kind.
    OfKind,
    /// The one for unknown kinds.
    Unknown,
    Player,
    /// That of a slime of some size.
    Slime(i32),
}

/// The height of an entity.
#[derive(Clone, Copy, Debug, PartialEq, Eq, Structural)]
pub enum Height {
    OfKind,
    Unknown,
    Player,
    Slime(i32),
    /// Swimming or spinning.
    Lying,
    Crouching,
}

/// The speed of an entity along the three axes.
#[derive(Clone, Copy, Debug, PartialEq, Eq, Structural)]
pub struct Velocity {
    pub x: i16,
    pub y: i16,
    pub z: i16,
}

/// The items that an entity holds and wears.
#[derive(Clone, Copy, Debug, PartialEq, Eq, Structural)]
pub struct Equipment {
    pub main_hand: Option<i32>,
    pub off_hand: Option<i32>,
    pub boots: Option<i32>,
    pub leggings: Option<i32>,
    pub chestplate: Option<i32>,
    pub helmet: Option<i32>,
}

impl Equipment {
    pub open spec fn spec_with(self, slot: int, item: Option<i32>) -> Equipment {
        if slot == 0 {
            Equipment { main_hand: item, ..self }
        } else if slot == 1 {
            Equipment { off_hand: item, ..self }
        } else if slot == 2 {
            Equipment { boots: item, ..self }
        } else if slot == 3 {
            Equipment { leggings: item, ..self }
        } else if slot == 4 {
            Equipment { chestplate: item, ..self }
        } else if slot == 5 {
            Equipment { helmet: item, ..self }
        } else {
            self
        }
    }

    /// The equipment with an item in a slot; a slot beyond the six is ignored.
    pub fn with(self, slot: u8, item: Option<i32>) -> (r: Equipment)
        ensures
            r == self.spec_with(slot as int, item),
    {
        let mut r = self;
        if slot == 0 {
            r.main_hand = item;
        } else if slot == 1 {
            r.off_hand = item;
        } else if slot == 2 {
            r.boots = item;
        } else if slot == 3 {
            r.leggings = item;
        } else if slot == 4 {
            r.chestplate = item;
        } else if slot == 5 {
            r.helmet = item;
        }
        r
    }
}

/// An entity other than the player.
#[derive(Clone, Copy, Debug, PartialEq, Eq, Structural)]
pub struct Entity {
    pub x: u64,
    pub y: u64,
    pub z: u64,
    pub girth: Girth,
    pub height: Height,
    pub type_id: i32,
    /// The size of a slime, 1 for all others.
    pub scale: i32,
    pub yaw: Angle,
    pub head_yaw: Angle,
    pub velocity: Velocity,
    pub equipment: Equipment,
    /// The entity that it rides.
    pub vehicle: Option<i32>,
    pub pose: i32,
    pub invisible: bool,
    pub glowing: bool,
    /// How often it has swung its arm.
    pub swing_sequence: u64,
    /// How often it was hurt.
    pub hurt_sequence: u64,
    /// The item of a dropped stack.
    pub item: Option<i32>,
    /// The state of a falling block.
    pub block_state: Option<u32>,
}

impl View for Entity {
    type V = Entity;

    open spec fn view(&self) -> Entity {
        *self
    }
}

/// The number of the kind of players.
pub const PLAYER_KIND: i32 = 122;

pub open spec fn bare() -> Equipment {
    Equipment {
        main_hand: None,
        off_hand: None,
        boots: None,
        leggings: None,
        chestplate: None,
        helmet: None,
    }
}

/// An entity that has just appeared.
pub open spec fn fresh(
    x: u64,
    y: u64,
    z: u64,
    type_id: i32,
    girth: Girth,
    height: Height,
    yaw: Angle,
    head_yaw: Angle,
) -> Entity {
    Entity {
        x,
        y,
        z,
        girth,
        height,
        type_id,
        scale: 1,
        yaw,
        head_yaw,
        velocity: Velocity { x: 0, y: 0, z: 0 },
        equipment: bare(),
        vehicle: None,
        pose: 0,
        invisible: false,
        glowing: false,
        swing_sequence: 0,
        hurt_sequence: 0,
        item: None,
        block_state: None,
    }
}

fn new_entity(
    x: u64,
    y: u64,
    z: u64,
    type_id: i32,
    girth: Girth,
    height: Height,
    yaw: Angle,
    head_yaw: Angle,
) -> (r: Entity)
    ensures
        r == fresh(x, y, z, type_id, girth, height, yaw, head_yaw),
{
    Entity {
        x,
        y,
        z,
        girth,
        height,
        type_id,
        scale: 1,
        yaw,
        head_yaw,
        velocity: Velocity { x: 0, y: 0, z: 0 },
        equipment: Equipment {
            main_hand: None,
            off_hand: None,
            boots: None,
            leggings: None,
            chestplate: None,
            helmet: None,
        },
        vehicle: None,
        pose: 0,
        invisible: false,
        glowing: false,
        swing_sequence: 0,
        hurt_sequence: 0,
        item: None,
        block_state: None,
    }
}

/// Three numbers of eight bytes.
pub open spec fn take_point(s: Seq<u8>) -> Taken<(u64, u64, u64)> {
    match wire::take_u64(s) {
        (Some(x), rest) => match wire::take_u64(rest) {
            (Some(y), rest) => match wire::take_u64(rest) {
                (Some(z), rest) => (Some((x, y, z)), rest),
                (None, rest) => (None, rest),
            },
            (None, rest) => (None, rest),
        },
        (None, rest) => (None, rest),
    }
}

fn read_point(r: &mut Reader) -> (v: Option<(u64, u64, u64)>)
    ensures
        (v, final(r)@) == take_point(old(r)@),
{
    let x: u64 = match r.u64() {
        Some(v) => v,
        None => return None,
    };
    let y: u64 = match r.u64() {
        Some(v) => v,
        None => return None,
    };
    match r.u64() {
        Some(z) => Some((x, y, z)),
        None => None,
    }
}

pub open spec fn take_velocity(s: Seq<u8>) -> Taken<Velocity> {
    match wire::take_i16(s) {
        (Some(x), rest) => match wire::take_i16(rest) {
            (Some(y), rest) => match wire::take_i16(rest) {
                (Some(z), rest) => (Some(Velocity { x, y, z }), rest),
                (None, rest) => (None, rest),
            },
            (None, rest) => (None, rest),
        },
        (None, rest) => (None, rest),
    }
}

fn read_velocity(r: &mut Reader) -> (v: Option<Velocity>)
    ensures
        (v, final(r)@) == take_velocity(old(r)@),
{
    let x: i16 = match r.i16() {
        Some(v) => v,
        None => return None,
    };
    let y: i16 = match r.i16() {
        Some(v) => v,
        None => return None,
    };
    match r.i16() {
        Some(z) => Some(Velocity { x, y, z }),
        None => None,
    }
}

/// The pitch, the yaw and the yaw of the head.
pub open spec fn take_angles(s: Seq<u8>) -> Taken<(u8, u8)> {
    match wire::take_u8(s) {
        (Some(_), rest) => match wire::take_u8(rest) {
            (Some(yaw), rest) => match wire::take_u8(rest) {
                (Some(head_yaw), rest) => (Some((yaw, head_yaw)), rest),
                (None, rest) => (None, rest),
            },
            (None, rest) => (None, rest),
        },
        (None, rest) => (None, rest),
    }
}

fn read_angles(r: &mut Reader) -> (v: Option<(u8, u8)>)
    ensures
        (v, final(r)@) == take_angles(old(r)@),
{
    if r.u8().is_none() {
        return None;
    }
    match r.u8() {
        Some(yaw) => match r.u8() {
            Some(head_yaw) => Some((yaw, head_yaw)),
            None => None,
        },
        None => None,
    }
}

/// An entity that appears, under its number.
pub open spec fn spawned_object(body: Seq<u8>, registry: EntityRegistry) -> Option<(i32, Entity)> {
    match wire::take_varint(body) {
        (Some(id), rest) => match wire::take_uuid(rest) {
            (Some(_), rest) => match wire::take_varint(rest) {
                (Some(kind), rest) => match take_point(rest) {
                    (Some((x, y, z)), rest) => match take_angles(rest) {
                        (Some((yaw, head_yaw)), rest) => match wire::take_varint(rest) {
                            (Some(data), rest) => match take_velocity(rest).0 {
                                Some(velocity) => Some(
                                    (
                                        id,
                                        Entity {
                                            velocity,
                                            block_state: registry.falling_state(kind, data),
                                            ..fresh(
                                                x,
                                                y,
                                                z,
                                                kind,
                                                if registry.name_of(kind) is Some {
                                                    Girth::OfKind
                                                } else {
                                                    Girth::Unknown
                                                },
                                                if registry.name_of(kind) is Some {
                                                    Height::OfKind
                                                } else {
                                                    Height::Unknown
                                                },
                                                Angle::Step(yaw),
                                                Angle::Step(head_yaw),
                                            )
                                        },
                                    ),
                                ),
                                None => None,
                            },
                            (None, _) => None,
                        },
                        (None, _) => None,
                    },
                    (None, _) => None,
                },
                (None, _) => None,
            },
            (None, _) => None,
        },
        (None, _) => None,
    }
}

/// A player that appears, under its number.
pub open spec fn spawned_player(body: Seq<u8>) -> Option<(i32, Entity)> {
    match wire::take_varint(body) {
        (Some(id), rest) => match wire::take_uuid(rest) {
            (Some(_), rest) => match take_point(rest) {
                (Some((x, y, z)), rest) => match wire::take_u8(rest).0 {
                    Some(yaw) => Some(
                        (
                            id,
                            fresh(
                                x,
                                y,
                                z,
                                PLAYER_KIND,
                                Girth::Player,
                                Height::Player,
                                Angle::Step(yaw),
                                Angle::Step(yaw),
                            ),
                        ),
                    ),
                    None => None,
                },
                (None, _) => None,
            },
            (None, _) => None,
        },
        (None, _) => None,
    }
}

/// The entities by number.
#[derive(Debug)]
pub struct Entities {
    pub entities: Table<i32, Entity>,
}

/// Entities of which one has changed; a number that is unknown changes
/// nothing.
pub open spec fn with_changed(
    entities: Map<i32, Entity>,
    id: i32,
    change: spec_fn(Entity) -> Entity,
) -> Map<i32, Entity> {
    if entities.dom().contains(id) {
        entities.insert(id, change(entities[id]))
    } else {
        entities
    }
}

/// A number and a byte.
pub open spec fn id_and_byte(body: Seq<u8>) -> Option<(i32, u8)> {
    match wire::take_varint(body) {
        (Some(id), rest) => match wire::take_u8(rest).0 {
            Some(byte) => Some((id, byte)),
            None => None,
        },
        (None, _) => None,
    }
}

fn read_id_and_byte(body: &[u8]) -> (v: Option<(i32, u8)>)
    ensures
        v == id_and_byte(body@),
{
    let mut r = Reader::new(body);
    match r.varint() {
        Some(id) => match r.u8() {
            Some(byte) => Some((id, byte)),
            None => None,
        },
        None => None,
    }
}

pub open spec fn id_and_velocity(body: Seq<u8>) -> Option<(i32, Velocity)> {
    match wire::take_varint(body) {
        (Some(id), rest) => match take_velocity(rest).0 {
            Some(velocity) => Some((id, velocity)),
            None => None,
        },
        (None, _) => None,
    }
}

/// How far an entity moved, in 4096ths of a block, and how it is turned, where
/// the packet says so.
#[derive(Clone, Copy, Debug, PartialEq, Eq, Structural)]
pub struct RelativeMove {
    pub id: i32,
    pub dx: i16,
    pub dy: i16,
    pub dz: i16,
    pub yaw: Option<u8>,
}

pub open spec fn relative_move(body: Seq<u8>, has_rot: bool) -> Option<RelativeMove> {
    match wire::take_varint(body) {
        (Some(id), rest) => match take_velocity(rest) {
            (Some(step), rest) => if has_rot {
                match wire::take_u8(rest) {
                    (Some(yaw), rest) => match wire::take_u8(rest).0 {
                        Some(_) => Some(
                            RelativeMove {
                                id,
                                dx: step.x,
                                dy: step.y,
                                dz: step.z,
                                yaw: Some(yaw),
                            },
                        ),
                        None => None,
                    },
                    (None, _) => None,
                }
            } else {
                Some(RelativeMove { id, dx: step.x, dy: step.y, dz: step.z, yaw: None })
            },
            (None, _) => None,
        },
        (None, _) => None,
    }
}

pub fn decode_rel_move(body: &[u8], has_rot: bool) -> (v: Option<RelativeMove>)
    ensures
        v == relative_move(body@, has_rot),
{
    let mut r = Reader::new(body);
    let id: i32 = match r.varint() {
        Some(v) => v,
        None => return None,
    };
    let step = match read_velocity(&mut r) {
        Some(v) => v,
        None => return None,
    };
    let yaw: Option<u8> = if has_rot {
        match r.u8() {
            Some(yaw) => {
                if r.u8().is_none() {
                    return None;
                }
                Some(yaw)
            },
            None => return None,
        }
    } else {
        None
    };
    Some(RelativeMove { id, dx: step.x, dy: step.y, dz: step.z, yaw })
}

/// Where an entity was put, and its yaw.
pub open spec fn teleported(body: Seq<u8>) -> Option<(i32, (u64, u64, u64), u8)> {
    match wire::take_varint(body) {
        (Some(id), rest) => match take_point(rest) {
            (Some(point), rest) => match wire::take_u8(rest).0 {
                Some(yaw) => Some((id, point, yaw)),
                None => None,
            },
            (None, _) => None,
        },
        (None, _) => None,
    }
}

/// Where the server put the vehicle of the player: a point, yaw and pitch.
pub open spec fn vehicle_moved(body: Seq<u8>) -> Option<((u64, u64, u64), u32, u32)> {
    match take_point(body) {
        (Some(point), rest) => match wire::take_u32(rest) {
            (Some(yaw), rest) => match wire::take_u32(rest).0 {
                Some(pitch) => Some((point, yaw, pitch)),
                None => None,
            },
            (None, _) => None,
        },
        (None, _) => None,
    }
}

/// `n` more numbers behind those in `acc`.
pub open spec fn take_ids(s: Seq<u8>, n: nat, acc: Seq<i32>) -> Taken<Seq<i32>>
    decreases n,
{
    if n == 0 {
        (Some(acc), s)
    } else {
        match wire::take_varint(s) {
            (Some(id), rest) => take_ids(rest, (n - 1) as nat, acc.push(id)),
            (None, rest) => (None, rest),
        }
    }
}

pub open spec fn count_of(count: i32) -> nat {
    if count > 0 {
        count as nat
    } else {
        0
    }
}

/// A vehicle and its passengers.
pub open spec fn passengers_of(body: Seq<u8>) -> Option<(i32, Seq<i32>)> {
    match wire::take_varint(body) {
        (Some(vehicle), rest) => match wire::take_varint(rest) {
            (Some(count), rest) => match take_ids(rest, count_of(count), Seq::empty()).0 {
                Some(ids) => Some((vehicle, ids)),
                None => None,
            },
            (None, _) => None,
        },
        (None, _) => None,
    }
}

fn decode_passengers(body: &[u8]) -> (v: Option<(i32, Vec<i32>)>)
    ensures
        match passengers_of(body@) {
            Some((vehicle, ids)) => v matches Some(got) && got.0 == vehicle && got.1@ == ids,
            None => v is None,
        },
{
    let mut r = Reader::new(body);
    let vehicle: i32 = match r.varint() {
        Some(v) => v,
        None => return None,
    };
    let count: i32 = match r.varint() {
        Some(v) => v,
        None => return None,
    };
    let mut ids: Vec<i32> = Vec::new();
    let mut left: i32 = if count > 0 {
        count
    } else {
        0
    };
    let ghost want = take_ids(r@, count_of(count), Seq::empty());
    while left > 0
        invariant
            0 <= left,
            passengers_of(body@) == (match want.0 {
                Some(ids) => Some((vehicle, ids)),
                None => None,
            }),
            want == take_ids(r@, left as nat, ids@),
        decreases left,
    {
        match r.varint() {
            Some(id) => ids.push(id),
            None => return None,
        }
        left = left - 1;
    }
    Some((vehicle, ids))
}

fn has_id(ids: &Vec<i32>, id: i32) -> (r: bool)
    ensures
        r == ids@.contains(id),
{
    let mut i: usize = 0;
    while i < ids.len()
        invariant
            i <= ids@.len(),
            forall|k: int| 0 <= k < i ==> ids@[k] != id,
        decreases ids@.len() - i,
    {
        if ids[i] == id {
            return true;
        }
        i = i + 1;
    }
    false
}

/// What becomes of an entity when a vehicle has new passengers: those ride it,
/// others that rode it have left. The player is not among the entities.
pub open spec fn seated(
    id: i32,
    entity: Entity,
    vehicle: i32,
    passengers: Seq<i32>,
    player: i32,
) -> Entity {
    if passengers.contains(id) && id != player {
        Entity { vehicle: Some(vehicle), ..entity }
    } else if entity.vehicle == Some(vehicle) {
        Entity { vehicle: None, ..entity }
    } else {
        entity
    }
}

pub open spec fn all_seated(
    entities: Map<i32, Entity>,
    vehicle: i32,
    passengers: Seq<i32>,
    player: i32,
) -> Map<i32, Entity> {
    Map::new(
        |id: i32| entities.dom().contains(id),
        |id: i32| seated(id, entities[id], vehicle, passengers, player),
    )
}

/// The vehicle of the player when a vehicle has new passengers.
pub open spec fn player_seat(
    current: Option<i32>,
    vehicle: i32,
    passengers: Seq<i32>,
    player: i32,
) -> Option<i32> {
    if passengers.contains(player) {
        Some(vehicle)
    } else if current == Some(vehicle) {
        None
    } else {
        current
    }
}

/// The player when a vehicle has new passengers: one who mounts it is put over
/// it.
pub open spec fn rider_after(
    player: PlayerState,
    entities: Map<i32, Entity>,
    vehicle: i32,
    passengers: Seq<i32>,
) -> PlayerState {
    let over = passengers.contains(player.entity_id) && entities.dom().contains(vehicle);
    PlayerState {
        vehicle: player_seat(player.vehicle, vehicle, passengers, player.entity_id),
        x: if over {
            entities[vehicle].x
        } else {
            player.x
        },
        z: if over {
            entities[vehicle].z
        } else {
            player.z
        },
        ..player
    }
}

/// Entities without `n` more of them, and their numbers behind those in `acc`;
/// the flag says whether all the numbers could be read.
pub open spec fn take_gone(s: Seq<u8>, n: nat, acc: Seq<i32>) -> (Seq<i32>, bool)
    decreases n,
{
    if n == 0 {
        (acc, true)
    } else {
        match wire::take_varint(s) {
            (Some(id), rest) => take_gone(rest, (n - 1) as nat, acc.push(id)),
            (None, _) => (acc, false),
        }
    }
}

/// The entities that a packet removes, and whether it was read to its end.
pub open spec fn destroyed(body: Seq<u8>) -> (Seq<i32>, bool) {
    match wire::take_varint(body) {
        (Some(count), rest) => take_gone(rest, count_of(count), Seq::empty()),
        (None, _) => (Seq::empty(), false),
    }
}

/// The entities with one more, where a packet brought one.
pub open spec fn joined_by(
    entities: Map<i32, Entity>,
    spawned: Option<(i32, Entity)>,
) -> Map<i32, Entity> {
    match spawned {
        Some((id, entity)) => entities.insert(id, entity),
        None => entities,
    }
}

/// The entities after one turned its head.
pub open spec fn heads_turned(entities: Map<i32, Entity>, body: Seq<u8>) -> Map<i32, Entity> {
    match id_and_byte(body) {
        Some((id, yaw)) => with_changed(
            entities,
            id,
            |e: Entity| Entity { head_yaw: Angle::Step(yaw), ..e },
        ),
        None => entities,
    }
}

/// The entities after one got a velocity.
pub open spec fn pushed(entities: Map<i32, Entity>, body: Seq<u8>) -> Map<i32, Entity> {
    match id_and_velocity(body) {
        Some((id, velocity)) => with_changed(entities, id, |e: Entity| Entity { velocity, ..e }),
        None => entities,
    }
}

/// The entities after one was put elsewhere.
pub open spec fn transported(entities: Map<i32, Entity>, body: Seq<u8>) -> Map<i32, Entity> {
    match teleported(body) {
        Some((id, point, yaw)) => with_changed(
            entities,
            id,
            |e: Entity|
                Entity { x: point.0, y: point.1, z: point.2, yaw: Angle::Step(yaw), ..e },
        ),
        None => entities,
    }
}

/// The entities after one swung a hand.
pub open spec fn animated(entities: Map<i32, Entity>, body: Seq<u8>) -> Map<i32, Entity> {
    match id_and_byte(body) {
        Some((id, animation)) => if animation == 0 || animation == 3 {
            with_changed(
                entities,
                id,
                |e: Entity| Entity { swing_sequence: counted(e.swing_sequence), ..e },
            )
        } else {
            entities
        },
        None => entities,
    }
}

/// The entities after one was hurt.
pub open spec fn hurt(entities: Map<i32, Entity>, body: Seq<u8>) -> Map<i32, Entity> {
    match wire::take_varint(body).0 {
        Some(id) => with_changed(
            entities,
            id,
            |e: Entity| Entity { hurt_sequence: counted(e.hurt_sequence), ..e },
        ),
        None => entities,
    }
}

/// The entities after one turned, and which one did.
pub open spec fn bodies_turned(
    entities: Map<i32, Entity>,
    body: Seq<u8>,
) -> (Map<i32, Entity>, Option<i32>) {
    match id_and_byte(body) {
        Some((id, yaw)) => (
            with_changed(entities, id, |e: Entity| Entity { yaw: Angle::Step(yaw), ..e }),
            Some(id),
        ),
        None => (entities, None),
    }
}

/// What becomes of a ride: the entities, the player, and the vehicle on whose
/// seat the player is put.
pub struct Ride {
    pub entities: Map<i32, Entity>,
    pub player: PlayerState,
    pub seat: Option<i32>,
}

/// The server moved the vehicle of the player.
pub open spec fn ridden(entities: Map<i32, Entity>, player: PlayerState, body: Seq<u8>) -> Ride {
    let still = Ride { entities, player, seat: None };
    match (vehicle_moved(body), player.vehicle) {
        (Some((point, yaw, pitch)), Some(id)) => if entities.dom().contains(id) {
            Ride {
                entities: with_changed(
                    entities,
                    id,
                    |e: Entity|
                        Entity {
                            x: point.0,
                            y: point.1,
                            z: point.2,
                            yaw: Angle::Degrees(yaw),
                            ..e
                        },
                ),
                player: PlayerState { x: point.0, z: point.2, yaw, pitch, ..player },
                seat: Some(id),
            }
        } else {
            still
        },
        _ => still,
    }
}

/// The server named the passengers of a vehicle.
pub open spec fn boarded(entities: Map<i32, Entity>, player: PlayerState, body: Seq<u8>) -> Ride {
    match passengers_of(body) {
        Some((vehicle, passengers)) => Ride {
            entities: all_seated(entities, vehicle, passengers, player.entity_id),
            player: rider_after(player, entities, vehicle, passengers),
            seat: if passengers.contains(player.entity_id) {
                Some(vehicle)
            } else {
                None
            },
        },
        None => Ride { entities, player, seat: None },
    }
}

/// The player after entities were removed, dismounted where its own was among
/// them.
pub open spec fn unseated(player: PlayerState, body: Seq<u8>) -> PlayerState {
    PlayerState {
        vehicle: if destroyed(body).1 && player.vehicle is Some && destroyed(body).0.contains(
            player.vehicle->0,
        ) {
            None
        } else {
            player.vehicle
        },
        ..player
    }
}

impl Entities {
    pub open spec fn wf(&self) -> bool {
        self.entities.wf()
    }

    pub fn new() -> (r: Self)
        ensures
            r.wf(),
            r.entities@ == Map::<i32, Entity>::empty(),
    {
        Entities { entities: Table::new() }
    }

    /// No entity is kept across a respawn.
    pub fn clear(&mut self)
        ensures
            final(self).wf(),
            final(self).entities@ == Map::<i32, Entity>::empty(),
    {
        self.entities = Table::new();
    }

    /// Puts an entity in the place of the one that has its number.
    fn put(&mut self, id: i32, entity: Entity)
        requires
            old(self).wf(),
        ensures
            final(self).wf(),
            final(self).entities@ == old(self).entities@.insert(id, entity),
    {
        self.entities.insert(id, entity);
    }

    fn at(&self, id: i32) -> (r: Option<Entity>)
        requires
            self.wf(),
        ensures
            match r {
                Some(entity) => self.entities@.dom().contains(id) && self.entities@[id] == entity,
                None => !self.entities@.dom().contains(id),
            },
    {
        match self.entities.get(&id) {
            Some(entity) => Some(*entity),
            None => None,
        }
    }

    pub fn handle_spawn_object(&mut self, body: &[u8], registry: &EntityRegistry)
        requires
            old(self).wf(),
        ensures
            final(self).wf(),
            final(self).entities@ == joined_by(
                old(self).entities@,
                spawned_object(body@, *registry),
            ),
    {
        let mut r = Reader::new(body);
        let id: i32 = match r.varint() {
            Some(v) => v,
            None => return ,
        };
        if r.uuid().is_none() {
            return ;
        }
        let kind: i32 = match r.varint() {
            Some(v) => v,
            None => return ,
        };
        let (x, y, z): (u64, u64, u64) = match read_point(&mut r) {
            Some(v) => v,
            None => return ,
        };
        let (yaw, head_yaw): (u8, u8) = match read_angles(&mut r) {
            Some(v) => v,
            None => return ,
        };
        let data: i32 = match r.varint() {
            Some(v) => v,
            None => return ,
        };
        let velocity = match read_velocity(&mut r) {
            Some(v) => v,
            None => return ,
        };
        let known: bool = registry.entity_name(kind).is_some();
        let mut entity = new_entity(
            x,
            y,
            z,
            kind,
            if known {
                Girth::OfKind
            } else {
                Girth::Unknown
            },
            if known {
                Height::OfKind
            } else {
                Height::Unknown
            },
            Angle::Step(yaw),
            Angle::Step(head_yaw),
        );
        entity.velocity = velocity;
        entity.block_state = registry.spawned_block_state(kind, data);
        self.put(id, entity);
    }

    pub fn handle_spawn_player(&mut self, body: &[u8])
        requires
            old(self).wf(),
        ensures
            final(self).wf(),
            final(self).entities@ == joined_by(old(self).entities@, spawned_player(body@)),
    {
        let mut r = Reader::new(body);
        let id: i32 = match r.varint() {
            Some(v) => v,
            None => return ,
        };
        if r.uuid().is_none() {
            return ;
        }
        let (x, y, z): (u64, u64, u64) = match read_point(&mut r) {
            Some(v) => v,
            None => return ,
        };
        match r.u8() {
            Some(yaw) => {
                let entity = new_entity(
                    x,
                    y,
                    z,
                    PLAYER_KIND,
                    Girth::Player,
                    Height::Player,
                    Angle::Step(yaw),
                    Angle::Step(yaw),
                );
                self.put(id, entity);
            },
            None => {},
        }
    }

    pub fn handle_entity_head_rotation(&mut self, body: &[u8])
        requires
            old(self).wf(),
        ensures
            final(self).wf(),
            final(self).entities@ == heads_turned(old(self).entities@, body@),
    {
        match read_id_and_byte(body) {
            Some((id, yaw)) => match self.at(id) {
                Some(mut entity) => {
                    entity.head_yaw = Angle::Step(yaw);
                    self.put(id, entity);
                },
                None => {},
            },
            None => {},
        }
    }

    /// An entity turned. Returns its number, for a player who may ride it.
    pub fn handle_entity_rotation(&mut self, body: &[u8]) -> (r: Option<i32>)
        requires
            old(self).wf(),
        ensures
            final(self).wf(),
            final(self).entities@ == bodies_turned(old(self).entities@, body@).0,
            r == bodies_turned(old(self).entities@, body@).1,
    {
        match read_id_and_byte(body) {
            Some((id, yaw)) => {
                match self.at(id) {
                    Some(mut entity) => {
                        entity.yaw = Angle::Step(yaw);
                        self.put(id, entity);
                    },
                    None => {},
                }
                Some(id)
            },
            None => None,
        }
    }

    pub fn handle_entity_velocity(&mut self, body: &[u8])
        requires
            old(self).wf(),
        ensures
            final(self).wf(),
            final(self).entities@ == pushed(old(self).entities@, body@),
    {
        let mut r = Reader::new(body);
        let id: i32 = match r.varint() {
            Some(v) => v,
            None => return ,
        };
        match read_velocity(&mut r) {
            Some(velocity) => match self.at(id) {
                Some(mut entity) => {
                    entity.velocity = velocity;
                    self.put(id, entity);
                },
                None => {},
            },
            None => {},
        }
    }

    /// Moves an entity to a point, and turns it where a yaw is given.
    pub fn move_to(&mut self, id: i32, point: (u64, u64, u64), yaw: Option<u8>)
        requires
            old(self).wf(),
        ensures
            final(self).wf(),
            final(self).entities@ == with_changed(
                old(self).entities@,
                id,
                |e: Entity|
                    Entity {
                        x: point.0,
                        y: point.1,
                        z: point.2,
                        yaw: match yaw {
                            Some(yaw) => Angle::Step(yaw),
                            None => e.yaw,
                        },
                        ..e
                    },
            ),
    {
        match self.at(id) {
            Some(mut entity) => {
                entity.x = point.0;
                entity.y = point.1;
                entity.z = point.2;
                match yaw {
                    Some(yaw) => {
                        entity.yaw = Angle::Step(yaw);
                    },
                    None => {},
                }
                self.put(id, entity);
            },
            None => {},
        }
    }

    pub fn handle_entity_teleport(&mut self, body: &[u8])
        requires
            old(self).wf(),
        ensures
            final(self).wf(),
            final(self).entities@ == transported(old(self).entities@, body@),
    {
        let mut r = Reader::new(body);
        let id: i32 = match r.varint() {
            Some(v) => v,
            None => return ,
        };
        let point: (u64, u64, u64) = match read_point(&mut r) {
            Some(v) => v,
            None => return ,
        };
        match r.u8() {
            Some(yaw) => self.move_to(id, point, Some(yaw)),
            None => {},
        }
    }

    /// The server moved the vehicle of the player, who goes with it. Returns
    /// the vehicle, for the height of its seat.
    pub fn handle_vehicle_move(&mut self, body: &[u8], player: &mut PlayerState) -> (r: Option<i32>)
        requires
            old(self).wf(),
        ensures
            final(self).wf(),
            ({
                let ride = ridden(old(self).entities@, *old(player), body@);
                &&& final(self).entities@ == ride.entities
                &&& *final(player) == ride.player
                &&& r == ride.seat
            }),
    {
        let mut r = Reader::new(body);
        let point: (u64, u64, u64) = match read_point(&mut r) {
            Some(v) => v,
            None => return None,
        };
        let yaw: u32 = match r.u32() {
            Some(v) => v,
            None => return None,
        };
        let pitch: u32 = match r.u32() {
            Some(v) => v,
            None => return None,
        };
        let id: i32 = match player.vehicle {
            Some(id) => id,
            None => return None,
        };
        match self.at(id) {
            Some(mut entity) => {
                entity.x = point.0;
                entity.y = point.1;
                entity.z = point.2;
                entity.yaw = Angle::Degrees(yaw);
                self.put(id, entity);
                player.x = point.0;
                player.z = point.2;
                player.yaw = yaw;
                player.pitch = pitch;
                Some(id)
            },
            None => None,
        }
    }

    /// An entity swung its arm.
    pub fn handle_animation(&mut self, body: &[u8])
        requires
            old(self).wf(),
        ensures
            final(self).wf(),
            final(self).entities@ == animated(old(self).entities@, body@),
    {
        match read_id_and_byte(body) {
            Some((id, animation)) => {
                if animation == 0 || animation == 3 {
                    match self.at(id) {
                        Some(mut entity) => {
                            entity.swing_sequence = entity.swing_sequence.wrapping_add(1);
                            self.put(id, entity);
                        },
                        None => {},
                    }
                }
            },
            None => {},
        }
    }

    /// An entity was hurt.
    pub fn handle_hurt(&mut self, body: &[u8])
        requires
            old(self).wf(),
        ensures
            final(self).wf(),
            final(self).entities@ == hurt(old(self).entities@, body@),
    {
        let mut r = Reader::new(body);
        match r.varint() {
            Some(id) => match self.at(id) {
                Some(mut entity) => {
                    entity.hurt_sequence = entity.hurt_sequence.wrapping_add(1);
                    self.put(id, entity);
                },
                None => {},
            },
            None => {},
        }
    }

    /// A vehicle has new passengers. Returns the vehicle where the player is
    /// one of them, for the height of its seat. A malformed packet is ignored.
    pub fn handle_set_passengers(&mut self, body: &[u8], player: &mut PlayerState) -> (r: Option<
        i32,
    >)
        requires
            old(self).wf(),
        ensures
            final(self).wf(),
            ({
                let ride = boarded(old(self).entities@, *old(player), body@);
                &&& final(self).entities@ == ride.entities
                &&& *final(player) == ride.player
                &&& r == ride.seat
            }),
    {
        let (vehicle, passengers) = match decode_passengers(body) {
            Some(v) => v,
            None => return None,
        };
        let player_id: i32 = player.entity_id;
        let ghost before = *self;
        let ghost keys = self.entities.keys@;
        let ghost values = self.entities.values@;
        let mut i: usize = 0;
        while i < self.entities.keys.len()
            invariant
                self.wf(),
                i <= keys.len(),
                self.entities.keys@ == keys,
                values.len() == keys.len(),
                self.entities.values@.len() == keys.len(),
                forall|k: int|
                    0 <= k < keys.len() ==> #[trigger] self.entities.values@[k] == (if k < i {
                        seated(keys[k], values[k], vehicle, passengers@, player_id)
                    } else {
                        values[k]
                    }),
            decreases keys.len() - i,
        {
            let id: i32 = self.entities.keys[i];
            let mut entity: Entity = self.entities.values[i];
            if id != player_id && has_id(&passengers, id) {
                entity.vehicle = Some(vehicle);
            } else if entity.vehicle == Some(vehicle) {
                entity.vehicle = None;
            }
            self.entities.values[i] = entity;
            i = i + 1;
        }
        proof {
            let want = all_seated(before.entities@, vehicle, passengers@, player_id);
            assert forall|id: i32| self.entities@.dom().contains(id) implies
                #[trigger] self.entities@[id] == want[id] by {
                let p = table::place(keys, id);
                assert(table::among(keys, id));
                assert(keys[p] == id);
                assert(self.entities.values@[p] == seated(
                    keys[p],
                    values[p],
                    vehicle,
                    passengers@,
                    player_id,
                ));
            }
            assert(self.entities@ =~= want);
        }
        if has_id(&passengers, player_id) {
            player.vehicle = Some(vehicle);
            match self.at(vehicle) {
                Some(seat) => {
                    player.x = seat.x;
                    player.z = seat.z;
                },
                None => {},
            }
            Some(vehicle)
        } else {
            if player.vehicle == Some(vehicle) {
                player.vehicle = None;
            }
            None
        }
    }

    /// The server removed entities. Those that were read before something
    /// malformed are removed too, but the player leaves a removed vehicle only
    /// when the whole packet was read.
    pub fn handle_entity_destroy(&mut self, body: &[u8], player: &mut PlayerState)
        requires
            old(self).wf(),
        ensures
            final(self).wf(),
            final(self).entities@ == old(self).entities@.remove_keys(
                destroyed(body@).0.to_set(),
            ),
            *final(player) == unseated(*old(player), body@),
    {
        let mut r = Reader::new(body);
        let ghost before = self.entities@;
        proof {
            assert(before =~= before.remove_keys(Seq::<i32>::empty().to_set()));
        }
        let count: i32 = match r.varint() {
            Some(v) => v,
            None => return ,
        };
        let mut gone: Vec<i32> = Vec::new();
        let mut left: i32 = if count > 0 {
            count
        } else {
            0
        };
        while left > 0
            invariant
                self.wf(),
                0 <= left,
                before == old(self).entities@,
                destroyed(body@) == take_gone(r@, left as nat, gone@),
                self.entities@ == before.remove_keys(gone@.to_set()),
                *player == *old(player),
            decreases left,
        {
            let id: i32 = match r.varint() {
                Some(v) => v,
                None => return ,
            };
            let ghost earlier = self.entities@;
            let ghost shorter = gone@;
            let _ = self.entities.remove(&id);
            gone.push(id);
            proof {
                assert forall|k: i32| gone@.contains(k) <==> shorter.contains(k) || k == id by {
                    assert(gone@[shorter.len() as int] == id);
                    if shorter.contains(k) {
                        let p = choose|p: int| 0 <= p < shorter.len() && shorter[p] == k;
                        assert(gone@[p] == k);
                    }
                }
                assert(self.entities@ =~= before.remove_keys(gone@.to_set()));
            }
            left = left - 1;
        }
        match player.vehicle {
            Some(vehicle) => {
                if has_id(&gone, vehicle) {
                    player.vehicle = None;
                }
            },
            None => {},
        }
    }
}

/// A counter one further; after the largest number comes 0.
pub open spec fn counted(n: u64) -> u64 {
    if n == u64::MAX {
        0
    } else {
        (n + 1) as u64
    }
}

/// Whoever rides a vehicle after its passengers were set is one of them.
pub proof fn only_passengers_ride(
    entities: Map<i32, Entity>,
    vehicle: i32,
    passengers: Seq<i32>,
    player: i32,
    id: i32,
)
    requires
        entities.dom().contains(id),
        id != player,
    ensures
        all_seated(entities, vehicle, passengers, player)[id].vehicle == Some(vehicle)
            <==> passengers.contains(id),
{
}

/// Setting the passengers of a vehicle to none empties it, and leaves those
/// who ride others.
pub proof fn empty_vehicles_have_no_riders(
    entities: Map<i32, Entity>,
    vehicle: i32,
    player: i32,
    id: i32,
)
    requires
        entities.dom().contains(id),
    ensures
        all_seated(entities, vehicle, Seq::empty(), player)[id].vehicle != Some(vehicle),
        entities[id].vehicle != Some(vehicle) ==> all_seated(
            entities,
            vehicle,
            Seq::empty(),
            player,
        )[id] == entities[id],
        player_seat(Some(vehicle), vehicle, Seq::empty(), player) is None,
{
}

/// Falling blocks show the block whose number came with them; no other kind shows one.
pub proof fn falling_blocks_show_their_block(registry: EntityRegistry, kind: i32, data: i32)
    requires
        0 <= kind < registry.names@.len(),
    ensures
        registry.falling_state(kind, data) is Some <==> registry.names@[kind as int]@
            == "falling_block"@ && 0 <= data < registry.block_states,
        registry.falling_state(kind, data) matches Some(state) ==> state == data,
        registry.sizable(kind) <==> registry.names@[kind as int]@ == "slime"@
            || registry.names@[kind as int]@ == "magma_cube"@,
{
}

/// The slots of equipment are the main hand, the other hand, and the armour from the feet
/// up; a piece reaches its slot alone.
pub proof fn pieces_reach_their_slot(equipment: Equipment, slot: int, item: Option<i32>)
    ensures
        ({
            let after = equipment.spec_with(slot, item);
            &&& after.main_hand == if slot == 0 {
                item
            } else {
                equipment.main_hand
            }
            &&& after.off_hand == if slot == 1 {
                item
            } else {
                equipment.off_hand
            }
            &&& after.boots == if slot == 2 {
                item
            } else {
                equipment.boots
            }
            &&& after.leggings == if slot == 3 {
                item
            } else {
                equipment.leggings
            }
            &&& after.chestplate == if slot == 4 {
                item
            } else {
                equipment.chestplate
            }
            &&& after.helmet == if slot == 5 {
                item
            } else {
                equipment.helmet
            }
        }),
{
}

/// A new object comes with its number, an identifier, its kind, its place, three angles of
/// which the pitch is not kept, a number whose meaning depends on the kind, and its speed.
pub proof fn objects_come_as_announced(
    body: Seq<u8>,
    registry: EntityRegistry,
    id: i32,
    r1: Seq<u8>,
    uuid: wire::Uuid,
    r2: Seq<u8>,
    kind: i32,
    r3: Seq<u8>,
    x: u64,
    r4: Seq<u8>,
    y: u64,
    r5: Seq<u8>,
    z: u64,
    r6: Seq<u8>,
    data: i32,
    r7: Seq<u8>,
    vx: i16,
    r8: Seq<u8>,
    vy: i16,
    r9: Seq<u8>,
    vz: i16,
)
    requires
        wire::take_varint(body) == (Some(id), r1),
        wire::take_uuid(r1) == (Some(uuid), r2),
        wire::take_varint(r2) == (Some(kind), r3),
        wire::take_u64(r3) == (Some(x), r4),
        wire::take_u64(r4) == (Some(y), r5),
        wire::take_u64(r5) == (Some(z), r6),
        r6.len() >= 3,
        wire::take_varint(r6.subrange(3, r6.len() as int)) == (Some(data), r7),
        wire::take_i16(r7) == (Some(vx), r8),
        wire::take_i16(r8) == (Some(vy), r9),
        wire::take_i16(r9).0 == Some(vz),
    ensures
        spawned_object(body, registry) matches Some((got, entity)) && {
            &&& got == id
            &&& entity.type_id == kind
            &&& entity.x == x && entity.y == y && entity.z == z
            &&& entity.yaw == Angle::Step(r6[1])
            &&& entity.head_yaw == Angle::Step(r6[2])
            &&& entity.velocity.x == vx && entity.velocity.y == vy && entity.velocity.z == vz
            &&& entity.block_state == registry.falling_state(kind, data)
            &&& entity.scale == 1 && entity.pose == 0 && !entity.invisible && !entity.glowing
            &&& entity.vehicle is None && entity.item is None
            &&& entity.swing_sequence == 0 && entity.hurt_sequence == 0
            &&& entity.equipment.main_hand is None && entity.equipment.off_hand is None
            &&& entity.equipment.boots is None && entity.equipment.leggings is None
            &&& entity.equipment.chestplate is None && entity.equipment.helmet is None
            &&& 0 <= kind < registry.names@.len() ==> entity.girth == Girth::OfKind && entity.height
                == Height::OfKind
            &&& kind < 0 || kind >= registry.names@.len() ==> entity.girth == Girth::Unknown
                && entity.height == Height::Unknown
        },
{
    let n = r6.len() as int;
    assert(r6.subrange(1, n).subrange(1, n - 1) =~= r6.subrange(2, n));
    assert(r6.subrange(2, n).subrange(1, n - 2) =~= r6.subrange(3, n));
    assert(take_point(r3) == (Some((x, y, z)), r6));
    assert(take_angles(r6) == (Some((r6[1], r6[2])), r6.subrange(3, n)));
    assert(take_velocity(r7).0 == Some(Velocity { x: vx, y: vy, z: vz }));
}

/// A new player comes with its number, its identity, its place and where it looks, and
/// holds and wears nothing yet.
pub proof fn players_come_as_announced(
    body: Seq<u8>,
    id: i32,
    r1: Seq<u8>,
    uuid: wire::Uuid,
    r2: Seq<u8>,
    x: u64,
    r3: Seq<u8>,
    y: u64,
    r4: Seq<u8>,
    z: u64,
    r5: Seq<u8>,
)
    requires
        wire::take_varint(body) == (Some(id), r1),
        wire::take_uuid(r1) == (Some(uuid), r2),
        wire::take_u64(r2) == (Some(x), r3),
        wire::take_u64(r3) == (Some(y), r4),
        wire::take_u64(r4) == (Some(z), r5),
        r5.len() > 0,
    ensures
        spawned_player(body) matches Some((got, entity)) && {
            &&& got == id
            &&& entity.type_id == 122
            &&& entity.x == x && entity.y == y && entity.z == z
            &&& entity.yaw == Angle::Step(r5[0])
            &&& entity.head_yaw == Angle::Step(r5[0])
            &&& entity.girth == Girth::Player && entity.height == Height::Player
            &&& entity.velocity.x == 0 && entity.velocity.y == 0 && entity.velocity.z == 0
            &&& entity.scale == 1 && entity.pose == 0 && !entity.invisible && !entity.glowing
            &&& entity.vehicle is None && entity.item is None && entity.block_state is None
            &&& entity.equipment.main_hand is None && entity.equipment.helmet is None
        },
{
}

/// A spawned entity stands under its number in place of any before it, and no other entity
/// changes.
pub proof fn spawned_entities_stand_under_their_number(
    entities: Map<i32, Entity>,
    id: i32,
    entity: Entity,
    other: i32,
)
    ensures
        joined_by(entities, Some((id, entity))).dom().contains(id),
        joined_by(entities, Some((id, entity)))[id] == entity,
        other != id ==> (joined_by(entities, Some((id, entity))).dom().contains(other)
            <==> entities.dom().contains(other)),
        other != id ==> joined_by(entities, Some((id, entity)))[other] == entities[other],
        joined_by(entities, None) == entities,
{
}

/// Packets about one entity change what they are about and nothing else of it: turning the
/// head leaves the body, turning the body leaves the head, and a push leaves both.
pub proof fn news_change_one_part(
    entities: Map<i32, Entity>,
    body: Seq<u8>,
    id: i32,
    rest: Seq<u8>,
    velocity: Velocity,
)
    requires
        wire::take_varint(body) == (Some(id), rest),
        entities.dom().contains(id),
        rest.len() > 0,
    ensures
        ({
            let before = entities[id];
            let yaw = Angle::Step(rest[0]);
            &&& heads_turned(entities, body)[id] == (Entity { head_yaw: yaw, ..before })
            &&& bodies_turned(entities, body).0[id] == (Entity { yaw, ..before })
            &&& bodies_turned(entities, body).1 == Some(id)
            &&& take_velocity(rest).0 == Some(velocity) ==> pushed(entities, body)[id] == (Entity {
                velocity,
                ..before
            })
            &&& before.hurt_sequence < u64::MAX ==> hurt(entities, body)[id] == (Entity {
                hurt_sequence: (before.hurt_sequence + 1) as u64,
                ..before
            })
            &&& (rest[0] == 0 || rest[0] == 3) && before.swing_sequence < u64::MAX ==> animated(
                entities,
                body,
            )[id] == (Entity { swing_sequence: (before.swing_sequence + 1) as u64, ..before })
            &&& rest[0] != 0 && rest[0] != 3 ==> animated(entities, body) == entities
        }),
        counted(u64::MAX) == 0,
{
}

/// Packets about one entity leave all others, and those about an unknown one change
/// nothing.
pub proof fn news_reach_one_entity(
    entities: Map<i32, Entity>,
    body: Seq<u8>,
    id: i32,
    rest: Seq<u8>,
    other: i32,
)
    requires
        wire::take_varint(body) == (Some(id), rest),
        other != id || !entities.dom().contains(id),
    ensures
        heads_turned(entities, body)[other] == entities[other],
        bodies_turned(entities, body).0[other] == entities[other],
        pushed(entities, body)[other] == entities[other],
        transported(entities, body)[other] == entities[other],
        animated(entities, body)[other] == entities[other],
        hurt(entities, body)[other] == entities[other],
        heads_turned(entities, body).dom().contains(other) <==> entities.dom().contains(other),
        bodies_turned(entities, body).0.dom().contains(other) <==> entities.dom().contains(other),
        pushed(entities, body).dom().contains(other) <==> entities.dom().contains(other),
        transported(entities, body).dom().contains(other) <==> entities.dom().contains(other),
        animated(entities, body).dom().contains(other) <==> entities.dom().contains(other),
        hurt(entities, body).dom().contains(other) <==> entities.dom().contains(other),
{
}

/// A teleported entity is where the packet says and turned as it says, and keeps its head
/// and all else.
pub proof fn teleports_lead_to_a_place(
    entities: Map<i32, Entity>,
    body: Seq<u8>,
    id: i32,
    r1: Seq<u8>,
    x: u64,
    r2: Seq<u8>,
    y: u64,
    r3: Seq<u8>,
    z: u64,
    r4: Seq<u8>,
)
    requires
        entities.dom().contains(id),
        wire::take_varint(body) == (Some(id), r1),
        wire::take_u64(r1) == (Some(x), r2),
        wire::take_u64(r2) == (Some(y), r3),
        wire::take_u64(r3) == (Some(z), r4),
        r4.len() > 0,
    ensures
        transported(entities, body)[id] == (Entity {
            x,
            y,
            z,
            yaw: Angle::Step(r4[0]),
            ..entities[id]
        }),
{
    assert(take_point(r1) == (Some((x, y, z)), r4));
}

/// A step of an entity is three numbers, x, y and z, behind its own; one with a rotation
/// has the yaw and the pitch behind them.
pub proof fn steps_come_by_axis(
    body: Seq<u8>,
    id: i32,
    r1: Seq<u8>,
    dx: i16,
    r2: Seq<u8>,
    dy: i16,
    r3: Seq<u8>,
    dz: i16,
    r4: Seq<u8>,
)
    requires
        wire::take_varint(body) == (Some(id), r1),
        wire::take_i16(r1) == (Some(dx), r2),
        wire::take_i16(r2) == (Some(dy), r3),
        wire::take_i16(r3) == (Some(dz), r4),
    ensures
        relative_move(body, false) == Some(RelativeMove { id, dx, dy, dz, yaw: None }),
        r4.len() >= 2 ==> relative_move(body, true) == Some(
            RelativeMove { id, dx, dy, dz, yaw: Some(r4[0]) },
        ),
        r4.len() < 2 ==> relative_move(body, true) is None,
        id_and_velocity(body) == Some((id, Velocity { x: dx, y: dy, z: dz })),
{
    assert(take_velocity(r1) == (Some(Velocity { x: dx, y: dy, z: dz }), r4));
}

/// A player moves along with its vehicle, but for the height, and looks as the packet says;
/// one without a vehicle does not move.
pub proof fn vehicles_carry_their_rider(
    entities: Map<i32, Entity>,
    player: PlayerState,
    body: Seq<u8>,
    x: u64,
    r1: Seq<u8>,
    y: u64,
    r2: Seq<u8>,
    z: u64,
    r3: Seq<u8>,
    yaw: u32,
    r4: Seq<u8>,
    pitch: u32,
    other: i32,
)
    requires
        wire::take_u64(body) == (Some(x), r1),
        wire::take_u64(r1) == (Some(y), r2),
        wire::take_u64(r2) == (Some(z), r3),
        wire::take_u32(r3) == (Some(yaw), r4),
        wire::take_u32(r4).0 == Some(pitch),
    ensures
        ({
            let ride = ridden(entities, player, body);
            &&& player.vehicle is None ==> ride.entities == entities && ride.player == player
                && ride.seat is None
            &&& player.vehicle matches Some(id) ==> {
                &&& !entities.dom().contains(id) ==> ride.entities == entities && ride.player
                    == player && ride.seat is None
                &&& entities.dom().contains(id) ==> {
                    &&& ride.seat == Some(id)
                    &&& ride.entities[id] == (Entity {
                        x,
                        y,
                        z,
                        yaw: Angle::Degrees(yaw),
                        ..entities[id]
                    })
                    &&& other != id ==> ride.entities[other] == entities[other]
                    &&& ride.player.x == x && ride.player.y == player.y && ride.player.z == z
                    &&& ride.player.yaw == yaw && ride.player.pitch == pitch
                    &&& ride.player.vehicle == player.vehicle && ride.player.health
                        == player.health && ride.player.entity_id == player.entity_id
                }
            }
        }),
{
    assert(take_point(body) == (Some((x, y, z)), r3));
}

/// A player that boards a vehicle stands where it is, rides it, and leaves it again when it
/// is no longer among the passengers.
pub proof fn passengers_board_their_vehicle(
    entities: Map<i32, Entity>,
    player: PlayerState,
    body: Seq<u8>,
    vehicle: i32,
    passengers: Seq<i32>,
    id: i32,
)
    requires
        passengers_of(body) == Some((vehicle, passengers)),
        entities.dom().contains(id),
    ensures
        ({
            let ride = boarded(entities, player, body);
            let boards = passengers.contains(player.entity_id);
            &&& ride.seat == if boards {
                Some(vehicle)
            } else {
                None
            }
            &&& boards ==> ride.player.vehicle == Some(vehicle)
            &&& !boards ==> ride.player.vehicle != Some(vehicle)
            &&& !boards && player.vehicle != Some(vehicle) ==> ride.player.vehicle
                == player.vehicle
            &&& boards && entities.dom().contains(vehicle) ==> ride.player.x == entities[vehicle].x
                && ride.player.z == entities[vehicle].z
            &&& !boards || !entities.dom().contains(vehicle) ==> ride.player.x == player.x
                && ride.player.z == player.z
            &&& ride.player.y == player.y && ride.player.yaw == player.yaw && ride.player.health
                == player.health
            &&& passengers.contains(id) && id != player.entity_id
                ==> ride.entities[id].vehicle == Some(vehicle)
            &&& !passengers.contains(id) && entities[id].vehicle == Some(vehicle)
                ==> ride.entities[id].vehicle is None
            &&& !passengers.contains(id) && entities[id].vehicle != Some(vehicle)
                ==> ride.entities[id] == entities[id]
            &&& ride.entities[id].x == entities[id].x && ride.entities[id].y == entities[id].y
                && ride.entities[id].z == entities[id].z
        }),
{
}

/// Numbers of entities come one by one behind their count.
pub proof fn numbers_come_one_by_one(
    s: Seq<u8>,
    n: nat,
    acc: Seq<i32>,
    id: i32,
    rest: Seq<u8>,
    vehicle: i32,
    body: Seq<u8>,
    behind: Seq<u8>,
)
    requires
        wire::take_varint(s) == (Some(id), rest),
    ensures
        take_ids(s, 0, acc) == (Some(acc), s),
        take_ids(s, n + 1, acc) == take_ids(rest, n, acc.push(id)),
        take_gone(s, 0, acc) == (acc, true),
        take_gone(s, n + 1, acc) == take_gone(rest, n, acc.push(id)),
        id >= 0 ==> destroyed(s) == take_gone(rest, id as nat, Seq::empty()),
        id < 0 ==> destroyed(s) == (Seq::<i32>::empty(), true),
        wire::take_varint(body) == (Some(vehicle), s) && id >= 0 && take_ids(
            rest,
            id as nat,
            Seq::empty(),
        ).0 is Some ==> passengers_of(body) == Some(
            (vehicle, take_ids(rest, id as nat, Seq::empty()).0->0),
        ),
{
}

/// A player whose vehicle goes away rides no longer; any other keeps its seat.
pub proof fn lost_vehicles_are_left(player: PlayerState, body: Seq<u8>)
    requires
        destroyed(body).1,
    ensures
        player.vehicle matches Some(id) ==> (unseated(player, body).vehicle is None
            <==> destroyed(body).0.contains(id)),
        player.vehicle matches Some(id) ==> (!destroyed(body).0.contains(id) ==> unseated(
            player,
            body,
        ) == player),
        player.vehicle is None ==> unseated(player, body) == player,
        unseated(player, body).x == player.x && unseated(player, body).y == player.y && unseated(
            player,
            body,
        ).z == player.z,
{
}

/// A packet that breaks off changes no entity and moves no player.
pub proof fn broken_packets_leave_entities(
    entities: Map<i32, Entity>,
    player: PlayerState,
    body: Seq<u8>,
    id: i32,
    rest: Seq<u8>,
    registry: EntityRegistry,
)
    ensures
        wire::take_varint(body).0 is None ==> {
            &&& heads_turned(entities, body) == entities
            &&& bodies_turned(entities, body) == (entities, None::<i32>)
            &&& pushed(entities, body) == entities
            &&& transported(entities, body) == entities
            &&& animated(entities, body) == entities
            &&& hurt(entities, body) == entities
            &&& spawned_object(body, registry) is None
            &&& spawned_player(body) is None
            &&& boarded(entities, player, body).entities == entities
            &&& boarded(entities, player, body).player == player
            &&& boarded(entities, player, body).seat is None
            &&& relative_move(body, true) is None && relative_move(body, false) is None
            &&& destroyed(body).0.len() == 0
            &&& unseated(player, body) == player
        },
        wire::take_varint(body) == (Some(id), rest) && rest.len() == 0 ==> {
            &&& heads_turned(entities, body) == entities
            &&& bodies_turned(entities, body) == (entities, None::<i32>)
            &&& animated(entities, body) == entities
        },
        wire::take_varint(body) == (Some(id), rest) && rest.len() < 6 ==> {
            &&& pushed(entities, body) == entities
            &&& relative_move(body, false) is None
        },
        wire::take_varint(body) == (Some(id), rest) && rest.len() < 25 ==> transported(entities, body)
            == entities,
        body.len() < 32 ==> ridden(entities, player, body).entities == entities && ridden(
            entities,
            player,
            body,
        ).player == player && ridden(entities, player, body).seat is None,
{
}

} // verus!
