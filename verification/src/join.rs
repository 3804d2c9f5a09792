//! The packet that lets the player into a world.

use vstd::prelude::*;
use vstd::string::*;

use crate::nbt::{self, read_nbt, Nbt, NbtModel};
use crate::protocol::ProtocolVersion;
use crate::registries::{self, registry_name_by_id};
use crate::wire::{self, Reader, Taken};

verus! {

/// The longest identifier on the wire.
pub const MAX_IDENTIFIER: u32 = 32767;

/// What the packet says. Only the oldest version carries the registries in it.
pub struct JoinGame {
    pub entity_id: i32,
    pub game_mode: u8,
    pub dimension_type: String,
    pub codec: Option<Nbt>,
}

pub struct JoinModel {
    pub entity_id: i32,
    pub game_mode: u8,
    pub dimension_type: Seq<char>,
    pub codec: Option<NbtModel>,
}

impl View for JoinGame {
    type V = JoinModel;

    open spec fn view(&self) -> JoinModel {
        JoinModel {
            entity_id: self.entity_id,
            game_mode: self.game_mode,
            dimension_type: self.dimension_type@,
            codec: registries::codec_view(self.codec),
        }
    }
}

/// `n` identifiers.
pub open spec fn take_identifiers(s: Seq<u8>, n: nat) -> Taken<()>
    decreases n,
{
    if n == 0 {
        (Some(()), s)
    } else {
        match wire::take_string(s, MAX_IDENTIFIER as nat) {
            (Some(_), rest) => take_identifiers(rest, (n - 1) as nat),
            (None, rest) => (None, rest),
        }
    }
}

/// The names of the worlds: their number, and as many identifiers.
pub open spec fn take_worlds(s: Seq<u8>) -> Taken<()> {
    match wire::take_varint(s) {
        (Some(count), rest) => take_identifiers(
            rest,
            if count > 0 {
                count as nat
            } else {
                0
            },
        ),
        (None, rest) => (None, rest),
    }
}

pub open spec fn take_varints(s: Seq<u8>, n: nat) -> Taken<()>
    decreases n,
{
    if n == 0 {
        (Some(()), s)
    } else {
        match wire::take_varint(s) {
            (Some(_), rest) => take_varints(rest, (n - 1) as nat),
            (None, rest) => (None, rest),
        }
    }
}

pub open spec fn take_bools(s: Seq<u8>, n: nat) -> Taken<()>
    decreases n,
{
    if n == 0 {
        (Some(()), s)
    } else {
        match wire::take_bool(s) {
            (Some(_), rest) => take_bools(rest, (n - 1) as nat),
            (None, rest) => (None, rest),
        }
    }
}

/// The worlds, three numbers (players, view and simulation distance) and three
/// settings.
pub open spec fn take_settings(s: Seq<u8>) -> Taken<()> {
    match take_worlds(s) {
        (Some(_), rest) => match take_varints(rest, 3) {
            (Some(_), rest) => take_bools(rest, 3),
            (None, rest) => (None, rest),
        },
        (None, rest) => (None, rest),
    }
}

/// The world and the seed, then the game mode and the one before it.
pub open spec fn take_mode(s: Seq<u8>) -> Taken<u8> {
    match wire::take_string(s, MAX_IDENTIFIER as nat) {
        (Some(_), rest) => match wire::take_i64(rest) {
            (Some(_), rest) => match wire::take_u8(rest) {
                (Some(mode), rest) => match wire::take_u8(rest) {
                    (Some(_), rest) => (Some(mode), rest),
                    (None, rest) => (None, rest),
                },
                (None, rest) => (None, rest),
            },
            (None, rest) => (None, rest),
        },
        (None, rest) => (None, rest),
    }
}

/// Where the player died last, if the server says so.
pub open spec fn take_death(s: Seq<u8>) -> Taken<()> {
    match wire::take_bool(s) {
        (Some(died), rest) => if died {
            match wire::take_string(rest, MAX_IDENTIFIER as nat) {
                (Some(_), rest) => match wire::take_position(rest) {
                    (Some(_), rest) => (Some(()), rest),
                    (None, rest) => (None, rest),
                },
                (None, rest) => (None, rest),
            }
        } else {
            (Some(()), rest)
        },
        (None, rest) => (None, rest),
    }
}

/// What follows the game mode from protocol 766 on.
pub open spec fn take_tail(s: Seq<u8>) -> Option<()> {
    match take_bools(s, 2) {
        (Some(_), rest) => match take_death(rest) {
            (Some(_), rest) => match wire::take_varint(rest) {
                (Some(_), rest) => match wire::take_bool(rest).0 {
                    Some(_) => Some(()),
                    None => None,
                },
                (None, _) => None,
            },
            (None, _) => None,
        },
        (None, _) => None,
    }
}

/// Protocol 763: the registries travel in the packet.
pub open spec fn join_763(entity_id: i32, s: Seq<u8>) -> Option<JoinModel> {
    match wire::take_u8(s) {
        (Some(game_mode), rest) => match wire::take_u8(rest) {
            (Some(_), rest) => match take_worlds(rest) {
                (Some(_), rest) => match nbt::take_named_nbt(rest) {
                    (Some(codec), rest) => match wire::take_string(
                        rest,
                        MAX_IDENTIFIER as nat,
                    ).0 {
                        Some(dimension_type) => Some(
                            JoinModel {
                                entity_id,
                                game_mode,
                                dimension_type,
                                codec: Some(codec),
                            },
                        ),
                        None => None,
                    },
                    (None, _) => None,
                },
                (None, _) => None,
            },
            (None, _) => None,
        },
        (None, _) => None,
    }
}

/// Protocols 764 and 765: the dimension comes by its name.
pub open spec fn join_764(entity_id: i32, s: Seq<u8>) -> Option<JoinModel> {
    match take_settings(s) {
        (Some(_), rest) => match wire::take_string(rest, MAX_IDENTIFIER as nat) {
            (Some(dimension_type), rest) => match take_mode(rest).0 {
                Some(game_mode) => Some(
                    JoinModel { entity_id, game_mode, dimension_type, codec: None },
                ),
                None => None,
            },
            (None, _) => None,
        },
        (None, _) => None,
    }
}

/// The name of a dimension by its number among the registries; the overworld
/// where they do not know it.
pub open spec fn dimension_name(codec: Option<NbtModel>, id: i32) -> Seq<char> {
    match codec {
        Some(codec) => match registries::name_by_id(codec, "minecraft:dimension_type"@, id) {
            Some(name) => name,
            None => "minecraft:overworld"@,
        },
        None => "minecraft:overworld"@,
    }
}

/// From protocol 766 on: the dimension comes by its number.
pub open spec fn join_766(entity_id: i32, s: Seq<u8>, codec: Option<NbtModel>) -> Option<
    JoinModel,
> {
    match take_settings(s) {
        (Some(_), rest) => match wire::take_varint(rest) {
            (Some(dimension_id), rest) => match take_mode(rest) {
                (Some(game_mode), rest) => match take_tail(rest) {
                    Some(_) => Some(
                        JoinModel {
                            entity_id,
                            game_mode,
                            dimension_type: dimension_name(codec, dimension_id),
                            codec: None,
                        },
                    ),
                    None => None,
                },
                (None, _) => None,
            },
            (None, _) => None,
        },
        (None, _) => None,
    }
}

/// What a packet says, with the registries known from the configuration.
pub open spec fn join_game(
    body: Seq<u8>,
    protocol: ProtocolVersion,
    codec: Option<NbtModel>,
) -> Option<JoinModel> {
    match wire::take_i32(body) {
        (Some(entity_id), rest) => match wire::take_bool(rest) {
            (Some(_), rest) => if protocol == ProtocolVersion::V1_20_1 {
                join_763(entity_id, rest)
            } else if protocol.data_components() {
                join_766(entity_id, rest, codec)
            } else {
                join_764(entity_id, rest)
            },
            (None, _) => None,
        },
        (None, _) => None,
    }
}

pub open spec fn skipped(want: Taken<()>, got: Option<()>, rest: Seq<u8>) -> bool {
    got == want.0 && rest == want.1
}

fn skip_worlds(r: &mut Reader) -> (v: Option<()>)
    ensures
        skipped(take_worlds(old(r)@), v, final(r)@),
{
    let count: i32 = match r.varint() {
        Some(count) => count,
        None => return None,
    };
    let mut left: i32 = if count > 0 {
        count
    } else {
        0
    };
    while left > 0
        invariant
            0 <= left,
            take_worlds(old(r)@) == take_identifiers(r@, left as nat),
        decreases left,
    {
        match r.string(MAX_IDENTIFIER) {
            Some(_) => {},
            None => return None,
        }
        left = left - 1;
    }
    Some(())
}

fn skip_varints(r: &mut Reader, n: u32) -> (v: Option<()>)
    ensures
        skipped(take_varints(old(r)@, n as nat), v, final(r)@),
{
    let mut left: u32 = n;
    while left > 0
        invariant
            take_varints(old(r)@, n as nat) == take_varints(r@, left as nat),
        decreases left,
    {
        match r.varint() {
            Some(_) => {},
            None => return None,
        }
        left = left - 1;
    }
    Some(())
}

fn skip_bools(r: &mut Reader, n: u32) -> (v: Option<()>)
    ensures
        skipped(take_bools(old(r)@, n as nat), v, final(r)@),
{
    let mut left: u32 = n;
    while left > 0
        invariant
            take_bools(old(r)@, n as nat) == take_bools(r@, left as nat),
        decreases left,
    {
        match r.bool() {
            Some(_) => {},
            None => return None,
        }
        left = left - 1;
    }
    Some(())
}

fn skip_settings(r: &mut Reader) -> (v: Option<()>)
    ensures
        skipped(take_settings(old(r)@), v, final(r)@),
{
    if skip_worlds(r).is_none() {
        return None;
    }
    if skip_varints(r, 3).is_none() {
        return None;
    }
    skip_bools(r, 3)
}

fn read_mode(r: &mut Reader) -> (v: Option<u8>)
    ensures
        v == take_mode(old(r)@).0,
        final(r)@ == take_mode(old(r)@).1,
{
    if r.string(MAX_IDENTIFIER).is_none() {
        return None;
    }
    if r.i64().is_none() {
        return None;
    }
    match r.u8() {
        Some(mode) => match r.u8() {
            Some(_) => Some(mode),
            None => None,
        },
        None => None,
    }
}

fn skip_death(r: &mut Reader) -> (v: Option<()>)
    ensures
        skipped(take_death(old(r)@), v, final(r)@),
{
    match r.bool() {
        Some(died) => {
            if died {
                if r.string(MAX_IDENTIFIER).is_none() {
                    return None;
                }
                match r.position() {
                    Some(_) => Some(()),
                    None => None,
                }
            } else {
                Some(())
            }
        },
        None => None,
    }
}

fn skip_tail(r: &mut Reader) -> (v: Option<()>)
    ensures
        v == take_tail(old(r)@),
{
    if skip_bools(r, 2).is_none() {
        return None;
    }
    if skip_death(r).is_none() {
        return None;
    }
    if r.varint().is_none() {
        return None;
    }
    match r.bool() {
        Some(_) => Some(()),
        None => None,
    }
}

fn find_dimension(codec: Option<&Nbt>, id: i32) -> (r: String)
    ensures
        r@ == dimension_name(
            match codec {
                Some(codec) => Some(codec@),
                None => None,
            },
            id,
        ),
{
    match codec {
        Some(codec) => match registry_name_by_id(codec, "minecraft:dimension_type", id) {
            Some(name) => name,
            None => "minecraft:overworld".to_owned(),
        },
        None => "minecraft:overworld".to_owned(),
    }
}

/// Reads the packet, with the registries known from the configuration.
pub fn decode_join_game(body: &[u8], protocol: ProtocolVersion, codec: Option<&Nbt>) -> (v: Option<
    JoinGame,
>)
    ensures
        match join_game(
            body@,
            protocol,
            match codec {
                Some(codec) => Some(codec@),
                None => None,
            },
        ) {
            Some(want) => v matches Some(got) && got@ == want,
            None => v is None,
        },
{
    let mut r = Reader::new(body);
    let entity_id: i32 = match r.i32() {
        Some(v) => v,
        None => return None,
    };
    if r.bool().is_none() {
        return None;
    }
    if protocol == ProtocolVersion::V1_20_1 {
        let game_mode: u8 = match r.u8() {
            Some(v) => v,
            None => return None,
        };
        if r.u8().is_none() {
            return None;
        }
        if skip_worlds(&mut r).is_none() {
            return None;
        }
        let codec = match read_nbt(&mut r) {
            Some(v) => v,
            None => return None,
        };
        match r.string(MAX_IDENTIFIER) {
            Some(dimension_type) => Some(
                JoinGame { entity_id, game_mode, dimension_type, codec: Some(codec) },
            ),
            None => None,
        }
    } else if protocol.uses_data_components() {
        if skip_settings(&mut r).is_none() {
            return None;
        }
        let dimension_id: i32 = match r.varint() {
            Some(v) => v,
            None => return None,
        };
        let game_mode: u8 = match read_mode(&mut r) {
            Some(v) => v,
            None => return None,
        };
        if skip_tail(&mut r).is_none() {
            return None;
        }
        let dimension_type = find_dimension(codec, dimension_id);
        Some(JoinGame { entity_id, game_mode, dimension_type, codec: None })
    } else {
        if skip_settings(&mut r).is_none() {
            return None;
        }
        let dimension_type = match r.string(MAX_IDENTIFIER) {
            Some(v) => v,
            None => return None,
        };
        match read_mode(&mut r) {
            Some(game_mode) => Some(
                JoinGame { entity_id, game_mode, dimension_type, codec: None },
            ),
            None => None,
        }
    }
}

/// A dimension that a merged registry numbers is joined under its name.
pub proof fn joined_dimensions_have_their_names(
    codec: Option<NbtModel>,
    data: registries::RegistryData,
    id: i32,
)
    requires
        data.id@ == "minecraft:dimension_type"@,
        0 <= id < data.entries@.len(),
    ensures
        dimension_name(Some(registries::merged(codec, data)), id)
            == data.entries@[id as int].name@,
{
    registries::merged_names_are_found(codec, data, id);
}

/// The packet begins with the number of the player and a setting; the oldest version then
/// has the game mode, the one before it, the worlds, the registries and the dimension.
pub proof fn joins_of_763(
    body: Seq<u8>,
    entity_id: i32,
    r1: Seq<u8>,
    worlds: Seq<u8>,
    codec: NbtModel,
    r2: Seq<u8>,
    dimension: Seq<char>,
    known: Option<NbtModel>,
)
    requires
        wire::take_i32(body) == (Some(entity_id), r1),
        r1.len() >= 3,
        take_worlds(r1.subrange(3, r1.len() as int)) == (Some(()), worlds),
        nbt::take_named_nbt(worlds) == (Some(codec), r2),
        wire::take_string(r2, 32767).0 == Some(dimension),
    ensures
        join_game(body, ProtocolVersion::V1_20_1, known) matches Some(join) && join.entity_id
            == entity_id && join.game_mode == r1[1] && join.dimension_type == dimension
            && join.codec == Some(codec),
{
    let n = r1.len() as int;
    assert(r1.subrange(1, n).subrange(1, n - 1) =~= r1.subrange(2, n));
    assert(r1.subrange(2, n).subrange(1, n - 2) =~= r1.subrange(3, n));
}

/// In 764 and 765 the settings come first, then the name of the dimension, and then the
/// game mode.
pub proof fn joins_of_764(
    body: Seq<u8>,
    protocol: ProtocolVersion,
    entity_id: i32,
    r1: Seq<u8>,
    r2: Seq<u8>,
    dimension: Seq<char>,
    r3: Seq<u8>,
    mode: u8,
    known: Option<NbtModel>,
)
    requires
        protocol is V1_20_2 || protocol is V1_20_3,
        wire::take_i32(body) == (Some(entity_id), r1),
        r1.len() > 0,
        take_settings(r1.subrange(1, r1.len() as int)) == (Some(()), r2),
        wire::take_string(r2, 32767) == (Some(dimension), r3),
        take_mode(r3).0 == Some(mode),
    ensures
        join_game(body, protocol, known) matches Some(join) && join.entity_id == entity_id
            && join.game_mode == mode && join.dimension_type == dimension && join.codec is None,
{
}

/// From 766 on the dimension comes by its number among the registries.
pub proof fn joins_since_766(
    body: Seq<u8>,
    protocol: ProtocolVersion,
    entity_id: i32,
    r1: Seq<u8>,
    r2: Seq<u8>,
    dimension: i32,
    r3: Seq<u8>,
    mode: u8,
    r4: Seq<u8>,
    known: NbtModel,
)
    requires
        protocol.number() >= 766,
        wire::take_i32(body) == (Some(entity_id), r1),
        r1.len() > 0,
        take_settings(r1.subrange(1, r1.len() as int)) == (Some(()), r2),
        wire::take_varint(r2) == (Some(dimension), r3),
        take_mode(r3) == (Some(mode), r4),
        take_tail(r4) is Some,
    ensures
        join_game(body, protocol, Some(known)) matches Some(join) && join.entity_id == entity_id
            && join.game_mode == mode && join.codec is None && (registries::name_by_id(
            known,
            "minecraft:dimension_type"@,
            dimension,
        ) matches Some(name) ==> join.dimension_type == name) && (registries::name_by_id(
            known,
            "minecraft:dimension_type"@,
            dimension,
        ) is None ==> join.dimension_type == "minecraft:overworld"@),
        dimension_name(None, dimension) == "minecraft:overworld"@,
{
}

/// The game mode comes behind the world and the seed, before the mode that was before it.
pub proof fn modes_come_behind_the_seed(
    s: Seq<u8>,
    world: Seq<char>,
    r1: Seq<u8>,
    seed: i64,
    r2: Seq<u8>,
)
    requires
        wire::take_string(s, 32767) == (Some(world), r1),
        wire::take_i64(r1) == (Some(seed), r2),
        r2.len() >= 2,
    ensures
        take_mode(s) == (Some(r2[0]), r2.subrange(2, r2.len() as int)),
{
    let n = r2.len() as int;
    assert(r2.subrange(1, n).subrange(1, n - 1) =~= r2.subrange(2, n));
}

/// Flags and numbers that are not kept are passed over one by one.
pub proof fn settings_are_passed_over(s: Seq<u8>, n: nat, value: i32, rest: Seq<u8>)
    ensures
        take_bools(s, 0) == (Some(()), s),
        s.len() > 0 ==> take_bools(s, n + 1) == take_bools(s.subrange(1, s.len() as int), n),
        take_varints(s, 0) == (Some(()), s),
        wire::take_varint(s) == (Some(value), rest) ==> take_varints(s, n + 1) == take_varints(
            rest,
            n,
        ),
        wire::take_varint(s) == (Some(value), rest) && value >= 0 ==> take_worlds(s)
            == take_identifiers(rest, value as nat),
{
}

/// The place of the last death comes behind a flag, and is passed over with its world.
pub proof fn deaths_are_passed_over(s: Seq<u8>, world: Seq<char>, rest: Seq<u8>)
    requires
        s.len() > 0,
    ensures
        s[0] == 0 ==> take_death(s) == (Some(()), s.subrange(1, s.len() as int)),
        s[0] != 0 && wire::take_string(s.subrange(1, s.len() as int), 32767) == (Some(world), rest)
            && rest.len() >= 8 ==> take_death(s) == (
            Some(()),
            rest.subrange(8, rest.len() as int),
        ),
{
}

/// What a join says stands for its parts.
pub proof fn joins_stand_for_their_parts(join: JoinGame)
    ensures
        join@.entity_id == join.entity_id,
        join@.game_mode == join.game_mode,
        join@.dimension_type == join.dimension_type@,
        join.codec matches Some(codec) ==> join@.codec == Some(codec@),
        join.codec is None ==> join@.codec is None,
{
}

/// The names of worlds are passed over one by one, and a number that is negative stands for
/// none.
pub proof fn worlds_are_passed_over(
    s: Seq<u8>,
    n: nat,
    world: Seq<char>,
    rest: Seq<u8>,
    count: i32,
    behind: Seq<u8>,
)
    ensures
        take_identifiers(s, 0) == (Some(()), s),
        wire::take_string(s, 32767) == (Some(world), rest) ==> take_identifiers(s, n + 1)
            == take_identifiers(rest, n),
        wire::take_string(s, 32767).0 is None ==> take_identifiers(s, n + 1).0 is None,
        wire::take_varint(s) == (Some(count), behind) && count <= 0 ==> take_worlds(s) == (
            Some(()),
            behind,
        ),
{
}

} // verus!
