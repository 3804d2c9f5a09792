//! The packets of play that all versions share, by their number.

use vstd::prelude::*;

use crate::overlays::BorderPacket;

verus! {

/// A packet of play, as the oldest version numbers it.
#[derive(Clone, Copy, Debug, PartialEq, Eq, Structural)]
pub enum PlayPacket {
    SpawnEntity,
    SpawnPlayer,
    EntityAnimation,
    BlockEntityData,
    BlockChange,
    BossBar,
    ClearTitles,
    ContainerContent,
    ContainerSlot,
    UnloadChunk,
    GameState,
    HurtAnimation,
    Border(BorderPacket),
    MapChunk,
    Particles,
    JoinGame,
    MapData,
    /// An entity moved by a step, and turned where it says so.
    RelativeMove(bool),
    EntityRotation,
    VehicleMove,
    PlayerRemove,
    PlayerInfo,
    UnlockRecipes,
    EntityDestroy,
    RemoveEntityEffect,
    ResourcePack,
    Respawn,
    EntityHeadRotation,
    ActionBar,
    HeldItem,
    ScoreboardDisplay,
    EntityMetadata,
    EntityVelocity,
    EntityEquipment,
    Experience,
    Health,
    ScoreboardObjective,
    SetPassengers,
    Teams,
    ScoreboardScore,
    /// A title, or a subtitle.
    Title(bool),
    UpdateTime,
    TitleTime,
    /// A sound at a place, or at an entity.
    Sound(bool),
    PlayerListHeader,
    EntityTeleport,
    EntityEffect,
    DeclareRecipes,
}

impl PlayPacket {
    /// The number of a packet.
    pub open spec fn number(self) -> i32 {
        match self {
            PlayPacket::SpawnEntity => 0x01,
            PlayPacket::SpawnPlayer => 0x03,
            PlayPacket::EntityAnimation => 0x04,
            PlayPacket::BlockEntityData => 0x08,
            PlayPacket::BlockChange => 0x0a,
            PlayPacket::BossBar => 0x0b,
            PlayPacket::ClearTitles => 0x0e,
            PlayPacket::ContainerContent => 0x12,
            PlayPacket::ContainerSlot => 0x14,
            PlayPacket::UnloadChunk => 0x1e,
            PlayPacket::GameState => 0x1f,
            PlayPacket::HurtAnimation => 0x21,
            PlayPacket::Border(BorderPacket::Initialize) => 0x22,
            PlayPacket::Border(BorderPacket::Center) => 0x47,
            PlayPacket::Border(BorderPacket::Lerp) => 0x48,
            PlayPacket::Border(BorderPacket::Size) => 0x49,
            PlayPacket::Border(BorderPacket::WarningDelay) => 0x4a,
            PlayPacket::Border(BorderPacket::WarningReach) => 0x4b,
            PlayPacket::MapChunk => 0x24,
            PlayPacket::Particles => 0x26,
            PlayPacket::JoinGame => 0x28,
            PlayPacket::MapData => 0x29,
            PlayPacket::RelativeMove(turned) => if turned {
                0x2c
            } else {
                0x2b
            },
            PlayPacket::EntityRotation => 0x2d,
            PlayPacket::VehicleMove => 0x2e,
            PlayPacket::PlayerRemove => 0x39,
            PlayPacket::PlayerInfo => 0x3a,
            PlayPacket::UnlockRecipes => 0x3d,
            PlayPacket::EntityDestroy => 0x3e,
            PlayPacket::RemoveEntityEffect => 0x3f,
            PlayPacket::ResourcePack => 0x40,
            PlayPacket::Respawn => 0x41,
            PlayPacket::EntityHeadRotation => 0x42,
            PlayPacket::ActionBar => 0x46,
            PlayPacket::HeldItem => 0x4d,
            PlayPacket::ScoreboardDisplay => 0x51,
            PlayPacket::EntityMetadata => 0x52,
            PlayPacket::EntityVelocity => 0x54,
            PlayPacket::EntityEquipment => 0x55,
            PlayPacket::Experience => 0x56,
            PlayPacket::Health => 0x57,
            PlayPacket::ScoreboardObjective => 0x58,
            PlayPacket::SetPassengers => 0x59,
            PlayPacket::Teams => 0x5a,
            PlayPacket::ScoreboardScore => 0x5b,
            PlayPacket::Title(subtitle) => if subtitle {
                0x5d
            } else {
                0x5f
            },
            PlayPacket::UpdateTime => 0x5e,
            PlayPacket::TitleTime => 0x60,
            PlayPacket::Sound(of_entity) => if of_entity {
                0x61
            } else {
                0x62
            },
            PlayPacket::PlayerListHeader => 0x65,
            PlayPacket::EntityTeleport => 0x68,
            PlayPacket::EntityEffect => 0x6c,
            PlayPacket::DeclareRecipes => 0x6d,
        }
    }
}

/// The packet of a number.
pub fn play_packet(id: i32) -> (r: Option<PlayPacket>)
    ensures
        match r {
            Some(packet) => packet.number() == id,
            None => forall|packet: PlayPacket| #[trigger] packet.number() != id,
        },
{
    let packet = match id {
        0x01 => PlayPacket::SpawnEntity,
        0x03 => PlayPacket::SpawnPlayer,
        0x04 => PlayPacket::EntityAnimation,
        0x08 => PlayPacket::BlockEntityData,
        0x0a => PlayPacket::BlockChange,
        0x0b => PlayPacket::BossBar,
        0x0e => PlayPacket::ClearTitles,
        0x12 => PlayPacket::ContainerContent,
        0x14 => PlayPacket::ContainerSlot,
        0x1e => PlayPacket::UnloadChunk,
        0x1f => PlayPacket::GameState,
        0x21 => PlayPacket::HurtAnimation,
        0x22 => PlayPacket::Border(BorderPacket::Initialize),
        0x24 => PlayPacket::MapChunk,
        0x26 => PlayPacket::Particles,
        0x28 => PlayPacket::JoinGame,
        0x29 => PlayPacket::MapData,
        0x2b => PlayPacket::RelativeMove(false),
        0x2c => PlayPacket::RelativeMove(true),
        0x2d => PlayPacket::EntityRotation,
        0x2e => PlayPacket::VehicleMove,
        0x39 => PlayPacket::PlayerRemove,
        0x3a => PlayPacket::PlayerInfo,
        0x3d => PlayPacket::UnlockRecipes,
        0x3e => PlayPacket::EntityDestroy,
        0x3f => PlayPacket::RemoveEntityEffect,
        0x40 => PlayPacket::ResourcePack,
        0x41 => PlayPacket::Respawn,
        0x42 => PlayPacket::EntityHeadRotation,
        0x46 => PlayPacket::ActionBar,
        0x47 => PlayPacket::Border(BorderPacket::Center),
        0x48 => PlayPacket::Border(BorderPacket::Lerp),
        0x49 => PlayPacket::Border(BorderPacket::Size),
        0x4a => PlayPacket::Border(BorderPacket::WarningDelay),
        0x4b => PlayPacket::Border(BorderPacket::WarningReach),
        0x4d => PlayPacket::HeldItem,
        0x51 => PlayPacket::ScoreboardDisplay,
        0x52 => PlayPacket::EntityMetadata,
        0x54 => PlayPacket::EntityVelocity,
        0x55 => PlayPacket::EntityEquipment,
        0x56 => PlayPacket::Experience,
        0x57 => PlayPacket::Health,
        0x58 => PlayPacket::ScoreboardObjective,
        0x59 => PlayPacket::SetPassengers,
        0x5a => PlayPacket::Teams,
        0x5b => PlayPacket::ScoreboardScore,
        0x5d => PlayPacket::Title(true),
        0x5e => PlayPacket::UpdateTime,
        0x5f => PlayPacket::Title(false),
        0x60 => PlayPacket::TitleTime,
        0x61 => PlayPacket::Sound(true),
        0x62 => PlayPacket::Sound(false),
        0x65 => PlayPacket::PlayerListHeader,
        0x68 => PlayPacket::EntityTeleport,
        0x6c => PlayPacket::EntityEffect,
        0x6d => PlayPacket::DeclareRecipes,
        _ => return None,
    };
    Some(packet)
}

/// No two packets have the same number.
pub proof fn numbers_identify_packets(a: PlayPacket, b: PlayPacket)
    requires
        a.number() == b.number(),
    ensures
        a == b,
{
}

/// The packets about entities, by their number.
pub proof fn entity_packets_have_their_numbers()
    ensures
        PlayPacket::SpawnEntity.number() == 1,
        PlayPacket::SpawnPlayer.number() == 3,
        PlayPacket::EntityAnimation.number() == 4,
        PlayPacket::HurtAnimation.number() == 33,
        PlayPacket::RelativeMove(false).number() == 43,
        PlayPacket::RelativeMove(true).number() == 44,
        PlayPacket::EntityRotation.number() == 45,
        PlayPacket::VehicleMove.number() == 46,
        PlayPacket::EntityDestroy.number() == 62,
        PlayPacket::RemoveEntityEffect.number() == 63,
        PlayPacket::EntityHeadRotation.number() == 66,
        PlayPacket::EntityMetadata.number() == 82,
        PlayPacket::EntityVelocity.number() == 84,
        PlayPacket::EntityEquipment.number() == 85,
        PlayPacket::SetPassengers.number() == 89,
        PlayPacket::EntityTeleport.number() == 104,
        PlayPacket::EntityEffect.number() == 108,
{
}

/// The packets about the world, by their number.
pub proof fn world_packets_have_their_numbers()
    ensures
        PlayPacket::BlockEntityData.number() == 8,
        PlayPacket::BlockChange.number() == 10,
        PlayPacket::UnloadChunk.number() == 30,
        PlayPacket::GameState.number() == 31,
        PlayPacket::Border(BorderPacket::Initialize).number() == 34,
        PlayPacket::MapChunk.number() == 36,
        PlayPacket::Particles.number() == 38,
        PlayPacket::JoinGame.number() == 40,
        PlayPacket::MapData.number() == 41,
        PlayPacket::ResourcePack.number() == 64,
        PlayPacket::Respawn.number() == 65,
        PlayPacket::Border(BorderPacket::Center).number() == 71,
        PlayPacket::Border(BorderPacket::Lerp).number() == 72,
        PlayPacket::Border(BorderPacket::Size).number() == 73,
        PlayPacket::Border(BorderPacket::WarningDelay).number() == 74,
        PlayPacket::Border(BorderPacket::WarningReach).number() == 75,
        PlayPacket::UpdateTime.number() == 94,
        PlayPacket::Sound(true).number() == 97,
        PlayPacket::Sound(false).number() == 98,
{
}

/// The packets about what the player has and sees, by their number.
pub proof fn player_packets_have_their_numbers()
    ensures
        PlayPacket::BossBar.number() == 11,
        PlayPacket::ClearTitles.number() == 14,
        PlayPacket::ContainerContent.number() == 18,
        PlayPacket::ContainerSlot.number() == 20,
        PlayPacket::PlayerRemove.number() == 57,
        PlayPacket::PlayerInfo.number() == 58,
        PlayPacket::UnlockRecipes.number() == 61,
        PlayPacket::ActionBar.number() == 70,
        PlayPacket::HeldItem.number() == 77,
        PlayPacket::ScoreboardDisplay.number() == 81,
        PlayPacket::Experience.number() == 86,
        PlayPacket::Health.number() == 87,
        PlayPacket::ScoreboardObjective.number() == 88,
        PlayPacket::Teams.number() == 90,
        PlayPacket::ScoreboardScore.number() == 91,
        PlayPacket::Title(true).number() == 93,
        PlayPacket::Title(false).number() == 95,
        PlayPacket::TitleTime.number() == 96,
        PlayPacket::PlayerListHeader.number() == 101,
        PlayPacket::DeclareRecipes.number() == 109,
{
}

} // verus!
