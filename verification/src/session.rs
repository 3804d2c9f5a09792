//! The course of a session: which packet leads to which action before play and
//! at its protocol boundary.

use vstd::prelude::*;
use vstd::string::*;

use crate::protocol::ProtocolVersion;
use crate::uuids::{self, offline_uuid};
use crate::wire::Uuid;

verus! {

/// Where a session stands.
#[derive(Clone, Copy, Debug, PartialEq, Eq, Structural)]
pub enum Phase {
    Connecting,
    Login,
    Configuration,
    Play,
}

/// The phase after the login: protocol 763 has no configuration.
pub open spec fn after_login(protocol: ProtocolVersion) -> Phase {
    if protocol == ProtocolVersion::V1_20_1 {
        Phase::Play
    } else {
        Phase::Configuration
    }
}

pub fn phase_after_login(protocol: ProtocolVersion) -> (r: Phase)
    ensures
        r == after_login(protocol),
{
    if protocol == ProtocolVersion::V1_20_1 {
        Phase::Play
    } else {
        Phase::Configuration
    }
}

/// The identity that a login names: that of an account where there is one.
/// From protocol 764 on a login without an account names the one that its name
/// gives.
pub open spec fn login_identity(
    protocol: ProtocolVersion,
    account: Option<Uuid>,
    name: Seq<char>,
) -> Option<Uuid> {
    match account {
        Some(uuid) => Some(uuid),
        None => if protocol == ProtocolVersion::V1_20_1 {
            None
        } else {
            Some(uuids::offline_identity(name))
        },
    }
}

pub fn login_uuid(protocol: ProtocolVersion, account: Option<Uuid>, name: &str) -> (r: Option<Uuid>)
    ensures
        r == login_identity(protocol, account, name@),
{
    match account {
        Some(uuid) => Some(uuid),
        None => {
            if protocol == ProtocolVersion::V1_20_1 {
                None
            } else {
                Some(offline_uuid(name))
            }
        },
    }
}

/// The numbers of the packets of a login.
#[derive(Clone, Copy, Debug, PartialEq, Eq, Structural)]
pub struct LoginIds {
    pub compression: i32,
    pub encryption: i32,
    pub disconnect: i32,
    pub success: i32,
}

#[derive(Clone, Copy, Debug, PartialEq, Eq, Structural)]
pub enum LoginAction {
    SetCompression,
    /// Encryption is asked for, and there is an account to prove.
    Encrypt,
    /// Encryption is asked for, and there is no account.
    NeedsAccount,
    Refused,
    Accepted,
    Ignore,
}

pub open spec fn login_action_of(ids: LoginIds, id: i32, has_account: bool) -> LoginAction {
    if id == ids.compression {
        LoginAction::SetCompression
    } else if id == ids.encryption {
        if has_account {
            LoginAction::Encrypt
        } else {
            LoginAction::NeedsAccount
        }
    } else if id == ids.disconnect {
        LoginAction::Refused
    } else if id == ids.success {
        LoginAction::Accepted
    } else {
        LoginAction::Ignore
    }
}

pub fn login_action(ids: LoginIds, id: i32, has_account: bool) -> (r: LoginAction)
    ensures
        r == login_action_of(ids, id, has_account),
{
    if id == ids.compression {
        LoginAction::SetCompression
    } else if id == ids.encryption {
        if has_account {
            LoginAction::Encrypt
        } else {
            LoginAction::NeedsAccount
        }
    } else if id == ids.disconnect {
        LoginAction::Refused
    } else if id == ids.success {
        LoginAction::Accepted
    } else {
        LoginAction::Ignore
    }
}

/// The numbers of the packets of a configuration up to protocol 765.
#[derive(Clone, Copy, Debug, PartialEq, Eq, Structural)]
pub struct ConfigurationIds {
    pub finish: i32,
    pub keep_alive: i32,
    pub ping: i32,
    pub registry: i32,
}

#[derive(Clone, Copy, Debug, PartialEq, Eq, Structural)]
pub enum ConfigurationAction {
    Refused,
    Finish,
    KeepAlive,
    Ping,
    /// All registries in one document.
    Registries,
    /// One registry.
    Registry,
    /// A pack is asked for, in the form of protocol 764.
    AskForPack,
    /// A pack is asked for, in the form of protocol 765.
    AddPack,
    RemovePack,
    KnownPacks,
    Ignore,
}

/// From protocol 766 on the registries come one by one, and the packets have
/// other numbers.
pub open spec fn configuration_action_of(
    protocol: ProtocolVersion,
    ids: ConfigurationIds,
    id: i32,
) -> ConfigurationAction {
    if protocol.split_registry() {
        if id == 0x02 {
            ConfigurationAction::Refused
        } else if id == 0x03 {
            ConfigurationAction::Finish
        } else if id == 0x04 {
            ConfigurationAction::KeepAlive
        } else if id == 0x05 {
            ConfigurationAction::Ping
        } else if id == 0x07 {
            ConfigurationAction::Registry
        } else if id == 0x08 {
            ConfigurationAction::RemovePack
        } else if id == 0x09 {
            ConfigurationAction::AddPack
        } else if id == 0x0e {
            ConfigurationAction::KnownPacks
        } else {
            ConfigurationAction::Ignore
        }
    } else if id == 0x01 {
        ConfigurationAction::Refused
    } else if id == ids.finish {
        ConfigurationAction::Finish
    } else if id == ids.keep_alive {
        ConfigurationAction::KeepAlive
    } else if id == ids.ping {
        ConfigurationAction::Ping
    } else if id == ids.registry {
        ConfigurationAction::Registries
    } else if id == 0x06 && protocol == ProtocolVersion::V1_20_2 {
        ConfigurationAction::AskForPack
    } else if id == 0x06 && protocol == ProtocolVersion::V1_20_3 {
        ConfigurationAction::RemovePack
    } else if id == 0x07 && protocol == ProtocolVersion::V1_20_3 {
        ConfigurationAction::AddPack
    } else {
        ConfigurationAction::Ignore
    }
}

pub fn configuration_action(protocol: ProtocolVersion, ids: ConfigurationIds, id: i32) -> (r:
    ConfigurationAction)
    ensures
        r == configuration_action_of(protocol, ids, id),
{
    if protocol.uses_split_registry() {
        if id == 0x02 {
            ConfigurationAction::Refused
        } else if id == 0x03 {
            ConfigurationAction::Finish
        } else if id == 0x04 {
            ConfigurationAction::KeepAlive
        } else if id == 0x05 {
            ConfigurationAction::Ping
        } else if id == 0x07 {
            ConfigurationAction::Registry
        } else if id == 0x08 {
            ConfigurationAction::RemovePack
        } else if id == 0x09 {
            ConfigurationAction::AddPack
        } else if id == 0x0e {
            ConfigurationAction::KnownPacks
        } else {
            ConfigurationAction::Ignore
        }
    } else if id == 0x01 {
        ConfigurationAction::Refused
    } else if id == ids.finish {
        ConfigurationAction::Finish
    } else if id == ids.keep_alive {
        ConfigurationAction::KeepAlive
    } else if id == ids.ping {
        ConfigurationAction::Ping
    } else if id == ids.registry {
        ConfigurationAction::Registries
    } else if id == 0x06 && protocol == ProtocolVersion::V1_20_2 {
        ConfigurationAction::AskForPack
    } else if id == 0x06 && protocol == ProtocolVersion::V1_20_3 {
        ConfigurationAction::RemovePack
    } else if id == 0x07 && protocol == ProtocolVersion::V1_20_3 {
        ConfigurationAction::AddPack
    } else {
        ConfigurationAction::Ignore
    }
}

/// Packets of play whose numbers differ so much between versions that they are
/// told apart by version and number.
#[derive(Clone, Copy, Debug, PartialEq, Eq, Structural)]
pub enum PlayAction {
    /// The session is configured again.
    Reconfigure,
    ResetScore,
    RemovePack,
    AddPack,
    AddToRecipeBook,
    RemoveFromRecipeBook,
    /// The settings of the recipe book, which are not kept.
    Ignore,
    CursorItem,
    PlayerSlot,
    /// A packet that all versions share.
    Shared,
}

pub open spec fn play_action_765(id: i32) -> PlayAction {
    if id == 0x67 {
        PlayAction::Reconfigure
    } else if id == 0x42 {
        PlayAction::ResetScore
    } else if id == 0x43 {
        PlayAction::RemovePack
    } else {
        PlayAction::Shared
    }
}

pub open spec fn play_action_766(id: i32) -> PlayAction {
    if id == 0x69 {
        PlayAction::Reconfigure
    } else if id == 0x44 {
        PlayAction::ResetScore
    } else if id == 0x45 {
        PlayAction::RemovePack
    } else if id == 0x46 {
        PlayAction::AddPack
    } else {
        PlayAction::Shared
    }
}

pub open spec fn play_action_768(id: i32) -> PlayAction {
    if id == 0x70 {
        PlayAction::Reconfigure
    } else if id == 0x49 {
        PlayAction::ResetScore
    } else if id == 0x4a {
        PlayAction::RemovePack
    } else if id == 0x4b {
        PlayAction::AddPack
    } else if id == 0x44 {
        PlayAction::AddToRecipeBook
    } else if id == 0x45 {
        PlayAction::RemoveFromRecipeBook
    } else if id == 0x46 {
        PlayAction::Ignore
    } else if id == 0x5a {
        PlayAction::CursorItem
    } else if id == 0x66 {
        PlayAction::PlayerSlot
    } else {
        PlayAction::Shared
    }
}

pub open spec fn play_action_770(id: i32) -> PlayAction {
    if id == 0x6f {
        PlayAction::Reconfigure
    } else if id == 0x48 {
        PlayAction::ResetScore
    } else if id == 0x49 {
        PlayAction::RemovePack
    } else if id == 0x4a {
        PlayAction::AddPack
    } else if id == 0x43 {
        PlayAction::AddToRecipeBook
    } else if id == 0x44 {
        PlayAction::RemoveFromRecipeBook
    } else if id == 0x45 {
        PlayAction::Ignore
    } else if id == 0x59 {
        PlayAction::CursorItem
    } else if id == 0x65 {
        PlayAction::PlayerSlot
    } else {
        PlayAction::Shared
    }
}

pub open spec fn play_action_of(protocol: ProtocolVersion, id: i32) -> PlayAction {
    match protocol {
        ProtocolVersion::V1_20_1 | ProtocolVersion::V1_20_2 => PlayAction::Shared,
        ProtocolVersion::V1_20_3 => play_action_765(id),
        ProtocolVersion::V1_20_5 | ProtocolVersion::V1_21 => play_action_766(id),
        ProtocolVersion::V1_21_2 | ProtocolVersion::V1_21_4 => play_action_768(id),
        ProtocolVersion::V1_21_5 => play_action_770(id),
    }
}

pub fn play_action(protocol: ProtocolVersion, id: i32) -> (r: PlayAction)
    ensures
        r == play_action_of(protocol, id),
{
    match protocol {
        ProtocolVersion::V1_20_1 | ProtocolVersion::V1_20_2 => PlayAction::Shared,
        ProtocolVersion::V1_20_3 => match id {
            0x67 => PlayAction::Reconfigure,
            0x42 => PlayAction::ResetScore,
            0x43 => PlayAction::RemovePack,
            _ => PlayAction::Shared,
        },
        ProtocolVersion::V1_20_5 | ProtocolVersion::V1_21 => match id {
            0x69 => PlayAction::Reconfigure,
            0x44 => PlayAction::ResetScore,
            0x45 => PlayAction::RemovePack,
            0x46 => PlayAction::AddPack,
            _ => PlayAction::Shared,
        },
        ProtocolVersion::V1_21_2 | ProtocolVersion::V1_21_4 => match id {
            0x70 => PlayAction::Reconfigure,
            0x49 => PlayAction::ResetScore,
            0x4a => PlayAction::RemovePack,
            0x4b => PlayAction::AddPack,
            0x44 => PlayAction::AddToRecipeBook,
            0x45 => PlayAction::RemoveFromRecipeBook,
            0x46 => PlayAction::Ignore,
            0x5a => PlayAction::CursorItem,
            0x66 => PlayAction::PlayerSlot,
            _ => PlayAction::Shared,
        },
        ProtocolVersion::V1_21_5 => match id {
            0x6f => PlayAction::Reconfigure,
            0x48 => PlayAction::ResetScore,
            0x49 => PlayAction::RemovePack,
            0x4a => PlayAction::AddPack,
            0x43 => PlayAction::AddToRecipeBook,
            0x44 => PlayAction::RemoveFromRecipeBook,
            0x45 => PlayAction::Ignore,
            0x59 => PlayAction::CursorItem,
            0x65 => PlayAction::PlayerSlot,
            _ => PlayAction::Shared,
        },
    }
}

/// The forms in which versions write one and the same message.
#[derive(Clone, Copy, Debug, PartialEq, Eq, Structural)]
pub enum Form {
    /// As all versions know it.
    Shared,
    V766,
    V767,
    V768,
    V769,
    V770,
}

/// Whether a packet ends a batch of chunks, which is acknowledged, and in
/// which form.
pub open spec fn batch_form(protocol: ProtocolVersion, id: i32) -> Option<Form> {
    if protocol != ProtocolVersion::V1_20_1 && (id == 0x0c || (protocol == ProtocolVersion::V1_21_5
        && id == 0x0b)) {
        Some(
            if protocol.since_768() {
                Form::V768
            } else if protocol.split_registry() {
                Form::V766
            } else {
                Form::Shared
            },
        )
    } else {
        None
    }
}

pub fn chunk_batch_reply(protocol: ProtocolVersion, id: i32) -> (r: Option<Form>)
    ensures
        r == batch_form(protocol, id),
{
    if protocol != ProtocolVersion::V1_20_1 && (id == 0x0c || (protocol == ProtocolVersion::V1_21_5
        && id == 0x0b)) {
        if protocol.since_768() {
            Some(Form::V768)
        } else if protocol.uses_split_registry() {
            Some(Form::V766)
        } else {
            Some(Form::Shared)
        }
    } else {
        None
    }
}

/// The greeting of the player.
pub open spec fn greeting_of(name: Seq<char>) -> Seq<char> {
    name + " here via Crabcraft (pure Rust)."@
}

pub fn greeting(name: &str) -> (r: String)
    ensures
        r@ == greeting_of(name@),
{
    let mut r = name.to_owned();
    r.append(" here via Crabcraft (pure Rust).");
    r
}

/// What a spawn is answered with besides the confirmation: the settings of the
/// client in the form of the version, and whether it says that it has loaded.
pub open spec fn spawn_reply_of(protocol: ProtocolVersion) -> (Form, bool) {
    (
        if protocol.since_768() {
            Form::V768
        } else {
            Form::Shared
        },
        protocol.since_769(),
    )
}

pub fn spawn_reply(protocol: ProtocolVersion) -> (r: (Form, bool))
    ensures
        r == spawn_reply_of(protocol),
{
    if protocol.since_768() {
        (Form::V768, protocol.since_769())
    } else {
        (Form::Shared, false)
    }
}

/// In no version do two numbers lead to the same action, and no packet that
/// ends a batch of chunks is taken for another one.
pub proof fn actions_have_one_number(protocol: ProtocolVersion, a: i32, b: i32)
    ensures
        play_action_of(protocol, a) == play_action_of(protocol, b) && play_action_of(protocol, a)
            != PlayAction::Shared ==> a == b,
        batch_form(protocol, a) is Some ==> play_action_of(protocol, a) == PlayAction::Shared,
{
}

/// Only the oldest version goes from the login straight into play.
pub proof fn logins_lead_on(protocol: ProtocolVersion, account: Option<Uuid>, name: Seq<char>)
    ensures
        after_login(protocol) is Play <==> protocol is V1_20_1,
        after_login(protocol) is Configuration <==> protocol !is V1_20_1,
        account is Some ==> login_identity(protocol, account, name) == account,
        account is None ==> (login_identity(protocol, account, name) is None <==> protocol
            is V1_20_1),
        account is None && protocol !is V1_20_1 ==> login_identity(protocol, account, name) == Some(
            uuids::offline_identity(name),
        ),
{
}

/// Each packet of a login leads to its own action, and encryption takes an account.
pub proof fn login_packets_lead_to_their_actions(ids: LoginIds, id: i32, has_account: bool)
    requires
        ids.compression != ids.encryption,
        ids.compression != ids.disconnect,
        ids.compression != ids.success,
        ids.encryption != ids.disconnect,
        ids.encryption != ids.success,
        ids.disconnect != ids.success,
    ensures
        ({
            let action = login_action_of(ids, id, has_account);
            &&& action is SetCompression <==> id == ids.compression
            &&& action is Encrypt <==> id == ids.encryption && has_account
            &&& action is NeedsAccount <==> id == ids.encryption && !has_account
            &&& action is Refused <==> id == ids.disconnect
            &&& action is Accepted <==> id == ids.success
        }),
{
}

/// Which packet of a configuration leads to which action, from protocol 766 on.
pub proof fn configurations_since_766(protocol: ProtocolVersion, ids: ConfigurationIds, id: i32)
    requires
        protocol.number() >= 766,
    ensures
        ({
            let action = configuration_action_of(protocol, ids, id);
            &&& action is Refused <==> id == 2
            &&& action is Finish <==> id == 3
            &&& action is KeepAlive <==> id == 4
            &&& action is Ping <==> id == 5
            &&& action is Registry <==> id == 7
            &&& action is RemovePack <==> id == 8
            &&& action is AddPack <==> id == 9
            &&& action is KnownPacks <==> id == 14
            &&& action is Ignore <==> id < 2 || id == 6 || 10 <= id < 14 || id > 14
        }),
{
}

/// Which packet of a configuration leads to which action before protocol 766: a pack is
/// asked for by number 6 in 764, and removed by 6 and added by 7 in 765.
pub proof fn configurations_before_766(protocol: ProtocolVersion, ids: ConfigurationIds, id: i32)
    requires
        protocol.number() < 766,
        ids.finish != 1 && ids.keep_alive != 1 && ids.ping != 1 && ids.registry != 1,
        ids.finish != ids.keep_alive && ids.finish != ids.ping && ids.finish != ids.registry,
        ids.keep_alive != ids.ping && ids.keep_alive != ids.registry && ids.ping != ids.registry,
        ids.finish < 6 && ids.keep_alive < 6 && ids.ping < 6 && ids.registry < 6,
    ensures
        ({
            let action = configuration_action_of(protocol, ids, id);
            &&& action is Refused <==> id == 1
            &&& action is Finish <==> id == ids.finish
            &&& action is KeepAlive <==> id == ids.keep_alive
            &&& action is Ping <==> id == ids.ping
            &&& action is Registries <==> id == ids.registry
            &&& action is AskForPack <==> id == 6 && protocol is V1_20_2
            &&& action is RemovePack <==> id == 6 && protocol is V1_20_3
            &&& action is AddPack <==> id == 7 && protocol is V1_20_3
        }),
{
}

/// The packets that versions number for themselves, version by version: the score is
/// reset and packs are removed and added by successive numbers, and so the recipe book
/// is filled and emptied.
pub proof fn play_packets_have_their_numbers(protocol: ProtocolVersion, id: i32)
    ensures
        ({
            let action = play_action_of(protocol, id);
            let number = protocol.number();
            let score: int = if number == 765 {
                0x42
            } else if number == 766 || number == 767 {
                0x44
            } else if number == 768 || number == 769 {
                0x49
            } else {
                0x48
            };
            let book: int = if number == 770 {
                0x43
            } else {
                0x44
            };
            let items: int = if number == 770 {
                0x59
            } else {
                0x5a
            };
            &&& number < 765 ==> action is Shared
            &&& action is Reconfigure <==> number == 765 && id == 0x67 || (number == 766 || number
                == 767) && id == 0x69 || (number == 768 || number == 769) && id == 0x70 || number
                == 770 && id == 0x6f
            &&& action is ResetScore <==> number >= 765 && id == score
            &&& action is RemovePack <==> number >= 765 && id == score + 1
            &&& action is AddPack <==> number >= 766 && id == score + 2
            &&& action is AddToRecipeBook <==> number >= 768 && id == book
            &&& action is RemoveFromRecipeBook <==> number >= 768 && id == book + 1
            &&& action is Ignore <==> number >= 768 && id == book + 2
            &&& action is CursorItem <==> number >= 768 && id == items
            &&& action is PlayerSlot <==> number >= 768 && id == items + 12
        }),
{
}

/// Every version but the oldest acknowledges batches of chunks, in its own form.
pub proof fn batches_are_acknowledged(protocol: ProtocolVersion, id: i32)
    ensures
        batch_form(protocol, id) is Some <==> protocol !is V1_20_1 && (id == 12 || protocol
            is V1_21_5 && id == 11),
        batch_form(protocol, id) matches Some(form) ==> {
            &&& form is V768 <==> protocol.number() >= 768
            &&& form is V766 <==> protocol.number() == 766 || protocol.number() == 767
            &&& form is Shared <==> protocol.number() <= 765
        },
        spawn_reply_of(protocol).0 is V768 <==> protocol.number() >= 768,
        spawn_reply_of(protocol).0 is Shared <==> protocol.number() < 768,
        spawn_reply_of(protocol).1 <==> protocol.number() >= 769,
{
}

/// The greeting begins with the name of the player.
pub proof fn greetings_name_the_player(name: Seq<char>)
    ensures
        greeting_of(name) == name + " here via Crabcraft (pure Rust)."@,
        greeting_of(name).take(name.len() as int) == name,
{
    assert(greeting_of(name).take(name.len() as int) =~= name);
}

} // verus!
