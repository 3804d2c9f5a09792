//! What the player asks for, and the form in which a version is told of it.

use vstd::prelude::*;
use vstd::string::*;

use crate::protocol::ProtocolVersion;
use crate::session::Form;
use crate::text::{self, parse_i32};

verus! {

/// A line of chat as it is sent: a command goes without its slash.
#[derive(Debug)]
pub enum ChatPacket {
    Command(String),
    Message(String),
    /// A message as protocol 770 has it.
    Message770(String),
}

pub enum ChatModel {
    Command(Seq<char>),
    Message(Seq<char>),
    Message770(Seq<char>),
}

impl View for ChatPacket {
    type V = ChatModel;

    open spec fn view(&self) -> ChatModel {
        match self {
            ChatPacket::Command(text) => ChatModel::Command(text@),
            ChatPacket::Message(text) => ChatModel::Message(text@),
            ChatPacket::Message770(text) => ChatModel::Message770(text@),
        }
    }
}

pub open spec fn chat_of(protocol: ProtocolVersion, line: Seq<char>) -> ChatModel {
    if line.len() > 0 && line[0] == '/' {
        ChatModel::Command(line.skip(1))
    } else if protocol == ProtocolVersion::V1_21_5 {
        ChatModel::Message770(line)
    } else {
        ChatModel::Message(line)
    }
}

pub fn chat_packet(protocol: ProtocolVersion, line: &str) -> (r: ChatPacket)
    ensures
        r@ == chat_of(protocol, line@),
{
    let len: usize = line.unicode_len();
    if len > 0 && line.get_char(0) == '/' {
        let rest = line.substring_char(1, len);
        proof {
            assert(rest@ =~= line@.skip(1));
        }
        ChatPacket::Command(rest.to_owned())
    } else if protocol == ProtocolVersion::V1_21_5 {
        ChatPacket::Message770(line.to_owned())
    } else {
        ChatPacket::Message(line.to_owned())
    }
}

/// How a recipe is named: by number from protocol 768 on, by identifier before.
#[derive(Debug)]
pub enum RecipeKey {
    Numeric(i32),
    Namespaced(String),
}

/// The number that names a recipe of the book in some version, if it has one.
pub open spec fn recipe_number(protocol: ProtocolVersion, id: Seq<char>) -> Option<i32> {
    if protocol.since_768() {
        text::parse_i32_spec(id)
    } else {
        None
    }
}

/// How a recipe of the book is named in some version.
pub fn recipe_key(protocol: ProtocolVersion, id: &str) -> (r: RecipeKey)
    ensures
        match recipe_number(protocol, id@) {
            Some(number) => r == RecipeKey::Numeric(number),
            None => r matches RecipeKey::Namespaced(name) && name@ == id@,
        },
        recipe_form_of(protocol, r) is Some,
{
    if protocol.since_768() {
        if let Some(number) = parse_i32(id) {
            return RecipeKey::Numeric(number);
        }
    }
    RecipeKey::Namespaced(id.to_owned())
}

/// The form in which a recipe is asked for, or nothing where the version does
/// not name recipes in that way.
pub open spec fn recipe_form_of(protocol: ProtocolVersion, key: RecipeKey) -> Option<Form> {
    match key {
        RecipeKey::Numeric(_) => if protocol.since_769() {
            Some(Form::V769)
        } else if protocol.since_768() {
            Some(Form::V768)
        } else {
            None
        },
        RecipeKey::Namespaced(_) => Some(Form::Shared),
    }
}

pub fn recipe_form(protocol: ProtocolVersion, key: &RecipeKey) -> (r: Option<Form>)
    ensures
        r == recipe_form_of(protocol, *key),
{
    match key {
        RecipeKey::Numeric(_) => {
            if protocol.since_769() {
                Some(Form::V769)
            } else if protocol.since_768() {
                Some(Form::V768)
            } else {
                None
            }
        },
        RecipeKey::Namespaced(_) => Some(Form::Shared),
    }
}

/// The form in which an item of a bundle is chosen; earlier versions have no
/// such choice.
pub open spec fn bundle_form_of(protocol: ProtocolVersion) -> Option<Form> {
    if protocol.since_769() {
        Some(Form::V769)
    } else if protocol.since_768() {
        Some(Form::V768)
    } else {
        None
    }
}

pub fn bundle_form(protocol: ProtocolVersion) -> (r: Option<Form>)
    ensures
        r == bundle_form_of(protocol),
{
    if protocol.since_769() {
        Some(Form::V769)
    } else if protocol.since_768() {
        Some(Form::V768)
    } else {
        None
    }
}

/// The form in which a click on a slot is reported.
pub open spec fn click_form_of(protocol: ProtocolVersion) -> Form {
    if protocol.number() >= 767 {
        Form::V767
    } else if protocol == ProtocolVersion::V1_20_5 {
        Form::V766
    } else {
        Form::Shared
    }
}

pub fn click_form(protocol: ProtocolVersion) -> (r: Form)
    ensures
        r == click_form_of(protocol),
{
    if protocol.number() >= 767 {
        Form::V767
    } else if protocol == ProtocolVersion::V1_20_5 {
        Form::V766
    } else {
        Form::Shared
    }
}

/// The form in which the use of an item is reported.
pub open spec fn use_form_of(protocol: ProtocolVersion) -> Form {
    match protocol {
        ProtocolVersion::V1_21_5 => Form::V770,
        ProtocolVersion::V1_21_4 => Form::V769,
        ProtocolVersion::V1_21_2 => Form::V768,
        _ => Form::Shared,
    }
}

pub fn use_form(protocol: ProtocolVersion) -> (r: Form)
    ensures
        r == use_form_of(protocol),
{
    match protocol {
        ProtocolVersion::V1_21_5 => Form::V770,
        ProtocolVersion::V1_21_4 => Form::V769,
        ProtocolVersion::V1_21_2 => Form::V768,
        _ => Form::Shared,
    }
}

/// The form in which the controls of a rider are reported, and that in which
/// the vehicle is.
pub open spec fn vehicle_forms_of(protocol: ProtocolVersion) -> (Form, Form) {
    if protocol.since_769() {
        (Form::V769, Form::V769)
    } else if protocol.since_768() {
        (Form::V768, Form::Shared)
    } else {
        (Form::Shared, Form::Shared)
    }
}

pub fn vehicle_forms(protocol: ProtocolVersion) -> (r: (Form, Form))
    ensures
        r == vehicle_forms_of(protocol),
{
    if protocol.since_769() {
        (Form::V769, Form::V769)
    } else if protocol.since_768() {
        (Form::V768, Form::Shared)
    } else {
        (Form::Shared, Form::Shared)
    }
}

/// What is typed with a slash is a command and never a message, whatever the
/// version.
pub proof fn commands_are_not_spoken(protocol: ProtocolVersion, command: Seq<char>)
    ensures
        chat_of(protocol, seq!['/'] + command) == ChatModel::Command(command),
{
    assert((seq!['/'] + command).skip(1) =~= command);
}

/// What is typed without a slash is spoken as it is, and the newest version has a form of
/// its own for it.
pub proof fn words_are_spoken(protocol: ProtocolVersion, line: Seq<char>)
    requires
        line.len() == 0 || line[0] != '/',
    ensures
        protocol is V1_21_5 ==> chat_of(protocol, line) == ChatModel::Message770(line),
        protocol !is V1_21_5 ==> chat_of(protocol, line) == ChatModel::Message(line),
{
}

/// Recipes are named by number from protocol 768 on where their name is one, and by
/// identifier else; a number is asked for in the form of its version.
pub proof fn recipes_are_named_by_version(protocol: ProtocolVersion, number: i32, key: RecipeKey)
    ensures
        protocol.number() >= 768 ==> recipe_number(protocol, text::decimal(number as int)) == Some(
            number,
        ),
        protocol.number() < 768 ==> recipe_number(protocol, text::decimal(number as int)) is None,
        key is Namespaced ==> recipe_form_of(protocol, key) == Some(Form::Shared),
        key is Numeric ==> (recipe_form_of(protocol, key) is None <==> protocol.number() < 768),
        key is Numeric ==> (recipe_form_of(protocol, key) == Some(Form::V768) <==> protocol.number()
            == 768),
        key is Numeric ==> (recipe_form_of(protocol, key) == Some(Form::V769) <==> protocol.number()
            > 768),
{
    text::signed_round_trip(number);
}

/// Which version reports in which form.
pub proof fn forms_change_with_versions(protocol: ProtocolVersion)
    ensures
        bundle_form_of(protocol) is None <==> protocol.number() < 768,
        bundle_form_of(protocol) == Some(Form::V768) <==> protocol.number() == 768,
        bundle_form_of(protocol) == Some(Form::V769) <==> protocol.number() > 768,
        click_form_of(protocol) is Shared <==> protocol.number() < 766,
        click_form_of(protocol) is V766 <==> protocol.number() == 766,
        click_form_of(protocol) is V767 <==> protocol.number() > 766,
        use_form_of(protocol) is Shared <==> protocol.number() < 768,
        use_form_of(protocol) is V768 <==> protocol.number() == 768,
        use_form_of(protocol) is V769 <==> protocol.number() == 769,
        use_form_of(protocol) is V770 <==> protocol.number() == 770,
        vehicle_forms_of(protocol).0 is Shared <==> protocol.number() < 768,
        vehicle_forms_of(protocol).0 is V768 <==> protocol.number() == 768,
        vehicle_forms_of(protocol).0 is V769 <==> protocol.number() > 768,
        vehicle_forms_of(protocol).1 is Shared <==> protocol.number() < 769,
        vehicle_forms_of(protocol).1 is V769 <==> protocol.number() > 768,
{
}

/// A packet of chat stands for its text, in its form.
pub proof fn chat_stands_for_its_text(packet: ChatPacket)
    ensures
        packet matches ChatPacket::Command(text) ==> packet@ == ChatModel::Command(text@),
        packet matches ChatPacket::Message(text) ==> packet@ == ChatModel::Message(text@),
        packet matches ChatPacket::Message770(text) ==> packet@ == ChatModel::Message770(text@),
{
}

} // verus!
