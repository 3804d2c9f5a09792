//! Sounds that the server plays.

use vstd::prelude::*;
use vstd::string::*;

use crate::join::MAX_IDENTIFIER;
use crate::text::{self, decimal_text, has_prefix, parse_i32, strip_prefix_or_all};
use crate::wire::{self, Reader, Taken};

verus! {

/// Where a sound comes from: a place in eighths of a block, or an entity.
#[derive(Clone, Copy, Debug, PartialEq, Eq, Structural)]
pub enum SoundSource {
    Place(i32, i32, i32),
    Entity(i32),
}

/// A sound, by the name of its event. The range and the volume are kept as
/// their bits.
#[derive(Debug)]
pub struct Sound {
    pub event: String,
    pub fixed_range: Option<u32>,
    pub source: SoundSource,
    pub volume: u32,
}

pub struct SoundModel {
    pub event: Seq<char>,
    pub fixed_range: Option<u32>,
    pub source: SoundSource,
    pub volume: u32,
}

impl View for Sound {
    type V = SoundModel;

    open spec fn view(&self) -> SoundModel {
        SoundModel {
            event: self.event@,
            fixed_range: self.fixed_range,
            source: self.source,
            volume: self.volume,
        }
    }
}

/// How far a sound reaches, where the server says so.
pub open spec fn take_range(s: Seq<u8>) -> (Option<u32>, Seq<u8>) {
    match wire::take_bool(s) {
        (Some(present), rest) => if present {
            wire::take_u32(rest)
        } else {
            (None, rest)
        },
        (None, rest) => (None, rest),
    }
}

/// The event of a sound and its range: by its resource name behind a 0, else
/// by its number.
pub open spec fn take_event(s: Seq<u8>) -> Taken<(Seq<char>, Option<u32>)> {
    match wire::take_varint(s) {
        (Some(id), rest) => if id == 0 {
            match wire::take_string(rest, MAX_IDENTIFIER as nat) {
                (Some(name), rest) => {
                    let (range, rest) = take_range(rest);
                    (Some((text::without_prefix(name, "minecraft:"@), range)), rest)
                },
                (None, rest) => (None, rest),
            }
        } else {
            (Some(("@protocol:"@ + text::decimal(id as int), None)), rest)
        },
        (None, rest) => (None, rest),
    }
}

pub open spec fn take_source(s: Seq<u8>, of_entity: bool) -> Taken<SoundSource> {
    if of_entity {
        match wire::take_varint(s) {
            (Some(id), rest) => (Some(SoundSource::Entity(id)), rest),
            (None, rest) => (None, rest),
        }
    } else {
        match wire::take_i32(s) {
            (Some(x), rest) => match wire::take_i32(rest) {
                (Some(y), rest) => match wire::take_i32(rest) {
                    (Some(z), rest) => (Some(SoundSource::Place(x, y, z)), rest),
                    (None, rest) => (None, rest),
                },
                (None, rest) => (None, rest),
            },
            (None, rest) => (None, rest),
        }
    }
}

/// The sound in a packet; its category is read and not kept.
pub open spec fn sound_of(body: Seq<u8>, of_entity: bool) -> Option<SoundModel> {
    match take_event(body) {
        (Some((event, fixed_range)), rest) => match take_source(
            wire::take_varint(rest).1,
            of_entity,
        ) {
            (Some(source), rest) => match wire::take_u32(rest).0 {
                Some(volume) => Some(SoundModel { event, fixed_range, source, volume }),
                None => None,
            },
            (None, _) => None,
        },
        (None, _) => None,
    }
}

fn read_range(r: &mut Reader) -> (v: Option<u32>)
    ensures
        (v, final(r)@) == take_range(old(r)@),
{
    match r.bool() {
        Some(present) => {
            if present {
                r.u32()
            } else {
                None
            }
        },
        None => None,
    }
}

fn read_event(r: &mut Reader) -> (v: Option<(String, Option<u32>)>)
    ensures
        final(r)@ == take_event(old(r)@).1,
        match take_event(old(r)@).0 {
            Some((event, range)) => v matches Some(got) && got.0@ == event && got.1 == range,
            None => v is None,
        },
{
    let id: i32 = match r.varint() {
        Some(v) => v,
        None => return None,
    };
    if id == 0 {
        match r.string(MAX_IDENTIFIER) {
            Some(name) => {
                let range: Option<u32> = read_range(r);
                Some((strip_prefix_or_all(name.as_str(), "minecraft:").to_owned(), range))
            },
            None => None,
        }
    } else {
        let mut event = "@protocol:".to_owned();
        event.append(decimal_text(id as i64).as_str());
        Some((event, None))
    }
}

fn read_source(r: &mut Reader, of_entity: bool) -> (v: Option<SoundSource>)
    ensures
        (v, final(r)@) == take_source(old(r)@, of_entity),
{
    if of_entity {
        match r.varint() {
            Some(id) => Some(SoundSource::Entity(id)),
            None => None,
        }
    } else {
        let x: i32 = match r.i32() {
            Some(v) => v,
            None => return None,
        };
        let y: i32 = match r.i32() {
            Some(v) => v,
            None => return None,
        };
        match r.i32() {
            Some(z) => Some(SoundSource::Place(x, y, z)),
            None => None,
        }
    }
}

pub fn decode_sound(body: &[u8], of_entity: bool) -> (v: Option<Sound>)
    ensures
        match sound_of(body@, of_entity) {
            Some(want) => v matches Some(got) && got@ == want,
            None => v is None,
        },
{
    let mut r = Reader::new(body);
    let (event, fixed_range) = match read_event(&mut r) {
        Some(v) => v,
        None => return None,
    };
    let _ = r.varint();
    let source = match read_source(&mut r, of_entity) {
        Some(v) => v,
        None => return None,
    };
    match r.u32() {
        Some(volume) => Some(Sound { event, fixed_range, source, volume }),
        None => None,
    }
}

/// The name that a sound without a resource name goes by.
pub open spec fn numbered(id: i32) -> Seq<char> {
    "@protocol:"@ + text::decimal(id as int)
}

/// The number of a sound that goes by its number.
pub open spec fn number_of(name: Seq<char>) -> Option<i32> {
    if text::starts_with(name, "@protocol:"@) {
        text::parse_i32_spec(text::without_prefix(name, "@protocol:"@))
    } else {
        None
    }
}

pub fn protocol_number(name: &str) -> (r: Option<i32>)
    ensures
        r == number_of(name@),
{
    if has_prefix(name, "@protocol:") {
        parse_i32(strip_prefix_or_all(name, "@protocol:"))
    } else {
        None
    }
}

/// A sound that goes by its number is found again by it.
pub proof fn numbers_of_sounds_come_back(id: i32)
    ensures
        number_of(numbered(id)) == Some(id),
{
    let prefix = "@protocol:"@;
    let name = numbered(id);
    assert(name.subrange(0, prefix.len() as int) =~= prefix);
    assert(name.subrange(prefix.len() as int, name.len() as int) =~= text::decimal(id as int));
    text::signed_round_trip(id);
}

/// A sound with a resource name is known by it, without the vanilla namespace, and
/// reaches as far as the server says; a sound with a number is known by that.
pub proof fn sounds_have_names_or_numbers(
    s: Seq<u8>,
    id: i32,
    r1: Seq<u8>,
    name: Seq<char>,
    r2: Seq<u8>,
)
    requires
        wire::take_varint(s) == (Some(id), r1),
        id == 0 ==> wire::take_string(r1, 32767) == (Some(name), r2) && r2.len() > 0,
    ensures
        id != 0 ==> take_event(s) == (Some((numbered(id), None::<u32>)), r1),
        id == 0 ==> (take_event(s).0 matches Some((event, range)) && {
            let after = r2.subrange(1, r2.len() as int);
            &&& event == text::without_prefix(name, "minecraft:"@)
            &&& r2[0] == 0 ==> range is None && take_event(s).1 == after
            &&& r2[0] != 0 ==> (range, take_event(s).1) == wire::take_u32(after)
        }),
{
}

/// Behind its event and a category a sound has its place, x before y before z, or its
/// entity, and then its volume.
pub proof fn sounds_have_a_place_and_a_volume(
    body: Seq<u8>,
    event: Seq<char>,
    range: Option<u32>,
    r1: Seq<u8>,
    r2: Seq<u8>,
    x: i32,
    r3: Seq<u8>,
    y: i32,
    r4: Seq<u8>,
    z: i32,
    r5: Seq<u8>,
    volume: u32,
)
    requires
        take_event(body) == (Some((event, range)), r1),
        wire::take_varint(r1).1 == r2,
        wire::take_i32(r2) == (Some(x), r3),
        wire::take_i32(r3) == (Some(y), r4),
        wire::take_i32(r4) == (Some(z), r5),
        wire::take_u32(r5).0 == Some(volume),
    ensures
        sound_of(body, false) is Some,
        ({
            let sound = sound_of(body, false)->0;
            &&& sound.event == event
            &&& sound.fixed_range == range
            &&& sound.source == SoundSource::Place(x, y, z)
            &&& sound.volume == volume
        }),
{
}

/// The same for a sound of an entity.
pub proof fn sounds_can_follow_an_entity(
    body: Seq<u8>,
    event: Seq<char>,
    range: Option<u32>,
    r1: Seq<u8>,
    r2: Seq<u8>,
    entity: i32,
    r3: Seq<u8>,
    volume: u32,
)
    requires
        take_event(body) == (Some((event, range)), r1),
        wire::take_varint(r1).1 == r2,
        wire::take_varint(r2) == (Some(entity), r3),
        wire::take_u32(r3).0 == Some(volume),
    ensures
        sound_of(body, true) is Some,
        ({
            let sound = sound_of(body, true)->0;
            &&& sound.event == event
            &&& sound.fixed_range == range
            &&& sound.source == SoundSource::Entity(entity)
            &&& sound.volume == volume
        }),
{
}

/// A sound stands for its parts.
pub proof fn sounds_stand_for_their_parts(sound: Sound)
    ensures
        sound@.event == sound.event@,
        sound@.fixed_range == sound.fixed_range,
        sound@.source == sound.source,
        sound@.volume == sound.volume,
{
}

} // verus!
