//! What packets say of the looks of an entity: its metadata and equipment.

use vstd::prelude::*;

use crate::component::{self, read_text_component};
use crate::entities::{self, Entities, Entity, EntityRegistry, Girth, Height};
use crate::join::MAX_IDENTIFIER;
use crate::nbt::{self, read_anonymous_nbt, read_nbt};
use crate::protocol::ProtocolVersion;
use crate::slots::{self, FedSlot, Outcome, Parsed, SlotReader, SlotState};
use crate::wire::{self, Taken};

verus! {

/// The number of the field type for poses. Protocol 766 has one type more
/// before it.
pub open spec fn pose_type(protocol: ProtocolVersion) -> i32 {
    if protocol.data_components() {
        21
    } else {
        20
    }
}

pub fn pose_metadata_type(protocol: ProtocolVersion) -> (r: i32)
    ensures
        r == pose_type(protocol),
{
    if protocol.uses_data_components() {
        21
    } else {
        20
    }
}

/// The value of a field, as far as anything asks for it.
#[derive(Clone, Copy, Debug, PartialEq, Eq, Structural)]
pub enum FieldValue {
    Byte(u8),
    Number(i32),
    Stack(Option<i32>),
    Other,
}

pub open spec fn other<T>(st: SlotState, taken: Taken<T>) -> Parsed<FieldValue> {
    match taken {
        (Some(_), rest) => (Some(FieldValue::Other), SlotState { rest, ..st }),
        (None, rest) => (None, SlotState { rest, ..st }),
    }
}

/// Something that may be absent: a flag, and what follows where it is set.
pub open spec fn take_optional_component(s: Seq<u8>, protocol: ProtocolVersion) -> Taken<()> {
    match wire::take_bool(s) {
        (Some(present), rest) => if present {
            match component::take_component(rest, protocol) {
                (Some(_), rest) => (Some(()), rest),
                (None, rest) => (None, rest),
            }
        } else {
            (Some(()), rest)
        },
        (None, rest) => (None, rest),
    }
}

pub open spec fn take_optional_position(s: Seq<u8>) -> Taken<()> {
    match wire::take_bool(s) {
        (Some(present), rest) => if present {
            match wire::take_position(rest) {
                (Some(_), rest) => (Some(()), rest),
                (None, rest) => (None, rest),
            }
        } else {
            (Some(()), rest)
        },
        (None, rest) => (None, rest),
    }
}

pub open spec fn take_optional_uuid(s: Seq<u8>) -> Taken<()> {
    match wire::take_bool(s) {
        (Some(present), rest) => if present {
            match wire::take_uuid(rest) {
                (Some(_), rest) => (Some(()), rest),
                (None, rest) => (None, rest),
            }
        } else {
            (Some(()), rest)
        },
        (None, rest) => (None, rest),
    }
}

pub open spec fn take_three_words(s: Seq<u8>) -> Taken<()> {
    match wire::take_u32(s) {
        (Some(_), rest) => match wire::take_u32(rest) {
            (Some(_), rest) => match wire::take_u32(rest) {
                (Some(_), rest) => (Some(()), rest),
                (None, rest) => (None, rest),
            },
            (None, rest) => (None, rest),
        },
        (None, rest) => (None, rest),
    }
}

pub open spec fn take_three_numbers(s: Seq<u8>) -> Taken<()> {
    match wire::take_varint(s) {
        (Some(_), rest) => match wire::take_varint(rest) {
            (Some(_), rest) => match wire::take_varint(rest) {
                (Some(_), rest) => (Some(()), rest),
                (None, rest) => (None, rest),
            },
            (None, rest) => (None, rest),
        },
        (None, rest) => (None, rest),
    }
}

pub open spec fn is_number_type(kind: i32) -> bool {
    kind == 1 || kind == 12 || kind == 14 || kind == 15 || 19 <= kind <= 22
}

/// A field of some type.
pub open spec fn take_field(st: SlotState, protocol: ProtocolVersion, kind: i32) -> Parsed<
    FieldValue,
> {
    if kind == 0 {
        match wire::take_u8(st.rest) {
            (Some(value), rest) => (Some(FieldValue::Byte(value)), SlotState { rest, ..st }),
            (None, rest) => (None, SlotState { rest, ..st }),
        }
    } else if is_number_type(kind) {
        match wire::take_varint(st.rest) {
            (Some(value), rest) => (Some(FieldValue::Number(value)), SlotState { rest, ..st }),
            (None, rest) => (None, SlotState { rest, ..st }),
        }
    } else if kind == 2 {
        other(st, wire::take_varlong_from(st.rest, 0))
    } else if kind == 3 {
        other(st, wire::take_u32(st.rest))
    } else if kind == 4 {
        other(st, wire::take_string(st.rest, MAX_IDENTIFIER as nat))
    } else if kind == 5 {
        other(st, component::take_component(st.rest, protocol))
    } else if kind == 6 {
        other(st, take_optional_component(st.rest, protocol))
    } else if kind == 7 {
        match slots::take_slot(st, protocol) {
            (Some(slot), st) => (
                Some(
                    FieldValue::Stack(
                        match slot {
                            Some(item) => Some(item.item_id),
                            None => None,
                        },
                    ),
                ),
                st,
            ),
            (None, st) => (None, st),
        }
    } else if kind == 8 {
        other(st, wire::take_bool(st.rest))
    } else if kind == 9 {
        other(st, take_three_words(st.rest))
    } else if kind == 10 {
        other(st, wire::take_position(st.rest))
    } else if kind == 11 {
        other(st, take_optional_position(st.rest))
    } else if kind == 13 {
        other(st, take_optional_uuid(st.rest))
    } else if kind == 16 {
        other(
            st,
            if protocol.nbt_components() {
                nbt::take_anonymous_nbt(st.rest)
            } else {
                nbt::take_named_nbt(st.rest)
            },
        )
    } else if kind == 18 {
        other(st, take_three_numbers(st.rest))
    } else {
        (None, st)
    }
}

fn unit<T>(v: Option<T>) -> (r: Option<FieldValue>)
    ensures
        r == match v {
            Some(_) => Some(FieldValue::Other),
            None => None,
        },
{
    match v {
        Some(_) => Some(FieldValue::Other),
        None => None,
    }
}

fn skip_optional_component(r: &mut SlotReader, protocol: ProtocolVersion) -> (v: Option<()>)
    requires
        old(r).wf(),
    ensures
        final(r).wf(),
        (v, final(r)@) == slots::plain(
            old(r)@,
            take_optional_component(old(r)@.rest, protocol),
        ),
{
    match r.reader.bool() {
        Some(present) => {
            if present {
                match read_text_component(&mut r.reader, protocol) {
                    Some(_) => Some(()),
                    None => None,
                }
            } else {
                Some(())
            }
        },
        None => None,
    }
}

fn skip_optional_position(r: &mut SlotReader) -> (v: Option<()>)
    requires
        old(r).wf(),
    ensures
        final(r).wf(),
        (v, final(r)@) == slots::plain(old(r)@, take_optional_position(old(r)@.rest)),
{
    match r.reader.bool() {
        Some(present) => {
            if present {
                match r.reader.position() {
                    Some(_) => Some(()),
                    None => None,
                }
            } else {
                Some(())
            }
        },
        None => None,
    }
}

fn skip_optional_uuid(r: &mut SlotReader) -> (v: Option<()>)
    requires
        old(r).wf(),
    ensures
        final(r).wf(),
        (v, final(r)@) == slots::plain(old(r)@, take_optional_uuid(old(r)@.rest)),
{
    match r.reader.bool() {
        Some(present) => {
            if present {
                match r.reader.uuid() {
                    Some(_) => Some(()),
                    None => None,
                }
            } else {
                Some(())
            }
        },
        None => None,
    }
}

fn skip_three_words(r: &mut SlotReader) -> (v: Option<()>)
    requires
        old(r).wf(),
    ensures
        final(r).wf(),
        (v, final(r)@) == slots::plain(old(r)@, take_three_words(old(r)@.rest)),
{
    if r.reader.u32().is_none() {
        return None;
    }
    if r.reader.u32().is_none() {
        return None;
    }
    match r.reader.u32() {
        Some(_) => Some(()),
        None => None,
    }
}

fn skip_three_numbers(r: &mut SlotReader) -> (v: Option<()>)
    requires
        old(r).wf(),
    ensures
        final(r).wf(),
        (v, final(r)@) == slots::plain(old(r)@, take_three_numbers(old(r)@.rest)),
{
    if r.reader.varint().is_none() {
        return None;
    }
    if r.reader.varint().is_none() {
        return None;
    }
    match r.reader.varint() {
        Some(_) => Some(()),
        None => None,
    }
}

fn read_field(r: &mut SlotReader, protocol: ProtocolVersion, kind: i32) -> (v: Option<FieldValue>)
    requires
        old(r).wf(),
    ensures
        final(r).wf(),
        (v, final(r)@) == take_field(old(r)@, protocol, kind),
{
    if kind == 0 {
        match r.reader.u8() {
            Some(value) => Some(FieldValue::Byte(value)),
            None => None,
        }
    } else if kind == 1 || kind == 12 || kind == 14 || kind == 15 || 19 <= kind && kind <= 22 {
        match r.reader.varint() {
            Some(value) => Some(FieldValue::Number(value)),
            None => None,
        }
    } else if kind == 2 {
        unit(r.reader.skip_varlong())
    } else if kind == 3 {
        unit(r.reader.u32())
    } else if kind == 4 {
        unit(r.reader.string(MAX_IDENTIFIER))
    } else if kind == 5 {
        unit(read_text_component(&mut r.reader, protocol))
    } else if kind == 6 {
        unit(skip_optional_component(r, protocol))
    } else if kind == 7 {
        match r.slot(protocol) {
            Some(Some(item)) => Some(FieldValue::Stack(Some(item.item_id))),
            Some(None) => Some(FieldValue::Stack(None)),
            None => None,
        }
    } else if kind == 8 {
        unit(r.reader.bool())
    } else if kind == 9 {
        unit(skip_three_words(r))
    } else if kind == 10 {
        unit(r.reader.position())
    } else if kind == 11 {
        unit(skip_optional_position(r))
    } else if kind == 13 {
        unit(skip_optional_uuid(r))
    } else if kind == 16 {
        if protocol.uses_nbt_components() {
            unit(read_anonymous_nbt(&mut r.reader))
        } else {
            unit(read_nbt(&mut r.reader))
        }
    } else if kind == 18 {
        unit(skip_three_numbers(r))
    } else {
        None
    }
}

/// A change of the looks of an entity.
#[derive(Clone, Copy, Debug, PartialEq, Eq, Structural)]
pub enum MetaChange {
    /// Whether it is invisible and whether it glows.
    Flags(bool, bool),
    /// The size of a slime.
    Size(i32),
    /// The item of a dropped stack.
    Item(Option<i32>),
    Pose(i32),
}

/// What a field says of the looks, if anything. Only slimes have a size.
pub open spec fn change_of(
    index: u8,
    kind: i32,
    value: FieldValue,
    protocol: ProtocolVersion,
    sizable: bool,
) -> Option<MetaChange> {
    match value {
        FieldValue::Byte(flags) => if index == 0 {
            Some(MetaChange::Flags(flags & 0x20 != 0, flags & 0x40 != 0))
        } else {
            None
        },
        FieldValue::Number(v) => if kind == 1 && index == 16 && sizable && v > 0 {
            Some(MetaChange::Size(v))
        } else if kind == pose_type(protocol) && index == 6 {
            Some(MetaChange::Pose(v))
        } else {
            None
        },
        FieldValue::Stack(item) => if index == 8 {
            Some(MetaChange::Item(item))
        } else {
            None
        },
        FieldValue::Other => None,
    }
}

fn find_change(
    index: u8,
    kind: i32,
    value: FieldValue,
    protocol: ProtocolVersion,
    sizable: bool,
) -> (r: Option<MetaChange>)
    ensures
        r == change_of(index, kind, value, protocol, sizable),
{
    match value {
        FieldValue::Byte(flags) => {
            if index == 0 {
                Some(MetaChange::Flags(flags & 0x20 != 0, flags & 0x40 != 0))
            } else {
                None
            }
        },
        FieldValue::Number(v) => {
            if kind == 1 && index == 16 && sizable && v > 0 {
                Some(MetaChange::Size(v))
            } else if kind == pose_metadata_type(protocol) && index == 6 {
                Some(MetaChange::Pose(v))
            } else {
                None
            }
        },
        FieldValue::Stack(item) => {
            if index == 8 {
                Some(MetaChange::Item(item))
            } else {
                None
            }
        },
        FieldValue::Other => None,
    }
}

/// The mark that ends the fields.
pub const END_OF_FIELDS: u8 = 0xff;

/// The changes that the fields to come make, behind those in `acc`, and where
/// the round stands at their end: the end mark, or the first field that
/// cannot be read. There are at most `n` fields.
pub open spec fn take_changes(
    st: SlotState,
    n: nat,
    protocol: ProtocolVersion,
    sizable: bool,
    acc: Seq<MetaChange>,
) -> (Seq<MetaChange>, SlotState)
    decreases n,
{
    if n == 0 {
        (acc, st)
    } else {
        match slots::plain(st, wire::take_u8(st.rest)) {
            (Some(index), st) => if index == END_OF_FIELDS {
                (acc, st)
            } else {
                match slots::plain(st, wire::take_varint(st.rest)) {
                    (Some(kind), st) => match take_field(st, protocol, kind) {
                        (Some(value), st) => take_changes(
                            st,
                            (n - 1) as nat,
                            protocol,
                            sizable,
                            match change_of(index, kind, value, protocol, sizable) {
                                Some(change) => acc.push(change),
                                None => acc,
                            },
                        ),
                        (None, st) => (acc, st),
                    },
                    (None, st) => (acc, st),
                }
            },
            (None, st) => (acc, st),
        }
    }
}

/// What a packet says of an entity. Where a stack is missing, `need` is its
/// distance from the end of the packet, and `changes` are those before it.
#[derive(Debug)]
pub struct Metadata {
    pub id: i32,
    pub changes: Vec<MetaChange>,
    pub need: Option<usize>,
}

pub open spec fn need_of(st: SlotState) -> Option<usize> {
    if st.wanting {
        Some(st.rest.len() as usize)
    } else {
        None
    }
}

fn read_changes(r: &mut SlotReader, n: usize, protocol: ProtocolVersion, sizable: bool) -> (v: Vec<
    MetaChange,
>)
    requires
        old(r).wf(),
    ensures
        final(r).wf(),
        (v@, final(r)@) == take_changes(old(r)@, n as nat, protocol, sizable, Seq::empty()),
{
    let ghost want = take_changes(r@, n as nat, protocol, sizable, Seq::empty());
    let mut changes: Vec<MetaChange> = Vec::new();
    let mut left: usize = n;
    while left > 0
        invariant
            r.wf(),
            want == take_changes(old(r)@, n as nat, protocol, sizable, Seq::empty()),
            want == take_changes(r@, left as nat, protocol, sizable, changes@),
        decreases left,
    {
        let index: u8 = match r.reader.u8() {
            Some(v) => v,
            None => return changes,
        };
        if index == END_OF_FIELDS {
            return changes;
        }
        let kind: i32 = match r.reader.varint() {
            Some(v) => v,
            None => return changes,
        };
        let value = match read_field(r, protocol, kind) {
            Some(v) => v,
            None => return changes,
        };
        match find_change(index, kind, value, protocol, sizable) {
            Some(change) => changes.push(change),
            None => {},
        }
        left = left - 1;
    }
    changes
}

/// The entity after a change. A pose gives it a height of its own; any other
/// pose gives it the height of its kind, where the registry knows that.
pub open spec fn looks_after(
    entity: Entity,
    change: MetaChange,
    registry: EntityRegistry,
) -> Entity {
    match change {
        MetaChange::Flags(invisible, glowing) => Entity { invisible, glowing, ..entity },
        MetaChange::Size(size) => Entity {
            scale: size,
            girth: Girth::Slime(size),
            height: Height::Slime(size),
            ..entity
        },
        MetaChange::Item(item) => Entity { item, ..entity },
        MetaChange::Pose(pose) => Entity {
            pose,
            height: if pose == 3 || pose == 4 {
                Height::Lying
            } else if pose == 5 {
                Height::Crouching
            } else if registry.name_of(entity.type_id) is Some {
                Height::OfKind
            } else {
                entity.height
            },
            ..entity
        },
    }
}

fn change_looks(entity: Entity, change: MetaChange, registry: &EntityRegistry) -> (r: Entity)
    ensures
        r == looks_after(entity, change, *registry),
{
    let mut r = entity;
    match change {
        MetaChange::Flags(invisible, glowing) => {
            r.invisible = invisible;
            r.glowing = glowing;
        },
        MetaChange::Size(size) => {
            r.scale = size;
            r.girth = Girth::Slime(size);
            r.height = Height::Slime(size);
        },
        MetaChange::Item(item) => {
            r.item = item;
        },
        MetaChange::Pose(pose) => {
            r.pose = pose;
            if pose == 3 || pose == 4 {
                r.height = Height::Lying;
            } else if pose == 5 {
                r.height = Height::Crouching;
            } else if registry.entity_name(entity.type_id).is_some() {
                r.height = Height::OfKind;
            }
        },
    }
    r
}

/// The entity after changes, in their order.
pub open spec fn looks_after_all(
    entity: Entity,
    changes: Seq<MetaChange>,
    registry: EntityRegistry,
) -> Entity
    decreases changes.len(),
{
    if changes.len() == 0 {
        entity
    } else {
        looks_after(
            looks_after_all(entity, changes.drop_last(), registry),
            changes.last(),
            registry,
        )
    }
}

/// `n` more pieces of equipment behind those in `acc`; a set high bit of the
/// slot announces another one.
pub open spec fn take_equipment(
    st: SlotState,
    n: nat,
    protocol: ProtocolVersion,
    acc: Seq<(u8, Option<i32>)>,
) -> Parsed<Seq<(u8, Option<i32>)>>
    decreases n,
{
    if n == 0 {
        (None, st)
    } else {
        match slots::plain(st, wire::take_u8(st.rest)) {
            (Some(encoded), st) => match slots::take_slot(st, protocol) {
                (Some(slot), st) => {
                    let acc = acc.push(
                        (
                            encoded & 0x7f,
                            match slot {
                                Some(item) => Some(item.item_id),
                                None => None,
                            },
                        ),
                    );
                    if encoded & 0x80 == 0 {
                        (Some(acc), st)
                    } else {
                        take_equipment(st, (n - 1) as nat, protocol, acc)
                    }
                },
                (None, st) => (None, st),
            },
            (None, st) => (None, st),
        }
    }
}

/// An entity and its new equipment. There are no more pieces than bytes.
pub open spec fn equipment_of(body: Seq<u8>, fed: Seq<FedSlot>, protocol: ProtocolVersion) -> Parsed<
    (i32, Seq<(u8, Option<i32>)>),
> {
    let st = slots::first_state(body, fed);
    match slots::plain(st, wire::take_varint(st.rest)) {
        (Some(id), st) => match take_equipment(st, body.len(), protocol, Seq::empty()) {
            (Some(pieces), st) => (Some((id, pieces)), st),
            (None, st) => (None, st),
        },
        (None, st) => (None, st),
    }
}

fn read_equipment(r: &mut SlotReader, n: usize, protocol: ProtocolVersion) -> (v: Option<
    Vec<(u8, Option<i32>)>,
>)
    requires
        old(r).wf(),
    ensures
        final(r).wf(),
        final(r)@ == take_equipment(old(r)@, n as nat, protocol, Seq::empty()).1,
        match take_equipment(old(r)@, n as nat, protocol, Seq::empty()).0 {
            Some(want) => v matches Some(got) && got@ == want,
            None => v is None,
        },
{
    let ghost want = take_equipment(r@, n as nat, protocol, Seq::empty());
    let mut pieces: Vec<(u8, Option<i32>)> = Vec::new();
    let mut left: usize = n;
    while left > 0
        invariant
            r.wf(),
            want == take_equipment(old(r)@, n as nat, protocol, Seq::empty()),
            want == take_equipment(r@, left as nat, protocol, pieces@),
        decreases left,
    {
        let encoded: u8 = match r.reader.u8() {
            Some(v) => v,
            None => return None,
        };
        let item: Option<i32> = match r.slot(protocol) {
            Some(Some(item)) => Some(item.item_id),
            Some(None) => None,
            None => return None,
        };
        pieces.push((encoded & 0x7f, item));
        if encoded & 0x80 == 0 {
            return Some(pieces);
        }
        left = left - 1;
    }
    None
}

/// Reads the new equipment of an entity, with the stacks decoded so far.
pub fn decode_equipment(body: &[u8], protocol: ProtocolVersion, fed: &Vec<FedSlot>) -> (r: Outcome<
    (i32, Vec<(u8, Option<i32>)>),
>)
    ensures
        match slots::ended_with(equipment_of(body@, fed@, protocol)) {
            Outcome::Done((id, pieces)) => r matches Outcome::Done(got) && got.0 == id && got.1@
                == pieces,
            Outcome::NeedSlot(n) => r matches Outcome::NeedSlot(m) && m == n,
            Outcome::Malformed => r is Malformed,
        },
{
    let mut reader = SlotReader::new(body, fed);
    let id: i32 = match reader.reader.varint() {
        Some(v) => v,
        None => return reader.stopped(),
    };
    match read_equipment(&mut reader, body.len(), protocol) {
        Some(pieces) => Outcome::Done((id, pieces)),
        None => reader.stopped(),
    }
}

/// An entity with new pieces of equipment, the later ones last.
pub open spec fn dressed(entity: Entity, pieces: Seq<(u8, Option<i32>)>) -> Entity
    decreases pieces.len(),
{
    if pieces.len() == 0 {
        entity
    } else {
        let before = dressed(entity, pieces.drop_last());
        Entity {
            equipment: before.equipment.spec_with(pieces.last().0 as int, pieces.last().1),
            ..before
        }
    }
}

impl Entities {
    /// Whether an entity has a size of its own.
    pub open spec fn is_slime(&self, id: i32, registry: EntityRegistry) -> bool {
        self.entities@.dom().contains(id) && registry.sizable(self.entities@[id].type_id)
    }

    /// Reads what a packet says of an entity, with the stacks decoded so far.
    pub fn decode_metadata(
        &self,
        body: &[u8],
        protocol: ProtocolVersion,
        registry: &EntityRegistry,
        fed: &Vec<FedSlot>,
    ) -> (r: Option<Metadata>)
        requires
            self.wf(),
        ensures
            ({
                let st = slots::first_state(body@, fed@);
                match slots::plain(st, wire::take_varint(st.rest)) {
                    (Some(id), st) => {
                        let (changes, end) = take_changes(
                            st,
                            body@.len(),
                            protocol,
                            self.is_slime(id, *registry),
                            Seq::empty(),
                        );
                        r matches Some(got) && got.id == id && got.changes@ == changes && got.need
                            == need_of(end)
                    },
                    (None, _) => r is None,
                }
            }),
    {
        let mut reader = SlotReader::new(body, fed);
        let id: i32 = match reader.reader.varint() {
            Some(v) => v,
            None => return None,
        };
        let sizable: bool = match self.entities.get(&id) {
            Some(entity) => registry.is_sizable(entity.type_id),
            None => false,
        };
        let changes = read_changes(&mut reader, body.len(), protocol, sizable);
        let need: Option<usize> = if reader.wanting {
            Some(reader.reader.remaining())
        } else {
            None
        };
        Some(Metadata { id, changes, need })
    }

    /// Makes changes of the looks of an entity.
    pub fn apply_metadata(
        &mut self,
        id: i32,
        changes: &Vec<MetaChange>,
        registry: &EntityRegistry,
    )
        requires
            old(self).wf(),
        ensures
            final(self).wf(),
            final(self).entities@ == entities::with_changed(
                old(self).entities@,
                id,
                |e: Entity| looks_after_all(e, changes@, *registry),
            ),
    {
        match self.entities.get(&id) {
            Some(found) => {
                let start: Entity = *found;
                let mut entity: Entity = start;
                let mut i: usize = 0;
                while i < changes.len()
                    invariant
                        i <= changes@.len(),
                        entity == looks_after_all(start, changes@.take(i as int), *registry),
                    decreases changes@.len() - i,
                {
                    proof {
                        assert(changes@.take(i + 1).drop_last() =~= changes@.take(i as int));
                    }
                    entity = change_looks(entity, changes[i], registry);
                    i = i + 1;
                }
                proof {
                    assert(changes@.take(i as int) =~= changes@);
                }
                self.entities.insert(id, entity);
            },
            None => {},
        }
    }

    /// Gives an entity new pieces of equipment.
    pub fn apply_equipment(&mut self, id: i32, pieces: &Vec<(u8, Option<i32>)>)
        requires
            old(self).wf(),
        ensures
            final(self).wf(),
            final(self).entities@ == entities::with_changed(
                old(self).entities@,
                id,
                |e: Entity| dressed(e, pieces@),
            ),
    {
        match self.entities.get(&id) {
            Some(found) => {
                let start: Entity = *found;
                let mut entity: Entity = start;
                let mut i: usize = 0;
                while i < pieces.len()
                    invariant
                        i <= pieces@.len(),
                        entity == dressed(start, pieces@.take(i as int)),
                    decreases pieces@.len() - i,
                {
                    proof {
                        assert(pieces@.take(i + 1).drop_last() =~= pieces@.take(i as int));
                    }
                    entity.equipment = entity.equipment.with(pieces[i].0, pieces[i].1);
                    i = i + 1;
                }
                proof {
                    assert(pieces@.take(i as int) =~= pieces@);
                }
                self.entities.insert(id, entity);
            },
            None => {},
        }
    }
}

/// New looks leave alone where an entity is, what kind it is and what it rides.
pub proof fn looks_leave_the_rest(
    entity: Entity,
    changes: Seq<MetaChange>,
    registry: EntityRegistry,
)
    ensures
        ({
            let after = looks_after_all(entity, changes, registry);
            &&& (after.x, after.y, after.z) == (entity.x, entity.y, entity.z)
            &&& after.type_id == entity.type_id
            &&& after.vehicle == entity.vehicle
            &&& after.equipment == entity.equipment
            &&& after.yaw == entity.yaw
            &&& after.head_yaw == entity.head_yaw
        }),
    decreases changes.len(),
{
    if changes.len() > 0 {
        looks_leave_the_rest(entity, changes.drop_last(), registry);
    }
}

/// The first field holds flags: the bit of 32 makes an entity invisible, the one of 64
/// makes it glow.
pub proof fn flags_have_their_bits(flags: u8, kind: i32, protocol: ProtocolVersion, sizable: bool)
    ensures
        change_of(0, kind, FieldValue::Byte(flags), protocol, sizable) == Some(
            MetaChange::Flags((flags / 32) % 2 == 1, (flags / 64) % 2 == 1),
        ),
        forall|index: u8|
            index != 0 ==> (#[trigger] change_of(
                index,
                kind,
                FieldValue::Byte(flags),
                protocol,
                sizable,
            )) is None,
{
    assert((flags & 0x20 != 0 <==> (flags / 32) % 2 == 1) && (flags & 0x40 != 0 <==> (flags / 64)
        % 2 == 1)) by (bit_vector);
}

/// The item of a dropped stack is in field 8, the size of a slime in field 16, and the pose
/// in field 6, whose type has a number that changed with protocol 766.
pub proof fn fields_have_their_places(
    index: u8,
    kind: i32,
    value: i32,
    item: Option<i32>,
    protocol: ProtocolVersion,
    sizable: bool,
)
    ensures
        change_of(index, kind, FieldValue::Stack(item), protocol, sizable) == if index == 8 {
            Some(MetaChange::Item(item))
        } else {
            None
        },
        index == 16 && kind == 1 && sizable && value > 0 ==> change_of(
            index,
            kind,
            FieldValue::Number(value),
            protocol,
            sizable,
        ) == Some(MetaChange::Size(value)),
        index == 6 && protocol.number() >= 766 ==> (change_of(
            index,
            kind,
            FieldValue::Number(value),
            protocol,
            sizable,
        ) == Some(MetaChange::Pose(value)) <==> kind == 21),
        index == 6 && protocol.number() < 766 ==> (change_of(
            index,
            kind,
            FieldValue::Number(value),
            protocol,
            sizable,
        ) == Some(MetaChange::Pose(value)) <==> kind == 20),
        index != 6 && (index != 16 || kind != 1 || !sizable || value <= 0) ==> change_of(
            index,
            kind,
            FieldValue::Number(value),
            protocol,
            sizable,
        ) is None,
        change_of(index, kind, FieldValue::Other, protocol, sizable) is None,
{
}

/// Each change of looks reaches its part alone: flags set both flags, a size makes an
/// entity as wide and high as its slime, and lying and crouching make it lower.
pub proof fn looks_change_by_part(
    entity: Entity,
    registry: EntityRegistry,
    invisible: bool,
    glowing: bool,
    size: i32,
    item: Option<i32>,
    pose: i32,
)
    ensures
        looks_after(entity, MetaChange::Flags(invisible, glowing), registry) == (Entity {
            invisible,
            glowing,
            ..entity
        }),
        looks_after(entity, MetaChange::Item(item), registry) == (Entity { item, ..entity }),
        ({
            let after = looks_after(entity, MetaChange::Size(size), registry);
            &&& after.scale == size
            &&& after.girth == Girth::Slime(size)
            &&& after.height == Height::Slime(size)
            &&& after.item == entity.item && after.pose == entity.pose
        }),
        ({
            let after = looks_after(entity, MetaChange::Pose(pose), registry);
            let known = 0 <= entity.type_id < registry.names@.len();
            &&& after.pose == pose
            &&& after.girth == entity.girth && after.scale == entity.scale
            &&& pose == 3 || pose == 4 ==> after.height == Height::Lying
            &&& pose == 5 ==> after.height == Height::Crouching
            &&& !(3 <= pose <= 5) && known ==> after.height == Height::OfKind
            &&& !(3 <= pose <= 5) && !known ==> after.height == entity.height
        }),
{
}

/// Changes are made one after the other.
pub proof fn changes_are_made_in_order(
    entity: Entity,
    changes: Seq<MetaChange>,
    last: MetaChange,
    registry: EntityRegistry,
)
    ensures
        looks_after_all(entity, Seq::empty(), registry) == entity,
        looks_after_all(entity, changes.push(last), registry) == looks_after(
            looks_after_all(entity, changes, registry),
            last,
            registry,
        ),
{
    assert(changes.push(last).drop_last() =~= changes);
}

/// The fields follow one another, each with its place and its type before its value, up to
/// the mark that ends them.
pub proof fn fields_follow_one_another(
    st: SlotState,
    n: nat,
    protocol: ProtocolVersion,
    sizable: bool,
    acc: Seq<MetaChange>,
    kind: i32,
    rest: Seq<u8>,
    value: FieldValue,
    behind: SlotState,
)
    requires
        st.rest.len() > 0,
    ensures
        st.rest[0] == 255 ==> take_changes(st, n + 1, protocol, sizable, acc).0 == acc,
        st.rest[0] != 255 && wire::take_varint(st.rest.subrange(1, st.rest.len() as int)) == (
            Some(kind),
            rest,
        ) && take_field(SlotState { rest, ..st }, protocol, kind) == (Some(value), behind) ==> {
            let whole = take_changes(st, n + 1, protocol, sizable, acc);
            &&& change_of(st.rest[0], kind, value, protocol, sizable) is None ==> whole
                == take_changes(behind, n, protocol, sizable, acc)
            &&& change_of(st.rest[0], kind, value, protocol, sizable) matches Some(change) ==> whole
                == take_changes(behind, n, protocol, sizable, acc.push(change))
        },
{
}

/// The type of a field says how it is read: bytes, numbers and stacks give their value, and
/// the others are passed over.
pub proof fn fields_are_read_by_type(
    st: SlotState,
    protocol: ProtocolVersion,
    byte: u8,
    number: i32,
    rest: Seq<u8>,
    kind: i32,
)
    ensures
        wire::take_u8(st.rest) == (Some(byte), rest) ==> take_field(st, protocol, 0) == (
            Some(FieldValue::Byte(byte)),
            SlotState { rest, ..st },
        ) && take_field(st, protocol, 8) == (
            Some(FieldValue::Other),
            SlotState { rest, ..st },
        ),
        wire::take_varint(st.rest) == (Some(number), rest) && (kind == 1 || kind == 12 || kind == 14
            || kind == 15 || kind == 19 || kind == 20 || kind == 21 || kind == 22) ==> take_field(
            st,
            protocol,
            kind,
        ) == (Some(FieldValue::Number(number)), SlotState { rest, ..st }),
        st.rest.len() >= 4 ==> take_field(st, protocol, 3).1.rest == st.rest.subrange(
            4,
            st.rest.len() as int,
        ) && take_field(st, protocol, 3).0 == Some(FieldValue::Other),
        st.rest.len() >= 12 ==> take_field(st, protocol, 9).1.rest == st.rest.subrange(
            12,
            st.rest.len() as int,
        ),
        st.rest.len() >= 8 ==> take_field(st, protocol, 10).1.rest == st.rest.subrange(
            8,
            st.rest.len() as int,
        ),
        st.rest.len() >= 17 && st.rest[0] != 0 ==> take_field(st, protocol, 11).1.rest
            == st.rest.subrange(9, st.rest.len() as int) && take_field(st, protocol, 13).1.rest
            == st.rest.subrange(17, st.rest.len() as int),
        st.rest.len() >= 1 && st.rest[0] == 0 ==> take_field(st, protocol, 11).1.rest
            == st.rest.subrange(1, st.rest.len() as int) && take_field(st, protocol, 13).1.rest
            == st.rest.subrange(1, st.rest.len() as int) && take_field(st, protocol, 6).1.rest
            == st.rest.subrange(1, st.rest.len() as int),
        kind < 0 || kind == 17 || kind > 22 ==> take_field(st, protocol, kind).0 is None,
{
    let s = st.rest;
    let n = s.len() as int;
    if n >= 12 {
        assert(s.subrange(4, n).subrange(4, n - 4) =~= s.subrange(8, n));
        assert(s.subrange(8, n).subrange(4, n - 8) =~= s.subrange(12, n));
    }
    if n >= 17 {
        assert(s.subrange(1, n).subrange(8, n - 1) =~= s.subrange(9, n));
        assert(s.subrange(1, n).subrange(16, n - 1) =~= s.subrange(17, n));
    }
}

/// A piece of equipment has its slot in the low seven bits of a byte, and the high bit says
/// whether another piece follows.
pub proof fn pieces_follow_one_another(
    st: SlotState,
    n: nat,
    protocol: ProtocolVersion,
    acc: Seq<(u8, Option<i32>)>,
    slot: Option<crate::items::SlotItem>,
    behind: SlotState,
)
    requires
        st.rest.len() > 0,
        slots::take_slot(
            SlotState { rest: st.rest.subrange(1, st.rest.len() as int), ..st },
            protocol,
        ) == (Some(slot), behind),
    ensures
        ({
            let piece = (
                (st.rest[0] % 128) as u8,
                match slot {
                    Some(item) => Some(item.item_id),
                    None => None,
                },
            );
            &&& st.rest[0] < 128 ==> take_equipment(st, n + 1, protocol, acc) == (
                Some(acc.push(piece)),
                behind,
            )
            &&& st.rest[0] >= 128 ==> take_equipment(st, n + 1, protocol, acc) == take_equipment(
                behind,
                n,
                protocol,
                acc.push(piece),
            )
        }),
{
    let b = st.rest[0];
    assert(b & 0x7f == b % 128 && (b & 0x80 == 0 <==> b < 128)) by (bit_vector);
}

/// New pieces of equipment are put on one after the other, and change nothing but the
/// equipment.
pub proof fn pieces_are_put_on(
    entity: Entity,
    pieces: Seq<(u8, Option<i32>)>,
    slot: u8,
    item: Option<i32>,
)
    ensures
        dressed(entity, Seq::empty()) == entity,
        dressed(entity, pieces.push((slot, item))).equipment == dressed(
            entity,
            pieces,
        ).equipment.spec_with(slot as int, item),
        dressed(entity, pieces) == (Entity {
            equipment: dressed(entity, pieces).equipment,
            ..entity
        }),
    decreases pieces.len(),
{
    assert(pieces.push((slot, item)).drop_last() =~= pieces);
    if pieces.len() > 0 {
        pieces_are_put_on(entity, pieces.drop_last(), slot, item);
    }
}

/// The packet about equipment names its entity first.
pub proof fn equipment_names_its_entity(
    body: Seq<u8>,
    fed: Seq<FedSlot>,
    protocol: ProtocolVersion,
    id: i32,
    rest: Seq<u8>,
    pieces: Seq<(u8, Option<i32>)>,
)
    requires
        wire::take_varint(body) == (Some(id), rest),
    ensures
        take_equipment(
            SlotState { rest, fed, next: 0, wanting: false },
            body.len(),
            protocol,
            Seq::empty(),
        ).0 == Some(pieces) ==> equipment_of(body, fed, protocol).0 == Some((id, pieces)),
{
}

/// Only slimes and magma cubes that are known have a size of their own, and a stack that is
/// missing is named by its distance from the end.
pub proof fn slimes_have_a_size(
    entities: &Entities,
    id: i32,
    registry: EntityRegistry,
    st: SlotState,
)
    requires
        st.rest.len() <= usize::MAX,
    ensures
        entities.is_slime(id, registry) <==> entities.entities@.dom().contains(id) && ({
            let kind = entities.entities@[id].type_id;
            0 <= kind < registry.names@.len() && (registry.names@[kind as int]@ == "slime"@
                || registry.names@[kind as int]@ == "magma_cube"@)
        }),
        need_of(st) is Some <==> st.wanting,
        need_of(st) matches Some(distance) ==> distance == st.rest.len(),
{
}

} // verus!
