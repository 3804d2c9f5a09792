//! Window packets from protocol 766 on, in which item stacks are made of data
//! components.

use vstd::prelude::*;

use crate::items::SlotItem;
use crate::nbt::{Nbt, NbtModel};
use crate::protocol::ProtocolVersion;
use crate::slots::{self, FedSlot, Outcome, Parsed, SlotReader, SlotState};
use crate::windows::{self, copy_meta, WindowContent, WindowSlot};
use crate::wire;

verus! {

/// The most slots of a window.
pub const MAX_WINDOW_SLOTS: i32 = 65536;

/// `n` more stacks with what they carry, behind those in `items` and `data`.
pub open spec fn take_stacks(
    st: SlotState,
    n: nat,
    items: Seq<Option<SlotItem>>,
    data: Seq<Option<NbtModel>>,
) -> Parsed<(Seq<Option<SlotItem>>, Seq<Option<NbtModel>>)>
    decreases n,
{
    if n == 0 {
        (Some((items, data)), st)
    } else {
        match slots::take_component_slot(st) {
            (Some(i), st) => take_stacks(
                st,
                (n - 1) as nat,
                items.push(st.fed[i].item),
                data.push(windows::meta(st.fed[i].metadata)),
            ),
            (None, st) => (None, st),
        }
    }
}

/// A snapshot of a window, with what its stacks carry.
#[verifier::ext_equal]
pub struct ContentModel {
    pub window_id: u8,
    pub state_id: i32,
    pub slots: Seq<Option<SlotItem>>,
    pub metadata: Seq<Option<NbtModel>>,
    pub carried: Option<SlotItem>,
}

pub open spec fn take_carried(st: SlotState) -> Parsed<Option<SlotItem>> {
    match slots::take_component_slot(st) {
        (Some(i), st) => (Some(st.fed[i].item), st),
        (None, st) => (None, st),
    }
}

/// The number of a window, its revision and its number of slots.
pub open spec fn take_content_head(st: SlotState) -> Parsed<(u8, i32, i32)> {
    match slots::plain(st, wire::take_u8(st.rest)) {
        (Some(window_id), st) => match slots::plain(st, wire::take_varint(st.rest)) {
            (Some(state_id), st) => match slots::plain(st, wire::take_varint(st.rest)) {
                (Some(count), st) => if 0 <= count <= MAX_WINDOW_SLOTS {
                    (Some((window_id, state_id, count)), st)
                } else {
                    (None, st)
                },
                (None, st) => (None, st),
            },
            (None, st) => (None, st),
        },
        (None, st) => (None, st),
    }
}

pub open spec fn take_content(st: SlotState) -> Parsed<ContentModel> {
    match take_content_head(st) {
        (Some((window_id, state_id, count)), st) => match take_stacks(
            st,
            count as nat,
            Seq::empty(),
            Seq::empty(),
        ) {
            (Some((slots, metadata)), st) => match take_carried(st) {
                (Some(carried), st) => (
                    Some(ContentModel { window_id, state_id, slots, metadata, carried }),
                    st,
                ),
                (None, st) => (None, st),
            },
            (None, st) => (None, st),
        },
        (None, st) => (None, st),
    }
}

/// A snapshot of a window, with what its stacks carry.
#[derive(Debug)]
pub struct ComponentContent {
    pub content: WindowContent,
    pub metadata: Vec<Option<Nbt>>,
}

impl View for ComponentContent {
    type V = ContentModel;

    open spec fn view(&self) -> ContentModel {
        ContentModel {
            window_id: self.content.window_id,
            state_id: self.content.state_id,
            slots: self.content.slots@,
            metadata: windows::metas(self.metadata@),
            carried: self.content.carried,
        }
    }
}

fn read_content_head(r: &mut SlotReader) -> (v: Option<(u8, i32, i32)>)
    requires
        old(r).wf(),
    ensures
        final(r).wf(),
        (v, final(r)@) == take_content_head(old(r)@),
{
    let window_id: u8 = match r.reader.u8() {
        Some(v) => v,
        None => return None,
    };
    let state_id: i32 = match r.reader.varint() {
        Some(v) => v,
        None => return None,
    };
    match r.reader.varint() {
        Some(count) => {
            if 0 <= count && count <= MAX_WINDOW_SLOTS {
                Some((window_id, state_id, count))
            } else {
                None
            }
        },
        None => None,
    }
}

fn read_carried(r: &mut SlotReader) -> (v: Option<Option<SlotItem>>)
    requires
        old(r).wf(),
    ensures
        final(r).wf(),
        (v, final(r)@) == take_carried(old(r)@),
{
    match r.component_slot() {
        Some(i) => Some(r.fed[i].item),
        None => None,
    }
}

fn read_content(r: &mut SlotReader) -> (v: Option<ComponentContent>)
    requires
        old(r).wf(),
    ensures
        final(r).wf(),
        final(r)@ == take_content(old(r)@).1,
        match take_content(old(r)@).0 {
            Some(want) => v matches Some(got) && got@ == want,
            None => v is None,
        },
{
    let (window_id, state_id, count): (u8, i32, i32) = match read_content_head(r) {
        Some(v) => v,
        None => return None,
    };
    let ghost stacks = take_stacks(r@, count as nat, Seq::empty(), Seq::empty());
    let ghost head = take_content_head(old(r)@);
    let mut slots: Vec<Option<SlotItem>> = Vec::new();
    let mut metadata: Vec<Option<Nbt>> = Vec::new();
    let mut left: i32 = count;
    proof {
        assert(windows::metas(metadata@) =~= Seq::empty());
    }
    while left > 0
        invariant
            r.wf(),
            0 <= left,
            head == take_content_head(old(r)@),
            head.0 == Some((window_id, state_id, count)),
            stacks == take_stacks(head.1, count as nat, Seq::empty(), Seq::empty()),
            stacks == take_stacks(r@, left as nat, slots@, windows::metas(metadata@)),
        decreases left,
    {
        match r.component_slot() {
            Some(i) => {
                let ghost before = metadata@;
                slots.push(r.fed[i].item);
                let data = copy_meta(&r.fed[i].metadata);
                metadata.push(data);
                proof {
                    assert(windows::metas(metadata@) =~= windows::metas(before).push(
                        windows::meta(data),
                    ));
                }
            },
            None => return None,
        }
        left = left - 1;
    }
    match read_carried(r) {
        Some(carried) => Some(
            ComponentContent {
                content: WindowContent { window_id, state_id, slots, carried },
                metadata,
            },
        ),
        None => None,
    }
}

pub open spec fn content_as(want: Parsed<ContentModel>, got: Outcome<ComponentContent>) -> bool {
    match slots::ended_with(want) {
        Outcome::Done(model) => got matches Outcome::Done(value) && value@ == model,
        Outcome::NeedSlot(n) => got == Outcome::<ComponentContent>::NeedSlot(n),
        Outcome::Malformed => got == Outcome::<ComponentContent>::Malformed,
    }
}

/// Reads a snapshot of a window, with the stacks decoded so far.
pub fn decode_component_container_content(body: &[u8], fed: &Vec<FedSlot>) -> (r: Outcome<
    ComponentContent,
>)
    ensures
        content_as(take_content(slots::first_state(body@, fed@)), r),
{
    let mut reader = SlotReader::new(body, fed);
    match read_content(&mut reader) {
        Some(content) => Outcome::Done(content),
        None => reader.stopped(),
    }
}

/// The update of one slot, and what its stack carries.
pub open spec fn take_update(st: SlotState) -> Parsed<(WindowSlot, Option<NbtModel>)> {
    match slots::plain(st, wire::take_i8(st.rest)) {
        (Some(window_id), st) => match slots::plain(st, wire::take_varint(st.rest)) {
            (Some(state_id), st) => match slots::plain(st, wire::take_i16(st.rest)) {
                (Some(slot), st) => match slots::take_component_slot(st) {
                    (Some(i), st) => (
                        Some(
                            (
                                WindowSlot { window_id, state_id, slot, item: st.fed[i].item },
                                windows::meta(st.fed[i].metadata),
                            ),
                        ),
                        st,
                    ),
                    (None, st) => (None, st),
                },
                (None, st) => (None, st),
            },
            (None, st) => (None, st),
        },
        (None, st) => (None, st),
    }
}

/// Reads the update of one slot, with the stacks decoded so far.
pub fn decode_component_container_slot(body: &[u8], fed: &Vec<FedSlot>) -> (r: Outcome<
    (WindowSlot, Option<Nbt>),
>)
    ensures
        match slots::ended_with(take_update(slots::first_state(body@, fed@))) {
            Outcome::Done((update, data)) => r matches Outcome::Done(got) && got.0 == update
                && windows::meta(got.1) == data,
            Outcome::NeedSlot(n) => r matches Outcome::NeedSlot(m) && m == n,
            Outcome::Malformed => r is Malformed,
        },
{
    let mut reader = SlotReader::new(body, fed);
    let window_id: i8 = match reader.reader.i8() {
        Some(v) => v,
        None => return reader.stopped(),
    };
    let state_id: i32 = match reader.reader.varint() {
        Some(v) => v,
        None => return reader.stopped(),
    };
    let slot: i16 = match reader.reader.i16() {
        Some(v) => v,
        None => return reader.stopped(),
    };
    match reader.component_slot() {
        Some(i) => {
            let item: Option<SlotItem> = reader.fed[i].item;
            let data = copy_meta(&reader.fed[i].metadata);
            Outcome::Done((WindowSlot { window_id, state_id, slot, item }, data))
        },
        None => reader.stopped(),
    }
}

/// A stack on its own: protocol 768 says first whether there is one.
pub open spec fn take_lone_stack(st: SlotState, protocol: ProtocolVersion) -> Parsed<Option<int>> {
    if protocol == ProtocolVersion::V1_21_2 {
        match slots::plain(st, wire::take_bool(st.rest)) {
            (Some(present), st) => if present {
                match slots::take_component_slot(st) {
                    (Some(i), st) => (Some(Some(i)), st),
                    (None, st) => (None, st),
                }
            } else {
                (Some(None), st)
            },
            (None, st) => (None, st),
        }
    } else {
        match slots::take_component_slot(st) {
            (Some(i), st) => (Some(Some(i)), st),
            (None, st) => (None, st),
        }
    }
}

/// The item of a decoded stack, where there is one.
pub open spec fn fed_item(st: SlotState, i: Option<int>) -> Option<SlotItem> {
    match i {
        Some(i) => st.fed[i].item,
        None => None,
    }
}

fn read_lone_stack(r: &mut SlotReader, protocol: ProtocolVersion) -> (v: Option<Option<usize>>)
    requires
        old(r).wf(),
    ensures
        final(r).wf(),
        final(r).fed == old(r).fed,
        final(r)@ == take_lone_stack(old(r)@, protocol).1,
        match take_lone_stack(old(r)@, protocol).0 {
            Some(Some(i)) => v == Some(Some(i as usize)) && 0 <= i < old(r).fed@.len(),
            Some(None) => v == Some(None::<usize>),
            None => v is None,
        },
{
    if protocol == ProtocolVersion::V1_21_2 {
        match r.reader.bool() {
            Some(present) => {
                if !present {
                    return Some(None);
                }
            },
            None => return None,
        }
    }
    match r.component_slot() {
        Some(i) => Some(Some(i)),
        None => None,
    }
}

/// Reads the stack on the cursor, with the stacks decoded so far.
pub fn decode_cursor_item(body: &[u8], protocol: ProtocolVersion, fed: &Vec<FedSlot>) -> (r:
    Outcome<Option<SlotItem>>)
    ensures
        ({
            let parsed = take_lone_stack(slots::first_state(body@, fed@), protocol);
            match slots::ended_with(parsed) {
                Outcome::Done(i) => r matches Outcome::Done(got) && got == fed_item(parsed.1, i),
                Outcome::NeedSlot(n) => r matches Outcome::NeedSlot(m) && m == n,
                Outcome::Malformed => r is Malformed,
            }
        }),
{
    let mut reader = SlotReader::new(body, fed);
    match read_lone_stack(&mut reader, protocol) {
        Some(Some(i)) => Outcome::Done(reader.fed[i].item),
        Some(None) => Outcome::Done(None),
        None => reader.stopped(),
    }
}

/// A slot of the player's inventory, and the stack for it.
pub open spec fn take_player_slot(st: SlotState, protocol: ProtocolVersion) -> Parsed<
    (i32, Option<int>),
> {
    match slots::plain(st, wire::take_varint(st.rest)) {
        (Some(slot), st) => match take_lone_stack(st, protocol) {
            (Some(i), st) => (Some((slot, i)), st),
            (None, st) => (None, st),
        },
        (None, st) => (None, st),
    }
}

/// An update of the player's inventory. Protocol 768 leaves alone what the
/// slot carries.
#[derive(Debug)]
pub struct PlayerSlot {
    pub slot: i32,
    pub item: Option<SlotItem>,
    pub metadata: Option<Nbt>,
    pub keeps_metadata: bool,
}

/// Reads an update of the player's inventory, with the stacks decoded so far.
pub fn decode_player_slot(body: &[u8], protocol: ProtocolVersion, fed: &Vec<FedSlot>) -> (r:
    Outcome<PlayerSlot>)
    ensures
        ({
            let parsed = take_player_slot(slots::first_state(body@, fed@), protocol);
            match slots::ended_with(parsed) {
                Outcome::Done((slot, i)) => r matches Outcome::Done(got) && got.slot == slot
                    && got.item == fed_item(parsed.1, i) && got.keeps_metadata == (protocol
                    == ProtocolVersion::V1_21_2) && windows::meta(got.metadata) == (match i {
                    Some(i) => windows::meta(fed@[i].metadata),
                    None => None,
                }),
                Outcome::NeedSlot(n) => r matches Outcome::NeedSlot(m) && m == n,
                Outcome::Malformed => r is Malformed,
            }
        }),
{
    let mut reader = SlotReader::new(body, fed);
    let slot: i32 = match reader.reader.varint() {
        Some(v) => v,
        None => return reader.stopped(),
    };
    let keeps_metadata: bool = protocol == ProtocolVersion::V1_21_2;
    match read_lone_stack(&mut reader, protocol) {
        Some(Some(i)) => {
            let item: Option<SlotItem> = reader.fed[i].item;
            let metadata = copy_meta(&reader.fed[i].metadata);
            Outcome::Done(PlayerSlot { slot, item, metadata, keeps_metadata })
        },
        Some(None) => Outcome::Done(
            PlayerSlot { slot, item: None, metadata: None, keeps_metadata },
        ),
        None => reader.stopped(),
    }
}

/// A snapshot names its window, its revision and its number of slots; then its stacks come
/// in the order of their slots, and last the one on the cursor.
pub proof fn snapshots_come_in_order(
    st: SlotState,
    window_id: u8,
    r1: Seq<u8>,
    state_id: i32,
    r2: Seq<u8>,
    count: i32,
    r3: Seq<u8>,
)
    requires
        wire::take_u8(st.rest) == (Some(window_id), r1),
        wire::take_varint(r1) == (Some(state_id), r2),
        wire::take_varint(r2) == (Some(count), r3),
        0 <= count <= 65536,
    ensures
        ({
            let (stacks, behind) = take_stacks(
                SlotState { rest: r3, ..st },
                count as nat,
                Seq::empty(),
                Seq::empty(),
            );
            let (carried, last) = take_carried(behind);
            &&& take_content(st).0 is Some <==> stacks is Some && carried is Some
            &&& take_content(st).0 matches Some(content) ==> {
                &&& content.window_id == window_id
                &&& content.state_id == state_id
                &&& stacks == Some((content.slots, content.metadata))
                &&& carried == Some(content.carried)
            }
        }),
{
}

/// Stacks are taken from those that were decoded, one after the other.
pub proof fn stacks_are_taken_in_order(
    st: SlotState,
    n: nat,
    items: Seq<Option<SlotItem>>,
    data: Seq<Option<NbtModel>>,
)
    requires
        0 <= st.next < st.fed.len(),
        st.fed[st.next].used <= st.rest.len(),
    ensures
        take_stacks(st, 0, items, data) == (Some((items, data)), st),
        take_stacks(st, n + 1, items, data) == take_stacks(
            SlotState {
                rest: st.rest.skip(st.fed[st.next].used as int),
                next: st.next + 1,
                ..st
            },
            n,
            items.push(st.fed[st.next].item),
            data.push(windows::meta(st.fed[st.next].metadata)),
        ),
        take_carried(st).0 == Some(st.fed[st.next].item),
{
}

/// The update of a slot names its window, its revision and the slot, and the stack is the
/// next decoded one.
pub proof fn updates_name_their_slot(
    st: SlotState,
    window_id: i8,
    r1: Seq<u8>,
    state_id: i32,
    r2: Seq<u8>,
    slot: i16,
    r3: Seq<u8>,
)
    requires
        wire::take_i8(st.rest) == (Some(window_id), r1),
        wire::take_varint(r1) == (Some(state_id), r2),
        wire::take_i16(r2) == (Some(slot), r3),
        0 <= st.next < st.fed.len(),
        st.fed[st.next].used <= r3.len(),
    ensures
        take_update(st).0 == Some(
            (
                WindowSlot { window_id, state_id, slot, item: st.fed[st.next].item },
                windows::meta(st.fed[st.next].metadata),
            ),
        ),
{
}

/// A stack on its own is the next decoded one; only protocol 768 says first whether there
/// is one.
pub proof fn lone_stacks_can_be_missing(st: SlotState, protocol: ProtocolVersion)
    requires
        0 <= st.next < st.fed.len(),
        st.rest.len() > 0,
        st.fed[st.next].used < st.rest.len(),
    ensures
        protocol !is V1_21_2 ==> take_lone_stack(st, protocol).0 == Some(Some(st.next)),
        protocol is V1_21_2 && st.rest[0] == 0 ==> take_lone_stack(st, protocol).0 == Some(
            None::<int>,
        ),
        protocol is V1_21_2 && st.rest[0] != 0 ==> take_lone_stack(st, protocol).0 == Some(
            Some(st.next),
        ),
        fed_item(st, Some(st.next)) == st.fed[st.next].item,
        fed_item(st, None) is None,
{
}

/// An update of the player's inventory names its slot first.
pub proof fn player_slots_come_first(
    st: SlotState,
    protocol: ProtocolVersion,
    slot: i32,
    rest: Seq<u8>,
    stack: Option<int>,
)
    requires
        wire::take_varint(st.rest) == (Some(slot), rest),
        take_lone_stack(SlotState { rest, ..st }, protocol).0 == Some(stack),
    ensures
        take_player_slot(st, protocol).0 == Some((slot, stack)),
{
}

/// A snapshot stands for its parts.
pub proof fn snapshots_stand_for_their_parts(content: ComponentContent)
    ensures
        content@.window_id == content.content.window_id,
        content@.state_id == content.content.state_id,
        content@.slots == content.content.slots@,
        content@.metadata == windows::metas(content.metadata@),
        content@.carried == content.content.carried,
{
}

/// A snapshot is handed out once every stack in it was decoded; until then the next one is
/// asked for by its distance from the end, and a broken packet is refused.
pub proof fn snapshots_wait_for_their_stacks(
    body: &[u8],
    fed: &Vec<FedSlot>,
    outcome: Outcome<ComponentContent>,
)
    requires
        call_ensures(decode_component_container_content, (body, fed), outcome),
    ensures
        ({
            let start = SlotState { rest: body@, fed: fed@, next: 0, wanting: false };
            let (found, end) = take_content(start);
            &&& found matches Some(model) ==> (outcome matches Outcome::Done(got) && got@ == model)
            &&& found is None && end.wanting ==> (outcome matches Outcome::NeedSlot(distance)
                && distance == end.rest.len() as usize)
            &&& found is None && !end.wanting ==> outcome is Malformed
        }),
{
}

} // verus!
