//! Reading packets that hold item stacks. Up to protocol 765 a stack is plain
//! bytes and NBT. From protocol 766 on it is data components, which a decoder
//! outside this library knows: a packet is then read in rounds. Each round is
//! given the stacks decoded so far and ends at the first one that is missing.

use vstd::prelude::*;

use crate::items::SlotItem;
use crate::nbt::{self, read_nbt, Nbt};
use crate::protocol::ProtocolVersion;
use crate::wire::{self, Reader, Taken};

verus! {

/// A decoded stack, and the number of bytes that it takes in the packet.
#[derive(Debug)]
pub struct FedSlot {
    pub item: Option<SlotItem>,
    pub metadata: Option<Nbt>,
    pub used: usize,
}

/// How a round ended: with the packet read, at a stack that begins so many
/// bytes before the end of the packet, or at something malformed.
#[derive(Debug)]
pub enum Outcome<T> {
    Done(T),
    NeedSlot(usize),
    Malformed,
}

/// Where a round stands: the bytes to come, the decoded stacks with the place
/// of the next one, and whether one was missing.
pub struct SlotState {
    pub rest: Seq<u8>,
    pub fed: Seq<FedSlot>,
    pub next: int,
    pub wanting: bool,
}

/// What was read, and where the round stands then.
pub type Parsed<T> = (Option<T>, SlotState);

/// Something read from the bytes alone.
pub open spec fn plain<T>(st: SlotState, taken: Taken<T>) -> Parsed<T> {
    (taken.0, SlotState { rest: taken.1, ..st })
}

/// The place of the next decoded stack.
pub open spec fn take_component_slot(st: SlotState) -> Parsed<int> {
    if st.next < st.fed.len() {
        let used = st.fed[st.next].used as int;
        if used <= st.rest.len() {
            (Some(st.next), SlotState { rest: st.rest.skip(used), next: st.next + 1, ..st })
        } else {
            (None, st)
        }
    } else {
        (None, SlotState { wanting: true, ..st })
    }
}

/// A stack as plain bytes and NBT.
pub open spec fn take_nbt_slot(s: Seq<u8>) -> Taken<Option<SlotItem>> {
    match wire::take_bool(s) {
        (Some(present), rest) => if present {
            match wire::take_varint(rest) {
                (Some(item_id), rest) => match wire::take_i8(rest) {
                    (Some(count), rest) => match nbt::take_named_nbt(rest) {
                        (Some(_), rest) => (Some(Some(SlotItem { item_id, count })), rest),
                        (None, rest) => (None, rest),
                    },
                    (None, rest) => (None, rest),
                },
                (None, rest) => (None, rest),
            }
        } else {
            (Some(None), rest)
        },
        (None, rest) => (None, rest),
    }
}

/// A stack, in the form of the protocol.
pub open spec fn take_slot(st: SlotState, protocol: ProtocolVersion) -> Parsed<Option<SlotItem>> {
    if protocol.data_components() {
        match take_component_slot(st) {
            (Some(i), st) => (Some(st.fed[i].item), st),
            (None, st) => (None, st),
        }
    } else {
        plain(st, take_nbt_slot(st.rest))
    }
}

pub open spec fn first_state(body: Seq<u8>, fed: Seq<FedSlot>) -> SlotState {
    SlotState { rest: body, fed, next: 0, wanting: false }
}

/// The outcome of a round whose parts were read like that.
pub open spec fn ended_with<T>(parsed: Parsed<T>) -> Outcome<T> {
    match parsed {
        (Some(value), _) => Outcome::Done(value),
        (None, st) => if st.wanting {
            Outcome::NeedSlot(st.rest.len() as usize)
        } else {
            Outcome::Malformed
        },
    }
}

/// A reader that goes through a packet and the decoded stacks.
pub struct SlotReader<'a> {
    pub reader: Reader<'a>,
    pub fed: &'a Vec<FedSlot>,
    pub next: usize,
    pub wanting: bool,
}

impl<'a> View for SlotReader<'a> {
    type V = SlotState;

    open spec fn view(&self) -> SlotState {
        SlotState {
            rest: self.reader@,
            fed: self.fed@,
            next: self.next as int,
            wanting: self.wanting,
        }
    }
}

impl<'a> SlotReader<'a> {
    pub open spec fn wf(&self) -> bool {
        self.next <= self.fed@.len()
    }

    pub fn new(body: &'a [u8], fed: &'a Vec<FedSlot>) -> (r: Self)
        ensures
            r.wf(),
            r@ == first_state(body@, fed@),
    {
        SlotReader { reader: Reader::new(body), fed, next: 0, wanting: false }
    }

    pub fn component_slot(&mut self) -> (v: Option<usize>)
        requires
            old(self).wf(),
        ensures
            final(self).wf(),
            final(self)@ == take_component_slot(old(self)@).1,
            match take_component_slot(old(self)@).0 {
                Some(i) => v == Some(i as usize) && 0 <= i < old(self).fed@.len(),
                None => v is None,
            },
            final(self).fed == old(self).fed,
    {
        if self.next < self.fed.len() {
            let used: usize = self.fed[self.next].used;
            let i: usize = self.next;
            if used <= self.reader.remaining() {
                let _ = self.reader.bytes(used);
                self.next = self.next + 1;
                Some(i)
            } else {
                None
            }
        } else {
            self.wanting = true;
            None
        }
    }

    pub fn slot(&mut self, protocol: ProtocolVersion) -> (v: Option<Option<SlotItem>>)
        requires
            old(self).wf(),
        ensures
            final(self).wf(),
            (v, final(self)@) == take_slot(old(self)@, protocol),
            final(self).fed == old(self).fed,
    {
        if protocol.uses_data_components() {
            match self.component_slot() {
                Some(i) => Some(self.fed[i].item),
                None => None,
            }
        } else {
            read_nbt_slot(&mut self.reader)
        }
    }

    /// The outcome of a round that did not reach the end of the packet.
    pub fn stopped<T>(&self) -> (r: Outcome<T>)
        ensures
            r == ended_with::<T>((None, self@)),
    {
        if self.wanting {
            Outcome::NeedSlot(self.reader.remaining())
        } else {
            Outcome::Malformed
        }
    }
}

pub fn read_nbt_slot(r: &mut Reader) -> (v: Option<Option<SlotItem>>)
    ensures
        (v, final(r)@) == take_nbt_slot(old(r)@),
{
    match r.bool() {
        Some(present) => {
            if !present {
                return Some(None);
            }
        },
        None => return None,
    }
    let item_id: i32 = match r.varint() {
        Some(v) => v,
        None => return None,
    };
    let count: i8 = match r.i8() {
        Some(v) => v,
        None => return None,
    };
    match read_nbt(r) {
        Some(_) => Some(Some(SlotItem { item_id, count })),
        None => None,
    }
}

/// Up to protocol 765 a stack is a flag, its item, its count and its NBT; an empty slot is
/// the flag alone.
pub proof fn stacks_are_written_plainly(
    s: Seq<u8>,
    item_id: i32,
    r1: Seq<u8>,
    behind: Seq<u8>,
)
    requires
        s.len() > 0,
        s[0] != 0 ==> wire::take_varint(s.subrange(1, s.len() as int)) == (Some(item_id), r1)
            && r1.len() > 0 && nbt::take_named_nbt(r1.subrange(1, r1.len() as int)).0 is Some
            && nbt::take_named_nbt(r1.subrange(1, r1.len() as int)).1 == behind,
    ensures
        s[0] == 0 ==> take_nbt_slot(s) == (Some(None::<SlotItem>), s.subrange(1, s.len() as int)),
        s[0] != 0 ==> take_nbt_slot(s).1 == behind && (take_nbt_slot(s).0 matches Some(Some(stack))
            && stack.item_id == item_id && stack.count == r1[0] as i8),
{
}

/// From protocol 766 on stacks come decoded: the next one that was fed is taken, with as
/// many bytes as it has, and where there is none the round waits for it at that place.
pub proof fn stacks_are_fed_in_order(st: SlotState, protocol: ProtocolVersion)
    requires
        0 <= st.next <= st.fed.len(),
        protocol.number() >= 766,
    ensures
        st.next == st.fed.len() ==> {
            &&& take_slot(st, protocol).0 is None
            &&& take_slot(st, protocol).1 == (SlotState { wanting: true, ..st })
            &&& st.rest.len() <= usize::MAX ==> (ended_with(take_slot(st, protocol)) matches
                Outcome::NeedSlot(left) && left == st.rest.len())
        },
        st.next < st.fed.len() && st.fed[st.next].used <= st.rest.len() ==> {
            &&& take_slot(st, protocol).0 == Some(st.fed[st.next].item)
            &&& take_slot(st, protocol).1.rest == st.rest.skip(st.fed[st.next].used as int)
            &&& take_slot(st, protocol).1.next == st.next + 1
            &&& take_slot(st, protocol).1.wanting == st.wanting
        },
        st.next < st.fed.len() && st.fed[st.next].used > st.rest.len() ==> take_slot(
            st,
            protocol,
        ).0 is None && take_slot(st, protocol).1 == st,
{
}

/// A round ends with what was read, else waits where a stack was missing, else is
/// malformed; versions before 766 never wait.
pub proof fn rounds_end(st: SlotState, protocol: ProtocolVersion, item: Option<SlotItem>)
    ensures
        ended_with((Some(item), st)) == Outcome::Done(item),
        st.wanting ==> ended_with::<Option<SlotItem>>((None, st)) == Outcome::<
            Option<SlotItem>,
        >::NeedSlot(st.rest.len() as usize),
        !st.wanting ==> ended_with::<Option<SlotItem>>((None, st)) is Malformed,
        protocol.number() < 766 ==> take_slot(st, protocol).0 == take_nbt_slot(st.rest).0
            && take_slot(st, protocol).1 == (SlotState { rest: take_nbt_slot(st.rest).1, ..st }),
{
}

} // verus!
