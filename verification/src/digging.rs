//! Breaking and placing blocks: what the player does, step by step, and what
//! the server is told of it.

use vstd::prelude::*;

use crate::items::{self, is_interactable_block};
use crate::wire::BlockPos;

verus! {

/// A block that is being broken, and the ticks that are left for it.
#[derive(Clone, Copy, Debug, PartialEq, Eq, Structural)]
pub struct DigProgress {
    pub block: BlockPos,
    pub face: i8,
    pub ticks_left: u32,
    pub ticks_total: u32,
}

/// The block being broken and how far its cracks go, 0 to 9.
#[derive(Clone, Copy, Debug, PartialEq, Eq, Structural)]
pub struct DigOverlay {
    pub block: BlockPos,
    pub stage: u8,
}

/// What the server is told: 0 is the start, 1 the end before its time, 2 the
/// end, 5 the release of an item in use and 6 the swap of both hands. The
/// numbers of these messages rise.
#[derive(Clone, Copy, Debug, PartialEq, Eq, Structural)]
pub struct DigPacket {
    pub status: i32,
    pub block: BlockPos,
    pub face: i8,
    pub sequence: i32,
}

/// What a step of breaking a block leads to: packets to send in their order,
/// and whether the block makes the sound of a hit or breaks.
#[derive(Clone, Copy, Debug, PartialEq, Eq, Structural)]
pub struct DigStep {
    pub first: Option<DigPacket>,
    pub second: Option<DigPacket>,
    pub third: Option<DigPacket>,
    pub hit: Option<BlockPos>,
    pub broken: Option<BlockPos>,
}

pub open spec fn quiet() -> DigStep {
    DigStep { first: None, second: None, third: None, hit: None, broken: None }
}

/// The block being broken, and the number of the last message.
#[derive(Clone, Copy, Debug, PartialEq, Eq, Structural)]
pub struct Digger {
    pub dig: Option<DigProgress>,
    pub sequence: i32,
}

/// The number after a number; after the largest comes the smallest.
pub open spec fn next_number(n: i32) -> i32 {
    if n == i32::MAX {
        i32::MIN
    } else {
        (n + 1) as i32
    }
}

/// The message that ends a dig before its time, if there is one.
pub open spec fn cancel_packet(digger: Digger) -> Option<DigPacket> {
    match digger.dig {
        Some(dig) => Some(
            DigPacket {
                status: 1,
                block: dig.block,
                face: dig.face,
                sequence: next_number(digger.sequence),
            },
        ),
        None => None,
    }
}

pub open spec fn cancelled(digger: Digger) -> Digger {
    Digger {
        dig: None,
        sequence: match digger.dig {
            Some(_) => next_number(digger.sequence),
            None => digger.sequence,
        },
    }
}

/// One more tick on the block that is being broken: when its time is up it
/// breaks; every fourth tick it sounds.
pub open spec fn dug_on(digger: Digger, face: i8) -> (Digger, DigStep) {
    match digger.dig {
        Some(dig) => {
            let left = if dig.ticks_left > 0 {
                (dig.ticks_left - 1) as u32
            } else {
                0
            };
            if left == 0 {
                (
                    Digger { dig: None, sequence: next_number(digger.sequence) },
                    DigStep {
                        first: Some(
                            DigPacket {
                                status: 2,
                                block: dig.block,
                                face,
                                sequence: next_number(digger.sequence),
                            },
                        ),
                        broken: Some(dig.block),
                        ..quiet()
                    },
                )
            } else {
                (
                    Digger { dig: Some(DigProgress { ticks_left: left, ..dig }), ..digger },
                    DigStep {
                        hit: if left % 4 == 0 {
                            Some(dig.block)
                        } else {
                            None
                        },
                        ..quiet()
                    },
                )
            }
        },
        None => (digger, quiet()),
    }
}

/// A new block is aimed at: what was being broken is left. A block that cannot
/// be broken is left alone; in creative mode, or where breaking takes no time,
/// it breaks at once.
pub open spec fn dug_anew(
    digger: Digger,
    block: BlockPos,
    face: i8,
    ticks: Option<u32>,
    creative: bool,
) -> (Digger, DigStep) {
    let free = cancelled(digger);
    let first = cancel_packet(digger);
    match ticks {
        Some(ticks) => {
            let start = next_number(free.sequence);
            let second = Some(DigPacket { status: 0, block, face, sequence: start });
            if creative {
                (
                    Digger { dig: None, sequence: start },
                    DigStep { first, second, broken: Some(block), ..quiet() },
                )
            } else if ticks == 0 {
                let end = next_number(start);
                (
                    Digger { dig: None, sequence: end },
                    DigStep {
                        first,
                        second,
                        third: Some(DigPacket { status: 2, block, face, sequence: end }),
                        broken: Some(block),
                        ..quiet()
                    },
                )
            } else {
                (
                    Digger {
                        dig: Some(
                            DigProgress { block, face, ticks_left: ticks, ticks_total: ticks },
                        ),
                        sequence: start,
                    },
                    DigStep { first, second, ..quiet() },
                )
            }
        },
        None => (free, DigStep { first, ..quiet() }),
    }
}

/// One tick of the attack button. `aim` is the block and the face that it is
/// held on, nothing where it is not held or no block is in reach.
pub open spec fn held_on(
    digger: Digger,
    aim: Option<(BlockPos, i8)>,
    ticks: Option<u32>,
    creative: bool,
) -> (Digger, DigStep) {
    match aim {
        Some((block, face)) => if digger.dig is Some && digger.dig->0.block == block {
            dug_on(digger, face)
        } else {
            dug_anew(digger, block, face, ticks, creative)
        },
        None => (cancelled(digger), DigStep { first: cancel_packet(digger), ..quiet() }),
    }
}

/// How far the cracks go.
pub open spec fn crack_stage(dig: DigProgress) -> int {
    let done = if dig.ticks_total >= dig.ticks_left {
        dig.ticks_total - dig.ticks_left
    } else {
        0
    };
    if dig.ticks_total == 0 {
        0
    } else {
        let stage = done * 10 / dig.ticks_total as int;
        if stage < 9 {
            stage
        } else {
            9
        }
    }
}

fn number_after(n: i32) -> (r: i32)
    ensures
        r == next_number(n),
{
    if n == i32::MAX {
        i32::MIN
    } else {
        n + 1
    }
}

impl Digger {
    pub fn new() -> (r: Self)
        ensures
            r == (Digger { dig: None, sequence: 0 }),
    {
        Digger { dig: None, sequence: 0 }
    }

    /// The number of the next message.
    pub fn next_sequence(&mut self) -> (r: i32)
        ensures
            r == next_number(old(self).sequence),
            *final(self) == (Digger { sequence: r, ..*old(self) }),
    {
        self.sequence = number_after(self.sequence);
        self.sequence
    }

    /// Ends a dig before its time.
    pub fn cancel_dig(&mut self) -> (r: Option<DigPacket>)
        ensures
            r == cancel_packet(*old(self)),
            *final(self) == cancelled(*old(self)),
    {
        match self.dig {
            Some(dig) => {
                let sequence: i32 = self.next_sequence();
                self.dig = None;
                Some(DigPacket { status: 1, block: dig.block, face: dig.face, sequence })
            },
            None => None,
        }
    }

    /// Whether a block is the one that is being broken.
    pub fn is_digging(&self, block: BlockPos) -> (r: bool)
        ensures
            r == (self.dig is Some && self.dig->0.block == block),
    {
        match self.dig {
            Some(dig) => dig.block == block,
            None => false,
        }
    }

    /// The button is held on the block that is being broken.
    pub fn dig_on(&mut self, face: i8) -> (r: DigStep)
        ensures
            (*final(self), r) == dug_on(*old(self), face),
    {
        let none = DigStep { first: None, second: None, third: None, hit: None, broken: None };
        match self.dig {
            Some(dig) => {
                let left: u32 = if dig.ticks_left > 0 {
                    dig.ticks_left - 1
                } else {
                    0
                };
                if left == 0 {
                    let sequence: i32 = self.next_sequence();
                    self.dig = None;
                    DigStep {
                        first: Some(DigPacket { status: 2, block: dig.block, face, sequence }),
                        broken: Some(dig.block),
                        ..none
                    }
                } else {
                    let mut dig = dig;
                    dig.ticks_left = left;
                    self.dig = Some(dig);
                    DigStep {
                        hit: if left % 4 == 0 {
                            Some(dig.block)
                        } else {
                            None
                        },
                        ..none
                    }
                }
            },
            None => none,
        }
    }

    /// The button is held on another block. `ticks` is the time that breaking
    /// it takes, nothing where it cannot be broken.
    pub fn dig_anew(&mut self, block: BlockPos, face: i8, ticks: Option<u32>, creative: bool) -> (r:
        DigStep)
        ensures
            (*final(self), r) == dug_anew(*old(self), block, face, ticks, creative),
    {
        let first: Option<DigPacket> = self.cancel_dig();
        match ticks {
            Some(ticks) => {
                let start: i32 = self.next_sequence();
                let second: Option<DigPacket> = Some(
                    DigPacket { status: 0, block, face, sequence: start },
                );
                if creative {
                    DigStep { first, second, third: None, hit: None, broken: Some(block) }
                } else if ticks == 0 {
                    let end: i32 = self.next_sequence();
                    DigStep {
                        first,
                        second,
                        third: Some(DigPacket { status: 2, block, face, sequence: end }),
                        hit: None,
                        broken: Some(block),
                    }
                } else {
                    self.dig = Some(
                        DigProgress { block, face, ticks_left: ticks, ticks_total: ticks },
                    );
                    DigStep { first, second, third: None, hit: None, broken: None }
                }
            },
            None => DigStep { first, second: None, third: None, hit: None, broken: None },
        }
    }

    /// One tick of the attack button. `ticks` is the time that breaking the block
    /// takes, nothing where it cannot be broken.
    pub fn hold(&mut self, aim: Option<(BlockPos, i8)>, ticks: Option<u32>, creative: bool) -> (r:
        DigStep)
        ensures
            (*final(self), r) == held_on(*old(self), aim, ticks, creative),
    {
        match aim {
            Some((block, face)) => if self.is_digging(block) {
                self.dig_on(face)
            } else {
                self.dig_anew(block, face, ticks, creative)
            },
            None => {
                let first: Option<DigPacket> = self.cancel_dig();
                DigStep { first, second: None, third: None, hit: None, broken: None }
            },
        }
    }

    /// The cracks to draw.
    pub fn overlay(&self) -> (r: Option<DigOverlay>)
        ensures
            match self.dig {
                Some(dig) => r matches Some(overlay) && overlay.block == dig.block
                    && overlay.stage == crack_stage(dig),
                None => r is None,
            },
    {
        match self.dig {
            Some(dig) => {
                let done: u64 = if dig.ticks_total >= dig.ticks_left {
                    (dig.ticks_total - dig.ticks_left) as u64
                } else {
                    0
                };
                let stage: u8 = if dig.ticks_total == 0 {
                    0
                } else {
                    let stage: u64 = done * 10 / dig.ticks_total as u64;
                    if stage < 9 {
                        stage as u8
                    } else {
                        9
                    }
                };
                Some(DigOverlay { block: dig.block, stage })
            },
            None => None,
        }
    }

    /// A message about the hands: status 5 or 6.
    pub fn hand_packet(&mut self, status: i32) -> (r: DigPacket)
        ensures
            r == (DigPacket {
                status,
                block: BlockPos { x: 0, y: 0, z: 0 },
                face: 0,
                sequence: next_number(old(self).sequence),
            }),
            *final(self) == (Digger {
                sequence: next_number(old(self).sequence),
                ..*old(self)
            }),
    {
        let sequence: i32 = self.next_sequence();
        DigPacket { status, block: BlockPos { x: 0, y: 0, z: 0 }, face: 0, sequence }
    }
}

/// The state of a block that the player is to see placed before the server
/// says so: that of the held item, unless the click is for the block that was
/// aimed at.
pub open spec fn predicted_block(
    sneaking: bool,
    target: Option<Seq<char>>,
    state: Option<u32>,
) -> Option<u32> {
    if sneaking || target is None || !items::interactable(target->0) {
        state
    } else {
        None
    }
}

pub fn predict_place(sneaking: bool, target: Option<&str>, state: Option<u32>) -> (r: Option<u32>)
    ensures
        r == predicted_block(
            sneaking,
            match target {
                Some(name) => Some(name@),
                None => None,
            },
            state,
        ),
{
    let may_place: bool = sneaking || match target {
        Some(name) => !is_interactable_block(name),
        None => true,
    };
    if may_place {
        state
    } else {
        None
    }
}

/// The player holding a block for `n` ticks.
pub open spec fn dug_for(digger: Digger, face: i8, n: nat) -> Digger
    decreases n,
{
    if n == 0 {
        digger
    } else {
        dug_on(dug_for(digger, face, (n - 1) as nat), face).0
    }
}

/// A block that takes some ticks breaks after exactly as many: before that it
/// is still being broken, with the ticks that are left.
pub proof fn blocks_break_in_their_time(
    digger: Digger,
    block: BlockPos,
    face: i8,
    ticks: u32,
    n: nat,
)
    requires
        0 < ticks,
        n <= ticks,
    ensures
        ({
            let started = dug_anew(digger, block, face, Some(ticks), false).0;
            let later = dug_for(started, face, n);
            if n < ticks {
                later.dig == Some(
                    DigProgress {
                        block,
                        face,
                        ticks_left: (ticks - n) as u32,
                        ticks_total: ticks,
                    },
                )
            } else {
                later.dig is None
            }
        }),
    decreases n,
{
    if n > 0 {
        blocks_break_in_their_time(digger, block, face, ticks, (n - 1) as nat);
    }
}

/// The cracks never go back while a block is being broken.
pub proof fn cracks_grow(dig: DigProgress)
    requires
        0 < dig.ticks_left <= dig.ticks_total,
    ensures
        crack_stage(dig) <= crack_stage(
            DigProgress { ticks_left: (dig.ticks_left - 1) as u32, ..dig },
        ) <= 9,
        dig.ticks_left == dig.ticks_total ==> crack_stage(dig) == 0,
{
    let total = dig.ticks_total as int;
    let done = total - dig.ticks_left;
    assert(done * 10 / total <= (done + 1) * 10 / total) by (nonlinear_arith)
        requires
            0 < total,
            0 <= done,
    ;
    if done == 0 {
        assert(0int / total == 0) by (nonlinear_arith)
            requires
                0 < total,
        ;
    }
}

/// Starting on another block ends the dig before it, and tells the server so
/// first.
pub proof fn one_block_at_a_time(
    digger: Digger,
    block: BlockPos,
    face: i8,
    ticks: Option<u32>,
    creative: bool,
)
    ensures
        ({
            let (after, step) = dug_anew(digger, block, face, ticks, creative);
            &&& digger.dig is Some ==> step.first == cancel_packet(digger)
            &&& after.dig is Some ==> after.dig->0.block == block
        }),
{
}

/// Aiming at a new block ends what was being broken, and begins on the new one: with a
/// start for its place and face, and in creative mode, or where it takes no time, at
/// once with its end. A block that cannot be broken is not begun.
pub proof fn new_blocks_are_begun(
    digger: Digger,
    block: BlockPos,
    face: i8,
    ticks: Option<u32>,
    creative: bool,
)
    requires
        digger.dig is None || digger.dig->0.block != block,
    ensures
        ({
            let (after, step) = held_on(digger, Some((block, face)), ticks, creative);
            &&& step.first is Some <==> digger.dig is Some
            &&& step.first matches Some(end) ==> end.status == 1 && end.block
                == digger.dig->0.block && end.face == digger.dig->0.face
            &&& step.second is Some <==> ticks is Some
            &&& step.second matches Some(begin) ==> begin.status == 0 && begin.block == block
                && begin.face == face
            &&& step.third is Some <==> ticks == Some(0u32) && !creative
            &&& step.third matches Some(end) ==> end.status == 2 && end.block == block && end.face
                == face
            &&& step.broken == if ticks is Some && (creative || ticks == Some(0u32)) {
                Some(block)
            } else {
                None
            }
            &&& step.hit is None
            &&& after.dig is Some <==> ticks is Some && ticks->0 > 0 && !creative
            &&& after.dig matches Some(dig) ==> dig.block == block && dig.face == face
                && dig.ticks_left == ticks->0 && dig.ticks_total == ticks->0
        }),
{
}

/// Messages are numbered one after the other, with no gap and no repeat.
pub proof fn messages_are_numbered(
    digger: Digger,
    aim: Option<(BlockPos, i8)>,
    ticks: Option<u32>,
    creative: bool,
)
    requires
        digger.sequence <= i32::MAX - 3,
    ensures
        ({
            let (after, step) = held_on(digger, aim, ticks, creative);
            let one = if step.first is Some {
                1int
            } else {
                0
            };
            let two = if step.second is Some {
                one + 1
            } else {
                one
            };
            let three = if step.third is Some {
                two + 1
            } else {
                two
            };
            &&& step.first matches Some(packet) ==> packet.sequence == digger.sequence + one
            &&& step.second matches Some(packet) ==> packet.sequence == digger.sequence + two
            &&& step.third matches Some(packet) ==> packet.sequence == digger.sequence + three
            &&& after.sequence == digger.sequence + three
        }),
        next_number(digger.sequence) == digger.sequence + 1,
{
}

/// Holding on takes one tick off the block: at the last one it breaks and its end is
/// told, before that it sounds at every fourth tick.
pub proof fn holding_on_wears_the_block_down(
    digger: Digger,
    face: i8,
    ticks: Option<u32>,
    creative: bool,
)
    requires
        digger.dig is Some,
    ensures
        ({
            let dig = digger.dig->0;
            let (after, step) = held_on(digger, Some((dig.block, face)), ticks, creative);
            &&& dig.ticks_left <= 1 ==> after.dig is None && step.broken == Some(dig.block)
                && step.first is Some && step.first->0.status == 2 && step.first->0.block
                == dig.block && step.first->0.face == face && step.hit is None
            &&& dig.ticks_left > 1 ==> after.dig is Some && after.dig->0.ticks_left
                == dig.ticks_left - 1 && after.dig->0.ticks_total == dig.ticks_total
                && after.dig->0.block == dig.block && after.dig->0.face == dig.face && step.broken
                is None && step.first is None && after.sequence == digger.sequence
            &&& dig.ticks_left > 1 ==> (step.hit == Some(dig.block) <==> dig.ticks_left % 4 == 1)
            &&& step.second is None && step.third is None
        }),
{
}

/// Letting go ends what was being broken, and nothing else.
pub proof fn letting_go_ends_a_dig(digger: Digger, ticks: Option<u32>, creative: bool)
    ensures
        ({
            let (after, step) = held_on(digger, None, ticks, creative);
            &&& after.dig is None
            &&& step.first is Some <==> digger.dig is Some
            &&& step.first matches Some(end) ==> end.status == 1 && end.block
                == digger.dig->0.block && end.face == digger.dig->0.face
            &&& step.second is None && step.third is None && step.hit is None && step.broken is None
        }),
{
}

/// The cracks show how many tenths of the time have passed, and 9 at the most.
pub proof fn cracks_show_tenths(dig: DigProgress)
    requires
        dig.ticks_left <= dig.ticks_total,
        0 < dig.ticks_total,
    ensures
        ({
            let done = (dig.ticks_total - dig.ticks_left) * 10;
            let stage = crack_stage(dig);
            &&& 0 <= stage <= 9
            &&& stage * dig.ticks_total <= done
            &&& stage < 9 ==> done < (stage + 1) * dig.ticks_total
        }),
{
    let total = dig.ticks_total as int;
    let done = (total - dig.ticks_left) * 10;
    let tenth = done / total;
    assert(total * tenth <= done < total * tenth + total && 0 <= tenth) by (nonlinear_arith)
        requires
            tenth == done / total,
            total > 0,
            done >= 0,
    ;
    assert(crack_stage(dig) == if tenth < 9 {
        tenth
    } else {
        9
    });
    assert(9 * total <= total * tenth || tenth < 9) by (nonlinear_arith)
        requires
            total > 0,
    ;
    assert(tenth * total == total * tenth && (tenth + 1) * total == total * tenth + total)
        by (nonlinear_arith);
}

/// A block is seen placed at once, unless the click is for a block that does something
/// and the player does not sneak.
pub proof fn clicks_on_blocks_that_work_place_nothing(
    sneaking: bool,
    target: Seq<char>,
    state: Option<u32>,
)
    ensures
        predicted_block(sneaking, None, state) == state,
        sneaking ==> predicted_block(sneaking, Some(target), state) == state,
        !sneaking && items::interactable(target) ==> predicted_block(sneaking, Some(target), state)
            is None,
        !items::interactable(target) ==> predicted_block(sneaking, Some(target), state) == state,
{
}

/// A block is being dug exactly where the dig is at it.
pub proof fn digs_are_at_their_block(digger: &Digger, block: BlockPos, digging: bool)
    requires
        call_ensures(Digger::is_digging, (digger, block), digging),
    ensures
        digger.dig is None ==> !digging,
        digger.dig matches Some(dig) ==> (digging <==> dig.block == block),
{
}

/// A message about the hands has its status, no place, and the next number.
pub proof fn hands_are_numbered_too(digger: &mut Digger, status: i32, packet: DigPacket)
    requires
        call_ensures(Digger::hand_packet, (digger, status), packet),
        old(digger).sequence < i32::MAX,
    ensures
        packet.status == status,
        packet.block.x == 0 && packet.block.y == 0 && packet.block.z == 0 && packet.face == 0,
        packet.sequence == old(digger).sequence + 1,
        final(digger).sequence == packet.sequence,
        final(digger).dig == old(digger).dig,
{
}

} // verus!
