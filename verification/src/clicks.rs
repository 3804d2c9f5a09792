//! Local prediction of clicks in item screens. The server stays authoritative.

use vstd::prelude::*;

use crate::items::{ItemRegistry, SlotItem};

verus! {

pub type Slots = Seq<Option<SlotItem>>;

/// A slot that a click changed, with its new contents.
pub type Change = (i16, Option<SlotItem>);

pub open spec fn least(a: int, b: int) -> int {
    if a < b {
        a
    } else {
        b
    }
}

pub open spec fn at_least(a: int, b: int) -> int {
    if a < b {
        b
    } else {
        a
    }
}

/// Adds a slot to the changed ones, once.
pub open spec fn marked(changed: Seq<usize>, slot: usize) -> Seq<usize> {
    if changed.contains(slot) {
        changed
    } else {
        changed.push(slot)
    }
}

pub fn mark_changed(changed: &mut Vec<usize>, slot: usize)
    ensures
        final(changed)@ == marked(old(changed)@, slot),
{
    let mut i: usize = 0;
    while i < changed.len()
        invariant
            i <= changed@.len(),
            changed@ == old(changed)@,
            forall|j: int| 0 <= j < i ==> changed@[j] != slot,
        decreases changed@.len() - i,
    {
        if changed[i] == slot {
            return ;
        }
        i = i + 1;
    }
    changed.push(slot);
}

/// A stack on its way through other slots: the slots, how many of the stack are
/// left to place, and the slots changed so far.
pub struct Moving {
    pub slots: Slots,
    pub left: int,
    pub changed: Seq<usize>,
}

/// Room for more of an item in a slot that holds `count` of it.
pub open spec fn room(limit: int, count: int) -> int {
    at_least(limit - count, 0)
}

/// Tops up a slot that holds the same item already.
pub open spec fn top_up(m: Moving, item_id: i32, limit: int, slot: usize) -> Moving {
    match m.slots[slot as int] {
        Some(target) => {
            let moved = least(room(limit, target.count as int), m.left);
            if m.left > 0 && target.item_id == item_id && moved > 0 {
                Moving {
                    slots: m.slots.update(
                        slot as int,
                        Some(SlotItem { item_id, count: (target.count + moved) as i8 }),
                    ),
                    left: m.left - moved,
                    changed: marked(m.changed, slot),
                }
            } else {
                m
            }
        },
        None => m,
    }
}

/// Fills an empty slot.
pub open spec fn fill(m: Moving, item_id: i32, limit: int, slot: usize) -> Moving {
    if m.left > 0 && m.slots[slot as int] is None {
        let moved = least(m.left, limit);
        Moving {
            slots: m.slots.update(slot as int, Some(SlotItem { item_id, count: moved as i8 })),
            left: m.left - moved,
            changed: marked(m.changed, slot),
        }
    } else {
        m
    }
}

/// Tops up the first `n` targets in their order.
pub open spec fn top_up_all(
    m: Moving,
    item_id: i32,
    limit: int,
    targets: Seq<usize>,
    n: nat,
) -> Moving
    decreases n,
{
    if n == 0 {
        m
    } else {
        top_up(
            top_up_all(m, item_id, limit, targets, (n - 1) as nat),
            item_id,
            limit,
            targets[n - 1],
        )
    }
}

/// Fills the empty ones among the first `n` targets in their order.
pub open spec fn fill_all(
    m: Moving,
    item_id: i32,
    limit: int,
    targets: Seq<usize>,
    n: nat,
) -> Moving
    decreases n,
{
    if n == 0 {
        m
    } else {
        fill(
            fill_all(m, item_id, limit, targets, (n - 1) as nat),
            item_id,
            limit,
            targets[n - 1],
        )
    }
}

/// A stack moved out of a slot into the targets: first onto stacks of the same
/// item, then into empty slots; what finds no room stays.
pub open spec fn moved_out(
    slots: Slots,
    source: usize,
    targets: Seq<usize>,
    limit: int,
    changed: Seq<usize>,
) -> (Slots, Seq<usize>) {
    match slots[source as int] {
        Some(stack) => {
            let start = Moving { slots, left: stack.count as int, changed };
            let n = targets.len();
            let topped = top_up_all(start, stack.item_id, limit, targets, n);
            let filled = fill_all(topped, stack.item_id, limit, targets, n);
            let rest = if filled.left > 0 {
                Some(SlotItem { item_id: stack.item_id, count: filled.left as i8 })
            } else {
                None
            };
            (filled.slots.update(source as int, rest), marked(filled.changed, source))
        },
        None => (slots, changed),
    }
}

/// Every target that is reached while something is left to top up with is a slot.
pub open spec fn top_up_inside(
    m: Moving,
    item_id: i32,
    limit: int,
    targets: Seq<usize>,
    len: nat,
) -> bool {
    forall|i: int|
        0 <= i < targets.len() && top_up_all(m, item_id, limit, targets, i as nat).left > 0
            ==> #[trigger] targets[i] < len
}

/// Every target that is reached while something is left to fill with is a slot.
pub open spec fn fill_inside(
    m: Moving,
    item_id: i32,
    limit: int,
    targets: Seq<usize>,
    len: nat,
) -> bool {
    forall|i: int|
        0 <= i < targets.len() && fill_all(m, item_id, limit, targets, i as nat).left > 0
            ==> #[trigger] targets[i] < len
}

/// The way of the stack in a slot through the targets never leaves the slots. An
/// empty slot goes no way at all.
pub open spec fn moves_inside(slots: Slots, source: usize, targets: Seq<usize>, limit: int) -> bool {
    match slots[source as int] {
        Some(stack) => {
            let start = Moving { slots, left: stack.count as int, changed: Seq::empty() };
            let topped = top_up_all(start, stack.item_id, limit, targets, targets.len());
            &&& top_up_inside(start, stack.item_id, limit, targets, slots.len())
            &&& fill_inside(topped, stack.item_id, limit, targets, slots.len())
        },
        None => true,
    }
}

/// The limit of the stack in a slot.
pub open spec fn limit_at(registry: &ItemRegistry, slots: Slots, slot: usize) -> int {
    match slots[slot as int] {
        Some(stack) => registry.stack_limit(stack.item_id),
        None => 0,
    }
}

/// What was marked before makes no difference to what moves.
proof fn lemma_marks_do_not_matter(
    a: Moving,
    b: Moving,
    item_id: i32,
    limit: int,
    targets: Seq<usize>,
    n: nat,
)
    requires
        n <= targets.len(),
        a.slots == b.slots,
        a.left == b.left,
    ensures
        top_up_all(a, item_id, limit, targets, n).slots == top_up_all(
            b,
            item_id,
            limit,
            targets,
            n,
        ).slots,
        top_up_all(a, item_id, limit, targets, n).left == top_up_all(
            b,
            item_id,
            limit,
            targets,
            n,
        ).left,
        fill_all(a, item_id, limit, targets, n).left == fill_all(b, item_id, limit, targets, n).left,
        fill_all(a, item_id, limit, targets, n).slots == fill_all(
            b,
            item_id,
            limit,
            targets,
            n,
        ).slots,
    decreases n,
{
    if n > 0 {
        lemma_marks_do_not_matter(a, b, item_id, limit, targets, (n - 1) as nat);
    }
}

proof fn lemma_inside_with_marks(m: Moving, item_id: i32, limit: int, targets: Seq<usize>)
    requires
        ({
            let fresh = Moving { changed: Seq::empty(), ..m };
            let topped = top_up_all(fresh, item_id, limit, targets, targets.len());
            &&& top_up_inside(fresh, item_id, limit, targets, m.slots.len())
            &&& fill_inside(topped, item_id, limit, targets, m.slots.len())
        }),
    ensures
        top_up_inside(m, item_id, limit, targets, m.slots.len()),
        fill_inside(
            top_up_all(m, item_id, limit, targets, targets.len()),
            item_id,
            limit,
            targets,
            m.slots.len(),
        ),
{
    let fresh = Moving { changed: Seq::empty(), ..m };
    let fresh_topped = top_up_all(fresh, item_id, limit, targets, targets.len());
    let topped = top_up_all(m, item_id, limit, targets, targets.len());
    lemma_marks_do_not_matter(m, fresh, item_id, limit, targets, targets.len());
    assert forall|i: int|
        0 <= i < targets.len() && top_up_all(m, item_id, limit, targets, i as nat).left
            > 0 implies #[trigger] targets[i] < m.slots.len() by {
        lemma_marks_do_not_matter(m, fresh, item_id, limit, targets, i as nat);
    }
    assert forall|i: int|
        0 <= i < targets.len() && fill_all(topped, item_id, limit, targets, i as nat).left
            > 0 implies #[trigger] targets[i] < m.slots.len() by {
        lemma_marks_do_not_matter(topped, fresh_topped, item_id, limit, targets, i as nat);
    }
}

/// Every target is a slot.
pub open spec fn targets_in(targets: Seq<usize>, len: nat) -> bool {
    forall|i: int| 0 <= i < targets.len() ==> #[trigger] targets[i] < len
}

/// Tops up the targets that hold the same item already, and gives what is left.
fn top_up_targets(
    slots: &mut Vec<Option<SlotItem>>,
    item_id: i32,
    count: i8,
    limit: i8,
    targets: &Vec<usize>,
    changed: &mut Vec<usize>,
) -> (left: i8)
    requires
        0 <= limit,
        top_up_inside(
            (Moving { slots: old(slots)@, left: count as int, changed: old(changed)@ }),
            item_id,
            limit as int,
            targets@,
            old(slots)@.len(),
        ),
    ensures
        (Moving { slots: final(slots)@, left: left as int, changed: final(changed)@ }) == top_up_all(
            Moving { slots: old(slots)@, left: count as int, changed: old(changed)@ },
            item_id,
            limit as int,
            targets@,
            targets@.len(),
        ),
        final(slots)@.len() == old(slots)@.len(),
{
    let ghost start = Moving { slots: slots@, left: count as int, changed: changed@ };
    let mut left: i8 = count;
    let mut i: usize = 0;
    while i < targets.len()
        invariant
            i <= targets@.len(),
            0 <= limit,
            top_up_inside(start, item_id, limit as int, targets@, slots@.len()),
            start.slots.len() == slots@.len(),
            top_up_all(start, item_id, limit as int, targets@, i as nat) == (Moving {
                slots: slots@,
                left: left as int,
                changed: changed@,
            }),
        decreases targets@.len() - i,
    {
        let slot: usize = targets[i];
        let ghost before = Moving { slots: slots@, left: left as int, changed: changed@ };
        if left > 0 {
            match slots[slot] {
                Some(target) => {
                    if target.item_id == item_id && target.count < limit {
                        let space: i16 = limit as i16 - target.count as i16;
                        let moved: i16 = if space < left as i16 { space } else { left as i16 };
                        let count: i8 = (target.count as i16 + moved) as i8;
                        slots[slot] = Some(SlotItem { item_id, count });
                        left = (left as i16 - moved) as i8;
                        mark_changed(changed, slot);
                    }
                },
                None => {},
            }
        }
        i = i + 1;
        proof {
            assert(top_up_all(start, item_id, limit as int, targets@, i as nat) == top_up(
                before,
                item_id,
                limit as int,
                slot,
            ));
        }
    }
    left
}

/// Fills the empty targets, and gives what is left.
fn fill_targets(
    slots: &mut Vec<Option<SlotItem>>,
    item_id: i32,
    count: i8,
    limit: i8,
    targets: &Vec<usize>,
    changed: &mut Vec<usize>,
) -> (left: i8)
    requires
        0 <= limit,
        fill_inside(
            (Moving { slots: old(slots)@, left: count as int, changed: old(changed)@ }),
            item_id,
            limit as int,
            targets@,
            old(slots)@.len(),
        ),
    ensures
        (Moving { slots: final(slots)@, left: left as int, changed: final(changed)@ }) == fill_all(
            Moving { slots: old(slots)@, left: count as int, changed: old(changed)@ },
            item_id,
            limit as int,
            targets@,
            targets@.len(),
        ),
        final(slots)@.len() == old(slots)@.len(),
{
    let ghost start = Moving { slots: slots@, left: count as int, changed: changed@ };
    let mut left: i8 = count;
    let mut i: usize = 0;
    while i < targets.len()
        invariant
            i <= targets@.len(),
            0 <= limit,
            fill_inside(start, item_id, limit as int, targets@, slots@.len()),
            start.slots.len() == slots@.len(),
            fill_all(start, item_id, limit as int, targets@, i as nat) == (Moving {
                slots: slots@,
                left: left as int,
                changed: changed@,
            }),
        decreases targets@.len() - i,
    {
        let slot: usize = targets[i];
        if left > 0 {
            match slots[slot] {
                Some(_) => {},
                None => {
                    let moved: i8 = if left < limit { left } else { limit };
                    slots[slot] = Some(SlotItem { item_id, count: moved });
                    left = left - moved;
                    mark_changed(changed, slot);
                },
            }
        }
        i = i + 1;
    }
    left
}

/// Moves the stack of a slot into the targets.
pub fn merge_stack_into(
    registry: &ItemRegistry,
    slots: &mut Vec<Option<SlotItem>>,
    source: usize,
    targets: &Vec<usize>,
    changed: &mut Vec<usize>,
)
    requires
        source < old(slots)@.len(),
        moves_inside(old(slots)@, source, targets@, limit_at(registry, old(slots)@, source)),
    ensures
        (final(slots)@, final(changed)@) == moved_out(
            old(slots)@,
            source,
            targets@,
            limit_at(registry, old(slots)@, source),
            old(changed)@,
        ),
        final(slots)@.len() == old(slots)@.len(),
{
    let stack: SlotItem = match slots[source] {
        Some(stack) => stack,
        None => return ,
    };
    let limit: i8 = registry.stack_max(stack.item_id);
    let ghost start = Moving { slots: slots@, left: stack.count as int, changed: changed@ };
    proof {
        lemma_inside_with_marks(start, stack.item_id, limit as int, targets@);
    }
    let rest: i8 = top_up_targets(slots, stack.item_id, stack.count, limit, targets, changed);
    let left: i8 = fill_targets(slots, stack.item_id, rest, limit, targets, changed);
    slots[source] = if left > 0 {
        Some(SlotItem { item_id: stack.item_id, count: left })
    } else {
        None
    };
    mark_changed(changed, source);
}

/// The slots from `from` up to `to`.
pub open spec fn rising(from: int, to: int) -> Seq<usize> {
    Seq::new(at_least(to - from, 0) as nat, |i: int| (from + i) as usize)
}

/// The slots from just below `to` down to `from`.
pub open spec fn falling(from: int, to: int) -> Seq<usize> {
    Seq::new(at_least(to - from, 0) as nat, |i: int| (to - 1 - i) as usize)
}

fn slots_up(from: usize, to: usize) -> (r: Vec<usize>)
    requires
        from <= to,
    ensures
        r@ == rising(from as int, to as int),
{
    let mut out: Vec<usize> = Vec::new();
    let mut i: usize = from;
    while i < to
        invariant
            from <= i <= to,
            out@ == rising(from as int, i as int),
        decreases to - i,
    {
        out.push(i);
        i = i + 1;
        proof {
            assert(out@ =~= rising(from as int, i as int));
        }
    }
    out
}

fn slots_down(from: usize, to: usize) -> (r: Vec<usize>)
    ensures
        r@ == falling(from as int, to as int),
{
    let mut out: Vec<usize> = Vec::new();
    let mut i: usize = to;
    while i > from
        invariant
            from <= to ==> from <= i <= to,
            from > to ==> i == to,
            out@.len() == to - i,
            forall|j: int| 0 <= j < out@.len() ==> out@[j] == to - 1 - j,
        decreases i,
    {
        i = i - 1;
        out.push(i);
    }
    proof {
        assert(out@ =~= falling(from as int, to as int));
    }
    out
}

/// The changed slots with their contents.
pub open spec fn changes(slots: Slots, changed: Seq<usize>) -> Seq<Change> {
    Seq::new(changed.len(), |i: int| (changed[i] as i16, slots[changed[i] as int]))
}

fn list_changes(slots: &Vec<Option<SlotItem>>, changed: &Vec<usize>) -> (r: Vec<Change>)
    requires
        targets_in(changed@, slots@.len()),
    ensures
        r@ == changes(slots@, changed@),
{
    let mut out: Vec<Change> = Vec::new();
    let mut i: usize = 0;
    while i < changed.len()
        invariant
            i <= changed@.len(),
            targets_in(changed@, slots@.len()),
            out@.len() == i,
            forall|j: int|
                0 <= j < i ==> #[trigger] out@[j] == (
                    changed@[j] as i16,
                    slots@[changed@[j] as int],
                ),
        decreases changed@.len() - i,
    {
        let slot: usize = changed[i];
        out.push((slot as i16, slots[slot]));
        i = i + 1;
    }
    proof {
        assert(out@ =~= changes(slots@, changed@));
    }
    out
}

proof fn lemma_top_up_marks(
    m: Moving,
    item_id: i32,
    limit: int,
    targets: Seq<usize>,
    n: nat,
    len: nat,
)
    requires
        n <= targets.len(),
        top_up_inside(m, item_id, limit, targets, len),
        targets_in(m.changed, len),
    ensures
        targets_in(top_up_all(m, item_id, limit, targets, n).changed, len),
    decreases n,
{
    if n > 0 {
        lemma_top_up_marks(m, item_id, limit, targets, (n - 1) as nat, len);
        assert(top_up_all(m, item_id, limit, targets, (n - 1) as nat).left > 0 ==> targets[n - 1]
            < len);
    }
}

proof fn lemma_fill_marks(
    m: Moving,
    item_id: i32,
    limit: int,
    targets: Seq<usize>,
    n: nat,
    len: nat,
)
    requires
        n <= targets.len(),
        fill_inside(m, item_id, limit, targets, len),
        targets_in(m.changed, len),
    ensures
        targets_in(fill_all(m, item_id, limit, targets, n).changed, len),
    decreases n,
{
    if n > 0 {
        lemma_fill_marks(m, item_id, limit, targets, (n - 1) as nat, len);
        assert(fill_all(m, item_id, limit, targets, (n - 1) as nat).left > 0 ==> targets[n - 1]
            < len);
    }
}

/// Where a stack of the player's own inventory goes on a quick move: from the
/// main inventory to the hotbar and back, from the special slots into both,
/// last slots first.
pub open spec fn inventory_targets(slot: int) -> Seq<usize> {
    if 9 <= slot <= 35 {
        rising(36, 45)
    } else if 36 <= slot <= 44 {
        rising(9, 36)
    } else {
        falling(9, 45)
    }
}

/// What a quick move does: the slots after it and the changes, where the stack
/// is moved into those targets.
pub open spec fn quick_moved(
    registry: &ItemRegistry,
    slots: Slots,
    slot: usize,
    targets: Seq<usize>,
) -> (Slots, Seq<Change>) {
    let limit = limit_at(registry, slots, slot);
    let (after, changed) = moved_out(slots, slot, targets, limit, Seq::empty());
    (after, changes(after, changed))
}

fn quick_move(
    registry: &ItemRegistry,
    slots: &mut Vec<Option<SlotItem>>,
    slot: usize,
    targets: &Vec<usize>,
) -> (r: Vec<Change>)
    requires
        slot < old(slots)@.len(),
        moves_inside(old(slots)@, slot, targets@, limit_at(registry, old(slots)@, slot)),
    ensures
        (final(slots)@, r@) == quick_moved(registry, old(slots)@, slot, targets@),
        final(slots)@.len() == old(slots)@.len(),
{
    let mut changed: Vec<usize> = Vec::new();
    let ghost before = slots@;
    proof {
        assert(changed@ =~= Seq::empty());
    }
    merge_stack_into(registry, slots, slot, targets, &mut changed);
    proof {
        if let Some(stack) = before[slot as int] {
            let limit = registry.stack_limit(stack.item_id);
            let start = Moving { slots: before, left: stack.count as int, changed: Seq::empty() };
            let n = targets@.len();
            let topped = top_up_all(start, stack.item_id, limit, targets@, n);
            lemma_top_up_marks(start, stack.item_id, limit, targets@, n, before.len());
            lemma_fill_marks(topped, stack.item_id, limit, targets@, n, before.len());
        }
    }
    list_changes(slots, &changed)
}

/// How many a right click picks up: half of the stack, rounded up.
pub open spec fn half_up(count: int) -> int {
    if count + 1 >= 0 {
        (count + 1) / 2
    } else {
        -((-(count + 1)) / 2)
    }
}

pub open spec fn stack_if(item_id: i32, count: int) -> Option<SlotItem> {
    if count > 0 {
        Some(SlotItem { item_id, count: count as i8 })
    } else {
        None
    }
}

/// A plain left click: the slot and the cursor after it. Equal items merge up
/// to the limit, anything else is swapped.
pub open spec fn left_clicked(
    slot: Option<SlotItem>,
    carried: Option<SlotItem>,
    limit: int,
) -> (Option<SlotItem>, Option<SlotItem>) {
    match (carried, slot) {
        (Some(c), Some(s)) => if c.item_id == s.item_id {
            let moved = least(room(limit, s.count as int), c.count as int);
            (
                Some(SlotItem { item_id: s.item_id, count: (s.count + moved) as i8 }),
                stack_if(c.item_id, c.count - moved),
            )
        } else {
            (carried, slot)
        },
        _ => (carried, slot),
    }
}

/// A plain right click: the slot and the cursor after it. An empty cursor takes
/// half, a loaded one puts one item down where it fits, else they are swapped.
pub open spec fn right_clicked(
    slot: Option<SlotItem>,
    carried: Option<SlotItem>,
    limit: int,
) -> (Option<SlotItem>, Option<SlotItem>) {
    match (carried, slot) {
        (None, Some(s)) => {
            let half = half_up(s.count as int);
            (
                stack_if(s.item_id, s.count - half),
                Some(SlotItem { item_id: s.item_id, count: half as i8 }),
            )
        },
        (Some(c), None) => (
            Some(SlotItem { item_id: c.item_id, count: 1 }),
            stack_if(c.item_id, c.count - 1),
        ),
        (Some(c), Some(s)) => if c.item_id == s.item_id && s.count < limit {
            (
                Some(SlotItem { item_id: s.item_id, count: (s.count + 1) as i8 }),
                stack_if(c.item_id, c.count - 1),
            )
        } else {
            (carried, slot)
        },
        _ => (carried, slot),
    }
}

/// A plain click with a button.
pub open spec fn clicked(
    registry: &ItemRegistry,
    slot: Option<SlotItem>,
    carried: Option<SlotItem>,
    button: i8,
) -> (Option<SlotItem>, Option<SlotItem>) {
    let limit = match slot {
        Some(s) => registry.stack_limit(s.item_id),
        None => 0,
    };
    if button == 0 {
        left_clicked(slot, carried, limit)
    } else {
        right_clicked(slot, carried, limit)
    }
}

fn click_slot(
    registry: &ItemRegistry,
    slots: &mut Vec<Option<SlotItem>>,
    carried: &mut Option<SlotItem>,
    slot: usize,
    button: i8,
) -> (r: Vec<Change>)
    requires
        slot < old(slots)@.len(),
    ensures
        final(slots)@ == old(slots)@.update(
            slot as int,
            clicked(registry, old(slots)@[slot as int], *old(carried), button).0,
        ),
        *final(carried) == clicked(registry, old(slots)@[slot as int], *old(carried), button).1,
        r@ == seq![
            (
                slot as i16,
                clicked(registry, old(slots)@[slot as int], *old(carried), button).0,
            ),
        ],
{
    let here: Option<SlotItem> = slots[slot];
    let cursor: Option<SlotItem> = *carried;
    if button == 0 {
        match (cursor, here) {
            (Some(c), Some(s)) => {
                if c.item_id == s.item_id {
                    let limit: i8 = registry.stack_max(s.item_id);
                    let space: i16 = if s.count < limit {
                        limit as i16 - s.count as i16
                    } else {
                        0
                    };
                    let moved: i16 = if space < c.count as i16 { space } else { c.count as i16 };
                    let left: i16 = c.count as i16 - moved;
                    slots[slot] = Some(
                        SlotItem { item_id: s.item_id, count: (s.count as i16 + moved) as i8 },
                    );
                    *carried = if left > 0 {
                        Some(SlotItem { item_id: c.item_id, count: left as i8 })
                    } else {
                        None
                    };
                } else {
                    slots[slot] = cursor;
                    *carried = here;
                }
            },
            _ => {
                slots[slot] = cursor;
                *carried = here;
            },
        }
    } else {
        match (cursor, here) {
            (None, Some(s)) => {
                let n: i16 = s.count as i16 + 1;
                let half: i16 = if n >= 0 { n / 2 } else { -((-n) / 2) };
                let left: i16 = s.count as i16 - half;
                *carried = Some(SlotItem { item_id: s.item_id, count: half as i8 });
                slots[slot] = if left > 0 {
                    Some(SlotItem { item_id: s.item_id, count: left as i8 })
                } else {
                    None
                };
            },
            (Some(c), None) => {
                slots[slot] = Some(SlotItem { item_id: c.item_id, count: 1 });
                *carried = if c.count > 1 {
                    Some(SlotItem { item_id: c.item_id, count: c.count - 1 })
                } else {
                    None
                };
            },
            (Some(c), Some(s)) => {
                if c.item_id == s.item_id && s.count < registry.stack_max(s.item_id) {
                    slots[slot] = Some(SlotItem { item_id: s.item_id, count: s.count + 1 });
                    *carried = if c.count > 1 {
                        Some(SlotItem { item_id: c.item_id, count: c.count - 1 })
                    } else {
                        None
                    };
                } else {
                    slots[slot] = cursor;
                    *carried = here;
                }
            },
            _ => {
                slots[slot] = cursor;
                *carried = here;
            },
        }
    }
    let mut out: Vec<Change> = Vec::new();
    out.push((slot as i16, slots[slot]));
    proof {
        assert(out@ =~= seq![(slot as i16, slots@[slot as int])]);
    }
    out
}

/// The number of slots of the player's own inventory.
pub const PLAYER_INVENTORY_SLOTS: usize = 46;

/// A click in the player's own inventory: mode 1 moves a stack quickly, any
/// other mode is a plain click.
pub fn apply_inventory_click(
    registry: &ItemRegistry,
    slots: &mut Vec<Option<SlotItem>>,
    carried: &mut Option<SlotItem>,
    slot: usize,
    button: i8,
    mode: i32,
) -> (r: Vec<Change>)
    requires
        slot < old(slots)@.len(),
        mode == 1 && slot < PLAYER_INVENTORY_SLOTS ==> moves_inside(
            old(slots)@,
            slot,
            inventory_targets(slot as int),
            limit_at(registry, old(slots)@, slot),
        ),
    ensures
        final(slots)@.len() == old(slots)@.len(),
        mode == 1 ==> *final(carried) == *old(carried),
        mode == 1 && slot < PLAYER_INVENTORY_SLOTS ==> (final(slots)@, r@) == quick_moved(
            registry,
            old(slots)@,
            slot,
            inventory_targets(slot as int),
        ),
        mode == 1 && slot >= PLAYER_INVENTORY_SLOTS ==> final(slots)@ == old(slots)@ && r@.len()
            == 0,
        mode != 1 ==> {
            let after = clicked(registry, old(slots)@[slot as int], *old(carried), button);
            &&& final(slots)@ == old(slots)@.update(slot as int, after.0)
            &&& *final(carried) == after.1
            &&& r@ == seq![(slot as i16, after.0)]
        },
{
    if mode == 1 {
        if slot >= 9 && slot <= 35 {
            let targets = slots_up(36, 45);
            return quick_move(registry, slots, slot, &targets);
        }
        if slot >= 36 && slot <= 44 {
            let targets = slots_up(9, 36);
            return quick_move(registry, slots, slot, &targets);
        }
        if slot <= 8 || slot == 45 {
            let targets = slots_down(9, 45);
            return quick_move(registry, slots, slot, &targets);
        }
        return Vec::new();
    }
    click_slot(registry, slots, carried, slot, button)
}

/// Whether a menu is one of the furnaces, with its three own slots.
pub open spec fn furnace_menu(menu_type: i32, own: int) -> bool {
    (menu_type == 9 || menu_type == 13 || menu_type == 21) && own == 3
}

/// Whether a menu is a crafting table, with its ten own slots.
pub open spec fn crafting_menu(menu_type: i32, own: int) -> bool {
    menu_type == 11 && own == 10
}

/// Where a stack of a server-owned menu goes on a quick move. The menu's own
/// slots empty into the player's, last slots first; the player's go into the
/// menu, except that a furnace takes what it smelts and burns into the slots
/// for them, and that a furnace and a crafting table else swap the player's
/// main inventory and hotbar.
pub open spec fn container_targets(
    registry: &ItemRegistry,
    slots: Slots,
    slot: int,
    own: int,
    menu_type: i32,
) -> Seq<usize> {
    if furnace_menu(menu_type, own) {
        if slot < 3 {
            falling(3, slots.len() as int)
        } else if slots[slot] matches Some(item) && registry.smelts(item.item_id) {
            rising(0, 1)
        } else if slots[slot] matches Some(item) && registry.is_fuel(item.item_id) {
            rising(1, 2)
        } else if slot < 30 {
            rising(30, 39)
        } else {
            rising(3, 30)
        }
    } else if crafting_menu(menu_type, own) {
        if slot < 10 {
            falling(10, slots.len() as int)
        } else if slot < 37 {
            rising(37, 46)
        } else {
            rising(10, 37)
        }
    } else if slot < own {
        falling(own, slots.len() as int)
    } else {
        rising(0, own)
    }
}

/// A click in a server-owned menu of `own` slots in front of the player's.
pub fn apply_container_click(
    registry: &ItemRegistry,
    slots: &mut Vec<Option<SlotItem>>,
    carried: &mut Option<SlotItem>,
    slot: usize,
    button: i8,
    mode: i32,
    own: usize,
    menu_type: i32,
) -> (r: Vec<Change>)
    requires
        slot < old(slots)@.len(),
        mode == 1 ==> moves_inside(
            old(slots)@,
            slot,
            container_targets(registry, old(slots)@, slot as int, own as int, menu_type),
            limit_at(registry, old(slots)@, slot),
        ),
    ensures
        final(slots)@.len() == old(slots)@.len(),
        mode == 1 ==> *final(carried) == *old(carried) && (final(slots)@, r@) == quick_moved(
            registry,
            old(slots)@,
            slot,
            container_targets(registry, old(slots)@, slot as int, own as int, menu_type),
        ),
        mode != 1 ==> {
            let after = clicked(registry, old(slots)@[slot as int], *old(carried), button);
            &&& final(slots)@ == old(slots)@.update(slot as int, after.0)
            &&& *final(carried) == after.1
            &&& r@ == seq![(slot as i16, after.0)]
        },
{
    if mode != 1 {
        return click_slot(registry, slots, carried, slot, button);
    }
    let len: usize = slots.len();
    let targets = if (menu_type == 9 || menu_type == 13 || menu_type == 21) && own == 3 {
        let (smelts, burns) = match slots[slot] {
            Some(item) => (
                registry.is_smeltable(item.item_id),
                registry.is_furnace_fuel(item.item_id),
            ),
            None => (false, false),
        };
        if slot < 3 {
            slots_down(3, len)
        } else if smelts {
            slots_up(0, 1)
        } else if burns {
            slots_up(1, 2)
        } else if slot < 30 {
            slots_up(30, 39)
        } else {
            slots_up(3, 30)
        }
    } else if menu_type == 11 && own == 10 {
        if slot < 10 {
            slots_down(10, len)
        } else if slot < 37 {
            slots_up(37, 46)
        } else {
            slots_up(10, 37)
        }
    } else if slot < own {
        slots_down(own, len)
    } else {
        slots_up(0, own)
    };
    quick_move(registry, slots, slot, &targets)
}

/// How many of an item a slot holds.
pub open spec fn held(slot: Option<SlotItem>, item_id: i32) -> int {
    match slot {
        Some(stack) => if stack.item_id == item_id {
            stack.count as int
        } else {
            0
        },
        None => 0,
    }
}

/// How many of an item all slots hold together.
pub open spec fn total(slots: Slots, item_id: i32) -> int
    decreases slots.len(),
{
    if slots.len() == 0 {
        0
    } else {
        total(slots.drop_last(), item_id) + held(slots.last(), item_id)
    }
}

proof fn lemma_total_update(slots: Slots, i: int, slot: Option<SlotItem>, item_id: i32)
    requires
        0 <= i < slots.len(),
    ensures
        total(slots.update(i, slot), item_id) == total(slots, item_id) - held(slots[i], item_id)
            + held(slot, item_id),
    decreases slots.len(),
{
    let updated = slots.update(i, slot);
    if i == slots.len() - 1 {
        assert(updated.drop_last() =~= slots.drop_last());
    } else {
        assert(updated.drop_last() =~= slots.drop_last().update(i, slot));
        lemma_total_update(slots.drop_last(), i, slot, item_id);
    }
}

/// Whether a slot is none of the targets.
pub open spec fn not_a_target(targets: Seq<usize>, slot: int) -> bool {
    forall|i: int| 0 <= i < targets.len() ==> #[trigger] targets[i] != slot
}

/// What the steps of a move keep: the number of slots, the items that are in
/// slots or still to be placed, the slots that are no target, and a sensible
/// number still to be placed.
pub open spec fn keeps(before: Moving, after: Moving, moved_id: i32, source: int) -> bool {
    &&& after.slots.len() == before.slots.len()
    &&& after.slots[source] == before.slots[source]
    &&& 0 <= after.left <= before.left
    &&& forall|item_id: i32| #[trigger]
        total(after.slots, item_id) == total(before.slots, item_id) + if item_id == moved_id {
            before.left - after.left
        } else {
            0
        }
}

proof fn lemma_steps_keep(
    m: Moving,
    item_id: i32,
    limit: int,
    targets: Seq<usize>,
    n: nat,
    source: int,
)
    requires
        n <= targets.len(),
        0 <= limit <= 127,
        0 <= m.left <= 127,
        0 <= source < m.slots.len(),
        targets_in(targets, m.slots.len()),
        not_a_target(targets, source),
    ensures
        keeps(m, top_up_all(m, item_id, limit, targets, n), item_id, source),
        keeps(m, fill_all(m, item_id, limit, targets, n), item_id, source),
    decreases n,
{
    if n > 0 {
        lemma_steps_keep(m, item_id, limit, targets, (n - 1) as nat, source);
        let slot = targets[n - 1];
        let a = top_up_all(m, item_id, limit, targets, (n - 1) as nat);
        let b = top_up(a, item_id, limit, slot);
        assert forall|id: i32| #[trigger]
            total(b.slots, id) == total(m.slots, id) + if id == item_id {
                m.left - b.left
            } else {
                0
            } by {
            assert(total(a.slots, id) == total(m.slots, id) + if id == item_id {
                m.left - a.left
            } else {
                0
            });
            lemma_total_update(a.slots, slot as int, b.slots[slot as int], id);
            assert(b.slots =~= a.slots.update(slot as int, b.slots[slot as int]));
        }
        let c = fill_all(m, item_id, limit, targets, (n - 1) as nat);
        let d = fill(c, item_id, limit, slot);
        assert forall|id: i32| #[trigger]
            total(d.slots, id) == total(m.slots, id) + if id == item_id {
                m.left - d.left
            } else {
                0
            } by {
            assert(total(c.slots, id) == total(m.slots, id) + if id == item_id {
                m.left - c.left
            } else {
                0
            });
            lemma_total_update(c.slots, slot as int, d.slots[slot as int], id);
            assert(d.slots =~= c.slots.update(slot as int, d.slots[slot as int]));
        }
    }
}

/// A quick move neither makes nor loses items: of every item the slots hold as
/// many after it as before.
pub proof fn quick_move_conserves_items(
    registry: &ItemRegistry,
    slots: Slots,
    slot: usize,
    targets: Seq<usize>,
    item_id: i32,
)
    requires
        slot < slots.len(),
        targets_in(targets, slots.len()),
        not_a_target(targets, slot as int),
        slots[slot as int] matches Some(stack) ==> stack.count >= 0,
    ensures
        quick_moved(registry, slots, slot, targets).0.len() == slots.len(),
        total(quick_moved(registry, slots, slot, targets).0, item_id) == total(slots, item_id),
{
    if let Some(stack) = slots[slot as int] {
        let limit = registry.stack_limit(stack.item_id);
        let start = Moving { slots, left: stack.count as int, changed: Seq::empty() };
        let n = targets.len();
        lemma_steps_keep(start, stack.item_id, limit, targets, n, slot as int);
        let topped = top_up_all(start, stack.item_id, limit, targets, n);
        lemma_steps_keep(topped, stack.item_id, limit, targets, n, slot as int);
        let filled = fill_all(topped, stack.item_id, limit, targets, n);
        let after = quick_moved(registry, slots, slot, targets).0;
        assert(total(topped.slots, item_id) == total(start.slots, item_id) + if item_id
            == stack.item_id {
            start.left - topped.left
        } else {
            0
        });
        assert(total(filled.slots, item_id) == total(topped.slots, item_id) + if item_id
            == stack.item_id {
            topped.left - filled.left
        } else {
            0
        });
        lemma_total_update(filled.slots, slot as int, after[slot as int], item_id);
    }
}

/// Every stack holds something.
pub open spec fn no_empty_stacks(slots: Slots) -> bool {
    forall|i: int| 0 <= i < slots.len() ==> (#[trigger] slots[i] matches Some(stack) ==> stack.count
        > 0)
}

proof fn lemma_steps_leave_no_empty_stacks(
    m: Moving,
    item_id: i32,
    limit: int,
    targets: Seq<usize>,
    n: nat,
)
    requires
        n <= targets.len(),
        0 < limit <= 127,
        m.left <= 127,
        targets_in(targets, m.slots.len()),
        no_empty_stacks(m.slots),
    ensures
        no_empty_stacks(top_up_all(m, item_id, limit, targets, n).slots),
        no_empty_stacks(fill_all(m, item_id, limit, targets, n).slots),
        top_up_all(m, item_id, limit, targets, n).slots.len() == m.slots.len(),
        fill_all(m, item_id, limit, targets, n).slots.len() == m.slots.len(),
        top_up_all(m, item_id, limit, targets, n).left <= 127,
        fill_all(m, item_id, limit, targets, n).left <= 127,
    decreases n,
{
    if n > 0 {
        lemma_steps_leave_no_empty_stacks(m, item_id, limit, targets, (n - 1) as nat);
    }
}

/// A quick move leaves no stack of no items behind, where there was none before
/// and the item can be stacked at all.
pub proof fn quick_moves_leave_no_empty_stacks(
    registry: &ItemRegistry,
    slots: Slots,
    slot: usize,
    targets: Seq<usize>,
)
    requires
        slot < slots.len(),
        targets_in(targets, slots.len()),
        no_empty_stacks(slots),
        slots[slot as int] matches Some(stack) ==> registry.stack_limit(stack.item_id) > 0,
    ensures
        no_empty_stacks(quick_moved(registry, slots, slot, targets).0),
{
    if let Some(stack) = slots[slot as int] {
        let limit = registry.stack_limit(stack.item_id);
        let start = Moving { slots, left: stack.count as int, changed: Seq::empty() };
        let n = targets.len();
        lemma_steps_leave_no_empty_stacks(start, stack.item_id, limit, targets, n);
        let topped = top_up_all(start, stack.item_id, limit, targets, n);
        lemma_steps_leave_no_empty_stacks(topped, stack.item_id, limit, targets, n);
    }
}

/// A quick move never aims at the slot it starts from, in the player's own
/// inventory and in a server-owned menu alike.
pub proof fn quick_moves_leave_their_slot(
    registry: &ItemRegistry,
    slots: Slots,
    slot: int,
    own: int,
    menu_type: i32,
)
    requires
        0 <= slot < slots.len() <= usize::MAX,
        0 <= own <= usize::MAX,
    ensures
        slot < PLAYER_INVENTORY_SLOTS ==> not_a_target(inventory_targets(slot), slot),
        not_a_target(container_targets(registry, slots, slot, own, menu_type), slot),
{
}

/// A plain click neither makes nor loses items: slot and cursor together hold
/// as many of every item after it as before. Stacks of no items are left out;
/// they stand for an empty slot and cursor.
pub proof fn click_conserves_items(
    registry: &ItemRegistry,
    slot: Option<SlotItem>,
    carried: Option<SlotItem>,
    button: i8,
    item_id: i32,
)
    requires
        slot matches Some(stack) ==> stack.count > 0,
        carried matches Some(stack) ==> stack.count > 0,
    ensures
        held(clicked(registry, slot, carried, button).0, item_id) + held(
            clicked(registry, slot, carried, button).1,
            item_id,
        ) == held(slot, item_id) + held(carried, item_id),
{
}

/// No click piles a stack higher than the limit of its item, unless it was
/// higher before: neither in the slot nor on the cursor.
pub proof fn click_respects_limits(
    registry: &ItemRegistry,
    slot: Option<SlotItem>,
    carried: Option<SlotItem>,
    button: i8,
)
    requires
        slot matches Some(stack) ==> 0 < stack.count <= registry.stack_limit(stack.item_id),
        carried matches Some(stack) ==> 0 < stack.count <= registry.stack_limit(stack.item_id),
    ensures
        clicked(registry, slot, carried, button).0 matches Some(stack) ==> 0 < stack.count
            <= registry.stack_limit(stack.item_id),
        clicked(registry, slot, carried, button).1 matches Some(stack) ==> 0 < stack.count
            <= registry.stack_limit(stack.item_id),
{
}

/// Two left clicks in a row undo each other where cursor and slot hold
/// different items or one of them nothing.
pub proof fn left_click_swaps_back(
    registry: &ItemRegistry,
    slot: Option<SlotItem>,
    carried: Option<SlotItem>,
)
    requires
        slot is Some && carried is Some ==> slot->0.item_id != carried->0.item_id,
    ensures
        ({
            let once = clicked(registry, slot, carried, 0);
            clicked(registry, once.0, once.1, 0) == (slot, carried)
        }),
{
}

/// Whether nothing occurs twice.
pub open spec fn no_repeats(changed: Seq<usize>) -> bool {
    forall|i: int, j: int| 0 <= i < j < changed.len() ==> changed[i] != changed[j]
}

/// Slots that are not listed are as they were.
pub open spec fn rest_untouched(before: Slots, after: Slots, changed: Seq<usize>) -> bool {
    forall|i: int|
        0 <= i < before.len() && !changed.contains(i as usize) ==> #[trigger] after[i] == before[i]
}

proof fn lemma_marking(
    m: Moving,
    base: Slots,
    item_id: i32,
    limit: int,
    targets: Seq<usize>,
    n: nat,
)
    requires
        n <= targets.len(),
        targets_in(targets, base.len()),
        m.slots.len() == base.len() <= usize::MAX,
        no_repeats(m.changed),
        rest_untouched(base, m.slots, m.changed),
    ensures
        no_repeats(top_up_all(m, item_id, limit, targets, n).changed),
        rest_untouched(
            base,
            top_up_all(m, item_id, limit, targets, n).slots,
            top_up_all(m, item_id, limit, targets, n).changed,
        ),
        top_up_all(m, item_id, limit, targets, n).slots.len() == base.len(),
        no_repeats(fill_all(m, item_id, limit, targets, n).changed),
        rest_untouched(
            base,
            fill_all(m, item_id, limit, targets, n).slots,
            fill_all(m, item_id, limit, targets, n).changed,
        ),
        fill_all(m, item_id, limit, targets, n).slots.len() == base.len(),
    decreases n,
{
    if n > 0 {
        lemma_marking(m, base, item_id, limit, targets, (n - 1) as nat);
        let slot = targets[n - 1];
        let a = top_up_all(m, item_id, limit, targets, (n - 1) as nat);
        lemma_marked(a.changed, slot);
        let c = fill_all(m, item_id, limit, targets, (n - 1) as nat);
        lemma_marked(c.changed, slot);
    }
}

proof fn lemma_marked(changed: Seq<usize>, slot: usize)
    requires
        no_repeats(changed),
    ensures
        no_repeats(marked(changed, slot)),
        marked(changed, slot).contains(slot),
        forall|x: usize| changed.contains(x) ==> #[trigger] marked(changed, slot).contains(x),
{
    if !changed.contains(slot) {
        let after = changed.push(slot);
        assert(after[changed.len() as int] == slot);
        assert forall|x: usize| changed.contains(x) implies #[trigger] after.contains(x) by {
            let i = changed.index_of(x);
            assert(after[i] == x);
        }
    }
}

/// The changes reported for a quick move are complete and free of repeats:
/// every slot that differs is listed once, with what it holds afterwards.
pub proof fn quick_move_reports_every_change(
    registry: &ItemRegistry,
    slots: Slots,
    slot: usize,
    targets: Seq<usize>,
)
    requires
        slot < slots.len() <= 0x7fff,
        targets_in(targets, slots.len()),
    ensures
        ({
            let (after, reported) = quick_moved(registry, slots, slot, targets);
            &&& forall|i: int, j: int|
                0 <= i < j < reported.len() ==> (#[trigger] reported[i]).0 != (
                #[trigger] reported[j]).0
            &&& forall|i: int|
                0 <= i < reported.len() ==> (#[trigger] reported[i]).1 == after[reported[i].0 as int]
            &&& forall|i: int|
                0 <= i < slots.len() && after[i] != slots[i] ==> exists|j: int|
                    0 <= j < reported.len() && (#[trigger] reported[j]).0 == i
        }),
{
    let (after, reported) = quick_moved(registry, slots, slot, targets);
    if let Some(stack) = slots[slot as int] {
        let limit = registry.stack_limit(stack.item_id);
        let start = Moving { slots, left: stack.count as int, changed: Seq::empty() };
        let n = targets.len();
        lemma_marking(start, slots, stack.item_id, limit, targets, n);
        lemma_top_up_marks(start, stack.item_id, limit, targets, n, slots.len());
        let topped = top_up_all(start, stack.item_id, limit, targets, n);
        lemma_marking(topped, slots, stack.item_id, limit, targets, n);
        lemma_fill_marks(topped, stack.item_id, limit, targets, n, slots.len());
        let filled = fill_all(topped, stack.item_id, limit, targets, n);
        lemma_marked(filled.changed, slot);
        let changed = marked(filled.changed, slot);
        assert(targets_in(changed, slots.len()));
        assert forall|i: int| 0 <= i < slots.len() && after[i] != slots[i] implies exists|j: int|
            0 <= j < reported.len() && (#[trigger] reported[j]).0 == i by {
            if !changed.contains(i as usize) {
                assert(i != slot);
                if filled.changed.contains(i as usize) {
                    assert(changed.contains(i as usize));
                }
                assert(filled.slots[i] == slots[i]);
            }
            let j = changed.index_of(i as usize);
            assert(changed[j] == i as usize);
            assert(reported[j].0 == i);
        }
    }
}

/// No target is empty, and each one that holds the item is full.
pub open spec fn no_room(slots: Slots, item_id: i32, limit: int, targets: Seq<usize>, n: int) -> bool {
    forall|i: int|
        0 <= i < n ==> (slots[#[trigger] targets[i] as int] matches Some(stack) && (stack.item_id
            == item_id ==> stack.count >= limit))
}

/// Each target that holds the item is full.
pub open spec fn topped_up(slots: Slots, item_id: i32, limit: int, targets: Seq<usize>, n: int) -> bool {
    forall|i: int|
        0 <= i < n ==> (slots[#[trigger] targets[i] as int] matches Some(stack) ==> (stack.item_id
            == item_id ==> stack.count >= limit))
}

proof fn lemma_topping(m: Moving, item_id: i32, limit: int, targets: Seq<usize>, n: nat)
    requires
        n <= targets.len(),
        0 <= limit <= 127,
        m.left <= 127,
        targets_in(targets, m.slots.len()),
    ensures
        top_up_all(m, item_id, limit, targets, n).slots.len() == m.slots.len(),
        top_up_all(m, item_id, limit, targets, n).left <= m.left,
        top_up_all(m, item_id, limit, targets, n).left > 0 ==> topped_up(
            top_up_all(m, item_id, limit, targets, n).slots,
            item_id,
            limit,
            targets,
            n as int,
        ),
    decreases n,
{
    if n > 0 {
        lemma_topping(m, item_id, limit, targets, (n - 1) as nat);
    }
}

proof fn lemma_filling(m: Moving, item_id: i32, limit: int, targets: Seq<usize>, n: nat)
    requires
        n <= targets.len(),
        0 < limit <= 127,
        m.left <= 127,
        targets_in(targets, m.slots.len()),
        m.left > 0 ==> topped_up(m.slots, item_id, limit, targets, targets.len() as int),
    ensures
        fill_all(m, item_id, limit, targets, n).slots.len() == m.slots.len(),
        fill_all(m, item_id, limit, targets, n).left <= m.left,
        fill_all(m, item_id, limit, targets, n).left > 0 ==> topped_up(
            fill_all(m, item_id, limit, targets, n).slots,
            item_id,
            limit,
            targets,
            targets.len() as int,
        ) && no_room(
            fill_all(m, item_id, limit, targets, n).slots,
            item_id,
            limit,
            targets,
            n as int,
        ),
    decreases n,
{
    if n > 0 {
        lemma_filling(m, item_id, limit, targets, (n - 1) as nat);
    }
}

/// What a quick move leaves behind found no room: then every target holds
/// something, and each one with the same item is full.
pub proof fn quick_move_uses_all_room(
    registry: &ItemRegistry,
    slots: Slots,
    slot: usize,
    targets: Seq<usize>,
)
    requires
        slot < slots.len(),
        targets_in(targets, slots.len()),
        not_a_target(targets, slot as int),
        slots[slot as int] matches Some(stack) && registry.stack_limit(stack.item_id) > 0,
        quick_moved(registry, slots, slot, targets).0[slot as int] is Some,
    ensures
        no_room(
            quick_moved(registry, slots, slot, targets).0,
            slots[slot as int]->0.item_id,
            registry.stack_limit(slots[slot as int]->0.item_id),
            targets,
            targets.len() as int,
        ),
{
    let stack = slots[slot as int]->0;
    let limit = registry.stack_limit(stack.item_id);
    let start = Moving { slots, left: stack.count as int, changed: Seq::empty() };
    let n = targets.len();
    lemma_topping(start, stack.item_id, limit, targets, n);
    let topped = top_up_all(start, stack.item_id, limit, targets, n);
    lemma_filling(topped, stack.item_id, limit, targets, n);
    let filled = fill_all(topped, stack.item_id, limit, targets, n);
    let after = quick_moved(registry, slots, slot, targets).0;
    assert(after =~= filled.slots.update(slot as int, after[slot as int]));
}

/// Whether a stack is still there, with at least as many of its item.
pub open spec fn lost_nothing(before: Option<SlotItem>, after: Option<SlotItem>) -> bool {
    before matches Some(stack) ==> (after matches Some(now) && now.item_id == stack.item_id
        && now.count >= stack.count)
}

/// Whether a stack is within a limit, or else no larger than it was before.
pub open spec fn within(before: Option<SlotItem>, after: Option<SlotItem>, limit: int) -> bool {
    after matches Some(now) ==> (now.count <= limit || (before matches Some(stack) && stack.item_id
        == now.item_id && now.count <= stack.count))
}

/// What topping up makes of a slot: a stack of the item grows up to the limit, and
/// nothing else changes.
spec fn topped_slot(
    before: Option<SlotItem>,
    after: Option<SlotItem>,
    item_id: i32,
    limit: int,
) -> bool {
    &&& after == before || (after matches Some(now) && now.item_id == item_id && now.count <= limit)
    &&& lost_nothing(before, after)
    &&& before is None ==> after is None
}

/// What filling makes of a slot: an empty one takes some of the item up to the limit,
/// and nothing else changes.
spec fn filled_slot(
    before: Option<SlotItem>,
    after: Option<SlotItem>,
    item_id: i32,
    limit: int,
) -> bool {
    &&& after == before || (after matches Some(now) && now.item_id == item_id && now.count <= limit)
    &&& before is Some ==> after == before
}

proof fn lemma_topped_slots(m: Moving, item_id: i32, limit: int, targets: Seq<usize>, n: nat, i: int)
    requires
        n <= targets.len(),
        0 <= limit <= 127,
        m.left <= 127,
        targets_in(targets, m.slots.len()),
        0 <= i < m.slots.len(),
    ensures
        topped_slot(
            m.slots[i],
            top_up_all(m, item_id, limit, targets, n).slots[i],
            item_id,
            limit,
        ),
        top_up_all(m, item_id, limit, targets, n).slots.len() == m.slots.len(),
        top_up_all(m, item_id, limit, targets, n).left <= m.left,
    decreases n,
{
    if n > 0 {
        lemma_topped_slots(m, item_id, limit, targets, (n - 1) as nat, i);
        assert(targets[n - 1] < m.slots.len());
    }
}

proof fn lemma_filled_slots(m: Moving, item_id: i32, limit: int, targets: Seq<usize>, n: nat, i: int)
    requires
        n <= targets.len(),
        0 <= limit <= 127,
        m.left <= 127,
        targets_in(targets, m.slots.len()),
        0 <= i < m.slots.len(),
    ensures
        filled_slot(m.slots[i], fill_all(m, item_id, limit, targets, n).slots[i], item_id, limit),
        fill_all(m, item_id, limit, targets, n).slots.len() == m.slots.len(),
        fill_all(m, item_id, limit, targets, n).left <= m.left,
        m.left <= 0 ==> fill_all(m, item_id, limit, targets, n) == m,
    decreases n,
{
    if n > 0 {
        lemma_filled_slots(m, item_id, limit, targets, (n - 1) as nat, i);
        assert(targets[n - 1] < m.slots.len());
    }
}

/// A quick move takes from no slot but its own: every other stack is still there,
/// and no smaller.
pub proof fn quick_moves_take_from_one_slot(
    registry: &ItemRegistry,
    slots: Slots,
    slot: usize,
    targets: Seq<usize>,
    other: usize,
)
    requires
        slot < slots.len(),
        targets_in(targets, slots.len()),
        other < slots.len(),
        other != slot,
    ensures
        lost_nothing(
            slots[other as int],
            quick_moved(registry, slots, slot, targets).0[other as int],
        ),
{
    if let Some(stack) = slots[slot as int] {
        let limit = registry.stack_limit(stack.item_id);
        let start = Moving { slots, left: stack.count as int, changed: Seq::empty() };
        let n = targets.len();
        let topped = top_up_all(start, stack.item_id, limit, targets, n);
        lemma_topped_slots(start, stack.item_id, limit, targets, n, other as int);
        lemma_filled_slots(topped, stack.item_id, limit, targets, n, other as int);
    }
}

/// No quick move piles a stack higher than the limit of its item, unless it was
/// higher before.
pub proof fn quick_moves_respect_limits(
    registry: &ItemRegistry,
    slots: Slots,
    slot: usize,
    targets: Seq<usize>,
    other: usize,
)
    requires
        slot < slots.len(),
        targets_in(targets, slots.len()),
        other < slots.len(),
    ensures
        within(
            slots[other as int],
            quick_moved(registry, slots, slot, targets).0[other as int],
            limit_at(registry, quick_moved(registry, slots, slot, targets).0, other),
        ),
{
    if let Some(stack) = slots[slot as int] {
        let limit = registry.stack_limit(stack.item_id);
        let start = Moving { slots, left: stack.count as int, changed: Seq::empty() };
        let n = targets.len();
        let topped = top_up_all(start, stack.item_id, limit, targets, n);
        lemma_topped_slots(start, stack.item_id, limit, targets, n, other as int);
        lemma_filled_slots(topped, stack.item_id, limit, targets, n, other as int);
    }
}

/// Whether two slots hold the same item.
pub open spec fn held_same(slots: Slots, one: usize, other: usize) -> bool {
    slots[one as int] matches Some(a) && slots[other as int] matches Some(b) && a.item_id
        == b.item_id
}

/// A quick move merges before it fills: an empty target takes something only where
/// every target that held the same item is full.
pub proof fn quick_moves_merge_first(
    registry: &ItemRegistry,
    slots: Slots,
    slot: usize,
    targets: Seq<usize>,
    filled: int,
    merged: int,
)
    requires
        slot < slots.len(),
        targets_in(targets, slots.len()),
        not_a_target(targets, slot as int),
        0 <= filled < targets.len(),
        0 <= merged < targets.len(),
        slots[targets[filled] as int] is None,
        quick_moved(registry, slots, slot, targets).0[targets[filled] as int] is Some,
        held_same(slots, slot, targets[merged]),
    ensures
        quick_moved(registry, slots, slot, targets).0[targets[merged] as int] matches Some(stack)
            && stack.item_id == slots[slot as int]->0.item_id && stack.count >= limit_at(
            registry,
            slots,
            slot,
        ),
{
    let stack = slots[slot as int]->0;
    let limit = registry.stack_limit(stack.item_id);
    let start = Moving { slots, left: stack.count as int, changed: Seq::empty() };
    let n = targets.len();
    let topped = top_up_all(start, stack.item_id, limit, targets, n);
    lemma_topping(start, stack.item_id, limit, targets, n);
    lemma_topped_slots(start, stack.item_id, limit, targets, n, targets[filled] as int);
    lemma_topped_slots(start, stack.item_id, limit, targets, n, targets[merged] as int);
    lemma_filled_slots(topped, stack.item_id, limit, targets, n, targets[filled] as int);
    lemma_filled_slots(topped, stack.item_id, limit, targets, n, targets[merged] as int);
}

/// A left click with the item that the slot holds merges: either nothing is left on
/// the cursor or the slot is full, and what fits goes over all at once.
pub proof fn left_clicks_merge(registry: &ItemRegistry, s: SlotItem, c: SlotItem)
    requires
        s.item_id == c.item_id,
    ensures
        ({
            let limit = registry.stack_limit(s.item_id);
            let (slot, cursor) = clicked(registry, Some(s), Some(c), 0);
            &&& slot matches Some(now) && now.item_id == s.item_id && (cursor is None || now.count
                >= limit)
            &&& cursor matches Some(rest) ==> rest.item_id == s.item_id && rest.count > 0
            &&& 0 < s.count && 0 < c.count && s.count + c.count <= limit ==> cursor is None
                && slot->0.count == s.count + c.count
            &&& 0 < s.count <= limit && 0 < c.count && s.count + c.count > limit
                ==> slot->0.count == limit && cursor is Some && cursor->0.count == s.count + c.count
                - limit
            &&& s.count >= limit && 0 < c.count ==> slot == Some(s) && cursor == Some(c)
        }),
{
}

/// A left click with an empty cursor, on an empty slot, or with another item than the
/// slot holds swaps the two.
pub proof fn left_clicks_swap(
    registry: &ItemRegistry,
    slot: Option<SlotItem>,
    carried: Option<SlotItem>,
)
    requires
        slot is None || carried is None || slot->0.item_id != carried->0.item_id,
    ensures
        clicked(registry, slot, carried, 0) == (carried, slot),
{
}

/// A right click with an empty cursor splits a stack: both parts are of its item, and
/// the cursor gets as many as stay, or one more.
pub proof fn right_clicks_split(registry: &ItemRegistry, s: SlotItem, button: i8)
    requires
        button != 0,
        0 < s.count,
    ensures
        ({
            let (slot, cursor) = clicked(registry, Some(s), None, button);
            let stays = held(slot, s.item_id);
            let taken = held(cursor, s.item_id);
            &&& stays + taken == s.count
            &&& stays <= taken <= stays + 1
            &&& slot is None <==> s.count == 1
            &&& slot matches Some(now) ==> now.item_id == s.item_id
            &&& cursor matches Some(now) && now.item_id == s.item_id
        }),
{
}

/// A right click with a loaded cursor puts one item down where the slot is empty or
/// holds the same item with room for more.
pub proof fn right_clicks_put_one_down(
    registry: &ItemRegistry,
    slot: Option<SlotItem>,
    c: SlotItem,
    button: i8,
)
    requires
        button != 0,
        0 < c.count,
        slot matches Some(s) ==> s.item_id == c.item_id && 0 <= s.count < registry.stack_limit(
            s.item_id,
        ),
    ensures
        ({
            let (now, cursor) = clicked(registry, slot, Some(c), button);
            &&& now matches Some(stack) && stack.item_id == c.item_id && stack.count == held(
                slot,
                c.item_id,
            ) + 1
            &&& c.count == 1 ==> cursor is None
            &&& c.count > 1 ==> cursor is Some && cursor->0.item_id == c.item_id && cursor->0.count
                == c.count - 1
        }),
{
}

/// A right click with a loaded cursor on another item, or on a full stack, swaps.
pub proof fn right_clicks_swap_otherwise(
    registry: &ItemRegistry,
    s: SlotItem,
    c: SlotItem,
    button: i8,
)
    requires
        button != 0,
        s.item_id != c.item_id || s.count >= registry.stack_limit(s.item_id),
    ensures
        clicked(registry, Some(s), Some(c), button) == (Some(c), Some(s)),
        clicked(registry, None, None, button) == (None::<SlotItem>, None::<SlotItem>),
{
}

/// In the player's own inventory a quick move goes from the main inventory to the
/// hotbar and back, first slots first, and from any other slot into both, last slots
/// first.
pub proof fn inventory_moves_between_bag_and_hotbar(slot: int, i: int, j: int, place: usize)
    requires
        0 <= slot < PLAYER_INVENTORY_SLOTS,
        0 <= i < j < inventory_targets(slot).len(),
    ensures
        ({
            let targets = inventory_targets(slot);
            let bag = 9 <= slot < 36;
            let hotbar = 36 <= slot < 45;
            &&& targets.contains(place) <==> {
                ||| bag && 36 <= place < 45
                ||| hotbar && 9 <= place < 36
                ||| !bag && !hotbar && 9 <= place < 45
            }
            &&& bag || hotbar ==> targets[i] < targets[j]
            &&& !bag && !hotbar ==> targets[i] > targets[j]
        }),
{
    let targets = inventory_targets(slot);
    if 9 <= slot < 36 {
        if 36 <= place < 45 {
            assert(targets[place - 36] == place);
        }
    } else if 36 <= slot < 45 {
        if 9 <= place < 36 {
            assert(targets[place - 9] == place);
        }
    } else if 9 <= place < 45 {
        assert(targets[44 - place] == place);
    }
}

/// A quick move out of the own slots of a menu goes into the player's slots behind
/// them, last slots first, in every kind of menu.
pub proof fn menus_empty_into_the_inventory(
    registry: &ItemRegistry,
    slots: Slots,
    slot: int,
    own: int,
    menu_type: i32,
    i: int,
    place: usize,
)
    requires
        0 <= slot < own <= slots.len() <= usize::MAX,
    ensures
        ({
            let targets = container_targets(registry, slots, slot, own, menu_type);
            &&& targets.contains(place) <==> own <= place < slots.len()
            &&& 0 <= i < targets.len() - 1 ==> targets[i] > targets[i + 1]
        }),
{
    let targets = container_targets(registry, slots, slot, own, menu_type);
    if own <= place < slots.len() {
        assert(targets[slots.len() - 1 - place] == place);
    }
}

/// A quick move out of the player's slots goes into the own slots of a menu, first
/// slots first, unless the menu is a furnace or a crafting table.
pub proof fn inventories_empty_into_the_menu(
    registry: &ItemRegistry,
    slots: Slots,
    slot: int,
    own: int,
    menu_type: i32,
    i: int,
    place: usize,
)
    requires
        0 <= own <= slot < slots.len() <= usize::MAX,
        !(own == 3 && (menu_type == 9 || menu_type == 13 || menu_type == 21)),
        !(own == 10 && menu_type == 11),
    ensures
        ({
            let targets = container_targets(registry, slots, slot, own, menu_type);
            &&& targets.contains(place) <==> place < own
            &&& 0 <= i < targets.len() - 1 ==> targets[i] < targets[i + 1]
        }),
{
    let targets = container_targets(registry, slots, slot, own, menu_type);
    if place < own {
        assert(targets[place as int] == place);
    }
}

/// A quick move out of the player's slots brings to a furnace what it smelts into its
/// first slot and what it burns into its second; what does neither changes between
/// the player's main inventory and hotbar.
pub proof fn furnaces_take_what_they_need(
    registry: &ItemRegistry,
    slots: Slots,
    slot: int,
    menu_type: i32,
    place: usize,
)
    requires
        menu_type == 9 || menu_type == 13 || menu_type == 21,
        3 <= slot < slots.len(),
        slots[slot] is Some,
    ensures
        ({
            let item_id = slots[slot]->0.item_id;
            let targets = container_targets(registry, slots, slot, 3, menu_type);
            &&& registry.smelts(item_id) ==> (targets.contains(place) <==> place == 0)
            &&& !registry.smelts(item_id) && registry.is_fuel(item_id) ==> (targets.contains(place)
                <==> place == 1)
            &&& !registry.smelts(item_id) && !registry.is_fuel(item_id) ==> (targets.contains(place)
                <==> if slot < 30 {
                30 <= place < 39
            } else {
                3 <= place < 30
            })
        }),
{
    let item_id = slots[slot]->0.item_id;
    let targets = container_targets(registry, slots, slot, 3, menu_type);
    assert(rising(0, 1)[0] == 0);
    assert(rising(1, 2)[0] == 1);
    if 30 <= place < 39 {
        assert(rising(30, 39)[place - 30] == place);
    }
    if 3 <= place < 30 {
        assert(rising(3, 30)[place - 3] == place);
    }
}

/// A quick move out of the player's slots at a crafting table changes between the main
/// inventory and the hotbar.
pub proof fn crafting_tables_are_left_alone(
    registry: &ItemRegistry,
    slots: Slots,
    slot: int,
    place: usize,
)
    requires
        10 <= slot < slots.len(),
    ensures
        container_targets(registry, slots, slot, 10, 11).contains(place) <==> if slot < 37 {
            37 <= place < 46
        } else {
            10 <= place < 37
        },
{
    if 37 <= place < 46 {
        assert(rising(37, 46)[place - 37] == place);
    }
    if 10 <= place < 37 {
        assert(rising(10, 37)[place - 10] == place);
    }
}

/// A stack that finds room is moved whole: where one target is empty and the limit
/// allows it, the slot is empty afterwards.
pub proof fn quick_moves_use_an_empty_slot(
    registry: &ItemRegistry,
    slots: Slots,
    slot: usize,
    targets: Seq<usize>,
    empty: int,
)
    requires
        slot < slots.len(),
        targets_in(targets, slots.len()),
        not_a_target(targets, slot as int),
        slots[slot as int] matches Some(stack) && 0 < stack.count <= registry.stack_limit(
            stack.item_id,
        ),
        0 <= empty < targets.len(),
        slots[targets[empty] as int] is None,
    ensures
        quick_moved(registry, slots, slot, targets).0[slot as int] is None,
        total(quick_moved(registry, slots, slot, targets).0, slots[slot as int]->0.item_id)
            == total(slots, slots[slot as int]->0.item_id),
{
    let stack = slots[slot as int]->0;
    let limit = registry.stack_limit(stack.item_id);
    let start = Moving { slots, left: stack.count as int, changed: Seq::empty() };
    let n = targets.len();
    let topped = top_up_all(start, stack.item_id, limit, targets, n);
    let filled = fill_all(topped, stack.item_id, limit, targets, n);
    let e = targets[empty] as int;
    quick_move_conserves_items(registry, slots, slot, targets, stack.item_id);
    lemma_topped_slots(start, stack.item_id, limit, targets, n, e);
    lemma_filling_takes_all(topped, stack.item_id, limit, targets, n, empty);
    lemma_filled_slots(topped, stack.item_id, limit, targets, n, e);
}

proof fn lemma_filling_takes_all(
    m: Moving,
    item_id: i32,
    limit: int,
    targets: Seq<usize>,
    n: nat,
    empty: int,
)
    requires
        n <= targets.len(),
        0 < limit <= 127,
        m.left <= limit,
        targets_in(targets, m.slots.len()),
        0 <= empty < targets.len(),
        m.slots[targets[empty] as int] is None,
    ensures
        fill_all(m, item_id, limit, targets, n).left <= m.left,
        fill_all(m, item_id, limit, targets, n).slots.len() == m.slots.len(),
        fill_all(m, item_id, limit, targets, n).left <= 0 || (empty >= n && fill_all(
            m,
            item_id,
            limit,
            targets,
            n,
        ).slots[targets[empty] as int] is None),
    decreases n,
{
    if n > 0 {
        lemma_filling_takes_all(m, item_id, limit, targets, (n - 1) as nat, empty);
        assert(targets[n - 1] < m.slots.len());
    }
}

} // verus!
