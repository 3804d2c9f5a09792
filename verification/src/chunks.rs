//! Chunk coordinates, the queue of chunks to mesh, and block faces.

use vstd::prelude::*;

use crate::table::{self, KeySet};
use crate::wire::{self, BlockPos, Reader};

verus! {

/// The chunk coordinate of a block coordinate.
pub open spec fn chunk_coord(v: int) -> int {
    v / 16
}

pub fn chunk_of(v: i32) -> (r: i32)
    ensures
        r == chunk_coord(v as int),
{
    if v >= 0 {
        v / 16
    } else {
        -((-(v + 1)) / 16) - 1
    }
}

/// A chunk and the four that share a side with it.
pub open spec fn neighborhood(cx: i32, cz: i32) -> Set<(i32, i32)> {
    set![
        (cx, cz),
        ((cx + 1) as i32, cz),
        ((cx - 1) as i32, cz),
        (cx, (cz + 1) as i32),
        (cx, (cz - 1) as i32),
    ]
}

/// The chunks whose meshes are out of date, each once, the oldest first.
#[derive(Debug)]
pub struct DirtyChunks {
    pub pending: KeySet<(i32, i32)>,
}

impl View for DirtyChunks {
    type V = Set<(i32, i32)>;

    open spec fn view(&self) -> Set<(i32, i32)> {
        self.pending@
    }
}

impl DirtyChunks {
    pub open spec fn wf(&self) -> bool {
        self.pending.wf()
    }

    pub fn new() -> (r: Self)
        ensures
            r.wf(),
            r@ == Set::<(i32, i32)>::empty(),
    {
        DirtyChunks { pending: KeySet::new() }
    }

    /// Marks a chunk and the four that share a side with it.
    pub fn mark_neighborhood(&mut self, cx: i32, cz: i32)
        requires
            old(self).wf(),
            i32::MIN < cx < i32::MAX,
            i32::MIN < cz < i32::MAX,
        ensures
            final(self).wf(),
            final(self)@ == old(self)@.union(neighborhood(cx, cz)),
    {
        self.pending.insert((cx, cz));
        self.pending.insert((cx + 1, cz));
        self.pending.insert((cx - 1, cz));
        self.pending.insert((cx, cz + 1));
        self.pending.insert((cx, cz - 1));
        proof {
            assert(self@ =~= old(self)@.union(neighborhood(cx, cz)));
        }
    }

    pub fn extend(&mut self, chunks: &Vec<(i32, i32)>)
        requires
            old(self).wf(),
        ensures
            final(self).wf(),
            final(self)@ == old(self)@.union(chunks@.to_set()),
    {
        let ghost before = self@;
        let mut i: usize = 0;
        proof {
            assert(before =~= before.union(chunks@.take(0).to_set()));
        }
        while i < chunks.len()
            invariant
                i <= chunks@.len(),
                self.wf(),
                self@ == before.union(chunks@.take(i as int).to_set()),
            decreases chunks@.len() - i,
        {
            let ghost seen = self@;
            self.pending.insert(chunks[i]);
            proof {
                let part = chunks@.take(i as int);
                let longer = chunks@.take(i + 1);
                assert(longer =~= part.push(chunks@[i as int]));
                assert forall|c: (i32, i32)| longer.to_set().contains(c) <==> (
                part.to_set().contains(c) || c == chunks@[i as int]) by {
                    if part.contains(c) {
                        let k = choose|k: int| 0 <= k < part.len() && part[k] == c;
                        assert(longer[k] == c);
                    }
                    assert(longer[i as int] == chunks@[i as int]);
                }
                assert(self@ =~= before.union(longer.to_set()));
            }
            i = i + 1;
        }
        proof {
            assert(chunks@.take(i as int) =~= chunks@);
        }
    }

    /// Takes out up to `max` chunks, the oldest first.
    pub fn take_batch(&mut self, max: usize) -> (batch: Vec<(i32, i32)>)
        requires
            old(self).wf(),
        ensures
            final(self).wf(),
            batch@.len() == if max <= old(self).pending.items@.len() {
                max as int
            } else {
                old(self).pending.items@.len() as int
            },
            batch@ == old(self).pending.items@.take(batch@.len() as int),
            final(self).pending.items@ == old(self).pending.items@.skip(batch@.len() as int),
            batch@.no_duplicates(),
            old(self)@ == final(self)@.union(batch@.to_set()),
            final(self)@.disjoint(batch@.to_set()),
    {
        let len: usize = self.pending.items.len();
        let n: usize = if max <= len {
            max
        } else {
            len
        };
        let ghost items = self.pending.items@;
        let mut batch: Vec<(i32, i32)> = Vec::new();
        let mut rest: Vec<(i32, i32)> = Vec::new();
        let mut i: usize = 0;
        while i < len
            invariant
                n <= len,
                len == items.len(),
                items == self.pending.items@,
                i <= len,
                batch@ == items.take(if i <= n { i as int } else { n as int }),
                rest@ == items.subrange(if i <= n { i as int } else { n as int }, i as int),
            decreases len - i,
        {
            let chunk: (i32, i32) = self.pending.items[i];
            if i < n {
                batch.push(chunk);
            } else {
                rest.push(chunk);
            }
            i = i + 1;
        }
        self.pending.items = rest;
        proof {
            let left = items.skip(n as int);
            assert(rest@ =~= left);
            assert(batch@ =~= items.take(n as int));
            assert forall|a: int, b: int| 0 <= a < b < items.len() implies items[a] != items[b] by {
                assert(table::distinct(items));
            }
            assert(self.wf()) by {
                assert forall|a: int, b: int| 0 <= a < b < left.len() implies left[a] != left[b] by {
                    assert(left[a] == items[a + n] && left[b] == items[b + n]);
                }
            }
            let now = self@;
            let was = old(self)@;
            assert forall|c: (i32, i32)| was.contains(c) <==> (now.contains(c)
                || batch@.contains(c)) by {
                if table::among(items, c) {
                    let k = choose|k: int| 0 <= k < items.len() && items[k] == c;
                    if k < n {
                        assert(batch@[k] == c);
                    } else {
                        assert(left[k - n] == c);
                    }
                }
                if table::among(left, c) {
                    let k = choose|k: int| 0 <= k < left.len() && left[k] == c;
                    assert(items[k + n] == c);
                }
                if batch@.contains(c) {
                    let k = choose|k: int| 0 <= k < batch@.len() && batch@[k] == c;
                    assert(items[k] == c);
                }
            }
            assert(was =~= now.union(batch@.to_set()));
            assert forall|c: (i32, i32)| !(now.contains(c) && batch@.to_set().contains(c)) by {
                if table::among(left, c) && batch@.contains(c) {
                    let k = choose|k: int| 0 <= k < left.len() && left[k] == c;
                    let j = choose|j: int| 0 <= j < batch@.len() && batch@[j] == c;
                    assert(items[k + n] == items[j]);
                }
            }
        }
        batch
    }
}

/// Chunk meshes are neither lost nor made twice: a chunk that was marked comes
/// out of exactly one of two batches that empty the queue.
pub proof fn batches_take_each_chunk_once(
    items: Seq<(i32, i32)>,
    first: Seq<(i32, i32)>,
    second: Seq<(i32, i32)>,
    chunk: (i32, i32),
)
    requires
        table::distinct(items),
        items.contains(chunk),
        first.len() <= items.len(),
        first == items.take(first.len() as int),
        second == items.skip(first.len() as int),
    ensures
        first.contains(chunk) != second.contains(chunk),
{
    let k = choose|k: int| 0 <= k < items.len() && items[k] == chunk;
    let n = first.len() as int;
    if k < n {
        assert(first[k] == chunk);
        if second.contains(chunk) {
            let j = choose|j: int| 0 <= j < second.len() && second[j] == chunk;
            assert(items[j + n] == items[k]);
        }
    } else {
        assert(second[k - n] == chunk);
        if first.contains(chunk) {
            let j = choose|j: int| 0 <= j < first.len() && first[j] == chunk;
            assert(items[j] == items[k]);
        }
    }
}

/// The chunk that the server unloads.
pub open spec fn unloaded_chunk(body: Seq<u8>) -> Option<(i32, i32)> {
    match wire::take_i32(body) {
        (Some(cx), rest) => match wire::take_i32(rest).0 {
            Some(cz) => Some((cx, cz)),
            None => None,
        },
        (None, _) => None,
    }
}

pub fn decode_unload_chunk(body: &[u8]) -> (r: Option<(i32, i32)>)
    ensures
        r == unloaded_chunk(body@),
{
    let mut r = Reader::new(body);
    match r.i32() {
        Some(cx) => match r.i32() {
            Some(cz) => Some((cx, cz)),
            None => None,
        },
        None => None,
    }
}

/// The block that changed, and its new state.
pub open spec fn changed_block(body: Seq<u8>) -> Option<(BlockPos, i32)> {
    match wire::take_position(body) {
        (Some(position), rest) => match wire::take_varint(rest).0 {
            Some(state) => Some((position, state)),
            None => None,
        },
        (None, _) => None,
    }
}

pub fn decode_block_change(body: &[u8]) -> (r: Option<(BlockPos, i32)>)
    ensures
        r == changed_block(body@),
{
    let mut r = Reader::new(body);
    match r.position() {
        Some(position) => match r.varint() {
            Some(state) => Some((position, state)),
            None => None,
        },
        None => None,
    }
}

/// The number of a face, by its normal; a normal that is none counts as up.
pub open spec fn direction_of(x: i32, y: i32, z: i32) -> i32 {
    if (x, y, z) == (0i32, -1i32, 0i32) {
        0
    } else if (x, y, z) == (0i32, 0i32, -1i32) {
        2
    } else if (x, y, z) == (0i32, 0i32, 1i32) {
        3
    } else if (x, y, z) == (-1i32, 0i32, 0i32) {
        4
    } else if (x, y, z) == (1i32, 0i32, 0i32) {
        5
    } else {
        1
    }
}

/// Maps a face normal to the number of the direction (0 is down, 5 is east).
pub fn face_direction(face: [i32; 3]) -> (r: i32)
    ensures
        r == direction_of(face@[0], face@[1], face@[2]),
{
    let x: i32 = face[0];
    let y: i32 = face[1];
    let z: i32 = face[2];
    if x == 0 && y == -1 && z == 0 {
        0
    } else if x == 0 && y == 0 && z == -1 {
        2
    } else if x == 0 && y == 0 && z == 1 {
        3
    } else if x == -1 && y == 0 && z == 0 {
        4
    } else if x == 1 && y == 0 && z == 0 {
        5
    } else {
        1
    }
}

/// A chunk is sixteen blocks wide, on both sides of zero.
pub proof fn chunks_are_sixteen_wide(v: int)
    ensures
        16 * chunk_coord(v) <= v < 16 * chunk_coord(v) + 16,
{
}

/// A chunk that changed makes its own mesh out of date and those of the four that share
/// a side with it, and no others.
pub proof fn neighborhoods_are_crosses(cx: i32, cz: i32, x: i32, z: i32)
    requires
        i32::MIN < cx < i32::MAX,
        i32::MIN < cz < i32::MAX,
    ensures
        neighborhood(cx, cz).contains((x, z)) <==> {
            ||| x == cx && -1 <= z - cz <= 1
            ||| z == cz && -1 <= x - cx <= 1
        },
{
}

/// Faces are numbered in pairs: below and above, north and south, west and east, the one
/// towards the smaller coordinate first.
pub proof fn faces_are_numbered_in_pairs(x: i32, y: i32, z: i32)
    ensures
        x == 0 && z == 0 && y == -1 ==> direction_of(x, y, z) == 0,
        x == 0 && z == 0 && y == 1 ==> direction_of(x, y, z) == 1,
        x == 0 && y == 0 && (z == -1 || z == 1) ==> direction_of(x, y, z) == (5 + z) / 2,
        y == 0 && z == 0 && (x == -1 || x == 1) ==> direction_of(x, y, z) == (9 + x) / 2,
{
}

/// A chunk is unloaded by its x and its z, and a block changes at its position to its
/// state.
pub proof fn changes_name_their_place(
    body: Seq<u8>,
    x: i32,
    rest: Seq<u8>,
    z: i32,
    position: BlockPos,
    behind: Seq<u8>,
    state: i32,
)
    ensures
        wire::take_i32(body) == (Some(x), rest) && wire::take_i32(rest).0 == Some(z)
            ==> unloaded_chunk(body) == Some((x, z)),
        wire::take_position(body) == (Some(position), behind) && wire::take_varint(behind).0
            == Some(state) ==> changed_block(body) == Some((position, state)),
{
}

/// Chunks to draw are taken from the oldest on, as many as asked for, and the others wait
/// on; what is added waits too.
pub proof fn waiting_chunks_are_taken_in_order(
    chunks: &mut DirtyChunks,
    max: usize,
    batch: Vec<(i32, i32)>,
    i: int,
)
    requires
        old(chunks).wf(),
        call_ensures(DirtyChunks::take_batch, (chunks, max), batch),
        0 <= i < batch@.len(),
    ensures
        batch@[i] == old(chunks).pending.items@[i],
        batch@.len() <= max,
        batch@.len() < max ==> batch@.len() == old(chunks).pending.items@.len(),
        !final(chunks)@.contains(batch@[i]),
        old(chunks)@.contains(batch@[i]),
{
    assert(batch@.to_set().contains(batch@[i]));
}

} // verus!
