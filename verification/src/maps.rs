//! Maps that the player holds: their pixels and markers.

use vstd::prelude::*;

use crate::component::{self, read_text_component};
use crate::items::{ItemRegistry, SlotItem};
use crate::players;
use crate::protocol::ProtocolVersion;
use crate::table::Table;
use crate::wire::{self, Reader, Taken};

verus! {

/// A marker on a map.
#[derive(Debug)]
pub struct MapMarker {
    pub kind: i32,
    pub x: i8,
    pub z: i8,
    pub direction: u8,
    pub label: Option<String>,
}

pub struct MarkerModel {
    pub kind: i32,
    pub x: i8,
    pub z: i8,
    pub direction: u8,
    pub label: Option<Seq<char>>,
}

impl View for MapMarker {
    type V = MarkerModel;

    open spec fn view(&self) -> MarkerModel {
        MarkerModel {
            kind: self.kind,
            x: self.x,
            z: self.z,
            direction: self.direction,
            label: players::opt_view(self.label),
        }
    }
}

pub open spec fn marker_views(markers: Seq<MapMarker>) -> Seq<MarkerModel> {
    Seq::new(markers.len(), |i: int| markers[i]@)
}

/// The width and height of a map in pixels.
pub const MAP_SIDE: usize = 128;

pub const MAP_PIXELS: usize = 16384;

/// A map, its pixels row by row.
#[derive(Debug)]
pub struct MapState {
    pub scale: i8,
    pub locked: bool,
    pub colors: Vec<u8>,
    pub markers: Vec<MapMarker>,
}

pub struct MapModel {
    pub scale: i8,
    pub locked: bool,
    pub colors: Seq<u8>,
    pub markers: Seq<MarkerModel>,
}

impl View for MapState {
    type V = MapModel;

    open spec fn view(&self) -> MapModel {
        MapModel {
            scale: self.scale,
            locked: self.locked,
            colors: self.colors@,
            markers: marker_views(self.markers@),
        }
    }
}

/// A map without colours and markers.
pub open spec fn blank_map() -> MapModel {
    MapModel {
        scale: 0,
        locked: false,
        colors: Seq::new(MAP_PIXELS as nat, |i: int| 0u8),
        markers: Seq::empty(),
    }
}

impl Default for MapState {
    fn default() -> (r: MapState)
        ensures
            r@ == blank_map(),
    {
        let mut colors: Vec<u8> = Vec::new();
        while colors.len() < MAP_PIXELS
            invariant
                colors@.len() <= MAP_PIXELS,
                forall|i: int| 0 <= i < colors@.len() ==> #[trigger] colors@[i] == 0,
            decreases MAP_PIXELS - colors@.len(),
        {
            colors.push(0);
        }
        let r = MapState { scale: 0, locked: false, colors, markers: Vec::new() };
        proof {
            assert(r@.colors =~= blank_map().colors);
            assert(r@.markers =~= blank_map().markers);
        }
        r
    }
}

/// The most markers that one packet may carry.
pub const MAX_MARKERS: i32 = 4096;

pub open spec fn take_label(s: Seq<u8>, protocol: ProtocolVersion) -> Taken<Option<Seq<char>>> {
    match wire::take_bool(s) {
        (Some(labelled), rest) => if labelled {
            match component::take_component(rest, protocol) {
                (Some(text), rest) => (Some(Some(text)), rest),
                (None, rest) => (None, rest),
            }
        } else {
            (Some(None), rest)
        },
        (None, rest) => (None, rest),
    }
}

pub open spec fn take_marker(s: Seq<u8>, protocol: ProtocolVersion) -> Taken<MarkerModel> {
    match wire::take_varint(s) {
        (Some(kind), rest) => match wire::take_i8(rest) {
            (Some(x), rest) => match wire::take_i8(rest) {
                (Some(z), rest) => match wire::take_u8(rest) {
                    (Some(direction), rest) => match take_label(rest, protocol) {
                        (Some(label), rest) => (
                            Some(MarkerModel { kind, x, z, direction, label }),
                            rest,
                        ),
                        (None, rest) => (None, rest),
                    },
                    (None, rest) => (None, rest),
                },
                (None, rest) => (None, rest),
            },
            (None, rest) => (None, rest),
        },
        (None, rest) => (None, rest),
    }
}

/// `n` more markers behind those in `acc`.
pub open spec fn take_markers(
    s: Seq<u8>,
    n: nat,
    protocol: ProtocolVersion,
    acc: Seq<MarkerModel>,
) -> Taken<Seq<MarkerModel>>
    decreases n,
{
    if n == 0 {
        (Some(acc), s)
    } else {
        match take_marker(s, protocol) {
            (Some(marker), rest) => take_markers(rest, (n - 1) as nat, protocol, acc.push(marker)),
            (None, rest) => (None, rest),
        }
    }
}

/// The markers of a packet, where it carries them.
pub open spec fn take_marker_list(s: Seq<u8>, protocol: ProtocolVersion) -> Taken<
    Option<Seq<MarkerModel>>,
> {
    match wire::take_bool(s) {
        (Some(present), rest) => if present {
            match wire::take_varint(rest) {
                (Some(count), rest) => if 0 <= count <= MAX_MARKERS {
                    match take_markers(rest, count as nat, protocol, Seq::empty()) {
                        (Some(markers), rest) => (Some(Some(markers)), rest),
                        (None, rest) => (None, rest),
                    }
                } else {
                    (None, rest)
                },
                (None, rest) => (None, rest),
            }
        } else {
            (Some(None), rest)
        },
        (None, rest) => (None, rest),
    }
}

/// A rectangle of new pixels.
pub struct PatchModel {
    pub x: int,
    pub y: int,
    pub columns: int,
    pub rows: int,
    pub colors: Seq<u8>,
}

/// The new pixels of a packet, where it carries some: inside the map, and as
/// many as the rectangle has.
pub open spec fn take_patch(s: Seq<u8>) -> Option<Option<PatchModel>> {
    match wire::take_u8(s) {
        (Some(columns), rest) => if columns == 0 {
            Some(None)
        } else {
            match wire::take_u8(rest) {
                (Some(rows), rest) => match wire::take_u8(rest) {
                    (Some(x), rest) => match wire::take_u8(rest) {
                        (Some(y), rest) => match wire::take_varint(rest) {
                            (Some(len), rest) => if len < 0 {
                                None
                            } else {
                                match wire::take_bytes(rest, len as nat).0 {
                                    Some(colors) => if x + columns <= MAP_SIDE && y + rows
                                        <= MAP_SIDE && colors.len() == columns * rows {
                                        Some(
                                            Some(
                                                PatchModel {
                                                    x: x as int,
                                                    y: y as int,
                                                    columns: columns as int,
                                                    rows: rows as int,
                                                    colors,
                                                },
                                            ),
                                        )
                                    } else {
                                        None
                                    },
                                    None => None,
                                }
                            },
                            (None, _) => None,
                        },
                        (None, _) => None,
                    },
                    (None, _) => None,
                },
                (None, _) => None,
            }
        },
        (None, _) => None,
    }
}

/// What a packet says of a map.
pub struct MapUpdate {
    pub map_id: i32,
    pub scale: i8,
    pub locked: bool,
    pub markers: Option<Seq<MarkerModel>>,
    pub patch: Option<PatchModel>,
}

pub open spec fn map_update(body: Seq<u8>, protocol: ProtocolVersion) -> Option<MapUpdate> {
    match wire::take_varint(body) {
        (Some(map_id), rest) => match wire::take_i8(rest) {
            (Some(scale), rest) => match wire::take_bool(rest) {
                (Some(locked), rest) => match take_marker_list(rest, protocol) {
                    (Some(markers), rest) => match take_patch(rest) {
                        Some(patch) => Some(
                            MapUpdate { map_id, scale, locked, markers, patch },
                        ),
                        None => None,
                    },
                    (None, _) => None,
                },
                (None, _) => None,
            },
            (None, _) => None,
        },
        (None, _) => None,
    }
}

/// Whether a pixel lies in a patch.
pub open spec fn in_patch(patch: PatchModel, pixel: int) -> bool {
    &&& patch.x <= pixel % 128 < patch.x + patch.columns
    &&& patch.y <= pixel / 128 < patch.y + patch.rows
}

/// The pixels with a patch laid over them.
pub open spec fn patched(colors: Seq<u8>, patch: PatchModel) -> Seq<u8> {
    Seq::new(
        colors.len(),
        |i: int|
            if in_patch(patch, i) {
                patch.colors[(i / 128 - patch.y) * patch.columns + (i % 128 - patch.x)]
            } else {
                colors[i]
            },
    )
}

/// A map after an update.
pub open spec fn map_after(map: MapModel, update: MapUpdate) -> MapModel {
    MapModel {
        scale: update.scale,
        locked: update.locked,
        colors: match update.patch {
            Some(patch) => patched(map.colors, patch),
            None => map.colors,
        },
        markers: match update.markers {
            Some(markers) => markers,
            None => map.markers,
        },
    }
}

/// The maps after a packet about one; a malformed one is ignored.
pub open spec fn maps_after(
    maps: Map<i32, MapModel>,
    body: Seq<u8>,
    protocol: ProtocolVersion,
) -> Map<i32, MapModel> {
    match map_update(body, protocol) {
        Some(update) => {
            let map = if maps.dom().contains(update.map_id) {
                maps[update.map_id]
            } else {
                blank_map()
            };
            maps.insert(update.map_id, map_after(map, update))
        },
        None => maps,
    }
}

/// The maps that were seen, and the one that changed last.
#[derive(Debug)]
pub struct Maps {
    pub maps: Table<i32, MapState>,
    pub latest: Option<i32>,
}

fn read_label(r: &mut Reader, protocol: ProtocolVersion) -> (v: Option<Option<String>>)
    ensures
        match take_label(old(r)@, protocol) {
            (Some(label), rest) => v matches Some(got) && players::opt_view(got) == label && final(r)@ == rest,
            (None, rest) => v is None && final(r)@ == rest,
        },
{
    match r.bool() {
        Some(labelled) => {
            if labelled {
                match read_text_component(r, protocol) {
                    Some(text) => Some(Some(text)),
                    None => None,
                }
            } else {
                Some(None)
            }
        },
        None => None,
    }
}

fn read_marker(r: &mut Reader, protocol: ProtocolVersion) -> (v: Option<MapMarker>)
    ensures
        match take_marker(old(r)@, protocol) {
            (Some(model), rest) => v matches Some(marker) && marker@ == model && final(r)@ == rest,
            (None, rest) => v is None && final(r)@ == rest,
        },
{
    let kind: i32 = match r.varint() {
        Some(v) => v,
        None => return None,
    };
    let x: i8 = match r.i8() {
        Some(v) => v,
        None => return None,
    };
    let z: i8 = match r.i8() {
        Some(v) => v,
        None => return None,
    };
    let direction: u8 = match r.u8() {
        Some(v) => v,
        None => return None,
    };
    match read_label(r, protocol) {
        Some(label) => Some(MapMarker { kind, x, z, direction, label }),
        None => None,
    }
}

pub open spec fn list_view(markers: Option<Vec<MapMarker>>) -> Option<Seq<MarkerModel>> {
    match markers {
        Some(markers) => Some(marker_views(markers@)),
        None => None,
    }
}

fn read_marker_list(r: &mut Reader, protocol: ProtocolVersion) -> (v: Option<
    Option<Vec<MapMarker>>,
>)
    ensures
        match take_marker_list(old(r)@, protocol) {
            (Some(models), rest) => v matches Some(markers) && list_view(markers) == models
                && final(r)@ == rest,
            (None, rest) => v is None && final(r)@ == rest,
        },
{
    match r.bool() {
        Some(present) => {
            if !present {
                return Some(None);
            }
        },
        None => return None,
    }
    let count: i32 = match r.varint() {
        Some(count) => count,
        None => return None,
    };
    if count < 0 || count > MAX_MARKERS {
        return None;
    }
    let ghost start = r@;
    let mut out: Vec<MapMarker> = Vec::new();
    let mut left: i32 = count;
    proof {
        assert(marker_views(out@) =~= Seq::empty());
    }
    while left > 0
        invariant
            0 <= left <= count <= MAX_MARKERS,
            take_marker_list(old(r)@, protocol) == (match take_markers(
                start,
                count as nat,
                protocol,
                Seq::empty(),
            ) {
                (Some(markers), rest) => (Some(Some(markers)), rest),
                (None, rest) => (None, rest),
            }),
            take_markers(start, count as nat, protocol, Seq::empty()) == take_markers(
                r@,
                left as nat,
                protocol,
                marker_views(out@),
            ),
        decreases left,
    {
        match read_marker(r, protocol) {
            Some(marker) => {
                let ghost before = out@;
                out.push(marker);
                proof {
                    assert(marker_views(out@) =~= marker_views(before).push(marker@));
                }
            },
            None => return None,
        }
        left = left - 1;
    }
    Some(Some(out))
}

struct Patch {
    x: usize,
    y: usize,
    columns: usize,
    rows: usize,
    colors: Vec<u8>,
}

impl Patch {
    spec fn model(&self) -> PatchModel {
        PatchModel {
            x: self.x as int,
            y: self.y as int,
            columns: self.columns as int,
            rows: self.rows as int,
            colors: self.colors@,
        }
    }

    spec fn fits(&self) -> bool {
        &&& self.x + self.columns <= MAP_SIDE
        &&& self.y + self.rows <= MAP_SIDE
        &&& self.colors@.len() == self.columns * self.rows
    }
}

fn read_patch(r: &mut Reader) -> (v: Option<Option<Patch>>)
    ensures
        match take_patch(old(r)@) {
            Some(Some(model)) => v matches Some(Some(patch)) && patch.model() == model
                && patch.fits(),
            Some(None) => v matches Some(None),
            None => v is None,
        },
{
    let columns: u8 = match r.u8() {
        Some(v) => v,
        None => return None,
    };
    if columns == 0 {
        return Some(None);
    }
    let rows: u8 = match r.u8() {
        Some(v) => v,
        None => return None,
    };
    let x: u8 = match r.u8() {
        Some(v) => v,
        None => return None,
    };
    let y: u8 = match r.u8() {
        Some(v) => v,
        None => return None,
    };
    let len: i32 = match r.varint() {
        Some(v) => v,
        None => return None,
    };
    if len < 0 {
        return None;
    }
    let colors = match r.bytes(len as usize) {
        Some(v) => v,
        None => return None,
    };
    proof {
        assert(0 <= columns * rows <= 65025) by (nonlinear_arith)
            requires
                0 <= columns <= 255,
                0 <= rows <= 255,
        ;
    }
    let area: usize = columns as usize * rows as usize;
    if x as usize + columns as usize > MAP_SIDE || y as usize + rows as usize > MAP_SIDE
        || colors.len() != area {
        return None;
    }
    Some(
        Some(
            Patch {
                x: x as usize,
                y: y as usize,
                columns: columns as usize,
                rows: rows as usize,
                colors,
            },
        ),
    )
}

/// The pixels with the first `rows` rows of a patch laid over them, and of the
/// next row the first `columns` pixels.
spec fn partly(colors: Seq<u8>, patch: PatchModel, rows: int, columns: int, i: int) -> u8 {
    let row = i / 128 - patch.y;
    if in_patch(patch, i) && (row < rows || (row == rows && i % 128 - patch.x < columns)) {
        patch.colors[row * patch.columns + (i % 128 - patch.x)]
    } else {
        colors[i]
    }
}

fn apply_patch(colors: &mut Vec<u8>, patch: &Patch)
    requires
        old(colors)@.len() == MAP_PIXELS,
        patch.fits(),
    ensures
        final(colors)@ == patched(old(colors)@, patch.model()),
{
    let ghost start = colors@;
    let ghost model = patch.model();
    let mut row: usize = 0;
    while row < patch.rows
        invariant
            row <= patch.rows,
            patch.fits(),
            model == patch.model(),
            start.len() == MAP_PIXELS,
            colors@.len() == MAP_PIXELS,
            forall|i: int|
                0 <= i < MAP_PIXELS ==> #[trigger] colors@[i] == partly(
                    start,
                    model,
                    row as int,
                    0,
                    i,
                ),
        decreases patch.rows - row,
    {
        let mut column: usize = 0;
        while column < patch.columns
            invariant
                row < patch.rows,
                column <= patch.columns,
                patch.fits(),
                model == patch.model(),
                start.len() == MAP_PIXELS,
                colors@.len() == MAP_PIXELS,
                forall|i: int|
                    0 <= i < MAP_PIXELS ==> #[trigger] colors@[i] == partly(
                        start,
                        model,
                        row as int,
                        column as int,
                        i,
                    ),
            decreases patch.columns - column,
        {
            proof {
                assert(0 <= row * patch.columns + column < patch.columns * patch.rows)
                    by (nonlinear_arith)
                    requires
                        0 <= row < patch.rows,
                        0 <= column < patch.columns,
                ;
                assert(row * patch.columns <= 16384) by (nonlinear_arith)
                    requires
                        0 <= row <= 128,
                        0 <= patch.columns <= 128,
                ;
            }
            let from: usize = row * patch.columns + column;
            let to: usize = (patch.y + row) * 128 + patch.x + column;
            let ghost before = colors@;
            colors[to] = patch.colors[from];
            proof {
                assert(to as int / 128 == patch.y + row);
                assert(to as int % 128 == patch.x + column);
                assert forall|i: int| 0 <= i < MAP_PIXELS implies #[trigger] colors@[i] == partly(
                    start,
                    model,
                    row as int,
                    column + 1,
                    i,
                ) by {
                    assert(before[i] == partly(start, model, row as int, column as int, i));
                    if i != to {
                        assert(!(i / 128 == patch.y + row && i % 128 == patch.x + column));
                    }
                }
            }
            column = column + 1;
        }
        proof {
            assert forall|i: int| 0 <= i < MAP_PIXELS implies #[trigger] colors@[i] == partly(
                start,
                model,
                row + 1,
                0,
                i,
            ) by {
                assert(colors@[i] == partly(start, model, row as int, column as int, i));
            }
        }
        row = row + 1;
    }
    proof {
        assert forall|i: int| 0 <= i < MAP_PIXELS implies #[trigger] colors@[i] == patched(
            start,
            model,
        )[i] by {
            assert(colors@[i] == partly(start, model, row as int, 0, i));
        }
        assert(colors@ =~= patched(start, model));
    }
}

impl Maps {
    /// Every map has all its pixels.
    pub open spec fn wf(&self) -> bool {
        &&& self.maps.wf()
        &&& forall|i: int|
            0 <= i < self.maps.values@.len() ==> (#[trigger] self.maps.values@[i]).colors@.len()
                == MAP_PIXELS
    }

    pub fn new() -> (r: Self)
        ensures
            r.wf(),
            r.maps@ == Map::<i32, MapModel>::empty(),
            r.latest is None,
    {
        Maps { maps: Table::new(), latest: None }
    }

    /// The server sent pixels or markers of a map. A malformed packet is
    /// ignored.
    pub fn handle_map_data(&mut self, body: &[u8], protocol: ProtocolVersion)
        requires
            old(self).wf(),
        ensures
            final(self).wf(),
            final(self).maps@ == maps_after(old(self).maps@, body@, protocol),
            final(self).latest == (match map_update(body@, protocol) {
                Some(update) => Some(update.map_id),
                None => old(self).latest,
            }),
    {
        let mut r = Reader::new(body);
        let map_id: i32 = match r.varint() {
            Some(v) => v,
            None => return ,
        };
        let scale: i8 = match r.i8() {
            Some(v) => v,
            None => return ,
        };
        let locked: bool = match r.bool() {
            Some(v) => v,
            None => return ,
        };
        let markers = match read_marker_list(&mut r, protocol) {
            Some(v) => v,
            None => return ,
        };
        let patch = match read_patch(&mut r) {
            Some(v) => v,
            None => return ,
        };
        let ghost before = self.maps@;
        let ghost update = map_update(body@, protocol)->0;
        let mut map = match self.maps.remove(&map_id) {
            Some(map) => map,
            None => {
                proof {
                    assert(before.remove(map_id) =~= before);
                }
                MapState::default()
            },
        };
        let ghost model = map@;
        map.scale = scale;
        map.locked = locked;
        match markers {
            Some(markers) => {
                map.markers = markers;
            },
            None => {},
        }
        match patch {
            Some(patch) => apply_patch(&mut map.colors, &patch),
            None => {},
        }
        proof {
            assert(map@ == map_after(model, update));
        }
        self.maps.insert(map_id, map);
        proof {
            assert(self.maps@ =~= before.insert(map_id, map_after(model, update)));
        }
        self.latest = Some(map_id);
    }
}

/// A patch changes exactly the pixels of its rectangle.
pub proof fn patches_stay_inside(colors: Seq<u8>, patch: PatchModel, i: int)
    requires
        colors.len() == MAP_PIXELS,
        0 <= i < MAP_PIXELS,
        !in_patch(patch, i),
    ensures
        patched(colors, patch)[i] == colors[i],
        patched(colors, patch).len() == MAP_PIXELS,
{
}

/// Laying the same patch twice is laying it once.
pub proof fn patches_settle(colors: Seq<u8>, patch: PatchModel)
    ensures
        patched(patched(colors, patch), patch) == patched(colors, patch),
{
    assert(patched(patched(colors, patch), patch) =~= patched(colors, patch));
}

/// A run of equal pixels in a row: from one column up to another.
#[derive(Clone, Copy, Debug, PartialEq, Eq, Structural)]
pub struct PixelRun {
    pub start: usize,
    pub end: usize,
    pub color: u8,
}

/// Runs that cover a row from its first pixel up to `end` without gaps, each
/// as long as it can be.
pub open spec fn covers(runs: Seq<PixelRun>, colors: Seq<u8>, row: int, end: int) -> bool {
    &&& runs.len() == 0 ==> end == 0
    &&& runs.len() > 0 ==> runs[0].start == 0 && runs.last().end == end
    &&& forall|k: int|
        #![trigger runs[k]]
        0 <= k < runs.len() ==> runs[k].start < runs[k].end <= MAP_SIDE && (forall|c: int|
            runs[k].start <= c < runs[k].end ==> #[trigger] colors[row * 128 + c] == runs[k].color)
    &&& forall|k: int|
        #![trigger runs[k]]
        0 < k < runs.len() ==> runs[k].start == runs[k - 1].end && runs[k].color != runs[k - 1].color
}

/// The runs of equal pixels in a row.
pub fn pixel_runs(colors: &Vec<u8>, row: usize) -> (runs: Vec<PixelRun>)
    requires
        colors@.len() == MAP_PIXELS,
        row < MAP_SIDE,
    ensures
        covers(runs@, colors@, row as int, MAP_SIDE as int),
{
    let mut runs: Vec<PixelRun> = Vec::new();
    let mut column: usize = 0;
    while column < MAP_SIDE
        invariant
            colors@.len() == MAP_PIXELS,
            row < MAP_SIDE,
            column <= MAP_SIDE,
            covers(runs@, colors@, row as int, column as int),
            0 < column < MAP_SIDE ==> colors@[row * 128 + column] != runs@.last().color,
        decreases MAP_SIDE - column,
    {
        let color: u8 = colors[row * 128 + column];
        let mut end: usize = column + 1;
        while end < MAP_SIDE && colors[row * 128 + end] == color
            invariant
                colors@.len() == MAP_PIXELS,
                row < MAP_SIDE,
                column < end <= MAP_SIDE,
                forall|c: int| column <= c < end ==> #[trigger] colors@[row * 128 + c] == color,
            decreases MAP_SIDE - end,
        {
            end = end + 1;
        }
        runs.push(PixelRun { start: column, end, color });
        column = end;
    }
    runs
}

/// The base colours of a map, as red, green and blue bytes.
pub open spec fn base_colors() -> Seq<u32> {
    seq![
        0x000000u32, 0x7fb238, 0xf7e9a3, 0xc7c7c7, 0xff0000, 0xa0a0ff, 0xa7a7a7, 0x007c00,
        0xffffff, 0xa4a8b8, 0x976d4d, 0x707070, 0x4040ff, 0x8f7748, 0xfffcf5, 0xd87f33,
        0xb24cd8, 0x6699d8, 0xe5e533, 0x7fcc19, 0xf27fa5, 0x4c4c4c, 0x999999, 0x4c7f99,
        0x7f3fb2, 0x334cb2, 0x664c33, 0x667f33, 0x993333, 0x191919, 0xfaee4d, 0x5cdbd5,
        0x4a80ff, 0x00d93a, 0x815631, 0x700200,
    ]
}

/// The brightness of the four shades, out of 255.
pub open spec fn shade(n: int) -> u32 {
    if n == 0 {
        180
    } else if n == 1 {
        220
    } else if n == 2 {
        255
    } else {
        135
    }
}

/// The colour and brightness of an encoded pixel: nothing for an unexplored
/// one, a colour of its own for each number beyond the known ones.
pub open spec fn pixel_color(encoded: u8) -> Option<(u32, u32)> {
    if encoded == 0 {
        None
    } else {
        let index = encoded as int / 4;
        let color = if index < base_colors().len() {
            base_colors()[index]
        } else {
            0x404040u32 | (((index * 0x045d_9f3b) % 0x1_0000_0000) as u32 & 0xbfbfbf)
        };
        Some((color, shade(encoded as int % 4)))
    }
}

pub fn map_pixel_color(encoded: u8) -> (r: Option<(u32, u32)>)
    ensures
        r == pixel_color(encoded),
{
    if encoded == 0 {
        return None;
    }
    let base: [u32; 36] = [
        0x000000, 0x7fb238, 0xf7e9a3, 0xc7c7c7, 0xff0000, 0xa0a0ff, 0xa7a7a7, 0x007c00, 0xffffff,
        0xa4a8b8, 0x976d4d, 0x707070, 0x4040ff, 0x8f7748, 0xfffcf5, 0xd87f33, 0xb24cd8, 0x6699d8,
        0xe5e533, 0x7fcc19, 0xf27fa5, 0x4c4c4c, 0x999999, 0x4c7f99, 0x7f3fb2, 0x334cb2, 0x664c33,
        0x667f33, 0x993333, 0x191919, 0xfaee4d, 0x5cdbd5, 0x4a80ff, 0x00d93a, 0x815631, 0x700200,
    ];
    proof {
        assert(base@ =~= base_colors());
    }
    let index: usize = encoded as usize / 4;
    let color: u32 = if index < 36 {
        base[index]
    } else {
        let hue: u64 = (index as u64 * 0x045d_9f3b) % 0x1_0000_0000;
        0x404040u32 | (hue as u32 & 0xbfbfbf)
    };
    let step: u8 = encoded % 4;
    let brightness: u32 = if step == 0 {
        180
    } else if step == 1 {
        220
    } else if step == 2 {
        255
    } else {
        135
    };
    Some((color, brightness))
}

impl Maps {
    /// The map to draw: the one that changed last, while either hand holds a
    /// map.
    pub fn held_map(
        &self,
        registry: &ItemRegistry,
        inventory: &Vec<Option<SlotItem>>,
        selected: u8,
    ) -> (r: Option<&MapState>)
        requires
            self.wf(),
        ensures
            ({
                let holds = registry.slot_is(inventory@, 36 + selected, "filled_map"@)
                    || registry.slot_is(inventory@, 45, "filled_map"@);
                if holds && self.latest is Some && self.maps@.dom().contains(self.latest->0) {
                    r matches Some(map) && map@ == self.maps@[self.latest->0]
                } else {
                    r is None
                }
            }),
    {
        let holds: bool = registry.slot_holds(inventory, 36 + selected as usize, "filled_map")
            || registry.slot_holds(inventory, 45, "filled_map");
        if !holds {
            return None;
        }
        match self.latest {
            Some(id) => self.maps.get(&id),
            None => None,
        }
    }
}

/// A marker is its kind, its place from west to east and from north to south, its direction
/// and, behind a flag, its label.
pub proof fn markers_are_read_in_order(
    s: Seq<u8>,
    protocol: ProtocolVersion,
    kind: i32,
    r1: Seq<u8>,
    x: i8,
    r2: Seq<u8>,
    z: i8,
    r3: Seq<u8>,
    text: Seq<char>,
    rest: Seq<u8>,
)
    requires
        wire::take_varint(s) == (Some(kind), r1),
        wire::take_i8(r1) == (Some(x), r2),
        wire::take_i8(r2) == (Some(z), r3),
        r3.len() >= 2,
    ensures
        r3[1] == 0 ==> take_marker(s, protocol) == (
            Some(MarkerModel { kind, x, z, direction: r3[0], label: None }),
            r3.subrange(2, r3.len() as int),
        ),
        r3[1] != 0 && component::take_component(r3.subrange(2, r3.len() as int), protocol) == (
            Some(text),
            rest,
        ) ==> take_marker(s, protocol) == (
            Some(MarkerModel { kind, x, z, direction: r3[0], label: Some(text) }),
            rest,
        ),
{
    let n = r3.len() as int;
    assert(r3.subrange(1, n).subrange(1, n - 1) =~= r3.subrange(2, n));
}

/// Markers come one by one behind a flag and their number, which is 4096 at the most.
pub proof fn markers_are_counted(
    s: Seq<u8>,
    n: nat,
    protocol: ProtocolVersion,
    acc: Seq<MarkerModel>,
    marker: MarkerModel,
    rest: Seq<u8>,
    count: i32,
)
    ensures
        take_markers(s, 0, protocol, acc) == (Some(acc), s),
        take_marker(s, protocol) == (Some(marker), rest) ==> take_markers(s, n + 1, protocol, acc)
            == take_markers(rest, n, protocol, acc.push(marker)),
        s.len() > 0 && s[0] == 0 ==> take_marker_list(s, protocol) == (
            Some(None::<Seq<MarkerModel>>),
            s.subrange(1, s.len() as int),
        ),
        s.len() > 0 && s[0] != 0 && wire::take_varint(s.subrange(1, s.len() as int)) == (
            Some(count),
            rest,
        ) ==> {
            let markers = take_markers(rest, count as nat, protocol, Seq::empty());
            &&& 0 <= count <= 4096 && markers.0 is Some ==> take_marker_list(s, protocol) == (
                Some(markers.0),
                markers.1,
            )
            &&& count < 0 || count > 4096 ==> take_marker_list(s, protocol).0 is None
        },
{
}

/// A patch of pixels has its width, its height, its column and its row, in this order, and
/// then as many pixels as it covers; one that does not fit on the map is refused.
pub proof fn patches_are_read_in_order(s: Seq<u8>, len: i32, rest: Seq<u8>, colors: Seq<u8>)
    requires
        s.len() >= 4,
        wire::take_varint(s.subrange(4, s.len() as int)) == (Some(len), rest),
        len >= 0,
        wire::take_bytes(rest, len as nat).0 == Some(colors),
    ensures
        s[0] == 0 ==> take_patch(s) == Some(None::<PatchModel>),
        s[0] > 0 && s[2] + s[0] <= 128 && s[3] + s[1] <= 128 && colors.len() == s[0] * s[1]
            ==> take_patch(s) == Some(
            Some(
                PatchModel {
                    x: s[2] as int,
                    y: s[3] as int,
                    columns: s[0] as int,
                    rows: s[1] as int,
                    colors,
                },
            ),
        ),
        s[0] > 0 && (s[2] + s[0] > 128 || s[3] + s[1] > 128 || colors.len() != s[0] * s[1])
            ==> take_patch(s) is None,
{
    let n = s.len() as int;
    assert(s.subrange(1, n).subrange(1, n - 1) =~= s.subrange(2, n));
    assert(s.subrange(2, n).subrange(1, n - 2) =~= s.subrange(3, n));
    assert(s.subrange(3, n).subrange(1, n - 3) =~= s.subrange(4, n));
}

/// An update names its map and its scale, and whether the map is locked, before its markers
/// and its pixels.
pub proof fn updates_name_their_map(
    body: Seq<u8>,
    protocol: ProtocolVersion,
    map_id: i32,
    r1: Seq<u8>,
    scale: i8,
    r2: Seq<u8>,
    markers: Option<Seq<MarkerModel>>,
    r3: Seq<u8>,
    patch: Option<PatchModel>,
)
    requires
        wire::take_varint(body) == (Some(map_id), r1),
        wire::take_i8(r1) == (Some(scale), r2),
        r2.len() > 0,
        take_marker_list(r2.subrange(1, r2.len() as int), protocol) == (Some(markers), r3),
        take_patch(r3) == Some(patch),
    ensures
        map_update(body, protocol) == Some(
            MapUpdate { map_id, scale, locked: r2[0] != 0, markers, patch },
        ),
{
}

/// The pixel of a patch at a row and a column lands that far from the corner of the patch.
pub proof fn patches_land_at_their_corner(
    colors: Seq<u8>,
    patch: PatchModel,
    row: int,
    column: int,
)
    requires
        colors.len() == 16384,
        0 <= patch.x && patch.x + patch.columns <= 128,
        0 <= patch.y && patch.y + patch.rows <= 128,
        0 <= row < patch.rows,
        0 <= column < patch.columns,
    ensures
        patched(colors, patch)[(patch.y + row) * 128 + patch.x + column]
            == patch.colors[row * patch.columns + column],
{
    let i = (patch.y + row) * 128 + patch.x + column;
    assert(i / 128 == patch.y + row && i % 128 == patch.x + column);
}

/// An update sets the scale and the lock of its map, and replaces pixels and markers only
/// where it carries them; no other map changes.
pub proof fn updates_replace_what_they_carry(
    maps: Map<i32, MapModel>,
    body: Seq<u8>,
    protocol: ProtocolVersion,
    update: MapUpdate,
    other: i32,
)
    requires
        map_update(body, protocol) == Some(update),
    ensures
        ({
            let after = maps_after(maps, body, protocol);
            let id = update.map_id;
            &&& after.dom().contains(id)
            &&& after[id].scale == update.scale
            &&& after[id].locked == update.locked
            &&& update.markers matches Some(markers) ==> after[id].markers == markers
            &&& update.markers is None && maps.dom().contains(id) ==> after[id].markers
                == maps[id].markers
            &&& update.markers is None && !maps.dom().contains(id) ==> after[id].markers.len() == 0
            &&& update.patch is None && maps.dom().contains(id) ==> after[id].colors
                == maps[id].colors
            &&& update.patch is None && !maps.dom().contains(id) ==> forall|i: int|
                0 <= i < 16384 ==> after[id].colors[i] == 0
            &&& update.patch is Some && maps.dom().contains(id) ==> after[id].colors == patched(
                maps[id].colors,
                update.patch->0,
            )
            &&& other != id ==> (after.dom().contains(other) <==> maps.dom().contains(other))
                && after[other] == maps[other]
        }),
{
}

/// A pixel has one of four shades in its two low bits, the third the brightest and the last
/// the darkest, and its colour above them; unexplored pixels have none.
pub proof fn shades_are_in_the_low_bits(color: u8)
    requires
        1 <= color < 64,
    ensures
        ({
            let base = pixel_color((4 * color) as u8);
            &&& base is Some
            &&& base matches Some((rgb, light)) && light == 180
            &&& pixel_color((4 * color + 1) as u8) matches Some((rgb, light)) && light == 220 && (
            base matches Some((first, _)) && rgb == first)
            &&& pixel_color((4 * color + 2) as u8) matches Some((rgb, light)) && light == 255 && (
            base matches Some((first, _)) && rgb == first)
            &&& pixel_color((4 * color + 3) as u8) matches Some((rgb, light)) && light == 135 && (
            base matches Some((first, _)) && rgb == first)
        }),
        pixel_color(0) is None,
{
    let c = color as int;
    assert((4 * c) / 4 == c && (4 * c) % 4 == 0);
    assert((4 * c + 1) / 4 == c && (4 * c + 1) % 4 == 1);
    assert((4 * c + 2) / 4 == c && (4 * c + 2) % 4 == 2);
    assert((4 * c + 3) / 4 == c && (4 * c + 3) % 4 == 3);
}

/// The colours by number: grass, sand, wool, fire, ice, metal, plants, snow and on to the
/// dyes, terracotta and the nether.
pub proof fn grounds_have_their_colours(shade: u8, number: u8)
    requires
        shade < 4,
        number < 36,
    ensures
        pixel_color((4 * number + shade) as u8) matches Some((rgb, _)) ==> {
            &&& number == 0 ==> rgb == 0
            &&& number == 1 ==> rgb == 0x7fb238
            &&& number == 2 ==> rgb == 0xf7e9a3
            &&& number == 3 ==> rgb == 0xc7c7c7
            &&& number == 4 ==> rgb == 0xff0000
            &&& number == 5 ==> rgb == 0xa0a0ff
            &&& number == 6 ==> rgb == 0xa7a7a7
            &&& number == 7 ==> rgb == 0x007c00
            &&& number == 8 ==> rgb == 0xffffff
            &&& number == 9 ==> rgb == 0xa4a8b8
            &&& number == 10 ==> rgb == 0x976d4d
            &&& number == 11 ==> rgb == 0x707070
            &&& number == 12 ==> rgb == 0x4040ff
            &&& number == 13 ==> rgb == 0x8f7748
            &&& number == 14 ==> rgb == 0xfffcf5
            &&& number == 15 ==> rgb == 0xd87f33
            &&& number == 16 ==> rgb == 0xb24cd8
            &&& number == 17 ==> rgb == 0x6699d8
            &&& number == 18 ==> rgb == 0xe5e533
            &&& number == 19 ==> rgb == 0x7fcc19
            &&& number == 20 ==> rgb == 0xf27fa5
            &&& number == 21 ==> rgb == 0x4c4c4c
            &&& number == 22 ==> rgb == 0x999999
            &&& number == 23 ==> rgb == 0x4c7f99
            &&& number == 24 ==> rgb == 0x7f3fb2
            &&& number == 25 ==> rgb == 0x334cb2
            &&& number == 26 ==> rgb == 0x664c33
            &&& number == 27 ==> rgb == 0x667f33
            &&& number == 28 ==> rgb == 0x993333
            &&& number == 29 ==> rgb == 0x191919
            &&& number == 30 ==> rgb == 0xfaee4d
            &&& number == 31 ==> rgb == 0x5cdbd5
            &&& number == 32 ==> rgb == 0x4a80ff
            &&& number == 33 ==> rgb == 0x00d93a
            &&& number == 34 ==> rgb == 0x815631
            &&& number == 35 ==> rgb == 0x700200
        },
{
    assert((4 * number + shade) as u8 as int / 4 == number);
}

/// A map stands for its parts, its markers in order.
pub proof fn maps_stand_for_their_parts(map: MapState, marker: MapMarker, i: int)
    ensures
        map@.scale == map.scale,
        map@.locked == map.locked,
        map@.colors == map.colors@,
        map@.markers.len() == map.markers@.len(),
        0 <= i < map.markers@.len() ==> map@.markers[i] == map.markers@[i]@,
        marker@.kind == marker.kind,
        marker@.x == marker.x && marker@.z == marker.z,
        marker@.direction == marker.direction,
        marker.label matches Some(label) ==> marker@.label == Some(label@),
        marker.label is None ==> marker@.label is None,
{
}

/// The runs of a row give every one of its pixels its colour, and no two that meet have the
/// same.
pub proof fn runs_give_every_pixel_its_colour(
    runs: Seq<PixelRun>,
    colors: Seq<u8>,
    row: int,
    column: int,
    end: int,
)
    requires
        covers(runs, colors, row, end),
        0 <= column < end,
    ensures
        exists|k: int|
            0 <= k < runs.len() && (#[trigger] runs[k]).start <= column < runs[k].end
                && runs[k].color == colors[row * 128 + column],
        forall|k: int|
            0 < k < runs.len() ==> (#[trigger] runs[k]).color != runs[k - 1].color && runs[k].start
                == runs[k - 1].end,
{
    assert(runs.len() > 0);
    lemma_run_at(runs, colors, row, column, end, runs.len() - 1);
}

proof fn lemma_run_at(
    runs: Seq<PixelRun>,
    colors: Seq<u8>,
    row: int,
    column: int,
    end: int,
    last: int,
)
    requires
        covers(runs, colors, row, end),
        0 <= last < runs.len(),
        0 <= column < runs[last].end,
    ensures
        exists|k: int|
            0 <= k < runs.len() && (#[trigger] runs[k]).start <= column < runs[k].end
                && runs[k].color == colors[row * 128 + column],
    decreases last,
{
    if runs[last].start <= column {
        assert(runs[last].start <= column < runs[last].end);
        assert(colors[row * 128 + column] == runs[last].color);
    } else {
        assert(last > 0);
        assert(runs[last].start == runs[last - 1].end);
        lemma_run_at(runs, colors, row, column, end, last - 1);
    }
}

/// A packet that breaks off changes no map.
pub proof fn broken_packets_leave_maps(
    maps: Map<i32, MapModel>,
    body: Seq<u8>,
    protocol: ProtocolVersion,
    id: i32,
    rest: Seq<u8>,
)
    ensures
        map_update(body, protocol) is None ==> maps_after(maps, body, protocol) == maps,
        wire::take_varint(body).0 is None ==> map_update(body, protocol) is None,
        wire::take_varint(body) == (Some(id), rest) && rest.len() < 4 ==> map_update(
            body,
            protocol,
        ) is None,
{
    if wire::take_varint(body) == (Some(id), rest) && rest.len() < 4 {
        let n = rest.len() as int;
        if n >= 2 {
            assert(rest.subrange(1, n).subrange(1, n - 1) =~= rest.subrange(2, n));
        }
        if n == 3 {
            assert(rest.subrange(2, n).subrange(1, n - 2).len() == 0);
        }
    }
}

} // verus!
