//! Signs: the text of both their sides, by position.

use vstd::prelude::*;
use vstd::string::*;

use crate::chunks::{self, chunk_of};
use crate::component::{self, plain_text};
use crate::nbt::{self, read_anonymous_nbt, read_nbt, Nbt, NbtModel};
use crate::protocol::ProtocolVersion;
use crate::table::Table;
use crate::text;
use crate::wire::{self, BlockPos, Reader, Taken};

verus! {

/// The text of a sign. Both sides have four lines and can be written and lit
/// on their own.
#[derive(Debug)]
pub struct SignState {
    pub front: [String; 4],
    pub back: [String; 4],
    pub front_glowing: bool,
    pub back_glowing: bool,
}

#[verifier::ext_equal]
pub struct SignModel {
    pub front: Seq<Seq<char>>,
    pub back: Seq<Seq<char>>,
    pub front_glowing: bool,
    pub back_glowing: bool,
}

pub open spec fn lines(side: [String; 4]) -> Seq<Seq<char>> {
    seq![side@[0]@, side@[1]@, side@[2]@, side@[3]@]
}

impl View for SignState {
    type V = SignModel;

    open spec fn view(&self) -> SignModel {
        SignModel {
            front: lines(self.front),
            back: lines(self.back),
            front_glowing: self.front_glowing,
            back_glowing: self.back_glowing,
        }
    }
}

pub open spec fn blank() -> Seq<Seq<char>> {
    seq![Seq::empty(), Seq::empty(), Seq::empty(), Seq::empty()]
}

/// The text of the message at a place; one that is missing, or no text, is
/// empty.
pub open spec fn message(messages: Seq<NbtModel>, i: int) -> Seq<char> {
    if i < messages.len() {
        match messages[i] {
            NbtModel::String(json) => component::plain_json(json),
            _ => Seq::empty(),
        }
    } else {
        Seq::empty()
    }
}

/// The lines of a side and whether it glows, where the data describes that
/// side.
pub open spec fn side_of(data: NbtModel, key: Seq<char>) -> Option<(Seq<Seq<char>>, bool)> {
    match nbt::nbt_get(data, key) {
        Some(side) => match nbt::nbt_get(side, "messages"@) {
            Some(NbtModel::List(messages)) => Some(
                (
                    seq![
                        message(messages, 0),
                        message(messages, 1),
                        message(messages, 2),
                        message(messages, 3),
                    ],
                    match nbt::nbt_get(side, "has_glowing_text"@) {
                        Some(NbtModel::Byte(value)) => value != 0,
                        _ => false,
                    },
                ),
            ),
            _ => None,
        },
        None => None,
    }
}

/// A line in the form that older worlds hold.
pub open spec fn legacy_line(data: NbtModel, key: Seq<char>) -> Option<Seq<char>> {
    match nbt::nbt_get(data, key) {
        Some(NbtModel::String(json)) => Some(component::plain_json(json)),
        _ => None,
    }
}

pub open spec fn or_empty(line: Option<Seq<char>>) -> Seq<char> {
    match line {
        Some(line) => line,
        None => Seq::empty(),
    }
}

/// The sign that the data of a block entity describes, where it is one.
pub open spec fn sign_of(data: NbtModel) -> Option<SignModel> {
    match side_of(data, "front_text"@) {
        Some((front, front_glowing)) => {
            let (back, back_glowing) = match side_of(data, "back_text"@) {
                Some(side) => side,
                None => (blank(), false),
            };
            Some(SignModel { front, back, front_glowing, back_glowing })
        },
        None => {
            let first = legacy_line(data, "Text1"@);
            let second = legacy_line(data, "Text2"@);
            let third = legacy_line(data, "Text3"@);
            let fourth = legacy_line(data, "Text4"@);
            if first is Some || second is Some || third is Some || fourth is Some {
                Some(
                    SignModel {
                        front: seq![
                            or_empty(first),
                            or_empty(second),
                            or_empty(third),
                            or_empty(fourth),
                        ],
                        back: blank(),
                        front_glowing: false,
                        back_glowing: false,
                    },
                )
            } else {
                None
            }
        },
    }
}

fn message_at(messages: &Vec<Nbt>, i: usize) -> (r: String)
    ensures
        r@ == message(nbt::nbt_models(messages@), i as int),
{
    proof {
        nbt::lemma_nbt_models(messages@);
    }
    if i < messages.len() {
        match &messages[i] {
            Nbt::String(json) => plain_text(json.as_str()),
            _ => String::new(),
        }
    } else {
        String::new()
    }
}

fn read_side(data: &Nbt, key: &str) -> (r: Option<([String; 4], bool)>)
    ensures
        match side_of(nbt::nbt_model(*data), key@) {
            Some((want, glowing)) => r matches Some(got) && lines(got.0) == want && got.1
                == glowing,
            None => r is None,
        },
{
    let side = match data.get(key) {
        Some(side) => side,
        None => return None,
    };
    match side.get("messages") {
        Some(Nbt::List(messages)) => {
            let glowing: bool = match side.get("has_glowing_text") {
                Some(Nbt::Byte(value)) => *value != 0,
                _ => false,
            };
            let first = message_at(messages, 0);
            let second = message_at(messages, 1);
            let third = message_at(messages, 2);
            let fourth = message_at(messages, 3);
            Some(([first, second, third, fourth], glowing))
        },
        _ => None,
    }
}

fn read_legacy_line(data: &Nbt, key: &str) -> (r: Option<String>)
    ensures
        match legacy_line(nbt::nbt_model(*data), key@) {
            Some(want) => r matches Some(got) && got@ == want,
            None => r is None,
        },
{
    match data.get(key) {
        Some(Nbt::String(json)) => Some(plain_text(json.as_str())),
        _ => None,
    }
}

fn line_or_empty(line: Option<String>) -> (r: String)
    ensures
        r@ == match line {
            Some(line) => line@,
            None => Seq::empty(),
        },
{
    match line {
        Some(line) => line,
        None => String::new(),
    }
}

pub fn sign_from_nbt(data: &Nbt) -> (r: Option<SignState>)
    ensures
        match sign_of(nbt::nbt_model(*data)) {
            Some(want) => r matches Some(got) && got@ == want,
            None => r is None,
        },
{
    match read_side(data, "front_text") {
        Some((front, front_glowing)) => {
            let (back, back_glowing) = match read_side(data, "back_text") {
                Some(side) => side,
                None => ([String::new(), String::new(), String::new(), String::new()], false),
            };
            Some(SignState { front, back, front_glowing, back_glowing })
        },
        None => {
            let first = read_legacy_line(data, "Text1");
            let second = read_legacy_line(data, "Text2");
            let third = read_legacy_line(data, "Text3");
            let fourth = read_legacy_line(data, "Text4");
            if first.is_some() || second.is_some() || third.is_some() || fourth.is_some() {
                let first = line_or_empty(first);
                let second = line_or_empty(second);
                let third = line_or_empty(third);
                let fourth = line_or_empty(fourth);
                Some(
                    SignState {
                        front: [first, second, third, fourth],
                        back: [String::new(), String::new(), String::new(), String::new()],
                        front_glowing: false,
                        back_glowing: false,
                    },
                )
            } else {
                None
            }
        },
    }
}

/// The most characters of a line that are drawn.
pub const SHOWN_CHARS: usize = 90;

pub open spec fn shortened(line: Seq<char>) -> Seq<char> {
    if line.len() <= SHOWN_CHARS {
        line
    } else {
        line.take(SHOWN_CHARS as int)
    }
}

/// The side to draw: the front, or the back where nothing stands on the front.
pub open spec fn shown_side(sign: SignModel) -> Seq<Seq<char>> {
    if exists|i: int| 0 <= i < 4 && (#[trigger] sign.front[i]).len() > 0 {
        sign.front
    } else {
        sign.back
    }
}

fn shorten(line: &str) -> (r: String)
    ensures
        r@ == shortened(line@),
{
    if line.unicode_len() <= SHOWN_CHARS {
        line.to_owned()
    } else {
        let r = line.substring_char(0, SHOWN_CHARS).to_owned();
        proof {
            assert(line@.subrange(0, SHOWN_CHARS as int) =~= line@.take(SHOWN_CHARS as int));
        }
        r
    }
}

impl SignState {
    /// The four lines to draw.
    pub fn shown_lines(&self) -> (r: [String; 4])
        ensures
            lines(r) == shown_side(self@).map_values(|line: Seq<char>| shortened(line)),
    {
        let front: bool = !self.front[0].as_str().is_empty() || !self.front[1].as_str().is_empty()
            || !self.front[2].as_str().is_empty() || !self.front[3].as_str().is_empty();
        proof {
            assert(self@.front[0] == self.front@[0]@);
            assert(self@.front[1] == self.front@[1]@);
            assert(self@.front[2] == self.front@[2]@);
            assert(self@.front[3] == self.front@[3]@);
            if exists|i: int| 0 <= i < 4 && (#[trigger] self@.front[i]).len() > 0 {
                let i = choose|i: int| 0 <= i < 4 && (#[trigger] self@.front[i]).len() > 0;
                assert(i == 0 || i == 1 || i == 2 || i == 3);
            }
            assert(front == exists|i: int| 0 <= i < 4 && (#[trigger] self@.front[i]).len() > 0);
        }
        let side = if front {
            &self.front
        } else {
            &self.back
        };
        let first = shorten(side[0].as_str());
        let second = shorten(side[1].as_str());
        let third = shorten(side[2].as_str());
        let fourth = shorten(side[3].as_str());
        let r = [first, second, third, fourth];
        proof {
            assert(lines(r) =~= shown_side(self@).map_values(|line: Seq<char>| shortened(line)));
        }
        r
    }
}

/// The data of a block entity; only the oldest version names its root.
pub open spec fn take_data(s: Seq<u8>, protocol: ProtocolVersion) -> Taken<NbtModel> {
    if protocol == ProtocolVersion::V1_20_1 {
        nbt::take_named_nbt(s)
    } else {
        nbt::take_anonymous_nbt(s)
    }
}

fn read_data(r: &mut Reader, protocol: ProtocolVersion) -> (v: Option<Nbt>)
    ensures
        nbt::read_as(take_data(old(r)@, protocol), v, final(r)@),
{
    if protocol == ProtocolVersion::V1_20_1 {
        read_nbt(r)
    } else {
        read_anonymous_nbt(r)
    }
}

/// A sign and its position.
pub struct PositionedSign {
    pub position: BlockPos,
    pub sign: SignState,
}

pub struct PositionedModel {
    pub position: BlockPos,
    pub sign: SignModel,
}

pub open spec fn positioned(signs: Seq<PositionedSign>) -> Seq<PositionedModel> {
    Seq::new(
        signs.len(),
        |i: int| PositionedModel { position: signs[i].position, sign: signs[i].sign@ },
    )
}

/// Whether all blocks of a chunk have coordinates.
pub open spec fn has_coordinates(chunk: int) -> bool {
    i32::MIN <= chunk * 16 && chunk * 16 + 15 <= i32::MAX
}

/// `n` more block entities of a chunk, the signs among them behind those in
/// `acc`.
pub open spec fn take_signs(
    s: Seq<u8>,
    n: nat,
    chunk_x: int,
    chunk_z: int,
    protocol: ProtocolVersion,
    acc: Seq<PositionedModel>,
) -> Option<Seq<PositionedModel>>
    decreases n,
{
    if n == 0 {
        Some(acc)
    } else {
        match wire::take_u8(s) {
            (Some(packed), rest) => match wire::take_i16(rest) {
                (Some(y), rest) => match wire::take_varint(rest) {
                    (Some(_), rest) => match take_data(rest, protocol) {
                        (Some(data), rest) => {
                            let acc = match sign_of(data) {
                                Some(sign) => acc.push(
                                    PositionedModel {
                                        position: BlockPos {
                                            x: (chunk_x * 16 + packed as int / 16) as i32,
                                            y: y as i32,
                                            z: (chunk_z * 16 + packed as int % 16) as i32,
                                        },
                                        sign,
                                    },
                                ),
                                None => acc,
                            };
                            take_signs(rest, (n - 1) as nat, chunk_x, chunk_z, protocol, acc)
                        },
                        (None, _) => None,
                    },
                    (None, _) => None,
                },
                (None, _) => None,
            },
            (None, _) => None,
        }
    }
}

/// The most block entities that a chunk may hold.
pub const MAX_BLOCK_ENTITIES: i32 = 65536;

/// The signs in the list of block entities that ends a chunk packet.
pub open spec fn chunk_signs(
    s: Seq<u8>,
    chunk_x: int,
    chunk_z: int,
    protocol: ProtocolVersion,
) -> Option<Seq<PositionedModel>> {
    match wire::take_varint(s) {
        (Some(count), rest) => if 0 <= count <= MAX_BLOCK_ENTITIES {
            take_signs(rest, count as nat, chunk_x, chunk_z, protocol, Seq::empty())
        } else {
            None
        },
        (None, _) => None,
    }
}

pub fn read_chunk_signs(
    body: &[u8],
    chunk_x: i32,
    chunk_z: i32,
    protocol: ProtocolVersion,
) -> (v: Option<Vec<PositionedSign>>)
    requires
        has_coordinates(chunk_x as int),
        has_coordinates(chunk_z as int),
    ensures
        match chunk_signs(body@, chunk_x as int, chunk_z as int, protocol) {
            Some(want) => v matches Some(got) && positioned(got@) == want,
            None => v is None,
        },
{
    let mut r = Reader::new(body);
    let count: i32 = match r.varint() {
        Some(count) => count,
        None => return None,
    };
    if count < 0 || count > MAX_BLOCK_ENTITIES {
        return None;
    }
    let ghost want = chunk_signs(body@, chunk_x as int, chunk_z as int, protocol);
    let mut signs: Vec<PositionedSign> = Vec::new();
    let mut left: i32 = count;
    proof {
        assert(positioned(signs@) =~= Seq::empty());
    }
    while left > 0
        invariant
            has_coordinates(chunk_x as int),
            has_coordinates(chunk_z as int),
            0 <= left,
            want == take_signs(
                r@,
                left as nat,
                chunk_x as int,
                chunk_z as int,
                protocol,
                positioned(signs@),
            ),
            want == chunk_signs(body@, chunk_x as int, chunk_z as int, protocol),
        decreases left,
    {
        let packed: u8 = match r.u8() {
            Some(v) => v,
            None => return None,
        };
        let y: i16 = match r.i16() {
            Some(v) => v,
            None => return None,
        };
        match r.varint() {
            Some(_) => {},
            None => return None,
        }
        let data = match read_data(&mut r, protocol) {
            Some(v) => v,
            None => return None,
        };
        match sign_from_nbt(&data) {
            Some(sign) => {
                let position = BlockPos {
                    x: chunk_x * 16 + (packed / 16) as i32,
                    y: y as i32,
                    z: chunk_z * 16 + (packed % 16) as i32,
                };
                let ghost before = signs@;
                let ghost model = PositionedModel { position, sign: sign@ };
                signs.push(PositionedSign { position, sign });
                proof {
                    assert(positioned(signs@) =~= positioned(before).push(model));
                }
            },
            None => {},
        }
        left = left - 1;
    }
    Some(signs)
}

/// The signs after a packet about a block entity; a malformed one is ignored.
pub open spec fn signs_after(
    signs: Map<BlockPos, SignModel>,
    body: Seq<u8>,
    protocol: ProtocolVersion,
) -> Map<BlockPos, SignModel> {
    match block_entity(body, protocol) {
        Some((position, Some(sign))) => signs.insert(position, sign),
        Some((position, None)) => signs.remove(position),
        None => signs,
    }
}

/// The signs of the world.
#[derive(Debug)]
pub struct Signs {
    pub signs: Table<BlockPos, SignState>,
}

/// Whether a position lies in a chunk.
pub open spec fn in_chunk(position: BlockPos, chunk: (i32, i32)) -> bool {
    chunks::chunk_coord(position.x as int) == chunk.0 && chunks::chunk_coord(position.z as int)
        == chunk.1
}

/// The signs outside a chunk.
pub open spec fn outside(signs: Map<BlockPos, SignModel>, chunk: (i32, i32)) -> Map<
    BlockPos,
    SignModel,
> {
    Map::new(
        |position: BlockPos| signs.dom().contains(position) && !in_chunk(position, chunk),
        |position: BlockPos| signs[position],
    )
}

/// Signs with more of them put up, the last one at a position to stay.
pub open spec fn put_up(signs: Map<BlockPos, SignModel>, more: Seq<PositionedModel>) -> Map<
    BlockPos,
    SignModel,
>
    decreases more.len(),
{
    if more.len() == 0 {
        signs
    } else {
        put_up(signs, more.drop_last()).insert(more.last().position, more.last().sign)
    }
}

/// What a block entity packet says of a position: its sign, or that it has
/// none.
pub open spec fn block_entity(body: Seq<u8>, protocol: ProtocolVersion) -> Option<
    (BlockPos, Option<SignModel>),
> {
    match wire::take_position(body) {
        (Some(position), rest) => match wire::take_varint(rest) {
            (Some(_), rest) => match take_data(rest, protocol).0 {
                Some(data) => Some((position, sign_of(data))),
                None => None,
            },
            (None, _) => None,
        },
        (None, _) => None,
    }
}

impl Signs {
    pub open spec fn wf(&self) -> bool {
        self.signs.wf()
    }

    pub fn new() -> (r: Self)
        ensures
            r.wf(),
            r.signs@ == Map::<BlockPos, SignModel>::empty(),
    {
        Signs { signs: Table::new() }
    }

    fn clear_chunk(&mut self, chunk: (i32, i32))
        requires
            old(self).wf(),
        ensures
            final(self).wf(),
            final(self).signs@ == outside(old(self).signs@, chunk),
    {
        let ghost before = self.signs@;
        let mut inside: Vec<BlockPos> = Vec::new();
        let mut i: usize = 0;
        while i < self.signs.keys.len()
            invariant
                self.wf(),
                self.signs@ == before,
                i <= self.signs.keys@.len(),
                forall|k: int|
                    0 <= k < inside@.len() ==> in_chunk(#[trigger] inside@[k], chunk),
                forall|k: int|
                    0 <= k < i && in_chunk(#[trigger] self.signs.keys@[k], chunk)
                        ==> inside@.contains(self.signs.keys@[k]),
            decreases self.signs.keys@.len() - i,
        {
            let position: BlockPos = self.signs.keys[i];
            if chunk_of(position.x) == chunk.0 && chunk_of(position.z) == chunk.1 {
                let ghost earlier = inside@;
                inside.push(position);
                proof {
                    assert(inside@.last() == position);
                    assert forall|p: BlockPos| earlier.contains(p) implies inside@.contains(p) by {
                        let k = choose|k: int| 0 <= k < earlier.len() && earlier[k] == p;
                        assert(inside@[k] == p);
                    }
                }
            }
            i = i + 1;
        }
        proof {
            assert forall|p: BlockPos| before.dom().contains(p) && in_chunk(p, chunk)
                implies inside@.contains(p) by {
                let k = self.signs.lemma_key(p);
            }
        }
        let mut j: usize = 0;
        while j < inside.len()
            invariant
                self.wf(),
                j <= inside@.len(),
                forall|p: BlockPos|
                    self.signs@.dom().contains(p) <==> before.dom().contains(p)
                        && !inside@.take(j as int).contains(p),
                forall|p: BlockPos|
                    self.signs@.dom().contains(p) ==> #[trigger] self.signs@[p] == before[p],
            decreases inside@.len() - j,
        {
            let ghost earlier = self.signs@;
            let _ = self.signs.remove(&inside[j]);
            proof {
                assert(self.signs@ == earlier.remove(inside@[j as int]));
                let shorter = inside@.take(j as int);
                let longer = inside@.take(j + 1);
                assert(longer =~= shorter.push(inside@[j as int]));
                assert forall|p: BlockPos| longer.contains(p) <==> shorter.contains(p) || p
                    == inside@[j as int] by {
                    if shorter.contains(p) {
                        let k = choose|k: int| 0 <= k < shorter.len() && shorter[k] == p;
                        assert(longer[k] == p);
                    }
                    assert(longer[j as int] == inside@[j as int]);
                }
                assert forall|p: BlockPos| self.signs@.dom().contains(p) <==> before.dom().contains(
                    p,
                ) && !longer.contains(p) by {
                    assert(self.signs@.dom().contains(p) <==> earlier.dom().contains(p) && p
                        != inside@[j as int]);
                    assert(longer.contains(p) <==> shorter.contains(p) || p == inside@[j as int]);
                }
            }
            j = j + 1;
        }
        proof {
            assert(inside@.take(j as int) =~= inside@);
            assert forall|p: BlockPos| inside@.contains(p) implies in_chunk(p, chunk) by {
                let k = choose|k: int| 0 <= k < inside@.len() && inside@[k] == p;
            }
            assert(self.signs@ =~= outside(before, chunk));
        }
    }

    /// A chunk was loaded: its signs replace those known of it.
    pub fn replace_chunk_signs(&mut self, chunk: (i32, i32), signs: Vec<PositionedSign>)
        requires
            old(self).wf(),
        ensures
            final(self).wf(),
            final(self).signs@ == put_up(outside(old(self).signs@, chunk), positioned(signs@)),
    {
        self.clear_chunk(chunk);
        let ghost base = self.signs@;
        let ghost all = positioned(signs@);
        let mut rest = signs;
        let mut turned: Vec<PositionedSign> = Vec::new();
        while rest.len() > 0
            invariant
                rest@.len() + turned@.len() == all.len(),
                forall|i: int|
                    0 <= i < rest@.len() ==> all[i].position == (#[trigger] rest@[i]).position
                        && all[i].sign == rest@[i].sign@,
                forall|i: int|
                    0 <= i < turned@.len() ==> all[all.len() - 1 - i].position == (
                    #[trigger] turned@[i]).position && all[all.len() - 1 - i].sign
                        == turned@[i].sign@,
            decreases rest@.len(),
        {
            match rest.pop() {
                Some(sign) => turned.push(sign),
                None => {},
            }
        }
        proof {
            assert(all.take(0) =~= Seq::empty());
        }
        while turned.len() > 0
            invariant
                self.wf(),
                turned@.len() <= all.len(),
                forall|i: int|
                    0 <= i < turned@.len() ==> all[all.len() - 1 - i].position == (
                    #[trigger] turned@[i]).position && all[all.len() - 1 - i].sign
                        == turned@[i].sign@,
                self.signs@ == put_up(base, all.take(all.len() - turned@.len())),
            decreases turned@.len(),
        {
            let ghost n = all.len() - turned@.len();
            match turned.pop() {
                Some(sign) => {
                    proof {
                        assert(all.take(n + 1).drop_last() =~= all.take(n));
                        assert(all.take(n + 1).last() == all[n]);
                    }
                    self.signs.insert(sign.position, sign.sign);
                },
                None => {},
            }
        }
        proof {
            assert(all.take(all.len() as int) =~= all);
        }
    }

    /// The server sent the data of a block entity. A malformed packet is
    /// ignored.
    pub fn handle_block_entity_data(&mut self, body: &[u8], protocol: ProtocolVersion)
        requires
            old(self).wf(),
        ensures
            final(self).wf(),
            final(self).signs@ == signs_after(old(self).signs@, body@, protocol),
    {
        let mut r = Reader::new(body);
        let position = match r.position() {
            Some(v) => v,
            None => return ,
        };
        match r.varint() {
            Some(_) => {},
            None => return ,
        }
        let data = match read_data(&mut r, protocol) {
            Some(v) => v,
            None => return ,
        };
        match sign_from_nbt(&data) {
            Some(sign) => self.signs.insert(position, sign),
            None => {
                let _ = self.signs.remove(&position);
            },
        }
    }

    /// A block changed: what stood on it is gone, unless it is a sign still.
    pub fn handle_block_change(&mut self, position: BlockPos, name: Option<&str>)
        requires
            old(self).wf(),
        ensures
            final(self).wf(),
            final(self).signs@ == if name is Some && text::ends_with(name->0@, "_sign"@) {
                old(self).signs@
            } else {
                old(self).signs@.remove(position)
            },
    {
        let sign: bool = match name {
            Some(name) => text::has_suffix(name, "_sign"),
            None => false,
        };
        if !sign {
            let _ = self.signs.remove(&position);
        }
    }
}

/// After a chunk was loaded, a sign in it is one of those that came with it,
/// and outside it nothing has changed.
pub proof fn chunk_loads_stay_inside(
    signs: Map<BlockPos, SignModel>,
    chunk: (i32, i32),
    more: Seq<PositionedModel>,
    position: BlockPos,
)
    requires
        forall|i: int| 0 <= i < more.len() ==> in_chunk(#[trigger] more[i].position, chunk),
    ensures
        ({
            let after = put_up(outside(signs, chunk), more);
            if in_chunk(position, chunk) {
                after.dom().contains(position) <==> exists|i: int|
                    0 <= i < more.len() && (#[trigger] more[i]).position == position
            } else {
                &&& after.dom().contains(position) <==> signs.dom().contains(position)
                &&& after.dom().contains(position) ==> after[position] == signs[position]
            }
        }),
    decreases more.len(),
{
    if more.len() > 0 {
        let shorter = more.drop_last();
        assert forall|i: int| 0 <= i < shorter.len() implies in_chunk(
            #[trigger] shorter[i].position,
            chunk,
        ) by {
            assert(shorter[i] == more[i]);
            assert(in_chunk(more[i].position, chunk));
        }
        chunk_loads_stay_inside(signs, chunk, shorter, position);
        assert(in_chunk(more[more.len() - 1].position, chunk));
        if in_chunk(position, chunk) {
            if exists|i: int| 0 <= i < shorter.len() && (#[trigger] shorter[i]).position == position {
                let i = choose|i: int|
                    0 <= i < shorter.len() && (#[trigger] shorter[i]).position == position;
                assert(more[i].position == position);
            }
            if exists|i: int| 0 <= i < more.len() && (#[trigger] more[i]).position == position {
                let i = choose|i: int|
                    0 <= i < more.len() && (#[trigger] more[i]).position == position;
                if i < shorter.len() {
                    assert(shorter[i].position == position);
                }
            }
        }
    }
}

/// A sign has four lines on each side, in their order, and each side glows on its own; a
/// line that is missing is empty.
pub proof fn signs_have_two_sides(
    data: NbtModel,
    front: NbtModel,
    front_lines: Seq<NbtModel>,
    back: NbtModel,
    back_lines: Seq<NbtModel>,
    i: int,
)
    requires
        nbt::nbt_get(data, "front_text"@) == Some(front),
        nbt::nbt_get(front, "messages"@) == Some(NbtModel::List(front_lines)),
        nbt::nbt_get(data, "back_text"@) == Some(back),
        nbt::nbt_get(back, "messages"@) == Some(NbtModel::List(back_lines)),
        0 <= i < 4,
    ensures
        sign_of(data) is Some,
        ({
            let sign = sign_of(data)->0;
            &&& sign.front.len() == 4 && sign.back.len() == 4
            &&& i < front_lines.len() && front_lines[i] is String ==> sign.front[i]
                == component::plain_json(front_lines[i]->String_0)
            &&& i < back_lines.len() && back_lines[i] is String ==> sign.back[i]
                == component::plain_json(back_lines[i]->String_0)
            &&& i >= front_lines.len() ==> sign.front[i].len() == 0
            &&& i >= back_lines.len() ==> sign.back[i].len() == 0
            &&& nbt::nbt_get(front, "has_glowing_text"@) is None ==> !sign.front_glowing
            &&& nbt::nbt_get(back, "has_glowing_text"@) is None ==> !sign.back_glowing
            &&& nbt::nbt_get(front, "has_glowing_text"@) == Some(NbtModel::Byte(1))
                ==> sign.front_glowing
            &&& nbt::nbt_get(back, "has_glowing_text"@) == Some(NbtModel::Byte(1))
                ==> sign.back_glowing
            &&& nbt::nbt_get(front, "has_glowing_text"@) == Some(NbtModel::Byte(0))
                ==> !sign.front_glowing
            &&& nbt::nbt_get(back, "has_glowing_text"@) == Some(NbtModel::Byte(0))
                ==> !sign.back_glowing
        }),
{
}

/// A sign without a back has an empty one that does not glow, and data without any text is
/// no sign.
pub proof fn signs_can_be_one_sided(data: NbtModel)
    ensures
        nbt::nbt_get(data, "back_text"@) is None && sign_of(data) is Some ==> {
            let sign = sign_of(data)->0;
            &&& !sign.back_glowing
            &&& forall|i: int| 0 <= i < 4 ==> (#[trigger] sign.back[i]).len() == 0
        },
        nbt::nbt_get(data, "front_text"@) is None && nbt::nbt_get(data, "Text1"@) is None
            && nbt::nbt_get(data, "Text2"@) is None && nbt::nbt_get(data, "Text3"@) is None
            && nbt::nbt_get(data, "Text4"@) is None ==> sign_of(data) is None,
{
}

/// The signs of older worlds have their lines one by one, on the front.
pub proof fn older_signs_have_four_lines(
    data: NbtModel,
    first: Seq<char>,
    second: Seq<char>,
    third: Seq<char>,
    fourth: Seq<char>,
)
    requires
        nbt::nbt_get(data, "front_text"@) is None,
        nbt::nbt_get(data, "Text1"@) == Some(NbtModel::String(first)),
        nbt::nbt_get(data, "Text2"@) == Some(NbtModel::String(second)),
        nbt::nbt_get(data, "Text3"@) == Some(NbtModel::String(third)),
        nbt::nbt_get(data, "Text4"@) == Some(NbtModel::String(fourth)),
    ensures
        sign_of(data) is Some,
        sign_of(data)->0.front == seq![
            component::plain_json(first),
            component::plain_json(second),
            component::plain_json(third),
            component::plain_json(fourth),
        ],
        !sign_of(data)->0.front_glowing && !sign_of(data)->0.back_glowing,
{
}

/// The front of a sign is drawn where anything stands on it, else the back; long lines are
/// cut behind 90 characters.
pub proof fn fronts_are_drawn_first(sign: SignModel, i: int, line: Seq<char>)
    requires
        sign.front.len() == 4,
        0 <= i < 4,
    ensures
        sign.front[i].len() > 0 ==> shown_side(sign) == sign.front,
        sign.front[0].len() == 0 && sign.front[1].len() == 0 && sign.front[2].len() == 0
            && sign.front[3].len() == 0 ==> shown_side(sign) == sign.back,
        line.len() <= 90 ==> shortened(line) == line,
        line.len() > 90 ==> shortened(line) == line.subrange(0, 90),
{
    if line.len() > 90 {
        assert(line.take(90) =~= line.subrange(0, 90));
    }
    if exists|k: int| 0 <= k < 4 && (#[trigger] sign.front[k]).len() > 0 {
        let k = choose|k: int| 0 <= k < 4 && (#[trigger] sign.front[k]).len() > 0;
        assert(k == 0 || k == 1 || k == 2 || k == 3);
    }
}

/// The packet about a block entity reaches its position and no other: a sign is put up
/// there, and what is no sign takes one away.
pub proof fn block_entities_reach_their_position(
    signs: Map<BlockPos, SignModel>,
    body: Seq<u8>,
    protocol: ProtocolVersion,
    position: BlockPos,
    r1: Seq<u8>,
    kind: i32,
    r2: Seq<u8>,
    data: NbtModel,
    other: BlockPos,
)
    requires
        wire::take_position(body) == (Some(position), r1),
        wire::take_varint(r1) == (Some(kind), r2),
        take_data(r2, protocol).0 == Some(data),
    ensures
        ({
            let after = signs_after(signs, body, protocol);
            &&& after.dom().contains(position) <==> sign_of(data) is Some
            &&& sign_of(data) is Some ==> after[position] == sign_of(data)->0
            &&& other != position ==> (after.dom().contains(other) <==> signs.dom().contains(other))
            &&& other != position && signs.dom().contains(other) ==> after[other] == signs[other]
        }),
        protocol is V1_20_1 ==> take_data(r2, protocol) == nbt::take_named_nbt(r2),
        protocol !is V1_20_1 ==> take_data(r2, protocol) == nbt::take_anonymous_nbt(r2),
{
}

/// A block entity of a chunk has its x in the high half of a byte and its z in the low
/// half, both counted from the corner of the chunk, and its height behind them.
pub proof fn chunk_signs_stand_in_their_chunk(
    s: Seq<u8>,
    n: nat,
    chunk_x: int,
    chunk_z: int,
    protocol: ProtocolVersion,
    acc: Seq<PositionedModel>,
    y: i16,
    r1: Seq<u8>,
    kind: i32,
    r2: Seq<u8>,
    data: NbtModel,
    rest: Seq<u8>,
)
    requires
        has_coordinates(chunk_x),
        has_coordinates(chunk_z),
        s.len() > 0,
        wire::take_i16(s.subrange(1, s.len() as int)) == (Some(y), r1),
        wire::take_varint(r1) == (Some(kind), r2),
        take_data(r2, protocol) == (Some(data), rest),
    ensures
        take_signs(s, 0, chunk_x, chunk_z, protocol, acc) == Some(acc),
        sign_of(data) is None ==> take_signs(s, n + 1, chunk_x, chunk_z, protocol, acc)
            == take_signs(rest, n, chunk_x, chunk_z, protocol, acc),
        sign_of(data) is Some ==> take_signs(s, n + 1, chunk_x, chunk_z, protocol, acc)
            == take_signs(
            rest,
            n,
            chunk_x,
            chunk_z,
            protocol,
            acc.push(
                PositionedModel {
                    position: BlockPos {
                        x: (16 * chunk_x + s[0] / 16) as i32,
                        y: y as i32,
                        z: (16 * chunk_z + s[0] % 16) as i32,
                    },
                    sign: sign_of(data)->0,
                },
            ),
        ),
{
}

/// The signs of a chunk come behind their number, which is 65536 at the most.
pub proof fn chunk_signs_are_counted(
    s: Seq<u8>,
    chunk_x: int,
    chunk_z: int,
    protocol: ProtocolVersion,
    count: i32,
    rest: Seq<u8>,
)
    requires
        wire::take_varint(s) == (Some(count), rest),
    ensures
        0 <= count <= 65536 ==> chunk_signs(s, chunk_x, chunk_z, protocol) == take_signs(
            rest,
            count as nat,
            chunk_x,
            chunk_z,
            protocol,
            Seq::empty(),
        ),
        count < 0 || count > 65536 ==> chunk_signs(s, chunk_x, chunk_z, protocol) is None,
{
}

/// A position is in the chunk of its sixteen columns and rows.
pub proof fn chunks_hold_their_positions(position: BlockPos, chunk: (i32, i32))
    ensures
        in_chunk(position, chunk) <==> 16 * chunk.0 <= position.x < 16 * chunk.0 + 16 && 16
            * chunk.1 <= position.z < 16 * chunk.1 + 16,
{
}

/// Signs are put up one after the other, each at its position.
pub proof fn signs_are_put_up_in_order(
    signs: Map<BlockPos, SignModel>,
    more: Seq<PositionedModel>,
    last: PositionedModel,
    other: BlockPos,
)
    ensures
        put_up(signs, Seq::empty()) == signs,
        put_up(signs, more.push(last)).dom().contains(last.position),
        put_up(signs, more.push(last))[last.position] == last.sign,
        other != last.position ==> put_up(signs, more.push(last))[other] == put_up(
            signs,
            more,
        )[other] && (put_up(signs, more.push(last)).dom().contains(other) <==> put_up(
            signs,
            more,
        ).dom().contains(other)),
{
    assert(more.push(last).drop_last() =~= more);
}

/// A sign stands for its lines in order, front and back, and for what glows.
pub proof fn signs_stand_for_their_lines(sign: SignState, i: int)
    requires
        0 <= i < 4,
    ensures
        sign@.front.len() == 4 && sign@.back.len() == 4,
        sign@.front[i] == sign.front@[i]@,
        sign@.back[i] == sign.back@[i]@,
        sign@.front_glowing == sign.front_glowing,
        sign@.back_glowing == sign.back_glowing,
{
}

/// A packet that breaks off changes no sign.
pub proof fn broken_packets_leave_signs(
    signs: Map<BlockPos, SignModel>,
    body: Seq<u8>,
    protocol: ProtocolVersion,
    position: BlockPos,
    r1: Seq<u8>,
)
    ensures
        body.len() < 8 ==> signs_after(signs, body, protocol) == signs,
        wire::take_position(body) == (Some(position), r1) && wire::take_varint(r1).0 is None
            ==> signs_after(signs, body, protocol) == signs,
{
}

/// Where a block becomes anything but a sign, the sign on it is gone; no other sign goes.
pub proof fn signs_go_with_their_block(
    signs: &mut Signs,
    position: BlockPos,
    name: &str,
    other: BlockPos,
)
    requires
        old(signs).wf(),
        call_ensures(Signs::handle_block_change, (signs, position, Some(name)), ()),
    ensures
        text::ends_with(name@, "_sign"@) ==> final(signs).signs@ == old(signs).signs@,
        !text::ends_with(name@, "_sign"@) ==> !final(signs).signs@.dom().contains(position),
        other != position && old(signs).signs@.dom().contains(other)
            ==> final(signs).signs@.dom().contains(other) && final(signs).signs@[other]
            == old(signs).signs@[other],
{
}

} // verus!
