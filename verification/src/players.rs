//! The list of players on the server.

use vstd::prelude::*;

use crate::component::{self, read_text_component};
use crate::order::{self, ascii_lowercase, text_not_after};
use crate::protocol::ProtocolVersion;
use crate::table::Table;
use crate::uuids::{self, uuid_text};
use crate::wire::{self, Reader};

verus! {

/// One player in the list.
#[derive(Debug)]
pub struct PlayerListEntry {
    pub name: String,
    pub display_name: Option<String>,
    pub game_mode: i32,
    pub latency: i32,
    pub listed: bool,
}

/// What the list says of a player.
pub struct PlayerModel {
    pub name: Seq<char>,
    pub display_name: Option<Seq<char>>,
    pub game_mode: i32,
    pub latency: i32,
    pub listed: bool,
}

pub open spec fn opt_view(text: Option<String>) -> Option<Seq<char>> {
    match text {
        Some(text) => Some(text@),
        None => None,
    }
}

impl View for PlayerListEntry {
    type V = PlayerModel;

    open spec fn view(&self) -> PlayerModel {
        PlayerModel {
            name: self.name@,
            display_name: opt_view(self.display_name),
            game_mode: self.game_mode,
            latency: self.latency,
            listed: self.listed,
        }
    }
}

/// A player of whom nothing is known yet.
pub open spec fn unknown_player() -> PlayerModel {
    PlayerModel {
        name: Seq::empty(),
        display_name: None,
        game_mode: 0,
        latency: 0,
        listed: false,
    }
}

impl Default for PlayerListEntry {
    fn default() -> (r: PlayerListEntry)
        ensures
            r@ == unknown_player(),
    {
        PlayerListEntry {
            name: String::new(),
            display_name: None,
            game_mode: 0,
            latency: 0,
            listed: false,
        }
    }
}

/// The players by the text of their identifiers, and the texts around the list.
#[derive(Debug)]
pub struct PlayerListState {
    pub entries: Table<String, PlayerListEntry>,
    pub header: String,
    pub footer: String,
}

/// The longest name of a player, and of a property of one.
pub const MAX_PLAYER_NAME: u32 = 16;

pub const MAX_PROPERTY: u32 = 32767;

/// What is left after `n` properties of a player. A property that cannot be
/// read does not stop the others.
pub open spec fn after_properties(s: Seq<u8>, n: nat) -> Seq<u8>
    decreases n,
{
    if n == 0 {
        s
    } else {
        let s = wire::take_string(s, MAX_PROPERTY as nat).1;
        let s = wire::take_string(s, MAX_PROPERTY as nat).1;
        let (is_signed, s) = wire::take_bool(s);
        let s = if is_signed == Some(true) {
            wire::take_string(s, MAX_PROPERTY as nat).1
        } else {
            s
        };
        after_properties(s, (n - 1) as nat)
    }
}

/// A number that is 0 where it cannot be read.
pub open spec fn varint_or_zero(s: Seq<u8>) -> (int, Seq<u8>) {
    match wire::take_varint(s) {
        (Some(v), rest) => (v as int, rest),
        (None, rest) => (0, rest),
    }
}

pub open spec fn natural(n: int) -> nat {
    if n < 0 {
        0
    } else {
        n as nat
    }
}

/// What is left after a length and as many bytes.
pub open spec fn after_blob(s: Seq<u8>) -> Seq<u8> {
    let (len, s) = varint_or_zero(s);
    wire::take_bytes(s, natural(len)).1
}

/// Action 1: the name of a player and properties, which are skipped.
pub open spec fn name_part(player: PlayerModel, s: Seq<u8>) -> (PlayerModel, Seq<u8>) {
    let (name, s) = wire::take_string(s, MAX_PLAYER_NAME as nat);
    let named = match name {
        Some(name) => PlayerModel { name, ..player },
        None => player,
    };
    let (count, s) = varint_or_zero(s);
    (named, after_properties(s, natural(count)))
}

/// Action 2: a chat session, which is skipped.
pub open spec fn after_session(s: Seq<u8>) -> Seq<u8> {
    let (present, s) = wire::take_bool(s);
    if present == Some(true) {
        let s = wire::take_uuid(s).1;
        let s = wire::take_i64(s).1;
        after_blob(after_blob(s))
    } else {
        s
    }
}

/// Action 32: the name shown for a player, if there is one.
pub open spec fn display_part(
    player: PlayerModel,
    s: Seq<u8>,
    protocol: ProtocolVersion,
) -> (PlayerModel, Seq<u8>) {
    let (present, s) = wire::take_bool(s);
    if present == Some(true) {
        let (text, s) = component::take_component(s, protocol);
        (PlayerModel { display_name: text, ..player }, s)
    } else {
        (PlayerModel { display_name: None, ..player }, s)
    }
}

/// What the later versions append, which is skipped.
pub open spec fn after_extras(s: Seq<u8>, actions: u8, protocol: ProtocolVersion) -> Seq<u8> {
    if protocol == ProtocolVersion::V1_21_2 {
        if actions & 0x40 != 0 {
            wire::take_varint(s).1
        } else {
            s
        }
    } else if protocol.since_769() {
        let s = if actions & 0x80 != 0 {
            wire::take_varint(s).1
        } else {
            s
        };
        if actions & 0x40 != 0 {
            wire::take_bool(s).1
        } else {
            s
        }
    } else {
        s
    }
}

/// A player after an update, and what is left of the packet. The actions say
/// which parts follow.
pub open spec fn updated(
    player: PlayerModel,
    s: Seq<u8>,
    actions: u8,
    protocol: ProtocolVersion,
) -> (PlayerModel, Seq<u8>) {
    let (player, s) = if actions & 0x01 != 0 {
        name_part(player, s)
    } else {
        (player, s)
    };
    let s = if actions & 0x02 != 0 {
        after_session(s)
    } else {
        s
    };
    let (player, s) = if actions & 0x04 != 0 {
        let (game_mode, s) = varint_or_zero(s);
        (PlayerModel { game_mode: game_mode as i32, ..player }, s)
    } else {
        (player, s)
    };
    let (player, s) = if actions & 0x08 != 0 {
        let (listed, s) = varint_or_zero(s);
        (PlayerModel { listed: listed != 0, ..player }, s)
    } else {
        (player, s)
    };
    let (player, s) = if actions & 0x10 != 0 {
        let (latency, s) = varint_or_zero(s);
        (PlayerModel { latency: latency as i32, ..player }, s)
    } else {
        (player, s)
    };
    let (player, s) = if actions & 0x20 != 0 {
        display_part(player, s, protocol)
    } else {
        (player, s)
    };
    (player, after_extras(s, actions, protocol))
}

/// The players after up to `n` updates; a missing identifier ends them.
pub open spec fn players_after(
    players: Map<Seq<char>, PlayerModel>,
    s: Seq<u8>,
    n: nat,
    actions: u8,
    protocol: ProtocolVersion,
) -> Map<Seq<char>, PlayerModel>
    decreases n,
{
    if n == 0 {
        players
    } else {
        match wire::take_uuid(s) {
            (Some(uuid), s) => {
                let key = uuids::uuid_chars(uuid);
                let player = if players.dom().contains(key) {
                    players[key]
                } else {
                    unknown_player()
                };
                let (player, s) = updated(player, s, actions, protocol);
                players_after(players.insert(key, player), s, (n - 1) as nat, actions, protocol)
            },
            (None, _) => players,
        }
    }
}

/// The players left after a packet that removes some.
pub open spec fn after_removal(
    entries: Map<Seq<char>, PlayerModel>,
    body: Seq<u8>,
) -> Map<Seq<char>, PlayerModel> {
    match wire::take_varint(body) {
        (Some(count), rest) => players_removed(entries, rest, natural(count as int)),
        (None, _) => entries,
    }
}

/// The players after an info packet.
pub open spec fn after_info(
    players: Map<Seq<char>, PlayerModel>,
    body: Seq<u8>,
    protocol: ProtocolVersion,
) -> Map<Seq<char>, PlayerModel> {
    match wire::take_u8(body) {
        (Some(actions), rest) => match wire::take_varint(rest) {
            (Some(count), rest) => players_after(
                players,
                rest,
                natural(count as int),
                actions,
                protocol,
            ),
            (None, _) => players,
        },
        (None, _) => players,
    }
}

/// The players without those named in a removal.
pub open spec fn players_removed(
    players: Map<Seq<char>, PlayerModel>,
    s: Seq<u8>,
    n: nat,
) -> Map<Seq<char>, PlayerModel>
    decreases n,
{
    if n == 0 {
        players
    } else {
        match wire::take_uuid(s) {
            (Some(uuid), s) => players_removed(
                players.remove(uuids::uuid_chars(uuid)),
                s,
                (n - 1) as nat,
            ),
            (None, s) => players_removed(players, s, (n - 1) as nat),
        }
    }
}

fn read_varint_or_zero(r: &mut Reader) -> (v: i32)
    ensures
        (v as int, final(r)@) == varint_or_zero(old(r)@),
{
    match r.varint() {
        Some(v) => v,
        None => 0,
    }
}

fn skip_properties(r: &mut Reader, n: u32)
    ensures
        final(r)@ == after_properties(old(r)@, n as nat),
{
    let mut left: u32 = n;
    let ghost start = r@;
    while left > 0
        invariant
            start == old(r)@,
            after_properties(start, n as nat) == after_properties(r@, left as nat),
        decreases left,
    {
        let _ = r.string(MAX_PROPERTY);
        let _ = r.string(MAX_PROPERTY);
        match r.bool() {
            Some(is_signed) => {
                if is_signed {
                    let _ = r.string(MAX_PROPERTY);
                }
            },
            None => {},
        }
        left = left - 1;
    }
}

fn skip_blob(r: &mut Reader)
    ensures
        final(r)@ == after_blob(old(r)@),
{
    let len: i32 = read_varint_or_zero(r);
    let n: usize = if len < 0 { 0 } else { len as usize };
    let _ = r.bytes(n);
}

fn skip_session(r: &mut Reader)
    ensures
        final(r)@ == after_session(old(r)@),
{
    match r.bool() {
        Some(present) => {
            if present {
                let _ = r.uuid();
                let _ = r.i64();
                skip_blob(r);
                skip_blob(r);
            }
        },
        None => {},
    }
}

fn read_name_part(player: &mut PlayerListEntry, r: &mut Reader)
    ensures
        (final(player)@, final(r)@) == name_part(old(player)@, old(r)@),
{
    match r.string(MAX_PLAYER_NAME) {
        Some(name) => {
            player.name = name;
        },
        None => {},
    }
    let count: i32 = read_varint_or_zero(r);
    skip_properties(r, if count < 0 { 0 } else { count as u32 });
}

fn read_display_part(player: &mut PlayerListEntry, r: &mut Reader, protocol: ProtocolVersion)
    ensures
        (final(player)@, final(r)@) == display_part(old(player)@, old(r)@, protocol),
{
    player.display_name = match r.bool() {
        Some(present) => {
            if present {
                read_text_component(r, protocol)
            } else {
                None
            }
        },
        None => None,
    };
}

fn skip_extras(r: &mut Reader, actions: u8, protocol: ProtocolVersion)
    ensures
        final(r)@ == after_extras(old(r)@, actions, protocol),
{
    if protocol == ProtocolVersion::V1_21_2 {
        if actions & 0x40 != 0 {
            let _ = r.varint();
        }
    } else if protocol.since_769() {
        if actions & 0x80 != 0 {
            let _ = r.varint();
        }
        if actions & 0x40 != 0 {
            let _ = r.bool();
        }
    }
}

fn update_player(
    player: &mut PlayerListEntry,
    r: &mut Reader,
    actions: u8,
    protocol: ProtocolVersion,
)
    ensures
        (final(player)@, final(r)@) == updated(old(player)@, old(r)@, actions, protocol),
{
    if actions & 0x01 != 0 {
        read_name_part(player, r);
    }
    if actions & 0x02 != 0 {
        skip_session(r);
    }
    if actions & 0x04 != 0 {
        player.game_mode = read_varint_or_zero(r);
    }
    if actions & 0x08 != 0 {
        player.listed = read_varint_or_zero(r) != 0;
    }
    if actions & 0x10 != 0 {
        player.latency = read_varint_or_zero(r);
    }
    if actions & 0x20 != 0 {
        read_display_part(player, r, protocol);
    }
    skip_extras(r, actions, protocol);
}

impl PlayerListState {
    pub open spec fn wf(&self) -> bool {
        self.entries.wf()
    }

    pub fn new() -> (r: Self)
        ensures
            r.wf(),
            r.entries@ == Map::<Seq<char>, PlayerModel>::empty(),
            r.header@.len() == 0,
            r.footer@.len() == 0,
    {
        PlayerListState { entries: Table::new(), header: String::new(), footer: String::new() }
    }

    pub open spec fn same_texts(self, after: PlayerListState) -> bool {
        after.header == self.header && after.footer == self.footer
    }

    /// The server sent news of players.
    pub fn handle_player_info(&mut self, body: &[u8], protocol: ProtocolVersion)
        requires
            old(self).wf(),
        ensures
            final(self).wf(),
            final(self).entries@ == after_info(old(self).entries@, body@, protocol),
            old(self).same_texts(*final(self)),
    {
        let mut r = Reader::new(body);
        let actions: u8 = match r.u8() {
            Some(actions) => actions,
            None => return ,
        };
        let count: i32 = match r.varint() {
            Some(count) => count,
            None => return ,
        };
        let mut left: i32 = if count < 0 { 0 } else { count };
        while left > 0
            invariant
                left >= 0,
                self.wf(),
                self.header == old(self).header,
                self.footer == old(self).footer,
                after_info(old(self).entries@, body@, protocol) == players_after(
                    self.entries@,
                    r@,
                    left as nat,
                    actions,
                    protocol,
                ),
            decreases left,
        {
            let uuid = match r.uuid() {
                Some(uuid) => uuid,
                None => return ,
            };
            let key = uuid_text(uuid);
            let ghost before = self.entries@;
            let mut player = match self.entries.remove(&key) {
                Some(player) => player,
                None => PlayerListEntry::default(),
            };
            update_player(&mut player, &mut r, actions, protocol);
            let ghost model = player@;
            self.entries.insert(key, player);
            proof {
                assert(self.entries@ =~= before.insert(key@, model));
            }
            left = left - 1;
        }
    }

    /// Players left.
    pub fn handle_player_remove(&mut self, body: &[u8])
        requires
            old(self).wf(),
        ensures
            final(self).wf(),
            final(self).entries@ == after_removal(old(self).entries@, body@),
            old(self).same_texts(*final(self)),
    {
        let mut r = Reader::new(body);
        let count: i32 = match r.varint() {
            Some(count) => count,
            None => return ,
        };
        let ghost start = r@;
        let mut left: i32 = if count < 0 { 0 } else { count };
        while left > 0
            invariant
                left >= 0,
                self.wf(),
                self.header == old(self).header,
                self.footer == old(self).footer,
                players_removed(old(self).entries@, start, natural(count as int))
                    == players_removed(self.entries@, r@, left as nat),
            decreases left,
        {
            match r.uuid() {
                Some(uuid) => {
                    let key = uuid_text(uuid);
                    let _ = self.entries.remove(&key);
                },
                None => {},
            }
            left = left - 1;
        }
    }

    /// The texts around the list; a malformed packet changes neither.
    pub open spec fn texts_set(
        self,
        after: PlayerListState,
        body: Seq<u8>,
        protocol: ProtocolVersion,
    ) -> bool {
        &&& after.entries == self.entries
        &&& match component::take_component(body, protocol) {
            (Some(header), rest) => match component::take_component(rest, protocol).0 {
                Some(footer) => after.header@ == header && after.footer@ == footer,
                None => self.same_texts(after),
            },
            (None, _) => self.same_texts(after),
        }
    }

    pub fn handle_header(&mut self, body: &[u8], protocol: ProtocolVersion)
        requires
            old(self).wf(),
        ensures
            final(self).wf(),
            old(self).texts_set(*final(self), body@, protocol),
    {
        let mut r = Reader::new(body);
        match read_text_component(&mut r, protocol) {
            Some(header) => match read_text_component(&mut r, protocol) {
                Some(footer) => {
                    self.header = header;
                    self.footer = footer;
                },
                None => {},
            },
            None => {},
        }
    }
}

/// The most players that the list shows, and the most in one column.
pub const LIST_PLAYERS: usize = 80;

pub const LIST_ROWS: usize = 20;

/// Players come in the order of their names, whatever their capitals.
pub open spec fn name_le(a: PlayerModel, b: PlayerModel) -> bool {
    order::text_le(order::lowered(a.name), order::lowered(b.name))
}

pub open spec fn name_order() -> spec_fn(PlayerModel, PlayerModel) -> bool {
    |a: PlayerModel, b: PlayerModel| name_le(a, b)
}

proof fn lemma_name_le(a: PlayerModel, b: PlayerModel, c: PlayerModel)
    ensures
        name_le(a, a),
        name_le(a, b) || name_le(b, a),
        name_le(a, b) && name_le(b, c) ==> name_le(a, c),
{
    order::lemma_text_le_total(order::lowered(a.name), order::lowered(a.name));
    order::lemma_text_le_total(order::lowered(a.name), order::lowered(b.name));
    if name_le(a, b) && name_le(b, c) {
        order::lemma_text_le_transitive(
            order::lowered(a.name),
            order::lowered(b.name),
            order::lowered(c.name),
        );
    }
}

/// The players at the first `n` places that are to be listed.
pub open spec fn listed_players(players: Seq<PlayerListEntry>, n: int) -> Seq<PlayerModel>
    decreases n,
{
    if n <= 0 {
        Seq::empty()
    } else if players[n - 1].listed {
        listed_players(players, n - 1).push(players[n - 1]@)
    } else {
        listed_players(players, n - 1)
    }
}

/// The players at those places.
pub open spec fn at_places(players: Seq<PlayerListEntry>, places: Seq<usize>) -> Seq<PlayerModel> {
    Seq::new(places.len(), |i: int| players[places[i] as int]@)
}

impl PlayerListState {
    /// The places of the players that the list shows, in the order of their
    /// names.
    pub fn listed_places(&self) -> (r: Vec<usize>)
        requires
            self.wf(),
        ensures
            forall|i: int| 0 <= i < r@.len() ==> #[trigger] r@[i] < self.entries.values@.len(),
            order::top_sorted(
                listed_players(self.entries.values@, self.entries.values@.len() as int),
                name_order(),
                LIST_PLAYERS as int,
                at_places(self.entries.values@, r@),
            ),
    {
        let players = &self.entries.values;
        let mut places: Vec<usize> = Vec::new();
        let mut i: usize = 0;
        proof {
            assert(at_places(players@, places@) =~= listed_players(players@, 0));
        }
        while i < players.len()
            invariant
                i <= players@.len(),
                *players == self.entries.values,
                forall|j: int| 0 <= j < places@.len() ==> #[trigger] places@[j] < players@.len(),
                order::sorted(at_places(players@, places@), name_order()),
                at_places(players@, places@).to_multiset() == listed_players(
                    players@,
                    i as int,
                ).to_multiset(),
            decreases players@.len() - i,
        {
            if players[i].listed {
                insert_place(players, &mut places, i);
                proof {
                    vstd::seq_lib::to_multiset_build(
                        listed_players(players@, i as int),
                        players@[i as int]@,
                    );
                }
            }
            i = i + 1;
        }
        let ghost all = at_places(players@, places@);
        if places.len() > LIST_PLAYERS {
            places.truncate(LIST_PLAYERS);
        }
        proof {
            assert(at_places(players@, places@) =~= order::first_n(all, LIST_PLAYERS as int));
        }
        places
    }
}

fn insert_place(players: &Vec<PlayerListEntry>, places: &mut Vec<usize>, place: usize)
    requires
        place < players@.len(),
        forall|j: int| 0 <= j < old(places)@.len() ==> #[trigger] old(places)@[j] < players@.len(),
        order::sorted(at_places(players@, old(places)@), name_order()),
    ensures
        forall|j: int|
            0 <= j < final(places)@.len() ==> #[trigger] final(places)@[j] < players@.len(),
        order::sorted(at_places(players@, final(places)@), name_order()),
        at_places(players@, final(places)@).to_multiset() == at_places(
            players@,
            old(places)@,
        ).to_multiset().insert(players@[place as int]@),
{
    let ghost views = at_places(players@, places@);
    let ghost model = players@[place as int]@;
    let name = ascii_lowercase(players[place].name.as_str());
    let mut at: usize = 0;
    let mut found = false;
    while at < places.len() && !found
        invariant
            at <= places@.len(),
            *places == *old(places),
            views == at_places(players@, places@),
            model == players@[place as int]@,
            name@ == order::lowered(model.name),
            forall|j: int| 0 <= j < places@.len() ==> #[trigger] places@[j] < players@.len(),
            forall|i: int| 0 <= i < at ==> name_le(#[trigger] views[i], model),
            found ==> at < places@.len() && !name_le(views[at as int], model),
        decreases places@.len() - at, if found { 0int } else { 1int },
    {
        let other = ascii_lowercase(players[places[at]].name.as_str());
        assert(views[at as int] == players@[places@[at as int] as int]@);
        if text_not_after(other.as_str(), name.as_str()) {
            assert(name_le(views[at as int], model));
            at = at + 1;
        } else {
            found = true;
        }
    }
    proof {
        assert forall|i: int| at <= i < views.len() implies name_le(model, #[trigger] views[i]) by {
            lemma_name_le(views[at as int], model, model);
            assert(name_order()(views[at as int], views[i]));
            lemma_name_le(model, views[at as int], views[i]);
        }
        lemma_name_le(model, model, model);
        order::lemma_insert_adds(views, at as int, model);
        order::lemma_insert_sorted(views, at as int, model, name_order());
    }
    places.insert(at, place);
    proof {
        assert(at_places(players@, places@) =~= views.insert(at as int, model));
    }
}

/// Rows and columns of a list of `n` players: rows fill up first.
pub open spec fn grid(n: int) -> (int, int) {
    let rows = if n < 1 {
        1
    } else if n > LIST_ROWS {
        LIST_ROWS as int
    } else {
        n
    };
    let columns = (n + rows - 1) / rows;
    (
        rows,
        if columns < 1 {
            1
        } else {
            columns
        },
    )
}

pub fn list_grid(n: usize) -> (r: (usize, usize))
    requires
        n <= LIST_PLAYERS,
    ensures
        (r.0 as int, r.1 as int) == grid(n as int),
{
    let rows: usize = if n < 1 {
        1
    } else if n > LIST_ROWS {
        LIST_ROWS
    } else {
        n
    };
    let columns: usize = (n + rows - 1) / rows;
    (
        rows,
        if columns < 1 {
            1
        } else {
            columns
        },
    )
}

/// Every player of a full list has a place in the grid, and no column is empty.
pub proof fn grid_holds_the_list(n: int)
    requires
        0 < n <= LIST_PLAYERS,
    ensures
        n <= grid(n).0 * grid(n).1,
        grid(n).0 * (grid(n).1 - 1) < n,
{
    let rows = grid(n).0;
    let columns = grid(n).1;
    if n <= LIST_ROWS {
        assert((n + n - 1) / n == 1) by (nonlinear_arith)
            requires
                n > 0,
        ;
        assert(columns == 1);
        assert(rows * columns == n && rows * (columns - 1) == 0) by (nonlinear_arith)
            requires
                rows == n,
                columns == 1,
        ;
    } else {
        assert(columns == (n + 19) / 20);
        assert(rows * columns == 20 * columns && rows * (columns - 1) == 20 * (columns - 1))
            by (nonlinear_arith)
            requires
                rows == 20,
        ;
    }
}

proof fn lemma_action_bits(actions: u8)
    ensures
        actions & 0x01 != 0 <==> actions % 2 == 1,
        actions & 0x02 != 0 <==> (actions / 2) % 2 == 1,
        actions & 0x04 != 0 <==> (actions / 4) % 2 == 1,
        actions & 0x08 != 0 <==> (actions / 8) % 2 == 1,
        actions & 0x10 != 0 <==> (actions / 16) % 2 == 1,
        actions & 0x20 != 0 <==> (actions / 32) % 2 == 1,
        actions & 0x40 != 0 <==> (actions / 64) % 2 == 1,
        actions & 0x80 != 0 <==> (actions / 128) % 2 == 1,
{
    assert((actions & 0x01 != 0 <==> actions % 2 == 1) && (actions & 0x02 != 0 <==> (actions / 2)
        % 2 == 1) && (actions & 0x04 != 0 <==> (actions / 4) % 2 == 1) && (actions & 0x08 != 0
        <==> (actions / 8) % 2 == 1) && (actions & 0x10 != 0 <==> (actions / 16) % 2 == 1) && (
    actions & 0x20 != 0 <==> (actions / 32) % 2 == 1) && (actions & 0x40 != 0 <==> (actions / 64)
        % 2 == 1) && (actions & 0x80 != 0 <==> (actions / 128) % 2 == 1)) by (bit_vector);
}

/// An update changes the parts of a player that its actions name and no others: from the
/// lowest bit on the name, a session that is not kept, the game mode, whether it is
/// listed, the latency and the name shown.
pub proof fn updates_change_what_they_name(
    player: PlayerModel,
    s: Seq<u8>,
    actions: u8,
    protocol: ProtocolVersion,
)
    ensures
        ({
            let after = updated(player, s, actions, protocol).0;
            &&& actions % 2 == 0 ==> after.name == player.name
            &&& (actions / 4) % 2 == 0 ==> after.game_mode == player.game_mode
            &&& (actions / 8) % 2 == 0 ==> after.listed == player.listed
            &&& (actions / 16) % 2 == 0 ==> after.latency == player.latency
            &&& (actions / 32) % 2 == 0 ==> after.display_name == player.display_name
        }),
{
    lemma_action_bits(actions);
}

/// The game mode, whether a player is listed and its latency come in this order, each as
/// one number; the name shown is behind a flag.
pub proof fn updates_read_their_parts_in_order(
    player: PlayerModel,
    s: Seq<u8>,
    mode: i32,
    r1: Seq<u8>,
    listed: i32,
    r2: Seq<u8>,
    latency: i32,
    r3: Seq<u8>,
    text: Seq<char>,
    r4: Seq<u8>,
    protocol: ProtocolVersion,
)
    requires
        wire::take_varint(s) == (Some(mode), r1),
        wire::take_varint(r1) == (Some(listed), r2),
        wire::take_varint(r2) == (Some(latency), r3),
        r3.len() > 0,
        component::take_component(r3.subrange(1, r3.len() as int), protocol) == (Some(text), r4),
    ensures
        updated(player, s, 4, protocol) == (PlayerModel { game_mode: mode, ..player }, r1),
        updated(player, s, 8, protocol) == (PlayerModel { listed: mode != 0, ..player }, r1),
        updated(player, s, 16, protocol) == (PlayerModel { latency: mode, ..player }, r1),
        r3[0] != 0 ==> updated(player, r3, 32, protocol) == (
            PlayerModel { display_name: Some(text), ..player },
            r4,
        ),
        r3[0] == 0 ==> updated(player, r3, 32, protocol) == (
            PlayerModel { display_name: None, ..player },
            r3.subrange(1, r3.len() as int),
        ),
        ({
            let after = updated(player, s, 60, protocol);
            &&& after.0.name == player.name
            &&& after.0.game_mode == mode
            &&& after.0.listed == (listed != 0)
            &&& after.0.latency == latency
            &&& after.0.display_name == if r3[0] != 0 {
                Some(text)
            } else {
                None
            }
            &&& after.1 == if r3[0] != 0 {
                r4
            } else {
                r3.subrange(1, r3.len() as int)
            }
        }),
{
    lemma_action_bits(4);
    lemma_action_bits(8);
    lemma_action_bits(16);
    lemma_action_bits(32);
    lemma_action_bits(60);
}

/// A new player comes with a name and properties, which are passed over.
pub proof fn new_players_have_a_name(
    player: PlayerModel,
    s: Seq<u8>,
    name: Seq<char>,
    r1: Seq<u8>,
    count: i32,
    r2: Seq<u8>,
    protocol: ProtocolVersion,
)
    requires
        wire::take_string(s, 16) == (Some(name), r1),
        wire::take_varint(r1) == (Some(count), r2),
    ensures
        updated(player, s, 1, protocol).0 == (PlayerModel { name, ..player }),
        count <= 0 ==> updated(player, s, 1, protocol).1 == r2,
        count > 0 ==> updated(player, s, 1, protocol).1 == after_properties(r2, count as nat),
{
    lemma_action_bits(1);
}

/// An update reaches the players that it names, one after the other, and adds those that
/// were not known; a removal takes them away; no other player changes.
pub proof fn news_reach_the_players_they_name(
    players: Map<Seq<char>, PlayerModel>,
    s: Seq<u8>,
    uuid: wire::Uuid,
    rest: Seq<u8>,
    actions: u8,
    protocol: ProtocolVersion,
    other: Seq<char>,
)
    requires
        wire::take_uuid(s) == (Some(uuid), rest),
    ensures
        ({
            let key = uuids::uuid_chars(uuid);
            let after = players_after(players, s, 1, actions, protocol);
            let removed = players_removed(players, s, 1);
            &&& after.dom().contains(key)
            &&& players.dom().contains(key) ==> after[key] == updated(
                players[key],
                rest,
                actions,
                protocol,
            ).0
            &&& !players.dom().contains(key) ==> after[key] == updated(
                unknown_player(),
                rest,
                actions,
                protocol,
            ).0
            &&& !removed.dom().contains(key)
            &&& other != key ==> (after.dom().contains(other) <==> players.dom().contains(other))
                && (removed.dom().contains(other) <==> players.dom().contains(other))
            &&& other != key && players.dom().contains(other) ==> after[other] == players[other]
                && removed[other] == players[other]
        }),
        players_after(players, s, 0, actions, protocol) == players,
        players_removed(players, s, 0) == players,
{
    reveal_with_fuel(players_after, 2);
    reveal_with_fuel(players_removed, 2);
}

/// The news name their actions, then the number of players.
pub proof fn news_count_their_players(
    players: Map<Seq<char>, PlayerModel>,
    body: Seq<u8>,
    count: i32,
    rest: Seq<u8>,
    protocol: ProtocolVersion,
)
    requires
        body.len() > 0,
        count >= 0,
    ensures
        wire::take_varint(body.subrange(1, body.len() as int)) == (Some(count), rest) ==> after_info(
            players,
            body,
            protocol,
        ) == players_after(players, rest, count as nat, body[0], protocol),
        wire::take_varint(body) == (Some(count), rest) ==> after_removal(players, body)
            == players_removed(players, rest, count as nat),
        unknown_player().name.len() == 0 && unknown_player().display_name is None
            && !unknown_player().listed && unknown_player().latency == 0
            && unknown_player().game_mode == 0,
{
}

/// The list shows the players that are to be listed, and no others.
pub proof fn unlisted_players_are_left_out(players: Seq<PlayerListEntry>, n: int)
    requires
        0 <= n < players.len(),
    ensures
        listed_players(players, 0) == Seq::<PlayerModel>::empty(),
        players[n].listed ==> listed_players(players, n + 1) == listed_players(players, n).push(
            players[n]@,
        ),
        !players[n].listed ==> listed_players(players, n + 1) == listed_players(players, n),
{
}

/// Players come in the order of their names, for which capitals make no difference.
pub proof fn capitals_do_not_count(a: PlayerModel, b: PlayerModel)
    ensures
        name_le(a, b) <==> order::text_le(order::lowered(a.name), order::lowered(b.name)),
        order::lowered(a.name) == order::lowered(b.name) ==> name_le(a, b) && name_le(b, a),
{
    order::lemma_text_le_total(order::lowered(a.name), order::lowered(b.name));
}

/// Up to twenty players stand in one column; beyond that every column has twenty rows.
pub proof fn columns_have_twenty_rows(n: int)
    requires
        0 <= n <= 80,
    ensures
        n == 0 ==> grid(n) == (1int, 1int),
        1 <= n <= 20 ==> grid(n) == (n, 1int),
        20 < n ==> grid(n).0 == 20 && 20 * (grid(n).1 - 1) < n <= 20 * grid(n).1,
{
    if 1 <= n <= 20 {
        assert((n + n - 1) / n == 1) by (nonlinear_arith)
            requires
                n >= 1,
        ;
    } else if n > 20 {
        assert(grid(n).0 == 20);
        assert(grid(n).1 == (n + 19) / 20);
    }
}

/// The texts around the list come header first.
pub proof fn headers_come_first(
    before: PlayerListState,
    after: PlayerListState,
    body: Seq<u8>,
    header: Seq<char>,
    rest: Seq<u8>,
    footer: Seq<char>,
    protocol: ProtocolVersion,
)
    requires
        before.texts_set(after, body, protocol),
        component::take_component(body, protocol) == (Some(header), rest),
        component::take_component(rest, protocol).0 == Some(footer),
    ensures
        after.header@ == header,
        after.footer@ == footer,
        after.entries == before.entries,
{
}

/// What is not kept of a player is passed over: a session behind a flag, an order in the
/// list from protocol 768 on, and a hat from 769 on.
pub proof fn other_parts_are_passed_over(
    player: PlayerModel,
    s: Seq<u8>,
    number: i32,
    rest: Seq<u8>,
    uuid: wire::Uuid,
    r1: Seq<u8>,
    expiry: i64,
    r2: Seq<u8>,
    protocol: ProtocolVersion,
)
    requires
        s.len() > 0,
    ensures
        s[0] == 0 ==> updated(player, s, 2, protocol) == (player, s.subrange(1, s.len() as int)),
        s[0] != 0 && wire::take_uuid(s.subrange(1, s.len() as int)) == (Some(uuid), r1)
            && wire::take_i64(r1) == (Some(expiry), r2) ==> updated(player, s, 2, protocol) == (
            player,
            after_blob(after_blob(r2)),
        ),
        wire::take_varint(s) == (Some(number), rest) && protocol.number() == 768 ==> updated(
            player,
            s,
            64,
            protocol,
        ) == (player, rest),
        wire::take_varint(s) == (Some(number), rest) && protocol.number() >= 769 ==> updated(
            player,
            s,
            128,
            protocol,
        ) == (player, rest),
        protocol.number() >= 769 ==> updated(player, s, 64, protocol) == (
            player,
            s.subrange(1, s.len() as int),
        ),
        protocol.number() < 768 ==> updated(player, s, 64, protocol) == (player, s) && updated(
            player,
            s,
            128,
            protocol,
        ) == (player, s),
        wire::take_varint(s) == (Some(number), rest) && 0 <= number <= rest.len() ==> after_blob(s)
            == rest.subrange(number as int, rest.len() as int),
{
    lemma_action_bits(2);
    lemma_action_bits(64);
    lemma_action_bits(128);
}

/// A property is its name and its value and, behind a flag, a signature.
pub proof fn properties_are_passed_over(
    s: Seq<u8>,
    n: nat,
    name: Seq<char>,
    r1: Seq<u8>,
    value: Seq<char>,
    r2: Seq<u8>,
    signature: Seq<char>,
    r3: Seq<u8>,
)
    requires
        wire::take_string(s, 32767) == (Some(name), r1),
        wire::take_string(r1, 32767) == (Some(value), r2),
        r2.len() > 0,
    ensures
        after_properties(s, 0) == s,
        r2[0] == 0 ==> after_properties(s, n + 1) == after_properties(
            r2.subrange(1, r2.len() as int),
            n,
        ),
        r2[0] != 0 && wire::take_string(r2.subrange(1, r2.len() as int), 32767) == (
            Some(signature),
            r3,
        ) ==> after_properties(s, n + 1) == after_properties(r3, n),
{
}

/// A player of the list stands for its parts.
pub proof fn players_stand_for_their_parts(player: PlayerListEntry)
    ensures
        player@.name == player.name@,
        player.display_name matches Some(name) ==> player@.display_name == Some(name@),
        player.display_name is None ==> player@.display_name is None,
        player@.game_mode == player.game_mode,
        player@.latency == player.latency,
        player@.listed == player.listed,
{
}

/// The list shows players in the order of their names, and nothing else decides.
pub proof fn lists_are_in_order_of_names(
    players: Seq<PlayerListEntry>,
    places: Seq<usize>,
    i: int,
    a: PlayerModel,
    b: PlayerModel,
)
    requires
        0 <= i < places.len(),
    ensures
        name_order()(a, b) <==> name_le(a, b),
        at_places(players, places).len() == places.len(),
        at_places(players, places)[i] == players[places[i] as int]@,
{
}

} // verus!
