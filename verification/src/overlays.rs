//! What is drawn over the world: titles, the action bar, boss bars, the world
//! border, the weather and the chat log.

use vstd::prelude::*;

use crate::bits::{self, clamp_unit};
use crate::component::{self, nbt_plain_text, read_text_component};
use crate::nbt::{self, read_anonymous_nbt};
use crate::order::{self, text_places};
use crate::protocol::ProtocolVersion;
use crate::table::Table;
use crate::uuids::{self, uuid_text};
use crate::wire::{self, Reader};

verus! {

/// A title with its subtitle and how long they are shown, in ticks.
#[derive(Debug)]
pub struct TitleState {
    pub title: String,
    pub subtitle: String,
    pub fade_in: u32,
    pub stay: u32,
    pub fade_out: u32,
    pub remaining: u32,
}

/// The times of a title that no packet has set.
pub const DEFAULT_FADE_IN: u32 = 10;

pub const DEFAULT_STAY: u32 = 70;

pub const DEFAULT_FADE_OUT: u32 = 20;

impl Default for TitleState {
    fn default() -> (r: TitleState)
        ensures
            r.is_blank(),
    {
        TitleState {
            title: String::new(),
            subtitle: String::new(),
            fade_in: DEFAULT_FADE_IN,
            stay: DEFAULT_STAY,
            fade_out: DEFAULT_FADE_OUT,
            remaining: 0,
        }
    }
}

impl TitleState {
    /// No title, and the times that titles have by default.
    pub open spec fn is_blank(&self) -> bool {
        &&& self.title@.len() == 0
        &&& self.subtitle@.len() == 0
        &&& self.fade_in == DEFAULT_FADE_IN
        &&& self.stay == DEFAULT_STAY
        &&& self.fade_out == DEFAULT_FADE_OUT
        &&& self.remaining == 0
    }

    /// How long a title is shown from now on, modulo 2^32 ticks.
    pub open spec fn full_time(&self) -> int {
        (self.fade_in + self.stay + self.fade_out) % 0x1_0000_0000
    }

    fn restart(&mut self)
        ensures
            *final(self) == (TitleState { remaining: old(self).full_time() as u32, ..*old(self) }),
    {
        let sum: u64 = self.fade_in as u64 + self.stay as u64 + self.fade_out as u64;
        self.remaining = (sum % 0x1_0000_0000) as u32;
    }

    /// A new title, or a new subtitle; a malformed one changes nothing.
    pub open spec fn text_set(
        self,
        after: TitleState,
        body: Seq<u8>,
        subtitle: bool,
        protocol: ProtocolVersion,
    ) -> bool {
        match component::take_component(body, protocol).0 {
            Some(text) => {
                &&& after.remaining == self.full_time()
                &&& after.fade_in == self.fade_in
                &&& after.stay == self.stay
                &&& after.fade_out == self.fade_out
                &&& subtitle ==> after.subtitle@ == text && after.title == self.title
                &&& !subtitle ==> after.title@ == text && after.subtitle == self.subtitle
            },
            None => after == self,
        }
    }

    pub fn handle_title_text(&mut self, body: &[u8], subtitle: bool, protocol: ProtocolVersion)
        ensures
            old(self).text_set(*final(self), body@, subtitle, protocol),
    {
        let mut r = Reader::new(body);
        match read_text_component(&mut r, protocol) {
            Some(text) => {
                if subtitle {
                    self.subtitle = text;
                } else {
                    self.title = text;
                }
                self.restart();
            },
            None => {},
        }
    }

    /// The three times of a title; negative ones count as none.
    pub open spec fn times(body: Seq<u8>) -> Option<(u32, u32, u32)> {
        match wire::take_i32(body) {
            (Some(a), rest) => match wire::take_i32(rest) {
                (Some(b), rest) => match wire::take_i32(rest) {
                    (Some(c), _) => Some((natural(a), natural(b), natural(c))),
                    (None, _) => None,
                },
                (None, _) => None,
            },
            (None, _) => None,
        }
    }

    pub open spec fn timed(self, body: Seq<u8>) -> TitleState {
        match Self::times(body) {
            Some((fade_in, stay, fade_out)) => TitleState { fade_in, stay, fade_out, ..self },
            None => self,
        }
    }

    pub fn handle_title_time(&mut self, body: &[u8])
        ensures
            *final(self) == old(self).timed(body@),
    {
        let mut r = Reader::new(body);
        let a = r.i32();
        let b = r.i32();
        let c = r.i32();
        match (a, b, c) {
            (Some(fade_in), Some(stay), Some(fade_out)) => {
                self.fade_in = to_natural(fade_in);
                self.stay = to_natural(stay);
                self.fade_out = to_natural(fade_out);
            },
            _ => {},
        }
    }

    /// The title is taken away, its times too where the server asks for it.
    pub open spec fn cleared(self, after: TitleState, body: Seq<u8>) -> bool {
        match wire::take_bool(body).0 {
            Some(reset) => {
                &&& after.title@.len() == 0
                &&& after.subtitle@.len() == 0
                &&& after.remaining == 0
                &&& after.fade_in == (if reset {
                    DEFAULT_FADE_IN
                } else {
                    self.fade_in
                })
                &&& after.stay == (if reset {
                    DEFAULT_STAY
                } else {
                    self.stay
                })
                &&& after.fade_out == (if reset {
                    DEFAULT_FADE_OUT
                } else {
                    self.fade_out
                })
            },
            None => after == self,
        }
    }

    pub fn handle_clear_titles(&mut self, body: &[u8])
        ensures
            old(self).cleared(*final(self), body@),
    {
        let mut r = Reader::new(body);
        match r.bool() {
            Some(reset) => {
                self.remaining = 0;
                self.title = String::new();
                self.subtitle = String::new();
                if reset {
                    self.fade_in = DEFAULT_FADE_IN;
                    self.stay = DEFAULT_STAY;
                    self.fade_out = DEFAULT_FADE_OUT;
                }
            },
            None => {},
        }
    }

    /// The title one tick later.
    pub open spec fn ticked(self) -> TitleState {
        TitleState {
            remaining: (if self.remaining == 0 {
                0
            } else {
                (self.remaining - 1) as u32
            }),
            ..self
        }
    }

    pub fn tick(&mut self)
        ensures
            *final(self) == old(self).ticked(),
    {
        if self.remaining > 0 {
            self.remaining = self.remaining - 1;
        }
    }
}

/// A number, or 0 in place of a negative one.
pub open spec fn natural(n: i32) -> u32 {
    if n < 0 {
        0
    } else {
        n as u32
    }
}

fn to_natural(n: i32) -> (r: u32)
    ensures
        r == natural(n),
{
    if n < 0 {
        0
    } else {
        n as u32
    }
}

/// How long the action bar is shown, in ticks.
pub const ACTION_BAR_TICKS: u32 = 60;

/// The line above the hotbar, with the ticks it is still shown.
#[derive(Debug)]
pub struct ActionBar {
    pub text: String,
    pub ticks: u32,
}

/// A system message: its text, and whether it goes to the action bar.
pub open spec fn system_chat(body: Seq<u8>) -> Option<(Seq<char>, bool)> {
    match nbt::take_anonymous_nbt(body) {
        (Some(component), rest) => match wire::take_bool(rest) {
            (Some(overlay), _) => Some((component::nbt_component(component), overlay)),
            (None, _) => None,
        },
        (None, _) => None,
    }
}

/// Decodes a system message in the form from protocol 765 on.
pub fn decode_system_chat(body: &[u8]) -> (r: Option<(String, bool)>)
    ensures
        match system_chat(body@) {
            Some((text, overlay)) => r matches Some(got) && got.0@ == text && got.1 == overlay,
            None => r is None,
        },
{
    let mut r = Reader::new(body);
    match read_anonymous_nbt(&mut r) {
        Some(component) => match r.bool() {
            Some(overlay) => Some((nbt_plain_text(&component), overlay)),
            None => None,
        },
        None => None,
    }
}

/// The longest chat log.
pub const CHAT_LINES: usize = 100;

/// The last lines that fit into the log.
pub open spec fn newest(lines: Seq<String>) -> Seq<String> {
    if lines.len() <= CHAT_LINES {
        lines
    } else {
        lines.subrange(lines.len() - CHAT_LINES, lines.len() as int)
    }
}

/// Appends a line to the log and drops the oldest ones beyond its length.
pub fn push_chat(log: &mut Vec<String>, line: String)
    ensures
        final(log)@ == newest(old(log)@.push(line)),
{
    let ghost all = log@.push(line);
    log.push(line);
    proof {
        assert(log@ =~= all.subrange(0, all.len() as int));
    }
    while log.len() > CHAT_LINES
        invariant
            log@.len() <= all.len(),
            log@.len() < all.len() ==> log@.len() >= CHAT_LINES,
            log@ == all.subrange(all.len() - log@.len(), all.len() as int),
        decreases log@.len(),
    {
        let ghost before = log@;
        let _ = log.remove(0);
        proof {
            assert(log@ =~= before.subrange(1, before.len() as int));
            assert(log@ =~= all.subrange(all.len() - log@.len(), all.len() as int));
        }
    }
    proof {
        assert(log@ =~= newest(all));
    }
}

/// The log never grows beyond its length, and its last line is the newest one.
pub proof fn chat_log_keeps_the_newest(log: Seq<String>, line: String)
    ensures
        newest(log.push(line)).len() <= CHAT_LINES,
        newest(log.push(line)).last() == line,
        log.len() < CHAT_LINES ==> newest(log.push(line)) == log.push(line),
{
}

/// The messages and the action bar.
#[derive(Debug)]
pub struct Messages {
    pub action_bar: Option<ActionBar>,
    pub chat_log: Vec<String>,
}

impl Messages {
    pub fn new() -> (r: Self)
        ensures
            r.action_bar is None,
            r.chat_log@.len() == 0,
    {
        Messages { action_bar: None, chat_log: Vec::new() }
    }

    /// Whether the action bar shows that text for its full time.
    pub open spec fn shows(&self, text: Seq<char>) -> bool {
        self.action_bar matches Some(bar) && bar.text@ == text && bar.ticks == ACTION_BAR_TICKS
    }

    /// A system message goes to the action bar or to the log.
    pub fn handle_system_chat(&mut self, line: String, overlay: bool)
        ensures
            overlay ==> final(self).shows(line@) && final(self).chat_log == old(self).chat_log,
            !overlay ==> final(self).action_bar == old(self).action_bar && final(self).chat_log@
                == newest(old(self).chat_log@.push(line)),
    {
        if overlay {
            self.action_bar = Some(ActionBar { text: line, ticks: ACTION_BAR_TICKS });
        } else {
            push_chat(&mut self.chat_log, line);
        }
    }

    /// A text for the action bar; a malformed one changes nothing.
    pub open spec fn bar_set(self, after: Messages, body: Seq<u8>, protocol: ProtocolVersion) -> bool {
        &&& after.chat_log == self.chat_log
        &&& match component::take_component(body, protocol).0 {
            Some(text) => after.shows(text),
            None => after.action_bar == self.action_bar,
        }
    }

    pub fn handle_action_bar(&mut self, body: &[u8], protocol: ProtocolVersion)
        ensures
            old(self).bar_set(*final(self), body@, protocol),
    {
        let mut r = Reader::new(body);
        match read_text_component(&mut r, protocol) {
            Some(text) => {
                self.action_bar = Some(ActionBar { text, ticks: ACTION_BAR_TICKS });
            },
            None => {},
        }
    }

    /// The messages one tick later: the action bar goes away on its last one.
    pub open spec fn ticked(self) -> Messages {
        Messages {
            action_bar: match self.action_bar {
                Some(bar) => if bar.ticks <= 1 {
                    None
                } else {
                    Some(ActionBar { text: bar.text, ticks: (bar.ticks - 1) as u32 })
                },
                None => None,
            },
            chat_log: self.chat_log,
        }
    }

    pub fn tick(&mut self)
        ensures
            *final(self) == old(self).ticked(),
    {
        let last = match &self.action_bar {
            Some(bar) => bar.ticks <= 1,
            None => false,
        };
        if last {
            self.action_bar = None;
        } else {
            match &mut self.action_bar {
                Some(bar) => {
                    bar.ticks = bar.ticks - 1;
                },
                None => {},
            }
        }
    }
}

/// A boss bar. Its health is kept as the bits of a number from 0 to 1.
#[derive(Debug)]
pub struct BossBarState {
    pub title: String,
    pub health: u32,
    pub color: i32,
    pub divisions: i32,
    pub flags: u8,
}

/// What a boss bar shows.
pub struct BossBarModel {
    pub title: Seq<char>,
    pub health: u32,
    pub color: i32,
    pub divisions: i32,
    pub flags: u8,
}

impl View for BossBarState {
    type V = BossBarModel;

    open spec fn view(&self) -> BossBarModel {
        BossBarModel {
            title: self.title@,
            health: self.health,
            color: self.color,
            divisions: self.divisions,
            flags: self.flags,
        }
    }
}

/// The boss bars by the text of their identifiers.
pub type BossBars = Table<String, BossBarState>;

/// A new boss bar.
pub open spec fn new_bar(s: Seq<u8>, protocol: ProtocolVersion) -> Option<BossBarModel> {
    match component::take_component(s, protocol) {
        (Some(title), rest) => match wire::take_u32(rest) {
            (Some(health), rest) => match wire::take_varint(rest) {
                (Some(color), rest) => match wire::take_varint(rest) {
                    (Some(divisions), rest) => match wire::take_u8(rest) {
                        (Some(flags), _) => Some(
                            BossBarModel {
                                title,
                                health: bits::unit_clamped(health),
                                color,
                                divisions,
                                flags,
                            },
                        ),
                        (None, _) => None,
                    },
                    (None, _) => None,
                },
                (None, _) => None,
            },
            (None, _) => None,
        },
        (None, _) => None,
    }
}

/// A boss bar after a change of one of its sides: 2 its health, 3 its title, 4
/// its style, 5 its flags. A malformed change and any other number leave it.
pub open spec fn changed_bar(
    bar: BossBarModel,
    action: i32,
    s: Seq<u8>,
    protocol: ProtocolVersion,
) -> BossBarModel {
    if action == 2 {
        match wire::take_u32(s).0 {
            Some(health) => BossBarModel { health: bits::unit_clamped(health), ..bar },
            None => bar,
        }
    } else if action == 3 {
        match component::take_component(s, protocol).0 {
            Some(title) => BossBarModel { title, ..bar },
            None => bar,
        }
    } else if action == 4 {
        match wire::take_varint(s) {
            (Some(color), rest) => match wire::take_varint(rest).0 {
                Some(divisions) => BossBarModel { color, divisions, ..bar },
                None => bar,
            },
            (None, _) => bar,
        }
    } else if action == 5 {
        match wire::take_u8(s).0 {
            Some(flags) => BossBarModel { flags, ..bar },
            None => bar,
        }
    } else {
        bar
    }
}

/// The boss bars after an announcement about one of them: 0 adds it, 1 takes it
/// away, the others change one that is there.
pub open spec fn bars_after(
    bars: Map<Seq<char>, BossBarModel>,
    body: Seq<u8>,
    protocol: ProtocolVersion,
) -> Map<Seq<char>, BossBarModel> {
    match wire::take_uuid(body) {
        (Some(uuid), rest) => match wire::take_varint(rest) {
            (Some(action), rest) => {
                let key = uuids::uuid_chars(uuid);
                if action == 0 {
                    match new_bar(rest, protocol) {
                        Some(bar) => bars.insert(key, bar),
                        None => bars,
                    }
                } else if action == 1 {
                    bars.remove(key)
                } else if bars.dom().contains(key) {
                    bars.insert(key, changed_bar(bars[key], action, rest, protocol))
                } else {
                    bars
                }
            },
            (None, _) => bars,
        },
        (None, _) => bars,
    }
}

fn read_new_bar(r: &mut Reader, protocol: ProtocolVersion) -> (v: Option<BossBarState>)
    ensures
        match new_bar(old(r)@, protocol) {
            Some(model) => v matches Some(bar) && bar@ == model,
            None => v is None,
        },
{
    let title = match read_text_component(r, protocol) {
        Some(title) => title,
        None => return None,
    };
    let health: u32 = match r.u32() {
        Some(v) => v,
        None => return None,
    };
    let color: i32 = match r.varint() {
        Some(v) => v,
        None => return None,
    };
    let divisions: i32 = match r.varint() {
        Some(v) => v,
        None => return None,
    };
    match r.u8() {
        Some(flags) => Some(
            BossBarState { title, health: clamp_unit(health), color, divisions, flags },
        ),
        None => None,
    }
}

fn change_bar(bar: &mut BossBarState, action: i32, r: &mut Reader, protocol: ProtocolVersion)
    ensures
        final(bar)@ == changed_bar(old(bar)@, action, old(r)@, protocol),
{
    if action == 2 {
        match r.u32() {
            Some(health) => {
                bar.health = clamp_unit(health);
            },
            None => {},
        }
    } else if action == 3 {
        match read_text_component(r, protocol) {
            Some(title) => {
                bar.title = title;
            },
            None => {},
        }
    } else if action == 4 {
        match r.varint() {
            Some(color) => match r.varint() {
                Some(divisions) => {
                    bar.color = color;
                    bar.divisions = divisions;
                },
                None => {},
            },
            None => {},
        }
    } else if action == 5 {
        match r.u8() {
            Some(flags) => {
                bar.flags = flags;
            },
            None => {},
        }
    }
}

/// The server announced something about a boss bar.
pub fn handle_boss_bar(bars: &mut BossBars, body: &[u8], protocol: ProtocolVersion)
    requires
        old(bars).wf(),
    ensures
        final(bars).wf(),
        final(bars)@ == bars_after(old(bars)@, body@, protocol),
{
    let mut r = Reader::new(body);
    let uuid = match r.uuid() {
        Some(uuid) => uuid,
        None => return ,
    };
    let action: i32 = match r.varint() {
        Some(action) => action,
        None => return ,
    };
    let key = uuid_text(uuid);
    if action == 0 {
        match read_new_bar(&mut r, protocol) {
            Some(bar) => bars.insert(key, bar),
            None => {},
        }
        return ;
    }
    let ghost before = bars@;
    match bars.remove(&key) {
        Some(bar) => {
            if action != 1 {
                let mut bar = bar;
                change_bar(&mut bar, action, &mut r, protocol);
                let ghost model = bar@;
                bars.insert(key, bar);
                proof {
                    assert(bars@ =~= before.insert(key@, model));
                }
            }
        },
        None => {
            proof {
                assert(before.remove(key@) =~= before);
            }
        },
    }
}

/// The most boss bars that are shown at once.
pub const SHOWN_BARS: usize = 6;

/// The places of the boss bars that are shown, in the order of their names.
pub fn shown_bars(bars: &BossBars) -> (r: Vec<usize>)
    requires
        bars.wf(),
    ensures
        forall|i: int| 0 <= i < r@.len() ==> #[trigger] r@[i] < bars.values@.len(),
        order::top_sorted(
            order::all_texts(bars.keys@),
            order::text_order(),
            SHOWN_BARS as int,
            order::texts_at(bars.keys@, r@),
        ),
{
    text_places(&bars.keys, SHOWN_BARS)
}

/// How many notches a boss bar has.
pub open spec fn notches(divisions: i32) -> int {
    if divisions == 1 {
        6
    } else if divisions == 2 {
        10
    } else if divisions == 3 {
        12
    } else if divisions == 4 {
        20
    } else {
        0
    }
}

pub fn notch_count(divisions: i32) -> (r: u32)
    ensures
        r == notches(divisions),
{
    if divisions == 1 {
        6
    } else if divisions == 2 {
        10
    } else if divisions == 3 {
        12
    } else if divisions == 4 {
        20
    } else {
        0
    }
}

/// The world border. Its place and size are kept as the bits of
/// double-precision numbers.
#[derive(Clone, Copy, Debug, PartialEq, Eq, Structural)]
pub struct WorldBorderState {
    pub x: u64,
    pub z: u64,
    pub diameter: u64,
    pub target_diameter: u64,
    pub lerp_remaining_ms: i32,
    pub warning_blocks: i32,
    pub warning_time: i32,
}

/// The bits of 59999968.0, the diameter of a world without a border of its own.
pub const FULL_DIAMETER: u64 = 0x418c_9c37_0000_0000;

/// The border before the server says anything of it: as far out as it goes.
pub open spec fn full_border() -> WorldBorderState {
    WorldBorderState {
        x: 0,
        z: 0,
        diameter: FULL_DIAMETER,
        target_diameter: FULL_DIAMETER,
        lerp_remaining_ms: 0,
        warning_blocks: 5,
        warning_time: 15,
    }
}

impl Default for WorldBorderState {
    fn default() -> (r: WorldBorderState)
        ensures
            r == full_border(),
    {
        WorldBorderState {
            x: 0,
            z: 0,
            diameter: FULL_DIAMETER,
            target_diameter: FULL_DIAMETER,
            lerp_remaining_ms: 0,
            warning_blocks: 5,
            warning_time: 15,
        }
    }
}

/// What a packet about the world border sets.
#[derive(Clone, Copy, Debug, PartialEq, Eq, Structural)]
pub enum BorderPacket {
    Initialize,
    Center,
    Lerp,
    Size,
    WarningDelay,
    WarningReach,
}

/// The border after a packet; a malformed one leaves it.
pub open spec fn border_after(
    border: WorldBorderState,
    packet: BorderPacket,
    body: Seq<u8>,
) -> WorldBorderState {
    match packet {
        BorderPacket::Initialize => match wire::take_u64(body) {
            (Some(x), rest) => match wire::take_u64(rest) {
                (Some(z), rest) => match wire::take_u64(rest) {
                    (Some(diameter), rest) => match wire::take_u64(rest) {
                        (Some(target_diameter), rest) => match wire::take_varint(rest) {
                            (Some(speed), rest) => match wire::take_varint(rest) {
                                (Some(_), rest) => match wire::take_varint(rest) {
                                    (Some(warning_blocks), rest) => match wire::take_varint(rest) {
                                        (Some(warning_time), _) => WorldBorderState {
                                            x,
                                            z,
                                            diameter,
                                            target_diameter,
                                            lerp_remaining_ms: natural(speed) as i32,
                                            warning_blocks,
                                            warning_time,
                                        },
                                        (None, _) => border,
                                    },
                                    (None, _) => border,
                                },
                                (None, _) => border,
                            },
                            (None, _) => border,
                        },
                        (None, _) => border,
                    },
                    (None, _) => border,
                },
                (None, _) => border,
            },
            (None, _) => border,
        },
        BorderPacket::Center => match wire::take_u64(body) {
            (Some(x), rest) => match wire::take_u64(rest) {
                (Some(z), _) => WorldBorderState { x, z, ..border },
                (None, _) => border,
            },
            (None, _) => border,
        },
        BorderPacket::Lerp => match wire::take_u64(body) {
            (Some(diameter), rest) => match wire::take_u64(rest) {
                (Some(target_diameter), rest) => match wire::take_varint(rest) {
                    (Some(speed), _) => WorldBorderState {
                        diameter,
                        target_diameter,
                        lerp_remaining_ms: natural(speed) as i32,
                        ..border
                    },
                    (None, _) => border,
                },
                (None, _) => border,
            },
            (None, _) => border,
        },
        BorderPacket::Size => match wire::take_u64(body) {
            (Some(diameter), _) => WorldBorderState {
                diameter,
                target_diameter: diameter,
                lerp_remaining_ms: 0,
                ..border
            },
            (None, _) => border,
        },
        BorderPacket::WarningDelay => match wire::take_varint(body) {
            (Some(warning_time), _) => WorldBorderState { warning_time, ..border },
            (None, _) => border,
        },
        BorderPacket::WarningReach => match wire::take_varint(body) {
            (Some(warning_blocks), _) => WorldBorderState { warning_blocks, ..border },
            (None, _) => border,
        },
    }
}

impl WorldBorderState {
    /// The server set the border or a side of it.
    pub fn handle_packet(&mut self, packet: BorderPacket, body: &[u8])
        ensures
            *final(self) == border_after(*old(self), packet, body@),
    {
        let mut r = Reader::new(body);
        match packet {
            BorderPacket::Initialize => {
                let x = r.u64();
                let z = r.u64();
                let diameter = r.u64();
                let target = r.u64();
                let speed = r.varint();
                let portal = r.varint();
                let blocks = r.varint();
                let time = r.varint();
                match (x, z, diameter, target) {
                    (Some(x), Some(z), Some(diameter), Some(target_diameter)) => {
                        match (speed, portal, blocks, time) {
                            (
                                Some(speed),
                                Some(_),
                                Some(warning_blocks),
                                Some(warning_time),
                            ) => {
                                *self = WorldBorderState {
                                    x,
                                    z,
                                    diameter,
                                    target_diameter,
                                    lerp_remaining_ms: to_natural(speed) as i32,
                                    warning_blocks,
                                    warning_time,
                                };
                            },
                            _ => {},
                        }
                    },
                    _ => {},
                }
            },
            BorderPacket::Center => {
                let x = r.u64();
                let z = r.u64();
                match (x, z) {
                    (Some(x), Some(z)) => {
                        self.x = x;
                        self.z = z;
                    },
                    _ => {},
                }
            },
            BorderPacket::Lerp => {
                let diameter = r.u64();
                let target = r.u64();
                let speed = r.varint();
                match (diameter, target, speed) {
                    (Some(diameter), Some(target), Some(speed)) => {
                        self.diameter = diameter;
                        self.target_diameter = target;
                        self.lerp_remaining_ms = to_natural(speed) as i32;
                    },
                    _ => {},
                }
            },
            BorderPacket::Size => {
                match r.u64() {
                    Some(diameter) => {
                        self.diameter = diameter;
                        self.target_diameter = diameter;
                        self.lerp_remaining_ms = 0;
                    },
                    None => {},
                }
            },
            BorderPacket::WarningDelay => {
                match r.varint() {
                    Some(warning_time) => {
                        self.warning_time = warning_time;
                    },
                    None => {},
                }
            },
            BorderPacket::WarningReach => {
                match r.varint() {
                    Some(warning_blocks) => {
                        self.warning_blocks = warning_blocks;
                    },
                    None => {},
                }
            },
        }
    }

    /// The milliseconds of a resize that the next tick covers.
    pub open spec fn step(&self) -> int {
        if self.lerp_remaining_ms <= 0 {
            0
        } else if self.lerp_remaining_ms < 50 {
            self.lerp_remaining_ms as int
        } else {
            50
        }
    }

    /// One tick of a resize: the share of the way that it covers, as
    /// milliseconds covered and milliseconds left before. Nothing where the
    /// border does not change.
    pub open spec fn ticked(self) -> (WorldBorderState, Option<(i32, i32)>) {
        (
            WorldBorderState {
                lerp_remaining_ms: (self.lerp_remaining_ms - self.step()) as i32,
                ..self
            },
            if self.lerp_remaining_ms > 0 {
                Some((self.step() as i32, self.lerp_remaining_ms))
            } else {
                None
            },
        )
    }

    pub fn tick(&mut self) -> (r: Option<(i32, i32)>)
        ensures
            (*final(self), r) == old(self).ticked(),
    {
        if self.lerp_remaining_ms <= 0 {
            return None;
        }
        let left: i32 = self.lerp_remaining_ms;
        let step: i32 = if left < 50 { left } else { 50 };
        self.lerp_remaining_ms = left - step;
        Some((step, left))
    }
}

/// A resize ends: every tick of one brings it nearer to its end, and the last
/// one covers all that is left of the way.
pub proof fn border_resizes_end(border: WorldBorderState)
    requires
        border.lerp_remaining_ms > 0,
    ensures
        0 < border.step() <= border.lerp_remaining_ms,
        border.lerp_remaining_ms <= 50 ==> border.step() == border.lerp_remaining_ms,
{
}

/// The time of the world and its weather. The levels are bits of numbers.
#[derive(Clone, Copy, Debug, PartialEq, Eq, Structural)]
pub struct EnvironmentState {
    pub world_age: i64,
    pub time_of_day: i64,
    pub rain_level: u32,
    pub thunder_level: u32,
}

/// The time and the weather before the server says anything of them.
pub open spec fn first_morning() -> EnvironmentState {
    EnvironmentState { world_age: 0, time_of_day: 0, rain_level: 0, thunder_level: 0 }
}

impl Default for EnvironmentState {
    fn default() -> (r: EnvironmentState)
        ensures
            r == first_morning(),
    {
        EnvironmentState { world_age: 0, time_of_day: 0, rain_level: 0, thunder_level: 0 }
    }
}

/// A change of the game's state: its reason and the bits of its value.
pub open spec fn game_state(body: Seq<u8>) -> Option<(u8, u32)> {
    match wire::take_u8(body) {
        (Some(reason), rest) => match wire::take_u32(rest) {
            (Some(value), _) => Some((reason, value)),
            (None, _) => None,
        },
        (None, _) => None,
    }
}

pub fn decode_game_state(body: &[u8]) -> (r: Option<(u8, u32)>)
    ensures
        r == game_state(body@),
{
    let mut r = Reader::new(body);
    match r.u8() {
        Some(reason) => match r.u32() {
            Some(value) => Some((reason, value)),
            None => None,
        },
        None => None,
    }
}

impl EnvironmentState {
    /// The weather after a change of the game's state: 1 ends the rain, 2 starts
    /// it, 7 and 8 set the levels of rain and thunder.
    pub open spec fn weather_after(self, reason: u8, value: u32) -> EnvironmentState {
        if reason == 1 {
            EnvironmentState { rain_level: 0, ..self }
        } else if reason == 2 {
            EnvironmentState { rain_level: bits::ONE, ..self }
        } else if reason == 7 {
            EnvironmentState { rain_level: bits::unit_clamped(value), ..self }
        } else if reason == 8 {
            EnvironmentState { thunder_level: bits::unit_clamped(value), ..self }
        } else {
            self
        }
    }

    pub fn change_weather(&mut self, reason: u8, value: u32)
        ensures
            *final(self) == old(self).weather_after(reason, value),
    {
        if reason == 1 {
            self.rain_level = 0;
        } else if reason == 2 {
            self.rain_level = bits::ONE;
        } else if reason == 7 {
            self.rain_level = clamp_unit(value);
        } else if reason == 8 {
            self.thunder_level = clamp_unit(value);
        }
    }

    /// The server told the time.
    pub open spec fn timed(self, body: Seq<u8>) -> EnvironmentState {
        match wire::take_i64(body) {
            (Some(world_age), rest) => match wire::take_i64(rest).0 {
                Some(time_of_day) => EnvironmentState { world_age, time_of_day, ..self },
                None => self,
            },
            (None, _) => self,
        }
    }

    pub fn handle_update_time(&mut self, body: &[u8])
        ensures
            *final(self) == old(self).timed(body@),
    {
        let mut r = Reader::new(body);
        let age = r.i64();
        let time = r.i64();
        match (age, time) {
            (Some(world_age), Some(time_of_day)) => {
                self.world_age = world_age;
                self.time_of_day = time_of_day;
            },
            _ => {},
        }
    }
}

/// The tick of the day that is shown, whichever way the clock runs.
pub open spec fn day_tick(time_of_day: i64) -> int {
    (if time_of_day < 0 {
        -time_of_day
    } else {
        time_of_day as int
    }) % 24000
}

pub fn tick_of_day(time_of_day: i64) -> (r: u32)
    ensures
        r == day_tick(time_of_day),
{
    let magnitude: u64 = if time_of_day == i64::MIN {
        0x8000_0000_0000_0000
    } else if time_of_day < 0 {
        (-time_of_day) as u64
    } else {
        time_of_day as u64
    };
    (magnitude % 24000) as u32
}

/// An update of the health of a boss bar sets it to the number sent where that is
/// between 0 and 1, to 0 below and to 1 above, and leaves its title, style and flags.
pub proof fn health_updates_show_the_health(
    bar: BossBarModel,
    s: Seq<u8>,
    rest: Seq<u8>,
    health: u32,
    protocol: ProtocolVersion,
)
    requires
        wire::take_u32(s) == (Some(health), rest),
    ensures
        ({
            let after = changed_bar(bar, 2, s, protocol);
            &&& health <= 0x3f80_0000 ==> after.health == health
            &&& 0x3f80_0000 < health <= 0x7f80_0000 ==> after.health == 0x3f80_0000
            &&& 0x8000_0000 < health <= 0xff80_0000 ==> after.health == 0
            &&& after.title == bar.title
            &&& after.color == bar.color
            &&& after.divisions == bar.divisions
            &&& after.flags == bar.flags
        }),
{
}

/// A new boss bar shows the title, health, style and flags that came with it, and the
/// same as a bar that is changed to each of them.
pub proof fn new_bars_show_what_came(
    bar: BossBarModel,
    s: Seq<u8>,
    title: Seq<char>,
    after_title: Seq<u8>,
    health: u32,
    after_health: Seq<u8>,
    color: i32,
    after_color: Seq<u8>,
    divisions: i32,
    after_divisions: Seq<u8>,
    flags: u8,
    protocol: ProtocolVersion,
)
    requires
        component::take_component(s, protocol) == (Some(title), after_title),
        wire::take_u32(after_title) == (Some(health), after_health),
        wire::take_varint(after_health) == (Some(color), after_color),
        wire::take_varint(after_color) == (Some(divisions), after_divisions),
        wire::take_u8(after_divisions).0 == Some(flags),
    ensures
        new_bar(s, protocol) is Some,
        ({
            let shown = new_bar(s, protocol)->0;
            &&& shown.title == title
            &&& health <= 0x3f80_0000 ==> shown.health == health
            &&& shown.health == changed_bar(bar, 2, after_title, protocol).health
            &&& shown.color == color
            &&& shown.divisions == divisions
            &&& shown.flags == flags
            &&& changed_bar(bar, 3, s, protocol) == (BossBarModel { title, ..bar })
            &&& changed_bar(bar, 4, after_health, protocol) == (BossBarModel {
                color,
                divisions,
                ..bar
            })
            &&& changed_bar(bar, 5, after_divisions, protocol) == (BossBarModel { flags, ..bar })
        }),
{
}

/// An announcement reaches the boss bar that it names and no other: 0 puts a bar there,
/// 1 takes it away, and the others change one only where it is there.
pub proof fn announcements_reach_one_bar(
    bars: Map<Seq<char>, BossBarModel>,
    body: Seq<u8>,
    uuid: wire::Uuid,
    after_uuid: Seq<u8>,
    action: i32,
    rest: Seq<u8>,
    other: Seq<char>,
    protocol: ProtocolVersion,
)
    requires
        wire::take_uuid(body) == (Some(uuid), after_uuid),
        wire::take_varint(after_uuid) == (Some(action), rest),
    ensures
        ({
            let key = uuids::uuid_chars(uuid);
            let after = bars_after(bars, body, protocol);
            &&& other != key ==> (after.dom().contains(other) <==> bars.dom().contains(other))
            &&& other != key && bars.dom().contains(other) ==> after[other] == bars[other]
            &&& action == 0 && new_bar(rest, protocol) is Some ==> after.dom().contains(key)
                && after[key] == new_bar(rest, protocol)->0
            &&& action == 0 && new_bar(rest, protocol) is None ==> after == bars
            &&& action == 1 ==> !after.dom().contains(key)
            &&& action != 0 && action != 1 ==> (after.dom().contains(key) <==> bars.dom().contains(
                key,
            ))
            &&& action != 0 && action != 1 && bars.dom().contains(key) ==> after[key]
                == changed_bar(bars[key], action, rest, protocol)
            &&& !(2 <= action <= 5) && action != 0 && action != 1 ==> after =~= bars
        }),
{
}

/// A title that is set is shown for the sum of its three times, and one tick less after
/// every tick, until it is gone.
pub proof fn titles_are_shown_for_their_times(
    before: TitleState,
    after: TitleState,
    body: Seq<u8>,
    subtitle: bool,
    protocol: ProtocolVersion,
)
    requires
        before.text_set(after, body, subtitle, protocol),
        component::take_component(body, protocol).0 is Some,
        before.fade_in + before.stay + before.fade_out <= u32::MAX,
    ensures
        after.remaining == before.fade_in + before.stay + before.fade_out,
        (if subtitle {
            after.subtitle@
        } else {
            after.title@
        }) == component::take_component(body, protocol).0->0,
        subtitle ==> after.title == before.title,
        !subtitle ==> after.subtitle == before.subtitle,
        after.remaining > 0 ==> after.ticked().remaining == after.remaining - 1,
        after.remaining == 0 ==> after.ticked() == after,
        after.ticked().title == after.title && after.ticked().subtitle == after.subtitle,
{
}

/// The times of a title come in the order in which they pass, and negative ones count
/// as none; what is shown stays.
pub proof fn title_times_come_in_order(
    before: TitleState,
    body: Seq<u8>,
    fade_in: i32,
    r1: Seq<u8>,
    stay: i32,
    r2: Seq<u8>,
    fade_out: i32,
)
    requires
        wire::take_i32(body) == (Some(fade_in), r1),
        wire::take_i32(r1) == (Some(stay), r2),
        wire::take_i32(r2).0 == Some(fade_out),
    ensures
        ({
            let after = before.timed(body);
            &&& after.fade_in == if fade_in > 0 {
                fade_in as int
            } else {
                0
            }
            &&& after.stay == if stay > 0 {
                stay as int
            } else {
                0
            }
            &&& after.fade_out == if fade_out > 0 {
                fade_out as int
            } else {
                0
            }
            &&& after.title == before.title
            &&& after.subtitle == before.subtitle
            &&& after.remaining == before.remaining
        }),
{
}

/// Clearing takes the title away at once; a reset gives back the times of 10, 70 and 20
/// ticks, and without one the times stay.
pub proof fn cleared_titles_are_gone(before: TitleState, after: TitleState, body: Seq<u8>)
    requires
        body.len() > 0,
        before.cleared(after, body),
    ensures
        after.title@.len() == 0,
        after.subtitle@.len() == 0,
        after.remaining == 0,
        body[0] != 0 ==> after.fade_in == 10 && after.stay == 70 && after.fade_out == 20,
        body[0] == 0 ==> after.fade_in == before.fade_in && after.stay == before.stay
            && after.fade_out == before.fade_out,
{
}

/// The action bar counts down from 60 ticks and goes away after the last one, and the
/// log stays as it is.
pub proof fn action_bars_count_down(before: Messages)
    ensures
        ({
            let after = before.ticked();
            &&& after.chat_log == before.chat_log
            &&& before.action_bar is None ==> after.action_bar is None
            &&& before.action_bar matches Some(bar) ==> (after.action_bar is Some <==> bar.ticks
                > 1)
            &&& before.action_bar is Some && after.action_bar is Some ==> after.action_bar->0.ticks
                + 1 == before.action_bar->0.ticks && after.action_bar->0.text
                == before.action_bar->0.text
        }),
        before.shows(before.action_bar->0.text@) ==> before.action_bar->0.ticks == 60,
{
}

/// The log holds at most a hundred lines: the newest ones, in the order in which they
/// came.
pub proof fn chat_logs_keep_their_order(log: Seq<String>, line: String, i: int)
    requires
        log.len() <= 100,
    ensures
        ({
            let after = newest(log.push(line));
            &&& after.len() == if log.len() < 100 {
                log.len() + 1
            } else {
                100
            }
            &&& after.last() == line
            &&& log.len() < 100 && 0 <= i < log.len() ==> after[i] == log[i]
            &&& log.len() == 100 && 0 <= i < 99 ==> after[i] == log[i + 1]
        }),
{
}

/// A system message is the flattened component, and the byte behind it says whether it
/// goes to the action bar.
pub proof fn system_messages_say_where_they_go(
    body: Seq<u8>,
    value: nbt::NbtModel,
    rest: Seq<u8>,
)
    requires
        nbt::take_anonymous_nbt(body) == (Some(value), rest),
        rest.len() > 0,
    ensures
        system_chat(body) == Some((component::nbt_component(value), rest[0] != 0)),
{
}

/// The more divisions a boss bar has, the more notches: 6, 10, 12 and 20, and none for
/// the plain bar.
pub proof fn notches_grow_with_divisions(divisions: i32)
    ensures
        notches(divisions) > 0 <==> 1 <= divisions <= 4,
        1 <= divisions <= 3 ==> notches(divisions) < notches((divisions + 1) as i32),
        notches(divisions) > 0 ==> notches(divisions) == 6 || notches(divisions) == 10 || notches(
            divisions,
        ) == 12 || notches(divisions) == 20,
{
}

/// The whole border comes as its centre, its size now and at the end, the time until
/// then, and behind a number that is not kept the warnings in blocks and in seconds.
pub proof fn borders_are_set_whole(
    border: WorldBorderState,
    body: Seq<u8>,
    x: u64,
    r1: Seq<u8>,
    z: u64,
    r2: Seq<u8>,
    diameter: u64,
    r3: Seq<u8>,
    target: u64,
    r4: Seq<u8>,
    speed: i32,
    r5: Seq<u8>,
    r6: Seq<u8>,
    blocks: i32,
    r7: Seq<u8>,
    time: i32,
)
    requires
        wire::take_u64(body) == (Some(x), r1),
        wire::take_u64(r1) == (Some(z), r2),
        wire::take_u64(r2) == (Some(diameter), r3),
        wire::take_u64(r3) == (Some(target), r4),
        wire::take_varint(r4) == (Some(speed), r5),
        wire::take_varint(r5).0 is Some && wire::take_varint(r5).1 == r6,
        wire::take_varint(r6) == (Some(blocks), r7),
        wire::take_varint(r7).0 == Some(time),
    ensures
        ({
            let after = border_after(border, BorderPacket::Initialize, body);
            &&& after.x == x && after.z == z
            &&& after.diameter == diameter && after.target_diameter == target
            &&& after.lerp_remaining_ms == if speed > 0 {
                speed as int
            } else {
                0
            }
            &&& after.warning_blocks == blocks && after.warning_time == time
            &&& border_after(border, BorderPacket::Center, body) == (WorldBorderState {
                x,
                z,
                ..border
            })
            &&& border_after(border, BorderPacket::Lerp, r2) == (WorldBorderState {
                diameter,
                target_diameter: target,
                lerp_remaining_ms: after.lerp_remaining_ms,
                ..border
            })
            &&& border_after(border, BorderPacket::WarningReach, r6) == (WorldBorderState {
                warning_blocks: blocks,
                ..border
            })
            &&& border_after(border, BorderPacket::WarningDelay, r7) == (WorldBorderState {
                warning_time: time,
                ..border
            })
        }),
{
}

/// A size without a time is reached at once, and the centre and the warnings stay.
pub proof fn sizes_are_reached_at_once(
    border: WorldBorderState,
    body: Seq<u8>,
    diameter: u64,
)
    requires
        wire::take_u64(body).0 == Some(diameter),
    ensures
        ({
            let after = border_after(border, BorderPacket::Size, body);
            &&& after.diameter == diameter
            &&& after.target_diameter == diameter
            &&& after.ticked() == (after, None::<(i32, i32)>)
            &&& after.x == border.x && after.z == border.z
            &&& after.warning_blocks == border.warning_blocks
            &&& after.warning_time == border.warning_time
        }),
{
}

/// A tick of a resize takes 50 milliseconds of it, or what is left of it, and says so;
/// the border itself is not touched.
pub proof fn resizes_pass_by_ticks(border: WorldBorderState)
    ensures
        ({
            let (after, share) = border.ticked();
            let left = border.lerp_remaining_ms;
            &&& left <= 0 ==> share is None && after == border
            &&& left > 50 ==> share == Some((50i32, left)) && after.lerp_remaining_ms == left - 50
            &&& 0 < left <= 50 ==> share == Some((left, left)) && after.lerp_remaining_ms == 0
            &&& after == (WorldBorderState {
                lerp_remaining_ms: after.lerp_remaining_ms,
                ..border
            })
        }),
{
}

/// Rain begins at full strength and ends at none; its level and that of thunder are set
/// to the number sent, within 0 and 1, each on its own; and the time stays.
pub proof fn weather_follows_its_reasons(environment: EnvironmentState, reason: u8, value: u32)
    ensures
        ({
            let after = environment.weather_after(reason, value);
            &&& after.world_age == environment.world_age
            &&& after.time_of_day == environment.time_of_day
            &&& reason == 1 ==> after.rain_level == 0
            &&& reason == 2 ==> after.rain_level == 0x3f80_0000
            &&& reason == 7 && value <= 0x3f80_0000 ==> after.rain_level == value
            &&& reason == 8 && value <= 0x3f80_0000 ==> after.thunder_level == value
            &&& reason == 7 || reason == 8 ==> (0x3f80_0000 < value <= 0x7f80_0000 ==> if reason
                == 7 {
                after.rain_level == 0x3f80_0000
            } else {
                after.thunder_level == 0x3f80_0000
            })
            &&& reason != 8 ==> after.thunder_level == environment.thunder_level
            &&& reason != 1 && reason != 2 && reason != 7 ==> after.rain_level
                == environment.rain_level
        }),
{
}

/// The time comes as the age of the world and the time of the day, and leaves the
/// weather.
pub proof fn times_come_with_the_age(
    environment: EnvironmentState,
    body: Seq<u8>,
    age: i64,
    rest: Seq<u8>,
    time: i64,
)
    requires
        wire::take_i64(body) == (Some(age), rest),
        wire::take_i64(rest).0 == Some(time),
    ensures
        environment.timed(body).world_age == age,
        environment.timed(body).time_of_day == time,
        environment.timed(body).rain_level == environment.rain_level,
        environment.timed(body).thunder_level == environment.thunder_level,
{
}

/// A change of the game's state is one byte for its reason and four for its value.
pub proof fn game_states_have_a_reason(body: Seq<u8>)
    requires
        body.len() >= 5,
    ensures
        game_state(body) matches Some(state) && state.0 == body[0] && Some(state.1)
            == wire::take_u32(body.subrange(1, body.len() as int)).0,
{
}

/// A day has 24000 ticks: the same hour comes back every day, and a stopped clock, sent
/// as a negative time, shows the same hour.
pub proof fn days_repeat(time: i64)
    requires
        0 <= time <= i64::MAX - 24000,
    ensures
        0 <= day_tick(time) < 24000,
        time < 24000 ==> day_tick(time) == time,
        day_tick((time + 24000) as i64) == day_tick(time),
        day_tick((-time) as i64) == day_tick(time),
{
}

/// A world begins at midnight of its age in clear weather, with a border as wide as can be.
pub proof fn worlds_begin_clear()
    ensures
        first_morning().world_age == 0 && first_morning().time_of_day == 0,
        first_morning().rain_level == 0 && first_morning().thunder_level == 0,
        full_border().x == 0 && full_border().z == 0,
        full_border().diameter == 0x418c_9c37_0000_0000,
        full_border().target_diameter == full_border().diameter,
        full_border().lerp_remaining_ms == 0,
        full_border().warning_blocks == 5 && full_border().warning_time == 15,
{
}

/// A boss bar stands for its parts.
pub proof fn bars_stand_for_their_parts(bar: BossBarState)
    ensures
        bar@.title == bar.title@,
        bar@.health == bar.health,
        bar@.color == bar.color,
        bar@.divisions == bar.divisions,
        bar@.flags == bar.flags,
{
}

/// A packet that breaks off changes nothing: neither a border, nor a bar, nor titles, times
/// or the weather.
pub proof fn broken_overlays_change_nothing(
    border: WorldBorderState,
    bars: Map<Seq<char>, BossBarModel>,
    bar: BossBarModel,
    title: TitleState,
    title_after: TitleState,
    environment: EnvironmentState,
    messages: Messages,
    messages_after: Messages,
    body: Seq<u8>,
    subtitle: bool,
    protocol: ProtocolVersion,
)
    ensures
        body.len() < 16 ==> border_after(border, BorderPacket::Center, body) == border
            && border_after(border, BorderPacket::Lerp, body) == border && environment.timed(body)
            == environment && bars_after(bars, body, protocol) == bars,
        body.len() < 8 ==> border_after(border, BorderPacket::Size, body) == border,
        body.len() < 32 ==> border_after(border, BorderPacket::Initialize, body) == border,
        wire::take_varint(body).0 is None ==> border_after(border, BorderPacket::WarningDelay, body)
            == border && border_after(border, BorderPacket::WarningReach, body) == border
            && changed_bar(bar, 4, body, protocol) == bar,
        body.len() < 4 ==> changed_bar(bar, 2, body, protocol) == bar,
        body.len() == 0 ==> changed_bar(bar, 5, body, protocol) == bar,
        component::take_component(body, protocol).0 is None ==> changed_bar(bar, 3, body, protocol)
            == bar,
        body.len() < 12 ==> title.timed(body) == title,
        body.len() == 0 && title.cleared(title_after, body) ==> title_after == title,
        component::take_component(body, protocol).0 is None && title.text_set(
            title_after,
            body,
            subtitle,
            protocol,
        ) ==> title_after == title,
        component::take_component(body, protocol).0 is None && messages.bar_set(
            messages_after,
            body,
            protocol,
        ) ==> messages_after.action_bar == messages.action_bar && messages_after.chat_log
            == messages.chat_log,
        body.len() < 5 ==> game_state(body) is None,
{
}

/// A text for the action bar is shown there for 60 ticks, and one for the log goes behind
/// its lines; neither touches the other.
pub proof fn messages_go_where_they_belong(
    before: Messages,
    after: Messages,
    messages: &mut Messages,
    body: Seq<u8>,
    protocol: ProtocolVersion,
    text: Seq<char>,
    line: String,
    overlay: bool,
)
    ensures
        component::take_component(body, protocol).0 == Some(text) && before.bar_set(
            after,
            body,
            protocol,
        ) ==> after.action_bar is Some && after.action_bar->0.text@ == text
            && after.action_bar->0.ticks == 60 && after.chat_log == before.chat_log,
        call_ensures(Messages::handle_system_chat, (messages, line, overlay), ()) ==> {
            &&& overlay ==> final(messages).action_bar is Some
                && final(messages).action_bar->0.text@ == line@
                && final(messages).action_bar->0.ticks == 60 && final(messages).chat_log
                == old(messages).chat_log
            &&& !overlay ==> final(messages).action_bar == old(messages).action_bar
                && final(messages).chat_log@.len() > 0 && final(messages).chat_log@.last() == line
        },
{
}

} // verus!
