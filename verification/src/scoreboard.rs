//! The scoreboard: objectives, scores, the sidebar and teams.

use vstd::prelude::*;
use vstd::string::*;

use crate::component::{self, read_text_component, skip_optional_number_format};
use crate::nbt::{self, read_anonymous_nbt};
use crate::order::{self, text_not_after};
use crate::protocol::ProtocolVersion;
use crate::table::{self, KeySet, Table};
use crate::text::str_eq;
use crate::wire::{self, Reader, Taken};

verus! {

/// A team and who is in it.
#[derive(Debug)]
pub struct TeamState {
    pub display_name: String,
    pub prefix: String,
    pub suffix: String,
    pub formatting: i32,
    pub members: KeySet<String>,
}

/// What a team is.
pub struct TeamModel {
    pub display_name: Seq<char>,
    pub prefix: Seq<char>,
    pub suffix: Seq<char>,
    pub formatting: i32,
    pub members: Set<Seq<char>>,
}

impl View for TeamState {
    type V = TeamModel;

    open spec fn view(&self) -> TeamModel {
        TeamModel {
            display_name: self.display_name@,
            prefix: self.prefix@,
            suffix: self.suffix@,
            formatting: self.formatting,
            members: self.members@,
        }
    }
}

/// A team without a name, without decoration and without members.
pub open spec fn blank_team() -> TeamModel {
    TeamModel {
        display_name: Seq::empty(),
        prefix: Seq::empty(),
        suffix: Seq::empty(),
        formatting: 0,
        members: Set::empty(),
    }
}

impl Default for TeamState {
    fn default() -> (r: TeamState)
        ensures
            r@ == blank_team(),
            r.members.wf(),
    {
        TeamState {
            display_name: String::new(),
            prefix: String::new(),
            suffix: String::new(),
            formatting: 0,
            members: KeySet::new(),
        }
    }
}

/// The scores of one objective.
pub type Scores = Table<String, i32>;

/// The scoreboard as the server describes it.
#[derive(Debug)]
pub struct ScoreboardState {
    /// Titles of the objectives.
    pub objectives: Table<String, String>,
    /// The objective shown at the side.
    pub sidebar: Option<String>,
    pub scores: Table<String, Scores>,
    pub teams: Table<String, TeamState>,
}

/// What the scoreboard says.
pub struct ScoreboardModel {
    pub objectives: Map<Seq<char>, Seq<char>>,
    pub sidebar: Option<Seq<char>>,
    pub scores: Map<Seq<char>, Map<Seq<char>, i32>>,
    pub teams: Map<Seq<char>, TeamModel>,
}

impl View for ScoreboardState {
    type V = ScoreboardModel;

    open spec fn view(&self) -> ScoreboardModel {
        ScoreboardModel {
            objectives: self.objectives@,
            sidebar: match self.sidebar {
                Some(name) => Some(name@),
                None => None,
            },
            scores: self.scores@,
            teams: self.teams@,
        }
    }
}

/// The longest name.
pub const MAX_NAME: u32 = 32767;

/// The most members that one packet may name.
pub const MAX_MEMBERS: i32 = 65536;

impl ScoreboardState {
    pub open spec fn wf(&self) -> bool {
        &&& self.objectives.wf()
        &&& self.scores.wf()
        &&& self.teams.wf()
        &&& forall|i: int| 0 <= i < self.scores.values@.len() ==> (#[trigger] self.scores.values@[i]).wf()
        &&& forall|i: int|
            0 <= i < self.teams.values@.len() ==> (#[trigger] self.teams.values@[i]).members.wf()
    }

    pub fn new() -> (r: Self)
        ensures
            r.wf(),
            r@.objectives == Map::<Seq<char>, Seq<char>>::empty(),
            r@.sidebar is None,
            r@.scores == Map::<Seq<char>, Map<Seq<char>, i32>>::empty(),
            r@.teams == Map::<Seq<char>, TeamModel>::empty(),
            r.teams.keys@.len() == 0,
    {
        ScoreboardState {
            objectives: Table { keys: Vec::new(), values: Vec::new() },
            sidebar: None,
            scores: Table { keys: Vec::new(), values: Vec::new() },
            teams: Table { keys: Vec::new(), values: Vec::new() },
        }
    }

    /// The place of the first team that has a member of that name, among the
    /// teams from place `i` on.
    pub open spec fn team_from(&self, name: Seq<char>, i: int) -> Option<int>
        decreases self.teams.values@.len() - i,
    {
        if i < 0 || i >= self.teams.values@.len() {
            None
        } else if self.teams.values@[i].members@.contains(name) {
            Some(i)
        } else {
            self.team_from(name, i + 1)
        }
    }

    /// A name between the prefix and the suffix of the team it belongs to; of
    /// several teams the first in the table counts.
    pub open spec fn decorated(&self, name: Seq<char>) -> Seq<char> {
        match self.team_from(name, 0) {
            Some(i) => self.teams.values@[i].prefix@ + name + self.teams.values@[i].suffix@,
            None => name,
        }
    }

    pub fn decorated_name(&self, name: &str) -> (r: String)
        ensures
            r@ == self.decorated(name@),
    {
        let key = name.to_owned();
        let mut i: usize = 0;
        while i < self.teams.values.len()
            invariant
                i <= self.teams.values@.len(),
                key@ == name@,
                self.team_from(name@, 0) == self.team_from(name@, i as int),
            decreases self.teams.values@.len() - i,
        {
            let team = &self.teams.values[i];
            if team.members.contains(&key) {
                let mut out = team.prefix.clone();
                out.append(name);
                out.append(team.suffix.as_str());
                return out;
            }
            i = i + 1;
        }
        key
    }
}

/// Only a member of some team is decorated.
pub proof fn names_without_a_team_stay_plain(board: &ScoreboardState, name: Seq<char>)
    requires
        board.wf(),
        forall|team: Seq<char>| #[trigger]
            board@.teams.dom().contains(team) ==> !board@.teams[team].members.contains(name),
    ensures
        board.decorated(name) == name,
{
    lemma_no_team(board, name, 0);
}

proof fn lemma_no_team(board: &ScoreboardState, name: Seq<char>, i: int)
    requires
        board.wf(),
        forall|team: Seq<char>| #[trigger]
            board@.teams.dom().contains(team) ==> !board@.teams[team].members.contains(name),
        0 <= i,
    ensures
        board.team_from(name, i) is None,
    decreases board.teams.values@.len() - i,
{
    if i < board.teams.values@.len() {
        board.teams.lemma_at(i);
        let key = table::Key::model(board.teams.keys@[i]);
        assert(board@.teams.dom().contains(key));
        lemma_no_team(board, name, i + 1);
    }
}

/// The sidebar after a display packet: position 1 is the sidebar, an empty name
/// clears it.
pub open spec fn displayed(board: ScoreboardModel, body: Seq<u8>) -> ScoreboardModel {
    match wire::take_i8(body) {
        (Some(position), rest) => match wire::take_string(rest, MAX_NAME as nat) {
            (Some(name), _) => if position == 1 {
                ScoreboardModel {
                    sidebar: if name.len() == 0 {
                        None
                    } else {
                        Some(name)
                    },
                    ..board
                }
            } else {
                board
            },
            (None, _) => board,
        },
        (None, _) => board,
    }
}

/// The scoreboard after an objective packet, or nothing where the packet ends
/// the session. Actions 0 and 2 set the title of an objective, action 1 removes
/// it with its scores and from the sidebar.
pub open spec fn objective_set(
    board: ScoreboardModel,
    body: Seq<u8>,
    protocol: ProtocolVersion,
) -> Option<ScoreboardModel> {
    match wire::take_string(body, MAX_NAME as nat) {
        (Some(name), rest) => match wire::take_i8(rest) {
            (Some(action), rest) => if action == 0 || action == 2 {
                match component::take_component(rest, protocol) {
                    (Some(display), rest) => {
                        let set = ScoreboardModel {
                            objectives: board.objectives.insert(name, display),
                            ..board
                        };
                        if protocol.nbt_components() {
                            match component::take_number_format(wire::take_varint(rest).1).0 {
                                Some(_) => Some(set),
                                None => None,
                            }
                        } else {
                            Some(set)
                        }
                    },
                    (None, _) => Some(board),
                }
            } else if action == 1 {
                Some(
                    ScoreboardModel {
                        objectives: board.objectives.remove(name),
                        scores: board.scores.remove(name),
                        sidebar: if board.sidebar == Some(name) {
                            None
                        } else {
                            board.sidebar
                        },
                        ..board
                    },
                )
            } else {
                Some(board)
            },
            (None, _) => Some(board),
        },
        (None, _) => Some(board),
    }
}

/// The scores of an objective, empty ones where it has none yet.
pub open spec fn scores_of(
    scores: Map<Seq<char>, Map<Seq<char>, i32>>,
    objective: Seq<char>,
) -> Map<Seq<char>, i32> {
    if scores.dom().contains(objective) {
        scores[objective]
    } else {
        Map::empty()
    }
}

/// The scoreboard after a score packet, or nothing where the packet ends the
/// session.
pub open spec fn score_set(
    board: ScoreboardModel,
    body: Seq<u8>,
    protocol: ProtocolVersion,
) -> Option<ScoreboardModel> {
    match wire::take_string(body, MAX_NAME as nat) {
        (Some(item), rest) => if protocol.nbt_components() {
            match wire::take_string(rest, MAX_NAME as nat) {
                (Some(objective), rest) => match wire::take_varint(rest) {
                    (Some(value), rest) => match take_optional_component(rest) {
                        (Some(_), rest) => match component::take_number_format(rest).0 {
                            Some(_) => Some(
                                ScoreboardModel {
                                    scores: board.scores.insert(
                                        objective,
                                        scores_of(board.scores, objective).insert(item, value),
                                    ),
                                    ..board
                                },
                            ),
                            None => None,
                        },
                        (None, _) => None,
                    },
                    (None, _) => Some(board),
                },
                (None, _) => Some(board),
            }
        } else {
            match wire::take_varint(rest) {
                (Some(action), rest) => match wire::take_string(rest, MAX_NAME as nat) {
                    (Some(objective), rest) => {
                        let scores = scores_of(board.scores, objective);
                        let changed = if action == 1 {
                            scores.remove(item)
                        } else {
                            match wire::take_varint(rest).0 {
                                Some(value) => scores.insert(item, value),
                                None => scores,
                            }
                        };
                        Some(
                            ScoreboardModel {
                                scores: board.scores.insert(objective, changed),
                                ..board
                            },
                        )
                    },
                    (None, _) => Some(board),
                },
                (None, _) => Some(board),
            }
        },
        (None, _) => Some(board),
    }
}

/// A component that is there or not.
pub open spec fn take_optional_component(s: Seq<u8>) -> Taken<()> {
    match wire::take_bool(s) {
        (Some(present), rest) => if present {
            match nbt::take_anonymous_nbt(rest) {
                (Some(_), rest) => (Some(()), rest),
                (None, rest) => (None, rest),
            }
        } else {
            (Some(()), rest)
        },
        (None, rest) => (None, rest),
    }
}

fn skip_optional_component(r: &mut Reader) -> (v: Option<()>)
    ensures
        (v, final(r)@) == take_optional_component(old(r)@),
{
    match r.bool() {
        Some(present) => {
            if present {
                match read_anonymous_nbt(r) {
                    Some(_) => Some(()),
                    None => None,
                }
            } else {
                Some(())
            }
        },
        None => None,
    }
}

/// The scores without an entry, of one objective or of all.
pub open spec fn entry_reset(
    scores: Map<Seq<char>, Map<Seq<char>, i32>>,
    item: Seq<char>,
    objective: Option<Seq<char>>,
) -> Map<Seq<char>, Map<Seq<char>, i32>> {
    match objective {
        Some(objective) => if scores.dom().contains(objective) {
            scores.insert(objective, scores[objective].remove(item))
        } else {
            scores
        },
        None => Map::new(
            |name: Seq<char>| scores.dom().contains(name),
            |name: Seq<char>| scores[name].remove(item),
        ),
    }
}

/// An entry to be reset, and the objective it is reset in.
pub open spec fn reset_request(body: Seq<u8>) -> Option<(Seq<char>, Option<Seq<char>>)> {
    match wire::take_string(body, MAX_NAME as nat) {
        (Some(item), rest) => match wire::take_bool(rest) {
            (Some(named), rest) => if named {
                match wire::take_string(rest, MAX_NAME as nat) {
                    (Some(objective), _) => Some((item, Some(objective))),
                    (None, _) => None,
                }
            } else {
                Some((item, None))
            },
            (None, _) => None,
        },
        (None, _) => None,
    }
}

impl ScoreboardState {
    pub fn handle_display(&mut self, body: &[u8])
        requires
            old(self).wf(),
        ensures
            final(self).wf(),
            final(self)@ == displayed(old(self)@, body@),
    {
        let mut r = Reader::new(body);
        let position: i8 = match r.i8() {
            Some(position) => position,
            None => return ,
        };
        match r.string(MAX_NAME) {
            Some(name) => {
                if position == 1 {
                    self.sidebar = if name.as_str().is_empty() {
                        None
                    } else {
                        Some(name)
                    };
                }
            },
            None => {},
        }
    }

    /// An objective was set or removed. `false` where the session must end.
    pub fn handle_objective(&mut self, body: &[u8], protocol: ProtocolVersion) -> (ok: bool)
        requires
            old(self).wf(),
        ensures
            final(self).wf(),
            match objective_set(old(self)@, body@, protocol) {
                Some(model) => ok && final(self)@ == model,
                None => !ok && final(self)@ == old(self)@,
            },
    {
        let mut r = Reader::new(body);
        let name = match r.string(MAX_NAME) {
            Some(name) => name,
            None => return true,
        };
        let action: i8 = match r.i8() {
            Some(action) => action,
            None => return true,
        };
        if action == 0 || action == 2 {
            match read_text_component(&mut r, protocol) {
                Some(display) => {
                    let _ = r.varint();
                    if protocol.uses_nbt_components() {
                        if skip_optional_number_format(&mut r).is_none() {
                            return false;
                        }
                    }
                    self.objectives.insert(name, display);
                },
                None => {},
            }
        } else if action == 1 {
            let _ = self.objectives.remove(&name);
            let _ = self.scores.remove(&name);
            let cleared = match &self.sidebar {
                Some(sidebar) => str_eq(sidebar.as_str(), name.as_str()),
                None => false,
            };
            if cleared {
                self.sidebar = None;
            }
        }
        true
    }
}

impl ScoreboardState {
    /// Takes the scores of an objective out of the table.
    fn take_scores(&mut self, objective: &String) -> (r: Scores)
        requires
            old(self).wf(),
        ensures
            final(self).wf(),
            r.wf(),
            r@ == scores_of(old(self).scores@, objective@),
            final(self).scores@ == old(self).scores@.remove(objective@),
            final(self).objectives == old(self).objectives,
            final(self).sidebar == old(self).sidebar,
            final(self).teams == old(self).teams,
    {
        match self.scores.remove(objective) {
            Some(scores) => scores,
            None => {
                proof {
                    assert(self.scores@ =~= self.scores@.remove(objective@));
                }
                Table::new()
            },
        }
    }

    /// A score was set or removed. `false` where the session must end.
    pub fn handle_score(&mut self, body: &[u8], protocol: ProtocolVersion) -> (ok: bool)
        requires
            old(self).wf(),
        ensures
            final(self).wf(),
            match score_set(old(self)@, body@, protocol) {
                Some(model) => ok && final(self)@ == model,
                None => !ok && final(self)@ == old(self)@,
            },
    {
        let mut r = Reader::new(body);
        let item = match r.string(MAX_NAME) {
            Some(item) => item,
            None => return true,
        };
        let ghost before = self.scores@;
        if protocol.uses_nbt_components() {
            let objective = match r.string(MAX_NAME) {
                Some(objective) => objective,
                None => return true,
            };
            let value: i32 = match r.varint() {
                Some(value) => value,
                None => return true,
            };
            if skip_optional_component(&mut r).is_none() {
                return false;
            }
            if skip_optional_number_format(&mut r).is_none() {
                return false;
            }
            let mut scores = self.take_scores(&objective);
            scores.insert(item, value);
            let ghost model = scores@;
            self.scores.insert(objective, scores);
            proof {
                assert(self.scores@ =~= before.insert(objective@, model));
            }
            return true;
        }
        let action: i32 = match r.varint() {
            Some(action) => action,
            None => return true,
        };
        let objective = match r.string(MAX_NAME) {
            Some(objective) => objective,
            None => return true,
        };
        let mut scores = self.take_scores(&objective);
        if action == 1 {
            let _ = scores.remove(&item);
        } else {
            match r.varint() {
                Some(value) => scores.insert(item, value),
                None => {},
            }
        }
        let ghost model = scores@;
        self.scores.insert(objective, scores);
        proof {
            assert(self.scores@ =~= before.insert(objective@, model));
        }
        true
    }

    /// An entry loses its scores. `false` where the session must end.
    pub fn handle_reset_score_765(&mut self, body: &[u8]) -> (ok: bool)
        requires
            old(self).wf(),
        ensures
            final(self).wf(),
            ok == reset_request(body@) is Some,
            final(self)@ == match reset_request(body@) {
                Some((item, objective)) => ScoreboardModel {
                    scores: entry_reset(old(self)@.scores, item, objective),
                    ..old(self)@
                },
                None => old(self)@,
            },
    {
        let mut r = Reader::new(body);
        let item = match r.string(MAX_NAME) {
            Some(item) => item,
            None => return false,
        };
        let named: bool = match r.bool() {
            Some(named) => named,
            None => return false,
        };
        if named {
            let objective = match r.string(MAX_NAME) {
                Some(objective) => objective,
                None => return false,
            };
            let ghost before = self.scores@;
            match self.scores.remove(&objective) {
                Some(scores) => {
                    let mut scores = scores;
                    let _ = scores.remove(&item);
                    let ghost model = scores@;
                    self.scores.insert(objective, scores);
                    proof {
                        assert(self.scores@ =~= before.insert(objective@, model));
                    }
                },
                None => {
                    proof {
                        assert(before.remove(objective@) =~= before);
                    }
                },
            }
            return true;
        }
        let ghost before = self.scores;
        let mut kept: Table<String, Scores> = Table::new();
        let mut i: usize = 0;
        while i < self.scores.len()
            invariant
                self.scores == before,
                before.wf(),
                self.objectives == old(self).objectives,
                self.sidebar == old(self).sidebar,
                self.teams == old(self).teams,
                forall|j: int| 0 <= j < before.values@.len() ==> (#[trigger] before.values@[j]).wf(),
                kept.wf(),
                forall|j: int| 0 <= j < kept.values@.len() ==> (#[trigger] kept.values@[j]).wf(),
                i <= before.keys@.len(),
                forall|name: Seq<char>|
                    kept@.dom().contains(name) <==> exists|j: int|
                        0 <= j < i && table::Key::model(#[trigger] before.keys@[j]) == name,
                forall|name: Seq<char>|
                    kept@.dom().contains(name) ==> before@.dom().contains(name)
                        && #[trigger] kept@[name] == before@[name].remove(item@),
            decreases before.keys@.len() - i,
        {
            let name = self.scores.keys[i].clone();
            let mut scores = copy_scores(&self.scores.values[i]);
            let _ = scores.remove(&item);
            proof {
                before.lemma_at(i as int);
            }
            let ghost earlier = kept@;
            kept.insert(name, scores);
            proof {
                assert forall|n: Seq<char>|
                    kept@.dom().contains(n) <==> exists|j: int|
                        0 <= j < i + 1 && table::Key::model(#[trigger] before.keys@[j]) == n by {
                    if n == name@ {
                        assert(table::Key::model(before.keys@[i as int]) == n);
                    }
                    if earlier.dom().contains(n) {
                        let j = choose|j: int|
                            0 <= j < i && table::Key::model(#[trigger] before.keys@[j]) == n;
                        assert(0 <= j < i + 1 && table::Key::model(before.keys@[j]) == n);
                    }
                }
            }
            i = i + 1;
        }
        proof {
            let want = entry_reset(before@, item@, None);
            assert forall|n: Seq<char>| kept@.dom().contains(n) <==> want.dom().contains(n) by {
                if want.dom().contains(n) {
                    let j = before.lemma_key(n);
                    assert(table::Key::model(before.keys@[j]) == n);
                }
            }
            assert(kept@ =~= want);
        }
        self.scores = kept;
        true
    }
}

fn copy_scores(scores: &Scores) -> (r: Scores)
    requires
        scores.wf(),
    ensures
        r.wf(),
        r@ == scores@,
{
    let keys = scores.keys.clone();
    let values = scores.values.clone();
    let r = Table { keys, values };
    proof {
        assert(r.keys@ =~= scores.keys@);
        assert(r.values@ =~= scores.values@);
    }
    r
}

/// The texts of a team.
pub struct TeamLook {
    pub display_name: Seq<char>,
    pub formatting: i32,
    pub prefix: Seq<char>,
    pub suffix: Seq<char>,
}

pub open spec fn take_look(s: Seq<u8>, protocol: ProtocolVersion) -> Taken<TeamLook> {
    match component::take_component(s, protocol) {
        (Some(display_name), rest) => match wire::take_i8(rest) {
            (Some(_), rest) => match wire::take_string(rest, MAX_NAME as nat) {
                (Some(_), rest) => match wire::take_string(rest, MAX_NAME as nat) {
                    (Some(_), rest) => match wire::take_varint(rest) {
                        (Some(formatting), rest) => match component::take_component(
                            rest,
                            protocol,
                        ) {
                            (Some(prefix), rest) => match component::take_component(
                                rest,
                                protocol,
                            ) {
                                (Some(suffix), rest) => (
                                    Some(TeamLook { display_name, formatting, prefix, suffix }),
                                    rest,
                                ),
                                (None, rest) => (None, rest),
                            },
                            (None, rest) => (None, rest),
                        },
                        (None, rest) => (None, rest),
                    },
                    (None, rest) => (None, rest),
                },
                (None, rest) => (None, rest),
            },
            (None, rest) => (None, rest),
        },
        (None, rest) => (None, rest),
    }
}

/// `n` more names behind those in `acc`.
pub open spec fn take_names(s: Seq<u8>, n: nat, acc: Seq<Seq<char>>) -> Taken<Seq<Seq<char>>>
    decreases n,
{
    if n == 0 {
        (Some(acc), s)
    } else {
        match wire::take_string(s, MAX_NAME as nat) {
            (Some(name), rest) => take_names(rest, (n - 1) as nat, acc.push(name)),
            (None, rest) => (None, rest),
        }
    }
}

pub open spec fn take_members(s: Seq<u8>) -> Taken<Seq<Seq<char>>> {
    match wire::take_varint(s) {
        (Some(count), rest) => if 0 <= count <= MAX_MEMBERS {
            take_names(rest, count as nat, Seq::empty())
        } else {
            (None, rest)
        },
        (None, rest) => (None, rest),
    }
}

/// What a team packet asks for.
pub struct TeamChange {
    pub team: Seq<char>,
    pub mode: i8,
    pub look: Option<TeamLook>,
    pub members: Seq<Seq<char>>,
}

/// A team packet: modes 0 and 2 carry the texts of a team, modes 0, 3 and 4
/// names of members.
pub open spec fn team_change(body: Seq<u8>, protocol: ProtocolVersion) -> Option<TeamChange> {
    match wire::take_string(body, MAX_NAME as nat) {
        (Some(team), rest) => match wire::take_i8(rest) {
            (Some(mode), rest) => if mode == 1 {
                Some(TeamChange { team, mode, look: None, members: Seq::empty() })
            } else if mode == 0 {
                match take_look(rest, protocol) {
                    (Some(look), rest) => match take_members(rest).0 {
                        Some(members) => Some(
                            TeamChange { team, mode, look: Some(look), members },
                        ),
                        None => None,
                    },
                    (None, _) => None,
                }
            } else if mode == 2 {
                match take_look(rest, protocol).0 {
                    Some(look) => Some(
                        TeamChange { team, mode, look: Some(look), members: Seq::empty() },
                    ),
                    None => None,
                }
            } else if mode == 3 || mode == 4 {
                match take_members(rest).0 {
                    Some(members) => Some(TeamChange { team, mode, look: None, members }),
                    None => None,
                }
            } else {
                Some(TeamChange { team, mode, look: None, members: Seq::empty() })
            },
            (None, _) => None,
        },
        (None, _) => None,
    }
}

/// The names in a sequence.
pub open spec fn name_set(names: Seq<Seq<char>>) -> Set<Seq<char>> {
    Set::new(|name: Seq<char>| names.contains(name))
}

/// A team after a change: mode 0 sets its members, 3 adds some, 4 removes some.
pub open spec fn team_after(team: TeamModel, change: TeamChange) -> TeamModel {
    let members = if change.mode == 0 {
        name_set(change.members)
    } else if change.mode == 3 {
        team.members.union(name_set(change.members))
    } else if change.mode == 4 {
        team.members.difference(name_set(change.members))
    } else {
        team.members
    };
    match change.look {
        Some(look) => TeamModel {
            display_name: look.display_name,
            prefix: look.prefix,
            suffix: look.suffix,
            formatting: look.formatting,
            members,
        },
        None => TeamModel { members, ..team },
    }
}

/// The teams after a packet: mode 1 removes a team, any other changes it and
/// makes it where it is not there.
pub open spec fn teams_after(
    teams: Map<Seq<char>, TeamModel>,
    change: TeamChange,
) -> Map<Seq<char>, TeamModel> {
    if change.mode == 1 {
        teams.remove(change.team)
    } else {
        let team = if teams.dom().contains(change.team) {
            teams[change.team]
        } else {
            blank_team()
        };
        teams.insert(change.team, team_after(team, change))
    }
}

pub open spec fn string_views(names: Seq<String>) -> Seq<Seq<char>> {
    Seq::new(names.len(), |i: int| names[i]@)
}

fn read_members(r: &mut Reader) -> (v: Option<Vec<String>>)
    ensures
        match take_members(old(r)@) {
            (Some(models), rest) => v matches Some(names) && string_views(names@) == models
                && final(r)@ == rest,
            (None, rest) => v is None && final(r)@ == rest,
        },
{
    let count: i32 = match r.varint() {
        Some(count) => count,
        None => return None,
    };
    if count < 0 || count > MAX_MEMBERS {
        return None;
    }
    let ghost start = r@;
    let mut out: Vec<String> = Vec::new();
    let mut left: i32 = count;
    proof {
        assert(string_views(out@) =~= Seq::empty());
    }
    while left > 0
        invariant
            0 <= left <= count <= MAX_MEMBERS,
            take_members(old(r)@) == take_names(start, count as nat, Seq::empty()),
            take_names(start, count as nat, Seq::empty()) == take_names(
                r@,
                left as nat,
                string_views(out@),
            ),
        decreases left,
    {
        match r.string(MAX_NAME) {
            Some(name) => {
                let ghost before = out@;
                out.push(name);
                proof {
                    assert(string_views(out@) =~= string_views(before).push(name@));
                }
            },
            None => return None,
        }
        left = left - 1;
    }
    Some(out)
}

fn add_members(members: &mut KeySet<String>, names: Vec<String>)
    requires
        old(members).wf(),
    ensures
        final(members).wf(),
        final(members)@ == old(members)@.union(name_set(string_views(names@))),
{
    let mut i: usize = 0;
    let ghost views = string_views(names@);
    proof {
        assert(members@ =~= members@.union(name_set(views.subrange(0, 0))));
    }
    while i < names.len()
        invariant
            members.wf(),
            i <= names@.len(),
            views == string_views(names@),
            members@ == old(members)@.union(name_set(views.subrange(0, i as int))),
        decreases names@.len() - i,
    {
        let ghost before = members@;
        members.insert(names[i].clone());
        proof {
            let sub = views.subrange(0, i as int);
            let next = views.subrange(0, i + 1);
            assert(next =~= sub.push(views[i as int]));
            assert forall|n: Seq<char>| next.contains(n) <==> (sub.contains(n) || n
                == views[i as int]) by {
                if sub.contains(n) {
                    let k = sub.index_of(n);
                    assert(next[k] == n);
                }
                if n == views[i as int] {
                    assert(next[i as int] == n);
                }
            }
            assert(members@ =~= old(members)@.union(name_set(next)));
        }
        i = i + 1;
    }
    proof {
        assert(views.subrange(0, i as int) =~= views);
    }
}

fn drop_members(members: &mut KeySet<String>, names: Vec<String>)
    requires
        old(members).wf(),
    ensures
        final(members).wf(),
        final(members)@ == old(members)@.difference(name_set(string_views(names@))),
{
    let mut i: usize = 0;
    let ghost views = string_views(names@);
    proof {
        assert(members@ =~= members@.difference(name_set(views.subrange(0, 0))));
    }
    while i < names.len()
        invariant
            members.wf(),
            i <= names@.len(),
            views == string_views(names@),
            members@ == old(members)@.difference(name_set(views.subrange(0, i as int))),
        decreases names@.len() - i,
    {
        let ghost before = members@;
        members.remove(&names[i]);
        proof {
            let sub = views.subrange(0, i as int);
            let next = views.subrange(0, i + 1);
            assert(next =~= sub.push(views[i as int]));
            assert forall|n: Seq<char>| next.contains(n) <==> (sub.contains(n) || n
                == views[i as int]) by {
                if sub.contains(n) {
                    let k = sub.index_of(n);
                    assert(next[k] == n);
                }
                if n == views[i as int] {
                    assert(next[i as int] == n);
                }
            }
            assert(members@ =~= old(members)@.difference(name_set(next)));
        }
        i = i + 1;
    }
    proof {
        assert(views.subrange(0, i as int) =~= views);
    }
}

/// The texts of a team, read.
struct ReadLook {
    display_name: String,
    formatting: i32,
    prefix: String,
    suffix: String,
}

impl ReadLook {
    spec fn model(&self) -> TeamLook {
        TeamLook {
            display_name: self.display_name@,
            formatting: self.formatting,
            prefix: self.prefix@,
            suffix: self.suffix@,
        }
    }
}

fn read_look(r: &mut Reader, protocol: ProtocolVersion) -> (v: Option<ReadLook>)
    ensures
        match take_look(old(r)@, protocol) {
            (Some(model), rest) => v matches Some(look) && look.model() == model && final(r)@
                == rest,
            (None, rest) => v is None && final(r)@ == rest,
        },
{
    let display_name = match read_text_component(r, protocol) {
        Some(text) => text,
        None => return None,
    };
    if r.i8().is_none() {
        return None;
    }
    if r.string(MAX_NAME).is_none() {
        return None;
    }
    if r.string(MAX_NAME).is_none() {
        return None;
    }
    let formatting: i32 = match r.varint() {
        Some(v) => v,
        None => return None,
    };
    let prefix = match read_text_component(r, protocol) {
        Some(text) => text,
        None => return None,
    };
    match read_text_component(r, protocol) {
        Some(suffix) => Some(ReadLook { display_name, formatting, prefix, suffix }),
        None => None,
    }
}

/// The scoreboard after a packet about a team; a malformed one is ignored.
pub open spec fn team_set(
    board: ScoreboardModel,
    body: Seq<u8>,
    protocol: ProtocolVersion,
) -> ScoreboardModel {
    match team_change(body, protocol) {
        Some(change) => ScoreboardModel { teams: teams_after(board.teams, change), ..board },
        None => board,
    }
}

impl ScoreboardState {
    /// A team was made, changed or removed.
    pub fn handle_team_packet(&mut self, body: &[u8], protocol: ProtocolVersion)
        requires
            old(self).wf(),
        ensures
            final(self).wf(),
            final(self)@ == team_set(old(self)@, body@, protocol),
    {
        let mut r = Reader::new(body);
        let name = match r.string(MAX_NAME) {
            Some(name) => name,
            None => return ,
        };
        let mode: i8 = match r.i8() {
            Some(mode) => mode,
            None => return ,
        };
        if mode == 1 {
            let _ = self.teams.remove(&name);
            return ;
        }
        let look = if mode == 0 || mode == 2 {
            match read_look(&mut r, protocol) {
                Some(look) => Some(look),
                None => return ,
            }
        } else {
            None
        };
        let members = if mode == 0 || mode == 3 || mode == 4 {
            match read_members(&mut r) {
                Some(members) => members,
                None => return ,
            }
        } else {
            Vec::new()
        };
        let ghost before = self.teams@;
        let ghost change = team_change(body@, protocol)->0;
        proof {
            assert(string_views(members@) =~= change.members);
        }
        let mut team = match self.teams.remove(&name) {
            Some(team) => team,
            None => {
                proof {
                    assert(before.remove(name@) =~= before);
                }
                TeamState::default()
            },
        };
        let ghost start = team@;
        match look {
            Some(look) => {
                team.display_name = look.display_name;
                team.formatting = look.formatting;
                team.prefix = look.prefix;
                team.suffix = look.suffix;
            },
            None => {},
        }
        if mode == 0 {
            team.members = KeySet::new();
            add_members(&mut team.members, members);
            proof {
                assert(team@.members =~= name_set(change.members));
            }
        } else if mode == 3 {
            add_members(&mut team.members, members);
        } else if mode == 4 {
            drop_members(&mut team.members, members);
        }
        let ghost model = team@;
        proof {
            assert(model == team_after(start, change));
        }
        self.teams.insert(name, team);
        proof {
            assert(self.teams@ =~= before.insert(name@, model));
        }
    }
}

/// A line of the sidebar.
#[derive(Debug)]
pub struct SidebarRow {
    pub name: String,
    pub score: i32,
}

impl View for SidebarRow {
    type V = (Seq<char>, i32);

    open spec fn view(&self) -> (Seq<char>, i32) {
        (self.name@, self.score)
    }
}

/// Higher scores come first, equal ones by name.
pub open spec fn row_le(a: (Seq<char>, i32), b: (Seq<char>, i32)) -> bool {
    a.1 > b.1 || (a.1 == b.1 && order::text_le(a.0, b.0))
}

pub open spec fn row_order() -> spec_fn((Seq<char>, i32), (Seq<char>, i32)) -> bool {
    |a: (Seq<char>, i32), b: (Seq<char>, i32)| row_le(a, b)
}

pub open spec fn row_views(rows: Seq<SidebarRow>) -> Seq<(Seq<char>, i32)> {
    Seq::new(rows.len(), |i: int| rows[i]@)
}

/// The most lines that the sidebar shows.
pub const SIDEBAR_ROWS: usize = 15;

impl ScoreboardState {
    /// The entries of an objective with their decorated names.
    pub open spec fn decorated_scores(&self, scores: &Scores) -> Seq<(Seq<char>, i32)> {
        Seq::new(
            scores.keys@.len(),
            |i: int| (self.decorated(scores.keys@[i]@), scores.values@[i]),
        )
    }

    /// The title of the sidebar: that of its objective, or its name where it
    /// has none.
    pub open spec fn sidebar_title(&self) -> Option<Seq<char>> {
        match self@.sidebar {
            Some(objective) => Some(
                if self@.objectives.dom().contains(objective) {
                    self@.objectives[objective]
                } else {
                    objective
                },
            ),
            None => None,
        }
    }

    /// The title and the lines of the sidebar, where one is shown: the scores
    /// of its objective in order, as many as fit.
    pub fn sidebar_rows(&self) -> (r: Option<(String, Vec<SidebarRow>)>)
        requires
            self.wf(),
        ensures
            match r {
                Some((title, rows)) => {
                    &&& self.sidebar_title() == Some(title@)
                    &&& match self.sidebar {
                        Some(objective) => if self.scores@.dom().contains(objective@) {
                            exists|i: int|
                                0 <= i < self.scores.keys@.len() && (
                                #[trigger] self.scores.keys@[i])@ == objective@
                                    && order::top_sorted(
                                    self.decorated_scores(&self.scores.values@[i]),
                                    row_order(),
                                    SIDEBAR_ROWS as int,
                                    row_views(rows@),
                                )
                        } else {
                            rows@.len() == 0
                        },
                        None => false,
                    }
                },
                None => self.sidebar is None,
            },
    {
        let objective = match &self.sidebar {
            Some(objective) => objective,
            None => return None,
        };
        let title = match self.objectives.get(objective) {
            Some(title) => title.clone(),
            None => objective.clone(),
        };
        match self.scores.find(objective) {
            Some(i) => {
                let rows = self.sorted_rows(&self.scores.values[i]);
                proof {
                    assert(self.scores.keys@[i as int]@ == objective@);
                }
                Some((title, rows))
            },
            None => Some((title, Vec::new())),
        }
    }

    fn sorted_rows(&self, scores: &Scores) -> (r: Vec<SidebarRow>)
        requires
            scores.wf(),
        ensures
            order::top_sorted(
                self.decorated_scores(scores),
                row_order(),
                SIDEBAR_ROWS as int,
                row_views(r@),
            ),
    {
        let mut rows: Vec<SidebarRow> = Vec::new();
        let mut i: usize = 0;
        let ghost entries = self.decorated_scores(scores);
        proof {
            assert(row_views(rows@) =~= entries.subrange(0, 0));
        }
        while i < scores.len()
            invariant
                scores.wf(),
                i <= scores.keys@.len(),
                entries == self.decorated_scores(scores),
                order::sorted(row_views(rows@), row_order()),
                row_views(rows@).to_multiset() == entries.subrange(0, i as int).to_multiset(),
            decreases scores.keys@.len() - i,
        {
            let name = self.decorated_name(scores.keys[i].as_str());
            let score: i32 = scores.values[i];
            let row = SidebarRow { name, score };
            let ghost before = row_views(rows@);
            let ghost model = row@;
            insert_row(&mut rows, row);
            proof {
                let sub = entries.subrange(0, i as int);
                assert(entries.subrange(0, i + 1) =~= sub.push(model));
                vstd::seq_lib::to_multiset_build(sub, model);
            }
            i = i + 1;
        }
        proof {
            assert(entries.subrange(0, i as int) =~= entries);
        }
        let ghost all = row_views(rows@);
        if rows.len() > SIDEBAR_ROWS {
            rows.truncate(SIDEBAR_ROWS);
        }
        proof {
            assert(row_views(rows@) =~= order::first_n(all, SIDEBAR_ROWS as int));
        }
        rows
    }
}

proof fn lemma_row_le(a: (Seq<char>, i32), b: (Seq<char>, i32), c: (Seq<char>, i32))
    ensures
        row_le(a, a),
        row_le(a, b) || row_le(b, a),
        row_le(a, b) && row_le(b, c) ==> row_le(a, c),
{
    order::lemma_text_le_total(a.0, a.0);
    order::lemma_text_le_total(a.0, b.0);
    if row_le(a, b) && row_le(b, c) && a.1 == b.1 && b.1 == c.1 {
        order::lemma_text_le_transitive(a.0, b.0, c.0);
    }
}

fn row_not_after(a: &SidebarRow, b: &SidebarRow) -> (r: bool)
    ensures
        r == row_le(a@, b@),
{
    a.score > b.score || (a.score == b.score && text_not_after(a.name.as_str(), b.name.as_str()))
}

fn insert_row(rows: &mut Vec<SidebarRow>, row: SidebarRow)
    requires
        order::sorted(row_views(old(rows)@), row_order()),
    ensures
        order::sorted(row_views(final(rows)@), row_order()),
        row_views(final(rows)@).to_multiset() == row_views(old(rows)@).to_multiset().insert(row@),
{
    let ghost views = row_views(rows@);
    let ghost model = row@;
    let mut at: usize = 0;
    while at < rows.len() && row_not_after(&rows[at], &row)
        invariant
            at <= rows@.len(),
            views == row_views(rows@),
            model == row@,
            forall|i: int| 0 <= i < at ==> row_le(#[trigger] views[i], model),
        decreases rows@.len() - at,
    {
        assert(row_le(views[at as int], model));
        at = at + 1;
    }
    proof {
        assert forall|i: int| at <= i < views.len() implies row_le(model, #[trigger] views[i]) by {
            lemma_row_le(views[at as int], model, model);
            assert(row_order()(views[at as int], views[i]));
            lemma_row_le(model, views[at as int], views[i]);
        }
        lemma_row_le(model, model, model);
        order::lemma_insert_adds(views, at as int, model);
        order::lemma_insert_sorted(views, at as int, model, row_order());
    }
    rows.insert(at, row);
    proof {
        assert(row_views(rows@) =~= views.insert(at as int, model));
    }
}

/// Adding members to a team and removing them again leaves those that were
/// there before and were not named.
pub proof fn team_members_come_and_go(team: TeamModel, name: Seq<char>, names: Seq<Seq<char>>)
    requires
        names.contains(name),
    ensures
        ({
            let join = TeamChange { team: name, mode: 3, look: None, members: names };
            let leave = TeamChange { team: name, mode: 4, look: None, members: names };
            let joined = team_after(team, join);
            &&& joined.members.contains(name)
            &&& !team_after(joined, leave).members.contains(name)
            &&& team_after(joined, leave).members == team.members.difference(name_set(names))
        }),
{
    let join = TeamChange { team: name, mode: 3, look: None, members: names };
    let leave = TeamChange { team: name, mode: 4, look: None, members: names };
    assert(team_after(team_after(team, join), leave).members =~= team.members.difference(
        name_set(names),
    ));
}

/// A member stands between the prefix and the suffix of its team.
pub proof fn members_are_decorated(board: &ScoreboardState, name: Seq<char>, i: int)
    requires
        0 <= i < board.teams.values@.len(),
        board.teams.values@[i].members@.contains(name),
        forall|k: int| 0 <= k < i ==> !(#[trigger] board.teams.values@[k]).members@.contains(name),
    ensures
        board.decorated(name) == board.teams.values@[i].prefix@ + name
            + board.teams.values@[i].suffix@,
{
    lemma_first_team(board, name, i, 0);
}

proof fn lemma_first_team(board: &ScoreboardState, name: Seq<char>, i: int, from: int)
    requires
        0 <= from <= i < board.teams.values@.len(),
        board.teams.values@[i].members@.contains(name),
        forall|k: int| 0 <= k < i ==> !(#[trigger] board.teams.values@[k]).members@.contains(name),
    ensures
        board.team_from(name, from) == Some(i),
    decreases i - from,
{
    if from < i {
        lemma_first_team(board, name, i, from + 1);
    }
}

/// The display of position 1 is the sidebar; it shows the objective that is named, and none
/// for an empty name, and nothing else changes.
pub proof fn position_one_is_the_sidebar(
    board: ScoreboardModel,
    body: Seq<u8>,
    position: i8,
    rest: Seq<u8>,
    name: Seq<char>,
)
    requires
        wire::take_i8(body) == (Some(position), rest),
        wire::take_string(rest, 32767).0 == Some(name),
    ensures
        position == 1 && name.len() > 0 ==> displayed(board, body).sidebar == Some(name),
        position == 1 && name.len() == 0 ==> displayed(board, body).sidebar is None,
        position != 1 ==> displayed(board, body) == board,
        displayed(board, body).objectives == board.objectives,
        displayed(board, body).scores == board.scores,
        displayed(board, body).teams == board.teams,
{
}

/// An objective gets a title by actions 0 and 2, and goes with its scores, and from the
/// sidebar, by action 1; other objectives and the teams stay.
pub proof fn objectives_come_and_go(
    board: ScoreboardModel,
    body: Seq<u8>,
    protocol: ProtocolVersion,
    name: Seq<char>,
    rest: Seq<u8>,
    title: Seq<char>,
    behind: Seq<u8>,
    other: Seq<char>,
)
    requires
        wire::take_string(body, 32767) == (Some(name), rest),
        rest.len() > 0,
        rest[0] < 128,
        component::take_component(rest.subrange(1, rest.len() as int), protocol) == (
            Some(title),
            behind,
        ),
        protocol.number() >= 765 ==> component::take_number_format(
            wire::take_varint(behind).1,
        ).0 is Some,
        other != name,
    ensures
        objective_set(board, body, protocol) matches Some(after) && {
            &&& rest[0] == 0 || rest[0] == 2 ==> {
                &&& after.objectives.dom().contains(name) && after.objectives[name] == title
                &&& after.scores == board.scores && after.sidebar == board.sidebar
            }
            &&& rest[0] == 1 ==> {
                &&& !after.objectives.dom().contains(name)
                &&& !after.scores.dom().contains(name)
                &&& after.sidebar != Some(name)
                &&& board.sidebar != Some(name) ==> after.sidebar == board.sidebar
            }
            &&& rest[0] > 2 ==> after == board
            &&& after.teams == board.teams
            &&& after.objectives.dom().contains(other) <==> board.objectives.dom().contains(other)
            &&& after.objectives[other] == board.objectives[other]
            &&& after.scores.dom().contains(other) <==> board.scores.dom().contains(other)
            &&& after.scores[other] == board.scores[other]
        },
{
    let b = rest[0];
    wire::signed_numbers_wrap(rest, b, 0, 0, 0);
}

/// Before protocol 765 a score names its entry, an action and its objective; action 1 takes
/// the entry away and every other sets its score. Nothing else changes.
pub proof fn scores_are_set_by_action(
    board: ScoreboardModel,
    body: Seq<u8>,
    protocol: ProtocolVersion,
    item: Seq<char>,
    r1: Seq<u8>,
    action: i32,
    r2: Seq<u8>,
    objective: Seq<char>,
    r3: Seq<u8>,
    value: i32,
    other: Seq<char>,
)
    requires
        protocol.number() < 765,
        wire::take_string(body, 32767) == (Some(item), r1),
        wire::take_varint(r1) == (Some(action), r2),
        wire::take_string(r2, 32767) == (Some(objective), r3),
        wire::take_varint(r3).0 == Some(value),
    ensures
        score_set(board, body, protocol) matches Some(after) && {
            &&& after.scores.dom().contains(objective)
            &&& action == 1 ==> !after.scores[objective].dom().contains(item)
            &&& action != 1 ==> after.scores[objective].dom().contains(item)
                && after.scores[objective][item] == value
            &&& other != item && board.scores.dom().contains(objective) ==> (
            after.scores[objective].dom().contains(other)
                <==> board.scores[objective].dom().contains(other))
                && after.scores[objective][other] == board.scores[objective][other]
            &&& other != item && !board.scores.dom().contains(objective)
                ==> !after.scores[objective].dom().contains(other)
            &&& other != objective ==> (after.scores.dom().contains(other)
                <==> board.scores.dom().contains(other)) && after.scores[other]
                == board.scores[other]
            &&& after.objectives == board.objectives && after.sidebar == board.sidebar
                && after.teams == board.teams
        },
{
}

/// From protocol 765 on a score names its entry, its objective and its value.
pub proof fn scores_are_set_plainly(
    board: ScoreboardModel,
    body: Seq<u8>,
    protocol: ProtocolVersion,
    item: Seq<char>,
    r1: Seq<u8>,
    objective: Seq<char>,
    r2: Seq<u8>,
    value: i32,
    r3: Seq<u8>,
    other: Seq<char>,
)
    requires
        protocol.number() >= 765,
        wire::take_string(body, 32767) == (Some(item), r1),
        wire::take_string(r1, 32767) == (Some(objective), r2),
        wire::take_varint(r2) == (Some(value), r3),
        take_optional_component(r3).0 is Some,
        component::take_number_format(take_optional_component(r3).1).0 is Some,
    ensures
        score_set(board, body, protocol) matches Some(after) && {
            &&& after.scores.dom().contains(objective)
            &&& after.scores[objective].dom().contains(item)
            &&& after.scores[objective][item] == value
            &&& other != item && board.scores.dom().contains(objective) ==> (
            after.scores[objective].dom().contains(other)
                <==> board.scores[objective].dom().contains(other))
                && after.scores[objective][other] == board.scores[objective][other]
            &&& other != objective ==> (after.scores.dom().contains(other)
                <==> board.scores.dom().contains(other)) && after.scores[other]
                == board.scores[other]
            &&& after.objectives == board.objectives && after.sidebar == board.sidebar
                && after.teams == board.teams
        },
{
}

/// A reset takes an entry out of the objective that it names, or out of all where it names
/// none, and leaves every other entry.
pub proof fn resets_take_entries_out(
    scores: Map<Seq<char>, Map<Seq<char>, i32>>,
    item: Seq<char>,
    named: Seq<char>,
    objective: Seq<char>,
    other: Seq<char>,
)
    requires
        scores.dom().contains(objective),
        other != item,
    ensures
        ({
            let all = entry_reset(scores, item, None);
            let one = entry_reset(scores, item, Some(named));
            &&& all.dom().contains(objective) && one.dom().contains(objective)
            &&& !all[objective].dom().contains(item)
            &&& objective == named ==> !one[objective].dom().contains(item)
            &&& objective != named ==> one[objective] == scores[objective]
            &&& all[objective].dom().contains(other) <==> scores[objective].dom().contains(other)
            &&& one[objective].dom().contains(other) <==> scores[objective].dom().contains(other)
            &&& all[objective][other] == scores[objective][other]
            &&& one[objective][other] == scores[objective][other]
        }),
{
}

/// A reset names its entry and, behind a flag, its objective.
pub proof fn resets_name_their_entry(
    body: Seq<u8>,
    item: Seq<char>,
    rest: Seq<u8>,
    objective: Seq<char>,
)
    requires
        wire::take_string(body, 32767) == (Some(item), rest),
        rest.len() > 0,
    ensures
        rest[0] == 0 ==> reset_request(body) == Some((item, None::<Seq<char>>)),
        rest[0] != 0 && wire::take_string(rest.subrange(1, rest.len() as int), 32767).0 == Some(
            objective,
        ) ==> reset_request(body) == Some((item, Some(objective))),
{
}

/// The texts of a team are its name, flags, two rules that are not kept, its colour, its
/// prefix and its suffix, in this order.
pub proof fn team_texts_are_read_in_order(
    s: Seq<u8>,
    protocol: ProtocolVersion,
    display_name: Seq<char>,
    r1: Seq<u8>,
    flags: i8,
    r2: Seq<u8>,
    tags: Seq<char>,
    r3: Seq<u8>,
    collisions: Seq<char>,
    r4: Seq<u8>,
    formatting: i32,
    r5: Seq<u8>,
    prefix: Seq<char>,
    r6: Seq<u8>,
    suffix: Seq<char>,
    rest: Seq<u8>,
)
    requires
        component::take_component(s, protocol) == (Some(display_name), r1),
        wire::take_i8(r1) == (Some(flags), r2),
        wire::take_string(r2, 32767) == (Some(tags), r3),
        wire::take_string(r3, 32767) == (Some(collisions), r4),
        wire::take_varint(r4) == (Some(formatting), r5),
        component::take_component(r5, protocol) == (Some(prefix), r6),
        component::take_component(r6, protocol) == (Some(suffix), rest),
    ensures
        take_look(s, protocol) matches (Some(look), behind) && look.display_name == display_name
            && look.formatting == formatting && look.prefix == prefix && look.suffix == suffix
            && behind == rest,
{
}

/// Names of members come one by one behind their number, which is 65536 at the most.
pub proof fn members_are_counted(
    s: Seq<u8>,
    n: nat,
    acc: Seq<Seq<char>>,
    name: Seq<char>,
    rest: Seq<u8>,
    count: i32,
)
    ensures
        take_names(s, 0, acc) == (Some(acc), s),
        wire::take_string(s, 32767) == (Some(name), rest) ==> take_names(s, n + 1, acc)
            == take_names(rest, n, acc.push(name)),
        wire::take_varint(s) == (Some(count), rest) && 0 <= count <= 65536 ==> take_members(s)
            == take_names(rest, count as nat, Seq::empty()),
        wire::take_varint(s) == (Some(count), rest) && (count < 0 || count > 65536) ==> take_members(
            s,
        ).0 is None,
{
}

/// A packet about a team names it and says what to do: 0 makes it with texts and members, 1
/// removes it, 2 changes the texts, 3 adds members and 4 takes members away.
pub proof fn team_packets_say_what_to_do(
    body: Seq<u8>,
    protocol: ProtocolVersion,
    team: Seq<char>,
    rest: Seq<u8>,
    look: TeamLook,
    behind: Seq<u8>,
    members: Seq<Seq<char>>,
)
    requires
        wire::take_string(body, 32767) == (Some(team), rest),
        rest.len() > 0,
        rest[0] < 5,
    ensures
        ({
            let mode = rest[0];
            let s = rest.subrange(1, rest.len() as int);
            let change = team_change(body, protocol);
            &&& mode == 1 ==> change is Some
            &&& (mode == 0 && take_look(s, protocol) == (Some(look), behind) && take_members(
                behind,
            ).0 == Some(members)) ==> change is Some && change->0.look == Some(look)
                && change->0.members == members
            &&& mode == 2 && take_look(s, protocol).0 == Some(look) ==> change is Some
                && change->0.look == Some(look) && change->0.members.len() == 0
            &&& (mode == 3 || mode == 4) && take_members(s).0 == Some(members) ==> change is Some
                && change->0.look is None && change->0.members == members
            &&& change is Some ==> change->0.team == team && change->0.mode == mode
        }),
{
    wire::signed_numbers_wrap(rest, rest[0], 0, 0, 0);
}

/// A team is removed by mode 1; by any other it is there afterwards, with new texts where
/// the packet has them, the members it names for mode 0, those and the old ones for mode 3,
/// and the old ones without those for mode 4. No other team changes.
pub proof fn teams_change_as_told(
    teams: Map<Seq<char>, TeamModel>,
    change: TeamChange,
    other: Seq<char>,
    name: Seq<char>,
)
    requires
        other != change.team,
        teams.dom().contains(change.team),
    ensures
        ({
            let after = teams_after(teams, change);
            let before = teams[change.team];
            let team = after[change.team];
            let named = change.members.contains(name);
            &&& after.dom().contains(change.team) <==> change.mode != 1
            &&& change.mode != 1 ==> {
                &&& change.look matches Some(look) ==> team.display_name == look.display_name
                    && team.prefix == look.prefix && team.suffix == look.suffix && team.formatting
                    == look.formatting
                &&& change.look is None ==> team.display_name == before.display_name && team.prefix
                    == before.prefix && team.suffix == before.suffix && team.formatting
                    == before.formatting
                &&& change.mode == 0 ==> (team.members.contains(name) <==> named)
                &&& change.mode == 2 ==> (team.members.contains(name) <==> before.members.contains(
                    name,
                ))
                &&& change.mode == 3 ==> (team.members.contains(name) <==> named
                    || before.members.contains(name))
                &&& change.mode == 4 ==> (team.members.contains(name) <==> !named
                    && before.members.contains(name))
            }
            &&& after.dom().contains(other) <==> teams.dom().contains(other)
            &&& after[other] == teams[other]
        }),
{
}

/// A team that a packet makes has nothing but what the packet says.
pub proof fn new_teams_begin_empty(
    teams: Map<Seq<char>, TeamModel>,
    change: TeamChange,
    name: Seq<char>,
)
    requires
        !teams.dom().contains(change.team),
        change.mode != 1,
    ensures
        ({
            let team = teams_after(teams, change)[change.team];
            &&& change.mode == 0 || change.mode == 3 ==> (team.members.contains(name)
                <==> change.members.contains(name))
            &&& change.mode == 2 || change.mode == 4 ==> !team.members.contains(name)
            &&& change.look is None ==> team.display_name.len() == 0 && team.prefix.len() == 0
                && team.suffix.len() == 0 && team.formatting == 0
        }),
{
}

/// Lines of the sidebar come by falling score, and those with the same score by name.
pub proof fn higher_scores_come_first(a: Seq<char>, b: Seq<char>, high: i32, low: i32)
    requires
        high > low,
    ensures
        row_le((a, high), (b, low)),
        !row_le((b, low), (a, high)),
        row_le((a, high), (b, high)) <==> order::text_le(a, b),
{
}

/// The title of the sidebar is the one of its objective, or the name of that where it has
/// no title.
pub proof fn sidebars_have_titles(board: &ScoreboardState, objective: Seq<char>)
    requires
        board@.sidebar == Some(objective),
    ensures
        board@.objectives.dom().contains(objective) ==> board.sidebar_title() == Some(
            board@.objectives[objective],
        ),
        !board@.objectives.dom().contains(objective) ==> board.sidebar_title() == Some(objective),
{
}

/// The scoreboard, its teams and its lines stand for their parts.
pub proof fn boards_stand_for_their_parts(
    board: ScoreboardState,
    team: TeamState,
    row: SidebarRow,
    scores: &Scores,
    i: int,
)
    ensures
        board@.objectives == board.objectives@,
        board.sidebar matches Some(name) ==> board@.sidebar == Some(name@),
        board.sidebar is None ==> board@.sidebar is None,
        board@.scores == board.scores@,
        board@.teams == board.teams@,
        team@.display_name == team.display_name@,
        team@.prefix == team.prefix@ && team@.suffix == team.suffix@,
        team@.formatting == team.formatting,
        team@.members == team.members@,
        row@ == (row.name@, row.score),
        board.decorated_scores(scores).len() == scores.keys@.len(),
        0 <= i < scores.keys@.len() ==> board.decorated_scores(scores)[i] == (
            board.decorated(scores.keys@[i]@),
            scores.values@[i],
        ),
{
}

/// The lines of the sidebar are in the order of their scores, and stand for what they show.
pub proof fn sidebars_are_in_order(
    rows: Seq<SidebarRow>,
    i: int,
    a: (Seq<char>, i32),
    b: (Seq<char>, i32),
)
    requires
        0 <= i < rows.len(),
    ensures
        row_order()(a, b) <==> a.1 > b.1 || (a.1 == b.1 && order::text_le(a.0, b.0)),
        row_views(rows).len() == rows.len(),
        row_views(rows)[i] == (rows[i].name@, rows[i].score),
{
}

/// A packet that names nothing changes nothing.
pub proof fn broken_packets_leave_the_board(
    board: ScoreboardModel,
    body: Seq<u8>,
    protocol: ProtocolVersion,
    name: Seq<char>,
    rest: Seq<u8>,
)
    ensures
        wire::take_string(body, 32767).0 is None ==> objective_set(board, body, protocol) == Some(
            board,
        ) && score_set(board, body, protocol) == Some(board) && team_set(board, body, protocol)
            == board && reset_request(body) is None,
        wire::take_string(body, 32767) == (Some(name), rest) && rest.len() == 0 ==> objective_set(
            board,
            body,
            protocol,
        ) == Some(board) && team_set(board, body, protocol) == board && reset_request(body) is None,
        body.len() == 0 ==> displayed(board, body) == board,
        team_change(body, protocol) is None ==> team_set(board, body, protocol) == board,
        team_change(body, protocol) matches Some(change) ==> team_set(board, body, protocol)
            == (ScoreboardModel { teams: teams_after(board.teams, change), ..board }),
{
}

} // verus!
