//! Status effects on the local player.

use vstd::prelude::*;

use crate::table::{self, Table};
use crate::wire::{self, Reader};

verus! {

/// One status effect. A duration of -1 never runs out.
#[derive(Clone, Copy, Debug, PartialEq, Eq, Structural)]
pub struct ActiveEffect {
    pub amplifier: u8,
    pub duration: i32,
    pub ambient: bool,
    pub show_particles: bool,
    pub show_icon: bool,
}

impl View for ActiveEffect {
    type V = ActiveEffect;

    open spec fn view(&self) -> ActiveEffect {
        *self
    }
}

/// The active effects by their number.
pub type Effects = Table<i32, ActiveEffect>;

/// How strong an effect is: 0 where it is not active.
pub open spec fn level(effects: Map<i32, ActiveEffect>, id: i32) -> int {
    if effects.dom().contains(id) {
        effects[id].amplifier + 1
    } else {
        0
    }
}

pub fn effect_level(effects: &Effects, id: i32) -> (r: u32)
    requires
        effects.wf(),
    ensures
        r == level(effects@, id),
{
    match effects.get(&id) {
        Some(effect) => effect.amplifier as u32 + 1,
        None => 0,
    }
}

/// An effect one tick later.
pub open spec fn aged(effect: ActiveEffect) -> ActiveEffect {
    if effect.duration > 0 {
        ActiveEffect { duration: (effect.duration - 1) as i32, ..effect }
    } else {
        effect
    }
}

/// The effects one tick later: those that have run out are gone.
pub open spec fn ticked(effects: Map<i32, ActiveEffect>) -> Map<i32, ActiveEffect> {
    Map::new(
        |id: i32| effects.dom().contains(id) && aged(effects[id]).duration != 0,
        |id: i32| aged(effects[id]),
    )
}

/// Lets one tick pass.
pub fn tick_effects(effects: &mut Effects)
    requires
        old(effects).wf(),
    ensures
        final(effects).wf(),
        final(effects)@ == ticked(old(effects)@),
{
    let mut next: Effects = Table::new();
    let mut i: usize = 0;
    let ghost before = *effects;
    while i < effects.len()
        invariant
            *effects == before,
            before.wf(),
            next.wf(),
            i <= before.keys@.len(),
            forall|id: i32|
                next@.dom().contains(id) <==> exists|j: int|
                    0 <= j < i && #[trigger] before.keys@[j] == id && aged(
                        before.values@[j],
                    ).duration != 0,
            forall|id: i32|
                next@.dom().contains(id) ==> before@.dom().contains(id) && #[trigger] next@[id]
                    == aged(before@[id]),
        decreases before.keys@.len() - i,
    {
        let id: i32 = effects.keys[i];
        let mut effect: ActiveEffect = effects.values[i];
        if effect.duration > 0 {
            effect.duration = effect.duration - 1;
        }
        proof {
            before.lemma_at(i as int);
            assert(before.keys@[i as int] == id);
        }
        let ghost earlier = next@;
        if effect.duration != 0 {
            next.insert(id, effect);
        }
        proof {
            assert forall|k: i32|
                next@.dom().contains(k) <==> exists|j: int|
                    0 <= j < i + 1 && #[trigger] before.keys@[j] == k && aged(
                        before.values@[j],
                    ).duration != 0 by {
                if k == id && effect.duration != 0 {
                    assert(before.keys@[i as int] == k);
                }
                if earlier.dom().contains(k) {
                    let j = choose|j: int|
                        0 <= j < i && #[trigger] before.keys@[j] == k && aged(
                            before.values@[j],
                        ).duration != 0;
                    assert(0 <= j < i + 1 && before.keys@[j] == k);
                }
            }
        }
        i = i + 1;
    }
    proof {
        assert forall|id: i32| next@.dom().contains(id) <==> ticked(before@).dom().contains(id) by {
            if ticked(before@).dom().contains(id) {
                let j = before.lemma_key(id);
                assert(before.keys@[j] == id);
            }
            if next@.dom().contains(id) {
                let j = choose|j: int|
                    0 <= j < i && #[trigger] before.keys@[j] == id && aged(
                        before.values@[j],
                    ).duration != 0;
                before.lemma_at(j);
            }
        }
        assert(next@ =~= ticked(before@));
    }
    *effects = next;
}

/// An infinite effect stays as it is however many ticks pass.
pub proof fn infinite_effects_stay(effects: Map<i32, ActiveEffect>, id: i32)
    requires
        effects.dom().contains(id),
        effects[id].duration == -1,
    ensures
        ticked(effects).dom().contains(id),
        ticked(effects)[id] == effects[id],
{
}

/// The effects after a number of ticks.
pub open spec fn ticked_times(effects: Map<i32, ActiveEffect>, n: nat) -> Map<i32, ActiveEffect>
    decreases n,
{
    if n == 0 {
        effects
    } else {
        ticked(ticked_times(effects, (n - 1) as nat))
    }
}

/// An effect of a positive duration is there for exactly that many ticks.
pub proof fn effects_last_their_duration(effects: Map<i32, ActiveEffect>, id: i32, n: nat)
    requires
        effects.dom().contains(id),
        effects[id].duration > 0,
    ensures
        ticked_times(effects, n).dom().contains(id) <==> n < effects[id].duration,
        n < effects[id].duration ==> ticked_times(effects, n)[id] == (ActiveEffect {
            duration: (effects[id].duration - n) as i32,
            ..effects[id]
        }),
    decreases n,
{
    if n > 0 {
        effects_last_their_duration(effects, id, (n - 1) as nat);
    }
}

/// An effect as the server announces it: whose, which and what.
pub open spec fn announced(body: Seq<u8>) -> Option<(i32, i32, ActiveEffect)> {
    match wire::take_varint(body) {
        (Some(entity), rest) => match wire::take_varint(rest) {
            (Some(id), rest) => match wire::take_i8(rest) {
                (Some(amplifier), rest) => match wire::take_varint(rest) {
                    (Some(duration), rest) => match wire::take_i8(rest) {
                        (Some(flags), _) => Some(
                            (
                                entity,
                                id,
                                ActiveEffect {
                                    amplifier: amplifier as u8,
                                    duration,
                                    ambient: flags & 1 != 0,
                                    show_particles: flags & 2 != 0,
                                    show_icon: flags & 4 != 0,
                                },
                            ),
                        ),
                        (None, _) => None,
                    },
                    (None, _) => None,
                },
                (None, _) => None,
            },
            (None, _) => None,
        },
        (None, _) => None,
    }
}

fn decode_effect(body: &[u8]) -> (r: Option<(i32, i32, ActiveEffect)>)
    ensures
        r == announced(body@),
{
    let mut r = Reader::new(body);
    let entity: i32 = match r.varint() {
        Some(v) => v,
        None => return None,
    };
    let id: i32 = match r.varint() {
        Some(v) => v,
        None => return None,
    };
    let amplifier: i8 = match r.i8() {
        Some(v) => v,
        None => return None,
    };
    let duration: i32 = match r.varint() {
        Some(v) => v,
        None => return None,
    };
    let flags: i8 = match r.i8() {
        Some(v) => v,
        None => return None,
    };
    Some(
        (
            entity,
            id,
            ActiveEffect {
                amplifier: amplifier as u8,
                duration,
                ambient: flags & 1 != 0,
                show_particles: flags & 2 != 0,
                show_icon: flags & 4 != 0,
            },
        ),
    )
}

/// The server gave an effect; one on another entity is ignored.
pub open spec fn effects_with(
    effects: Map<i32, ActiveEffect>,
    player_id: i32,
    body: Seq<u8>,
) -> Map<i32, ActiveEffect> {
    match announced(body) {
        Some((entity, id, effect)) => if entity == player_id {
            effects.insert(id, effect)
        } else {
            effects
        },
        None => effects,
    }
}

pub fn handle_entity_effect(effects: &mut Effects, player_id: i32, body: &[u8])
    requires
        old(effects).wf(),
    ensures
        final(effects).wf(),
        final(effects)@ == effects_with(old(effects)@, player_id, body@),
{
    match decode_effect(body) {
        Some((entity, id, effect)) => {
            if entity == player_id {
                effects.insert(id, effect);
            }
        },
        None => {},
    }
}

/// The entity and effect of a removal.
pub open spec fn withdrawn(body: Seq<u8>) -> Option<(i32, i32)> {
    match wire::take_varint(body) {
        (Some(entity), rest) => match wire::take_varint(rest) {
            (Some(id), _) => Some((entity, id)),
            (None, _) => None,
        },
        (None, _) => None,
    }
}

/// The server took an effect away; one on another entity is ignored.
pub open spec fn effects_without(
    effects: Map<i32, ActiveEffect>,
    player_id: i32,
    body: Seq<u8>,
) -> Map<i32, ActiveEffect> {
    match withdrawn(body) {
        Some((entity, id)) => if entity == player_id {
            effects.remove(id)
        } else {
            effects
        },
        None => effects,
    }
}

pub fn handle_remove_effect(effects: &mut Effects, player_id: i32, body: &[u8])
    requires
        old(effects).wf(),
    ensures
        final(effects).wf(),
        final(effects)@ == effects_without(old(effects)@, player_id, body@),
{
    let mut r = Reader::new(body);
    let entity: i32 = match r.varint() {
        Some(v) => v,
        None => return ,
    };
    let id: i32 = match r.varint() {
        Some(v) => v,
        None => return ,
    };
    if entity == player_id {
        let _ = effects.remove(&id);
    }
}

/// The effects whose icon is shown, by rising number.
pub open spec fn is_icon_list(effects: Map<i32, ActiveEffect>, ids: Seq<i32>) -> bool {
    &&& forall|i: int, j: int| 0 <= i < j < ids.len() ==> ids[i] < ids[j]
    &&& forall|i: int|
        0 <= i < ids.len() ==> effects.dom().contains(#[trigger] ids[i])
            && effects[ids[i]].show_icon
    &&& forall|id: i32|
        #![trigger effects[id]]
        effects.dom().contains(id) && effects[id].show_icon ==> ids.contains(id)
}

/// Lists the effects whose icon is shown.
pub fn icon_ids(effects: &Effects) -> (r: Vec<i32>)
    requires
        effects.wf(),
    ensures
        is_icon_list(effects@, r@),
{
    let mut out: Vec<i32> = Vec::new();
    let mut i: usize = 0;
    while i < effects.len()
        invariant
            effects.wf(),
            i <= effects.keys@.len(),
            forall|a: int, b: int| 0 <= a < b < out@.len() ==> out@[a] < out@[b],
            forall|a: int|
                0 <= a < out@.len() ==> effects@.dom().contains(#[trigger] out@[a])
                    && effects@[out@[a]].show_icon,
            forall|j: int|
                0 <= j < i && effects.values@[j].show_icon ==> out@.contains(
                    #[trigger] effects.keys@[j],
                ),
            forall|a: int|
                0 <= a < out@.len() ==> exists|j: int|
                    0 <= j < i && effects.keys@[j] == #[trigger] out@[a],
        decreases effects.keys@.len() - i,
    {
        let id: i32 = effects.keys[i];
        proof {
            effects.lemma_at(i as int);
        }
        if effects.values[i].show_icon {
            let mut at: usize = 0;
            while at < out.len() && out[at] < id
                invariant
                    at <= out@.len(),
                    forall|a: int| 0 <= a < at ==> out@[a] < id,
                decreases out@.len() - at,
            {
                at = at + 1;
            }
            let ghost before = out@;
            proof {
                if at < before.len() {
                    let j = choose|j: int| 0 <= j < i && effects.keys@[j] == before[at as int];
                    assert(effects.keys@[j] != effects.keys@[i as int]) by {
                        assert(effects.keys@[j] == table::Key::model(effects.keys@[j]));
                        assert(effects.keys@[i as int] == table::Key::model(effects.keys@[i as int]));
                    }
                }
            }
            out.insert(at, id);
            proof {
                assert(out@[at as int] == id);
                assert forall|j: int|
                    0 <= j < i + 1 && effects.values@[j].show_icon implies out@.contains(
                    #[trigger] effects.keys@[j],
                ) by {
                    if j < i {
                        assert(before.contains(effects.keys@[j]));
                        let a = before.index_of(effects.keys@[j]);
                        let b = if a < at { a } else { a + 1 };
                        assert(out@[b] == before[a]);
                    }
                }
                assert forall|a: int| 0 <= a < out@.len() implies exists|j: int|
                    0 <= j < i + 1 && effects.keys@[j] == #[trigger] out@[a] by {
                    if a == at {
                        assert(effects.keys@[i as int] == out@[a]);
                    } else {
                        let b = if a < at { a } else { a - 1 };
                        assert(out@[a] == before[b]);
                        let j = choose|j: int| 0 <= j < i && effects.keys@[j] == before[b];
                        assert(effects.keys@[j] == out@[a]);
                    }
                }
            }
        }
        i = i + 1;
    }
    proof {
        assert forall|id: i32|
            #![trigger effects@[id]]
            effects@.dom().contains(id) && effects@[id].show_icon implies out@.contains(id) by {
            let j = effects.lemma_key(id);
            assert(effects.keys@[j] == id);
        }
    }
    out
}

/// An effect comes with its entity, its number, its strength, its duration and three
/// flags: ambient, particles and icon, from the lowest bit on. It reaches the player
/// only, and no other effect of the player changes.
pub proof fn effects_come_as_announced(
    effects: Map<i32, ActiveEffect>,
    player_id: i32,
    body: Seq<u8>,
    entity: i32,
    r1: Seq<u8>,
    id: i32,
    r2: Seq<u8>,
    duration: i32,
    r3: Seq<u8>,
    other: i32,
)
    requires
        wire::take_varint(body) == (Some(entity), r1),
        wire::take_varint(r1) == (Some(id), r2),
        r2.len() > 0,
        wire::take_varint(r2.subrange(1, r2.len() as int)) == (Some(duration), r3),
        r3.len() > 0,
    ensures
        ({
            let after = effects_with(effects, player_id, body);
            &&& entity != player_id ==> after == effects
            &&& entity == player_id ==> {
                &&& after.dom().contains(id)
                &&& after[id].duration == duration
                &&& after[id].amplifier == r2[0]
                &&& level(after, id) == r2[0] + 1
                &&& after[id].ambient <==> r3[0] % 2 == 1
                &&& after[id].show_particles <==> (r3[0] / 2) % 2 == 1
                &&& after[id].show_icon <==> (r3[0] / 4) % 2 == 1
            }
            &&& other != id ==> (after.dom().contains(other) <==> effects.dom().contains(other))
            &&& other != id && effects.dom().contains(other) ==> after[other] == effects[other]
        }),
{
    let flags = r3[0];
    let strength = r2[0];
    assert(((flags as i8) & 1 != 0) <==> flags % 2 == 1) by (bit_vector);
    assert(((flags as i8) & 2 != 0) <==> (flags / 2) % 2 == 1) by (bit_vector);
    assert(((flags as i8) & 4 != 0) <==> (flags / 4) % 2 == 1) by (bit_vector);
    assert((strength as i8) as u8 == strength) by (bit_vector);
}

/// An effect that is taken from the player is gone, and no other is; what is taken from
/// another entity stays.
pub proof fn effects_go_as_announced(
    effects: Map<i32, ActiveEffect>,
    player_id: i32,
    body: Seq<u8>,
    entity: i32,
    rest: Seq<u8>,
    id: i32,
    other: i32,
)
    requires
        wire::take_varint(body) == (Some(entity), rest),
        wire::take_varint(rest).0 == Some(id),
    ensures
        ({
            let after = effects_without(effects, player_id, body);
            &&& entity != player_id ==> after == effects
            &&& entity == player_id ==> !after.dom().contains(id) && level(after, id) == 0
            &&& other != id ==> (after.dom().contains(other) <==> effects.dom().contains(other))
            &&& other != id && effects.dom().contains(other) ==> after[other] == effects[other]
        }),
{
}

/// A tick takes one off every duration above 0, ends those that reach 0, and leaves the
/// rest of an effect.
pub proof fn ticks_age_effects(effects: Map<i32, ActiveEffect>, id: i32)
    ensures
        ({
            let after = ticked(effects);
            &&& after.dom().contains(id) ==> effects.dom().contains(id)
            &&& effects.dom().contains(id) ==> (after.dom().contains(id) <==> effects[id].duration
                != 0 && effects[id].duration != 1)
            &&& after.dom().contains(id) && effects[id].duration > 0 ==> after[id].duration
                == effects[id].duration - 1
            &&& after.dom().contains(id) ==> after[id].amplifier == effects[id].amplifier
                && after[id].ambient == effects[id].ambient && after[id].show_particles
                == effects[id].show_particles && after[id].show_icon == effects[id].show_icon
        }),
{
}

/// The icons that are shown are those of the effects that show one, by rising number.
pub proof fn icons_are_those_of_shown_effects(
    effects: Map<i32, ActiveEffect>,
    ids: Seq<i32>,
    id: i32,
    i: int,
    j: int,
)
    requires
        is_icon_list(effects, ids),
        0 <= i < j < ids.len(),
    ensures
        ids.contains(id) <==> effects.dom().contains(id) && effects[id].show_icon,
        ids[i] < ids[j],
{
    if ids.contains(id) {
        let k = choose|k: int| 0 <= k < ids.len() && ids[k] == id;
        assert(ids[k] == id);
    }
}

/// A packet about another entity, or one that breaks off, changes no effect.
pub proof fn foreign_effects_change_nothing(
    effects: Map<i32, ActiveEffect>,
    player_id: i32,
    body: Seq<u8>,
    entity: i32,
    rest: Seq<u8>,
)
    ensures
        wire::take_varint(body).0 is None ==> effects_with(effects, player_id, body) == effects
            && effects_without(effects, player_id, body) == effects,
        wire::take_varint(body) == (Some(entity), rest) && entity != player_id ==> effects_with(
            effects,
            player_id,
            body,
        ) == effects && effects_without(effects, player_id, body) == effects,
        wire::take_varint(body) == (Some(entity), rest) && wire::take_varint(rest).0 is None
            ==> effects_with(effects, player_id, body) == effects && effects_without(
            effects,
            player_id,
            body,
        ) == effects,
{
}

/// The level of an effect is one more than what is announced, and without it is 0.
pub proof fn levels_count_from_one(effects: Map<i32, ActiveEffect>, id: i32)
    ensures
        effects.dom().contains(id) ==> level(effects, id) == effects[id].amplifier + 1,
        !effects.dom().contains(id) ==> level(effects, id) == 0,
{
}

} // verus!
