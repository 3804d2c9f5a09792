//! How the player moves: the rules of a tick that need no arithmetic of
//! space. Directions of the controls are given by their signs.

use vstd::prelude::*;

use crate::player::PlayerState;
use crate::text::str_eq;

verus! {

/// The buttons that were held in the last tick.
#[derive(Clone, Copy, Debug, PartialEq, Eq, Structural)]
pub struct Held {
    pub attack: bool,
    pub use_item: bool,
    pub jump: bool,
}

/// What happened to the buttons in this tick.
#[derive(Clone, Copy, Debug, PartialEq, Eq, Structural)]
pub struct Edges {
    pub attack: bool,
    pub use_item: bool,
    pub release_use: bool,
    pub jump: bool,
}

pub open spec fn edges_of(before: Held, now: Held) -> Edges {
    Edges {
        attack: now.attack && !before.attack,
        use_item: now.use_item && !before.use_item,
        release_use: !now.use_item && before.use_item,
        jump: now.jump && !before.jump,
    }
}

impl Held {
    pub fn step(&mut self, now: Held) -> (r: Edges)
        ensures
            r == edges_of(*old(self), now),
            *final(self) == now,
    {
        let r = Edges {
            attack: now.attack && !self.attack,
            use_item: now.use_item && !self.use_item,
            release_use: !now.use_item && self.use_item,
            jump: now.jump && !self.jump,
        };
        *self = now;
        r
    }
}

/// Every press of a button counts once: while it stays as it is there is no
/// edge.
pub proof fn held_buttons_have_no_edges(now: Held)
    ensures
        edges_of(now, now) == (Edges {
            attack: false,
            use_item: false,
            release_use: false,
            jump: false,
        }),
{
}

/// What the player wants, and what the surroundings allow.
#[derive(Clone, Copy, Debug, PartialEq, Eq, Structural)]
pub struct MoveInput {
    /// The controls say forward.
    pub forward: bool,
    pub sprint: bool,
    pub sneak: bool,
    pub toggle_flight: bool,
    pub jump_pressed: bool,
    pub in_water: bool,
    pub wears_elytra: bool,
    pub can_stand: bool,
}

/// What the server is told of a change of the way to move: the start of a
/// glide (8), the abilities (2 in flight), sneaking (0 and 1) and sprinting
/// (3 and 4).
#[derive(Clone, Copy, Debug, PartialEq, Eq, Structural)]
pub struct MoveOutput {
    pub glide: Option<i32>,
    pub abilities: Option<u8>,
    pub sneak: Option<i32>,
    pub sprint: Option<i32>,
}

pub open spec fn starts_glide(player: PlayerState, input: MoveInput) -> bool {
    input.jump_pressed && player.vehicle is None && !player.on_ground && !input.in_water
        && !player.flying && input.wears_elytra
}

pub open spec fn will_fly(player: PlayerState, input: MoveInput) -> bool {
    if input.toggle_flight && player.allow_flying {
        !player.flying
    } else {
        player.flying
    }
}

pub open spec fn will_sneak(player: PlayerState, input: MoveInput) -> bool {
    player.vehicle is None && (input.sneak || (player.sneaking && !input.can_stand))
}

/// Sprinting takes food, but not in creative and spectator mode.
pub open spec fn will_sprint(player: PlayerState, input: MoveInput) -> bool {
    input.sprint && input.forward && !will_sneak(player, input) && (player.food > 6
        || player.gamemode == 1 || player.gamemode == 3)
}

/// The player after the rules of a tick. A glide ends on the ground, in water
/// and in flight.
pub open spec fn moved(player: PlayerState, input: MoveInput) -> PlayerState {
    PlayerState {
        swimming: input.in_water && player.sprinting && input.forward && !player.sneaking,
        gliding: !(player.on_ground || input.in_water || player.flying) && (player.gliding
            || starts_glide(player, input)),
        flying: will_fly(player, input),
        sneaking: will_sneak(player, input),
        sprinting: will_sprint(player, input),
        ..player
    }
}

pub open spec fn told(player: PlayerState, input: MoveInput) -> MoveOutput {
    MoveOutput {
        glide: if starts_glide(player, input) {
            Some(8)
        } else {
            None
        },
        abilities: if input.toggle_flight && player.allow_flying {
            Some(
                if will_fly(player, input) {
                    0x02
                } else {
                    0
                },
            )
        } else {
            None
        },
        sneak: if will_sneak(player, input) == player.sneaking {
            None
        } else if will_sneak(player, input) {
            Some(0)
        } else {
            Some(1)
        },
        sprint: if will_sprint(player, input) == player.sprinting {
            None
        } else if will_sprint(player, input) {
            Some(3)
        } else {
            Some(4)
        },
    }
}

impl PlayerState {
    /// Applies the rules of a tick, and says what the server is to be told.
    pub fn step_movement(&mut self, input: MoveInput) -> (r: MoveOutput)
        ensures
            *final(self) == moved(*old(self), input),
            r == told(*old(self), input),
    {
        self.swimming = input.in_water && self.sprinting && input.forward && !self.sneaking;
        let mut r = MoveOutput { glide: None, abilities: None, sneak: None, sprint: None };
        if input.jump_pressed && self.vehicle.is_none() && !self.on_ground && !input.in_water
            && !self.flying && input.wears_elytra {
            r.glide = Some(8);
            self.gliding = true;
        }
        if self.on_ground || input.in_water || self.flying {
            self.gliding = false;
        }
        if input.toggle_flight && self.allow_flying {
            self.flying = !self.flying;
            r.abilities = Some(
                if self.flying {
                    0x02
                } else {
                    0
                },
            );
        }
        let sneaking: bool = self.vehicle.is_none() && (input.sneak || (self.sneaking
            && !input.can_stand));
        if sneaking != self.sneaking {
            r.sneak = Some(
                if sneaking {
                    0
                } else {
                    1
                },
            );
            self.sneaking = sneaking;
        }
        let sprinting: bool = input.sprint && input.forward && !sneaking && (self.food > 6
            || self.gamemode == 1 || self.gamemode == 3);
        if sprinting != self.sprinting {
            r.sprint = Some(
                if sprinting {
                    3
                } else {
                    4
                },
            );
            self.sprinting = sprinting;
        }
        r
    }
}

/// Whoever sneaks does not sprint, riders do neither, and whoever is not
/// allowed to fly does not start to.
pub proof fn ways_to_move_exclude_each_other(player: PlayerState, input: MoveInput)
    ensures
        ({
            let after = moved(player, input);
            &&& !(after.sneaking && after.sprinting)
            &&& player.vehicle is Some ==> !after.sneaking
            &&& after.on_ground ==> !after.gliding
            &&& after.flying && !player.flying ==> player.allow_flying
        }),
{
}

/// A player who cannot stand keeps sneaking when the button is released.
pub proof fn low_ceilings_keep_the_player_down(player: PlayerState, input: MoveInput)
    requires
        player.sneaking,
        player.vehicle is None,
        !input.can_stand,
    ensures
        moved(player, input).sneaking,
        told(player, input).sneak is None,
{
}

/// Whether the server is to be told of a new slot of the hotbar.
pub fn hotbar_changed(selected: u8, last: u8) -> (r: bool)
    ensures
        r == (selected != last && selected < 9),
{
    selected != last && selected < 9
}

/// The sign of a control.
#[derive(Clone, Copy, Debug, PartialEq, Eq, Structural)]
pub enum Lean {
    Negative,
    Neutral,
    Positive,
}

pub open spec fn bit(on: bool, value: u8) -> int {
    if on {
        value as int
    } else {
        0
    }
}

/// The flags of the controls for a vehicle up to protocol 767.
pub fn steer_flags(jump: bool, sneak: bool) -> (r: u8)
    ensures
        r == bit(jump, 1) + bit(sneak, 2),
{
    let a: u8 = if jump {
        1
    } else {
        0
    };
    let b: u8 = if sneak {
        2
    } else {
        0
    };
    a + b
}

/// The controls as flags from protocol 768 on.
pub open spec fn input_bits(
    forward: Lean,
    strafe: Lean,
    jump: bool,
    sneak: bool,
    sprint: bool,
) -> int {
    bit(forward == Lean::Positive, 1) + bit(forward == Lean::Negative, 2) + bit(
        strafe == Lean::Positive,
        4,
    ) + bit(strafe == Lean::Negative, 8) + bit(jump, 16) + bit(sneak, 32) + bit(sprint, 64)
}

pub fn input_flags(forward: Lean, strafe: Lean, jump: bool, sneak: bool, sprint: bool) -> (r: u8)
    ensures
        r == input_bits(forward, strafe, jump, sneak, sprint),
{
    let a: u8 = match forward {
        Lean::Positive => 1,
        Lean::Negative => 2,
        Lean::Neutral => 0,
    };
    let b: u8 = match strafe {
        Lean::Positive => 4,
        Lean::Negative => 8,
        Lean::Neutral => 0,
    };
    let c: u8 = if jump {
        16
    } else {
        0
    };
    let d: u8 = if sneak {
        32
    } else {
        0
    };
    let e: u8 = if sprint {
        64
    } else {
        0
    };
    a + b + c + d + e
}

/// The flags tell all the controls apart.
pub proof fn flags_tell_controls_apart(
    a: (Lean, Lean, bool, bool, bool),
    b: (Lean, Lean, bool, bool, bool),
)
    requires
        input_bits(a.0, a.1, a.2, a.3, a.4) == input_bits(b.0, b.1, b.2, b.3, b.4),
    ensures
        a == b,
{
}

/// Which paddles of a boat move: left and right.
pub fn paddles(forward: Lean, strafe: Lean) -> (r: (bool, bool))
    ensures
        r.0 == (forward != Lean::Neutral || strafe == Lean::Positive),
        r.1 == (forward != Lean::Neutral || strafe == Lean::Negative),
{
    let ahead: bool = forward != Lean::Neutral;
    (ahead || strafe == Lean::Positive, ahead || strafe == Lean::Negative)
}

/// Whether an entity is a boat, by the name of its kind.
pub fn is_boat(name: Option<&str>) -> (r: bool)
    ensures
        r == (name is Some && (name->0@ == "boat"@ || name->0@ == "chest_boat"@)),
{
    match name {
        Some(name) => str_eq(name, "boat") || str_eq(name, "chest_boat"),
        None => false,
    }
}

#[derive(Clone, Copy, Debug, PartialEq, Eq, Structural)]
pub enum FluidKind {
    Water,
    Lava,
}

/// What a body is in, given the names of the blocks around it: lava before
/// water.
pub open spec fn fluid_among(names: Seq<Option<Seq<char>>>) -> Option<FluidKind> {
    if names.contains(Some("minecraft:lava"@)) {
        Some(FluidKind::Lava)
    } else if names.contains(Some("minecraft:water"@)) {
        Some(FluidKind::Water)
    } else {
        None
    }
}

pub open spec fn opt_texts(names: Seq<Option<&str>>) -> Seq<Option<Seq<char>>> {
    Seq::new(
        names.len(),
        |i: int|
            match names[i] {
                Some(name) => Some(name@),
                None => None,
            },
    )
}

pub fn fluid_kind(names: &Vec<Option<&str>>) -> (r: Option<FluidKind>)
    ensures
        r == fluid_among(opt_texts(names@)),
{
    let ghost texts = opt_texts(names@);
    let mut water: bool = false;
    let mut i: usize = 0;
    while i < names.len()
        invariant
            i <= names@.len(),
            texts == opt_texts(names@),
            forall|k: int| 0 <= k < i ==> #[trigger] texts[k] != Some("minecraft:lava"@),
            water ==> texts.contains(Some("minecraft:water"@)),
            !water ==> forall|k: int|
                0 <= k < i ==> #[trigger] texts[k] != Some("minecraft:water"@),
        decreases names@.len() - i,
    {
        match names[i] {
            Some(name) => {
                proof {
                    assert(texts[i as int] == Some(name@));
                }
                if str_eq(name, "minecraft:lava") {
                    return Some(FluidKind::Lava);
                }
                if str_eq(name, "minecraft:water") {
                    water = true;
                }
            },
            None => {},
        }
        i = i + 1;
    }
    if water {
        Some(FluidKind::Water)
    } else {
        None
    }
}

/// The speed to walk at.
#[derive(Clone, Copy, Debug, PartialEq, Eq, Structural)]
pub enum Gait {
    WaterSprint,
    WaterSneak,
    Water,
    Lava,
    Sneak,
    Sprint,
    Walk,
}

pub open spec fn gait_of(sneaking: bool, sprinting: bool, fluid: Option<FluidKind>) -> Gait {
    match fluid {
        Some(FluidKind::Water) => if sprinting {
            Gait::WaterSprint
        } else if sneaking {
            Gait::WaterSneak
        } else {
            Gait::Water
        },
        Some(FluidKind::Lava) => Gait::Lava,
        None => if sneaking {
            Gait::Sneak
        } else if sprinting {
            Gait::Sprint
        } else {
            Gait::Walk
        },
    }
}

pub fn gait(sneaking: bool, sprinting: bool, fluid: Option<FluidKind>) -> (r: Gait)
    ensures
        r == gait_of(sneaking, sprinting, fluid),
{
    match fluid {
        Some(FluidKind::Water) => {
            if sprinting {
                Gait::WaterSprint
            } else if sneaking {
                Gait::WaterSneak
            } else {
                Gait::Water
            }
        },
        Some(FluidKind::Lava) => Gait::Lava,
        None => {
            if sneaking {
                Gait::Sneak
            } else if sprinting {
                Gait::Sprint
            } else {
                Gait::Walk
            }
        },
    }
}

/// How tall the player is.
#[derive(Clone, Copy, Debug, PartialEq, Eq, Structural)]
pub enum Stature {
    Lying,
    Sneaking,
    Standing,
}

/// Which rule gives the speed over ground.
#[derive(Clone, Copy, Debug, PartialEq, Eq, Structural)]
pub enum Pace {
    Flight,
    Swim,
    Glide,
    Walk(Gait),
}

/// Which rule gives the speed up and down.
#[derive(Clone, Copy, Debug, PartialEq, Eq, Structural)]
pub enum Climb {
    /// In flight, by the controls.
    Flight(Lean),
    /// In a fluid, by the controls.
    Fluid(FluidKind, Lean),
    Glide,
    /// By gravity, after a jump where there is one.
    Fall(bool),
}

/// The rules for a step of the player.
#[derive(Clone, Copy, Debug, PartialEq, Eq, Structural)]
pub struct StepPlan {
    pub stature: Stature,
    pub pace: Pace,
    pub climb: Climb,
    /// Whether the step goes through walls.
    pub noclip: bool,
}

pub open spec fn stature_of(player: PlayerState) -> Stature {
    if player.swimming || player.gliding {
        Stature::Lying
    } else if player.sneaking {
        Stature::Sneaking
    } else {
        Stature::Standing
    }
}

pub fn stature(player: &PlayerState) -> (r: Stature)
    ensures
        r == stature_of(*player),
{
    if player.swimming || player.gliding {
        Stature::Lying
    } else if player.sneaking {
        Stature::Sneaking
    } else {
        Stature::Standing
    }
}

/// The controls up and down: jumping and sneaking at once rest in flight, but
/// in a fluid the jump counts.
pub open spec fn vertical(jump: bool, sneak: bool, both: Lean) -> Lean {
    if jump && sneak {
        both
    } else if jump {
        Lean::Positive
    } else if sneak {
        Lean::Negative
    } else {
        Lean::Neutral
    }
}

/// In flight no fluid counts.
pub open spec fn step_plan_of(
    player: PlayerState,
    fluid: Option<FluidKind>,
    jump: bool,
    sneak: bool,
) -> StepPlan {
    StepPlan {
        stature: stature_of(player),
        pace: if player.flying {
            Pace::Flight
        } else if player.swimming {
            Pace::Swim
        } else if player.gliding {
            Pace::Glide
        } else {
            Pace::Walk(gait_of(player.sneaking, player.sprinting, fluid))
        },
        climb: if player.flying {
            Climb::Flight(vertical(jump, sneak, Lean::Neutral))
        } else {
            match fluid {
                Some(kind) => Climb::Fluid(kind, vertical(jump, sneak, Lean::Positive)),
                None => if player.gliding {
                    Climb::Glide
                } else {
                    Climb::Fall(jump && player.on_ground)
                },
            }
        },
        noclip: player.flying && player.gamemode == 3,
    }
}

pub fn step_plan(player: &PlayerState, fluid: Option<FluidKind>, jump: bool, sneak: bool) -> (r:
    StepPlan)
    ensures
        r == step_plan_of(*player, fluid, jump, sneak),
{
    let up: Lean = if jump {
        Lean::Positive
    } else if sneak {
        Lean::Negative
    } else {
        Lean::Neutral
    };
    StepPlan {
        stature: stature(player),
        pace: if player.flying {
            Pace::Flight
        } else if player.swimming {
            Pace::Swim
        } else if player.gliding {
            Pace::Glide
        } else {
            Pace::Walk(gait(player.sneaking, player.sprinting, fluid))
        },
        climb: if player.flying {
            if jump && sneak {
                Climb::Flight(Lean::Neutral)
            } else {
                Climb::Flight(up)
            }
        } else {
            match fluid {
                Some(kind) => Climb::Fluid(kind, up),
                None => {
                    if player.gliding {
                        Climb::Glide
                    } else {
                        Climb::Fall(jump && player.on_ground)
                    }
                },
            }
        },
        noclip: player.flying && player.gamemode == 3,
    }
}

/// The sign that two opposite keys give together.
pub open spec fn axis_of(positive: bool, negative: bool) -> Lean {
    if positive == negative {
        Lean::Neutral
    } else if positive {
        Lean::Positive
    } else {
        Lean::Negative
    }
}

pub fn axis(positive: bool, negative: bool) -> (r: Lean)
    ensures
        r == axis_of(positive, negative),
{
    if positive == negative {
        Lean::Neutral
    } else if positive {
        Lean::Positive
    } else {
        Lean::Negative
    }
}

/// The slot of the hotbar that number keys select: the highest of those that
/// are held.
pub fn digit_slot(held: &Vec<bool>, current: u8) -> (r: u8)
    requires
        held@.len() <= 9,
    ensures
        (forall|i: int| 0 <= i < held@.len() ==> !(#[trigger] held@[i])) ==> r == current,
        (exists|i: int| 0 <= i < held@.len() && #[trigger] held@[i]) ==> r < held@.len()
            && held@[r as int] && forall|i: int| r < i < held@.len() ==> !(#[trigger] held@[i]),
{
    let mut i: usize = held.len();
    while i > 0
        invariant
            i <= held@.len() <= 9,
            forall|k: int| i <= k < held@.len() ==> !(#[trigger] held@[k]),
        decreases i,
    {
        if held[i - 1] {
            return (i - 1) as u8;
        }
        i = i - 1;
    }
    current
}

/// The number of the pose in which the player is drawn.
pub open spec fn drawn_pose(player: PlayerState) -> i32 {
    if player.gliding {
        4
    } else if player.swimming {
        3
    } else if player.sneaking {
        5
    } else {
        0
    }
}

pub fn local_pose(player: &PlayerState) -> (r: i32)
    ensures
        r == drawn_pose(*player),
{
    if player.gliding {
        4
    } else if player.swimming {
        3
    } else if player.sneaking {
        5
    } else {
        0
    }
}

/// In flight the player rises with the jump key and sinks with the sneak key; both at
/// once, or none, keep the height. What fluid there is makes no difference.
pub proof fn flight_follows_the_keys(
    player: PlayerState,
    fluid: Option<FluidKind>,
    jump: bool,
    sneak: bool,
)
    requires
        player.flying,
    ensures
        ({
            let climb = step_plan_of(player, fluid, jump, sneak).climb;
            &&& climb == Climb::Flight(Lean::Positive) <==> jump && !sneak
            &&& climb == Climb::Flight(Lean::Negative) <==> sneak && !jump
            &&& climb == Climb::Flight(Lean::Neutral) <==> jump == sneak
        }),
        step_plan_of(player, fluid, jump, sneak).pace == Pace::Flight,
{
}

/// In a fluid the player rises with the jump key, whether sneaking or not, sinks with
/// the sneak key alone, and drifts with none; the kind of the fluid is kept.
pub proof fn swimmers_follow_the_keys(
    player: PlayerState,
    kind: FluidKind,
    jump: bool,
    sneak: bool,
)
    requires
        !player.flying,
    ensures
        ({
            let climb = step_plan_of(player, Some(kind), jump, sneak).climb;
            &&& climb == Climb::Fluid(kind, Lean::Positive) <==> jump
            &&& climb == Climb::Fluid(kind, Lean::Negative) <==> sneak && !jump
            &&& climb == Climb::Fluid(kind, Lean::Neutral) <==> !sneak && !jump
        }),
{
}

/// Out of fluids and out of flight a glider glides, and anyone else falls; a jump takes
/// ground under the feet and the key.
pub proof fn jumps_take_ground(player: PlayerState, jump: bool, sneak: bool)
    requires
        !player.flying,
    ensures
        ({
            let climb = step_plan_of(player, None, jump, sneak).climb;
            &&& climb == Climb::Glide <==> player.gliding
            &&& climb == Climb::Fall(true) <==> !player.gliding && jump && player.on_ground
            &&& climb == Climb::Fall(false) <==> !player.gliding && !(jump && player.on_ground)
        }),
{
}

/// The pace over ground: flight before swimming before gliding before walking.
pub proof fn paces_have_their_order(
    player: PlayerState,
    fluid: Option<FluidKind>,
    jump: bool,
    sneak: bool,
)
    ensures
        ({
            let pace = step_plan_of(player, fluid, jump, sneak).pace;
            &&& pace is Flight <==> player.flying
            &&& pace is Swim <==> player.swimming && !player.flying
            &&& pace is Glide <==> player.gliding && !player.swimming && !player.flying
            &&& pace is Walk <==> !player.gliding && !player.swimming && !player.flying
            &&& pace is Walk ==> pace == Pace::Walk(
                gait_of(player.sneaking, player.sprinting, fluid),
            )
        }),
{
}

/// On land sneaking is slower than walking whatever else is held, and sprinting needs
/// that the player does not sneak; in water sprinting counts first; lava slows all.
pub proof fn gaits_follow_the_surroundings(sneaking: bool, sprinting: bool)
    ensures
        gait_of(sneaking, sprinting, None) is Sneak <==> sneaking,
        gait_of(sneaking, sprinting, None) is Sprint <==> sprinting && !sneaking,
        gait_of(sneaking, sprinting, None) is Walk <==> !sprinting && !sneaking,
        gait_of(sneaking, sprinting, Some(FluidKind::Water)) is WaterSprint <==> sprinting,
        gait_of(sneaking, sprinting, Some(FluidKind::Water)) is WaterSneak <==> sneaking
            && !sprinting,
        gait_of(sneaking, sprinting, Some(FluidKind::Water)) is Water <==> !sneaking && !sprinting,
        gait_of(sneaking, sprinting, Some(FluidKind::Lava)) is Lava,
{
}

/// Only a flying spectator goes through walls, and only swimmers and gliders lie.
pub proof fn spectators_fly_through_walls(
    player: PlayerState,
    fluid: Option<FluidKind>,
    jump: bool,
    sneak: bool,
)
    ensures
        ({
            let plan = step_plan_of(player, fluid, jump, sneak);
            &&& plan.noclip <==> player.flying && player.gamemode == 3
            &&& plan.stature == stature_of(player)
            &&& plan.stature is Lying <==> player.swimming || player.gliding
            &&& plan.stature is Sneaking <==> player.sneaking && !player.swimming && !player.gliding
            &&& plan.stature is Standing <==> !player.sneaking && !player.swimming
                && !player.gliding
        }),
{
}

/// The pose that is drawn agrees with how tall the player is, and tells gliding (4),
/// swimming (3), sneaking (5) and standing (0) apart.
pub proof fn poses_agree_with_stature(player: PlayerState)
    ensures
        drawn_pose(player) == 4 <==> player.gliding,
        drawn_pose(player) == 3 <==> player.swimming && !player.gliding,
        drawn_pose(player) == 5 <==> stature_of(player) is Sneaking,
        drawn_pose(player) == 0 <==> stature_of(player) is Standing,
{
}

/// Opposite keys cancel out, and turning them round turns the sign round.
pub proof fn opposite_keys_cancel(positive: bool, negative: bool)
    ensures
        axis_of(positive, negative) is Positive <==> positive && !negative,
        axis_of(positive, negative) is Negative <==> negative && !positive,
        axis_of(positive, negative) is Neutral <==> positive == negative,
{
}

/// Every button reports its own edges: it is pressed where it is down now and was not
/// before, and the use of an item is released the other way round.
pub proof fn edges_are_changes(before: Held, now: Held)
    ensures
        ({
            let edges = edges_of(before, now);
            &&& edges.attack <==> now.attack && !before.attack
            &&& edges.use_item <==> now.use_item && !before.use_item
            &&& edges.release_use <==> before.use_item && !now.use_item
            &&& edges.jump <==> now.jump && !before.jump
            &&& edges.use_item || edges.release_use <==> now.use_item != before.use_item
            &&& edges.release_use == edges_of(now, before).use_item
        }),
{
}

/// The flags of the controls: each has its own bit, as the server reads them.
pub proof fn controls_have_their_bits(
    forward: Lean,
    strafe: Lean,
    jump: bool,
    sneak: bool,
    sprint: bool,
)
    ensures
        ({
            let flags = input_bits(forward, strafe, jump, sneak, sprint);
            &&& 0 <= flags < 128
            &&& flags % 2 == 1 <==> forward is Positive
            &&& (flags / 2) % 2 == 1 <==> forward is Negative
            &&& (flags / 4) % 2 == 1 <==> strafe is Positive
            &&& (flags / 8) % 2 == 1 <==> strafe is Negative
            &&& (flags / 16) % 2 == 1 <==> jump
            &&& (flags / 32) % 2 == 1 <==> sneak
            &&& (flags / 64) % 2 == 1 <==> sprint
        }),
{
}

/// What the server is told agrees with what changes: it hears of sneaking (0 begins, 1
/// ends) and sprinting (3 begins, 4 ends) exactly when they change, and of flight with
/// the flag of the state that it has then.
pub proof fn the_server_hears_of_changes(player: PlayerState, input: MoveInput)
    ensures
        ({
            let after = moved(player, input);
            let said = told(player, input);
            &&& said.sneak == Some(0i32) <==> after.sneaking && !player.sneaking
            &&& said.sneak == Some(1i32) <==> !after.sneaking && player.sneaking
            &&& said.sneak is None <==> after.sneaking == player.sneaking
            &&& said.sprint == Some(3i32) <==> after.sprinting && !player.sprinting
            &&& said.sprint == Some(4i32) <==> !after.sprinting && player.sprinting
            &&& said.sprint is None <==> after.sprinting == player.sprinting
            &&& said.abilities is Some <==> input.toggle_flight && player.allow_flying
            &&& said.abilities is Some <==> after.flying != player.flying
            &&& said.abilities matches Some(flags) ==> flags == if after.flying {
                2u8
            } else {
                0u8
            }
            &&& said.glide is Some ==> said.glide == Some(8i32) && after.gliding
        }),
{
}

/// Who sprints holds the sprint key, walks forward, does not sneak, and has eaten or is
/// in creative or spectator mode; and whoever does all that sprints.
pub proof fn sprinting_takes_food(player: PlayerState, input: MoveInput)
    ensures
        ({
            let after = moved(player, input);
            let fed = player.food >= 7 || player.gamemode == 1 || player.gamemode == 3;
            &&& after.sprinting <==> input.sprint && input.forward && fed && !after.sneaking
            &&& input.sneak && player.vehicle is None ==> after.sneaking
            &&& !input.sneak && input.can_stand ==> !after.sneaking
            &&& !input.sneak && !player.sneaking ==> !after.sneaking
        }),
{
}

/// A glide begins in the air with an elytra and a press of the jump key, goes on by
/// itself, and ends on the ground, in water and in flight; swimming takes water, a
/// sprint and the way forward.
pub proof fn glides_begin_and_end(player: PlayerState, input: MoveInput)
    ensures
        ({
            let after = moved(player, input);
            let airborne = !player.on_ground && !input.in_water && !player.flying;
            &&& after.gliding ==> airborne
            &&& airborne && player.gliding ==> after.gliding
            &&& airborne && !player.gliding ==> (after.gliding <==> input.jump_pressed
                && input.wears_elytra && player.vehicle is None)
            &&& told(player, input).glide is Some <==> airborne && input.jump_pressed
                && input.wears_elytra && player.vehicle is None
            &&& after.swimming <==> input.in_water && player.sprinting && input.forward
                && !player.sneaking
        }),
{
}

/// A tick changes nothing of the player but the ways to move.
pub proof fn ticks_keep_the_rest(player: PlayerState, input: MoveInput)
    ensures
        ({
            let after = moved(player, input);
            &&& after.x == player.x && after.y == player.y && after.z == player.z
            &&& after.yaw == player.yaw && after.pitch == player.pitch
            &&& after.health == player.health && after.food == player.food
            &&& after.on_ground == player.on_ground && after.vehicle == player.vehicle
            &&& after.allow_flying == player.allow_flying && after.gamemode == player.gamemode
            &&& after.selected_slot == player.selected_slot && after.spawned == player.spawned
            &&& after.entity_id == player.entity_id && after.xp_level == player.xp_level
            &&& after.flying == (player.flying != (input.toggle_flight && player.allow_flying))
        }),
{
}

/// A body is in lava where one block around it is lava, in water where one is water and
/// none is lava, and else in nothing.
pub proof fn lava_counts_before_water(names: Seq<Option<Seq<char>>>)
    ensures
        fluid_among(names) == Some(FluidKind::Lava) <==> names.contains(Some("minecraft:lava"@)),
        fluid_among(names) == Some(FluidKind::Water) <==> names.contains(
            Some("minecraft:water"@),
        ) && !names.contains(Some("minecraft:lava"@)),
{
}

/// The flags for a vehicle hold the jump key in their lowest bit and the sneak key in the
/// next.
pub proof fn steering_has_its_bits(jump: bool, sneak: bool, flags: u8)
    requires
        call_ensures(steer_flags, (jump, sneak), flags),
    ensures
        flags < 4,
        flags % 2 == 1 <==> jump,
        flags >= 2 <==> sneak,
{
}

/// Both paddles of a boat turn on the way forward and back; to the positive side the first
/// turns alone, and to the other the second.
pub proof fn paddles_turn_with_the_keys(forward: Lean, strafe: Lean, turning: (bool, bool))
    requires
        call_ensures(paddles, (forward, strafe), turning),
    ensures
        forward !is Neutral ==> turning == (true, true),
        forward is Neutral && strafe is Positive ==> turning == (true, false),
        forward is Neutral && strafe is Negative ==> turning == (false, true),
        forward is Neutral && strafe is Neutral ==> turning == (false, false),
{
}

/// Boats are those with and without a chest.
pub proof fn boats_have_two_names(name: &str, boat: bool)
    requires
        call_ensures(is_boat, (Some(name),), boat),
    ensures
        boat <==> name@ == "boat"@ || name@ == "chest_boat"@,
{
}

/// The server hears of another slot of the hotbar, and of no slot beyond its nine.
pub proof fn new_slots_are_reported(selected: u8, last: u8, changed: bool)
    requires
        call_ensures(hotbar_changed, (selected, last), changed),
    ensures
        changed <==> selected != last && selected <= 8,
{
}

/// The blocks around a body go by their names: lava before water, and unknown ones by none.
pub proof fn bodies_are_in_what_is_around_them(
    names: &Vec<Option<&str>>,
    fluid: Option<FluidKind>,
    i: int,
    name: &str,
)
    requires
        call_ensures(fluid_kind, (names,), fluid),
        0 <= i < names@.len(),
        names@[i] == Some(name),
    ensures
        name@ == "minecraft:lava"@ ==> fluid == Some(FluidKind::Lava),
        name@ == "minecraft:water"@ ==> fluid is Some,
{
    let texts = opt_texts(names@);
    assert(texts[i] == Some(name@));
    assert(texts.contains(texts[i]));
}

} // verus!
