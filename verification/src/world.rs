//! The shared world: the flock, the wolves, the difficulty clock, the score,
//! and one method per per-tick system. A frame runs them in the fixed order:
//! collision resolution, sheep think, walk (AI, human, edge newcomers),
//! bleat cooldowns and contagion, wolf think-and-eat then pursuit, and the
//! director (clock, wolf spawning, sheep respawn, control reassignment).

use vstd::prelude::*;

use crate::bleat::{contagion_pair, RecentBleat, BLEAT_RANGE, BLEAT_SPREAD_CHANCE_PM,
    CHANCE_DENOM, SPONTANEOUS_CHANCE_PM, SPONTANEOUS_TICK_MS};
use crate::collision::{collision, resolved, COLLISION_DISTANCE, MAX_AGENTS};
use crate::mind::{mind_think_post, walk_delta, SheepMind, State, RANGE, WALK_DT_LIMIT};
use crate::rng::rand_below;
use crate::timer::{Timer, TIME_LIMIT_MS};
use crate::vec2::{dist_sq, div_trunc, tdiv, Vec2, COORD_LIMIT};
use crate::wolf::{find_id_spec, hunt_delta, max_wolves, sleep_time_spec, think_eat_one,
    WolfMind, WolfStep, ELAPSED_LIMIT_MS, WOLF_SPAWN_INTERVAL_MS};

verus! {

/// The visible map, in simulation units.
pub const GAME_WIDTH: i64 = 640;
pub const GAME_HEIGHT: i64 = 320;

/// Newcomers spawn this far outside the map edge.
pub const DIST_FROM_EDGE: i64 = 20;

/// The in-bounds test keeps this margin inside the map.
pub const PADDING: i64 = 20;

/// The walking speed of an edge newcomer, in units per second.
pub const ENTER_SPEED: i64 = 100;

/// The sheep population the respawner keeps the flock near.
pub const N_SHEEP: usize = 50;

/// The period of the sheep respawner, in milliseconds.
pub const RESPAWN_INTERVAL_MS: u64 = 1_620;

/// The human-control reassignment fires at a random interval in this range.
pub const JUMP_TIME_MIN_MS: u64 = 2_000;
pub const JUMP_TIME_MAX_MS: u64 = 5_000;

/// The fixed speed of the human-controlled sheep, in units per second.
pub const HUMAN_SPEED: i64 = 100;

/// Positions the step methods accept, leaving headroom under the coordinate
/// bound for one frame of movement.
pub const SAFE_POS_LIMIT: i64 = 999_000_000;

/// How a sheep walks: with a full flocking mind, or straight inward as an
/// edge-spawned newcomer that has not yet reached the map.
pub enum Gait {
    Flocking { mind: SheepMind },
    FromEdge { dir: Vec2 },
}

pub struct SheepAgent {
    /// The stable handle wolves hold their prey by.
    pub id: u64,
    pub pos: Vec2,
    pub gait: Gait,
    pub social: RecentBleat,
    /// Whether this is the human-controlled sheep (at most one at a time).
    pub controlled: bool,
}

pub struct WolfAgent {
    pub pos: Vec2,
    pub mind: WolfMind,
}

pub struct World {
    pub sheep: Vec<SheepAgent>,
    pub wolves: Vec<WolfAgent>,
    /// The difficulty clock, in milliseconds of gameplay.
    pub elapsed_ms: u64,
    /// The monotonic score: cabbages fed to the human-controlled sheep.
    pub score: u64,
    pub game_over: bool,
    /// The next sheep handle to hand out.
    pub next_id: u64,
    pub wolf_spawn: Timer,
    pub bleat_gate: Timer,
    pub respawn: Timer,
    pub jump: Timer,
}

impl Gait {
    pub open spec fn is_flocking(self) -> bool {
        match self {
            Gait::Flocking { .. } => true,
            _ => false,
        }
    }

    pub open spec fn mind_of(self) -> SheepMind {
        match self {
            Gait::Flocking { mind } => mind,
            Gait::FromEdge { .. } => SheepMind {
                state: State::Idle,
                cycle: Timer { duration_ms: 0, elapsed_ms: 0, repeating: true, just_finished: false },
            },
        }
    }

    pub open spec fn dir_of(self) -> Vec2 {
        match self {
            Gait::FromEdge { dir } => dir,
            Gait::Flocking { .. } => Vec2 { x: 0, y: 0 },
        }
    }

    pub open spec fn wf(self) -> bool {
        match self {
            Gait::Flocking { mind } => mind.wf(),
            Gait::FromEdge { dir } => dir.abs_le(1),
        }
    }
}

impl SheepAgent {
    pub open spec fn wf(self) -> bool {
        self.pos.abs_le(COORD_LIMIT as int) && self.gait.wf() && self.social.wf()
    }

    /// The same sheep with the same position, identity, social state and
    /// control flag (only the gait may differ).
    pub open spec fn same_but_gait(self, other: SheepAgent) -> bool {
        self.id == other.id && self.pos == other.pos && self.social == other.social
            && self.controlled == other.controlled
    }

    /// The same sheep, elsewhere.
    pub open spec fn same_but_pos(self, other: SheepAgent) -> bool {
        self.id == other.id && self.gait == other.gait && self.social == other.social
            && self.controlled == other.controlled
    }

    /// The same sheep with another social state.
    pub open spec fn same_but_social(self, other: SheepAgent) -> bool {
        self.id == other.id && self.pos == other.pos && self.gait == other.gait
            && self.controlled == other.controlled
    }

    /// The same sheep, with or without the control marker.
    pub open spec fn same_but_controlled(self, other: SheepAgent) -> bool {
        self.id == other.id && self.pos == other.pos && self.gait == other.gait
            && self.social == other.social
    }
}

/// The positions of the flock.
pub open spec fn sheep_positions(s: Seq<SheepAgent>) -> Seq<Vec2> {
    Seq::new(s.len(), |i: int| s[i].pos)
}

/// The handles of the flock.
pub open spec fn sheep_ids(s: Seq<SheepAgent>) -> Seq<u64> {
    Seq::new(s.len(), |i: int| s[i].id)
}

/// Sheep `c` is the one and only human-controlled sheep.
pub open spec fn exactly_one_controlled(s: Seq<SheepAgent>, c: int) -> bool {
    forall|k: int| 0 <= k < s.len() ==> (#[trigger] s[k]).controlled == (k == c)
}

/// The neighbour vectors the pair scan hands sheep `k` this tick: for every
/// other minded sheep within the observation range, in index order, the
/// vector from `k` toward it.
pub open spec fn observed_upto(s: Seq<SheepAgent>, k: int, m: int) -> Seq<Vec2>
    decreases m,
{
    if m <= 0 {
        Seq::empty()
    } else {
        let rest = observed_upto(s, k, m - 1);
        let j = m - 1;
        if j != k && s[j].gait.is_flocking() && dist_sq(s[j].pos, s[k].pos) <= RANGE * RANGE {
            rest.push(s[j].pos.sub_spec(s[k].pos))
        } else {
            rest
        }
    }
}

pub open spec fn observed_neighbors(s: Seq<SheepAgent>, k: int) -> Seq<Vec2> {
    observed_upto(s, k, s.len() as int)
}

impl World {
    pub open spec fn wf(self) -> bool {
        &&& forall|k: int| 0 <= k < self.sheep@.len() ==> (#[trigger] self.sheep@[k]).wf()
        &&& forall|w: int|
            0 <= w < self.wolves@.len() ==> (#[trigger] self.wolves@[w]).pos.abs_le(
                COORD_LIMIT as int,
            ) && self.wolves@[w].mind.wf()
        &&& self.sheep@.len() <= MAX_AGENTS
        &&& self.wolves@.len() <= MAX_AGENTS
        &&& self.elapsed_ms <= ELAPSED_LIMIT_MS
        &&& self.wolf_spawn.wf()
        &&& self.bleat_gate.wf()
        &&& self.respawn.wf()
        &&& self.jump.wf()
    }

    /// Every agent stands with one frame of headroom under the coordinate
    /// bound; the step methods that move agents ask for this margin.
    pub open spec fn in_margin(self) -> bool {
        &&& forall|k: int|
            0 <= k < self.sheep@.len() ==> (#[trigger] self.sheep@[k]).pos.abs_le(
                SAFE_POS_LIMIT as int,
            )
        &&& forall|w: int|
            0 <= w < self.wolves@.len() ==> (#[trigger] self.wolves@[w]).pos.abs_le(
                SAFE_POS_LIMIT as int,
            )
    }

    /// An empty world with all clocks at zero.
    pub fn new() -> (r: World)
        ensures
            r.sheep@.len() == 0,
            r.wolves@.len() == 0,
            r.elapsed_ms == 0,
            r.score == 0,
            !r.game_over,
            r.next_id == 0,
            r.wf(),
    {
        World {
            sheep: Vec::new(),
            wolves: Vec::new(),
            elapsed_ms: 0,
            score: 0,
            game_over: false,
            next_id: 0,
            wolf_spawn: Timer::new_repeating(WOLF_SPAWN_INTERVAL_MS),
            bleat_gate: Timer::new_repeating(SPONTANEOUS_TICK_MS),
            respawn: Timer::new_repeating(RESPAWN_INTERVAL_MS),
            jump: Timer::new_repeating(0),
        }
    }

    /// Start a session over: zero the difficulty clock and the score, leave
    /// the terminal state. The agents stay; the scenario decides who lives.
    pub fn reset_session(&mut self)
        requires
            old(self).wf(),
        ensures
            *final(self) == (World {
                elapsed_ms: 0,
                score: 0,
                game_over: false,
                ..*old(self)
            }),
            final(self).wf(),
    {
        self.elapsed_ms = 0;
        self.score = 0;
        self.game_over = false;
    }

    /// Advance the difficulty clock by one frame.
    pub fn difficulty_step(&mut self, dt: u64)
        requires
            old(self).wf(),
            old(self).elapsed_ms + dt <= ELAPSED_LIMIT_MS,
        ensures
            *final(self) == (World { elapsed_ms: (old(self).elapsed_ms + dt) as u64, ..*old(self) }),
            final(self).wf(),
    {
        self.elapsed_ms = self.elapsed_ms + dt;
    }

    /// The human-controlled sheep ate a cabbage: the score counts one more,
    /// and never goes down otherwise.
    pub fn feed_human(&mut self)
        requires
            old(self).wf(),
            old(self).score < 0xffff_ffff_ffff_ffff,
        ensures
            *final(self) == (World { score: (old(self).score + 1) as u64, ..*old(self) }),
            final(self).wf(),
    {
        self.score = self.score + 1;
    }

    /// Add a full flocking sheep at the given position. Its first idle cycle
    /// is drawn at random; the new handle is returned.
    pub fn add_sheep(&mut self, pos: Vec2) -> (r: u64)
        requires
            old(self).wf(),
            pos.abs_le(SAFE_POS_LIMIT as int),
            old(self).sheep@.len() < MAX_AGENTS,
            old(self).next_id < 0xffff_ffff_ffff_ffff,
        ensures
            final(self).wf(),
            r == old(self).next_id,
            final(self).next_id == old(self).next_id + 1,
            final(self).sheep@.len() == old(self).sheep@.len() + 1,
            forall|k: int|
                0 <= k < old(self).sheep@.len() ==> final(self).sheep@[k] == old(self).sheep@[k],
            ({
                let a = final(self).sheep@.last();
                &&& a.id == r
                &&& a.pos == pos
                &&& a.gait.is_flocking()
                &&& a.gait.mind_of().state.is_idle()
                &&& crate::mind::CYCLE_MIN_MS <= a.gait.mind_of().cycle.duration_ms
                    < crate::mind::CYCLE_MAX_MS
                &&& a.social == RecentBleat::new_spec()
                &&& !a.controlled
            }),
            final(self).wolves == old(self).wolves,
            final(self).elapsed_ms == old(self).elapsed_ms,
            final(self).score == old(self).score,
            final(self).game_over == old(self).game_over,
    {
        let id = self.next_id;
        self.next_id = self.next_id + 1;
        let mind = SheepMind::new_idle();
        self.sheep.push(
            SheepAgent {
                id,
                pos,
                gait: Gait::Flocking { mind },
                social: RecentBleat::new(),
                controlled: false,
            },
        );
        id
    }

    /// Whether a position is inside the map with the padding margin: the
    /// point at which an edge newcomer becomes a full flocking sheep.
    pub fn in_bounds(pos: Vec2) -> (r: bool)
        requires
            pos.abs_le(COORD_LIMIT as int + 100_000),
        ensures
            r == in_bounds_spec(pos),
    {
        -GAME_WIDTH / 2 <= pos.x - PADDING && pos.x + PADDING <= GAME_WIDTH / 2 && -GAME_HEIGHT
            / 2 <= pos.y - PADDING && pos.y + PADDING <= GAME_HEIGHT / 2
    }
}

pub open spec fn in_bounds_spec(pos: Vec2) -> bool {
    &&& -GAME_WIDTH / 2 <= pos.x - PADDING
    &&& pos.x + PADDING <= GAME_WIDTH / 2
    &&& -GAME_HEIGHT / 2 <= pos.y - PADDING
    &&& pos.y + PADDING <= GAME_HEIGHT / 2
}

/// Where an edge spawn lands for a draw `t` along the unrolled map border:
/// walking top, right, bottom, left in turn, just outside the edge, with the
/// inward unit direction.
pub open spec fn edge_position_spec(t: i64) -> (Vec2, Vec2) {
    if t < GAME_WIDTH {
        (
            Vec2 { x: (t - GAME_WIDTH / 2) as i64, y: (GAME_HEIGHT / 2 + DIST_FROM_EDGE) as i64 },
            Vec2 { x: 0, y: (-1) as i64 },
        )
    } else if t < GAME_WIDTH + GAME_HEIGHT {
        (
            Vec2 {
                x: (GAME_WIDTH / 2 + DIST_FROM_EDGE) as i64,
                y: (t - GAME_WIDTH - GAME_HEIGHT / 2) as i64,
            },
            Vec2 { x: (-1) as i64, y: 0 },
        )
    } else if t < 2 * GAME_WIDTH + GAME_HEIGHT {
        (
            Vec2 {
                x: (t - GAME_HEIGHT - 3 * GAME_WIDTH / 2) as i64,
                y: (-GAME_HEIGHT / 2 - DIST_FROM_EDGE) as i64,
            },
            Vec2 { x: 0, y: 1 },
        )
    } else {
        (
            Vec2 {
                x: (-GAME_WIDTH / 2 - DIST_FROM_EDGE) as i64,
                y: (t - 2 * GAME_WIDTH - 3 * GAME_HEIGHT / 2) as i64,
            },
            Vec2 { x: 1, y: 0 },
        )
    }
}

/// Compute the edge spawn point for a border draw.
pub fn edge_position(t: i64) -> (r: (Vec2, Vec2))
    requires
        0 <= t < 2 * (GAME_WIDTH + GAME_HEIGHT),
    ensures
        r == edge_position_spec(t),
        r.0.abs_le(GAME_WIDTH as int + GAME_HEIGHT as int + DIST_FROM_EDGE as int),
        r.1.abs_le(1),
{
    if t < GAME_WIDTH {
        (
            Vec2 { x: t - GAME_WIDTH / 2, y: GAME_HEIGHT / 2 + DIST_FROM_EDGE },
            Vec2 { x: 0, y: -1 },
        )
    } else if t < GAME_WIDTH + GAME_HEIGHT {
        (
            Vec2 { x: GAME_WIDTH / 2 + DIST_FROM_EDGE, y: t - GAME_WIDTH - GAME_HEIGHT / 2 },
            Vec2 { x: -1, y: 0 },
        )
    } else if t < 2 * GAME_WIDTH + GAME_HEIGHT {
        (
            Vec2 { x: t - GAME_HEIGHT - 3 * GAME_WIDTH / 2, y: -GAME_HEIGHT / 2 - DIST_FROM_EDGE },
            Vec2 { x: 0, y: 1 },
        )
    } else {
        (
            Vec2 { x: -GAME_WIDTH / 2 - DIST_FROM_EDGE, y: t - 2 * GAME_WIDTH - 3 * GAME_HEIGHT
                / 2 },
            Vec2 { x: 1, y: 0 },
        )
    }
}

/// The human directional intent from four key flags, normalized to milli
/// units so that the diagonals move no faster than the axes.
pub open spec fn input_intent_spec(up: bool, down: bool, left: bool, right: bool) -> Vec2 {
    let x: int = (if right { 1int } else { 0int }) - (if left { 1int } else { 0int });
    let y: int = (if up { 1int } else { 0int }) - (if down { 1int } else { 0int });
    if x != 0 && y != 0 {
        Vec2 { x: (707 * x) as i64, y: (707 * y) as i64 }
    } else {
        Vec2 { x: (1000 * x) as i64, y: (1000 * y) as i64 }
    }
}

pub fn input_intent(up: bool, down: bool, left: bool, right: bool) -> (r: Vec2)
    ensures
        r == input_intent_spec(up, down, left, right),
        r.abs_le(1000),
{
    let x: i64 = (if right { 1i64 } else { 0i64 }) - (if left { 1i64 } else { 0i64 });
    let y: i64 = (if up { 1i64 } else { 0i64 }) - (if down { 1i64 } else { 0i64 });
    if x != 0 && y != 0 {
        Vec2 { x: 707 * x, y: 707 * y }
    } else {
        Vec2 { x: 1000 * x, y: 1000 * y }
    }
}

impl World {
    /// One collision-resolver pass over the flock's positions; everything
    /// else stands still. It runs before any mind decision, so observation
    /// never sees overlapping agents.
    pub fn collision_step(&mut self)
        requires
            old(self).wf(),
            old(self).in_margin(),
        ensures
            final(self).wf(),
            final(self).sheep@.len() == old(self).sheep@.len(),
            sheep_positions(final(self).sheep@) == resolved(sheep_positions(old(self).sheep@)),
            forall|k: int|
                0 <= k < old(self).sheep@.len() ==> (#[trigger] final(self).sheep@[k]).same_but_pos(
                    old(self).sheep@[k],
                ),
            final(self).wolves == old(self).wolves,
            final(self).elapsed_ms == old(self).elapsed_ms,
            final(self).score == old(self).score,
            final(self).game_over == old(self).game_over,
            final(self).next_id == old(self).next_id,
    {
        let ghost s0 = self.sheep@;
        let n = self.sheep.len();
        let mut positions: Vec<Vec2> = Vec::new();
        let mut k: usize = 0;
        while k < n
            invariant
                self.sheep@ == old(self).sheep@,
                n == self.sheep@.len(),
                old(self).wf(),
                k <= n,
                positions@.len() == k,
                forall|i: int| 0 <= i < k ==> positions@[i] == self.sheep@[i].pos,
            decreases n - k,
        {
            positions.push(self.sheep[k].pos);
            k += 1;
        }
        proof {
            assert(positions@ =~= sheep_positions(s0));
        }
        collision(&mut positions);
        k = 0;
        while k < n
            invariant
                self.sheep@.len() == n,
                self.wolves == old(self).wolves,
                self.elapsed_ms == old(self).elapsed_ms,
                self.score == old(self).score,
                self.game_over == old(self).game_over,
                self.next_id == old(self).next_id,
                self.wolf_spawn == old(self).wolf_spawn,
                self.bleat_gate == old(self).bleat_gate,
                self.respawn == old(self).respawn,
                self.jump == old(self).jump,
                old(self).wf(),
                old(self).in_margin(),
                k <= n,
                positions@ == resolved(sheep_positions(old(self).sheep@)),
                positions@.len() == n,
                forall|i: int|
                    0 <= i < n ==> ((#[trigger] positions@[i]).x - old(self).sheep@[i].pos.x <= 2
                        * COLLISION_DISTANCE && positions@[i].x - old(self).sheep@[i].pos.x >= -2
                        * COLLISION_DISTANCE && positions@[i].y - old(self).sheep@[i].pos.y <= 2
                        * COLLISION_DISTANCE && positions@[i].y - old(self).sheep@[i].pos.y >= -2
                        * COLLISION_DISTANCE),
                forall|i: int|
                    0 <= i < k ==> (#[trigger] self.sheep@[i]).same_but_pos(old(self).sheep@[i])
                        && self.sheep@[i].pos == positions@[i] && self.sheep@[i].wf(),
                forall|i: int| k <= i < n ==> self.sheep@[i] == old(self).sheep@[i],
            decreases n - k,
        {
            self.sheep[k].pos = positions[k];
            proof {
                assert(positions@[k as int].abs_le(COORD_LIMIT + 2 * COLLISION_DISTANCE));
            }
            k += 1;
        }
        proof {
            assert(sheep_positions(self.sheep@) =~= positions@);
        }
    }
}

/// The displacement of one frame of the human override: the supplied intent
/// (in milli units) at the fixed human speed.
pub open spec fn human_delta(intent: Vec2, dt: u64) -> Vec2 {
    Vec2 {
        x: tdiv(HUMAN_SPEED * dt * intent.x, 1_000_000) as i64,
        y: tdiv(HUMAN_SPEED * dt * intent.y, 1_000_000) as i64,
    }
}

/// The displacement of one frame of an edge newcomer's inward walk.
pub open spec fn edge_delta(dir: Vec2, dt: u64) -> Vec2 {
    Vec2 {
        x: tdiv(ENTER_SPEED * dt * dir.x, 1000) as i64,
        y: tdiv(ENTER_SPEED * dt * dir.y, 1000) as i64,
    }
}

impl Gait {
    /// Whether this sheep walks with a full flocking mind.
    pub fn flocking(&self) -> (r: bool)
        ensures
            r == self.is_flocking(),
    {
        match self {
            Gait::Flocking { .. } => true,
            _ => false,
        }
    }
}

impl World {
    /// One think pass: every flocking mind advances its cycle; a mind whose
    /// cycle wrapped steps its state machine; observing minds gather the
    /// vectors toward every other minded sheep in range and conclude a
    /// movement goal the same tick. Positions, social state and newcomers
    /// stand still.
    pub fn think_step(&mut self, dt: u64)
        requires
            old(self).wf(),
            dt <= TIME_LIMIT_MS,
        ensures
            final(self).wf(),
            final(self).sheep@.len() == old(self).sheep@.len(),
            forall|k: int|
                0 <= k < old(self).sheep@.len() ==> {
                    let a = old(self).sheep@[k];
                    let b = #[trigger] final(self).sheep@[k];
                    &&& b.same_but_gait(a)
                    &&& if a.gait.is_flocking() {
                        b.gait.is_flocking() && mind_think_post(
                            a.gait.mind_of(),
                            b.gait.mind_of(),
                            observed_neighbors(old(self).sheep@, k),
                            dt,
                        )
                    } else {
                        b.gait == a.gait
                    }
                },
            final(self).wolves == old(self).wolves,
            final(self).elapsed_ms == old(self).elapsed_ms,
            final(self).score == old(self).score,
            final(self).game_over == old(self).game_over,
            final(self).next_id == old(self).next_id,
            final(self).wolf_spawn == old(self).wolf_spawn,
            final(self).bleat_gate == old(self).bleat_gate,
            final(self).respawn == old(self).respawn,
            final(self).jump == old(self).jump,
    {
        let ghost s0 = self.sheep@;
        let n = self.sheep.len();
        let mut positions: Vec<Vec2> = Vec::new();
        let mut minded: Vec<bool> = Vec::new();
        let mut k: usize = 0;
        while k < n
            invariant
                self.sheep@ == s0,
                n == s0.len(),
                old(self).wf(),
                self.sheep@ == old(self).sheep@,
                k <= n,
                positions@.len() == k,
                minded@.len() == k,
                forall|i: int| 0 <= i < k ==> positions@[i] == s0[i].pos,
                forall|i: int| 0 <= i < k ==> minded@[i] == s0[i].gait.is_flocking(),
            decreases n - k,
        {
            positions.push(self.sheep[k].pos);
            minded.push(self.sheep[k].gait.flocking());
            k += 1;
        }
        let mut work: Vec<SheepAgent> = Vec::new();
        core::mem::swap(&mut work, &mut self.sheep);
        k = 0;
        while k < n
            invariant
                old(self).sheep@ == s0,
                n == s0.len(),
                old(self).wf(),
                n <= MAX_AGENTS,
                positions@.len() == n,
                minded@.len() == n,
                forall|i: int| 0 <= i < n ==> positions@[i] == s0[i].pos,
                forall|i: int| 0 <= i < n ==> minded@[i] == s0[i].gait.is_flocking(),
                forall|i: int| 0 <= i < n ==> (#[trigger] s0[i]).wf(),
                dt <= TIME_LIMIT_MS,
                k <= n,
                work@ =~= s0.skip(k as int),
                self.sheep@.len() == k,
                forall|i: int|
                    0 <= i < k ==> {
                        let a = s0[i];
                        let b = #[trigger] self.sheep@[i];
                        &&& b.wf()
                        &&& b.same_but_gait(a)
                        &&& if a.gait.is_flocking() {
                            b.gait.is_flocking() && mind_think_post(
                                a.gait.mind_of(),
                                b.gait.mind_of(),
                                observed_neighbors(s0, i),
                                dt,
                            )
                        } else {
                            b.gait == a.gait
                        }
                    },
                self.wolves == old(self).wolves,
                self.elapsed_ms == old(self).elapsed_ms,
                self.score == old(self).score,
                self.game_over == old(self).game_over,
                self.next_id == old(self).next_id,
                self.wolf_spawn == old(self).wolf_spawn,
                self.bleat_gate == old(self).bleat_gate,
                self.respawn == old(self).respawn,
                self.jump == old(self).jump,
            decreases n - k,
        {
            let a = work.remove(0);
            proof {
                assert(s0.skip(k as int)[0] == s0[k as int]);
                assert(s0.skip(k as int).remove(0) =~= s0.skip(k as int + 1));
            }
            let SheepAgent { id, pos, gait, social, controlled } = a;
            let new_gait: Gait = match gait {
                Gait::FromEdge { dir } => Gait::FromEdge { dir },
                Gait::Flocking { mind } => {
                    let m1 = mind.tick_cycle(dt);
                    let m2 = if m1.observing_now() {
                        let ghost base = m1.state.neighbors_view();
                        let mut m = m1;
                        let mut j: usize = 0;
                        while j < n
                            invariant
                                n == s0.len(),
                                n <= MAX_AGENTS,
                                positions@.len() == n,
                                minded@.len() == n,
                                forall|i: int| 0 <= i < n ==> positions@[i] == s0[i].pos,
                                forall|i: int|
                                    0 <= i < n ==> minded@[i] == s0[i].gait.is_flocking(),
                                forall|i: int| 0 <= i < n ==> (#[trigger] s0[i]).wf(),
                                k < n,
                                pos == s0[k as int].pos,
                                j <= n,
                                m.wf(),
                                m.state.is_observing(),
                                m.cycle == m1.cycle,
                                m.state.neighbors_view() =~= base + observed_upto(
                                    s0,
                                    k as int,
                                    j as int,
                                ),
                            decreases n - j,
                        {
                            if j != k && minded[j] {
                                let v = positions[j].sub(pos);
                                let d2 = v.norm_sq_e();
                                if d2 <= (RANGE * RANGE) as u64 {
                                    proof {
                                        assert(v == s0[j as int].pos.sub_spec(s0[k as int].pos));
                                        assert(-150 <= v.x <= 150 && -150 <= v.y <= 150)
                                            by (nonlinear_arith)
                                            requires
                                                v.x * v.x + v.y * v.y <= 22_500,
                                        ;
                                        assert((base + observed_upto(s0, k as int, j as int)).push(
                                            v,
                                        ) =~= base + observed_upto(s0, k as int, j as int + 1));
                                    }
                                    m = m.observe(v);
                                } else {
                                    proof {
                                        assert(observed_upto(s0, k as int, j as int + 1)
                                            =~= observed_upto(s0, k as int, j as int));
                                    }
                                }
                            } else {
                                proof {
                                    assert(observed_upto(s0, k as int, j as int + 1)
                                        =~= observed_upto(s0, k as int, j as int));
                                }
                            }
                            j += 1;
                        }
                        m
                    } else {
                        m1
                    };
                    let m3 = m2.conclude_from_observation();
                    Gait::Flocking { mind: m3 }
                },
            };
            self.sheep.push(SheepAgent { id, pos, gait: new_gait, social, controlled });
            k += 1;
        }
    }

    /// One walk pass: every sheep whose mind is moving and who is not under
    /// human control takes one frame of eased movement toward its goal.
    pub fn walk_step(&mut self, dt: u64)
        requires
            old(self).wf(),
            old(self).in_margin(),
            dt <= WALK_DT_LIMIT,
        ensures
            final(self).wf(),
            final(self).sheep@.len() == old(self).sheep@.len(),
            forall|k: int|
                0 <= k < old(self).sheep@.len() ==> {
                    let a = old(self).sheep@[k];
                    let b = #[trigger] final(self).sheep@[k];
                    &&& b.same_but_pos(a)
                    &&& b.pos == if a.gait.is_flocking() && !a.controlled {
                        a.pos.add_spec(crate::mind::walk_delta(a.gait.mind_of(), dt))
                    } else {
                        a.pos
                    }
                },
            final(self).wolves == old(self).wolves,
            final(self).elapsed_ms == old(self).elapsed_ms,
            final(self).score == old(self).score,
            final(self).game_over == old(self).game_over,
            final(self).next_id == old(self).next_id,
            final(self).wolf_spawn == old(self).wolf_spawn,
            final(self).bleat_gate == old(self).bleat_gate,
            final(self).respawn == old(self).respawn,
            final(self).jump == old(self).jump,
    {
        let n = self.sheep.len();
        let mut k: usize = 0;
        while k < n
            invariant
                n == self.sheep@.len(),
                n == old(self).sheep@.len(),
                old(self).wf(),
                old(self).in_margin(),
                dt <= WALK_DT_LIMIT,
                k <= n,
                forall|i: int|
                    0 <= i < k ==> {
                        let a = old(self).sheep@[i];
                        let b = #[trigger] self.sheep@[i];
                        &&& b.wf()
                        &&& b.same_but_pos(a)
                        &&& b.pos == if a.gait.is_flocking() && !a.controlled {
                            a.pos.add_spec(crate::mind::walk_delta(a.gait.mind_of(), dt))
                        } else {
                            a.pos
                        }
                    },
                forall|i: int| k <= i < n ==> self.sheep@[i] == old(self).sheep@[i],
                self.wolves == old(self).wolves,
                self.elapsed_ms == old(self).elapsed_ms,
                self.score == old(self).score,
                self.game_over == old(self).game_over,
                self.next_id == old(self).next_id,
                self.wolf_spawn == old(self).wolf_spawn,
                self.bleat_gate == old(self).bleat_gate,
                self.respawn == old(self).respawn,
                self.jump == old(self).jump,
            decreases n - k,
        {
            if !self.sheep[k].controlled {
                let pos = self.sheep[k].pos;
                let newpos: Option<Vec2> = match &self.sheep[k].gait {
                    Gait::Flocking { mind } => Some(crate::mind::walk_one(pos, mind, dt)),
                    Gait::FromEdge { .. } => None,
                };
                if let Some(p) = newpos {
                    self.sheep[k].pos = p;
                }
            }
            k += 1;
        }
    }

    /// One frame of the human override: the controlled sheep moves by the
    /// supplied intent at the fixed human speed; every other sheep stands.
    pub fn human_walk_step(&mut self, intent: Vec2, dt: u64)
        requires
            old(self).wf(),
            old(self).in_margin(),
            intent.abs_le(1000),
            dt <= WALK_DT_LIMIT,
        ensures
            final(self).wf(),
            final(self).sheep@.len() == old(self).sheep@.len(),
            forall|k: int|
                0 <= k < old(self).sheep@.len() ==> {
                    let a = old(self).sheep@[k];
                    let b = #[trigger] final(self).sheep@[k];
                    &&& b.same_but_pos(a)
                    &&& b.pos == if a.controlled {
                        a.pos.add_spec(human_delta(intent, dt))
                    } else {
                        a.pos
                    }
                },
            final(self).wolves == old(self).wolves,
            final(self).elapsed_ms == old(self).elapsed_ms,
            final(self).score == old(self).score,
            final(self).game_over == old(self).game_over,
            final(self).next_id == old(self).next_id,
            final(self).wolf_spawn == old(self).wolf_spawn,
            final(self).bleat_gate == old(self).bleat_gate,
            final(self).respawn == old(self).respawn,
            final(self).jump == old(self).jump,
    {
        proof {
            assert(0 <= HUMAN_SPEED * dt <= 6_000_000 && -(6_000_000_000int) <= HUMAN_SPEED * dt
                * intent.x <= 6_000_000_000int && -(6_000_000_000int) <= HUMAN_SPEED * dt
                * intent.y <= 6_000_000_000int) by (nonlinear_arith)
                requires
                    0 <= dt <= 60_000,
                    -1000 <= intent.x <= 1000,
                    -1000 <= intent.y <= 1000,
                    HUMAN_SPEED == 100,
            ;
        }
        let c: i64 = HUMAN_SPEED * (dt as i64);
        let dx = div_trunc(c * intent.x, 1_000_000);
        let dy = div_trunc(c * intent.y, 1_000_000);
        proof {
            lemma_move_small(c as int * intent.x, dx as int);
            lemma_move_small(c as int * intent.y, dy as int);
        }
        let n = self.sheep.len();
        let mut k: usize = 0;
        while k < n
            invariant
                n == self.sheep@.len(),
                n == old(self).sheep@.len(),
                old(self).wf(),
                old(self).in_margin(),
                dx == human_delta(intent, dt).x,
                dy == human_delta(intent, dt).y,
                -6_000 <= dx <= 6_000,
                -6_000 <= dy <= 6_000,
                k <= n,
                forall|i: int|
                    0 <= i < k ==> {
                        let a = old(self).sheep@[i];
                        let b = #[trigger] self.sheep@[i];
                        &&& b.wf()
                        &&& b.same_but_pos(a)
                        &&& b.pos == if a.controlled {
                            a.pos.add_spec(human_delta(intent, dt))
                        } else {
                            a.pos
                        }
                    },
                forall|i: int| k <= i < n ==> self.sheep@[i] == old(self).sheep@[i],
                self.wolves == old(self).wolves,
                self.elapsed_ms == old(self).elapsed_ms,
                self.score == old(self).score,
                self.game_over == old(self).game_over,
                self.next_id == old(self).next_id,
                self.wolf_spawn == old(self).wolf_spawn,
                self.bleat_gate == old(self).bleat_gate,
                self.respawn == old(self).respawn,
                self.jump == old(self).jump,
            decreases n - k,
        {
            if self.sheep[k].controlled {
                let p = self.sheep[k].pos;
                self.sheep[k].pos = Vec2 { x: p.x + dx, y: p.y + dy };
            }
            k += 1;
        }
    }
}

impl World {
    /// One frame of the inward walk of every edge newcomer; one that comes
    /// into bounds is promoted to a full flocking sheep with a fresh idle
    /// mind (its first cycle drawn at random).
    pub fn edge_walk_step(&mut self, dt: u64)
        requires
            old(self).wf(),
            old(self).in_margin(),
            dt <= WALK_DT_LIMIT,
        ensures
            final(self).wf(),
            final(self).sheep@.len() == old(self).sheep@.len(),
            forall|k: int|
                0 <= k < old(self).sheep@.len() ==> {
                    let a = old(self).sheep@[k];
                    let b = #[trigger] final(self).sheep@[k];
                    &&& b.id == a.id
                    &&& b.social == a.social
                    &&& b.controlled == a.controlled
                    &&& if a.gait.is_flocking() {
                        b.gait == a.gait && b.pos == a.pos
                    } else {
                        &&& b.pos == a.pos.add_spec(edge_delta(a.gait.dir_of(), dt))
                        &&& if in_bounds_spec(b.pos) {
                            &&& b.gait.is_flocking()
                            &&& b.gait.mind_of().state.is_idle()
                            &&& b.gait.mind_of().cycle.repeating
                            &&& b.gait.mind_of().cycle.elapsed_ms == 0
                            &&& crate::mind::CYCLE_MIN_MS <= b.gait.mind_of().cycle.duration_ms
                                < crate::mind::CYCLE_MAX_MS
                        } else {
                            b.gait == a.gait
                        }
                    }
                },
            final(self).wolves == old(self).wolves,
            final(self).elapsed_ms == old(self).elapsed_ms,
            final(self).score == old(self).score,
            final(self).game_over == old(self).game_over,
            final(self).next_id == old(self).next_id,
            final(self).wolf_spawn == old(self).wolf_spawn,
            final(self).bleat_gate == old(self).bleat_gate,
            final(self).respawn == old(self).respawn,
            final(self).jump == old(self).jump,
    {
        let ghost s0 = self.sheep@;
        let n = self.sheep.len();
        let mut work: Vec<SheepAgent> = Vec::new();
        core::mem::swap(&mut work, &mut self.sheep);
        let mut k: usize = 0;
        while k < n
            invariant
                old(self).sheep@ == s0,
                n == s0.len(),
                old(self).wf(),
                old(self).in_margin(),
                dt <= WALK_DT_LIMIT,
                n <= MAX_AGENTS,
                k <= n,
                work@ =~= s0.skip(k as int),
                self.sheep@.len() == k,
                forall|i: int|
                    0 <= i < k ==> {
                        let a = s0[i];
                        let b = #[trigger] self.sheep@[i];
                        &&& b.wf()
                        &&& b.id == a.id
                        &&& b.social == a.social
                        &&& b.controlled == a.controlled
                        &&& if a.gait.is_flocking() {
                            b.gait == a.gait && b.pos == a.pos
                        } else {
                            &&& b.pos == a.pos.add_spec(edge_delta(a.gait.dir_of(), dt))
                            &&& if in_bounds_spec(b.pos) {
                                &&& b.gait.is_flocking()
                                &&& b.gait.mind_of().state.is_idle()
                                &&& b.gait.mind_of().cycle.repeating
                                &&& b.gait.mind_of().cycle.elapsed_ms == 0
                                &&& crate::mind::CYCLE_MIN_MS <= b.gait.mind_of().cycle.duration_ms
                                    < crate::mind::CYCLE_MAX_MS
                            } else {
                                b.gait == a.gait
                            }
                        }
                    },
                self.wolves == old(self).wolves,
                self.elapsed_ms == old(self).elapsed_ms,
                self.score == old(self).score,
                self.game_over == old(self).game_over,
                self.next_id == old(self).next_id,
                self.wolf_spawn == old(self).wolf_spawn,
                self.bleat_gate == old(self).bleat_gate,
                self.respawn == old(self).respawn,
                self.jump == old(self).jump,
            decreases n - k,
        {
            let a = work.remove(0);
            proof {
                assert(s0.skip(k as int)[0] == s0[k as int]);
                assert(s0.skip(k as int).remove(0) =~= s0.skip(k as int + 1));
                assert(s0[k as int].wf() && s0[k as int].pos.abs_le(SAFE_POS_LIMIT as int));
            }
            let SheepAgent { id, pos, gait, social, controlled } = a;
            let (new_pos, new_gait): (Vec2, Gait) = match gait {
                Gait::Flocking { mind } => (pos, Gait::Flocking { mind }),
                Gait::FromEdge { dir } => {
                    proof {
                        assert(0 <= ENTER_SPEED * dt <= 6_000_000 && -(6_000_000int)
                            <= ENTER_SPEED * dt * dir.x <= 6_000_000int && -(6_000_000int)
                            <= ENTER_SPEED * dt * dir.y <= 6_000_000int) by (nonlinear_arith)
                            requires
                                0 <= dt <= 60_000,
                                -1 <= dir.x <= 1,
                                -1 <= dir.y <= 1,
                                ENTER_SPEED == 100,
                        ;
                    }
                    let c: i64 = ENTER_SPEED * (dt as i64);
                    let dx = div_trunc(c * dir.x, 1000);
                    let dy = div_trunc(c * dir.y, 1000);
                    proof {
                        crate::vec2::lemma_tdiv_close(c as int * dir.x, 1000);
                        crate::vec2::lemma_tdiv_close(c as int * dir.y, 1000);
                        assert(-6_001 <= dx <= 6_001 && -6_001 <= dy <= 6_001)
                            by (nonlinear_arith)
                            requires
                                -999 <= 1000 * dx - c * dir.x <= 999,
                                -999 <= 1000 * dy - c * dir.y <= 999,
                                -6_000_000 <= c * dir.x <= 6_000_000,
                                -6_000_000 <= c * dir.y <= 6_000_000,
                        ;
                    }
                    let np = Vec2 { x: pos.x + dx, y: pos.y + dy };
                    if World::in_bounds(np) {
                        let mind = SheepMind::new_idle();
                        (np, Gait::Flocking { mind })
                    } else {
                        (np, Gait::FromEdge { dir })
                    }
                },
            };
            self.sheep.push(SheepAgent { id, pos: new_pos, gait: new_gait, social, controlled });
            k += 1;
        }
    }

    /// Advance both social cooldowns of every sheep by one frame.
    pub fn bleat_tick_step(&mut self, dt: u64)
        requires
            old(self).wf(),
            dt <= TIME_LIMIT_MS,
        ensures
            final(self).wf(),
            final(self).sheep@.len() == old(self).sheep@.len(),
            forall|k: int|
                0 <= k < old(self).sheep@.len() ==> {
                    let a = old(self).sheep@[k];
                    let b = #[trigger] final(self).sheep@[k];
                    &&& b.same_but_social(a)
                    &&& b.social.time_to_bleat == a.social.time_to_bleat.tick_spec(dt)
                    &&& b.social.time_to_spread == a.social.time_to_spread.tick_spec(dt)
                },
            final(self).wolves == old(self).wolves,
            final(self).elapsed_ms == old(self).elapsed_ms,
            final(self).score == old(self).score,
            final(self).game_over == old(self).game_over,
            final(self).next_id == old(self).next_id,
            final(self).wolf_spawn == old(self).wolf_spawn,
            final(self).bleat_gate == old(self).bleat_gate,
            final(self).respawn == old(self).respawn,
            final(self).jump == old(self).jump,
    {
        let n = self.sheep.len();
        let mut k: usize = 0;
        while k < n
            invariant
                n == self.sheep@.len(),
                n == old(self).sheep@.len(),
                old(self).wf(),
                dt <= TIME_LIMIT_MS,
                k <= n,
                forall|i: int|
                    0 <= i < k ==> {
                        let a = old(self).sheep@[i];
                        let b = #[trigger] self.sheep@[i];
                        &&& b.wf()
                        &&& b.same_but_social(a)
                        &&& b.social.time_to_bleat == a.social.time_to_bleat.tick_spec(dt)
                        &&& b.social.time_to_spread == a.social.time_to_spread.tick_spec(dt)
                    },
                forall|i: int| k <= i < n ==> self.sheep@[i] == old(self).sheep@[i],
                self.wolves == old(self).wolves,
                self.elapsed_ms == old(self).elapsed_ms,
                self.score == old(self).score,
                self.game_over == old(self).game_over,
                self.next_id == old(self).next_id,
                self.wolf_spawn == old(self).wolf_spawn,
                self.bleat_gate == old(self).bleat_gate,
                self.respawn == old(self).respawn,
                self.jump == old(self).jump,
            decreases n - k,
        {
            let mut b = self.sheep[k].social;
            b.tick(dt);
            self.sheep[k].social = b;
            k += 1;
        }
    }

    /// The explicit player bleat: the human-controlled sheep bleats if its
    /// cooldown is over; reports whether any bleat fired.
    pub fn player_bleat_step(&mut self) -> (bled: bool)
        requires
            old(self).wf(),
        ensures
            final(self).wf(),
            final(self).sheep@.len() == old(self).sheep@.len(),
            forall|k: int|
                0 <= k < old(self).sheep@.len() ==> {
                    let a = old(self).sheep@[k];
                    let b = #[trigger] final(self).sheep@[k];
                    &&& b.same_but_social(a)
                    &&& if a.controlled && a.social.time_to_bleat.finished() {
                        b.social == a.social.after_bleat(true)
                    } else {
                        b.social == a.social
                    }
                },
            bled == exists|k: int|
                0 <= k < old(self).sheep@.len() && (#[trigger] old(self).sheep@[k]).controlled
                    && old(self).sheep@[k].social.time_to_bleat.finished(),
            final(self).wolves == old(self).wolves,
            final(self).elapsed_ms == old(self).elapsed_ms,
            final(self).score == old(self).score,
            final(self).game_over == old(self).game_over,
            final(self).next_id == old(self).next_id,
            final(self).wolf_spawn == old(self).wolf_spawn,
            final(self).bleat_gate == old(self).bleat_gate,
            final(self).respawn == old(self).respawn,
            final(self).jump == old(self).jump,
    {
        let n = self.sheep.len();
        let mut bled = false;
        let mut k: usize = 0;
        while k < n
            invariant
                n == self.sheep@.len(),
                n == old(self).sheep@.len(),
                old(self).wf(),
                k <= n,
                forall|i: int|
                    0 <= i < k ==> {
                        let a = old(self).sheep@[i];
                        let b = #[trigger] self.sheep@[i];
                        &&& b.wf()
                        &&& b.same_but_social(a)
                        &&& if a.controlled && a.social.time_to_bleat.finished() {
                            b.social == a.social.after_bleat(true)
                        } else {
                            b.social == a.social
                        }
                    },
                forall|i: int| k <= i < n ==> self.sheep@[i] == old(self).sheep@[i],
                bled == exists|i: int|
                    0 <= i < k && (#[trigger] old(self).sheep@[i]).controlled && old(self).sheep@[i].social.time_to_bleat.finished(),
                self.wolves == old(self).wolves,
                self.elapsed_ms == old(self).elapsed_ms,
                self.score == old(self).score,
                self.game_over == old(self).game_over,
                self.next_id == old(self).next_id,
                self.wolf_spawn == old(self).wolf_spawn,
                self.bleat_gate == old(self).bleat_gate,
                self.respawn == old(self).respawn,
                self.jump == old(self).jump,
            decreases n - k,
        {
            if self.sheep[k].controlled {
                let mut b = self.sheep[k].social;
                let fired = b.player_bleat();
                self.sheep[k].social = b;
                if fired {
                    bled = true;
                    proof {
                        assert(old(self).sheep@[k as int].controlled && old(self).sheep@[k as int].social.time_to_bleat.finished());
                    }
                }
            }
            k += 1;
        }
        bled
    }

    /// The low-frequency spontaneous trigger: when its gate fires, each
    /// sheep whose cooldown is over independently rolls the small chance and
    /// bleats on a hit. Whatever the rolls, a sheep either stands or bleats,
    /// and only one whose cooldown was over can have bled.
    pub fn spontaneous_step(&mut self, dt: u64)
        requires
            old(self).wf(),
            dt <= TIME_LIMIT_MS,
        ensures
            final(self).wf(),
            final(self).bleat_gate == old(self).bleat_gate.tick_spec(dt),
            final(self).sheep@.len() == old(self).sheep@.len(),
            forall|k: int|
                0 <= k < old(self).sheep@.len() ==> {
                    let a = old(self).sheep@[k];
                    let b = #[trigger] final(self).sheep@[k];
                    &&& b.same_but_social(a)
                    &&& (b.social == a.social || (a.social.time_to_bleat.finished() && b.social
                        == a.social.after_bleat(a.controlled)))
                },
            !old(self).bleat_gate.tick_spec(dt).just_finished ==> forall|k: int|
                0 <= k < old(self).sheep@.len() ==> (#[trigger] final(self).sheep@[k]).social
                    == old(self).sheep@[k].social,
            final(self).wolves == old(self).wolves,
            final(self).elapsed_ms == old(self).elapsed_ms,
            final(self).score == old(self).score,
            final(self).game_over == old(self).game_over,
            final(self).next_id == old(self).next_id,
            final(self).wolf_spawn == old(self).wolf_spawn,
            final(self).respawn == old(self).respawn,
            final(self).jump == old(self).jump,
    {
        self.bleat_gate.tick(dt);
        if !self.bleat_gate.just_finished {
            return ;
        }
        let n = self.sheep.len();
        let mut k: usize = 0;
        while k < n
            invariant
                n == self.sheep@.len(),
                n == old(self).sheep@.len(),
                old(self).wf(),
                k <= n,
                self.bleat_gate == old(self).bleat_gate.tick_spec(dt),
                forall|i: int|
                    0 <= i < k ==> {
                        let a = old(self).sheep@[i];
                        let b = #[trigger] self.sheep@[i];
                        &&& b.wf()
                        &&& b.same_but_social(a)
                        &&& (b.social == a.social || (a.social.time_to_bleat.finished()
                            && b.social == a.social.after_bleat(a.controlled)))
                    },
                forall|i: int| k <= i < n ==> self.sheep@[i] == old(self).sheep@[i],
                self.wolves == old(self).wolves,
                self.elapsed_ms == old(self).elapsed_ms,
                self.score == old(self).score,
                self.game_over == old(self).game_over,
                self.next_id == old(self).next_id,
                self.wolf_spawn == old(self).wolf_spawn,
                self.respawn == old(self).respawn,
                self.jump == old(self).jump,
            decreases n - k,
        {
            let roll = rand_below(CHANCE_DENOM) < SPONTANEOUS_CHANCE_PM;
            let human = self.sheep[k].controlled;
            let mut b = self.sheep[k].social;
            let _ = b.spontaneous_bleat(roll, human);
            self.sheep[k].social = b;
            k += 1;
        }
    }
}

impl World {
    /// One contagion pass over every sheep pair in range: a pair where one
    /// side's spread window just opened and the other side is free to bleat
    /// rolls the spread chance, and on a hit the free side bleats (at most
    /// one outcome per pair). Whatever the rolls, each sheep either stands
    /// or has bled, a sheep can have bled only if its cooldown was over and
    /// some other sheep stood within the bleat range, and nothing else of
    /// the world moves.
    pub fn spread_step(&mut self)
        requires
            old(self).wf(),
        ensures
            final(self).wf(),
            final(self).sheep@.len() == old(self).sheep@.len(),
            forall|k: int|
                0 <= k < old(self).sheep@.len() ==> {
                    let a = old(self).sheep@[k];
                    let b = #[trigger] final(self).sheep@[k];
                    &&& b.same_but_social(a)
                    &&& (b.social == a.social || (a.social.time_to_bleat.finished() && b.social
                        == a.social.after_bleat(a.controlled) && exists|j: int|
                        0 <= j < old(self).sheep@.len() && j != k && dist_sq(
                            (#[trigger] old(self).sheep@[j]).pos,
                            a.pos,
                        ) <= BLEAT_RANGE * BLEAT_RANGE))
                },
            final(self).wolves == old(self).wolves,
            final(self).elapsed_ms == old(self).elapsed_ms,
            final(self).score == old(self).score,
            final(self).game_over == old(self).game_over,
            final(self).next_id == old(self).next_id,
            final(self).wolf_spawn == old(self).wolf_spawn,
            final(self).bleat_gate == old(self).bleat_gate,
            final(self).respawn == old(self).respawn,
            final(self).jump == old(self).jump,
    {
        let ghost s0 = self.sheep@;
        let n = self.sheep.len();
        let mut i: usize = 0;
        while i < n
            invariant
                n == self.sheep@.len(),
                n == old(self).sheep@.len(),
                s0 == old(self).sheep@,
                old(self).wf(),
                i <= n,
                forall|k: int|
                    0 <= k < n ==> {
                        let a = s0[k];
                        let b = #[trigger] self.sheep@[k];
                        &&& b.wf()
                        &&& b.same_but_social(a)
                        &&& (b.social == a.social || (a.social.time_to_bleat.finished()
                            && b.social == a.social.after_bleat(a.controlled) && exists|j: int|
                            0 <= j < n && j != k && dist_sq(
                                (#[trigger] s0[j]).pos,
                                a.pos,
                            ) <= BLEAT_RANGE * BLEAT_RANGE))
                    },
                self.wolves == old(self).wolves,
                self.elapsed_ms == old(self).elapsed_ms,
                self.score == old(self).score,
                self.game_over == old(self).game_over,
                self.next_id == old(self).next_id,
                self.wolf_spawn == old(self).wolf_spawn,
                self.bleat_gate == old(self).bleat_gate,
                self.respawn == old(self).respawn,
                self.jump == old(self).jump,
            decreases n - i,
        {
            let mut j: usize = i + 1;
            while j < n
                invariant
                    n == self.sheep@.len(),
                    n == old(self).sheep@.len(),
                    s0 == old(self).sheep@,
                    old(self).wf(),
                    i < n,
                    i < j <= n,
                    forall|k: int|
                        0 <= k < n ==> {
                            let a = s0[k];
                            let b = #[trigger] self.sheep@[k];
                            &&& b.wf()
                            &&& b.same_but_social(a)
                            &&& (b.social == a.social || (a.social.time_to_bleat.finished()
                                && b.social == a.social.after_bleat(a.controlled) && exists|
                                t: int,
                            |
                                0 <= t < n && t != k && dist_sq(
                                    (#[trigger] s0[t]).pos,
                                    a.pos,
                                ) <= BLEAT_RANGE * BLEAT_RANGE))
                        },
                    self.wolves == old(self).wolves,
                    self.elapsed_ms == old(self).elapsed_ms,
                    self.score == old(self).score,
                    self.game_over == old(self).game_over,
                    self.next_id == old(self).next_id,
                    self.wolf_spawn == old(self).wolf_spawn,
                    self.bleat_gate == old(self).bleat_gate,
                    self.respawn == old(self).respawn,
                    self.jump == old(self).jump,
                decreases n - j,
            {
                let pi = self.sheep[i].pos;
                let pj = self.sheep[j].pos;
                proof {
                    assert(s0[i as int].wf() && s0[j as int].wf());
                }
                let d2 = pi.sub(pj).norm_sq_e();
                if d2 <= (BLEAT_RANGE * BLEAT_RANGE) as u64 {
                    let roll1 = rand_below(CHANCE_DENOM) < BLEAT_SPREAD_CHANCE_PM;
                    let roll2 = rand_below(CHANCE_DENOM) < BLEAT_SPREAD_CHANCE_PM;
                    let hi = self.sheep[i].controlled;
                    let hj = self.sheep[j].controlled;
                    let mut bi = self.sheep[i].social;
                    let mut bj = self.sheep[j].social;
                    let ghost bi0 = bi;
                    let ghost bj0 = bj;
                    let _ = contagion_pair(&mut bi, &mut bj, hi, hj, roll1, roll2);
                    proof {
                        crate::vec2::lemma_dist_sq_symm(s0[i as int].pos, s0[j as int].pos);
                        // a sheep that has already bled this pass has a
                        // closed cooldown, so a receiver was still in its
                        // original state
                        s0[j as int].social.lemma_after_bleat_blocks(s0[j as int].controlled);
                        s0[i as int].social.lemma_after_bleat_blocks(s0[i as int].controlled);
                        if bj != bj0 {
                            assert(bj0.time_to_bleat.finished());
                            assert(bj0 == s0[j as int].social);
                        }
                        if bi != bi0 {
                            assert(bi0.time_to_bleat.finished());
                            assert(bi0 == s0[i as int].social);
                        }
                    }
                    self.sheep[i].social = bi;
                    self.sheep[j].social = bj;
                }
                j += 1;
            }
            i += 1;
        }
    }

    /// One think-and-eat step for the wolf at `w`. The nearest sheep within
    /// the eat range is eaten: it leaves the world, the wolf sleeps for the
    /// difficulty-scaled time, and eating the human-controlled sheep ends
    /// the session. Otherwise the wolf retargets the nearest sheep exactly
    /// when its think timer fires; a wolf whose timer did not fire keeps its
    /// prey reference, however the flock moved.
    pub fn wolf_think_step(&mut self, w: usize, dt: u64) -> (r: WolfStep)
        requires
            old(self).wf(),
            w < old(self).wolves@.len(),
            dt <= TIME_LIMIT_MS,
        ensures
            final(self).wf(),
            ({
                let wolf0 = old(self).wolves@[w as int];
                let t = wolf0.mind.time_left.tick_spec(dt);
                let ps = sheep_positions(old(self).sheep@);
                let j = crate::wolf::nearest_sheep_spec(wolf0.pos, ps);
                &&& final(self).wolves@.len() == old(self).wolves@.len()
                &&& forall|v: int|
                    0 <= v < old(self).wolves@.len() && v != w ==> #[trigger] final(self).wolves@[v] == old(self).wolves@[v]
                &&& final(self).wolves@[w as int].pos == wolf0.pos
                &&& if old(self).sheep@.len() == 0 {
                    &&& final(self).sheep@ == old(self).sheep@
                    &&& final(self).wolves@[w as int].mind == (WolfMind {
                        prey: wolf0.mind.prey,
                        time_left: t,
                    })
                    &&& r == (WolfStep { ate: None::<usize>, game_over: false })
                    &&& final(self).game_over == old(self).game_over
                } else if crate::vec2::dist_floor(wolf0.pos, ps[j]) < crate::wolf::EAT_RANGE {
                    &&& r == (WolfStep { ate: Some(j as usize), game_over: old(self).sheep@[j].controlled })
                    &&& final(self).sheep@ == old(self).sheep@.remove(j)
                    &&& final(self).wolves@[w as int].mind.prey is None
                    &&& final(self).wolves@[w as int].mind.time_left == t.restarted_spec(
                        sleep_time_spec(old(self).elapsed_ms) as u64,
                    )
                    &&& final(self).game_over == (old(self).game_over || old(self).sheep@[j].controlled)
                } else {
                    &&& final(self).sheep@ == old(self).sheep@
                    &&& final(self).game_over == old(self).game_over
                    &&& r == (WolfStep { ate: None::<usize>, game_over: false })
                    &&& if t.just_finished {
                        &&& final(self).wolves@[w as int].mind.prey == Some(
                            old(self).sheep@[j].id,
                        )
                        &&& final(self).wolves@[w as int].mind.time_left == (Timer {
                            duration_ms: crate::wolf::THINK_INTERVAL_HUNGRY_MS,
                            ..t
                        })
                    } else {
                        final(self).wolves@[w as int].mind == (WolfMind {
                            prey: wolf0.mind.prey,
                            time_left: t,
                        })
                    }
                }
            }),
            final(self).elapsed_ms == old(self).elapsed_ms,
            final(self).score == old(self).score,
            final(self).next_id == old(self).next_id,
            final(self).wolf_spawn == old(self).wolf_spawn,
            final(self).bleat_gate == old(self).bleat_gate,
            final(self).respawn == old(self).respawn,
            final(self).jump == old(self).jump,
    {
        let ghost s0 = self.sheep@;
        let n = self.sheep.len();
        let mut ids: Vec<u64> = Vec::new();
        let mut positions: Vec<Vec2> = Vec::new();
        let mut human: Vec<bool> = Vec::new();
        let mut k: usize = 0;
        while k < n
            invariant
                self.sheep@ == s0,
                self == old(self),
                n == s0.len(),
                old(self).wf(),
                k <= n,
                ids@.len() == k,
                positions@.len() == k,
                human@.len() == k,
                forall|t: int| 0 <= t < k ==> ids@[t] == s0[t].id,
                forall|t: int| 0 <= t < k ==> positions@[t] == s0[t].pos,
                forall|t: int| 0 <= t < k ==> human@[t] == s0[t].controlled,
            decreases n - k,
        {
            ids.push(self.sheep[k].id);
            positions.push(self.sheep[k].pos);
            human.push(self.sheep[k].controlled);
            k += 1;
        }
        proof {
            assert(positions@ =~= sheep_positions(s0));
            assert(ids@ =~= sheep_ids(s0));
        }
        let mut mind = self.wolves[w].mind;
        let wolf_pos = self.wolves[w].pos;
        let step = think_eat_one(
            &mut mind,
            wolf_pos,
            &ids,
            &positions,
            &human,
            self.elapsed_ms,
            dt,
        );
        proof {
            if positions@.len() > 0 {
                crate::wolf::lemma_nearest_in_range(wolf_pos, positions@);
            }
        }
        self.wolves[w].mind = mind;
        if let Some(j) = step.ate {
            self.sheep.remove(j);
            proof {
                assert forall|i: int| 0 <= i < self.sheep@.len() implies (#[trigger] self.sheep@[i]).wf() by {
                    if i < j {
                        assert(self.sheep@[i] == s0[i]);
                    } else {
                        assert(self.sheep@[i] == s0[i + 1]);
                    }
                }
            }
            if step.game_over {
                self.game_over = true;
            }
        }
        step
    }

    /// One frame of pursuit for the wolf at `w`: a wolf with live prey moves
    /// toward it; a wolf whose prey has disappeared (eaten in the interim)
    /// clears the stale reference and stands, the expected race, not a
    /// fault.
    pub fn wolf_hunt_step(&mut self, w: usize, dt: u64)
        requires
            old(self).wf(),
            old(self).in_margin(),
            w < old(self).wolves@.len(),
            dt <= 60_000,
        ensures
            final(self).wf(),
            final(self).sheep@ == old(self).sheep@,
            final(self).wolves@.len() == old(self).wolves@.len(),
            forall|v: int|
                0 <= v < old(self).wolves@.len() && v != w ==> #[trigger] final(self).wolves@[v]
                    == old(self).wolves@[v],
            ({
                let wolf0 = old(self).wolves@[w as int];
                let ids = sheep_ids(old(self).sheep@);
                match wolf0.mind.prey {
                    None => final(self).wolves@[w as int] == wolf0,
                    Some(id) => {
                        let j = find_id_spec(ids, id);
                        if j == -1 {
                            &&& final(self).wolves@[w as int].pos == wolf0.pos
                            &&& final(self).wolves@[w as int].mind == (WolfMind {
                                prey: None::<u64>,
                                ..wolf0.mind
                            })
                        } else {
                            &&& final(self).wolves@[w as int].mind == wolf0.mind
                            &&& final(self).wolves@[w as int].pos == wolf0.pos.add_spec(
                                hunt_delta(
                                    wolf0.pos,
                                    old(self).sheep@[j].pos,
                                    old(self).elapsed_ms,
                                    dt,
                                ),
                            )
                        }
                    },
                }
            }),
            final(self).elapsed_ms == old(self).elapsed_ms,
            final(self).score == old(self).score,
            final(self).game_over == old(self).game_over,
            final(self).next_id == old(self).next_id,
            final(self).wolf_spawn == old(self).wolf_spawn,
            final(self).bleat_gate == old(self).bleat_gate,
            final(self).respawn == old(self).respawn,
            final(self).jump == old(self).jump,
    {
        let prey = self.wolves[w].mind.prey;
        match prey {
            None => {},
            Some(id) => {
                let ghost s0 = self.sheep@;
                let n = self.sheep.len();
                let mut ids: Vec<u64> = Vec::new();
                let mut k: usize = 0;
                while k < n
                    invariant
                        self.sheep@ == s0,
                        self == old(self),
                        n == s0.len(),
                        old(self).wf(),
                        k <= n,
                        ids@.len() == k,
                        forall|t: int| 0 <= t < k ==> ids@[t] == s0[t].id,
                    decreases n - k,
                {
                    ids.push(self.sheep[k].id);
                    k += 1;
                }
                proof {
                    assert(ids@ =~= sheep_ids(s0));
                }
                match crate::wolf::find_id(&ids, id) {
                    None => {
                        self.wolves[w].mind.prey = None;
                    },
                    Some(j) => {
                        proof {
                            crate::wolf::lemma_find_id_in_range(ids@, id);
                        }
                        let target = self.sheep[j].pos;
                        let pos = self.wolves[w].pos;
                        let newpos = crate::wolf::hunt_toward(
                            pos,
                            target,
                            self.elapsed_ms,
                            dt,
                        );
                        self.wolves[w].pos = newpos;
                    },
                }
            },
        }
    }

    /// The wolf spawner: on its interval, and only while the population is
    /// under the difficulty cap, a new hungry wolf appears at a random point
    /// just outside the map edge.
    pub fn wolf_spawn_step(&mut self, dt: u64)
        requires
            old(self).wf(),
            dt <= TIME_LIMIT_MS,
        ensures
            final(self).wf(),
            final(self).wolf_spawn == old(self).wolf_spawn.tick_spec(dt),
            final(self).sheep@ == old(self).sheep@,
            ({
                let fired = old(self).wolf_spawn.tick_spec(dt).just_finished;
                let below = old(self).wolves@.len() < crate::wolf::max_wolves_spec(
                    old(self).elapsed_ms,
                ) && old(self).wolves@.len() < MAX_AGENTS;
                if fired && below {
                    &&& final(self).wolves@.len() == old(self).wolves@.len() + 1
                    &&& forall|v: int|
                        0 <= v < old(self).wolves@.len() ==> #[trigger] final(self).wolves@[v]
                            == old(self).wolves@[v]
                    &&& final(self).wolves@.last().mind == (WolfMind {
                        prey: None::<u64>,
                        time_left: Timer {
                            duration_ms: crate::wolf::THINK_INTERVAL_HUNGRY_MS,
                            elapsed_ms: 0,
                            repeating: true,
                            just_finished: false,
                        },
                    })
                    &&& exists|t: i64|
                        0 <= t < 2 * (GAME_WIDTH + GAME_HEIGHT) && final(self).wolves@.last().pos == edge_position_spec(t).0
                } else {
                    final(self).wolves@ == old(self).wolves@
                }
            }),
            final(self).elapsed_ms == old(self).elapsed_ms,
            final(self).score == old(self).score,
            final(self).game_over == old(self).game_over,
            final(self).next_id == old(self).next_id,
            final(self).bleat_gate == old(self).bleat_gate,
            final(self).respawn == old(self).respawn,
            final(self).jump == old(self).jump,
    {
        self.wolf_spawn.tick(dt);
        if !self.wolf_spawn.just_finished {
            return ;
        }
        let cap = max_wolves(self.elapsed_ms);
        if self.wolves.len() >= cap || self.wolves.len() >= MAX_AGENTS {
            return ;
        }
        let t = rand_below((2 * (GAME_WIDTH + GAME_HEIGHT)) as u64) as i64;
        let (pos, _) = edge_position(t);
        self.wolves.push(WolfAgent { pos, mind: WolfMind::new() });
    }

    /// The sheep respawner: on its interval, while the flock is under the
    /// target population, a newcomer spawns at a random point just outside
    /// the map edge and walks inward.
    pub fn respawn_step(&mut self, dt: u64)
        requires
            old(self).wf(),
            dt <= TIME_LIMIT_MS,
            old(self).next_id < 0xffff_ffff_ffff_ffff,
        ensures
            final(self).wf(),
            final(self).respawn == old(self).respawn.tick_spec(dt),
            final(self).wolves == old(self).wolves,
            ({
                let fired = old(self).respawn.tick_spec(dt).just_finished;
                let below = old(self).sheep@.len() < N_SHEEP;
                if fired && below {
                    &&& final(self).sheep@.len() == old(self).sheep@.len() + 1
                    &&& forall|k: int|
                        0 <= k < old(self).sheep@.len() ==> #[trigger] final(self).sheep@[k]
                            == old(self).sheep@[k]
                    &&& final(self).sheep@.last().id == old(self).next_id
                    &&& final(self).next_id == old(self).next_id + 1
                    &&& !final(self).sheep@.last().gait.is_flocking()
                    &&& final(self).sheep@.last().social == RecentBleat::new_spec()
                    &&& !final(self).sheep@.last().controlled
                    &&& exists|t: i64|
                        0 <= t < 2 * (GAME_WIDTH + GAME_HEIGHT) && final(self).sheep@.last().pos
                            == edge_position_spec(t).0 && final(self).sheep@.last().gait.dir_of()
                            == edge_position_spec(t).1
                } else {
                    final(self).sheep@ == old(self).sheep@ && final(self).next_id == old(self).next_id
                }
            }),
            final(self).elapsed_ms == old(self).elapsed_ms,
            final(self).score == old(self).score,
            final(self).game_over == old(self).game_over,
            final(self).wolf_spawn == old(self).wolf_spawn,
            final(self).bleat_gate == old(self).bleat_gate,
            final(self).jump == old(self).jump,
    {
        self.respawn.tick(dt);
        if !self.respawn.just_finished {
            return ;
        }
        if self.sheep.len() >= N_SHEEP {
            return ;
        }
        let t = rand_below((2 * (GAME_WIDTH + GAME_HEIGHT)) as u64) as i64;
        let (pos, dir) = edge_position(t);
        let id = self.next_id;
        self.next_id = self.next_id + 1;
        self.sheep.push(
            SheepAgent {
                id,
                pos,
                gait: Gait::FromEdge { dir },
                social: RecentBleat::new(),
                controlled: false,
            },
        );
    }

    /// Hand the human-control marker to one sheep drawn at random; every
    /// other sheep loses it (the marker is reassigned, never duplicated).
    /// With no sheep at all the operation is skipped for this tick.
    pub fn choose_human_step(&mut self) -> (changed: bool)
        requires
            old(self).wf(),
        ensures
            final(self).wf(),
            final(self).sheep@.len() == old(self).sheep@.len(),
            changed == (old(self).sheep@.len() > 0),
            forall|k: int|
                0 <= k < old(self).sheep@.len() ==> (#[trigger] final(self).sheep@[k]).same_but_controlled(old(self).sheep@[k]),
            changed ==> exists|c: int|
                0 <= c < final(self).sheep@.len() && #[trigger] exactly_one_controlled(
                    final(self).sheep@,
                    c,
                ),
            final(self).wolves == old(self).wolves,
            final(self).elapsed_ms == old(self).elapsed_ms,
            final(self).score == old(self).score,
            final(self).game_over == old(self).game_over,
            final(self).next_id == old(self).next_id,
            final(self).wolf_spawn == old(self).wolf_spawn,
            final(self).bleat_gate == old(self).bleat_gate,
            final(self).respawn == old(self).respawn,
            final(self).jump == old(self).jump,
    {
        let n = self.sheep.len();
        if n == 0 {
            return false;
        }
        let c = rand_below(n as u64) as usize;
        let mut k: usize = 0;
        while k < n
            invariant
                n == self.sheep@.len(),
                n == old(self).sheep@.len(),
                old(self).wf(),
                c < n,
                k <= n,
                forall|i: int|
                    0 <= i < k ==> (#[trigger] self.sheep@[i]).same_but_controlled(
                        old(self).sheep@[i],
                    ) && self.sheep@[i].wf() && self.sheep@[i].controlled == (i == c),
                forall|i: int| k <= i < n ==> self.sheep@[i] == old(self).sheep@[i],
                self.wolves == old(self).wolves,
                self.elapsed_ms == old(self).elapsed_ms,
                self.score == old(self).score,
                self.game_over == old(self).game_over,
                self.next_id == old(self).next_id,
                self.wolf_spawn == old(self).wolf_spawn,
                self.bleat_gate == old(self).bleat_gate,
                self.respawn == old(self).respawn,
                self.jump == old(self).jump,
            decreases n - k,
        {
            self.sheep[k].controlled = k == c;
            k += 1;
        }
        proof {
            assert(exactly_one_controlled(self.sheep@, c as int));
        }
        true
    }

    /// Reassign the human-control marker when the interval elapses; the
    /// next interval comes uniformly out of the window above.
    pub fn jump_step(&mut self, dt: u64) -> (changed: bool)
        requires
            old(self).wf(),
            dt <= TIME_LIMIT_MS,
        ensures
            final(self).wf(),
            final(self).sheep@.len() == old(self).sheep@.len(),
            ({
                let fired = old(self).jump.tick_spec(dt).just_finished;
                if fired {
                    &&& JUMP_TIME_MIN_MS <= final(self).jump.duration_ms < JUMP_TIME_MAX_MS
                    &&& final(self).jump.elapsed_ms == 0
                    &&& changed == (old(self).sheep@.len() > 0)
                    &&& forall|k: int|
                        0 <= k < old(self).sheep@.len() ==> (#[trigger] final(self).sheep@[k]).same_but_controlled(old(self).sheep@[k])
                    &&& (changed ==> exists|c: int|
                        0 <= c < final(self).sheep@.len() && #[trigger] exactly_one_controlled(
                            final(self).sheep@,
                            c,
                        ))
                } else {
                    &&& final(self).jump == old(self).jump.tick_spec(dt)
                    &&& final(self).sheep@ == old(self).sheep@
                    &&& !changed
                }
            }),
            final(self).wolves == old(self).wolves,
            final(self).elapsed_ms == old(self).elapsed_ms,
            final(self).score == old(self).score,
            final(self).game_over == old(self).game_over,
            final(self).next_id == old(self).next_id,
            final(self).wolf_spawn == old(self).wolf_spawn,
            final(self).bleat_gate == old(self).bleat_gate,
            final(self).respawn == old(self).respawn,
    {
        self.jump.tick(dt);
        if !self.jump.just_finished {
            return false;
        }
        let duration = JUMP_TIME_MIN_MS + rand_below(JUMP_TIME_MAX_MS - JUMP_TIME_MIN_MS);
        self.jump.restart(duration);
        self.choose_human_step()
    }
}

/// A truncated quotient of a bounded product over a million stays small.
proof fn lemma_move_small(a: int, q: int)
    requires
        -6_000_000_000 <= a <= 6_000_000_000,
        q == tdiv(a, 1_000_000),
    ensures
        -6_000 <= q <= 6_000,
{
    crate::vec2::lemma_tdiv_close(a, 1_000_000);
    assert(-6_000 <= q <= 6_000) by (nonlinear_arith)
        requires
            -(1_000_000 - 1) <= 1_000_000 * q - a <= 1_000_000 - 1,
            -6_000_000_000 <= a <= 6_000_000_000,
    ;
}

} // verus!
