use vstd::prelude::*;
use crate::geometry::{in_arena, moved, step_of, translate, turned, valid_half, Point};
use crate::physics::{after_ax, after_ay, after_bx, after_by, bounce_in_range, bounce_velocities, Body};
use crate::player::{fresh_lose_timeout, pushed, start_of, Player, PlayerState, MAX_NR_PLAYERS, PLAYER_MOVE_DISTANCE, PLAYER_STARTING_MAX_LEN};
use crate::spawn::{obstacle_draw_ok, ObstacleDraw};
use crate::timer::Timer;

verus! {

/// Pause between obstacle moves, in milliseconds.
pub const OBSTACLE_MOVE_INTERVAL_MS: u64 = 100;

/// Pause before the first obstacle, in milliseconds.
pub const OBSTACLE_SPAWN_INTERVAL_MS: u64 = 6000;

/// Pause between snake moves, in milliseconds.
pub const PLAYER_MOVE_INTERVAL_MS: u64 = 100;

/// Pause between pills, in milliseconds.
pub const PILL_SPAWN_INTERVAL_MS: u64 = 3000;

/// Scales, in hundredths, of a head, a trail segment and a pill.
pub const PLAYER_SCALE_HEAD: u64 = 30;
pub const PLAYER_SCALE_TAIL: u64 = 20;
pub const PILL_SCALE: u64 = 100;

/// Points per trail segment.
pub const POINTS_PER_SEGMENT: u128 = 10;

/// Obstacles and pills are numbered below this bound, which leaves room in
/// a trail's `u64` maximum length for every pill to lengthen it by one.
pub const ID_LIMIT: u64 = 0xffff_ffff_ffff_fff0;

/// Everything that can be shown and collide, by kind.
#[derive(Debug, Clone, Copy, PartialEq, Eq, Structural)]
pub enum Entity {
    PlayerHead(usize),
    /// A trail segment: the player's index and the segment's serial.
    PlayerTrail(usize, u64),
    Obstacle(u64),
    Pill(u64),
}

#[derive(Debug, Clone, Copy, PartialEq, Eq, Structural)]
pub enum Sound {
    /// A pill was eaten.
    Confirmation,
    /// A snake crashed.
    Impact,
}

/// What the presentation side is asked to do. Every spawned entity is
/// collidable.
#[derive(Debug, Clone, Copy, PartialEq, Eq, Structural)]
pub enum Intent {
    Spawn { entity: Entity, pos: Point, scale: u64 },
    Move { entity: Entity, pos: Point },
    Despawn { entity: Entity },
    ShowScore { player: usize, points: u128, pos: Point },
    HideScore { player: usize },
    Play { sound: Sound },
}

/// An obstacle and its body; its scale is its mass.
#[derive(Debug, Clone, Copy, PartialEq, Eq, Structural)]
pub struct Obstacle {
    pub id: u64,
    pub body: Body,
}

impl Obstacle {
    /// Moves the obstacle by its velocity, wrapping at the arena's edges.
    pub fn do_move(&mut self, half: Point)
        requires
            old(self).body.wf(),
            valid_half(half),
        ensures
            *final(self) == (Obstacle {
                body: Body { pos: moved(old(self).body.pos, old(self).body.vel, half), ..old(self).body },
                ..*old(self)
            }),
            in_arena(final(self).body.pos, half),
            final(self).body.wf(),
    {
        self.body.pos = translate(self.body.pos, self.body.vel, half);
    }

    /// Two obstacles whose centres differ collide elastically: both take
    /// the velocities of `bounce_velocities`, and true is returned, unless
    /// those leave the coordinate range; then nothing changes.
    pub fn bounce(&mut self, other: &mut Obstacle) -> (r: bool)
        requires
            old(self).body.wf(),
            old(other).body.wf(),
            old(self).body.pos != old(other).body.pos,
        ensures
            r == bounce_in_range(old(self).body, old(other).body),
            r ==> *final(self) == (Obstacle {
                body: Body {
                    vel: Point {
                        x: after_ax(old(self).body, old(other).body) as i64,
                        y: after_ay(old(self).body, old(other).body) as i64,
                    },
                    ..old(self).body
                },
                ..*old(self)
            }),
            r ==> *final(other) == (Obstacle {
                body: Body {
                    vel: Point {
                        x: after_bx(old(self).body, old(other).body) as i64,
                        y: after_by(old(self).body, old(other).body) as i64,
                    },
                    ..old(other).body
                },
                ..*old(other)
            }),
            !r ==> *final(self) == *old(self) && *final(other) == *old(other),
            final(self).body.wf(),
            final(other).body.wf(),
    {
        match bounce_velocities(&self.body, &other.body) {
            Some((va, vb)) => {
                self.body.vel = va;
                other.body.vel = vb;
                true
            },
            None => false,
        }
    }
}

#[derive(Debug, Clone, Copy, PartialEq, Eq, Structural)]
pub struct Pill {
    pub id: u64,
    pub pos: Point,
}

/// A press of one of a player's two keys in this tick; `left_down` tells
/// whether that player's left key is held.
#[derive(Debug, Clone, Copy, PartialEq, Eq, Structural)]
pub struct Press {
    pub player: usize,
    pub left_down: bool,
}

/// Two entities that began (`started`) or stopped touching.
#[derive(Debug, Clone, Copy, PartialEq, Eq, Structural)]
pub struct Collision {
    pub a: Entity,
    pub b: Entity,
    pub started: bool,
}

/// The whole simulation state.
#[derive(Debug)]
pub struct GameState {
    pub first_iteration: bool,
    pub half: Point,
    pub obstacles: Vec<Obstacle>,
    pub pills: Vec<Pill>,
    /// The next free number for an obstacle or a pill.
    pub next_id: u64,
    pub obstacle_next_timer: Timer,
    pub obstacle_move_timer: Timer,
    pub player_move_timer: Timer,
    pub pill_timer: Timer,
    pub players: Vec<Player>,
}

pub open spec fn obstacle_ok(o: Obstacle, half: Point, next_id: u64) -> bool {
    o.body.wf() && in_arena(o.body.pos, half) && o.id < next_id
}

pub open spec fn pill_ok(p: Pill, half: Point, next_id: u64) -> bool {
    p.pos.bounded() && in_arena(p.pos, half) && p.id < next_id
}

impl GameState {
    /// How long a trail may have grown: every pill eaten so far was numbered
    /// and is gone.
    pub open spec fn len_room(self) -> int {
        PLAYER_STARTING_MAX_LEN + self.next_id - self.pills@.len()
    }

    pub open spec fn players_ok(self) -> bool {
        &&& self.players@.len() == MAX_NR_PLAYERS
        &&& forall|i: int|
            0 <= i < MAX_NR_PLAYERS ==> {
                &&& #[trigger] self.players@[i].wf()
                &&& self.players@[i].idx == i
                &&& self.players@[i].max_len <= self.len_room()
                &&& self.players@[i].max_len >= 1
            }
    }

    pub open spec fn wf(self) -> bool {
        &&& valid_half(self.half)
        &&& self.next_id <= ID_LIMIT
        &&& self.pills@.len() <= self.next_id
        &&& self.first_iteration ==> self.obstacles@.len() == 0 && self.pills@.len() == 0
        &&& self.players_ok()
        &&& forall|i: int|
            0 <= i < self.obstacles@.len() ==> obstacle_ok(
                #[trigger] self.obstacles@[i],
                self.half,
                self.next_id,
            )
        &&& forall|i: int|
            0 <= i < self.pills@.len() ==> pill_ok(#[trigger] self.pills@[i], self.half, self.next_id)
        &&& forall|i: int, j: int|
            0 <= i < j < self.obstacles@.len() ==> #[trigger] self.obstacles@[i].id
                < #[trigger] self.obstacles@[j].id
        &&& forall|i: int, j: int|
            0 <= i < j < self.pills@.len() ==> #[trigger] self.pills@[i].id < #[trigger] self.pills@[j].id
        &&& self.obstacle_next_timer.wf()
        &&& self.obstacle_move_timer.wf()
        &&& self.player_move_timer.wf()
        &&& self.pill_timer.wf()
    }

    /// A fresh game: four waiting players, no obstacles or pills, the arena
    /// not yet measured.
    pub fn new() -> (r: GameState)
        ensures
            r.wf(),
            r.first_iteration,
            r.obstacles@.len() == 0,
            r.pills@.len() == 0,
            r.next_id == 0,
            forall|i: int|
                0 <= i < MAX_NR_PLAYERS ==> {
                    &&& (#[trigger] r.players@[i]).is_reset()
                    &&& r.players@[i].idx == i
                    &&& r.players@[i].starting_position == start_of(i)
                },
            r.obstacle_next_timer == (Timer { duration: OBSTACLE_SPAWN_INTERVAL_MS, elapsed: 0, repeating: true }),
            r.obstacle_move_timer == (Timer { duration: OBSTACLE_MOVE_INTERVAL_MS, elapsed: 0, repeating: true }),
            r.player_move_timer == (Timer { duration: PLAYER_MOVE_INTERVAL_MS, elapsed: 0, repeating: false }),
            r.pill_timer == (Timer { duration: PILL_SPAWN_INTERVAL_MS, elapsed: 0, repeating: true }),
    {
        let mut players: Vec<Player> = Vec::new();
        let mut i: usize = 0;
        while i < MAX_NR_PLAYERS
            invariant
                i <= MAX_NR_PLAYERS,
                players@.len() == i,
                forall|j: int|
                    0 <= j < i ==> {
                        &&& (#[trigger] players@[j]).wf()
                        &&& players@[j].idx == j
                        &&& players@[j].is_reset()
                    },
            decreases MAX_NR_PLAYERS - i,
        {
            players.push(Player::new(i));
            i = i + 1;
        }
        GameState {
            first_iteration: true,
            half: Point { x: 0, y: 0 },
            obstacles: Vec::new(),
            pills: Vec::new(),
            next_id: 0,
            obstacle_next_timer: Timer::from_millis(OBSTACLE_SPAWN_INTERVAL_MS, true),
            obstacle_move_timer: Timer::from_millis(OBSTACLE_MOVE_INTERVAL_MS, true),
            player_move_timer: Timer::from_millis(PLAYER_MOVE_INTERVAL_MS, false),
            pill_timer: Timer::from_millis(PILL_SPAWN_INTERVAL_MS, true),
            players,
        }
    }

    /// The effect of `move_obstacles`.
    pub open spec fn obstacles_moved(s0: GameState, s1: GameState, out0: Seq<Intent>, out1: Seq<Intent>) -> bool {
        &&& s1.obstacles@.len() == s0.obstacles@.len()
        &&& forall|i: int|
            0 <= i < s0.obstacles@.len() ==> {
                let (o, n) = (s0.obstacles@[i], #[trigger] s1.obstacles@[i]);
                &&& n.id == o.id
                &&& n.body == (Body { pos: moved(o.body.pos, o.body.vel, s0.half), ..o.body })
                &&& out1[out0.len() + i] == (Intent::Move { entity: Entity::Obstacle(o.id), pos: n.body.pos })
            }
        &&& out1.len() == out0.len() + s0.obstacles@.len()
        &&& out1.subrange(0, out0.len() as int) == out0
        &&& s1.pills == s0.pills
        &&& s1.players == s0.players
        &&& s1.next_id == s0.next_id
        &&& s1.half == s0.half
        &&& s1.first_iteration == s0.first_iteration
        &&& s1.obstacle_next_timer == s0.obstacle_next_timer
        &&& s1.obstacle_move_timer == s0.obstacle_move_timer
        &&& s1.player_move_timer == s0.player_move_timer
        &&& s1.pill_timer == s0.pill_timer
    }

    /// Moves every obstacle by its velocity, wrapping at the arena's edges,
    /// and asks for each to be shown at its new place.
    pub fn move_obstacles(&mut self, out: &mut Vec<Intent>)
        requires
            old(self).wf(),
        ensures
            final(self).wf(),
            Self::obstacles_moved(*old(self), *final(self), old(out)@, final(out)@),
    {
        let n = self.obstacles.len();
        let mut i: usize = 0;
        while i < n
            invariant
                self.wf(),
                n == self.obstacles@.len(),
                n == old(self).obstacles@.len(),
                i <= n,
                self.half == old(self).half,
                self.next_id == old(self).next_id,
                self.pills == old(self).pills,
                self.players == old(self).players,
                self.first_iteration == old(self).first_iteration,
                self.obstacle_next_timer == old(self).obstacle_next_timer,
                self.obstacle_move_timer == old(self).obstacle_move_timer,
                self.player_move_timer == old(self).player_move_timer,
                self.pill_timer == old(self).pill_timer,
                out@.len() == old(out)@.len() + i,
                out@.subrange(0, old(out)@.len() as int) == old(out)@,
                forall|j: int| i <= j < n ==> self.obstacles@[j] == old(self).obstacles@[j],
                forall|j: int|
                    0 <= j < i ==> {
                        let (o, m) = (old(self).obstacles@[j], #[trigger] self.obstacles@[j]);
                        &&& m.id == o.id
                        &&& m.body == (Body { pos: moved(o.body.pos, o.body.vel, old(self).half), ..o.body })
                        &&& out@[old(out)@.len() + j] == (Intent::Move { entity: Entity::Obstacle(o.id), pos: m.body.pos })
                    },
            decreases n - i,
        {
            let mut o = self.obstacles[i];
            assert(obstacle_ok(self.obstacles@[i as int], self.half, self.next_id));
            o.do_move(self.half);
            self.obstacles.set(i, o);
            out.push(Intent::Move { entity: Entity::Obstacle(o.id), pos: o.body.pos });
            proof {
                assert forall|j: int| 0 <= j < self.obstacles@.len() implies obstacle_ok(
                    #[trigger] self.obstacles@[j],
                    self.half,
                    self.next_id,
                ) by {
                    if j != i {
                        assert(self.obstacles@[j] == old(self).obstacles@[j] || j < i);
                    }
                }
                assert(out@.subrange(0, old(out)@.len() as int) =~= old(out)@);
            }
            i = i + 1;
        }
    }

    /// The effect of `spawn_obstacle`.
    pub open spec fn obstacle_spawned(s0: GameState, s1: GameState, out0: Seq<Intent>, out1: Seq<Intent>, d: ObstacleDraw) -> bool {
        &&& s1.obstacles@ == s0.obstacles@.push(
            Obstacle { id: s0.next_id, body: Body { pos: d.pos, vel: d.vel, mass: d.scale } },
        )
        &&& s1.next_id == s0.next_id + 1
        &&& s1.obstacle_next_timer == (Timer { duration: d.next_interval_ms, elapsed: 0, repeating: false })
        &&& out1 == out0.push(
            Intent::Spawn { entity: Entity::Obstacle(s0.next_id), pos: d.pos, scale: d.scale },
        )
        &&& s1.pills == s0.pills
        &&& s1.players == s0.players
        &&& s1.half == s0.half
        &&& s1.first_iteration == s0.first_iteration
        &&& s1.obstacle_move_timer == s0.obstacle_move_timer
        &&& s1.player_move_timer == s0.player_move_timer
        &&& s1.pill_timer == s0.pill_timer
    }

    /// Adds the obstacle of draw `d` under the next free number, asks for it
    /// to be shown, and sets the spawn timer to the drawn pause.
    pub fn spawn_obstacle(&mut self, d: ObstacleDraw, out: &mut Vec<Intent>)
        requires
            old(self).wf(),
            !old(self).first_iteration,
            obstacle_draw_ok(d, old(self).half),
            old(self).next_id < ID_LIMIT,
        ensures
            final(self).wf(),
            Self::obstacle_spawned(*old(self), *final(self), old(out)@, final(out)@, d),
    {
        proof {
            crate::spawn::lemma_draw_in_arena(d, self.half);
        }
        let id = self.next_id;
        self.obstacles.push(Obstacle { id, body: Body { pos: d.pos, vel: d.vel, mass: d.scale } });
        self.next_id = id + 1;
        self.obstacle_next_timer = Timer::from_millis(d.next_interval_ms, false);
        out.push(Intent::Spawn { entity: Entity::Obstacle(id), pos: d.pos, scale: d.scale });
        proof {
            assert forall|j: int| 0 <= j < self.obstacles@.len() implies obstacle_ok(
                #[trigger] self.obstacles@[j],
                self.half,
                self.next_id,
            ) by {
                if j < old(self).obstacles@.len() {
                    assert(obstacle_ok(old(self).obstacles@[j], self.half, old(self).next_id));
                }
            }
            assert forall|j: int| 0 <= j < self.pills@.len() implies pill_ok(
                #[trigger] self.pills@[j],
                self.half,
                self.next_id,
            ) by {
                assert(pill_ok(old(self).pills@[j], self.half, old(self).next_id));
            }
        }
    }

    /// The effect of `spawn_pill`.
    pub open spec fn pill_spawned(s0: GameState, s1: GameState, out0: Seq<Intent>, out1: Seq<Intent>, pos: Point) -> bool {
        &&& s1.pills@ == s0.pills@.push(Pill { id: s0.next_id, pos })
        &&& s1.next_id == s0.next_id + 1
        &&& out1 == out0.push(
            Intent::Spawn { entity: Entity::Pill(s0.next_id), pos, scale: PILL_SCALE },
        )
        &&& s1.obstacles == s0.obstacles
        &&& s1.players == s0.players
        &&& s1.half == s0.half
        &&& s1.first_iteration == s0.first_iteration
        &&& s1.obstacle_next_timer == s0.obstacle_next_timer
        &&& s1.obstacle_move_timer == s0.obstacle_move_timer
        &&& s1.player_move_timer == s0.player_move_timer
        &&& s1.pill_timer == s0.pill_timer
    }

    /// Adds a stationary pill at `pos` under the next free number and asks
    /// for it to be shown.
    pub fn spawn_pill(&mut self, pos: Point, out: &mut Vec<Intent>)
        requires
            old(self).wf(),
            !old(self).first_iteration,
            in_arena(pos, old(self).half),
            old(self).next_id < ID_LIMIT,
        ensures
            final(self).wf(),
            Self::pill_spawned(*old(self), *final(self), old(out)@, final(out)@, pos),
    {
        let id = self.next_id;
        self.pills.push(Pill { id, pos });
        self.next_id = id + 1;
        out.push(Intent::Spawn { entity: Entity::Pill(id), pos, scale: PILL_SCALE });
        proof {
            assert forall|j: int| 0 <= j < self.obstacles@.len() implies obstacle_ok(
                #[trigger] self.obstacles@[j],
                self.half,
                self.next_id,
            ) by {
                assert(obstacle_ok(old(self).obstacles@[j], self.half, old(self).next_id));
            }
            assert forall|j: int| 0 <= j < self.pills@.len() implies pill_ok(
                #[trigger] self.pills@[j],
                self.half,
                self.next_id,
            ) by {
                if j < old(self).pills@.len() {
                    assert(pill_ok(old(self).pills@[j], self.half, old(self).next_id));
                }
            }
        }
    }

    /// The effect of `step_player`.
    pub open spec fn player_stepped(s0: GameState, s1: GameState, out0: Seq<Intent>, out1: Seq<Intent>, i: usize) -> bool {
        &&& forall|j: int| 0 <= j < MAX_NR_PLAYERS && j != i ==> #[trigger] s1.players@[j] == s0.players@[j]
        &&& ({
            let (o, n) = (s0.players@[i as int], s1.players@[i as int]);
            if o.state == PlayerState::Playing && o.serial < u64::MAX {
                &&& n.head == moved(o.head, step_of(o.direction, PLAYER_MOVE_DISTANCE), s0.half)
                &&& n.trail@ == pushed(o.trail@, o.serial, o.max_len as int)
                &&& n.serial == o.serial + 1
                &&& n.state == o.state && n.max_len == o.max_len && n.direction == o.direction
                &&& out1.subrange(0, out0.len() + 2int) == out0
                    + seq![
                    Intent::Move { entity: Entity::PlayerHead(i), pos: n.head },
                    Intent::Spawn { entity: Entity::PlayerTrail(i, o.serial), pos: o.head, scale: PLAYER_SCALE_TAIL },
                ]
                &&& if o.trail@.len() + 1 > o.max_len {
                    out1 == out0 + seq![
                        Intent::Move { entity: Entity::PlayerHead(i), pos: n.head },
                        Intent::Spawn { entity: Entity::PlayerTrail(i, o.serial), pos: o.head, scale: PLAYER_SCALE_TAIL },
                        Intent::Despawn { entity: Entity::PlayerTrail(i, o.trail@.last()) },
                    ]
                } else {
                    out1.len() == out0.len() + 2
                }
            } else {
                n == o && out1 == out0
            }
        })
        &&& s1.obstacles == s0.obstacles
        &&& s1.pills == s0.pills
        &&& s1.next_id == s0.next_id
        &&& s1.half == s0.half
        &&& s1.first_iteration == s0.first_iteration
        &&& s1.obstacle_next_timer == s0.obstacle_next_timer
        &&& s1.obstacle_move_timer == s0.obstacle_move_timer
        &&& s1.player_move_timer == s0.player_move_timer
        &&& s1.pill_timer == s0.pill_timer
    }

    /// One step of player `i` if it is playing: its head moves on, a trail
    /// segment is shown where the head was, and the oldest segment goes once
    /// the trail is longer than its maximum. Other players stay as they are.
    pub fn step_player(&mut self, i: usize, out: &mut Vec<Intent>)
        requires
            old(self).wf(),
            i < MAX_NR_PLAYERS,
        ensures
            final(self).wf(),
            Self::player_stepped(*old(self), *final(self), old(out)@, final(out)@, i),
    {
        let half = self.half;
        assert(self.players@[i as int].wf());
        if !self.players[i].is_playing() || self.players[i].serial == u64::MAX {
            return;
        }
        let old_head = self.players[i].head;
        let (serial, dropped) = self.players[i].advance(half);
        let new_head = self.players[i].head;
        out.push(Intent::Move { entity: Entity::PlayerHead(i), pos: new_head });
        out.push(Intent::Spawn { entity: Entity::PlayerTrail(i, serial), pos: old_head, scale: PLAYER_SCALE_TAIL });
        proof {
            let o = old(self).players@[i as int];
            assert(out@.subrange(0, old(out)@.len() + 2int) =~= old(out)@ + seq![
                Intent::Move { entity: Entity::PlayerHead(i), pos: new_head },
                Intent::Spawn { entity: Entity::PlayerTrail(i, o.serial), pos: o.head, scale: PLAYER_SCALE_TAIL },
            ]);
        }
        if let Some(gone) = dropped {
            out.push(Intent::Despawn { entity: Entity::PlayerTrail(i, gone) });
        }
        proof {
            let o = old(self).players@[i as int];
            assert(out@.subrange(0, old(out)@.len() + 2int) =~= old(out)@ + seq![
                Intent::Move { entity: Entity::PlayerHead(i), pos: new_head },
                Intent::Spawn { entity: Entity::PlayerTrail(i, o.serial), pos: o.head, scale: PLAYER_SCALE_TAIL },
            ]);
            if o.trail@.len() + 1 > o.max_len {
                assert(out@ =~= old(out)@ + seq![
                    Intent::Move { entity: Entity::PlayerHead(i), pos: new_head },
                    Intent::Spawn { entity: Entity::PlayerTrail(i, o.serial), pos: o.head, scale: PLAYER_SCALE_TAIL },
                    Intent::Despawn { entity: Entity::PlayerTrail(i, o.trail@.last()) },
                ]);
            }
            assert forall|j: int| 0 <= j < MAX_NR_PLAYERS implies {
                &&& #[trigger] self.players@[j].wf()
                &&& self.players@[j].idx == j
                &&& self.players@[j].max_len <= self.len_room()
                &&& self.players@[j].max_len >= 1
            } by {
                if j != i {
                    assert(self.players@[j] == old(self).players@[j]);
                    assert(old(self).players@[j].wf());
                }
            }
        }
    }

    /// One step of every playing snake, in the order of their indices.
    pub fn move_players(&mut self, out: &mut Vec<Intent>)
        requires
            old(self).wf(),
        ensures
            final(self).wf(),
            Self::players_stepped(*old(self), *final(self), old(out)@, final(out)@, MAX_NR_PLAYERS as int),
            forall|j: int|
                0 <= j < MAX_NR_PLAYERS ==> {
                    let (o, n) = (old(self).players@[j], #[trigger] final(self).players@[j]);
                    if o.state == PlayerState::Playing && o.serial < u64::MAX {
                        &&& n.head == moved(o.head, step_of(o.direction, PLAYER_MOVE_DISTANCE), old(self).half)
                        &&& n.trail@ == pushed(o.trail@, o.serial, o.max_len as int)
                        &&& n.serial == o.serial + 1
                        &&& n.state == o.state && n.max_len == o.max_len && n.direction == o.direction
                    } else {
                        n == o
                    }
                },
            final(self).obstacles == old(self).obstacles,
            final(self).pills == old(self).pills,
            final(self).next_id == old(self).next_id,
            final(self).half == old(self).half,
            final(self).first_iteration == old(self).first_iteration,
            final(self).obstacle_next_timer == old(self).obstacle_next_timer,
            final(self).obstacle_move_timer == old(self).obstacle_move_timer,
            final(self).player_move_timer == old(self).player_move_timer,
            final(self).pill_timer == old(self).pill_timer,
    {
        let mut i: usize = 0;
        while i < MAX_NR_PLAYERS
            invariant
                self.wf(),
                i <= MAX_NR_PLAYERS,
                Self::players_stepped(*old(self), *self, old(out)@, out@, i as int),
                forall|j: int| i <= j < MAX_NR_PLAYERS ==> #[trigger] self.players@[j] == old(self).players@[j],
                forall|j: int|
                    0 <= j < i ==> {
                        let (o, n) = (old(self).players@[j], #[trigger] self.players@[j]);
                        if o.state == PlayerState::Playing && o.serial < u64::MAX {
                            &&& n.head == moved(o.head, step_of(o.direction, PLAYER_MOVE_DISTANCE), old(self).half)
                            &&& n.trail@ == pushed(o.trail@, o.serial, o.max_len as int)
                            &&& n.serial == o.serial + 1
                            &&& n.state == o.state && n.max_len == o.max_len && n.direction == o.direction
                        } else {
                            n == o
                        }
                    },
                self.obstacles == old(self).obstacles,
                self.pills == old(self).pills,
                self.next_id == old(self).next_id,
                self.half == old(self).half,
                self.first_iteration == old(self).first_iteration,
                self.obstacle_next_timer == old(self).obstacle_next_timer,
                self.obstacle_move_timer == old(self).obstacle_move_timer,
                self.player_move_timer == old(self).player_move_timer,
                self.pill_timer == old(self).pill_timer,
            decreases MAX_NR_PLAYERS - i,
        {
            let ghost before = self.players@;
            let ghost (pre, preo) = (*self, out@);
            self.step_player(i, out);
            proof {
                assert(before[i as int] == old(self).players@[i as int]);
                assert(Self::players_stepped(*old(self), pre, old(out)@, preo, i as int));
                assert(Self::player_stepped(pre, *self, preo, out@, ((i + 1) as int - 1) as usize));
            }
            i = i + 1;
        }
    }

    /// The others than player `i` are as they were.
    pub open spec fn others_kept(self, old_state: GameState, i: int) -> bool {
        forall|j: int| 0 <= j < MAX_NR_PLAYERS && j != i ==> #[trigger] self.players@[j] == old_state.players@[j]
    }

    /// Everything but the players is as it was.
    pub open spec fn world_kept(self, old_state: GameState) -> bool {
        &&& self.obstacles == old_state.obstacles
        &&& self.pills == old_state.pills
        &&& self.next_id == old_state.next_id
        &&& self.half == old_state.half
        &&& self.first_iteration == old_state.first_iteration
        &&& self.obstacle_next_timer == old_state.obstacle_next_timer
        &&& self.obstacle_move_timer == old_state.obstacle_move_timer
        &&& self.player_move_timer == old_state.player_move_timer
        &&& self.pill_timer == old_state.pill_timer
    }

    proof fn lemma_players_ok_after_update(self, old_state: GameState, i: int)
        requires
            old_state.players_ok(),
            self.players@.len() == MAX_NR_PLAYERS,
            0 <= i < MAX_NR_PLAYERS,
            self.others_kept(old_state, i),
            self.players@[i].wf(),
            self.players@[i].idx == i,
            1 <= self.players@[i].max_len <= self.len_room(),
            self.len_room() >= old_state.len_room(),
        ensures
            self.players_ok(),
    {
        assert forall|j: int| 0 <= j < MAX_NR_PLAYERS implies {
            &&& #[trigger] self.players@[j].wf()
            &&& self.players@[j].idx == j
            &&& self.players@[j].max_len <= self.len_room()
            &&& self.players@[j].max_len >= 1
        } by {
            if j != i {
                assert(self.players@[j] == old_state.players@[j]);
                assert(old_state.players@[j].wf());
            }
        }
    }

    /// The effect of `press`.
    pub open spec fn pressed(s0: GameState, s1: GameState, out0: Seq<Intent>, out1: Seq<Intent>, p: Press) -> bool {
        &&& s1.world_kept(s0)
        &&& s1.others_kept(s0, p.player as int)
        &&& ({
            let (o, n) = (s0.players@[p.player as int], s1.players@[p.player as int]);
            match o.state {
                PlayerState::Playing => {
                    &&& n == (Player { direction: turned(o.direction, p.left_down), ..o })
                    &&& out1 == out0
                },
                PlayerState::Waiting => {
                    &&& n == (Player { state: PlayerState::Playing, head: o.starting_position, ..o })
                    &&& out1 == out0 + seq![
                        Intent::HideScore { player: p.player },
                        Intent::Spawn { entity: Entity::PlayerHead(p.player), pos: o.starting_position, scale: PLAYER_SCALE_HEAD },
                    ]
                },
                PlayerState::Lost => {
                    &&& n == o
                    &&& out1 == out0
                },
            }
        })
    }

    /// A press of one of player `p.player`'s keys. A playing snake turns, to
    /// the left when its left key is held and else to the right; a waiting
    /// player joins at its starting position without turning, its old score
    /// is hidden and its head shown; a player that lost is not affected.
    pub fn press(&mut self, p: Press, out: &mut Vec<Intent>)
        requires
            old(self).wf(),
            p.player < MAX_NR_PLAYERS,
        ensures
            final(self).wf(),
            Self::pressed(*old(self), *final(self), old(out)@, final(out)@, p),
    {
        let i = p.player;
        assert(self.players@[i as int].wf());
        if self.players[i].is_playing() {
            self.players[i].turn(p.left_down);
        } else if self.players[i].is_waiting() {
            self.players[i].activate();
            out.push(Intent::HideScore { player: i });
            let start = self.players[i].starting_position;
            out.push(Intent::Spawn { entity: Entity::PlayerHead(i), pos: start, scale: PLAYER_SCALE_HEAD });
            proof {
                assert(out@ =~= old(out)@ + seq![
                    Intent::HideScore { player: i },
                    Intent::Spawn { entity: Entity::PlayerHead(i), pos: start, scale: PLAYER_SCALE_HEAD },
                ]);
            }
        }
        proof {
            self.lemma_players_ok_after_update(*old(self), i as int);
        }
    }

    /// Where player `i`'s score is shown: along a band near the top edge.
    pub open spec fn score_position(half: Point, i: int) -> Point {
        Point { x: (-half.x + 100_000 + i * 100_000) as i64, y: (half.y - 50_000) as i64 }
    }

    /// Requests to remove the trail segments `t` of player `i`, in order.
    pub open spec fn trail_despawns(i: usize, t: Seq<u64>) -> Seq<Intent> {
        t.map_values(|s: u64| Intent::Despawn { entity: Entity::PlayerTrail(i, s) })
    }

    /// The effect of `expire_player`.
    pub open spec fn countdown_run(s0: GameState, s1: GameState, out0: Seq<Intent>, out1: Seq<Intent>, i: usize, delta: u64) -> bool {
        &&& s1.world_kept(s0)
        &&& s1.others_kept(s0, i as int)
        &&& ({
            let (o, n) = (s0.players@[i as int], s1.players@[i as int]);
            if o.state != PlayerState::Lost {
                n == o && out1 == out0
            } else if o.lose_timeout.fires(delta as int) {
                &&& n.is_reset()
                &&& n.head == o.starting_position
                &&& out1 == out0 + seq![
                    Intent::ShowScore {
                        player: i,
                        points: (o.trail@.len() * POINTS_PER_SEGMENT) as u128,
                        pos: Self::score_position(s0.half, i as int),
                    },
                    Intent::Despawn { entity: Entity::PlayerHead(i) },
                ] + Self::trail_despawns(i, o.trail@)
            } else {
                &&& n == (Player { lose_timeout: o.lose_timeout.after(delta as int), ..o })
                &&& out1 == out0
            }
        })
    }

    /// The countdown of player `i`, if it lost, runs for `delta` milliseconds.
    /// When it runs out, the player's score (ten points per trail segment) is
    /// shown, its head and trail are removed, newest segment first, and the
    /// player waits again as on the first day.
    pub fn expire_player(&mut self, i: usize, delta: u64, out: &mut Vec<Intent>)
        requires
            old(self).wf(),
            i < MAX_NR_PLAYERS,
        ensures
            final(self).wf(),
            Self::countdown_run(*old(self), *final(self), old(out)@, final(out)@, i, delta),
    {
        assert(self.players@[i as int].wf());
        if !self.players[i].has_lost() {
            return;
        }
        let fired = self.players[i].lose_timeout.tick(delta);
        if fired {
            let half = self.half;
            let points = self.players[i].trail.len() as u128 * POINTS_PER_SEGMENT;
            let pos = Point { x: -half.x + 100_000 + i as i64 * 100_000, y: half.y - 50_000 };
            out.push(Intent::ShowScore { player: i, points, pos });
            out.push(Intent::Despawn { entity: Entity::PlayerHead(i) });
            let ghost base = out@;
            proof {
                let o = old(self).players@[i as int];
                assert(points == (o.trail@.len() * POINTS_PER_SEGMENT) as u128);
                assert(pos == Self::score_position(old(self).half, i as int));
                assert(base =~= old(out)@ + seq![
                    Intent::ShowScore { player: i, points, pos },
                    Intent::Despawn { entity: Entity::PlayerHead(i) },
                ]);
            }
            let ghost snap = *self;
            let n = self.players[i].trail.len();
            let mut k: usize = 0;
            while k < n
                invariant
                    k <= n,
                    i < MAX_NR_PLAYERS,
                    *self == snap,
                    self.players@.len() == MAX_NR_PLAYERS,
                    n == self.players@[i as int].trail@.len(),
                    out@ == base + Self::trail_despawns(i, self.players@[i as int].trail@.subrange(0, k as int)),
                decreases n - k,
            {
                let s = self.players[i].trail[k];
                out.push(Intent::Despawn { entity: Entity::PlayerTrail(i, s) });
                proof {
                    let t = self.players@[i as int].trail@;
                    assert(t.subrange(0, k + 1) =~= t.subrange(0, k as int).push(s));
                    assert(Self::trail_despawns(i, t.subrange(0, k + 1)) =~= Self::trail_despawns(
                        i,
                        t.subrange(0, k as int),
                    ).push(Intent::Despawn { entity: Entity::PlayerTrail(i, s) }));
                }
                k = k + 1;
            }
            proof {
                let t = self.players@[i as int].trail@;
                assert(t.subrange(0, n as int) =~= t);
                assert(t == old(self).players@[i as int].trail@);
            }
            self.players[i].deactivate();
        }
        proof {
            self.lemma_players_ok_after_update(*old(self), i as int);
        }
    }

    /// What the head of player `i` touching `other` does, from `s0` and the
    /// intents `out0` to `s1` and `out1` (see `player_hit`).
    pub open spec fn hit_outcome(s0: GameState, s1: GameState, out0: Seq<Intent>, out1: Seq<Intent>, i: int, other: Entity) -> bool {
        &&& s1.others_kept(s0, i)
        &&& s1.next_id == s0.next_id
        &&& s1.half == s0.half
        &&& s1.first_iteration == s0.first_iteration
        &&& s1.obstacle_next_timer == s0.obstacle_next_timer
        &&& s1.obstacle_move_timer == s0.obstacle_move_timer
        &&& s1.player_move_timer == s0.player_move_timer
        &&& s1.pill_timer == s0.pill_timer
        &&& {
            let (o, n) = (s0.players@[i], s1.players@[i]);
            if o.state == PlayerState::Waiting {
                s1 == s0 && out1 == out0
            } else if let Entity::Pill(id) = other {
                if exists|k: int| 0 <= k < s0.pills@.len() && #[trigger] s0.pills@[k].id == id {
                    &&& n == (Player {
                        max_len: (o.max_len + 1) as u64,
                        ..o
                    })
                    &&& s1.pills@.len() == s0.pills@.len() - 1
                    &&& exists|k: int| 0 <= k < s0.pills@.len() && s0.pills@[k].id == id
                        && s1.pills@ == s0.pills@.remove(k)
                    &&& out1 == out0 + seq![
                        Intent::Despawn { entity: Entity::Pill(id) },
                        Intent::Play { sound: Sound::Confirmation },
                    ]
                    &&& s1.obstacles == s0.obstacles
                } else {
                    s1 == s0 && out1 == out0
                }
            } else {
                &&& n == (Player { state: PlayerState::Lost, ..o })
                &&& s1.pills == s0.pills
                &&& s1.obstacles == s0.obstacles
                &&& out1 == out0.push(Intent::Play { sound: Sound::Impact })
            }
        }
    }

    /// The place of the pill numbered `id`, if there is one.
    pub fn find_pill(&self, id: u64) -> (r: Option<usize>)
        ensures
            r matches Some(k) ==> k < self.pills@.len() && self.pills@[k as int].id == id,
            r is None ==> forall|k: int| 0 <= k < self.pills@.len() ==> #[trigger] self.pills@[k].id != id,
    {
        let mut k: usize = 0;
        while k < self.pills.len()
            invariant
                k <= self.pills@.len(),
                forall|j: int| 0 <= j < k ==> #[trigger] self.pills@[j].id != id,
            decreases self.pills@.len() - k,
        {
            if self.pills[k].id == id {
                return Some(k);
            }
            k = k + 1;
        }
        None
    }

    /// The place of the obstacle numbered `id`, if there is one.
    pub fn find_obstacle(&self, id: u64) -> (r: Option<usize>)
        ensures
            r matches Some(k) ==> k < self.obstacles@.len() && self.obstacles@[k as int].id == id,
            r is None ==> forall|k: int| 0 <= k < self.obstacles@.len() ==> #[trigger] self.obstacles@[k].id != id,
    {
        let mut k: usize = 0;
        while k < self.obstacles.len()
            invariant
                k <= self.obstacles@.len(),
                forall|j: int| 0 <= j < k ==> #[trigger] self.obstacles@[j].id != id,
            decreases self.obstacles@.len() - k,
        {
            if self.obstacles[k].id == id {
                return Some(k);
            }
            k = k + 1;
        }
        None
    }

    /// The head of player `i` touched `other`. A pill is eaten: it goes, and
    /// the trail may grow by one more segment.
    /// Anything else makes the player lose; losing again changes nothing.
    /// A player that is waiting has no head and is not affected, nor is
    /// anything by a pill that is already gone.
    pub fn player_hit(&mut self, i: usize, other: Entity, out: &mut Vec<Intent>)
        requires
            old(self).wf(),
            i < MAX_NR_PLAYERS,
        ensures
            final(self).wf(),
            Self::hit_outcome(*old(self), *final(self), old(out)@, final(out)@, i as int, other),
    {
        assert(self.players@[i as int].wf());
        if self.players[i].is_waiting() {
            return;
        }
        if let Entity::Pill(id) = other {
            match self.find_pill(id) {
                Some(k) => {
                    self.pills.remove(k);
                    assert(self.players@[i as int].max_len <= old(self).len_room());
                    self.players[i].eat_pill();
                    out.push(Intent::Despawn { entity: Entity::Pill(id) });
                    out.push(Intent::Play { sound: Sound::Confirmation });
                    proof {
                        assert(out@ =~= old(out)@ + seq![
                            Intent::Despawn { entity: Entity::Pill(id) },
                            Intent::Play { sound: Sound::Confirmation },
                        ]);
                        assert(self.pills@ == old(self).pills@.remove(k as int));
                        assert forall|j: int| 0 <= j < self.pills@.len() implies pill_ok(
                            #[trigger] self.pills@[j],
                            self.half,
                            self.next_id,
                        ) by {
                            if j < k {
                                assert(self.pills@[j] == old(self).pills@[j]);
                            } else {
                                assert(self.pills@[j] == old(self).pills@[j + 1]);
                            }
                        }
                        self.lemma_players_ok_after_update(*old(self), i as int);
                    }
                },
                None => {},
            }
        } else {
            self.players[i].lost();
            out.push(Intent::Play { sound: Sound::Impact });
            proof {
                self.lemma_players_ok_after_update(*old(self), i as int);
            }
        }
    }

    /// What two obstacles numbered `ia` and `ib` touching does: when both
    /// are there, are two, and their centres differ, their velocities become
    /// those of an elastic collision, unless that leaves the coordinate
    /// range. Otherwise nothing changes.
    pub open spec fn bounce_outcome(s0: GameState, s1: GameState, ia: u64, ib: u64) -> bool {
        &&& s1.players == s0.players
        &&& s1.pills == s0.pills
        &&& s1.next_id == s0.next_id
        &&& s1.half == s0.half
        &&& s1.first_iteration == s0.first_iteration
        &&& s1.obstacle_next_timer == s0.obstacle_next_timer
        &&& s1.obstacle_move_timer == s0.obstacle_move_timer
        &&& s1.player_move_timer == s0.player_move_timer
        &&& s1.pill_timer == s0.pill_timer
        &&& s1.obstacles@.len() == s0.obstacles@.len()
        &&& if exists|ka: int, kb: int|
            0 <= ka < s0.obstacles@.len() && 0 <= kb < s0.obstacles@.len() && ka != kb
                && #[trigger] s0.obstacles@[ka].id == ia && #[trigger] s0.obstacles@[kb].id == ib
                && s0.obstacles@[ka].body.pos != s0.obstacles@[kb].body.pos
                && bounce_in_range(s0.obstacles@[ka].body, s0.obstacles@[kb].body) {
            exists|ka: int, kb: int|
                0 <= ka < s0.obstacles@.len() && 0 <= kb < s0.obstacles@.len() && ka != kb
                    && #[trigger] s0.obstacles@[ka].id == ia && #[trigger] s0.obstacles@[kb].id == ib && {
                    let (a, b) = (s0.obstacles@[ka].body, s0.obstacles@[kb].body);
                    s1.obstacles@ == s0.obstacles@.update(
                        ka,
                        Obstacle { id: ia, body: Body { vel: Point { x: after_ax(a, b) as i64, y: after_ay(a, b) as i64 }, ..a } },
                    ).update(
                        kb,
                        Obstacle { id: ib, body: Body { vel: Point { x: after_bx(a, b) as i64, y: after_by(a, b) as i64 }, ..b } },
                    )
                }
        } else {
            s1.obstacles == s0.obstacles
        }
    }

    /// Two obstacles touched; see `bounce_outcome`.
    pub fn bounce_obstacles(&mut self, ia: u64, ib: u64)
        requires
            old(self).wf(),
        ensures
            final(self).wf(),
            Self::bounce_outcome(*old(self), *final(self), ia, ib),
    {
        let fa = self.find_obstacle(ia);
        let fb = self.find_obstacle(ib);
        let (ka, kb) = match (fa, fb) {
            (Some(ka), Some(kb)) => (ka, kb),
            _ => {
                return;
            },
        };
        let a = self.obstacles[ka];
        let b = self.obstacles[kb];
        assert(obstacle_ok(self.obstacles@[ka as int], self.half, self.next_id));
        assert(obstacle_ok(self.obstacles@[kb as int], self.half, self.next_id));
        proof {
            assert forall|ka2: int| 0 <= ka2 < self.obstacles@.len() && #[trigger] self.obstacles@[ka2].id == ia implies ka2 == ka by {
                if ka2 < ka {
                    assert(self.obstacles@[ka2].id < self.obstacles@[ka as int].id);
                } else if ka2 > ka {
                    assert(self.obstacles@[ka as int].id < self.obstacles@[ka2].id);
                }
            }
            assert forall|kb2: int| 0 <= kb2 < self.obstacles@.len() && #[trigger] self.obstacles@[kb2].id == ib implies kb2 == kb by {
                if kb2 < kb {
                    assert(self.obstacles@[kb2].id < self.obstacles@[kb as int].id);
                } else if kb2 > kb {
                    assert(self.obstacles@[kb as int].id < self.obstacles@[kb2].id);
                }
            }
        }
        if ka == kb || a.body.pos == b.body.pos {
            return;
        }
        let mut a2 = a;
        let mut b2 = b;
        if a2.bounce(&mut b2) {
            self.obstacles.set(ka, a2);
            self.obstacles.set(kb, b2);
            proof {
                assert(self.players == old(self).players);
                assert(self.len_room() == old(self).len_room());
                assert(old(self).players@[0].wf());
                self.lemma_players_ok_after_update(*old(self), 0);
                assert(self.obstacles@ == old(self).obstacles@.update(
                    ka as int,
                    a2,
                ).update(kb as int, b2));
                assert forall|j: int| 0 <= j < self.obstacles@.len() implies obstacle_ok(
                    #[trigger] self.obstacles@[j],
                    self.half,
                    self.next_id,
                ) by {
                    assert(obstacle_ok(old(self).obstacles@[j], self.half, self.next_id));
                }
                assert forall|x: int, y: int| 0 <= x < y < self.obstacles@.len() implies
                    #[trigger] self.obstacles@[x].id < #[trigger] self.obstacles@[y].id by {
                    assert(old(self).obstacles@[x].id < old(self).obstacles@[y].id);
                }
            }
        }
    }

    /// The player whose head `e` is, if it is one.
    pub open spec fn head_of(e: Entity) -> Option<usize> {
        match e {
            Entity::PlayerHead(i) => if i < MAX_NR_PLAYERS { Some(i) } else { None },
            _ => None,
        }
    }

    fn head_index(e: Entity) -> (r: Option<usize>)
        ensures
            r == Self::head_of(e),
    {
        match e {
            Entity::PlayerHead(i) => if i < MAX_NR_PLAYERS { Some(i) } else { None },
            _ => None,
        }
    }

    /// What a collision event does: an event that ends a contact does
    /// nothing; a player's head (the first one, if both are heads) meets
    /// the other entity as `player_hit` says; two obstacles bounce; any other
    /// pair is ignored.
    pub open spec fn collision_outcome(s0: GameState, s1: GameState, out0: Seq<Intent>, out1: Seq<Intent>, c: Collision) -> bool {
        if !c.started {
            s1 == s0 && out1 == out0
        } else if let Some(i) = Self::head_of(c.a) {
            Self::hit_outcome(s0, s1, out0, out1, i as int, c.b)
        } else if let Some(i) = Self::head_of(c.b) {
            Self::hit_outcome(s0, s1, out0, out1, i as int, c.a)
        } else if let (Entity::Obstacle(ia), Entity::Obstacle(ib)) = (c.a, c.b) {
            Self::bounce_outcome(s0, s1, ia, ib) && out1 == out0
        } else {
            s1 == s0 && out1 == out0
        }
    }

    /// Handles one collision event; see `collision_outcome`.
    pub fn resolve_collision(&mut self, c: Collision, out: &mut Vec<Intent>)
        requires
            old(self).wf(),
        ensures
            final(self).wf(),
            Self::collision_outcome(*old(self), *final(self), old(out)@, final(out)@, c),
    {
        if !c.started {
            return;
        }
        if let Some(i) = Self::head_index(c.a) {
            self.player_hit(i, c.b, out);
        } else if let Some(i) = Self::head_index(c.b) {
            self.player_hit(i, c.a, out);
        } else if let (Entity::Obstacle(ia), Entity::Obstacle(ib)) = (c.a, c.b) {
            self.bounce_obstacles(ia, ib);
        }
    }
}

/// Eating a pill that is there makes the trail's maximum one longer and
/// takes exactly that one pill away.
pub proof fn lemma_pill_grows_by_one(
    s0: GameState,
    s1: GameState,
    out0: Seq<Intent>,
    out1: Seq<Intent>,
    i: int,
    id: u64,
)
    requires
        0 <= i < MAX_NR_PLAYERS,
        s0.wf(),
        GameState::hit_outcome(s0, s1, out0, out1, i, Entity::Pill(id)),
        s0.players@[i].state != PlayerState::Waiting,
        exists|k: int| 0 <= k < s0.pills@.len() && #[trigger] s0.pills@[k].id == id,
    ensures
        s1.players@[i].max_len == s0.players@[i].max_len + 1,
        s1.players@[i].trail == s0.players@[i].trail,
        s1.pills@.len() == s0.pills@.len() - 1,
        out1 == out0 + seq![
            Intent::Despawn { entity: Entity::Pill(id) },
            Intent::Play { sound: Sound::Confirmation },
        ],
{
    assert(s0.players@[i].wf());
}

/// Hitting anything but a pill leaves a player lost, with its countdown
/// unstarted when it was playing, and a player that has lost already is not
/// changed by it.
pub proof fn lemma_losing_is_idempotent(
    s0: GameState,
    s1: GameState,
    out0: Seq<Intent>,
    out1: Seq<Intent>,
    i: int,
    other: Entity,
)
    requires
        0 <= i < MAX_NR_PLAYERS,
        s0.wf(),
        GameState::hit_outcome(s0, s1, out0, out1, i, other),
        s0.players@[i].state != PlayerState::Waiting,
        !(other is Pill),
    ensures
        s1.players@[i].state == PlayerState::Lost,
        s0.players@[i].state == PlayerState::Lost ==> s1.players@[i] == s0.players@[i],
        s0.players@[i].state == PlayerState::Playing ==> s1.players@[i].lose_timeout
            == fresh_lose_timeout(),
        s1.pills == s0.pills,
        s1.obstacles == s0.obstacles,
{
    assert(s0.players@[i].wf());
}

/// What the outside world reports for one frame: the time since the last
/// one, the arena's half-extents, the key presses and the collision events,
/// and random draws for anything that may spawn.
#[derive(Debug)]
pub struct TickInput {
    pub delta_ms: u64,
    pub half: Point,
    pub presses: Vec<Press>,
    pub collisions: Vec<Collision>,
    pub obstacle_draw: ObstacleDraw,
    pub pill_pos: Point,
}

impl GameState {
    /// The arena a tick works in: measured on the first tick, fixed after.
    pub open spec fn arena_for(self, input: TickInput) -> Point {
        if self.first_iteration {
            input.half
        } else {
            self.half
        }
    }

    /// Inputs a tick accepts: a measurable arena, presses of existing
    /// players, and draws that fit the arena.
    pub open spec fn input_ok(self, input: TickInput) -> bool {
        &&& valid_half(input.half)
        &&& forall|k: int| 0 <= k < input.presses@.len() ==> (#[trigger] input.presses@[k]).player < MAX_NR_PLAYERS
        &&& obstacle_draw_ok(input.obstacle_draw, self.arena_for(input))
        &&& in_arena(input.pill_pos, self.arena_for(input))
    }

    /// The effect of `step_player` on players `0..n`, one after another.
    pub open spec fn players_stepped(s0: GameState, s1: GameState, out0: Seq<Intent>, out1: Seq<Intent>, n: int) -> bool
        decreases n,
    {
        if n <= 0 {
            s1 == s0 && out1 == out0
        } else {
            exists|m: GameState, om: Seq<Intent>|
                Self::players_stepped(s0, m, out0, om, n - 1) && #[trigger] Self::player_stepped(m, s1, om, out1, (n - 1) as usize)
        }
    }

    /// The effect of `press` for each of `ps`, in order.
    pub open spec fn presses_applied(s0: GameState, s1: GameState, out0: Seq<Intent>, out1: Seq<Intent>, ps: Seq<Press>) -> bool
        decreases ps.len(),
    {
        if ps.len() == 0 {
            s1 == s0 && out1 == out0
        } else {
            exists|m: GameState, om: Seq<Intent>|
                Self::presses_applied(s0, m, out0, om, ps.drop_last()) && #[trigger] Self::pressed(m, s1, om, out1, ps.last())
        }
    }

    /// The effect of `expire_player` on players `0..n`, one after another.
    pub open spec fn countdowns_run(s0: GameState, s1: GameState, out0: Seq<Intent>, out1: Seq<Intent>, delta: u64, n: int) -> bool
        decreases n,
    {
        if n <= 0 {
            s1 == s0 && out1 == out0
        } else {
            exists|m: GameState, om: Seq<Intent>|
                Self::countdowns_run(s0, m, out0, om, delta, n - 1) && #[trigger] Self::countdown_run(m, s1, om, out1, (n - 1) as usize, delta)
        }
    }

    /// The effect of `resolve_collision` for each of `cs`, in order.
    pub open spec fn collisions_resolved(s0: GameState, s1: GameState, out0: Seq<Intent>, out1: Seq<Intent>, cs: Seq<Collision>) -> bool
        decreases cs.len(),
    {
        if cs.len() == 0 {
            s1 == s0 && out1 == out0
        } else {
            exists|m: GameState, om: Seq<Intent>|
                Self::collisions_resolved(s0, m, out0, om, cs.drop_last()) && #[trigger] Self::collision_outcome(m, s1, om, out1, cs.last())
        }
    }

    /// The game after the arena is measured, on the first tick.
    pub open spec fn arrived(s0: GameState, input: TickInput) -> GameState {
        if s0.first_iteration {
            GameState { half: input.half, first_iteration: false, ..s0 }
        } else {
            s0
        }
    }

    /// The game after its four timers ran for `delta` milliseconds.
    pub open spec fn timers_run(s0: GameState, delta: u64) -> GameState {
        GameState {
            obstacle_move_timer: s0.obstacle_move_timer.after(delta as int),
            obstacle_next_timer: s0.obstacle_next_timer.after(delta as int),
            pill_timer: s0.pill_timer.after(delta as int),
            player_move_timer: s0.player_move_timer.after(delta as int),
            ..s0
        }
    }

    /// The game with the wait for the next snake move started afresh.
    pub open spec fn move_timer_restarted(s0: GameState) -> GameState {
        GameState { player_move_timer: Timer { duration: PLAYER_MOVE_INTERVAL_MS, elapsed: 0, repeating: false }, ..s0 }
    }

    /// Obstacles move when `on`.
    pub open spec fn obstacles_phase(b: GameState, c: GameState, oc: Seq<Intent>, on: bool) -> bool {
        if on {
            Self::obstacles_moved(b, c, Seq::<Intent>::empty(), oc)
        } else {
            c == b && oc == Seq::<Intent>::empty()
        }
    }

    /// An obstacle spawns when `on` and a number is left for it.
    pub open spec fn obstacle_spawn_phase(c: GameState, e: GameState, oc: Seq<Intent>, oe: Seq<Intent>, on: bool, d: ObstacleDraw) -> bool {
        if on && c.next_id < ID_LIMIT {
            Self::obstacle_spawned(c, e, oc, oe, d)
        } else {
            e == c && oe == oc
        }
    }

    /// A pill spawns when `on` and a number is left for it.
    pub open spec fn pill_phase(e: GameState, f: GameState, oe: Seq<Intent>, of: Seq<Intent>, on: bool, pos: Point) -> bool {
        if on && e.next_id < ID_LIMIT {
            Self::pill_spawned(e, f, oe, of, pos)
        } else {
            f == e && of == oe
        }
    }

    /// When `on`, the wait for the next snake move starts afresh and every
    /// player takes its step.
    pub open spec fn players_phase(f: GameState, g: GameState, of: Seq<Intent>, og: Seq<Intent>, on: bool) -> bool {
        if on {
            Self::players_stepped(Self::move_timer_restarted(f), g, of, og, MAX_NR_PLAYERS as int)
        } else {
            g == f && og == of
        }
    }

    /// One frame from `s0` to `s1` with requests `out`: the phases of `tick`
    /// in their order, each as its own function states it, through
    /// intermediate states.
    pub open spec fn frame(s0: GameState, s1: GameState, input: TickInput, out: Seq<Intent>) -> bool {
        let a = Self::arrived(s0, input);
        let b = Self::timers_run(a, input.delta_ms);
        let d = input.delta_ms as int;
        exists|c: GameState, oc: Seq<Intent>, e: GameState, oe: Seq<Intent>, f: GameState, of: Seq<Intent>,
            g: GameState, og: Seq<Intent>, h: GameState, oh: Seq<Intent>, j: GameState, oj: Seq<Intent>|
        {
            &&& #[trigger] Self::obstacles_phase(b, c, oc, a.obstacle_move_timer.fires(d))
            &&& #[trigger] Self::obstacle_spawn_phase(c, e, oc, oe, a.obstacle_next_timer.fires(d), input.obstacle_draw)
            &&& #[trigger] Self::pill_phase(e, f, oe, of, a.pill_timer.fires(d), input.pill_pos)
            &&& #[trigger] Self::players_phase(f, g, of, og, a.player_move_timer.fires(d))
            &&& #[trigger] Self::presses_applied(g, h, og, oh, input.presses@)
            &&& #[trigger] Self::countdowns_run(h, j, oh, oj, input.delta_ms, MAX_NR_PLAYERS as int)
            &&& #[trigger] Self::collisions_resolved(j, s1, oj, out, input.collisions@)
        }
    }

    /// Takes the arena's half-extents, once, before anything is in it.
    pub fn measure_arena(&mut self, half: Point)
        requires
            old(self).wf(),
            old(self).first_iteration,
            valid_half(half),
        ensures
            final(self).wf(),
            *final(self) == (GameState { half, first_iteration: false, ..*old(self) }),
    {
        self.half = half;
        self.first_iteration = false;
        proof {
            assert(old(self).players@[0].wf());
            self.lemma_players_ok_after_update(*old(self), 0);
        }
    }

    /// Runs the four timers for `delta` milliseconds; tells which fired, in
    /// the order obstacle move, obstacle spawn, pill spawn, player move.
    pub fn tick_timers(&mut self, delta: u64) -> (r: (bool, bool, bool, bool))
        requires
            old(self).wf(),
        ensures
            final(self).wf(),
            r == (
                old(self).obstacle_move_timer.fires(delta as int),
                old(self).obstacle_next_timer.fires(delta as int),
                old(self).pill_timer.fires(delta as int),
                old(self).player_move_timer.fires(delta as int),
            ),
            final(self).obstacle_move_timer == old(self).obstacle_move_timer.after(delta as int),
            final(self).obstacle_next_timer == old(self).obstacle_next_timer.after(delta as int),
            final(self).pill_timer == old(self).pill_timer.after(delta as int),
            final(self).player_move_timer == old(self).player_move_timer.after(delta as int),
            final(self).obstacles == old(self).obstacles,
            final(self).pills == old(self).pills,
            final(self).players == old(self).players,
            final(self).next_id == old(self).next_id,
            final(self).half == old(self).half,
            final(self).first_iteration == old(self).first_iteration,
    {
        let mut t1 = self.obstacle_move_timer;
        let mut t2 = self.obstacle_next_timer;
        let mut t3 = self.pill_timer;
        let mut t4 = self.player_move_timer;
        let r = (t1.tick(delta), t2.tick(delta), t3.tick(delta), t4.tick(delta));
        self.obstacle_move_timer = t1;
        self.obstacle_next_timer = t2;
        self.pill_timer = t3;
        self.player_move_timer = t4;
        r
    }

    /// Starts the wait for the next snake move afresh.
    pub fn restart_player_move_timer(&mut self)
        requires
            old(self).wf(),
        ensures
            final(self).wf(),
            *final(self) == (GameState {
                player_move_timer: Timer { duration: PLAYER_MOVE_INTERVAL_MS, elapsed: 0, repeating: false },
                ..*old(self)
            }),
    {
        self.player_move_timer = Timer::from_millis(PLAYER_MOVE_INTERVAL_MS, false);
    }

    /// One frame of the game, in this order: obstacles move, an obstacle and
    /// a pill may spawn, the snakes move, key presses are applied, countdowns
    /// of players that lost run, and collision events are resolved in the
    /// order given. Returns what the presentation side is to do.
    #[verifier::spinoff_prover]
    #[verifier::rlimit(40)]
    pub fn tick(&mut self, input: &TickInput) -> (out: Vec<Intent>)
        requires
            old(self).wf(),
            old(self).input_ok(*input),
        ensures
            final(self).wf(),
            !final(self).first_iteration,
            final(self).half == old(self).arena_for(*input),
            Self::frame(*old(self), *final(self), *input, out@),
    {
        let mut out: Vec<Intent> = Vec::new();
        if self.first_iteration {
            self.measure_arena(input.half);
        }
        let ghost a = *self;
        assert(a == Self::arrived(*old(self), *input));
        let delta = input.delta_ms;
        let (move_obstacles, spawn_obstacle, spawn_pill, move_players) = self.tick_timers(delta);
        let ghost b = *self;
        assert(b == Self::timers_run(a, delta));
        if move_obstacles {
            self.move_obstacles(&mut out);
        }
        let ghost (c, oc) = (*self, out@);
        assert(Self::obstacles_phase(b, c, oc, move_obstacles));
        if spawn_obstacle && self.next_id < ID_LIMIT {
            self.spawn_obstacle(input.obstacle_draw, &mut out);
        }
        let ghost (e, oe) = (*self, out@);
        assert(Self::obstacle_spawn_phase(c, e, oc, oe, spawn_obstacle, input.obstacle_draw));
        if spawn_pill && self.next_id < ID_LIMIT {
            self.spawn_pill(input.pill_pos, &mut out);
        }
        let ghost (f, of) = (*self, out@);
        assert(Self::pill_phase(e, f, oe, of, spawn_pill, input.pill_pos));
        if move_players {
            self.restart_player_move_timer();
            self.move_players(&mut out);
        }
        let ghost (g, og) = (*self, out@);
        assert(Self::players_phase(f, g, of, og, move_players));
        let mut k: usize = 0;
        while k < input.presses.len()
            invariant
                self.wf(),
                !self.first_iteration,
                self.half == old(self).arena_for(*input),
                old(self).input_ok(*input),
                k <= input.presses@.len(),
                Self::presses_applied(g, *self, og, out@, input.presses@.subrange(0, k as int)),
            decreases input.presses@.len() - k,
        {
            let ghost (pre, preo) = (*self, out@);
            let p = input.presses[k];
            self.press(p, &mut out);
            proof {
                let ps = input.presses@.subrange(0, k + 1);
                assert(ps.drop_last() =~= input.presses@.subrange(0, k as int));
                assert(ps.last() == p);
                assert(Self::pressed(pre, *self, preo, out@, p));
            }
            k = k + 1;
        }
        assert(input.presses@.subrange(0, input.presses@.len() as int) =~= input.presses@);
        let ghost (h, oh) = (*self, out@);
        let mut i: usize = 0;
        while i < MAX_NR_PLAYERS
            invariant
                self.wf(),
                !self.first_iteration,
                self.half == old(self).arena_for(*input),
                i <= MAX_NR_PLAYERS,
                Self::countdowns_run(h, *self, oh, out@, delta, i as int),
            decreases MAX_NR_PLAYERS - i,
        {
            let ghost (pre, preo) = (*self, out@);
            self.expire_player(i, delta, &mut out);
            proof {
                assert(Self::countdown_run(pre, *self, preo, out@, ((i + 1) as int - 1) as usize, delta));
            }
            i = i + 1;
        }
        let ghost (j, oj) = (*self, out@);
        let mut k: usize = 0;
        while k < input.collisions.len()
            invariant
                self.wf(),
                !self.first_iteration,
                self.half == old(self).arena_for(*input),
                k <= input.collisions@.len(),
                Self::collisions_resolved(j, *self, oj, out@, input.collisions@.subrange(0, k as int)),
            decreases input.collisions@.len() - k,
        {
            let ghost (pre, preo) = (*self, out@);
            let c = input.collisions[k];
            self.resolve_collision(c, &mut out);
            proof {
                let cs = input.collisions@.subrange(0, k + 1);
                assert(cs.drop_last() =~= input.collisions@.subrange(0, k as int));
                assert(cs.last() == c);
                assert(Self::collision_outcome(pre, *self, preo, out@, c));
            }
            k = k + 1;
        }
        assert(input.collisions@.subrange(0, input.collisions@.len() as int) =~= input.collisions@);
        out
    }
}

} // verus!
