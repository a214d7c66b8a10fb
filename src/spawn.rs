use vstd::prelude::*;
use rand::Rng;
use crate::geometry::{in_arena, valid_half, Point, COORD_LIMIT};

verus! {

/// Gap kept between a new obstacle and the arena's walls.
pub const SPAWN_MARGIN: i64 = 20_000;

/// Range of an obstacle's scale, in hundredths: at least the first, below the
/// second.
pub const OBSTACLE_MIN_SCALE: u64 = 20;
pub const OBSTACLE_MAX_SCALE: u64 = 120;

/// An obstacle of scale `s` moves at most `OBSTACLE_SPEED_FACTOR / s` per
/// tick on each axis.
pub const OBSTACLE_SPEED_FACTOR: i64 = 200_000;

/// Range of the pause before the next obstacle, in milliseconds.
pub const OBSTACLE_MIN_INTERVAL_MS: u64 = 2000;
pub const OBSTACLE_MAX_INTERVAL_MS: u64 = 10_000;

/// Relies on rand's `thread_rng().gen_range(lo..hi)` over `i64`: a value of
/// the half-open range, which must not be empty.
#[verifier::external_body]
fn random_between(lo: i64, hi: i64) -> (r: i64)
    requires
        lo < hi,
    ensures
        lo <= r < hi,
{
    rand::thread_rng().gen_range(lo..hi)
}

/// What a newly spawned obstacle looks like, and when the next one comes.
#[derive(Debug, Clone, Copy, PartialEq, Eq, Structural)]
pub struct ObstacleDraw {
    pub pos: Point,
    pub vel: Point,
    pub scale: u64,
    pub next_interval_ms: u64,
}

/// Speed bound of an obstacle of scale `scale`.
pub open spec fn max_speed(scale: int) -> int {
    OBSTACLE_SPEED_FACTOR as int / scale
}

/// The coordinate range for spawning along an axis of half-extent `half`:
/// `margin` away from both walls where the arena is wide enough, else the
/// centre line.
pub open spec fn spawn_span(v: int, half: int, margin: int) -> bool {
    if half - margin > -half + margin {
        -half + margin <= v < half - margin
    } else {
        v == 0
    }
}

/// A draw that `spawn_obstacle` accepts: inside the margin, a scale of the
/// configured range, a speed inversely proportional to it, and a pause of
/// the configured range.
pub open spec fn obstacle_draw_ok(d: ObstacleDraw, half: Point) -> bool {
    &&& spawn_span(d.pos.x as int, half.x as int, SPAWN_MARGIN as int)
    &&& spawn_span(d.pos.y as int, half.y as int, SPAWN_MARGIN as int)
    &&& OBSTACLE_MIN_SCALE <= d.scale < OBSTACLE_MAX_SCALE
    &&& -max_speed(d.scale as int) <= d.vel.x <= max_speed(d.scale as int)
    &&& -max_speed(d.scale as int) <= d.vel.y <= max_speed(d.scale as int)
    &&& OBSTACLE_MIN_INTERVAL_MS <= d.next_interval_ms < OBSTACLE_MAX_INTERVAL_MS
}

/// Every acceptable draw is in the arena, with velocities of the coordinate
/// range.
pub proof fn lemma_draw_in_arena(d: ObstacleDraw, half: Point)
    requires
        valid_half(half),
        obstacle_draw_ok(d, half),
    ensures
        in_arena(d.pos, half),
        d.vel.bounded(),
{
}

fn draw_coord(half: i64, margin: i64) -> (r: i64)
    requires
        0 <= half <= COORD_LIMIT,
        0 <= margin <= COORD_LIMIT,
    ensures
        spawn_span(r as int, half as int, margin as int),
{
    let lo = -half + margin;
    let hi = half - margin;
    if lo < hi {
        random_between(lo, hi)
    } else {
        0
    }
}

/// Draws a random obstacle for an arena of half-extents `half`.
pub fn draw_obstacle(half: Point) -> (r: ObstacleDraw)
    requires
        valid_half(half),
    ensures
        obstacle_draw_ok(r, half),
{
    let scale = random_between(OBSTACLE_MIN_SCALE as i64, OBSTACLE_MAX_SCALE as i64) as u64;
    let top = OBSTACLE_SPEED_FACTOR / scale as i64;
    let vx = random_between(-top, top + 1);
    let vy = random_between(-top, top + 1);
    let next = random_between(OBSTACLE_MIN_INTERVAL_MS as i64, OBSTACLE_MAX_INTERVAL_MS as i64);
    ObstacleDraw {
        pos: Point { x: draw_coord(half.x, SPAWN_MARGIN), y: draw_coord(half.y, SPAWN_MARGIN) },
        vel: Point { x: vx, y: vy },
        scale,
        next_interval_ms: next as u64,
    }
}

/// Draws a random position in an arena of half-extents `half`, edges
/// included.
pub fn draw_pill_position(half: Point) -> (r: Point)
    requires
        valid_half(half),
    ensures
        in_arena(r, half),
{
    Point { x: random_between(-half.x, half.x + 1), y: random_between(-half.y, half.y + 1) }
}

} // verus!
