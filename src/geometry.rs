use vstd::prelude::*;

verus! {

/// Largest magnitude of a coordinate or a per-tick velocity component.
pub const COORD_LIMIT: i64 = 0x4000_0000;

/// Compass heading of a snake's head.
#[derive(Debug, Clone, Copy, PartialEq, Eq, Structural)]
pub enum Direction {
    Up,
    Right,
    Down,
    Left,
}

/// The heading after a quarter turn to the left (`turn_left`) or to the right.
pub open spec fn turned(d: Direction, turn_left: bool) -> Direction {
    match d {
        Direction::Up => if turn_left { Direction::Left } else { Direction::Right },
        Direction::Right => if turn_left { Direction::Up } else { Direction::Down },
        Direction::Down => if turn_left { Direction::Right } else { Direction::Left },
        Direction::Left => if turn_left { Direction::Down } else { Direction::Up },
    }
}

/// Rotates a heading by 90 degrees.
pub fn new_direction(curr_dir: Direction, turn_left: bool) -> (r: Direction)
    ensures
        r == turned(curr_dir, turn_left),
{
    match curr_dir {
        Direction::Up => if turn_left { Direction::Left } else { Direction::Right },
        Direction::Right => if turn_left { Direction::Up } else { Direction::Down },
        Direction::Down => if turn_left { Direction::Right } else { Direction::Left },
        Direction::Left => if turn_left { Direction::Down } else { Direction::Up },
    }
}

/// A left turn followed by a right turn, or a right turn followed by a left
/// turn, gives back the heading one started from.
pub proof fn lemma_turns_are_inverse(d: Direction)
    ensures
        turned(turned(d, true), false) == d,
        turned(turned(d, false), true) == d,
{
}

/// A point or a displacement in the plane.
#[derive(Debug, Clone, Copy, PartialEq, Eq, Structural)]
pub struct Point {
    pub x: i64,
    pub y: i64,
}

impl Point {
    /// Both coordinates are within `COORD_LIMIT` of zero.
    pub open spec fn bounded(self) -> bool {
        -COORD_LIMIT <= self.x <= COORD_LIMIT && -COORD_LIMIT <= self.y <= COORD_LIMIT
    }
}

/// Half-extents of the arena, a rectangle centred at the origin.
pub open spec fn valid_half(half: Point) -> bool {
    0 <= half.x <= COORD_LIMIT && 0 <= half.y <= COORD_LIMIT
}

/// One axis of the wraparound: past the upper edge means the lower edge, and
/// past the lower edge the upper one.
pub open spec fn wrapped(v: int, half: int) -> int {
    if v > half {
        -half
    } else if v < -half {
        half
    } else {
        v
    }
}

/// A point inside the arena whose half-extents are `half`.
pub open spec fn in_arena(p: Point, half: Point) -> bool {
    -half.x <= p.x <= half.x && -half.y <= p.y <= half.y
}

/// Wraps one coordinate into `[-half, half]`.
pub fn wrap_axis(v: i64, half: i64) -> (r: i64)
    requires
        0 <= half,
    ensures
        r == wrapped(v as int, half as int),
        -half <= r <= half,
{
    let mut r = v;
    if r > half {
        r = -half;
    }
    if r < -half {
        r = half;
    }
    r
}

/// The point `p + v` with each axis wrapped at the arena's edges.
pub open spec fn moved(p: Point, v: Point, half: Point) -> Point {
    Point {
        x: wrapped(p.x + v.x, half.x as int) as i64,
        y: wrapped(p.y + v.y, half.y as int) as i64,
    }
}

/// Moves `pos` by `speed` and wraps the result into the arena.
pub fn translate(pos: Point, speed: Point, half: Point) -> (r: Point)
    requires
        pos.bounded(),
        speed.bounded(),
        valid_half(half),
    ensures
        r == moved(pos, speed, half),
        in_arena(r, half),
        r.bounded(),
{
    Point { x: wrap_axis(pos.x + speed.x, half.x), y: wrap_axis(pos.y + speed.y, half.y) }
}

/// The displacement of one step of length `step` in direction `d`.
pub open spec fn step_of(d: Direction, step: i64) -> Point {
    match d {
        Direction::Up => Point { x: 0, y: step },
        Direction::Right => Point { x: step, y: 0 },
        Direction::Down => Point { x: 0, y: (-step) as i64 },
        Direction::Left => Point { x: (-step) as i64, y: 0 },
    }
}

/// The head position after one step of length `speed` in direction `dir`,
/// wrapped into the arena.
pub fn new_position(pos: Point, dir: Direction, speed: i64, half: Point) -> (r: Point)
    requires
        pos.bounded(),
        0 <= speed <= COORD_LIMIT,
        valid_half(half),
    ensures
        r == moved(pos, step_of(dir, speed), half),
        in_arena(r, half),
        r.bounded(),
{
    let v = match dir {
        Direction::Up => Point { x: 0, y: speed },
        Direction::Right => Point { x: speed, y: 0 },
        Direction::Down => Point { x: 0, y: -speed },
        Direction::Left => Point { x: -speed, y: 0 },
    };
    translate(pos, v, half)
}

/// A step or a move from a point of the arena, whatever its size, ends in the
/// arena again.
pub proof fn lemma_wrap_contains(p: Point, v: Point, half: Point)
    requires
        valid_half(half),
        in_arena(p, half),
    ensures
        in_arena(moved(p, v, half), half),
{
}

} // verus!
