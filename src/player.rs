use vstd::prelude::*;
use crate::geometry::{
    in_arena, moved, new_position, step_of, turned, valid_half, Direction, Point,
};
use crate::timer::Timer;

verus! {

/// Number of control slots, one per possible player.
pub const MAX_NR_PLAYERS: usize = 4;

/// Trail length a player starts with.
pub const PLAYER_STARTING_MAX_LEN: u64 = 4;

/// How long a player stays frozen after losing, in milliseconds.
pub const PLAYER_LOSE_TIMEOUT_MS: u64 = 5000;

/// Length of one head step, in thousandths of a pixel.
pub const PLAYER_MOVE_DISTANCE: i64 = 10_000;

/// Spacing of the players' starting positions along the diagonal.
pub const PLAYER_START_SPACING: i64 = 50_000;

/// Lifecycle of a control slot.
#[derive(Debug, Clone, Copy, PartialEq, Eq, Structural)]
pub enum PlayerState {
    Waiting,
    Playing,
    Lost,
}

/// One snake: its fixed identity and its changing state. `trail` holds the
/// serial numbers of the trail segments, newest first.
#[derive(Debug)]
pub struct Player {
    pub idx: usize,
    pub starting_direction: Direction,
    pub starting_position: Point,
    pub head: Point,
    pub trail: Vec<u64>,
    pub max_len: u64,
    pub serial: u64,
    pub direction: Direction,
    pub state: PlayerState,
    pub lose_timeout: Timer,
}

/// Where player `idx` starts.
pub open spec fn start_of(idx: int) -> Point {
    Point { x: (idx * PLAYER_START_SPACING) as i64, y: (idx * PLAYER_START_SPACING) as i64 }
}

/// The trail after one move: `serial` in front, and the oldest segment
/// dropped when that makes it longer than `max_len`.
pub open spec fn pushed(trail: Seq<u64>, serial: u64, max_len: int) -> Seq<u64> {
    let t = seq![serial] + trail;
    if t.len() > max_len {
        t.drop_last()
    } else {
        t
    }
}

/// The countdown a player starts when it loses.
pub open spec fn fresh_lose_timeout() -> Timer {
    Timer { duration: PLAYER_LOSE_TIMEOUT_MS, elapsed: 0, repeating: false }
}

impl Player {
    /// The trail never outgrows the maximum length, only a playing or frozen
    /// player has one, and every segment's serial was handed out already.
    /// Every player starts facing right, and holds an unstarted countdown
    /// until it loses.
    pub open spec fn wf(self) -> bool {
        &&& self.idx < MAX_NR_PLAYERS
        &&& self.starting_position == start_of(self.idx as int)
        &&& self.head.bounded()
        &&& self.trail@.len() <= self.max_len
        &&& self.state == PlayerState::Waiting ==> self.trail@.len() == 0
        &&& forall|i: int| 0 <= i < self.trail@.len() ==> self.trail@[i] < self.serial
        &&& self.starting_direction == Direction::Right
        &&& self.state != PlayerState::Lost ==> self.lose_timeout == fresh_lose_timeout()
        &&& self.lose_timeout.wf()
        &&& !self.lose_timeout.repeating
    }

    /// The player as it is before its first game, and after each game.
    pub open spec fn is_reset(self) -> bool {
        &&& self.trail@.len() == 0
        &&& self.max_len == PLAYER_STARTING_MAX_LEN
        &&& self.serial == 0
        &&& self.direction == self.starting_direction
        &&& self.starting_direction == Direction::Right
        &&& self.head == self.starting_position
        &&& self.state == PlayerState::Waiting
        &&& self.lose_timeout == fresh_lose_timeout()
    }

    /// The player of control slot `instance`, waiting to join.
    pub fn new(instance: usize) -> (r: Player)
        requires
            instance < MAX_NR_PLAYERS,
        ensures
            r.wf(),
            r.is_reset(),
            r.idx == instance,
            r.starting_direction == Direction::Right,
            r.head == r.starting_position,
    {
        let start = Point {
            x: instance as i64 * PLAYER_START_SPACING,
            y: instance as i64 * PLAYER_START_SPACING,
        };
        Player {
            idx: instance,
            starting_direction: Direction::Right,
            starting_position: start,
            head: start,
            trail: Vec::new(),
            max_len: PLAYER_STARTING_MAX_LEN,
            serial: 0,
            direction: Direction::Right,
            state: PlayerState::Waiting,
            lose_timeout: Timer::from_millis(PLAYER_LOSE_TIMEOUT_MS, false),
        }
    }

    /// Marks the player as having lost. Doing so again changes nothing.
    pub fn lost(&mut self)
        requires
            old(self).wf(),
        ensures
            final(self).wf(),
            *final(self) == (Player { state: PlayerState::Lost, ..*old(self) }),
    {
        self.state = PlayerState::Lost;
    }

    pub fn is_playing(&self) -> (r: bool)
        ensures
            r == (self.state == PlayerState::Playing),
    {
        self.state == PlayerState::Playing
    }

    pub fn is_waiting(&self) -> (r: bool)
        ensures
            r == (self.state == PlayerState::Waiting),
    {
        self.state == PlayerState::Waiting
    }

    pub fn has_lost(&self) -> (r: bool)
        ensures
            r == (self.state == PlayerState::Lost),
    {
        self.state == PlayerState::Lost
    }

    /// Puts the player back in the state `new` gave it.
    pub fn deactivate(&mut self)
        requires
            old(self).wf(),
        ensures
            final(self).wf(),
            final(self).is_reset(),
            final(self).idx == old(self).idx,
            final(self).starting_direction == old(self).starting_direction,
            final(self).starting_position == old(self).starting_position,
            final(self).head == old(self).starting_position,
    {
        self.head = self.starting_position;
        self.trail.truncate(0);
        self.max_len = PLAYER_STARTING_MAX_LEN;
        self.serial = 0;
        self.direction = self.starting_direction;
        self.state = PlayerState::Waiting;
        self.lose_timeout = Timer::from_millis(PLAYER_LOSE_TIMEOUT_MS, false);
    }

    /// Lets a waiting player join: it plays from its starting position.
    pub fn activate(&mut self)
        requires
            old(self).wf(),
            old(self).state == PlayerState::Waiting,
        ensures
            final(self).wf(),
            *final(self) == (Player {
                state: PlayerState::Playing,
                head: old(self).starting_position,
                ..*old(self)
            }),
    {
        self.state = PlayerState::Playing;
        self.head = self.starting_position;
    }

    /// Turns the head a quarter to the left or to the right.
    pub fn turn(&mut self, turn_left: bool)
        requires
            old(self).wf(),
        ensures
            final(self).wf(),
            *final(self) == (Player {
                direction: turned(old(self).direction, turn_left),
                ..*old(self)
            }),
    {
        self.direction = crate::geometry::new_direction(self.direction, turn_left);
    }

    /// One pill eaten: the trail may grow by one more segment.
    pub fn eat_pill(&mut self)
        requires
            old(self).wf(),
            old(self).max_len < u64::MAX,
        ensures
            final(self).wf(),
            *final(self) == (Player { max_len: (old(self).max_len + 1) as u64, ..*old(self) }),
    {
        self.max_len = self.max_len + 1;
    }

    /// One step of a playing snake: the head moves one step on, a new
    /// segment with the next serial takes the head's old place at the front
    /// of the trail, and the oldest segment goes when the trail would be too
    /// long. Returns the new segment's serial and the serial that was
    /// dropped, if any.
    pub fn advance(&mut self, half: Point) -> (r: (u64, Option<u64>))
        requires
            old(self).wf(),
            old(self).state == PlayerState::Playing,
            old(self).serial < u64::MAX,
            old(self).max_len >= 1,
            valid_half(half),
        ensures
            final(self).wf(),
            r.0 == old(self).serial,
            final(self).head == moved(
                old(self).head,
                step_of(old(self).direction, PLAYER_MOVE_DISTANCE),
                half,
            ),
            in_arena(final(self).head, half),
            final(self).serial == old(self).serial + 1,
            final(self).trail@ == pushed(old(self).trail@, old(self).serial, old(self).max_len as int),
            r.1 == (if old(self).trail@.len() + 1 > old(self).max_len {
                Some(old(self).trail@.last())
            } else {
                None
            }),
            final(self).trail@.len() <= final(self).max_len,
            final(self).idx == old(self).idx,
            final(self).max_len == old(self).max_len,
            final(self).state == old(self).state,
            final(self).direction == old(self).direction,
            final(self).starting_position == old(self).starting_position,
            final(self).starting_direction == old(self).starting_direction,
            final(self).lose_timeout == old(self).lose_timeout,
    {
        let serial = self.serial;
        self.head = new_position(self.head, self.direction, PLAYER_MOVE_DISTANCE, half);
        self.serial = serial + 1;
        self.trail.insert(0, serial);
        let mut dropped: Option<u64> = None;
        if self.trail.len() as u64 > self.max_len {
            dropped = self.trail.pop();
        }
        proof {
            let t = seq![serial] + old(self).trail@;
            assert(t.len() == old(self).trail@.len() + 1);
            if t.len() > old(self).max_len {
                assert(t.last() == old(self).trail@.last());
            }
            assert(self.trail@ =~= pushed(old(self).trail@, serial, old(self).max_len as int));
            assert forall|i: int| 0 <= i < self.trail@.len() implies self.trail@[i] < self.serial by {
                assert(t[i] == self.trail@[i]);
                if i > 0 {
                    assert(t[i] == old(self).trail@[i - 1]);
                }
            }
        }
        (serial, dropped)
    }
}

/// The trail after steps that hand out the serials `serials`, in order.
pub open spec fn pushed_all(trail: Seq<u64>, serials: Seq<u64>, max_len: int) -> Seq<u64>
    decreases serials.len(),
{
    if serials.len() == 0 {
        trail
    } else {
        pushed_all(pushed(trail, serials[0], max_len), serials.drop_first(), max_len)
    }
}

/// However many steps a player takes, its trail stays within its maximum
/// length.
pub proof fn lemma_trail_within_max(trail: Seq<u64>, serials: Seq<u64>, max_len: int)
    requires
        trail.len() <= max_len,
    ensures
        pushed_all(trail, serials, max_len).len() <= max_len,
    decreases serials.len(),
{
    if serials.len() > 0 {
        lemma_trail_within_max(pushed(trail, serials[0], max_len), serials.drop_first(), max_len);
    }
}

} // verus!
