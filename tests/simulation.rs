use snake_core::game::{Collision, Entity, GameState, Intent, Obstacle, Press, Sound, TickInput};
use snake_core::geometry::{new_direction, new_position, translate, wrap_axis, Direction, Point};
use snake_core::physics::{bounce_velocities, Body};
use snake_core::player::{Player, PlayerState, PLAYER_STARTING_MAX_LEN};
use snake_core::spawn::{draw_obstacle, draw_pill_position, OBSTACLE_MAX_SCALE, OBSTACLE_MIN_SCALE};
use snake_core::timer::Timer;

const HALF: Point = Point { x: 400_000, y: 300_000 };

fn input(delta_ms: u64, presses: Vec<Press>, collisions: Vec<Collision>) -> TickInput {
    TickInput {
        delta_ms,
        half: HALF,
        presses,
        collisions,
        obstacle_draw: draw_obstacle(HALF),
        pill_pos: Point { x: 100_000, y: -100_000 },
    }
}

fn started(a: Entity, b: Entity) -> Collision {
    Collision { a, b, started: true }
}

/// A game whose arena is measured and whose player 0 plays.
fn game_with_player0() -> GameState {
    let mut g = GameState::new();
    g.tick(&input(0, vec![], vec![]));
    g.tick(&input(0, vec![Press { player: 0, left_down: true }], vec![]));
    g
}

#[test]
fn turning_table() {
    let (up, right, down, left) = (Direction::Up, Direction::Right, Direction::Down, Direction::Left);
    let table = [(up, left, right), (right, up, down), (down, right, left), (left, down, up)];
    for (d, l, r) in table {
        assert_eq!(new_direction(d, true), l);
        assert_eq!(new_direction(d, false), r);
    }
}

#[test]
fn left_then_right_is_identity() {
    for d in [Direction::Up, Direction::Right, Direction::Down, Direction::Left] {
        assert_eq!(new_direction(new_direction(d, true), false), d);
        assert_eq!(new_direction(new_direction(d, false), true), d);
    }
}

#[test]
fn wrap_teleports_to_opposite_edge() {
    assert_eq!(wrap_axis(401, 400), -400);
    assert_eq!(wrap_axis(-401, 400), 400);
    assert_eq!(wrap_axis(400, 400), 400);
    assert_eq!(wrap_axis(-17, 400), -17);
}

#[test]
fn step_across_the_edge_stays_in_arena() {
    let p = new_position(Point { x: 395_000, y: 0 }, Direction::Right, 10_000, HALF);
    assert_eq!(p, Point { x: -400_000, y: 0 });
    let q = new_position(Point { x: 0, y: -295_000 }, Direction::Down, 10_000, HALF);
    assert_eq!(q, Point { x: 0, y: 300_000 });
    let r = new_position(Point { x: 5, y: 7 }, Direction::Up, 10_000, HALF);
    assert_eq!(r, Point { x: 5, y: 10_007 });
    for step in [0, 1, 10_000, 399_999, 800_000, 5_000_000] {
        let t = translate(Point { x: 400_000, y: -300_000 }, Point { x: step, y: -step }, HALF);
        assert!(t.x.abs() <= HALF.x && t.y.abs() <= HALF.y);
    }
}

#[test]
fn equal_masses_swap_speeds_head_on() {
    let a = Body { pos: Point { x: 10_000, y: 0 }, vel: Point { x: -1000, y: 0 }, mass: 100 };
    let b = Body { pos: Point { x: 0, y: 0 }, vel: Point { x: 0, y: 0 }, mass: 100 };
    let (va, vb) = bounce_velocities(&a, &b).unwrap();
    assert_eq!(va, Point { x: 0, y: 0 });
    assert_eq!(vb, Point { x: -1000, y: 0 });
}

#[test]
fn bounce_conserves_momentum() {
    let a = Body { pos: Point { x: 3_000, y: 4_000 }, vel: Point { x: -700, y: 250 }, mass: 37 };
    let b = Body { pos: Point { x: -1_000, y: 1_000 }, vel: Point { x: 420, y: -90 }, mass: 111 };
    let (va, vb) = bounce_velocities(&a, &b).unwrap();
    assert_ne!(va, a.vel);
    let dx = (37 * va.x + 111 * vb.x) - (37 * a.vel.x + 111 * b.vel.x);
    let dy = (37 * va.y + 111 * vb.y) - (37 * a.vel.y + 111 * b.vel.y);
    assert!(dx.abs() < 37 + 111 && dy.abs() < 37 + 111);
}

#[test]
fn head_on_bounce_is_elastic() {
    let a = Body { pos: Point { x: 10_000, y: 0 }, vel: Point { x: -1550, y: 0 }, mass: 100 };
    let b = Body { pos: Point { x: 0, y: 0 }, vel: Point { x: 0, y: 0 }, mass: 100 };
    let (va, vb) = bounce_velocities(&a, &b).unwrap();
    assert_eq!(va, Point { x: 0, y: 0 });
    assert_eq!(vb, Point { x: -1550, y: 0 });
}

#[test]
fn oblique_bounce_rounds_each_body_once() {
    let a = Body { pos: Point { x: 3_000, y: 5_000 }, vel: Point { x: 0, y: 0 }, mass: 100 };
    let b = Body { pos: Point { x: 0, y: 0 }, vel: Point { x: -1000, y: 0 }, mass: 100 };
    let (va, vb) = bounce_velocities(&a, &b).unwrap();
    assert_eq!(va, Point { x: -264, y: -441 });
    assert_eq!(vb, Point { x: -736, y: 441 });
}

#[test]
fn unequal_masses_bounce() {
    let a = Body { pos: Point { x: 10_000, y: 0 }, vel: Point { x: -900, y: 0 }, mass: 20 };
    let b = Body { pos: Point { x: 0, y: 0 }, vel: Point { x: 300, y: 0 }, mass: 100 };
    let (va, vb) = bounce_velocities(&a, &b).unwrap();
    assert_eq!(va, Point { x: 1100, y: 0 });
    assert_eq!(vb, Point { x: -100, y: 0 });
}

#[test]
fn glancing_contact_keeps_perpendicular_speed() {
    let a = Body { pos: Point { x: 0, y: 10_000 }, vel: Point { x: 500, y: 0 }, mass: 50 };
    let b = Body { pos: Point { x: 0, y: 0 }, vel: Point { x: 0, y: 0 }, mass: 50 };
    let (va, vb) = bounce_velocities(&a, &b).unwrap();
    assert_eq!(va, Point { x: 500, y: 0 });
    assert_eq!(vb, Point { x: 0, y: 0 });
}

#[test]
fn repeating_timer_starts_over() {
    let mut t = Timer::from_millis(100, true);
    assert!(!t.tick(60));
    assert!(t.tick(60));
    assert_eq!(t.elapsed, 20);
    assert!(!t.tick(70));
    assert!(t.tick(10));
    assert_eq!(t.elapsed, 0);
}

#[test]
fn one_shot_timer_fires_once() {
    let mut t = Timer::from_millis(100, false);
    assert!(t.tick(150));
    assert_eq!(t.elapsed, 100);
    assert!(!t.tick(150));
}

#[test]
fn trail_never_outgrows_max_len() {
    let mut p = Player::new(1);
    assert_eq!(p.starting_position, Point { x: 50_000, y: 50_000 });
    p.activate();
    for k in 0..10u64 {
        let (serial, dropped) = p.advance(HALF);
        assert_eq!(serial, k);
        assert_eq!(dropped, if k >= 4 { Some(k - 4) } else { None });
        assert!(p.trail.len() as u64 <= p.max_len);
    }
    assert_eq!(p.trail, vec![9, 8, 7, 6]);
    assert_eq!(p.head, Point { x: 150_000, y: 50_000 });
    p.eat_pill();
    p.advance(HALF);
    assert_eq!(p.trail, vec![10, 9, 8, 7, 6]);
}

#[test]
fn deactivate_resets_player() {
    let mut p = Player::new(2);
    p.activate();
    p.turn(true);
    p.advance(HALF);
    p.eat_pill();
    p.lost();
    assert!(p.has_lost());
    p.deactivate();
    assert!(p.is_waiting());
    assert!(p.trail.is_empty());
    assert_eq!(p.max_len, PLAYER_STARTING_MAX_LEN);
    assert_eq!(p.serial, 0);
    assert_eq!(p.direction, Direction::Right);
}

#[test]
fn first_press_activates_without_turning() {
    let mut g = GameState::new();
    g.tick(&input(0, vec![], vec![]));
    assert_eq!(g.half, HALF);
    let out = g.tick(&input(0, vec![Press { player: 0, left_down: true }], vec![]));
    assert_eq!(g.players[0].state, PlayerState::Playing);
    assert_eq!(g.players[0].direction, Direction::Right);
    assert_eq!(g.players[0].head, Point { x: 0, y: 0 });
    assert_eq!(
        out,
        vec![
            Intent::HideScore { player: 0 },
            Intent::Spawn { entity: Entity::PlayerHead(0), pos: Point { x: 0, y: 0 }, scale: 30 },
        ]
    );
    g.tick(&input(0, vec![Press { player: 0, left_down: true }], vec![]));
    assert_eq!(g.players[0].direction, Direction::Up);
    g.tick(&input(0, vec![Press { player: 0, left_down: false }], vec![]));
    assert_eq!(g.players[0].direction, Direction::Right);
}

#[test]
fn players_move_on_their_timer() {
    let mut g = game_with_player0();
    let out = g.tick(&input(100, vec![], vec![]));
    assert_eq!(g.players[0].head, Point { x: 10_000, y: 0 });
    assert_eq!(g.players[0].trail, vec![0]);
    assert!(out.contains(&Intent::Move { entity: Entity::PlayerHead(0), pos: Point { x: 10_000, y: 0 } }));
    assert!(out.contains(&Intent::Spawn {
        entity: Entity::PlayerTrail(0, 0),
        pos: Point { x: 0, y: 0 },
        scale: 20
    }));
    assert_eq!(g.players[1].state, PlayerState::Waiting);
}

#[test]
fn eating_a_pill_grows_max_len_only() {
    let mut g = game_with_player0();
    let mut out = Vec::new();
    g.spawn_pill(Point { x: 0, y: 0 }, &mut out);
    assert_eq!(out, vec![Intent::Spawn { entity: Entity::Pill(0), pos: Point { x: 0, y: 0 }, scale: 100 }]);
    let out = g.tick(&input(0, vec![], vec![started(Entity::Pill(0), Entity::PlayerHead(0))]));
    assert_eq!(g.players[0].max_len, 5);
    assert_eq!(g.players[0].trail.len(), 0);
    assert!(g.pills.is_empty());
    assert_eq!(
        out,
        vec![Intent::Despawn { entity: Entity::Pill(0) }, Intent::Play { sound: Sound::Confirmation }]
    );
    let again = g.tick(&input(0, vec![], vec![started(Entity::PlayerHead(0), Entity::Pill(0))]));
    assert!(again.is_empty());
    assert_eq!(g.players[0].max_len, 5);
}

#[test]
fn crash_then_countdown_resets_player() {
    let mut g = game_with_player0();
    g.tick(&input(100, vec![], vec![]));
    g.tick(&input(100, vec![], vec![]));
    assert_eq!(g.players[0].trail.len(), 2);
    let out = g.tick(&input(0, vec![], vec![started(Entity::PlayerHead(0), Entity::Obstacle(3))]));
    assert_eq!(g.players[0].state, PlayerState::Lost);
    assert_eq!(out, vec![Intent::Play { sound: Sound::Impact }]);
    assert_eq!(g.players[0].lose_timeout.duration, 5000);
    g.tick(&input(0, vec![], vec![started(Entity::PlayerHead(0), Entity::PlayerTrail(0, 1))]));
    assert_eq!(g.players[0].state, PlayerState::Lost);
    g.tick(&input(4999, vec![], vec![]));
    assert_eq!(g.players[0].state, PlayerState::Lost);
    assert_eq!(g.players[0].trail.len(), 2);
    let out = g.tick(&input(1, vec![], vec![]));
    assert_eq!(g.players[0].state, PlayerState::Waiting);
    assert_eq!(g.players[0].trail.len(), 0);
    assert_eq!(g.players[0].max_len, PLAYER_STARTING_MAX_LEN);
    assert!(out.contains(&Intent::ShowScore {
        player: 0,
        points: 20,
        pos: Point { x: -300_000, y: 250_000 }
    }));
    assert!(out.contains(&Intent::Despawn { entity: Entity::PlayerHead(0) }));
    assert!(out.contains(&Intent::Despawn { entity: Entity::PlayerTrail(0, 1) }));
    assert!(out.contains(&Intent::Despawn { entity: Entity::PlayerTrail(0, 0) }));
}

#[test]
fn collision_end_and_unknown_pairs_are_ignored() {
    let mut g = game_with_player0();
    let out = g.tick(&input(
        0,
        vec![],
        vec![
            Collision { a: Entity::PlayerHead(0), b: Entity::Obstacle(1), started: false },
            started(Entity::PlayerHead(9), Entity::Obstacle(1)),
            started(Entity::PlayerTrail(0, 0), Entity::Pill(2)),
        ],
    ));
    assert!(out.is_empty());
    assert_eq!(g.players[0].state, PlayerState::Playing);
}

#[test]
fn obstacles_spawn_move_and_bounce() {
    let mut g = GameState::new();
    g.tick(&input(0, vec![], vec![]));
    let out = g.tick(&input(6000, vec![], vec![]));
    assert_eq!(g.obstacles.len(), 1);
    assert_eq!(g.pills.len(), 1);
    assert_eq!(g.obstacles[0].id, 0);
    assert_eq!(g.pills[0].id, 1);
    assert!(matches!(out[0], Intent::Spawn { entity: Entity::Obstacle(0), .. }));
    assert!(g.obstacle_next_timer.duration >= 2000 && g.obstacle_next_timer.duration < 10_000);
    g.obstacles.push(Obstacle {
        id: 7,
        body: Body { pos: Point { x: 0, y: 0 }, vel: Point { x: 0, y: 0 }, mass: 100 },
    });
    g.obstacles[0].body = Body { pos: Point { x: 10_000, y: 0 }, vel: Point { x: -1000, y: 0 }, mass: 100 };
    g.tick(&input(0, vec![], vec![started(Entity::Obstacle(0), Entity::Obstacle(7))]));
    assert_eq!(g.obstacles[0].body.vel, Point { x: 0, y: 0 });
    assert_eq!(g.obstacles[1].body.vel, Point { x: -1000, y: 0 });
    g.tick(&input(100, vec![], vec![]));
    assert_eq!(g.obstacles[1].body.pos, Point { x: -1000, y: 0 });
}

#[test]
fn draws_stay_in_their_ranges() {
    for _ in 0..200 {
        let d = draw_obstacle(HALF);
        assert!(d.scale >= OBSTACLE_MIN_SCALE && d.scale < OBSTACLE_MAX_SCALE);
        let top = 200_000 / d.scale as i64;
        assert!(d.vel.x.abs() <= top && d.vel.y.abs() <= top);
        assert!(d.pos.x >= -380_000 && d.pos.x < 380_000);
        assert!(d.pos.y >= -280_000 && d.pos.y < 280_000);
        assert!(d.next_interval_ms >= 2000 && d.next_interval_ms < 10_000);
        let p = draw_pill_position(HALF);
        assert!(p.x.abs() <= HALF.x && p.y.abs() <= HALF.y);
    }
    let narrow = draw_obstacle(Point { x: 10_000, y: 0 });
    assert_eq!(narrow.pos, Point { x: 0, y: 0 });
}

#[test]
fn obstacle_moves_and_wraps() {
    let mut o = Obstacle {
        id: 3,
        body: Body { pos: Point { x: 399_500, y: -10 }, vel: Point { x: 1000, y: -20 }, mass: 60 },
    };
    o.do_move(HALF);
    assert_eq!(o.body.pos, Point { x: -400_000, y: -30 });
    assert_eq!(o.body.vel, Point { x: 1000, y: -20 });
    assert_eq!(o.id, 3);
}

#[test]
fn obstacle_bounce_method_updates_both() {
    let mut a = Obstacle {
        id: 0,
        body: Body { pos: Point { x: 10_000, y: 0 }, vel: Point { x: -1000, y: 0 }, mass: 100 },
    };
    let mut b = Obstacle { id: 1, body: Body { pos: Point { x: 0, y: 0 }, vel: Point { x: 0, y: 0 }, mass: 100 } };
    assert!(a.bounce(&mut b));
    assert_eq!(a.body.vel, Point { x: 0, y: 0 });
    assert_eq!(b.body.vel, Point { x: -1000, y: 0 });
    assert_eq!(a.body.pos, Point { x: 10_000, y: 0 });
}
