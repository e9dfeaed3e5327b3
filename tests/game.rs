use engine_rs::board::{Board, State};
use engine_rs::game::{
    tick_order, CollisionType, Collisions, CornerProbe, EdgeHits, Movement, Simulation,
    INITIAL_SPEED, MAX_SPEED,
};

fn probe(row: u8, col: u8, near: bool, axis: CollisionType) -> CornerProbe {
    CornerProbe { row, col, near, axis }
}

fn hits(left: bool, right: bool, top: bool, bottom: bool) -> EdgeHits {
    EdgeHits { left, right, top, bottom }
}

#[test]
fn should_calculate_horizontal_bounce_angle_correctly() {
    let values = vec![
        (0, 180),
        (15, 165),
        (30, 150),
        (65, 115),
        (89, 91),
        (90, 90),   //edge case?
        (270, 270), //edge case?
        (105, 75),
    ];

    for (angle, expected) in values {
        let mut mov = Movement { angle, speed: 0 };
        // when
        mov.bounce(CollisionType::Horizontal);

        // then
        assert_eq!(mov.angle, expected);
    }
}

#[test]
fn should_calculate_vertical_bounce_angle_correctly() {
    let values = vec![
        (90, 270),
        (0, 0),     //edge case?
        (180, 180), //edge case?,
        (120, 240),
        (280, 80),
    ];

    for (angle, expected) in values {
        let mut mov = Movement { angle, speed: 0 };
        // when
        mov.bounce(CollisionType::Vertical);

        // then
        assert_eq!(mov.angle, expected);
    }
}

#[test]
fn should_not_find_collisions() {
    let kind = State::Lit;
    // A ball of radius 10 at (10, 15) over cells of 10 by 10: the corners of
    // its bounding square (20, 25), (20, 5), (0, 25) and (0, 5) lie in the
    // cells at (row 2, col 2), (0, 2), (2, 0) and (0, 0). The two dark cells
    // in column 2 have their centers at a squared distance of 325 from the
    // ball, beyond the reach of 14.75 squared; the lit cells are within it.
    let probes = [
        probe(2, 2, false, CollisionType::Horizontal),
        probe(0, 2, false, CollisionType::Horizontal),
        probe(2, 0, true, CollisionType::Vertical),
        probe(0, 0, true, CollisionType::Vertical),
    ];

    let mut movement = Movement { angle: 90, speed: 1 };
    let mut board = Board::new(5);

    // we are only touching Lit board cells,
    // so there should be no collisions.
    Collisions::board(&mut movement, &mut board, kind, &probes);

    // no change
    assert_eq!(movement.angle, 90);
    assert_eq!(movement.speed, 1);
    assert_eq!(board.debug_text(), Board::new(5).debug_text());
}

#[test]
fn bounce_skews_with_speed_and_speeds_up() {
    let mut mov = Movement { angle: 0, speed: INITIAL_SPEED };
    mov.bounce(CollisionType::Horizontal);
    assert_eq!(mov, Movement { angle: 183, speed: 101 });

    let mut mov = Movement { angle: 120, speed: 150 };
    mov.bounce(CollisionType::Vertical);
    assert_eq!(mov, Movement { angle: 244, speed: 151 });

    let mut mov = Movement { angle: 10, speed: 199 };
    mov.bounce(CollisionType::Vertical);
    assert_eq!(mov, Movement { angle: 355, speed: MAX_SPEED });

    let mut mov = Movement { angle: 359, speed: MAX_SPEED };
    mov.bounce(CollisionType::Horizontal);
    assert_eq!(mov, Movement { angle: 187, speed: MAX_SPEED });
}

#[test]
fn bounce_speed_never_decreases() {
    for speed in [0u8, 1, 99, 100, 150, 199, 200] {
        for axis in [CollisionType::Horizontal, CollisionType::Vertical] {
            let mut mov = Movement { angle: 45, speed };
            mov.bounce(axis);
            assert_eq!(mov.speed, (speed + 1).min(2 * INITIAL_SPEED));
            assert!(mov.speed >= speed);
            assert!(mov.angle < 360);
        }
    }
}

#[test]
fn direction_splits_a_right_angle_per_quadrant() {
    let cases = [
        (0, (90, 0)),
        (45, (45, 45)),
        (40, (50, 40)),
        (90, (0, 90)),
        (135, (-45, 45)),
        (180, (0, -90)),
        (220, (-40, -50)),
        (270, (0, -90)),
        (300, (30, -60)),
        (359, (89, -1)),
    ];
    for (angle, expected) in cases {
        let d = Movement { angle, speed: INITIAL_SPEED }.direction();
        assert_eq!(d, expected);
        assert_eq!(d.0.abs() + d.1.abs(), 90);
    }
}

#[test]
fn edge_axis_keeps_the_last_edge_hit() {
    assert_eq!(Collisions::edge_axis(hits(false, false, false, false)), None);
    assert_eq!(
        Collisions::edge_axis(hits(true, false, false, false)),
        Some(CollisionType::Horizontal)
    );
    assert_eq!(
        Collisions::edge_axis(hits(false, true, false, false)),
        Some(CollisionType::Horizontal)
    );
    assert_eq!(
        Collisions::edge_axis(hits(false, false, false, true)),
        Some(CollisionType::Vertical)
    );
    assert_eq!(
        Collisions::edge_axis(hits(true, false, true, false)),
        Some(CollisionType::Vertical)
    );
    assert_eq!(
        Collisions::edge_axis(hits(false, true, false, true)),
        Some(CollisionType::Vertical)
    );
}

#[test]
fn boundaries_bounce_once_or_not_at_all() {
    let start = Movement { angle: 200, speed: INITIAL_SPEED };

    let mut inside = start;
    Collisions::boundaries(&mut inside, hits(false, false, false, false));
    assert_eq!(inside, start);

    let mut left = start;
    Collisions::boundaries(&mut left, hits(true, false, false, false));
    assert_eq!(left, Movement { angle: 343, speed: 101 });
    assert_ne!(left.angle, start.angle);

    // a corner: only the last edge (top) counts, and only one bounce
    let mut corner = start;
    Collisions::boundaries(&mut corner, hits(true, false, true, false));
    assert_eq!(corner, Movement { angle: 163, speed: 101 });
}

#[test]
fn board_collision_flips_opposite_cell_and_bounces() {
    let mut board = Board::new(4);
    let mut movement = Movement { angle: 40, speed: INITIAL_SPEED };
    let probes = [
        probe(1, 2, true, CollisionType::Vertical),
        probe(1, 1, true, CollisionType::Vertical),
        probe(0, 2, false, CollisionType::Vertical),
        probe(0, 1, true, CollisionType::Horizontal),
    ];
    Collisions::board(&mut movement, &mut board, State::Lit, &probes);
    assert_eq!(board.cell(1, 2), State::Lit);
    assert_eq!(board.cell(0, 2), State::Dark);
    assert_eq!(board.cell(0, 1), State::Lit);
    assert_eq!(board.cell(1, 1), State::Lit);
    // the only collision was vertical: (360 - 40 + 3) % 360
    assert_eq!(movement, Movement { angle: 323, speed: 101 });
}

#[test]
fn board_collision_keeps_last_axis_and_flips_once_per_cell() {
    let mut board = Board::new(4);
    let mut movement = Movement { angle: 220, speed: INITIAL_SPEED };
    let probes = [
        probe(0, 0, true, CollisionType::Vertical),
        probe(0, 0, true, CollisionType::Vertical),
        probe(3, 1, true, CollisionType::Horizontal),
        probe(3, 2, true, CollisionType::Vertical),
    ];
    Collisions::board(&mut movement, &mut board, State::Dark, &probes);
    // the second probe of (0, 0) finds it already dark
    assert_eq!(board.cell(0, 0), State::Dark);
    assert_eq!(board.cell(3, 1), State::Dark);
    assert_eq!(board.cell(3, 2), State::Dark);
    // last collision was at (3, 1), horizontal: (540 - 220 + 3) % 360
    assert_eq!(movement, Movement { angle: 323, speed: 101 });
}

#[test]
fn simulation_starts_with_opposed_balls() {
    let sim = Simulation::new(Board::new(16), 0);
    assert_eq!(sim.time(), 0);
    assert_eq!(sim.movement(State::Lit), Movement { angle: 40, speed: INITIAL_SPEED });
    assert_eq!(sim.movement(State::Dark), Movement { angle: 220, speed: INITIAL_SPEED });
    assert_eq!(sim.board().size(), 16);
    assert_eq!(tick_order(), [State::Lit, State::Dark]);
}

#[test]
fn simulation_needs_increasing_time() {
    let mut sim = Simulation::new(Board::new(8), 5);
    assert!(!sim.accepts(5));
    assert!(!sim.accepts(4));
    assert!(sim.accepts(6));
    assert_eq!(sim.advance(15), 10);
    assert_eq!(sim.time(), 15);
    assert!(!sim.accepts(15));
    assert!(!sim.accepts(10));
    assert!(sim.accepts(16));
}

#[test]
fn simulation_moves_only_the_ball_that_hit() {
    let mut sim = Simulation::new(Board::new(8), 0);
    sim.hit_edges(State::Dark, hits(false, true, false, false));
    assert_eq!(sim.movement(State::Dark), Movement { angle: 323, speed: 101 });
    assert_eq!(sim.movement(State::Lit), Movement { angle: 40, speed: INITIAL_SPEED });

    let probes = [
        probe(2, 4, true, CollisionType::Vertical),
        probe(2, 3, true, CollisionType::Vertical),
        probe(1, 4, false, CollisionType::Vertical),
        probe(1, 3, true, CollisionType::Vertical),
    ];
    sim.hit_cells(State::Lit, &probes);
    assert_eq!(sim.board().cell(2, 4), State::Lit);
    assert_eq!(sim.board().cell(1, 4), State::Dark);
    assert_eq!(sim.movement(State::Lit), Movement { angle: 323, speed: 101 });
    assert_eq!(sim.movement(State::Dark), Movement { angle: 323, speed: 101 });
}
