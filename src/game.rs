//! Game physics.
//!
//! The two balls move over the board at an angle and a speed. What can be
//! stated in integers lives here: how a ball's direction splits into its
//! two axes, how it rebounds, which collision decides the rebound, which
//! board cells flip, and the clock of the game. Distances on screen are
//! measured by the caller, who hands the outcome of each measurement in as
//! plain flags and cell indices.
use crate::board::{flipped, state_of, Board, Index, State};
use vstd::prelude::*;

verus! {

/// The speed a ball starts with.
pub const INITIAL_SPEED: u8 = 100;

/// The fastest a ball may go.
pub const MAX_SPEED: u8 = 2 * INITIAL_SPEED;

/// A right angle, in degrees.
pub const QUADRANT: u16 = 90;

/// The edge or side that a ball hit, which decides how it rebounds.
#[derive(Debug, Clone, Copy, PartialEq, Eq, Structural)]
pub enum CollisionType {
    /// A left or right side was hit.
    Horizontal,
    /// A top or bottom side was hit.
    Vertical,
}

/// Direction and speed of a ball.
#[derive(Debug, Clone, Copy, PartialEq, Eq, Structural)]
pub struct Movement {
    /// Movement angle in degrees, from 0 (right) to 359, clockwise.
    pub angle: u16,
    /// Speed of movement, where `INITIAL_SPEED` moves half a unit per millisecond.
    pub speed: u8,
}

/// The angle after a rebound: a mirror image over the axis that was hit,
/// skewed a little by the speed.
pub open spec fn bounced_angle(angle: int, speed: int, axis: CollisionType) -> int {
    let skew = speed * 3 / INITIAL_SPEED as int;
    match axis {
        CollisionType::Horizontal => (540 - angle + skew) % 360,
        CollisionType::Vertical => (360 - angle + skew) % 360,
    }
}

/// The speed after a rebound: one more, up to `MAX_SPEED`.
pub open spec fn bounced_speed(speed: int) -> int {
    if speed + 1 < MAX_SPEED {
        speed + 1
    } else {
        MAX_SPEED as int
    }
}

/// `m` after one rebound off the given axis.
pub open spec fn bounced(m: Movement, axis: CollisionType) -> Movement {
    Movement {
        angle: bounced_angle(m.angle as int, m.speed as int, axis) as u16,
        speed: bounced_speed(m.speed as int) as u8,
    }
}

/// `m` after a rebound off `axis`, if there is one.
pub open spec fn after_hit(m: Movement, axis: Option<CollisionType>) -> Movement {
    match axis {
        Some(c) => bounced(m, c),
        None => m,
    }
}

/// The direction of travel at `angle`, as the parts of a right angle that go
/// to the x and the y axis (y grows downwards). Within each quadrant the
/// split moves linearly from one axis to the other.
pub open spec fn direction_of(angle: int) -> (int, int) {
    let a = angle % 90;
    let b = 90 - a;
    let quadrant = angle / 90;
    if quadrant == 0 {
        (b, a)
    } else if quadrant == 1 {
        (-a, b)
    } else if quadrant == 2 {
        (-a, -b)
    } else {
        (a, -b)
    }
}

/// The size of `x`.
pub open spec fn abs(x: int) -> int {
    if x < 0 {
        -x
    } else {
        x
    }
}

impl Movement {
    /// An angle within a full turn and a speed no faster than `MAX_SPEED`.
    pub open spec fn wf(self) -> bool {
        self.angle < 360 && self.speed <= MAX_SPEED
    }

    /// The direction of travel, as the numerators of the x and y components
    /// over `QUADRANT`: the two always add up to a right angle in size.
    pub fn direction(&self) -> (r: (i16, i16))
        requires
            self.angle < 360,
        ensures
            (r.0 as int, r.1 as int) == direction_of(self.angle as int),
            abs(r.0 as int) + abs(r.1 as int) == QUADRANT,
    {
        let a = (self.angle % QUADRANT) as i16;
        let b = QUADRANT as i16 - a;
        let quadrant = self.angle / QUADRANT;
        if quadrant == 0 {
            (b, a)
        } else if quadrant == 1 {
            (-a, b)
        } else if quadrant == 2 {
            (-a, -b)
        } else {
            (a, -b)
        }
    }

    /// Reflect the movement after the ball has hit something.
    ///
    /// The rebound mirrors the approach over the axis that was hit, with a
    /// slight deterministic skew that grows with the speed; the ball speeds
    /// up by one, up to `MAX_SPEED`.
    pub fn bounce(&mut self, collision_type: CollisionType)
        requires
            old(self).wf(),
        ensures
            *final(self) == bounced(*old(self), collision_type),
            final(self).wf(),
            final(self).speed >= old(self).speed,
    {
        let speed_factor: u16 = self.speed as u16 * 3 / INITIAL_SPEED as u16;
        self.angle = match collision_type {
            CollisionType::Horizontal => (540 - self.angle + speed_factor) % 360,
            CollisionType::Vertical => (360 - self.angle + speed_factor) % 360,
        };
        self.speed = if self.speed + 1 < MAX_SPEED {
            self.speed + 1
        } else {
            MAX_SPEED
        };
    }
}

/// Which edges of the viewport a ball was found beyond, after it moved.
#[derive(Debug, Clone, Copy, PartialEq, Eq, Structural)]
pub struct EdgeHits {
    /// Past the left edge.
    pub left: bool,
    /// Past the right edge.
    pub right: bool,
    /// Past the top edge.
    pub top: bool,
    /// Past the bottom edge.
    pub bottom: bool,
}

/// The axis of the last edge hit, edges taken in the order left, right, top,
/// bottom; none if no edge was hit.
pub open spec fn edge_axis(hits: EdgeHits) -> Option<CollisionType> {
    if hits.top || hits.bottom {
        Some(CollisionType::Vertical)
    } else if hits.left || hits.right {
        Some(CollisionType::Horizontal)
    } else {
        None
    }
}

/// One corner of a ball's bounding square, as measured on screen: the board
/// cell it lies in, whether the ball is close enough to that cell's center
/// to touch it, and the axis of a rebound off that cell.
#[derive(Debug, Clone, Copy, PartialEq, Eq, Structural)]
pub struct CornerProbe {
    /// Row of the cell that holds the corner.
    pub row: Index,
    /// Column of the cell that holds the corner.
    pub col: Index,
    /// Whether the ball's center is within reach of the cell's center.
    pub near: bool,
    /// How the ball rebounds off the cell.
    pub axis: CollisionType,
}

/// Whether a ball of kind `kind` collides with the cell of probe `p`: the
/// cell is of the other kind and within reach.
pub open spec fn probe_hits(g: Seq<Seq<bool>>, kind: State, p: CornerProbe) -> bool {
    state_of(g[p.row as int][p.col as int]) != kind && p.near
}

/// The cells after the probes have been taken in order, each flipping its
/// cell when it collides with it.
pub open spec fn cells_after(
    g: Seq<Seq<bool>>,
    kind: State,
    probes: Seq<CornerProbe>,
) -> Seq<Seq<bool>>
    decreases probes.len(),
{
    if probes.len() == 0 {
        g
    } else {
        let before = cells_after(g, kind, probes.drop_last());
        if probe_hits(before, kind, probes.last()) {
            flipped(before, probes.last().row as int, probes.last().col as int)
        } else {
            before
        }
    }
}

/// The axis of the last probe that collided with its cell, if any did.
pub open spec fn board_axis(
    g: Seq<Seq<bool>>,
    kind: State,
    probes: Seq<CornerProbe>,
) -> Option<CollisionType>
    decreases probes.len(),
{
    if probes.len() == 0 {
        None
    } else if probe_hits(cells_after(g, kind, probes.drop_last()), kind, probes.last()) {
        Some(probes.last().axis)
    } else {
        board_axis(g, kind, probes.drop_last())
    }
}

/// Every probe names a cell of a board of size `n`.
pub open spec fn probes_in_range(n: int, probes: Seq<CornerProbe>) -> bool {
    forall|i: int| 0 <= i < probes.len() ==> #[trigger] probes[i].row < n && probes[i].col < n
}

/// Collision checks of a ball against the viewport and against the board.
pub struct Collisions;

impl Collisions {
    /// The axis of the last edge hit: edges are taken in the order left,
    /// right, top, bottom.
    pub fn edge_axis(hits: EdgeHits) -> (r: Option<CollisionType>)
        ensures
            r == edge_axis(hits),
    {
        let mut collision_type = None;
        if hits.left {
            collision_type = Some(CollisionType::Horizontal);
        }
        if hits.right {
            collision_type = Some(CollisionType::Horizontal);
        }
        if hits.top {
            collision_type = Some(CollisionType::Vertical);
        }
        if hits.bottom {
            collision_type = Some(CollisionType::Vertical);
        }
        collision_type
    }

    /// Rebound off the viewport's edges: once at most, off the axis of the
    /// last edge hit, however many edges were hit.
    pub fn boundaries(movement: &mut Movement, hits: EdgeHits)
        requires
            old(movement).wf(),
        ensures
            *final(movement) == after_hit(*old(movement), edge_axis(hits)),
            final(movement).wf(),
    {
        if let Some(collision_type) = Self::edge_axis(hits) {
            movement.bounce(collision_type);
        }
    }

    /// Check the corners of a ball of kind `kind` against the board.
    ///
    /// Every corner that collides with its cell flips that cell, in the
    /// order given; the ball then rebounds once, off the axis of the last
    /// collision.
    pub fn board(
        movement: &mut Movement,
        board: &mut Board,
        kind: State,
        probes: &[CornerProbe; 4],
    )
        requires
            old(movement).wf(),
            probes_in_range(old(board)@.len() as int, probes@),
        ensures
            final(board)@ == cells_after(old(board)@, kind, probes@),
            *final(movement) == after_hit(*old(movement), board_axis(old(board)@, kind, probes@)),
            final(movement).wf(),
    {
        let ghost g = board@;
        let mut collision_type = None;
        let mut i: usize = 0;
        while i < 4
            invariant
                i <= 4,
                probes_in_range(g.len() as int, probes@),
                board@ == cells_after(g, kind, probes@.take(i as int)),
                board@.len() == g.len(),
                collision_type == board_axis(g, kind, probes@.take(i as int)),
            decreases 4 - i,
        {
            let probe = probes[i];
            proof {
                assert(probes@.take(i as int + 1).drop_last() =~= probes@.take(i as int));
                assert(probes@[i as int] == probe);
            }
            let at_kind = board.cell(probe.row, probe.col);
            if kind != at_kind && probe.near {
                board.flip(probe.row, probe.col);
                collision_type = Some(probe.axis);
            }
            i = i + 1;
        }
        proof {
            assert(probes@.take(4) =~= probes@);
        }
        if let Some(collision_type) = collision_type {
            movement.bounce(collision_type);
        }
    }
}

/// A ball that is past no edge of the viewport keeps its movement.
pub proof fn inside_bounds_keeps_movement(movement: Movement, hits: EdgeHits)
    requires
        !hits.left && !hits.right && !hits.top && !hits.bottom,
    ensures
        after_hit(movement, edge_axis(hits)) == movement,
{
}

/// A ball past the left edge, and past neither the top nor the bottom,
/// rebounds off the horizontal axis; when the speed skew is odd, as it is at
/// `INITIAL_SPEED`, its angle changes.
pub proof fn left_edge_bounces_horizontally(movement: Movement, hits: EdgeHits)
    requires
        movement.wf(),
        hits.left && !hits.top && !hits.bottom,
    ensures
        after_hit(movement, edge_axis(hits)) == bounced(movement, CollisionType::Horizontal),
        (movement.speed as int * 3 / INITIAL_SPEED as int) % 2 == 1 ==> after_hit(
            movement,
            edge_axis(hits),
        ).angle != movement.angle,
{
}

proof fn lemma_same_kind_probes(g: Seq<Seq<bool>>, kind: State, probes: Seq<CornerProbe>)
    requires
        forall|i: int|
            0 <= i < probes.len() ==> state_of(g[#[trigger] probes[i].row as int][probes[i].col as int])
                == kind,
    ensures
        cells_after(g, kind, probes) == g,
        board_axis(g, kind, probes) == None::<CollisionType>,
    decreases probes.len(),
{
    if probes.len() > 0 {
        let pre = probes.drop_last();
        assert forall|i: int| 0 <= i < pre.len() implies state_of(
            g[#[trigger] pre[i].row as int][pre[i].col as int],
        ) == kind by {
            assert(pre[i] == probes[i]);
        }
        lemma_same_kind_probes(g, kind, pre);
        assert(probes.last() == probes[probes.len() - 1]);
    }
}

/// A ball whose corners all lie on cells of its own kind flips no cell and
/// keeps its movement.
pub proof fn same_kind_corners_change_nothing(
    b: &Board,
    movement: Movement,
    kind: State,
    probes: [CornerProbe; 4],
)
    requires
        probes_in_range(b@.len() as int, probes@),
        forall|i: int|
            0 <= i < 4 ==> state_of(b@[#[trigger] probes@[i].row as int][probes@[i].col as int])
                == kind,
    ensures
        cells_after(b@, kind, probes@) == b@,
        after_hit(movement, board_axis(b@, kind, probes@)) == movement,
{
    lemma_same_kind_probes(b@, kind, probes@);
}

proof fn lemma_unprobed_cell(
    g: Seq<Seq<bool>>,
    kind: State,
    probes: Seq<CornerProbe>,
    row: int,
    col: int,
)
    requires
        forall|i: int| 0 <= i < g.len() ==> #[trigger] g[i].len() == g.len(),
        probes_in_range(g.len() as int, probes),
        0 <= row < g.len(),
        0 <= col < g.len(),
        forall|i: int|
            0 <= i < probes.len() ==> !(#[trigger] probes[i].row == row && probes[i].col == col),
    ensures
        cells_after(g, kind, probes).len() == g.len(),
        forall|i: int|
            0 <= i < g.len() ==> #[trigger] cells_after(g, kind, probes)[i].len() == g.len(),
        cells_after(g, kind, probes)[row][col] == g[row][col],
    decreases probes.len(),
{
    if probes.len() > 0 {
        let pre = probes.drop_last();
        assert forall|i: int| 0 <= i < pre.len() implies !(#[trigger] pre[i].row == row
            && pre[i].col == col) by {
            assert(pre[i] == probes[i]);
        }
        assert forall|i: int| 0 <= i < pre.len() implies #[trigger] pre[i].row < g.len()
            && pre[i].col < g.len() by {
            assert(pre[i] == probes[i]);
        }
        lemma_unprobed_cell(g, kind, pre, row, col);
        let last = probes[probes.len() - 1];
        assert(probes.last() == last);
        assert(last.row < g.len() && last.col < g.len());
    }
}

/// One board check flips no cell but those its probes name: a ball changes
/// at most four cells per check.
pub proof fn board_check_keeps_unprobed_cells(
    b: &Board,
    kind: State,
    probes: [CornerProbe; 4],
    row: int,
    col: int,
)
    requires
        probes_in_range(b@.len() as int, probes@),
        0 <= row < b@.len(),
        0 <= col < b@.len(),
        forall|i: int|
            0 <= i < 4 ==> !(#[trigger] probes@[i].row == row && probes@[i].col == col),
    ensures
        cells_after(b@, kind, probes@)[row][col] == b@[row][col],
{
    crate::board::board_is_square(b);
    lemma_unprobed_cell(b@, kind, probes@, row, col);
}

/// The order in which the balls are moved on every tick: the lit ball first.
pub fn tick_order() -> (r: [State; 2])
    ensures
        r@ == seq![State::Lit, State::Dark],
{
    let r = [State::Lit, State::Dark];
    assert(r@ =~= seq![State::Lit, State::Dark]);
    r
}

/// The integer state of a running game: the board, the time of the last
/// tick, and the movement of each ball. Where the balls are on screen is
/// kept by the caller.
pub struct Simulation {
    board: Board,
    time: u64,
    lit_ball: Movement,
    dark_ball: Movement,
}

impl Simulation {
    /// The cells of the board.
    pub closed spec fn cells(&self) -> Seq<Seq<bool>> {
        self.board@
    }

    /// The time of the last tick, in milliseconds.
    pub closed spec fn clock(&self) -> u64 {
        self.time
    }

    /// The movement of the ball of the given kind.
    pub closed spec fn motion(&self, kind: State) -> Movement {
        match kind {
            State::Lit => self.lit_ball,
            State::Dark => self.dark_ball,
        }
    }

    /// Both movements are well formed.
    pub open spec fn wf(&self) -> bool {
        self.motion(State::Lit).wf() && self.motion(State::Dark).wf()
    }

    /// Whether a tick at `time_ms` may follow: time must strictly increase.
    pub open spec fn accepts_time(&self, time_ms: u64) -> bool {
        time_ms > self.clock()
    }

    /// Start a game on `board` at `start_time_ms`: the lit ball heads down
    /// and right at 40 degrees, the dark ball the opposite way at 220, both
    /// at `INITIAL_SPEED`.
    pub fn new(board: Board, start_time_ms: u64) -> (r: Simulation)
        ensures
            r.cells() == board@,
            r.clock() == start_time_ms,
            r.motion(State::Lit) == (Movement { angle: 40, speed: INITIAL_SPEED }),
            r.motion(State::Dark) == (Movement { angle: 220, speed: INITIAL_SPEED }),
            r.wf(),
    {
        Simulation {
            board,
            time: start_time_ms,
            lit_ball: Movement { angle: 40, speed: INITIAL_SPEED },
            dark_ball: Movement { angle: 220, speed: INITIAL_SPEED },
        }
    }

    /// View the board.
    pub fn board(&self) -> (r: &Board)
        ensures
            r@ == self.cells(),
    {
        &self.board
    }

    /// The time of the last tick.
    pub fn time(&self) -> (r: u64)
        ensures
            r == self.clock(),
    {
        self.time
    }

    /// The movement of the ball of the given kind.
    pub fn movement(&self, kind: State) -> (r: Movement)
        ensures
            r == self.motion(kind),
    {
        match kind {
            State::Lit => self.lit_ball,
            State::Dark => self.dark_ball,
        }
    }

    /// Whether a tick at `time_ms` may follow the last one.
    pub fn accepts(&self, time_ms: u64) -> (r: bool)
        ensures
            r == self.accepts_time(time_ms),
    {
        time_ms > self.time
    }

    /// Move the clock to `time_ms` and return the milliseconds elapsed.
    pub fn advance(&mut self, time_ms: u64) -> (elapsed: u64)
        requires
            old(self).accepts_time(time_ms),
        ensures
            elapsed == time_ms - old(self).clock(),
            final(self).clock() == time_ms,
            final(self).cells() == old(self).cells(),
            forall|k: State| #[trigger] final(self).motion(k) == old(self).motion(k),
    {
        let elapsed = time_ms - self.time;
        self.time = time_ms;
        elapsed
    }

    /// Rebound the ball of kind `kind` off the viewport's edges it is past.
    pub fn hit_edges(&mut self, kind: State, hits: EdgeHits)
        requires
            old(self).wf(),
        ensures
            final(self).motion(kind) == after_hit(old(self).motion(kind), edge_axis(hits)),
            forall|k: State| k != kind ==> #[trigger] final(self).motion(k) == old(self).motion(k),
            final(self).cells() == old(self).cells(),
            final(self).clock() == old(self).clock(),
            final(self).wf(),
    {
        match kind {
            State::Lit => Collisions::boundaries(&mut self.lit_ball, hits),
            State::Dark => Collisions::boundaries(&mut self.dark_ball, hits),
        }
    }

    /// Check the corners of the ball of kind `kind` against the board:
    /// flip the cells it collides with and rebound it off the last one.
    pub fn hit_cells(&mut self, kind: State, probes: &[CornerProbe; 4])
        requires
            old(self).wf(),
            probes_in_range(old(self).cells().len() as int, probes@),
        ensures
            final(self).cells() == cells_after(old(self).cells(), kind, probes@),
            final(self).motion(kind) == after_hit(
                old(self).motion(kind),
                board_axis(old(self).cells(), kind, probes@),
            ),
            forall|k: State| k != kind ==> #[trigger] final(self).motion(k) == old(self).motion(k),
            final(self).clock() == old(self).clock(),
            final(self).wf(),
    {
        match kind {
            State::Lit => Collisions::board(&mut self.lit_ball, &mut self.board, kind, probes),
            State::Dark => Collisions::board(&mut self.dark_ball, &mut self.board, kind, probes),
        }
    }
}

/// Once the clock has reached `first`, a tick at `first` or any earlier time
/// is refused: ticks need strictly increasing times.
pub proof fn repeated_time_is_refused(after: &Simulation, first: u64, second: u64)
    requires
        after.clock() == first,
        second <= first,
    ensures
        !after.accepts_time(second),
{
}

/// Positions and sizes of the game objects, in whole pixels, for drawing.
#[derive(Debug, Clone, Copy, PartialEq, Eq)]
pub struct GameObjects {
    /// Lit ball x coordinate.
    pub lit_ball_x: u32,
    /// Lit ball y coordinate.
    pub lit_ball_y: u32,
    /// Dark ball x coordinate.
    pub dark_ball_x: u32,
    /// Dark ball y coordinate.
    pub dark_ball_y: u32,
    /// Cell width.
    pub cell_size_x: u32,
    /// Cell height.
    pub cell_size_y: u32,
    /// Radius of the balls.
    pub ball_radius: u32,
}

} // verus!
