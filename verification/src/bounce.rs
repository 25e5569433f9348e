//! How one ball moves in one frame: it advances, feels for walls and tiles
//! on its four sides in a shuffled order, rebounds where it meets a wall or a
//! tile of its own colour, and turns that tile.

use vstd::prelude::*;
use quad_rand::RandGenerator;
use crate::ball::{Ball, BallView, Chance, FrameEvents, Probe, direction_ok};
use crate::board::{Board, BoardView, grid_with, lemma_whole_tiles, tile_under};
use crate::laws::law_ball_stays_in_world;
use crate::units::{
    BOARD_BOTTOM,
    BOARD_LEFT,
    BOARD_RIGHT,
    BOARD_TOP,
    JITTER,
    MOVEMENT_SPEED,
    UNIT,
    displacement,
    frame_movement,
    spec_displacement,
    spec_frame_movement,
    spec_to_pixels,
    spec_to_units,
    to_pixels,
    to_units,
};

verus! {

/// Where a ball reaches from its new position: its centre and the middle of
/// each of its four edges in pixels, and half its size as a length in the
/// world.
#[derive(Clone, Copy, Debug, PartialEq, Eq)]
pub struct Reach {
    /// Half the ball's size, in normalised units.
    pub radius: i64,
    /// Horizontal pixel of the centre.
    pub px: u32,
    /// Vertical pixel of the centre.
    pub py: u32,
    /// Horizontal pixel of the left edge.
    pub left_x: u32,
    /// Horizontal pixel of the right edge.
    pub right_x: u32,
    /// Vertical pixel of the top edge.
    pub top_y: u32,
    /// Vertical pixel of the bottom edge.
    pub bottom_y: u32,
}

/// The mathematical value of a `Reach`.
pub struct ReachView {
    pub radius: int,
    pub px: int,
    pub py: int,
    pub left_x: int,
    pub right_x: int,
    pub top_y: int,
    pub bottom_y: int,
}

impl View for Reach {
    type V = ReachView;

    open spec fn view(&self) -> ReachView {
        ReachView {
            radius: self.radius as int,
            px: self.px as int,
            py: self.py as int,
            left_x: self.left_x as int,
            right_x: self.right_x as int,
            top_y: self.top_y as int,
            bottom_y: self.bottom_y as int,
        }
    }
}

/// A ball on its way through a frame, with the tiles as they stand and what
/// has happened so far.
pub struct Probing {
    /// The tiles, row by row.
    pub grid: Seq<Seq<bool>>,
    /// The ball.
    pub ball: BallView,
    /// What has happened so far.
    pub events: FrameEvents,
}

/// The reach of a ball of one tile's size at (`x`, `y`) on a board of the
/// given extent: each edge lies half a tile from the centre, or at the
/// board's nearest pixel where that would leave the board.
pub open spec fn spec_reach(width: int, height: int, tile: int, x: int, y: int) -> ReachView {
    let half = tile / 2;
    let px = spec_to_pixels(x, width);
    let py = spec_to_pixels(y, height);
    ReachView {
        radius: spec_to_units(half, width),
        px,
        py,
        left_x: if px > half { px - half } else { 0 },
        right_x: if px + half < width { px + half } else { width - 1 },
        top_y: if py > half { py - half } else { 0 },
        bottom_y: if py + half < height { py + half } else { height - 1 },
    }
}

/// The ball moves towards the side that `probe` feels on.
pub open spec fn heads_towards(direction: (int, int), probe: Probe) -> bool {
    match probe {
        Probe::Up => direction.1 < 0,
        Probe::Down => direction.1 > 0,
        Probe::Left => direction.0 < 0,
        Probe::Right => direction.0 > 0,
    }
}

/// The edge of the ball on the side of `probe` lies beyond the world's wall.
pub open spec fn beyond_wall(radius: int, x: int, y: int, probe: Probe) -> bool {
    match probe {
        Probe::Up => y - radius < BOARD_TOP,
        Probe::Down => y + radius > BOARD_BOTTOM,
        Probe::Left => x - radius < BOARD_LEFT,
        Probe::Right => x + radius > BOARD_RIGHT,
    }
}

/// `ball` set against the wall on the side of `probe`.
pub open spec fn set_against_wall(radius: int, ball: BallView, probe: Probe) -> BallView {
    match probe {
        Probe::Up => BallView { y: BOARD_TOP + radius, ..ball },
        Probe::Down => BallView { y: BOARD_BOTTOM - radius, ..ball },
        Probe::Left => BallView { x: BOARD_LEFT + radius, ..ball },
        Probe::Right => BallView { x: BOARD_RIGHT - radius, ..ball },
    }
}

/// `ball` after a bounce on the side of `probe`: the component of its
/// direction on that axis points away from the side and is one plus `jitter`
/// long; the other is kept.
pub open spec fn rebound(ball: BallView, probe: Probe, jitter: int) -> BallView {
    match probe {
        Probe::Up => BallView { direction: (ball.direction.0, UNIT + jitter), ..ball },
        Probe::Down => BallView { direction: (ball.direction.0, -(UNIT + jitter)), ..ball },
        Probe::Left => BallView { direction: (UNIT + jitter, ball.direction.1), ..ball },
        Probe::Right => BallView { direction: (-(UNIT + jitter), ball.direction.1), ..ball },
    }
}

/// The pixel at which `probe` feels for a tile, as (`x`, `y`).
pub open spec fn probe_point(reach: ReachView, probe: Probe) -> (int, int) {
    match probe {
        Probe::Up => (reach.px, reach.top_y),
        Probe::Down => (reach.px, reach.bottom_y),
        Probe::Left => (reach.left_x, reach.py),
        Probe::Right => (reach.right_x, reach.py),
    }
}

/// The tile at which `probe` feels, as (row, column), on a board `width`
/// pixels wide with `tiles_x` tiles in a row.
pub open spec fn probe_tile(width: int, tiles_x: int, reach: ReachView, probe: Probe) -> (int, int) {
    tile_under(width, tiles_x, probe_point(reach, probe).0, probe_point(reach, probe).1)
}

/// `events` and a turned tile by a ball of colour `bounce_on`.
pub open spec fn with_flip(events: FrameEvents, bounce_on: bool) -> FrameEvents {
    FrameEvents {
        wall_hit: events.wall_hit,
        gold_flip: events.gold_flip || bounce_on,
        black_flip: events.black_flip || !bounce_on,
    }
}

/// `events` and a hit on a wall.
pub open spec fn with_wall_hit(events: FrameEvents) -> FrameEvents {
    FrameEvents { wall_hit: true, gold_flip: events.gold_flip, black_flip: events.black_flip }
}

/// One probe of a ball.
///
/// A ball that does not move towards the probe's side is left alone. One
/// whose edge lies beyond the wall is set against the wall and rebounds.
/// Otherwise, if the tile under the edge has the ball's colour, the ball
/// rebounds and the tile takes the other colour.
pub open spec fn probe_step(
    width: int,
    tiles_x: int,
    reach: ReachView,
    before: Probing,
    probe: Probe,
    jitter: int,
) -> Probing {
    let at = probe_tile(width, tiles_x, reach, probe);
    let ball = before.ball;
    if !heads_towards(ball.direction, probe) {
        before
    } else if beyond_wall(reach.radius, ball.x, ball.y, probe) {
        Probing {
            grid: before.grid,
            ball: rebound(set_against_wall(reach.radius, ball, probe), probe, jitter),
            events: with_wall_hit(before.events),
        }
    } else if before.grid[at.0][at.1] == ball.bounce_on {
        Probing {
            grid: grid_with(before.grid, at.0, at.1, !ball.bounce_on),
            ball: rebound(ball, probe, jitter),
            events: with_flip(before.events, ball.bounce_on),
        }
    } else {
        before
    }
}

/// The first `count` probes of `chance`, one after the other.
pub open spec fn probe_steps(
    width: int,
    tiles_x: int,
    reach: ReachView,
    start: Probing,
    chance: Chance,
    count: nat,
) -> Probing
    decreases count,
{
    if count == 0 {
        start
    } else {
        probe_step(
            width,
            tiles_x,
            reach,
            probe_steps(width, tiles_x, reach, start, chance, (count - 1) as nat),
            chance.order@[count - 1],
            chance.jitter@[count - 1] as int,
        )
    }
}

/// The ball as it sets out in a frame of `frame_time`: of one tile's size
/// and advanced along its direction by the frame's movement, with nothing
/// having happened yet.
pub open spec fn advanced(board: BoardView, ball: BallView, frame_time: int) -> Probing {
    let movement = spec_frame_movement(
        MOVEMENT_SPEED as int,
        ball.speed,
        frame_time,
        board.tiles_x(),
    );
    Probing {
        grid: board.grid,
        ball: BallView {
            size: board.tile_width(),
            x: ball.x + spec_displacement(movement, ball.direction.0),
            y: ball.y + spec_displacement(movement, ball.direction.1),
            ..ball
        },
        events: FrameEvents::spec_none(),
    }
}

/// The reach of `ball` on `board`.
pub open spec fn reach_on(board: BoardView, ball: BallView) -> ReachView {
    spec_reach(board.width, board.height, board.tile_width(), ball.x, ball.y)
}

/// One ball's move in a frame of `frame_time`: it advances, then makes its
/// four probes in the order of `chance`, from where it has advanced to.
pub open spec fn spec_move_ball(
    board: BoardView,
    ball: BallView,
    frame_time: int,
    chance: Chance,
) -> Probing {
    probe_steps(
        board.width,
        board.tiles_x(),
        reach_on(board, advanced(board, ball, frame_time).ball),
        advanced(board, ball, frame_time),
        chance,
        4,
    )
}

/// The ball, the tiles and the events taken together.
pub open spec fn probing_of(board: Board, ball: Ball, events: FrameEvents) -> Probing {
    Probing { grid: board.grid(), ball: ball@, events }
}

impl ReachView {
    /// Every pixel of the reach lies on `board`, and the radius is at most
    /// half the world.
    pub open spec fn fits(self, board: BoardView) -> bool {
        &&& 0 <= self.radius
        &&& 2 * self.radius <= UNIT
        &&& 0 <= self.px < board.width
        &&& 0 <= self.left_x < board.width
        &&& 0 <= self.right_x < board.width
        &&& 0 <= self.py < board.height
        &&& 0 <= self.top_y < board.height
        &&& 0 <= self.bottom_y < board.height
    }
}

impl Reach {
    /// Every pixel of the reach lies on `board`, and the radius is at most
    /// half the world.
    pub open spec fn fits(&self, board: Board) -> bool {
        self@.fits(board@)
    }

    /// The reach of a ball of one tile's size whose centre is at (`x`, `y`).
    pub fn of(board: &Board, x: i64, y: i64) -> (reach: Reach)
        requires
            board.wf(),
            board.sized(),
        ensures
            reach@ == spec_reach(
                board@.width,
                board@.height,
                board@.tile_width(),
                x as int,
                y as int,
            ),
            reach.fits(*board),
    {
        let tile: u32 = board.tile_width();
        let half: u32 = tile / 2;
        proof {
            let n = board.spec_tiles_x();
            lemma_whole_tiles(board.width as int, n);
            assert(tile * n >= 2 * half && tile * (n - 1) >= 1) by (nonlinear_arith)
                requires
                    tile >= 1,
                    n >= 2,
                    half == tile / 2,
            ;
        }
        let radius: i64 = to_units(half, board.width);
        let px: u32 = to_pixels(x, board.width);
        let py: u32 = to_pixels(y, board.height);
        let left_x: u32 = if px > half { px - half } else { 0 };
        let right_x: u32 = if (px as u64) + (half as u64) < board.width as u64 {
            px + half
        } else {
            board.width - 1
        };
        let top_y: u32 = if py > half { py - half } else { 0 };
        let bottom_y: u32 = if (py as u64) + (half as u64) < board.height as u64 {
            py + half
        } else {
            board.height - 1
        };
        Reach { radius, px, py, left_x, right_x, top_y, bottom_y }
    }
}

/// A ball on its way through a frame is near enough to the world for the
/// arithmetic of a probe, and still moves along both axes.
pub open spec fn under_way(ball: Ball) -> bool {
    &&& -UNIT <= ball.x <= 2 * UNIT
    &&& -UNIT <= ball.y <= 2 * UNIT
    &&& direction_ok(ball.direction.0 as int)
    &&& direction_ok(ball.direction.1 as int)
}

/// One probe of `ball`, which has advanced to its new position: where the
/// ball moves towards the probe's side and meets the wall or a tile of its
/// own colour there, it rebounds with the given jitter; at a wall it is set
/// against the wall, at a tile the tile takes the other colour.
pub fn resolve_probe(
    board: &mut Board,
    ball: &mut Ball,
    reach: &Reach,
    probe: Probe,
    jitter: i64,
    events: &mut FrameEvents,
)
    requires
        old(board).wf(),
        reach.fits(*old(board)),
        under_way(*old(ball)),
        -JITTER <= jitter <= JITTER,
    ensures
        probing_of(*final(board), *final(ball), *final(events)) == probe_step(
            old(board)@.width,
            old(board)@.tiles_x(),
            reach@,
            probing_of(*old(board), *old(ball), *old(events)),
            probe,
            jitter as int,
        ),
        final(board).wf(),
        final(board).spec_tiles_x() == old(board).spec_tiles_x(),
        final(board).width == old(board).width,
        final(board).height == old(board).height,
        final(board).x == old(board).x,
        final(board).y == old(board).y,
        under_way(*final(ball)),
{
    let towards: bool = match probe {
        Probe::Up => ball.direction.1 < 0,
        Probe::Down => ball.direction.1 > 0,
        Probe::Left => ball.direction.0 < 0,
        Probe::Right => ball.direction.0 > 0,
    };
    if !towards {
        return ;
    }
    let beyond: bool = match probe {
        Probe::Up => ball.y - reach.radius < BOARD_TOP,
        Probe::Down => ball.y + reach.radius > BOARD_BOTTOM,
        Probe::Left => ball.x - reach.radius < BOARD_LEFT,
        Probe::Right => ball.x + reach.radius > BOARD_RIGHT,
    };
    if beyond {
        match probe {
            Probe::Up => {
                ball.y = BOARD_TOP + reach.radius;
                ball.direction.1 = UNIT + jitter;
            },
            Probe::Down => {
                ball.y = BOARD_BOTTOM - reach.radius;
                ball.direction.1 = -(UNIT + jitter);
            },
            Probe::Left => {
                ball.x = BOARD_LEFT + reach.radius;
                ball.direction.0 = UNIT + jitter;
            },
            Probe::Right => {
                ball.x = BOARD_RIGHT - reach.radius;
                ball.direction.0 = -(UNIT + jitter);
            },
        }
        events.wall_hit = true;
    } else {
        let (px, py): (u32, u32) = match probe {
            Probe::Up => (reach.px, reach.top_y),
            Probe::Down => (reach.px, reach.bottom_y),
            Probe::Left => (reach.left_x, reach.py),
            Probe::Right => (reach.right_x, reach.py),
        };
        if board.tile_at(px, py) == ball.bounce_on {
            match probe {
                Probe::Up => {
                    ball.direction.1 = UNIT + jitter;
                },
                Probe::Down => {
                    ball.direction.1 = -(UNIT + jitter);
                },
                Probe::Left => {
                    ball.direction.0 = UNIT + jitter;
                },
                Probe::Right => {
                    ball.direction.0 = -(UNIT + jitter);
                },
            }
            board.set_tile_at(px, py, !ball.bounce_on);
            if ball.bounce_on {
                events.gold_flip = true;
            } else {
                events.black_flip = true;
            }
        }
    }
}

/// Moves `ball` through one frame of `frame_time` with what chance has
/// decided: the ball takes the size of a tile, advances by the frame's
/// movement, and makes its four probes in the order of `chance`.
///
/// The ball ends inside the world, and the board keeps its shape.
pub fn move_ball_with(board: &mut Board, ball: &mut Ball, frame_time: u32, chance: &Chance) -> (events:
    FrameEvents)
    requires
        old(board).wf(),
        old(board).sized(),
        old(ball).wf(),
        chance.wf(),
    ensures
        probing_of(*final(board), *final(ball), events) == spec_move_ball(
            old(board)@,
            old(ball)@,
            frame_time as int,
            *chance,
        ),
        final(board).wf(),
        final(board).spec_tiles_x() == old(board).spec_tiles_x(),
        final(board).width == old(board).width,
        final(board).height == old(board).height,
        final(board).x == old(board).x,
        final(board).y == old(board).y,
        final(ball).wf(),
{
    let ghost board0 = *board;
    let ghost ball0 = *ball;
    let tiles_x: usize = board.tiles_x();
    let movement: u32 = frame_movement(MOVEMENT_SPEED, ball.speed, frame_time, tiles_x);
    proof {
        crate::units::lemma_movement_cap_bounds(tiles_x as int);
    }
    ball.size = board.tile_width();
    ball.x = ball.x + displacement(movement, ball.direction.0);
    ball.y = ball.y + displacement(movement, ball.direction.1);
    let reach: Reach = Reach::of(board, ball.x, ball.y);
    let mut events: FrameEvents = FrameEvents::none();
    let mut k: usize = 0;
    while k < 4
        invariant
            0 <= k <= 4,
            chance.wf(),
            board.wf(),
            board.spec_tiles_x() == board0.spec_tiles_x(),
            board.width == board0.width,
            board.height == board0.height,
            board.x == board0.x,
            board.y == board0.y,
            reach.fits(*board),
            reach@ == reach_on(board0@, advanced(board0@, ball0@, frame_time as int).ball),
            under_way(*ball),
            probing_of(*board, *ball, events) == probe_steps(
                board0@.width,
                board0@.tiles_x(),
                reach@,
                advanced(board0@, ball0@, frame_time as int),
                *chance,
                k as nat,
            ),
        decreases 4 - k,
    {
        let probe: Probe = chance.order[k];
        let jitter: i64 = chance.jitter[k];
        resolve_probe(board, ball, &reach, probe, jitter, &mut events);
        k += 1;
    }
    proof {
        law_ball_stays_in_world(board0@, ball0@, frame_time as int, *chance);
    }
    events
}

/// Moves `ball` through one frame of `frame_time`, with the order of its
/// probes and the jitter of its rebounds drawn from `generator`.
///
/// Whatever was drawn, the ball has moved as `move_ball_with` moves it for
/// some well-formed chance.
pub fn move_ball(board: &mut Board, ball: &mut Ball, frame_time: u32, generator: &RandGenerator) -> (events:
    FrameEvents)
    requires
        old(board).wf(),
        old(board).sized(),
        old(ball).wf(),
    ensures
        exists|chance: Chance|
            chance.wf() && probing_of(*final(board), *final(ball), events) == #[trigger] spec_move_ball(
                old(board)@,
                old(ball)@,
                frame_time as int,
                chance,
            ),
        final(board).wf(),
        final(board).spec_tiles_x() == old(board).spec_tiles_x(),
        final(board).width == old(board).width,
        final(board).height == old(board).height,
        final(board).x == old(board).x,
        final(board).y == old(board).y,
        final(ball).wf(),
{
    let chance: Chance = Chance::draw(generator);
    move_ball_with(board, ball, frame_time, &chance)
}

} // verus!
