//! What holds of every move and every frame, proved over the values of
//! boards and balls.

use vstd::prelude::*;
use crate::ball::{BallView, Chance, FrameEvents, Probe, direction_ok};
use crate::board::{
    BoardView,
    grid_with,
    initial_tile,
    initial_grid,
    initial_row,
    lemma_tile_on_board,
    lemma_tiles_owned_total,
    lemma_whole_tiles,
    rectangular,
    row_owned,
    tiles_owned,
};
use crate::bounce::{
    Probing,
    ReachView,
    advanced,
    beyond_wall,
    heads_towards,
    probe_point,
    probe_step,
    probe_steps,
    probe_tile,
    reach_on,
    rebound,
    spec_move_ball,
    spec_reach,
    with_flip,
};
use crate::frame::{FrameState, chances_wf, frame_outcome, frame_steps, spec_step_frame};
use crate::units::{
    JITTER,
    MOVEMENT_SPEED,
    UNIT,
    lemma_movement_cap_bounds,
    movement_cap,
    spec_displacement,
    spec_frame_movement,
    spec_to_pixels,
    spec_to_units,
};

verus! {

/// The size of `value`.
pub open spec fn magnitude(value: int) -> int {
    if value >= 0 {
        value
    } else {
        -value
    }
}

/// `x` lies between `a` and `b`, whichever of them is the larger.
pub open spec fn between(a: int, b: int, x: int) -> bool {
    (a <= x <= b) || (b <= x <= a)
}

/// Half a ball's size on `board`, as a length in the world.
pub open spec fn radius_on(board: BoardView) -> int {
    spec_to_units(board.tile_width() / 2, board.width)
}

/// All of `balls` are well formed.
pub open spec fn views_wf(balls: Seq<BallView>) -> bool {
    forall|i: int| 0 <= i < balls.len() ==> (#[trigger] balls[i]).wf()
}

/// None of the first `count` tries of `order` is `probe`.
pub open spec fn untried(order: Seq<Probe>, count: int, probe: Probe) -> bool {
    forall|j: int| 0 <= j < count ==> #[trigger] order[j] != probe
}

/// A position maps to one of the pixels of the extent.
pub proof fn lemma_to_pixels_bounds(position: int, extent: int)
    requires
        extent >= 1,
    ensures
        0 <= spec_to_pixels(position, extent) < extent,
{
    if position > 0 {
        assert((position * extent) / 1_000_000 >= 0) by (nonlinear_arith)
            requires
                position > 0,
                extent >= 1,
        ;
    }
}

/// A board on which a tile is at least one pixel wide has an extent: it is
/// at least a pixel wide and high, and at least a tile wide.
pub proof fn lemma_extent_positive(board: BoardView)
    requires
        board.wf(),
        board.sized(),
    ensures
        board.width >= 1,
        board.height >= 1,
        board.width >= board.tile_width(),
        board.width >= 2 * (board.tile_width() / 2),
{
    let tile = board.tile_width();
    let n = board.tiles_x();
    lemma_whole_tiles(board.width, n);
    assert(tile * n >= tile && tile * (n - 1) >= 1) by (nonlinear_arith)
        requires
            tile >= 1,
            n >= 2,
    ;
}

/// Half a tile is at most half the world wide.
pub proof fn lemma_radius_bounds(board: BoardView)
    requires
        board.wf(),
        board.sized(),
    ensures
        0 <= radius_on(board),
        2 * radius_on(board) <= UNIT,
{
    let half = board.tile_width() / 2;
    let width = board.width;
    lemma_extent_positive(board);
    assert(0 <= (half * 1_000_000) / width && 2 * ((half * 1_000_000) / width) <= 1_000_000)
        by (nonlinear_arith)
        requires
            0 <= 2 * half <= width,
            width >= 1,
    ;
}

/// On a board with an extent, every pixel that a ball reaches lies on the
/// board, wherever the ball is.
pub proof fn lemma_reach_fits(board: BoardView, x: int, y: int)
    requires
        board.wf(),
        board.sized(),
    ensures
        spec_reach(board.width, board.height, board.tile_width(), x, y).fits(board),
        spec_reach(board.width, board.height, board.tile_width(), x, y).radius == radius_on(board),
{
    lemma_extent_positive(board);
    lemma_radius_bounds(board);
    lemma_to_pixels_bounds(x, board.width);
    lemma_to_pixels_bounds(y, board.height);
}

/// The tile at which a probe feels lies on the board.
pub proof fn lemma_probe_tile_on_board(board: BoardView, reach: ReachView, probe: Probe)
    requires
        board.wf(),
        reach.fits(board),
    ensures
        0 <= probe_tile(board.width, board.tiles_x(), reach, probe).0 < board.tiles_x() - 1,
        0 <= probe_tile(board.width, board.tiles_x(), reach, probe).1 < board.tiles_x(),
{
    let point = probe_point(reach, probe);
    lemma_tile_on_board(board, point.0, point.1);
}

/// A frame's movement is not negative, whatever the speed of the ball and
/// the time of the frame, and at most the cap.
pub proof fn lemma_movement_bounds(speed: int, frame_time: int, tiles_x: int)
    requires
        0 <= speed,
        0 <= frame_time,
        1 <= tiles_x,
    ensures
        0 <= spec_frame_movement(MOVEMENT_SPEED as int, speed, frame_time, tiles_x) <= movement_cap(
            tiles_x,
        ),
{
    lemma_movement_cap_bounds(tiles_x);
    assert(0 <= (1_500_000 * speed * frame_time) / (1_000_000 * 1_000_000int)) by (nonlinear_arith)
        requires
            0 <= speed,
            0 <= frame_time,
    ;
}

/// A ball is displaced in the sense of its direction.
pub proof fn lemma_displacement_sign(movement: int, direction: int)
    requires
        0 <= movement,
    ensures
        direction >= 0 ==> 0 <= spec_displacement(movement, direction),
        direction <= 0 ==> spec_displacement(movement, direction) <= 0,
{
    if direction >= 0 {
        assert(0 <= (movement * direction) / 1_000_000) by (nonlinear_arith)
            requires
                0 <= movement,
                0 <= direction,
        ;
    } else {
        assert(0 <= (movement * (-direction)) / 1_000_000) by (nonlinear_arith)
            requires
                0 <= movement,
                direction < 0,
        ;
    }
}

/// A displacement by at most `cap` along a direction of at most eleven
/// tenths is at most eleven tenths of `cap`.
pub proof fn lemma_advance_bound(movement: int, cap: int, direction: int, tiles_x: int)
    requires
        0 <= movement <= cap,
        direction_ok(direction),
        tiles_x >= 1,
        cap * 21 * tiles_x <= 10 * UNIT,
    ensures
        10 * magnitude(spec_displacement(movement, direction)) <= 11 * cap,
        magnitude(spec_displacement(movement, direction)) * 21 * tiles_x <= 10 * MOVEMENT_SPEED,
{
    let size = magnitude(direction);
    let moved = (movement * size) / 1_000_000;
    assert(magnitude(spec_displacement(movement, direction)) == moved) by {
        assert(0 <= (movement * size) / 1_000_000) by (nonlinear_arith)
            requires
                0 <= movement,
                0 <= size,
        ;
    }
    assert(0 <= moved && 10 * moved <= 11 * cap) by (nonlinear_arith)
        requires
            0 <= movement <= cap,
            0 <= size <= 1_100_000,
            moved == (movement * size) / 1_000_000,
    ;
    assert(moved * 21 * tiles_x <= 15_000_000) by (nonlinear_arith)
        requires
            0 <= moved,
            10 * moved <= 11 * cap,
            cap * 21 * tiles_x <= 10_000_000,
            tiles_x >= 1,
    ;
}

/// A ball in the course of its probes, after `count` of them.
///
/// The tiles keep their shape and the ball moves along both axes. The ball
/// keeps `margin` from each wall, unless it moves towards that wall and the
/// probe on that side is still to come. And if the ball was a radius from
/// the walls at `from`, before it advanced to `to`, it lies between the two.
pub open spec fn on_course(
    board: BoardView,
    margin: int,
    from: BallView,
    to: BallView,
    state: Probing,
    order: Seq<Probe>,
    count: int,
) -> bool {
    let ball = state.ball;
    let radius = radius_on(board);
    &&& rectangular(state.grid, board.tiles_x() - 1, board.tiles_x())
    &&& direction_ok(ball.direction.0)
    &&& direction_ok(ball.direction.1)
    &&& 0 <= ball.speed
    &&& ball.x >= margin || (ball.direction.0 < 0 && untried(order, count, Probe::Left))
    &&& ball.x <= UNIT - margin || (ball.direction.0 > 0 && untried(order, count, Probe::Right))
    &&& ball.y >= margin || (ball.direction.1 < 0 && untried(order, count, Probe::Up))
    &&& ball.y <= UNIT - margin || (ball.direction.1 > 0 && untried(order, count, Probe::Down))
    &&& radius <= from.x <= UNIT - radius ==> between(from.x, to.x, ball.x)
    &&& radius <= from.y <= UNIT - radius ==> between(from.y, to.y, ball.y)
}

/// A probe keeps a ball on course.
pub proof fn lemma_probe_keeps_course(
    board: BoardView,
    reach: ReachView,
    margin: int,
    from: BallView,
    to: BallView,
    before: Probing,
    order: Seq<Probe>,
    count: int,
    jitter: int,
)
    requires
        board.wf(),
        reach.fits(board),
        reach.radius == radius_on(board),
        0 <= margin <= reach.radius,
        0 <= count < order.len(),
        -JITTER <= jitter <= JITTER,
        on_course(board, margin, from, to, before, order, count),
    ensures
        on_course(
            board,
            margin,
            from,
            to,
            probe_step(board.width, board.tiles_x(), reach, before, order[count], jitter),
            order,
            count + 1,
        ),
{
    let probe = order[count];
    let n = board.tiles_x();
    let at = probe_tile(board.width, n, reach, probe);
    let after = probe_step(board.width, n, reach, before, probe, jitter);
    lemma_probe_tile_on_board(board, reach, probe);
    assert(rectangular(after.grid, n - 1, n)) by {
        let turned = grid_with(before.grid, at.0, at.1, !before.ball.bounce_on);
        assert forall|r: int| 0 <= r < n - 1 implies (#[trigger] turned[r]).len() == n by {
            assert(before.grid[r].len() == n);
        }
    }
}

/// The probes keep a ball on course.
pub proof fn lemma_probes_keep_course(
    board: BoardView,
    reach: ReachView,
    margin: int,
    from: BallView,
    start: Probing,
    chance: Chance,
    count: nat,
)
    requires
        board.wf(),
        reach.fits(board),
        reach.radius == radius_on(board),
        0 <= margin <= reach.radius,
        count <= 4,
        forall|k: int| 0 <= k < 4 ==> -JITTER <= #[trigger] chance.jitter@[k] <= JITTER,
        on_course(board, margin, from, start.ball, start, chance.order@, 0),
    ensures
        on_course(
            board,
            margin,
            from,
            start.ball,
            probe_steps(board.width, board.tiles_x(), reach, start, chance, count),
            chance.order@,
            count as int,
        ),
    decreases count,
{
    if count > 0 {
        lemma_probes_keep_course(board, reach, margin, from, start, chance, (count - 1) as nat);
        lemma_probe_keeps_course(
            board,
            reach,
            margin,
            from,
            start.ball,
            probe_steps(board.width, board.tiles_x(), reach, start, chance, (count - 1) as nat),
            chance.order@,
            count - 1,
            chance.jitter@[count - 1] as int,
        );
    }
}

/// A ball that has advanced is on course for its probes.
pub proof fn lemma_advanced_on_course(
    board: BoardView,
    margin: int,
    ball: BallView,
    frame_time: int,
    order: Seq<Probe>,
)
    requires
        board.wf(),
        ball.wf(),
        0 <= frame_time,
        margin <= ball.x <= UNIT - margin,
        margin <= ball.y <= UNIT - margin,
    ensures
        on_course(
            board,
            margin,
            ball,
            advanced(board, ball, frame_time).ball,
            advanced(board, ball, frame_time),
            order,
            0,
        ),
{
    let movement = spec_frame_movement(
        MOVEMENT_SPEED as int,
        ball.speed,
        frame_time,
        board.tiles_x(),
    );
    lemma_movement_bounds(ball.speed, frame_time, board.tiles_x());
    lemma_displacement_sign(movement, ball.direction.0);
    lemma_displacement_sign(movement, ball.direction.1);
}

/// After all four probes of a well-formed chance, none is still to come.
pub proof fn lemma_every_probe_tried(chance: Chance)
    requires
        chance.wf(),
    ensures
        !untried(chance.order@, 4, Probe::Up),
        !untried(chance.order@, 4, Probe::Down),
        !untried(chance.order@, 4, Probe::Left),
        !untried(chance.order@, 4, Probe::Right),
{
    let order = chance.order@;
    assert(order.len() == 4);
    let up = choose|i: int| 0 <= i < order.len() && order[i] == Probe::Up;
    assert(order[up] == Probe::Up);
    let down = choose|i: int| 0 <= i < order.len() && order[i] == Probe::Down;
    assert(order[down] == Probe::Down);
    let left = choose|i: int| 0 <= i < order.len() && order[i] == Probe::Left;
    assert(order[left] == Probe::Left);
    let right = choose|i: int| 0 <= i < order.len() && order[i] == Probe::Right;
    assert(order[right] == Probe::Right);
}

/// A ball that keeps a margin of at most its radius from the walls still
/// keeps it after its move; it still moves along both axes, and the tiles
/// have kept their shape.
pub proof fn law_ball_keeps_margin(
    board: BoardView,
    ball: BallView,
    frame_time: int,
    chance: Chance,
    margin: int,
)
    requires
        board.wf(),
        board.sized(),
        ball.wf(),
        chance.wf(),
        0 <= frame_time,
        0 <= margin <= radius_on(board),
        margin <= ball.x <= UNIT - margin,
        margin <= ball.y <= UNIT - margin,
    ensures
        spec_move_ball(board, ball, frame_time, chance).ball.wf(),
        margin <= spec_move_ball(board, ball, frame_time, chance).ball.x <= UNIT - margin,
        margin <= spec_move_ball(board, ball, frame_time, chance).ball.y <= UNIT - margin,
        rectangular(
            spec_move_ball(board, ball, frame_time, chance).grid,
            board.tiles_x() - 1,
            board.tiles_x(),
        ),
{
    let start = advanced(board, ball, frame_time);
    let reach = reach_on(board, start.ball);
    lemma_reach_fits(board, start.ball.x, start.ball.y);
    lemma_advanced_on_course(board, margin, ball, frame_time, chance.order@);
    lemma_probes_keep_course(board, reach, margin, ball, start, chance, 4);
    lemma_every_probe_tried(chance);
}

/// The bounds invariant: after its move a ball lies in the world, and its
/// pixel lies on the board.
pub proof fn law_ball_stays_in_world(
    board: BoardView,
    ball: BallView,
    frame_time: int,
    chance: Chance,
)
    requires
        board.wf(),
        board.sized(),
        ball.wf(),
        chance.wf(),
        0 <= frame_time,
    ensures
        spec_move_ball(board, ball, frame_time, chance).ball.wf(),
        0 <= spec_move_ball(board, ball, frame_time, chance).ball.x <= UNIT,
        0 <= spec_move_ball(board, ball, frame_time, chance).ball.y <= UNIT,
        0 <= spec_to_pixels(spec_move_ball(board, ball, frame_time, chance).ball.x, board.width)
            < board.width,
        0 <= spec_to_pixels(spec_move_ball(board, ball, frame_time, chance).ball.y, board.height)
            < board.height,
{
    let after = spec_move_ball(board, ball, frame_time, chance);
    lemma_radius_bounds(board);
    law_ball_keeps_margin(board, ball, frame_time, chance, 0);
    lemma_extent_positive(board);
    lemma_to_pixels_bounds(after.ball.x, board.width);
    lemma_to_pixels_bounds(after.ball.y, board.height);
}

/// In the course of a frame the tiles keep their shape, and every ball stays
/// in the world.
pub proof fn lemma_frame_steps_keep(
    board: BoardView,
    start: FrameState,
    frame_time: int,
    chances: Seq<Chance>,
    count: nat,
)
    requires
        board.wf(),
        board.sized(),
        0 <= frame_time,
        start.grid == board.grid,
        views_wf(start.balls),
        chances_wf(chances, start.balls.len() as int),
        count <= start.balls.len(),
    ensures
        rectangular(
            frame_steps(board, start, frame_time, chances, count).grid,
            board.tiles_x() - 1,
            board.tiles_x(),
        ),
        views_wf(frame_steps(board, start, frame_time, chances, count).balls),
        frame_steps(board, start, frame_time, chances, count).balls.len() == start.balls.len(),
    decreases count,
{
    if count > 0 {
        lemma_frame_steps_keep(board, start, frame_time, chances, (count - 1) as nat);
        let before = frame_steps(board, start, frame_time, chances, (count - 1) as nat);
        let current = board.with_grid(before.grid);
        assert(current.tiles_x() == board.tiles_x());
        lemma_radius_bounds(current);
        law_ball_keeps_margin(current, before.balls[count - 1], frame_time, chances[count - 1], 0);
    }
}

/// The tile-count invariant: after a frame every tile belongs to gold or to
/// black, so the two scores add up to the number of tiles; the board has
/// kept its shape, and no ball has left the world or the population.
pub proof fn law_every_tile_owned(
    board: BoardView,
    balls: Seq<BallView>,
    frame_time: int,
    chances: Seq<Chance>,
)
    requires
        board.wf(),
        board.sized(),
        views_wf(balls),
        chances_wf(chances, balls.len() as int),
        0 <= frame_time,
    ensures
        tiles_owned(spec_step_frame(board, balls, frame_time, chances).grid, true) + tiles_owned(
            spec_step_frame(board, balls, frame_time, chances).grid,
            false,
        ) == (board.tiles_x() - 1) * board.tiles_x(),
        rectangular(
            spec_step_frame(board, balls, frame_time, chances).grid,
            board.tiles_x() - 1,
            board.tiles_x(),
        ),
        views_wf(spec_step_frame(board, balls, frame_time, chances).balls),
        spec_step_frame(board, balls, frame_time, chances).balls.len() == balls.len(),
{
    let start = FrameState { grid: board.grid, balls, events: FrameEvents::spec_none() };
    lemma_frame_steps_keep(board, start, frame_time, chances, balls.len());
    let after = spec_step_frame(board, balls, frame_time, chances);
    lemma_tiles_owned_total(after.grid, board.tiles_x() - 1, board.tiles_x());
}

/// Among the first `count` tiles of row `row` of a fresh board, gold owns
/// those up to the staircase and black the rest.
pub proof fn lemma_initial_row_counts(n: int, row: int, count: int)
    requires
        0 <= row <= n - 2,
        0 <= count <= n,
    ensures
        row_owned(initial_row(n, row).take(count), true) == if count <= n - 1 - row {
            count
        } else {
            n - 1 - row
        },
        row_owned(initial_row(n, row).take(count), true) + row_owned(
            initial_row(n, row).take(count),
            false,
        ) == count,
    decreases count,
{
    let tiles = initial_row(n, row);
    if count > 0 {
        lemma_initial_row_counts(n, row, count - 1);
        assert(tiles.take(count).drop_last() =~= tiles.take(count - 1));
        assert(tiles.take(count).last() == initial_tile(n, row, count - 1));
    }
}

/// Among the first `count` rows of a fresh board, gold owns one tile less
/// with every row and black one more.
pub proof fn lemma_initial_grid_counts(n: int, count: int)
    requires
        0 <= count <= n - 1,
    ensures
        2 * tiles_owned(initial_grid(n).take(count), true) == count * (2 * n - 1 - count),
        2 * tiles_owned(initial_grid(n).take(count), false) == count * (count + 1),
    decreases count,
{
    let grid = initial_grid(n);
    if count > 0 {
        lemma_initial_grid_counts(n, count - 1);
        lemma_initial_row_counts(n, count - 1, n);
        assert(grid.take(count).drop_last() =~= grid.take(count - 1));
        assert(grid.take(count).last() == initial_row(n, count - 1));
        assert(initial_row(n, count - 1).take(n) =~= initial_row(n, count - 1));
        assert((count - 1) * (2 * n - count) + 2 * (n - count) == count * (2 * n - 1 - count))
            by (nonlinear_arith);
        assert((count - 1) * count + 2 * count == count * (count + 1)) by (nonlinear_arith);
    } else {
        assert(grid.take(0) =~= Seq::<Seq<bool>>::empty());
    }
}

/// A fresh board is split evenly: gold and black each own half of the
/// tiles, whatever the number of tiles in a row.
pub proof fn law_fresh_board_split_evenly(n: int)
    requires
        n >= 2,
    ensures
        2 * tiles_owned(initial_grid(n), true) == (n - 1) * n,
        2 * tiles_owned(initial_grid(n), false) == (n - 1) * n,
        tiles_owned(initial_grid(n), true) == tiles_owned(initial_grid(n), false),
        rectangular(initial_grid(n), n - 1, n),
{
    lemma_initial_grid_counts(n, n - 1);
    assert(initial_grid(n).take(n - 1) =~= initial_grid(n));
    assert((n - 1) * (2 * n - 1 - (n - 1)) == (n - 1) * n) by (nonlinear_arith);
    assert((n - 1) * ((n - 1) + 1) == (n - 1) * n) by (nonlinear_arith);
}

/// The flip rule: a ball that moves towards a side, is not beyond the wall
/// there and feels a tile of its own colour turns that tile, and no other,
/// to the other colour. It rebounds: its direction on that axis now points
/// away from the side, the other component and the position are kept, and
/// the flip is reported for the ball's colour.
pub proof fn law_own_colour_flips(
    board: BoardView,
    reach: ReachView,
    before: Probing,
    probe: Probe,
    jitter: int,
)
    requires
        board.wf(),
        reach.fits(board),
        rectangular(before.grid, board.tiles_x() - 1, board.tiles_x()),
        -JITTER <= jitter <= JITTER,
        heads_towards(before.ball.direction, probe),
        !beyond_wall(reach.radius, before.ball.x, before.ball.y, probe),
        before.grid[probe_tile(board.width, board.tiles_x(), reach, probe).0][probe_tile(
            board.width,
            board.tiles_x(),
            reach,
            probe,
        ).1] == before.ball.bounce_on,
    ensures
        ({
            let after = probe_step(board.width, board.tiles_x(), reach, before, probe, jitter);
            let at = probe_tile(board.width, board.tiles_x(), reach, probe);
            &&& 0 <= at.0 < board.tiles_x() - 1
            &&& 0 <= at.1 < board.tiles_x()
            &&& after.grid[at.0][at.1] == !before.ball.bounce_on
            &&& forall|r: int, c: int|
                0 <= r < board.tiles_x() - 1 && 0 <= c < board.tiles_x() && (r != at.0 || c != at.1)
                    ==> #[trigger] after.grid[r][c] == before.grid[r][c]
            &&& !heads_towards(after.ball.direction, probe)
            &&& after.ball == rebound(before.ball, probe, jitter)
            &&& after.ball.x == before.ball.x
            &&& after.ball.y == before.ball.y
            &&& after.events == with_flip(before.events, before.ball.bounce_on)
        }),
{
    lemma_probe_tile_on_board(board, reach, probe);
}

/// The other half of the flip rule: a ball that moves towards a side, is
/// not beyond the wall there and feels a tile of the other colour passes on
/// unchanged, and so do the tiles.
pub proof fn law_other_colour_stays(
    width: int,
    tiles_x: int,
    reach: ReachView,
    before: Probing,
    probe: Probe,
    jitter: int,
)
    requires
        heads_towards(before.ball.direction, probe),
        !beyond_wall(reach.radius, before.ball.x, before.ball.y, probe),
        before.grid[probe_tile(width, tiles_x, reach, probe).0][probe_tile(
            width,
            tiles_x,
            reach,
            probe,
        ).1] != before.ball.bounce_on,
    ensures
        probe_step(width, tiles_x, reach, before, probe, jitter) == before,
{
}

/// The movement clamp: whatever the speeds and however long the frame, a
/// frame's movement is at most the cap for the board, a world width
/// divided by 2.1 times the number of tiles in a row.
pub proof fn law_movement_capped(max_speed: int, speed: int, frame_time: int, tiles_x: int)
    requires
        tiles_x >= 1,
    ensures
        spec_frame_movement(max_speed, speed, frame_time, tiles_x) <= movement_cap(tiles_x),
        movement_cap(tiles_x) * 21 * tiles_x <= 10 * UNIT,
{
    assert(((10 * 1_000_000int) / (21 * tiles_x)) * (21 * tiles_x) <= 10 * 1_000_000)
        by (nonlinear_arith)
        requires
            tiles_x >= 1,
    ;
    assert(movement_cap(tiles_x) * 21 * tiles_x == movement_cap(tiles_x) * (21 * tiles_x))
        by (nonlinear_arith);
}

/// The movement clamp on a ball's advance: however long the frame, a ball
/// advances along each axis by at most the cap scaled by its direction,
/// which is eleven tenths of the cap, and less than the fastest speed
/// divided by 2.1 times the number of tiles in a row.
pub proof fn law_advance_capped(board: BoardView, ball: BallView, frame_time: int)
    requires
        board.wf(),
        ball.wf(),
        0 <= frame_time,
    ensures
        10 * magnitude(advanced(board, ball, frame_time).ball.x - ball.x) <= 11 * movement_cap(
            board.tiles_x(),
        ),
        10 * magnitude(advanced(board, ball, frame_time).ball.y - ball.y) <= 11 * movement_cap(
            board.tiles_x(),
        ),
        magnitude(advanced(board, ball, frame_time).ball.x - ball.x) * 21 * board.tiles_x() <= 10
            * MOVEMENT_SPEED,
        magnitude(advanced(board, ball, frame_time).ball.y - ball.y) * 21 * board.tiles_x() <= 10
            * MOVEMENT_SPEED,
{
    let n = board.tiles_x();
    let cap = movement_cap(n);
    let movement = spec_frame_movement(MOVEMENT_SPEED as int, ball.speed, frame_time, n);
    law_movement_capped(MOVEMENT_SPEED as int, ball.speed, frame_time, n);
    lemma_movement_bounds(ball.speed, frame_time, n);
    lemma_advance_bound(movement, cap, ball.direction.0, n);
    lemma_advance_bound(movement, cap, ball.direction.1, n);
}

/// The movement clamp on a whole move: a ball that starts at least its
/// radius from every wall ends, along each axis, between where it started
/// and where it advanced to, so it is displaced by no more than its advance.
pub proof fn law_move_capped(board: BoardView, ball: BallView, frame_time: int, chance: Chance)
    requires
        board.wf(),
        board.sized(),
        ball.wf(),
        chance.wf(),
        0 <= frame_time,
        radius_on(board) <= ball.x <= UNIT - radius_on(board),
        radius_on(board) <= ball.y <= UNIT - radius_on(board),
    ensures
        between(
            ball.x,
            advanced(board, ball, frame_time).ball.x,
            spec_move_ball(board, ball, frame_time, chance).ball.x,
        ),
        between(
            ball.y,
            advanced(board, ball, frame_time).ball.y,
            spec_move_ball(board, ball, frame_time, chance).ball.y,
        ),
        10 * magnitude(spec_move_ball(board, ball, frame_time, chance).ball.x - ball.x) <= 11
            * movement_cap(board.tiles_x()),
        10 * magnitude(spec_move_ball(board, ball, frame_time, chance).ball.y - ball.y) <= 11
            * movement_cap(board.tiles_x()),
        magnitude(spec_move_ball(board, ball, frame_time, chance).ball.x - ball.x) * 21
            * board.tiles_x() <= 10 * MOVEMENT_SPEED,
        magnitude(spec_move_ball(board, ball, frame_time, chance).ball.y - ball.y) * 21
            * board.tiles_x() <= 10 * MOVEMENT_SPEED,
{
    let start = advanced(board, ball, frame_time);
    let reach = reach_on(board, start.ball);
    let after = spec_move_ball(board, ball, frame_time, chance);
    let n = board.tiles_x();
    lemma_reach_fits(board, start.ball.x, start.ball.y);
    lemma_advanced_on_course(board, 0, ball, frame_time, chance.order@);
    lemma_probes_keep_course(board, reach, 0, ball, start, chance, 4);
    law_advance_capped(board, ball, frame_time);
    let dx = magnitude(after.ball.x - ball.x);
    let ax = magnitude(start.ball.x - ball.x);
    let dy = magnitude(after.ball.y - ball.y);
    let ay = magnitude(start.ball.y - ball.y);
    assert(dx <= ax && dy <= ay);
    assert(dx * 21 * n <= ax * 21 * n && dy * 21 * n <= ay * 21 * n) by (nonlinear_arith)
        requires
            0 <= dx <= ax,
            0 <= dy <= ay,
            n >= 2,
    ;
}

/// Determinism: a frame is decided by the board, the balls in their order,
/// the frame time and what chance decided. Two runs that agree on these end
/// with the same tiles, the same balls and the same events.
pub proof fn law_same_chance_same_frame(
    board: BoardView,
    balls: Seq<BallView>,
    frame_time: int,
    chances: Seq<Chance>,
    board_one: BoardView,
    balls_one: Seq<BallView>,
    events_one: FrameEvents,
    board_two: BoardView,
    balls_two: Seq<BallView>,
    events_two: FrameEvents,
)
    requires
        frame_outcome(board, balls, frame_time, chances, board_one, balls_one, events_one),
        frame_outcome(board, balls, frame_time, chances, board_two, balls_two, events_two),
    ensures
        board_one == board_two,
        balls_one == balls_two,
        events_one == events_two,
{
}

} // verus!
