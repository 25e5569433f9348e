//! A frame of the simulation: every ball moves in turn on the shared board,
//! and the frame reports what happened to any of them.

use vstd::prelude::*;
use quad_rand::RandGenerator;
use crate::ball::{Ball, BallView, Chance, FrameEvents};
use crate::board::{Board, BoardView};
use crate::bounce::{move_ball_with, spec_move_ball};
use crate::random::{draw_between, interleave_balls, interleaved};
use crate::units::{SPEED_MAX, SPEED_MIN, START_FIELD_SIZE, UNIT};

verus! {

/// The tiles, the balls and the events in the course of a frame.
pub struct FrameState {
    /// The tiles, row by row.
    pub grid: Seq<Seq<bool>>,
    /// The balls, in the order in which they move.
    pub balls: Seq<BallView>,
    /// What has happened so far.
    pub events: FrameEvents,
}

/// The mathematical values of `balls`.
pub open spec fn ball_views(balls: Seq<Ball>) -> Seq<BallView> {
    Seq::new(balls.len(), |i: int| balls[i]@)
}

/// All of `balls` are well formed.
pub open spec fn balls_wf(balls: Seq<Ball>) -> bool {
    forall|i: int| 0 <= i < balls.len() ==> (#[trigger] balls[i]).wf()
}

/// All of `chances` are well formed, and there is one for each of `count`
/// balls.
pub open spec fn chances_wf(chances: Seq<Chance>, count: int) -> bool {
    &&& chances.len() == count
    &&& forall|i: int| 0 <= i < count ==> (#[trigger] chances[i]).wf()
}

/// The frame after the first `count` balls have moved, each on the tiles as
/// the balls before it left them.
pub open spec fn frame_steps(
    board: BoardView,
    start: FrameState,
    frame_time: int,
    chances: Seq<Chance>,
    count: nat,
) -> FrameState
    decreases count,
{
    if count == 0 {
        start
    } else {
        let before = frame_steps(board, start, frame_time, chances, (count - 1) as nat);
        let moved = spec_move_ball(
            board.with_grid(before.grid),
            before.balls[count - 1],
            frame_time,
            chances[count - 1],
        );
        FrameState {
            grid: moved.grid,
            balls: before.balls.update(count - 1, moved.ball),
            events: before.events.spec_merge(moved.events),
        }
    }
}

/// A whole frame of `frame_time`: every ball has moved, in order.
pub open spec fn spec_step_frame(
    board: BoardView,
    balls: Seq<BallView>,
    frame_time: int,
    chances: Seq<Chance>,
) -> FrameState {
    frame_steps(
        board,
        FrameState { grid: board.grid, balls, events: FrameEvents::spec_none() },
        frame_time,
        chances,
        balls.len(),
    )
}

/// A frame of `frame_time` with `chances` leads from `board` and `balls` to
/// `board_after` and `balls_after` and reports `events`: the tiles, the balls
/// and the events are those of `spec_step_frame`, and the board keeps its
/// extent.
pub open spec fn frame_outcome(
    board: BoardView,
    balls: Seq<BallView>,
    frame_time: int,
    chances: Seq<Chance>,
    board_after: BoardView,
    balls_after: Seq<BallView>,
    events: FrameEvents,
) -> bool {
    let after = spec_step_frame(board, balls, frame_time, chances);
    &&& board_after == board.with_grid(after.grid)
    &&& balls_after == after.balls
    &&& events == after.events
}

/// Moves every ball through one frame of `frame_time`, in the order of
/// `balls`, the `i`-th with the `i`-th of `chances`, and reports whether any
/// of them hit a wall and whether a gold or a black ball turned a tile.
pub fn step_frame_with(
    board: &mut Board,
    balls: &mut Vec<Ball>,
    frame_time: u32,
    chances: &Vec<Chance>,
) -> (events: FrameEvents)
    requires
        old(board).wf(),
        old(board).sized(),
        balls_wf(old(balls)@),
        chances_wf(chances@, old(balls)@.len() as int),
    ensures
        frame_outcome(
            old(board)@,
            ball_views(old(balls)@),
            frame_time as int,
            chances@,
            final(board)@,
            ball_views(final(balls)@),
            events,
        ),
        final(board).wf(),
        final(board).sized(),
        final(board).spec_tiles_x() == old(board).spec_tiles_x(),
        balls_wf(final(balls)@),
        final(balls)@.len() == old(balls)@.len(),
{
    let ghost board0 = *board;
    let ghost balls0 = balls@;
    let ghost start = FrameState {
        grid: board0@.grid,
        balls: ball_views(balls0),
        events: FrameEvents::spec_none(),
    };
    let mut events: FrameEvents = FrameEvents::none();
    let count: usize = balls.len();
    let mut i: usize = 0;
    while i < count
        invariant
            0 <= i <= count,
            count == balls@.len(),
            count == balls0.len(),
            chances_wf(chances@, count as int),
            board.wf(),
            board.sized(),
            board.spec_tiles_x() == board0.spec_tiles_x(),
            balls_wf(balls@),
            board@ == board0@.with_grid(board@.grid),
            (FrameState { grid: board@.grid, balls: ball_views(balls@), events }) == frame_steps(
                board0@,
                start,
                frame_time as int,
                chances@,
                i as nat,
            ),
        decreases count - i,
    {
        let ghost before = balls@;
        let ghost board_before = *board;
        let moved: FrameEvents = move_ball_with(board, &mut balls[i], frame_time, &chances[i]);
        events = events.merge(moved);
        proof {
            assert(board_before@ == board0@.with_grid(board_before@.grid));
            assert(ball_views(balls@) =~= ball_views(before).update(i as int, balls@[i as int]@));
            assert(ball_views(before)[i as int] == before[i as int]@);
        }
        i += 1;
    }
    events
}

/// Moves every ball through one frame of `frame_time`, in the order of
/// `balls`, with the chance of each drawn from `generator`.
///
/// Whatever was drawn, the frame is that of `step_frame_with` for some
/// well-formed chances.
pub fn step_frame(
    board: &mut Board,
    balls: &mut Vec<Ball>,
    frame_time: u32,
    generator: &RandGenerator,
) -> (events: FrameEvents)
    requires
        old(board).wf(),
        old(board).sized(),
        balls_wf(old(balls)@),
    ensures
        exists|chances: Seq<Chance>|
            chances_wf(chances, old(balls)@.len() as int) && #[trigger] frame_outcome(
                old(board)@,
                ball_views(old(balls)@),
                frame_time as int,
                chances,
                final(board)@,
                ball_views(final(balls)@),
                events,
            ),
        final(board).wf(),
        final(board).sized(),
        final(board).spec_tiles_x() == old(board).spec_tiles_x(),
        balls_wf(final(balls)@),
        final(balls)@.len() == old(balls)@.len(),
{
    let count: usize = balls.len();
    let mut chances: Vec<Chance> = Vec::new();
    let mut i: usize = 0;
    while i < count
        invariant
            0 <= i <= count,
            chances_wf(chances@, i as int),
        decreases count - i,
    {
        chances.push(Chance::draw(generator));
        i += 1;
    }
    step_frame_with(board, balls, frame_time, &chances)
}

/// A generator of pseudo-random numbers that starts from `seed`.
pub fn seeded_generator(seed: u64) -> RandGenerator {
    let generator: RandGenerator = RandGenerator::new();
    generator.srand(seed);
    generator
}

/// `ball` is a fresh ball of the given colour within `spread` of the centre
/// (`centre_x`, `centre_y`) along each axis.
pub open spec fn in_cluster(
    ball: Ball,
    bounce_on: bool,
    centre_x: int,
    centre_y: int,
    spread: int,
) -> bool {
    &&& ball.wf()
    &&& ball.bounce_on == bounce_on
    &&& centre_x - spread <= ball.x < centre_x + spread
    &&& centre_y - spread <= ball.y < centre_y + spread
    &&& ball.direction.0 == UNIT || ball.direction.0 == -UNIT
    &&& ball.direction.1 == UNIT || ball.direction.1 == -UNIT
    &&& SPEED_MIN <= ball.speed < SPEED_MAX
    &&& ball.size == 10
}

/// `balls` are `count` fresh balls of one cluster.
pub open spec fn is_cluster(
    balls: Seq<Ball>,
    count: int,
    bounce_on: bool,
    centre_x: int,
    centre_y: int,
    spread: int,
) -> bool {
    &&& balls.len() == count
    &&& forall|i: int|
        0 <= i < count ==> in_cluster(#[trigger] balls[i], bounce_on, centre_x, centre_y, spread)
}

/// `count` fresh balls of the given colour, each placed by `generator`
/// within `spread` of the centre along each axis.
pub fn spawn_cluster(
    generator: &RandGenerator,
    count: usize,
    bounce_on: bool,
    centre_x: i64,
    centre_y: i64,
    spread: i64,
) -> (balls: Vec<Ball>)
    requires
        0 < spread,
        spread <= centre_x,
        centre_x + spread <= UNIT,
        spread <= centre_y,
        centre_y + spread <= UNIT,
    ensures
        is_cluster(balls@, count as int, bounce_on, centre_x as int, centre_y as int, spread as int),
{
    let mut balls: Vec<Ball> = Vec::new();
    let mut i: usize = 0;
    while i < count
        invariant
            0 <= i <= count,
            0 < spread,
            spread <= centre_x,
            centre_x + spread <= UNIT,
            spread <= centre_y,
            centre_y + spread <= UNIT,
            is_cluster(balls@, i as int, bounce_on, centre_x as int, centre_y as int, spread as int),
        decreases count - i,
    {
        let x: i64 = centre_x + draw_between(generator, -spread, spread);
        let y: i64 = centre_y + draw_between(generator, -spread, spread);
        balls.push(Ball::new(bounce_on, x, y, generator));
        i += 1;
    }
    balls
}

/// Interleaving keeps every item: the result is as long as both together.
pub proof fn lemma_interleaved_len<T>(a: Seq<T>, b: Seq<T>)
    ensures
        interleaved(a, b).len() == a.len() + b.len(),
    decreases a.len() + b.len(),
{
    if a.len() > 0 {
        lemma_interleaved_len(b, a.drop_first());
    }
}

/// While both sequences last, an interleaving takes its items in turn: the
/// `i`-th of `a` stands at place `2 * i`, the `i`-th of `b` right after it.
pub proof fn lemma_interleaved_alternates<T>(a: Seq<T>, b: Seq<T>, i: int)
    requires
        0 <= i < a.len(),
        i <= b.len(),
    ensures
        interleaved(a, b)[2 * i] == a[i],
        i < b.len() ==> interleaved(a, b)[2 * i + 1] == b[i],
    decreases a.len() + b.len(),
{
    let rest = interleaved(b, a.drop_first());
    lemma_interleaved_len(a, b);
    lemma_interleaved_len(b, a.drop_first());
    if i > 0 {
        assert(interleaved(a, b)[2 * i] == rest[2 * (i - 1) + 1]);
        lemma_interleaved_alternates(b, a.drop_first(), i - 1);
        assert(a.drop_first()[i - 1] == a[i]);
    }
    if i < b.len() {
        assert(interleaved(a, b)[2 * i + 1] == rest[2 * i]);
        lemma_interleaved_alternates(b, a.drop_first(), i);
    }
}

/// Every item of an interleaving comes from one of the two sequences.
pub proof fn lemma_interleaved_from<T>(a: Seq<T>, b: Seq<T>, i: int)
    requires
        0 <= i < interleaved(a, b).len(),
    ensures
        a.contains(interleaved(a, b)[i]) || b.contains(interleaved(a, b)[i]),
    decreases a.len() + b.len(),
{
    if a.len() == 0 {
        assert(b[i] == interleaved(a, b)[i]);
    } else if i == 0 {
        assert(a[0] == interleaved(a, b)[0]);
    } else {
        let rest = interleaved(b, a.drop_first());
        lemma_interleaved_len(a, b);
        lemma_interleaved_len(b, a.drop_first());
        assert(interleaved(a, b)[i] == rest[i - 1]);
        lemma_interleaved_from(b, a.drop_first(), i - 1);
        if a.drop_first().contains(rest[i - 1]) {
            let j = choose|j: int| 0 <= j < a.drop_first().len() && a.drop_first()[j] == rest[i - 1];
            assert(a[j + 1] == rest[i - 1]);
        }
    }
}

/// The balls of `first` and `second` in turn, starting with `first`; once one
/// has run out, the rest of the other.
pub fn mix(first: Vec<Ball>, second: Vec<Ball>) -> (mixed: Vec<Ball>)
    ensures
        mixed@ == interleaved(first@, second@),
        mixed@.len() == first@.len() + second@.len(),
        forall|i: int|
            0 <= i < first@.len() && i < second@.len() ==> mixed@[2 * i] == #[trigger] first@[i]
                && mixed@[2 * i + 1] == second@[i],
        balls_wf(first@) && balls_wf(second@) ==> balls_wf(mixed@),
{
    let ghost a = first@;
    let ghost b = second@;
    let mixed: Vec<Ball> = interleave_balls(first, second);
    proof {
        lemma_interleaved_len(a, b);
        assert forall|i: int| 0 <= i < a.len() && i < b.len() implies mixed@[2 * i] == #[trigger] a[i]
            && mixed@[2 * i + 1] == b[i] by {
            lemma_interleaved_alternates(a, b, i);
        }
        if balls_wf(a) && balls_wf(b) {
            assert forall|i: int| 0 <= i < mixed@.len() implies (#[trigger] mixed@[i]).wf() by {
                lemma_interleaved_from(a, b, i);
            }
        }
    }
    mixed
}

/// Horizontal and vertical centre of the cluster in which the gold balls
/// start.
pub const GOLD_START: i64 = 750_000;

/// Horizontal and vertical centre of the cluster in which the black balls
/// start.
pub const BLACK_START: i64 = 250_000;

/// The starting population: `num_gold` gold balls around the lower right
/// quarter point and `num_black` black balls around the upper left one, each
/// placed by `generator`, taking turns in the order of play, gold first.
pub fn populate(generator: &RandGenerator, num_gold: usize, num_black: usize) -> (balls: Vec<Ball>)
    ensures
        exists|gold: Seq<Ball>, black: Seq<Ball>|
            {
                &&& is_cluster(
                    gold,
                    num_gold as int,
                    true,
                    GOLD_START as int,
                    GOLD_START as int,
                    START_FIELD_SIZE as int,
                )
                &&& is_cluster(
                    black,
                    num_black as int,
                    false,
                    BLACK_START as int,
                    BLACK_START as int,
                    START_FIELD_SIZE as int,
                )
                &&& balls@ == #[trigger] interleaved(gold, black)
            },
        balls@.len() == num_gold + num_black,
        balls_wf(balls@),
{
    let black: Vec<Ball> = spawn_cluster(
        generator,
        num_black,
        false,
        BLACK_START,
        BLACK_START,
        START_FIELD_SIZE,
    );
    let gold: Vec<Ball> = spawn_cluster(
        generator,
        num_gold,
        true,
        GOLD_START,
        GOLD_START,
        START_FIELD_SIZE,
    );
    mix(gold, black)
}

} // verus!
