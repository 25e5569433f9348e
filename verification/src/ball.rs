//! The balls, the four probes by which a ball feels for walls and tiles, and
//! what one frame reports of its bounces.

use vstd::prelude::*;
use quad_rand::RandGenerator;
use crate::random::{draw_between, shuffle_probes};
use crate::units::{JITTER, SPEED_MAX, SPEED_MIN, UNIT};

verus! {

/// One of the four sides on which a ball feels for a wall or a tile.
#[derive(Clone, Copy, Debug, PartialEq, Eq, Structural)]
pub enum Probe {
    /// Towards smaller `y`.
    Up,
    /// Towards larger `y`.
    Down,
    /// Towards smaller `x`.
    Left,
    /// Towards larger `x`.
    Right,
}

/// The four probes in their unshuffled order.
pub open spec fn all_probes() -> Seq<Probe> {
    seq![Probe::Up, Probe::Down, Probe::Left, Probe::Right]
}

/// `order` tries each of the four probes.
pub open spec fn tries_every_probe(order: Seq<Probe>) -> bool {
    &&& order.contains(Probe::Up)
    &&& order.contains(Probe::Down)
    &&& order.contains(Probe::Left)
    &&& order.contains(Probe::Right)
}

/// A component of a direction is one, in either sense, scaled by at most the
/// jitter of a rebound.
pub open spec fn direction_ok(component: int) -> bool {
    ||| UNIT - JITTER <= component <= UNIT + JITTER
    ||| -(UNIT + JITTER) <= component <= -(UNIT - JITTER)
}

/// A ball: a square body that moves across the world and turns the tiles of
/// its own colour that it touches.
#[derive(Clone, Copy, Debug, PartialEq, Eq)]
pub struct Ball {
    /// Side of the body in pixels: the width of a tile at the last move.
    pub size: u32,
    /// Direction of travel along `x` and `y`.
    pub direction: (i64, i64),
    /// Speed as a fraction of the fastest ball's.
    pub speed: u32,
    /// Horizontal position in the world.
    pub x: i64,
    /// Vertical position in the world.
    pub y: i64,
    /// The colour of tile that this ball bounces on and turns: `true` is gold.
    pub bounce_on: bool,
}

/// The mathematical value of a ball.
pub struct BallView {
    /// Side of the body in pixels.
    pub size: int,
    /// Direction of travel along `x` and `y`.
    pub direction: (int, int),
    /// Speed as a fraction of the fastest ball's.
    pub speed: int,
    /// Horizontal position in the world.
    pub x: int,
    /// Vertical position in the world.
    pub y: int,
    /// The colour of tile that this ball bounces on and turns.
    pub bounce_on: bool,
}

impl BallView {
    /// The ball lies in the world and moves along both axes.
    pub open spec fn wf(self) -> bool {
        &&& 0 <= self.x <= UNIT
        &&& 0 <= self.y <= UNIT
        &&& direction_ok(self.direction.0)
        &&& direction_ok(self.direction.1)
        &&& 0 <= self.speed
    }
}

impl View for Ball {
    type V = BallView;

    open spec fn view(&self) -> BallView {
        BallView {
            size: self.size as int,
            direction: (self.direction.0 as int, self.direction.1 as int),
            speed: self.speed as int,
            x: self.x as int,
            y: self.y as int,
            bounce_on: self.bounce_on,
        }
    }
}

impl Ball {
    /// The ball lies in the world and moves along both axes.
    pub open spec fn wf(&self) -> bool {
        self@.wf()
    }

    /// A ball at (`x`, `y`) of the given colour, with a sense of travel along
    /// each axis and a speed drawn from `generator`.
    pub fn new(bounce_on: bool, x: i64, y: i64, generator: &RandGenerator) -> (ball: Ball)
        ensures
            ball.size == 10,
            ball.direction.0 == UNIT || ball.direction.0 == -UNIT,
            ball.direction.1 == UNIT || ball.direction.1 == -UNIT,
            SPEED_MIN <= ball.speed < SPEED_MAX,
            ball.x == x,
            ball.y == y,
            ball.bounce_on == bounce_on,
            0 <= x <= UNIT && 0 <= y <= UNIT ==> ball.wf(),
    {
        let heads_left: bool = draw_between(generator, 0, 2) == 0;
        let heads_up: bool = draw_between(generator, 0, 2) == 0;
        let speed: i64 = draw_between(generator, SPEED_MIN as i64, SPEED_MAX as i64);
        Ball::with_draws(bounce_on, x, y, heads_left, heads_up, speed as u32)
    }

    /// A ball at (`x`, `y`) of the given colour, speed and sense of travel:
    /// it moves left if `heads_left`, else right, and up if `heads_up`, else
    /// down.
    pub fn with_draws(
        bounce_on: bool,
        x: i64,
        y: i64,
        heads_left: bool,
        heads_up: bool,
        speed: u32,
    ) -> (ball: Ball)
        ensures
            ball.size == 10,
            ball.direction.0 == if heads_left { -UNIT } else { UNIT as int },
            ball.direction.1 == if heads_up { -UNIT } else { UNIT as int },
            ball.speed == speed,
            ball.x == x,
            ball.y == y,
            ball.bounce_on == bounce_on,
            0 <= x <= UNIT && 0 <= y <= UNIT ==> ball.wf(),
    {
        let direction_x: i64 = if heads_left { -1_000_000 } else { 1_000_000 };
        let direction_y: i64 = if heads_up { -1_000_000 } else { 1_000_000 };
        Ball { size: 10, direction: (direction_x, direction_y), speed, x, y, bounce_on }
    }
}

/// What happened in a frame, for whoever plays the sounds.
#[derive(Clone, Copy, Debug, PartialEq, Eq, Structural)]
pub struct FrameEvents {
    /// A ball hit a wall of the world.
    pub wall_hit: bool,
    /// A gold ball turned a tile.
    pub gold_flip: bool,
    /// A black ball turned a tile.
    pub black_flip: bool,
}

impl FrameEvents {
    /// Nothing happened.
    pub open spec fn spec_none() -> FrameEvents {
        FrameEvents { wall_hit: false, gold_flip: false, black_flip: false }
    }

    /// What happened in either of two stretches of a frame.
    pub open spec fn spec_merge(self, other: FrameEvents) -> FrameEvents {
        FrameEvents {
            wall_hit: self.wall_hit || other.wall_hit,
            gold_flip: self.gold_flip || other.gold_flip,
            black_flip: self.black_flip || other.black_flip,
        }
    }

    /// Nothing happened.
    pub fn none() -> (events: FrameEvents)
        ensures
            events == FrameEvents::spec_none(),
    {
        FrameEvents { wall_hit: false, gold_flip: false, black_flip: false }
    }

    /// What happened in either of two stretches of a frame.
    pub fn merge(self, other: FrameEvents) -> (events: FrameEvents)
        ensures
            events == self.spec_merge(other),
    {
        FrameEvents {
            wall_hit: self.wall_hit || other.wall_hit,
            gold_flip: self.gold_flip || other.gold_flip,
            black_flip: self.black_flip || other.black_flip,
        }
    }
}

/// What chance decides for one ball in one frame.
#[derive(Clone, Copy, Debug, PartialEq, Eq)]
pub struct Chance {
    /// The order in which the four probes are tried.
    pub order: [Probe; 4],
    /// The jitter of the rebound at each try, should the ball bounce there.
    pub jitter: [i64; 4],
}

impl Chance {
    /// Every probe is tried and every jitter is at most a tenth.
    pub open spec fn wf(&self) -> bool {
        &&& tries_every_probe(self.order@)
        &&& forall|k: int| 0 <= k < 4 ==> -JITTER <= #[trigger] self.jitter@[k] <= JITTER
    }

    /// The four probes in an order shuffled by `generator`, and four jitters
    /// drawn from it.
    pub fn draw(generator: &RandGenerator) -> (chance: Chance)
        ensures
            chance.wf(),
            chance.order@.to_multiset() == all_probes().to_multiset(),
    {
        let mut order: [Probe; 4] = [Probe::Up, Probe::Down, Probe::Left, Probe::Right];
        assert(order@ =~= all_probes());
        shuffle_probes(generator, &mut order);
        proof {
            lemma_shuffled_tries_every_probe(order@);
        }
        let mut jitter: [i64; 4] = [0, 0, 0, 0];
        let mut k: usize = 0;
        while k < 4
            invariant
                0 <= k <= 4,
                forall|j: int| 0 <= j < 4 ==> -JITTER <= #[trigger] jitter@[j] <= JITTER,
            decreases 4 - k,
        {
            jitter[k] = draw_between(generator, -JITTER, JITTER);
            k += 1;
        }
        Chance { order, jitter }
    }
}

/// A shuffle of the four probes tries each of them.
pub proof fn lemma_shuffled_tries_every_probe(order: Seq<Probe>)
    requires
        order.to_multiset() == all_probes().to_multiset(),
    ensures
        tries_every_probe(order),
        order.len() == 4,
{
    order.to_multiset_ensures();
    all_probes().to_multiset_ensures();
    assert(all_probes()[0] == Probe::Up && all_probes().contains(Probe::Up));
    assert(all_probes()[1] == Probe::Down && all_probes().contains(Probe::Down));
    assert(all_probes()[2] == Probe::Left && all_probes().contains(Probe::Left));
    assert(all_probes()[3] == Probe::Right && all_probes().contains(Probe::Right));
    assert(order.to_multiset().count(Probe::Up) > 0);
    assert(order.to_multiset().count(Probe::Down) > 0);
    assert(order.to_multiset().count(Probe::Left) > 0);
    assert(order.to_multiset().count(Probe::Right) > 0);
}

} // verus!
