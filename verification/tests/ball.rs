use black_gold::ball::{Ball, Chance, FrameEvents, Probe};
use black_gold::frame::seeded_generator;
use black_gold::units::{JITTER, SPEED_MAX, SPEED_MIN, UNIT};

#[test]
fn with_draws_sets_every_field() {
    let ball = Ball::with_draws(true, 750_000, 250_000, true, false, 800_000);
    assert_eq!(
        ball,
        Ball {
            size: 10,
            direction: (-UNIT, UNIT),
            speed: 800_000,
            x: 750_000,
            y: 250_000,
            bounce_on: true,
        }
    );
    let ball = Ball::with_draws(false, 1, 2, false, true, 0);
    assert_eq!(ball.direction, (UNIT, -UNIT));
    assert!(!ball.bounce_on);
}

#[test]
fn new_ball_keeps_place_and_colour() {
    let generator = seeded_generator(1);
    for i in 0..200 {
        let ball = Ball::new(i % 2 == 0, 10 * i, 1_000 * i, &generator);
        assert_eq!((ball.x, ball.y), (10 * i, 1_000 * i));
        assert_eq!(ball.bounce_on, i % 2 == 0);
        assert_eq!(ball.size, 10);
    }
}

#[test]
fn new_ball_draws_direction_and_speed() {
    let generator = seeded_generator(2);
    let mut left = 0;
    let mut up = 0;
    let mut speeds = Vec::new();
    for _ in 0..400 {
        let ball = Ball::new(true, 0, 0, &generator);
        assert!(ball.direction.0 == UNIT || ball.direction.0 == -UNIT);
        assert!(ball.direction.1 == UNIT || ball.direction.1 == -UNIT);
        assert!(SPEED_MIN <= ball.speed && ball.speed < SPEED_MAX);
        if ball.direction.0 < 0 {
            left += 1;
        }
        if ball.direction.1 < 0 {
            up += 1;
        }
        speeds.push(ball.speed);
    }
    // both senses occur, and the speeds are not all the same
    assert!(0 < left && left < 400);
    assert!(0 < up && up < 400);
    assert!(speeds.iter().any(|&speed| speed != speeds[0]));
}

#[test]
fn drawn_chance_tries_every_probe_once() {
    let generator = seeded_generator(3);
    let mut orders = Vec::new();
    for _ in 0..200 {
        let chance = Chance::draw(&generator);
        for probe in [Probe::Up, Probe::Down, Probe::Left, Probe::Right] {
            assert_eq!(chance.order.iter().filter(|&&tried| tried == probe).count(), 1);
        }
        for jitter in chance.jitter {
            assert!(-JITTER <= jitter && jitter <= JITTER);
        }
        orders.push(chance.order);
    }
    // the order is shuffled: it is not always the unshuffled one
    assert!(orders
        .iter()
        .any(|&order| order != [Probe::Up, Probe::Down, Probe::Left, Probe::Right]));
}

#[test]
fn drawn_jitter_varies() {
    let generator = seeded_generator(4);
    let first = Chance::draw(&generator);
    let mut differs = false;
    for _ in 0..50 {
        if Chance::draw(&generator).jitter != first.jitter {
            differs = true;
        }
    }
    assert!(differs);
}

#[test]
fn events_merge_by_or() {
    let wall = FrameEvents { wall_hit: true, gold_flip: false, black_flip: false };
    let black = FrameEvents { wall_hit: false, gold_flip: false, black_flip: true };
    assert_eq!(
        wall.merge(black),
        FrameEvents { wall_hit: true, gold_flip: false, black_flip: true }
    );
    assert_eq!(FrameEvents::none().merge(FrameEvents::none()), FrameEvents::none());
    assert_eq!(
        FrameEvents::none(),
        FrameEvents { wall_hit: false, gold_flip: false, black_flip: false }
    );
    let gold = FrameEvents { wall_hit: false, gold_flip: true, black_flip: false };
    assert_eq!(gold.merge(FrameEvents::none()), gold);
    assert_eq!(FrameEvents::none().merge(gold), gold);
}
