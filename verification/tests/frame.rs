use black_gold::ball::{Ball, Chance, FrameEvents, Probe};
use black_gold::board::Board;
use black_gold::frame::{
    mix, populate, seeded_generator, spawn_cluster, step_frame, step_frame_with, BLACK_START,
    GOLD_START,
};
use black_gold::units::{
    to_pixels, NUM_BLACK_BALLS, NUM_GOLD_BALLS, SPEED_MAX, SPEED_MIN, START_FIELD_SIZE, UNIT,
};

fn small_board() -> Board {
    let mut board = Board::new(3);
    board.resize(300);
    board
}

fn chance() -> Chance {
    Chance { order: [Probe::Right, Probe::Up, Probe::Left, Probe::Down], jitter: [5, 6, 7, 8] }
}

fn ball(bounce_on: bool, x: i64, y: i64) -> Ball {
    Ball::with_draws(bounce_on, x, y, false, true, 1_000_000)
}

fn marked(bounce_on: bool, speed: u32) -> Ball {
    Ball::with_draws(bounce_on, 0, 0, false, false, speed)
}

#[test]
fn frame_without_balls_changes_nothing() {
    let mut board = small_board();
    let mut balls: Vec<Ball> = Vec::new();
    let events = step_frame_with(&mut board, &mut balls, 3_500, &Vec::new());
    assert_eq!(events, FrameEvents::none());
    assert_eq!(board.tiles, vec![vec![true, true, false], vec![true, false, false]]);
    assert!(balls.is_empty());
}

#[test]
fn later_ball_sees_what_the_earlier_one_turned() {
    // black first: it turns (0, 2) to gold; the gold ball turns it back,
    // heads left and turns (0, 1) as well
    let mut board = small_board();
    let mut balls = vec![ball(false, 750_000, 250_000), ball(true, 750_000, 250_000)];
    let events = step_frame_with(&mut board, &mut balls, 0, &vec![chance(), chance()]);
    assert_eq!(board.tiles, vec![vec![true, false, false], vec![true, false, false]]);
    assert_eq!(events, FrameEvents { wall_hit: false, gold_flip: true, black_flip: true });
    assert_eq!(balls[0].direction, (-1_000_005, -UNIT));
    assert_eq!(balls[1].direction, (1_000_007, -UNIT));
}

#[test]
fn order_of_the_balls_decides_a_contested_tile() {
    // gold first: it passes over the black tile, which the black ball then turns
    let mut board = small_board();
    let mut balls = vec![ball(true, 750_000, 250_000), ball(false, 750_000, 250_000)];
    let events = step_frame_with(&mut board, &mut balls, 0, &vec![chance(), chance()]);
    assert_eq!(board.tiles, vec![vec![true, true, true], vec![true, false, false]]);
    assert_eq!(events, FrameEvents { wall_hit: false, gold_flip: false, black_flip: true });
    assert_eq!(balls[0].direction, (UNIT, -UNIT));
    assert_eq!(balls[1].direction, (-1_000_005, -UNIT));
}

#[test]
fn frame_reports_what_happened_to_any_ball() {
    let mut board = small_board();
    let mut balls = vec![
        ball(true, 500_000, 500_000),
        ball(true, 900_000, 500_000),
        ball(true, 500_000, 600_000),
    ];
    let events =
        step_frame_with(&mut board, &mut balls, 0, &vec![chance(), chance(), chance()]);
    // the first turns the gold tile above it, the second hits the right wall,
    // the third finds nothing left to turn
    assert_eq!(events, FrameEvents { wall_hit: true, gold_flip: true, black_flip: false });
    assert_eq!(board.tiles, vec![vec![true, false, false], vec![true, false, false]]);
    assert_eq!(balls[0].direction, (UNIT, 1_000_006));
    assert_eq!(balls[1].x, 833_334);
    assert_eq!(balls[1].direction, (-1_000_005, -UNIT));
    assert_eq!(balls[2].direction, (UNIT, -UNIT));
    assert_eq!(balls.len(), 3);
}

#[test]
fn every_ball_takes_the_size_of_a_tile() {
    let mut board = Board::new(50);
    board.resize(750);
    let mut balls = vec![ball(true, 750_000, 750_000), ball(false, 250_000, 250_000)];
    step_frame_with(&mut board, &mut balls, 3_500, &vec![chance(), chance()]);
    assert!(balls.iter().all(|ball| ball.size == 15));
}

#[test]
fn same_chance_gives_the_same_frame() {
    let run = || {
        let mut board = small_board();
        let mut balls = vec![ball(false, 750_000, 250_000), ball(true, 300_000, 700_000)];
        let mut all = Vec::new();
        for frame in 0..200 {
            let order = if frame % 2 == 0 {
                [Probe::Right, Probe::Up, Probe::Left, Probe::Down]
            } else {
                [Probe::Down, Probe::Left, Probe::Up, Probe::Right]
            };
            let jitter = [frame * 37 % 100_000, -(frame * 91 % 100_000), 100_000, -100_000];
            let chances = vec![Chance { order, jitter }, Chance { order, jitter }];
            all.push(step_frame_with(&mut board, &mut balls, 3_500, &chances));
        }
        (board.tiles, balls, all)
    };
    assert_eq!(run(), run());
}

#[test]
fn same_seed_gives_the_same_run() {
    let run = |seed: u64| {
        let generator = seeded_generator(seed);
        let mut board = Board::new(10);
        board.resize(400);
        let mut balls = populate(&generator, 5, 5);
        let mut all = Vec::new();
        for _ in 0..500 {
            all.push(step_frame(&mut board, &mut balls, 3_500, &generator));
        }
        (board.tiles, balls, all)
    };
    let first = run(12_345);
    assert_eq!(first, run(12_345));
    assert_ne!(first.1, run(54_321).1);
}

#[test]
fn every_tile_stays_owned_and_every_ball_in_the_world() {
    let generator = seeded_generator(99);
    let mut board = Board::new(10);
    board.resize(400);
    let mut balls = populate(&generator, 8, 8);
    let mut flips = false;
    let mut walls = false;
    for _ in 0..2_000 {
        let events = step_frame(&mut board, &mut balls, 3_500, &generator);
        flips = flips || events.gold_flip || events.black_flip;
        walls = walls || events.wall_hit;
        let (gold, black) = board.score();
        assert_eq!(gold + black, 9 * 10);
        assert_eq!(board.tiles.len(), 9);
        assert!(board.tiles.iter().all(|row| row.len() == 10));
        assert_eq!(balls.len(), 16);
        for ball in &balls {
            assert!(0 <= ball.x && ball.x <= UNIT);
            assert!(0 <= ball.y && ball.y <= UNIT);
            assert!(to_pixels(ball.x, board.width) < board.width);
            assert!(to_pixels(ball.y, board.height) < board.height);
            assert_eq!(ball.size, 40);
        }
    }
    assert!(flips);
    assert!(walls);
}

#[test]
fn a_board_of_any_width_can_be_played_on() {
    let generator = seeded_generator(17);
    let mut board = Board::new(50);
    board.update_size_and_position(1010, 803);
    assert_eq!((board.width, board.height), (763, 735));
    let mut balls = populate(&generator, 20, 20);
    for _ in 0..1_000 {
        step_frame(&mut board, &mut balls, 3_500, &generator);
        let (gold, black) = board.score();
        assert_eq!(gold + black, 49 * 50);
        for ball in &balls {
            assert!(0 <= ball.x && ball.x <= UNIT);
            assert!(0 <= ball.y && ball.y <= UNIT);
            assert_eq!(ball.size, 15);
        }
    }
}

#[test]
fn spawn_cluster_places_balls_around_the_centre() {
    let generator = seeded_generator(5);
    let balls = spawn_cluster(&generator, 300, true, 600_000, 400_000, 50_000);
    assert_eq!(balls.len(), 300);
    for ball in &balls {
        assert!(ball.bounce_on);
        assert!(550_000 <= ball.x && ball.x < 650_000);
        assert!(350_000 <= ball.y && ball.y < 450_000);
        assert!(SPEED_MIN <= ball.speed && ball.speed < SPEED_MAX);
        assert_eq!(ball.size, 10);
    }
    assert!(balls.iter().any(|ball| ball.x != balls[0].x));
    assert!(balls.iter().any(|ball| ball.y != balls[0].y));
    assert!(spawn_cluster(&generator, 0, false, 600_000, 400_000, 50_000).is_empty());
}

#[test]
fn mix_takes_turns_starting_with_the_first() {
    let first = vec![marked(true, 1), marked(true, 2), marked(true, 3)];
    let second = vec![marked(false, 11), marked(false, 12), marked(false, 13)];
    let speeds: Vec<u32> = mix(first, second).iter().map(|ball| ball.speed).collect();
    assert_eq!(speeds, vec![1, 11, 2, 12, 3, 13]);
}

#[test]
fn mix_appends_the_rest_of_the_longer() {
    let short = vec![marked(true, 1)];
    let long = vec![marked(false, 11), marked(false, 12), marked(false, 13)];
    let speeds: Vec<u32> =
        mix(short.clone(), long.clone()).iter().map(|ball| ball.speed).collect();
    assert_eq!(speeds, vec![1, 11, 12, 13]);
    let speeds: Vec<u32> = mix(long.clone(), short).iter().map(|ball| ball.speed).collect();
    assert_eq!(speeds, vec![11, 1, 12, 13]);
    assert_eq!(mix(Vec::new(), long.clone()), long);
    assert_eq!(mix(long.clone(), Vec::new()), long);
    assert!(mix(Vec::new(), Vec::new()).is_empty());
}

#[test]
fn population_alternates_gold_and_black() {
    let generator = seeded_generator(6);
    let balls = populate(&generator, NUM_GOLD_BALLS, NUM_BLACK_BALLS);
    assert_eq!(balls.len(), 200);
    for (i, ball) in balls.iter().enumerate() {
        assert_eq!(ball.bounce_on, i % 2 == 0);
        let centre = if ball.bounce_on { GOLD_START } else { BLACK_START };
        assert!((ball.x - centre).abs() <= START_FIELD_SIZE);
        assert!((ball.y - centre).abs() <= START_FIELD_SIZE);
    }
}

#[test]
fn uneven_population_ends_with_the_larger_side() {
    let generator = seeded_generator(8);
    let colours: Vec<bool> =
        populate(&generator, 1, 3).iter().map(|ball| ball.bounce_on).collect();
    assert_eq!(colours, vec![true, false, false, false]);
    let colours: Vec<bool> =
        populate(&generator, 3, 0).iter().map(|ball| ball.bounce_on).collect();
    assert_eq!(colours, vec![true, true, true]);
}
