use black_gold::frame::seeded_generator;
use black_gold::simple_logger::{LogLevel, SimpleLogger};
use black_gold::vastness::Vastness;

const ALL: [Vastness; 10] = [
    Vastness::XXS,
    Vastness::XS,
    Vastness::S,
    Vastness::M,
    Vastness::L,
    Vastness::XL,
    Vastness::XXL,
    Vastness::XXXL,
    Vastness::XXXXL,
    Vastness::XXXXXL,
];

#[test]
fn from_int_gives_the_vastness_of_a_rank() {
    for (rank, vastness) in ALL.iter().enumerate() {
        assert_eq!(Vastness::from_int(rank), Some(*vastness));
    }
}

#[test]
fn from_int_has_no_vastness_beyond_the_largest() {
    assert_eq!(Vastness::from_int(10), None);
    assert_eq!(Vastness::from_int(usize::MAX), None);
}

#[test]
fn to_float_gives_the_size_in_pixels() {
    let sizes: Vec<u32> = ALL.iter().map(|vastness| vastness.to_float()).collect();
    assert_eq!(sizes, vec![16, 20, 24, 28, 32, 36, 40, 48, 56, 64]);
}

#[test]
fn choose_one_never_gives_the_largest() {
    let generator = seeded_generator(21);
    let mut seen = Vec::new();
    for _ in 0..2_000 {
        let vastness = Vastness::choose_one(&generator);
        assert_ne!(vastness, Vastness::XXXXXL);
        if !seen.contains(&vastness) {
            seen.push(vastness);
        }
    }
    assert_eq!(seen.len(), 9);
}

#[test]
fn logger_lets_information_and_graver_through() {
    let logger = SimpleLogger;
    assert!(logger.enabled(LogLevel::Error));
    assert!(logger.enabled(LogLevel::Warn));
    assert!(logger.enabled(LogLevel::Info));
    assert!(!logger.enabled(LogLevel::Debug));
    assert!(!logger.enabled(LogLevel::Trace));
}
