use black_gold::units::{
    displacement, frame_movement, to_pixels, to_units, MOVEMENT_SPEED, UNIT,
};

#[test]
fn frame_movement_is_the_product_of_speeds_and_time() {
    // 1.5 * 1.0 * 0.0035 s
    assert_eq!(frame_movement(1_500_000, 1_000_000, 3_500, 50), 5_250);
    // 1.5 * 0.75 * 0.002 s
    assert_eq!(frame_movement(1_500_000, 750_000, 2_000, 50), 2_250);
    assert_eq!(frame_movement(1_000_000, 1_000_000, 1, 50), 1);
}

#[test]
fn frame_movement_rounds_down() {
    assert_eq!(frame_movement(1_500_000, 999_999, 3, 50), 4);
    assert_eq!(frame_movement(999_999, 999_999, 1, 50), 0);
}

#[test]
fn frame_movement_is_capped_for_a_huge_frame_time() {
    // ten seconds: the cap is 1 / (50 * 2.1)
    assert_eq!(frame_movement(MOVEMENT_SPEED, 1_000_000, 10_000_000, 50), 9_523);
    assert_eq!(frame_movement(MOVEMENT_SPEED, 750_000, 10_000_000, 3), 158_730);
    assert_eq!(frame_movement(u32::MAX, u32::MAX, u32::MAX, 1), 476_190);
}

#[test]
fn frame_movement_at_the_cap() {
    // 1.0 * 1.0 * 0.009523 s is exactly the cap for 50 tiles
    assert_eq!(frame_movement(1_000_000, 1_000_000, 9_523, 50), 9_523);
    assert_eq!(frame_movement(1_000_000, 1_000_000, 9_524, 50), 9_523);
    assert_eq!(frame_movement(1_000_000, 1_000_000, 9_522, 50), 9_522);
}

#[test]
fn frame_movement_on_a_board_too_fine_to_move_on() {
    assert_eq!(frame_movement(MOVEMENT_SPEED, 1_000_000, 3_500, 10_000_000), 0);
}

#[test]
fn frame_movement_of_a_still_frame() {
    assert_eq!(frame_movement(MOVEMENT_SPEED, 1_000_000, 0, 50), 0);
    assert_eq!(frame_movement(MOVEMENT_SPEED, 0, 3_500, 50), 0);
}

#[test]
fn displacement_scales_with_the_direction() {
    assert_eq!(displacement(5_250, UNIT), 5_250);
    assert_eq!(displacement(5_250, -UNIT), -5_250);
    assert_eq!(displacement(5_250, 1_100_000), 5_775);
    assert_eq!(displacement(5_250, -900_000), -4_725);
    assert_eq!(displacement(5_250, 0), 0);
}

#[test]
fn displacement_rounds_towards_zero() {
    assert_eq!(displacement(3, 950_000), 2);
    assert_eq!(displacement(3, -950_000), -2);
    assert_eq!(displacement(1, 999_999), 0);
    assert_eq!(displacement(1, -999_999), 0);
}

#[test]
fn to_pixels_scales_a_position() {
    assert_eq!(to_pixels(750_000, 300), 225);
    assert_eq!(to_pixels(250_000, 200), 50);
    assert_eq!(to_pixels(333_333, 300), 99);
    assert_eq!(to_pixels(1, 300), 0);
}

#[test]
fn to_pixels_keeps_to_the_extent() {
    assert_eq!(to_pixels(0, 300), 0);
    assert_eq!(to_pixels(-5, 300), 0);
    assert_eq!(to_pixels(i64::MIN, 300), 0);
    assert_eq!(to_pixels(UNIT, 300), 299);
    assert_eq!(to_pixels(UNIT + 7, 300), 299);
    assert_eq!(to_pixels(i64::MAX, u32::MAX), u32::MAX - 1);
    assert_eq!(to_pixels(999_999, 300), 299);
    assert_eq!(to_pixels(500_000, 1), 0);
}

#[test]
fn to_units_scales_a_length() {
    assert_eq!(to_units(50, 300), 166_666);
    assert_eq!(to_units(7, 750), 9_333);
    assert_eq!(to_units(0, 300), 0);
    assert_eq!(to_units(300, 300), UNIT);
    assert_eq!(to_units(600, 300), 2 * UNIT);
    assert_eq!(to_units(u32::MAX, 1), 4_294_967_295_000_000);
}
