//! Fixed-point units of the simulation and the arithmetic of one frame's
//! movement.
//!
//! Positions, directions, speeds and times are whole numbers of millionths:
//! the world is the square from `0` to `UNIT` on both axes, a speed of `UNIT`
//! is one, and a frame time of `UNIT` is one second.

use vstd::prelude::*;

verus! {

/// One normalised unit.
pub const UNIT: i64 = 1_000_000;

/// Speed of the fastest ball, in world widths per second.
pub const MOVEMENT_SPEED: u32 = 1_500_000;

/// Left wall of the world.
pub const BOARD_LEFT: i64 = 0;

/// Right wall of the world.
pub const BOARD_RIGHT: i64 = 1_000_000;

/// Top wall of the world.
pub const BOARD_TOP: i64 = 0;

/// Bottom wall of the world.
pub const BOARD_BOTTOM: i64 = 1_000_000;

/// Largest jitter of a rebound, in either sense: a tenth.
pub const JITTER: i64 = 100_000;

/// Slowest speed a ball is created with.
pub const SPEED_MIN: u32 = 750_000;

/// Bound above the speeds a ball is created with.
pub const SPEED_MAX: u32 = 1_000_000;

/// Largest distance, along either axis, between a ball's starting point and
/// the centre of its cluster.
pub const START_FIELD_SIZE: i64 = 10_000;

/// Number of black balls in the default population.
pub const NUM_BLACK_BALLS: usize = 100;

/// Number of gold balls in the default population.
pub const NUM_GOLD_BALLS: usize = 100;

/// The farthest a ball may move in one frame on a board with `tiles_x` tiles
/// in a row: a world width divided by 2.1 times the number of tiles, which is
/// less than half a tile.
pub open spec fn movement_cap(tiles_x: int) -> int {
    (10 * UNIT) / (21 * tiles_x)
}

/// Distance a ball of the given speed moves in a frame of `frame_time`,
/// capped at `movement_cap`.
pub open spec fn spec_frame_movement(max_speed: int, speed: int, frame_time: int, tiles_x: int) -> int {
    let free = (max_speed * speed * frame_time) / (UNIT * UNIT);
    if free <= movement_cap(tiles_x) {
        free
    } else {
        movement_cap(tiles_x)
    }
}

/// Signed distance moved along one axis: `movement` scaled by the direction's
/// component on that axis, rounded towards zero.
pub open spec fn spec_displacement(movement: int, direction: int) -> int {
    if direction >= 0 {
        (movement * direction) / (UNIT as int)
    } else {
        -((movement * (-direction)) / (UNIT as int))
    }
}

/// The pixel, among `extent` pixels, that holds the normalised `position`;
/// positions outside the world map to the nearest pixel inside.
pub open spec fn spec_to_pixels(position: int, extent: int) -> int {
    let scaled = (position * extent) / (UNIT as int);
    if position <= 0 {
        0
    } else if scaled >= extent {
        extent - 1
    } else {
        scaled
    }
}

/// The normalised length of `pixels` pixels out of `extent`.
pub open spec fn spec_to_units(pixels: int, extent: int) -> int {
    (pixels * UNIT) / extent
}

/// The cap on a frame's movement is positive and below half a world width.
pub proof fn lemma_movement_cap_bounds(tiles_x: int)
    requires
        tiles_x >= 1,
    ensures
        0 <= movement_cap(tiles_x) <= 476_190,
{
    assert(0 <= (10 * 1_000_000int) / (21 * tiles_x) <= 476_190) by (nonlinear_arith)
        requires
            tiles_x >= 1,
    ;
}

/// Distance a ball of the given speed moves in a frame of `frame_time`: the
/// product of the three factors, never more than `movement_cap(tiles_x)`.
pub fn frame_movement(max_speed: u32, speed: u32, frame_time: u32, tiles_x: usize) -> (movement: u32)
    requires
        tiles_x >= 1,
    ensures
        movement == spec_frame_movement(
            max_speed as int,
            speed as int,
            frame_time as int,
            tiles_x as int,
        ),
        movement <= movement_cap(tiles_x as int),
{
    proof {
        lemma_movement_cap_bounds(tiles_x as int);
    }
    let cap: u128 = 10_000_000u128 / (21u128 * (tiles_x as u128));
    assert(0 <= max_speed * speed <= 0xffff_ffff * 0xffff_ffff) by (nonlinear_arith)
        requires
            0 <= max_speed <= 0xffff_ffff,
            0 <= speed <= 0xffff_ffff,
    ;
    let pace: u128 = (max_speed as u128) * (speed as u128);
    assert(0 <= pace * frame_time <= 0xffff_ffff_ffff_ffff_ffff_ffff) by (nonlinear_arith)
        requires
            0 <= pace <= 0xffff_ffff * 0xffff_ffff,
            0 <= frame_time <= 0xffff_ffff,
    ;
    let free: u128 = (pace * (frame_time as u128)) / 1_000_000_000_000u128;
    assert(max_speed as int * speed as int * frame_time as int == pace as int * frame_time as int);
    if free <= cap {
        free as u32
    } else {
        cap as u32
    }
}

/// Signed distance moved along one axis by a ball that moves `movement` in
/// the direction whose component on that axis is `direction`.
pub fn displacement(movement: u32, direction: i64) -> (moved: i64)
    requires
        -2 * UNIT <= direction <= 2 * UNIT,
    ensures
        moved == spec_displacement(movement as int, direction as int),
        -2 * movement <= moved <= 2 * movement,
        direction >= 0 ==> moved >= 0,
        direction <= 0 ==> moved <= 0,
{
    let size: u64 = if direction >= 0 {
        direction as u64
    } else {
        (-direction) as u64
    };
    assert(0 <= movement * size <= 0xffff_ffff * 2_000_000) by (nonlinear_arith)
        requires
            0 <= movement <= 0xffff_ffff,
            0 <= size <= 2_000_000,
    ;
    let scaled: u64 = ((movement as u64) * size) / 1_000_000u64;
    assert(0 <= (movement * size) / 1_000_000 <= 2 * movement && (size == 0 ==> (movement * size)
        / 1_000_000 == 0)) by (nonlinear_arith)
        requires
            0 <= movement,
            0 <= size <= 2_000_000,
    ;
    if direction >= 0 {
        scaled as i64
    } else {
        -(scaled as i64)
    }
}

/// The pixel, among `extent` pixels, that holds the normalised `position`.
pub fn to_pixels(position: i64, extent: u32) -> (pixel: u32)
    requires
        extent >= 1,
    ensures
        pixel == spec_to_pixels(position as int, extent as int),
        pixel < extent,
{
    if position <= 0 {
        0
    } else {
        assert(0 <= position * extent <= 0x7fff_ffff_ffff_ffff * 0xffff_ffff) by (nonlinear_arith)
            requires
                0 < position <= 0x7fff_ffff_ffff_ffff,
                0 < extent <= 0xffff_ffff,
        ;
        let scaled: u128 = ((position as u128) * (extent as u128)) / 1_000_000u128;
        if scaled >= extent as u128 {
            extent - 1
        } else {
            scaled as u32
        }
    }
}

/// The normalised length of `pixels` pixels out of `extent`.
pub fn to_units(pixels: u32, extent: u32) -> (length: i64)
    requires
        extent >= 1,
    ensures
        length == spec_to_units(pixels as int, extent as int),
        0 <= length,
        pixels <= extent ==> length <= UNIT,
        2 * pixels <= extent ==> 2 * length <= UNIT,
{
    assert(0 <= (pixels * 1_000_000) / (extent as int) <= pixels * 1_000_000 && (pixels <= extent
        ==> (pixels * 1_000_000) / (extent as int) <= 1_000_000) && (2 * pixels <= extent ==> 2 * ((
    pixels * 1_000_000) / (extent as int)) <= 1_000_000)) by (nonlinear_arith)
        requires
            0 <= pixels,
            1 <= extent,
    ;
    (((pixels as u64) * 1_000_000u64) / (extent as u64)) as i64
}

} // verus!
