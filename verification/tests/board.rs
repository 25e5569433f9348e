use black_gold::board::{Board, BOARD_TILES_X};

fn sized_board(tiles_x: usize, available: u32) -> Board {
    let mut board = Board::new(tiles_x);
    board.resize(available);
    board
}

#[test]
fn new_board_is_split_along_the_diagonal() {
    let board = Board::new(3);
    assert_eq!(board.tiles, vec![vec![true, true, false], vec![true, false, false]]);
    assert_eq!((board.width, board.height, board.x, board.y), (0, 0, 0, 0));
}

#[test]
fn new_board_has_one_row_less_than_columns() {
    let board = Board::new(BOARD_TILES_X);
    assert_eq!(board.tiles.len(), 49);
    assert!(board.tiles.iter().all(|row| row.len() == 50));
    assert_eq!(board.tiles_x(), 50);
}

#[test]
fn new_board_follows_the_staircase_rule() {
    let n: usize = 7;
    let board = Board::new(n);
    for row in 0..n - 1 {
        for col in 0..n {
            assert_eq!(board.tiles[row][col], col + row + 2 <= n);
        }
    }
}

#[test]
fn smallest_board_has_one_row() {
    let board = Board::new(2);
    assert_eq!(board.tiles, vec![vec![true, false]]);
    assert_eq!(board.score(), (1, 1));
}

#[test]
fn score_of_a_fresh_board() {
    assert_eq!(Board::new(3).score(), (3, 3));
    assert_eq!(Board::new(50).score(), (1225, 1225));
}

#[test]
fn score_counts_every_tile_once() {
    let mut board = Board::new(5);
    board.set_tile(0, 4, true);
    board.set_tile(3, 0, false);
    board.set_tile(2, 2, true);
    let (gold, black) = board.score();
    assert_eq!(gold + black, 4 * 5);
    assert_eq!((gold, black), (11, 9));
}

#[test]
fn tile_width_divides_the_width() {
    let board = sized_board(50, 750);
    assert_eq!(board.tile_width(), 15);
    assert_eq!(Board::new(50).tile_width(), 0);
}

#[test]
fn resize_takes_the_width_it_is_given() {
    let board = sized_board(50, 760);
    assert_eq!(board.width, 760);
    assert_eq!(board.tile_width(), 15);
    assert_eq!(board.height, 735);
}

#[test]
fn resize_below_one_pixel_per_tile_leaves_no_height() {
    let board = sized_board(50, 49);
    assert_eq!((board.width, board.height), (49, 0));
    assert_eq!(board.tile_width(), 0);
}

#[test]
fn resize_keeps_the_tiles() {
    let mut board = Board::new(4);
    board.set_tile(1, 1, false);
    let tiles = board.tiles.clone();
    board.resize(123);
    assert_eq!(board.tiles, tiles);
    assert_eq!((board.width, board.height), (123, 90));
}

#[test]
fn update_size_and_position_centres_the_board() {
    let mut board = Board::new(50);
    board.update_size_and_position(1000, 800);
    assert_eq!(board.width, 760);
    assert_eq!(board.tile_width(), 15);
    assert_eq!(board.height, 735);
    assert_eq!(board.x, 120);
    assert_eq!(board.y, 33);
}

#[test]
fn update_size_and_position_takes_a_width_that_is_no_multiple_of_the_tiles() {
    let mut board = Board::new(50);
    board.update_size_and_position(1010, 2000);
    assert_eq!(board.width, 1010);
    assert_eq!(board.tile_width(), 20);
    assert_eq!(board.height, 980);
    assert_eq!(board.x, 0);
    assert_eq!(board.y, 510);
}

#[test]
fn update_size_and_position_in_a_viewport_narrower_than_the_tiles_are_many() {
    let mut board = Board::new(50);
    board.update_size_and_position(30, 500);
    assert_eq!(board.width, 30);
    assert_eq!(board.tile_width(), 0);
    assert_eq!(board.height, 0);
    assert_eq!((board.x, board.y), (0, 250));
}

#[test]
fn update_size_and_position_keeps_the_tiles() {
    let mut board = Board::new(4);
    board.set_tile(2, 3, true);
    let tiles = board.tiles.clone();
    board.update_size_and_position(333, 777);
    assert_eq!(board.tiles, tiles);
}

#[test]
fn update_size_and_position_in_a_tall_viewport() {
    let mut board = Board::new(50);
    board.update_size_and_position(600, 2000);
    assert_eq!(board.width, 600);
    assert_eq!(board.height, 588);
    assert_eq!(board.x, 0);
    assert_eq!(board.y, 706);
}

#[test]
fn update_size_and_position_in_a_viewport_below_the_margin() {
    let mut board = Board::new(3);
    board.update_size_and_position(500, 30);
    assert_eq!((board.width, board.height), (0, 0));
    assert_eq!((board.x, board.y), (250, 15));
}

#[test]
fn tile_index_is_row_then_column() {
    let board = sized_board(3, 300);
    assert_eq!(board.tile_index(0, 0), (0, 0));
    assert_eq!(board.tile_index(225, 50), (0, 2));
    assert_eq!(board.tile_index(99, 100), (1, 0));
    assert_eq!(board.tile_index(299, 199), (1, 2));
}

#[test]
fn tile_index_goes_by_the_exact_width_of_a_tile() {
    // three tiles share a hundred pixels: a third of a hundred each
    let board = sized_board(3, 100);
    assert_eq!((board.width, board.height, board.tile_width()), (100, 66, 33));
    assert_eq!(board.tile_index(33, 0), (0, 0));
    assert_eq!(board.tile_index(34, 0), (0, 1));
    assert_eq!(board.tile_index(66, 0), (0, 1));
    assert_eq!(board.tile_index(67, 0), (0, 2));
    assert_eq!(board.tile_index(99, 0), (0, 2));
    assert_eq!(board.tile_index(0, 33), (0, 0));
    assert_eq!(board.tile_index(0, 34), (1, 0));
    assert_eq!(board.tile_index(99, 65), (1, 2));
}

#[test]
fn every_pixel_lies_on_a_tile() {
    for width in [50, 51, 99, 760, 1010] {
        let board = sized_board(50, width);
        for y in 0..board.height {
            let (row, _) = board.tile_index(0, y);
            assert!(row < 49);
        }
        for x in 0..board.width {
            let (_, col) = board.tile_index(x, 0);
            assert!(col < 50);
        }
        assert_eq!(board.tile_index(board.width - 1, board.height - 1).1, 49);
    }
}

#[test]
fn tile_at_reads_the_tile_under_a_pixel() {
    let board = sized_board(3, 300);
    assert!(board.tile_at(0, 0));
    assert!(board.tile_at(199, 99));
    assert!(!board.tile_at(200, 99));
    assert!(board.tile_at(99, 199));
    assert!(!board.tile_at(100, 100));
}

#[test]
fn set_tile_changes_one_tile() {
    let mut board = Board::new(3);
    board.set_tile(1, 2, true);
    assert_eq!(board.tiles, vec![vec![true, true, false], vec![true, false, true]]);
}

#[test]
fn set_tile_at_changes_the_tile_under_a_pixel() {
    let mut board = sized_board(3, 300);
    board.set_tile_at(250, 10, true);
    board.set_tile_at(10, 150, false);
    assert_eq!(board.tiles, vec![vec![true, true, true], vec![false, false, false]]);
    assert_eq!((board.width, board.height), (300, 200));
}
