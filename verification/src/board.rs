//! The board: a rectangle of tiles, each owned by gold (`true`) or black
//! (`false`), and the mapping from pixel coordinates to tiles.

use vstd::prelude::*;

verus! {

/// Number of tiles along the horizontal axis of the default board.
pub const BOARD_TILES_X: usize = 50;

/// Pixels kept free below the board when it is fitted into a viewport.
pub const VIEWPORT_MARGIN: u32 = 40;

/// Whether the tile at (`row`, `col`) of a fresh board with `n` columns is gold.
///
/// The split runs along the anti-diagonal: gold holds the upper left staircase.
pub open spec fn initial_tile(n: int, row: int, col: int) -> bool {
    col <= n - 2 - row
}

/// Row `row` of a fresh board with `n` tiles in a row.
pub open spec fn initial_row(n: int, row: int) -> Seq<bool> {
    Seq::new(n as nat, |col: int| initial_tile(n, row, col))
}

/// The tiles of a fresh board with `n` tiles in a row.
pub open spec fn initial_grid(n: int) -> Seq<Seq<bool>> {
    Seq::new((n - 1) as nat, |row: int| initial_row(n, row))
}

/// Number of tiles in `row` that belong to `side`.
pub open spec fn row_owned(row: Seq<bool>, side: bool) -> nat
    decreases row.len(),
{
    if row.len() == 0 {
        0
    } else {
        row_owned(row.drop_last(), side) + if row.last() == side { 1nat } else { 0nat }
    }
}

/// Number of tiles in `grid` that belong to `side`.
pub open spec fn tiles_owned(grid: Seq<Seq<bool>>, side: bool) -> nat
    decreases grid.len(),
{
    if grid.len() == 0 {
        0
    } else {
        tiles_owned(grid.drop_last(), side) + row_owned(grid.last(), side)
    }
}

/// Every row of `grid` has `cols` tiles, and there are `rows` of them.
pub open spec fn rectangular(grid: Seq<Seq<bool>>, rows: int, cols: int) -> bool {
    &&& grid.len() == rows
    &&& forall|r: int| 0 <= r < rows ==> (#[trigger] grid[r]).len() == cols
}

/// `grid` with the tile at (`row`, `col`) set to `value`.
pub open spec fn grid_with(grid: Seq<Seq<bool>>, row: int, col: int, value: bool) -> Seq<Seq<bool>> {
    grid.update(row, grid[row].update(col, value))
}

/// Each tile of a row belongs to exactly one side.
pub proof fn lemma_row_owned_total(row: Seq<bool>)
    ensures
        row_owned(row, true) + row_owned(row, false) == row.len(),
    decreases row.len(),
{
    if row.len() > 0 {
        lemma_row_owned_total(row.drop_last());
    }
}

/// Each tile of a rectangular grid belongs to exactly one side.
pub proof fn lemma_tiles_owned_total(grid: Seq<Seq<bool>>, rows: int, cols: int)
    requires
        rectangular(grid, rows, cols),
    ensures
        tiles_owned(grid, true) + tiles_owned(grid, false) == rows * cols,
    decreases grid.len(),
{
    if grid.len() > 0 {
        let rest = grid.drop_last();
        assert(rectangular(rest, rows - 1, cols)) by {
            assert forall|r: int| 0 <= r < rows - 1 implies (#[trigger] rest[r]).len() == cols by {
                assert(rest[r] == grid[r]);
            }
        }
        lemma_tiles_owned_total(rest, rows - 1, cols);
        lemma_row_owned_total(grid.last());
        assert((rows - 1) * cols + cols == rows * cols) by (nonlinear_arith);
    } else {
        assert(rows * cols == 0) by (nonlinear_arith)
            requires
                rows == 0,
        ;
    }
}

/// A side of a rectangle is no longer than the rectangle has tiles.
pub proof fn lemma_count_bounds_side(n: int)
    requires
        n >= 2,
    ensures
        n <= n * (n - 1),
{
    assert(n <= n * (n - 1)) by (nonlinear_arith)
        requires
            n >= 2,
    ;
}

/// Row and column of the tile under the pixel (`x`, `y`) of a board that is
/// `width` pixels wide and has `tiles_x` tiles in a row: the pixel's place
/// over the exact width of a tile, `width / tiles_x`, rounded down.
pub open spec fn tile_under(width: int, tiles_x: int, x: int, y: int) -> (int, int) {
    ((y * tiles_x) / width, (x * tiles_x) / width)
}

/// Tiles of `available / count` whole pixels fit into `available` pixels,
/// and one row less of them is no higher than the board is wide.
pub proof fn lemma_whole_tiles(available: int, count: int)
    requires
        0 <= available,
        1 <= count,
    ensures
        0 <= (available / count) * count <= available,
        0 <= (available / count) * (count - 1) <= available,
{
    let tile = available / count;
    assert(0 <= tile * count <= available) by (nonlinear_arith)
        requires
            0 <= available,
            1 <= count,
            tile == available / count,
    ;
    assert(0 <= tile * (count - 1) <= tile * count) by (nonlinear_arith)
        requires
            0 <= tile,
            1 <= count,
    ;
}

/// A pixel of the board's width lies in one of the columns.
pub proof fn lemma_column_on_board(x: int, width: int, tiles_x: int)
    requires
        1 <= tiles_x,
        0 <= x < width,
    ensures
        0 <= (x * tiles_x) / width < tiles_x,
{
    assert(0 <= (x * tiles_x) / width < tiles_x) by (nonlinear_arith)
        requires
            1 <= tiles_x,
            0 <= x < width,
    ;
}

/// A pixel of the board's height, which is one row less than a row has
/// tiles, each of `width / tiles_x` whole pixels, lies in one of the rows.
pub proof fn lemma_row_on_board(y: int, width: int, tiles_x: int)
    requires
        1 <= tiles_x,
        0 <= y < (width / tiles_x) * (tiles_x - 1),
    ensures
        1 <= width,
        0 <= (y * tiles_x) / width < tiles_x - 1,
{
    let tile = width / tiles_x;
    assert(width >= 1 && tile * tiles_x <= width) by (nonlinear_arith)
        requires
            1 <= tiles_x,
            tile == width / tiles_x,
            0 <= y < tile * (tiles_x - 1),
    ;
    assert(y * tiles_x < width * (tiles_x - 1)) by (nonlinear_arith)
        requires
            1 <= tiles_x,
            tile * tiles_x <= width,
            0 <= y < tile * (tiles_x - 1),
    ;
    assert(0 <= (y * tiles_x) / width < tiles_x - 1) by (nonlinear_arith)
        requires
            width >= 1,
            0 <= y,
            1 <= tiles_x,
            y * tiles_x < width * (tiles_x - 1),
    ;
}

/// Appending a tile to a row adds it to its owner's count.
pub proof fn lemma_row_owned_push(row: Seq<bool>, tile: bool, side: bool)
    ensures
        row_owned(row.push(tile), side) == row_owned(row, side) + if tile == side {
            1nat
        } else {
            0nat
        },
{
    assert(row.push(tile).drop_last() =~= row);
}

/// Appending a row to a grid adds its tiles to their owners' counts.
pub proof fn lemma_tiles_owned_push(grid: Seq<Seq<bool>>, row: Seq<bool>, side: bool)
    ensures
        tiles_owned(grid.push(row), side) == tiles_owned(grid, side) + row_owned(row, side),
{
    assert(grid.push(row).drop_last() =~= grid);
}

/// The width available to a board in a viewport of the given size: the
/// viewport's width, or its height less the margin if that is smaller.
pub open spec fn available_width(viewport_width: int, viewport_height: int) -> int {
    let below = if viewport_height >= VIEWPORT_MARGIN {
        viewport_height - VIEWPORT_MARGIN
    } else {
        0
    };
    if viewport_width <= below {
        viewport_width
    } else {
        below
    }
}

/// The board of tiles with its extent on screen.
pub struct Board {
    /// Ownership of each tile, row by row from the top; `true` is gold.
    pub tiles: Vec<Vec<bool>>,
    /// Width of the board in pixels.
    pub width: u32,
    /// Height of the board in pixels.
    pub height: u32,
    /// Left edge of the board on screen.
    pub x: u32,
    /// Top edge of the board on screen.
    pub y: u32,
}

/// The mathematical value of a board.
pub struct BoardView {
    /// Ownership of each tile, row by row from the top; `true` is gold.
    pub grid: Seq<Seq<bool>>,
    /// Width in pixels.
    pub width: int,
    /// Height in pixels.
    pub height: int,
    /// Left edge on screen.
    pub x: int,
    /// Top edge on screen.
    pub y: int,
}

impl BoardView {
    /// Number of tiles along the horizontal axis; there is one row less.
    pub open spec fn tiles_x(self) -> int {
        self.grid.len() as int + 1
    }

    /// Width of one tile in whole pixels.
    pub open spec fn tile_width(self) -> int {
        self.width / self.tiles_x()
    }

    /// The board has at least one row and one tile more in a row than it
    /// has rows; it is as high as its rows of tiles of whole pixels.
    pub open spec fn wf(self) -> bool {
        &&& self.grid.len() >= 1
        &&& rectangular(self.grid, self.tiles_x() - 1, self.tiles_x())
        &&& 0 <= self.width
        &&& self.height == self.tile_width() * (self.tiles_x() - 1)
    }

    /// Row and column of the tile under the pixel (`x`, `y`).
    pub open spec fn tile_of(self, x: int, y: int) -> (int, int) {
        tile_under(self.width, self.tiles_x(), x, y)
    }

    /// Every tile is at least one pixel wide.
    pub open spec fn sized(self) -> bool {
        self.tile_width() >= 1
    }

    /// The same board with other tiles.
    pub open spec fn with_grid(self, grid: Seq<Seq<bool>>) -> BoardView {
        BoardView { grid, width: self.width, height: self.height, x: self.x, y: self.y }
    }
}

/// Every pixel of a board lies on one of its tiles.
pub proof fn lemma_tile_on_board(board: BoardView, x: int, y: int)
    requires
        board.wf(),
        0 <= x < board.width,
        0 <= y < board.height,
    ensures
        0 <= board.tile_of(x, y).0 < board.tiles_x() - 1,
        0 <= board.tile_of(x, y).1 < board.tiles_x(),
{
    lemma_column_on_board(x, board.width, board.tiles_x());
    lemma_row_on_board(y, board.width, board.tiles_x());
}

impl View for Board {
    type V = BoardView;

    open spec fn view(&self) -> BoardView {
        BoardView {
            grid: self.grid(),
            width: self.width as int,
            height: self.height as int,
            x: self.x as int,
            y: self.y as int,
        }
    }
}

impl Board {
    /// The tiles as a sequence of rows.
    pub open spec fn grid(&self) -> Seq<Seq<bool>> {
        Seq::new(self.tiles@.len(), |r: int| self.tiles@[r]@)
    }

    /// Number of tiles along the horizontal axis; there is one row less.
    pub open spec fn spec_tiles_x(&self) -> int {
        self@.tiles_x()
    }

    /// Width of one tile in whole pixels.
    pub open spec fn spec_tile_width(&self) -> int {
        self@.tile_width()
    }

    /// The board's value is well formed, and its tiles can be counted.
    pub open spec fn wf(&self) -> bool {
        &&& self@.wf()
        &&& self.spec_tiles_x() * (self.spec_tiles_x() - 1) <= usize::MAX
    }

    /// The board has been given an extent in which every tile is at least one
    /// pixel wide.
    pub open spec fn sized(&self) -> bool {
        self@.sized()
    }

    /// A board of `tiles_x - 1` rows of `tiles_x` tiles, split along the
    /// anti-diagonal between gold and black, with no extent yet.
    pub fn new(tiles_x: usize) -> (board: Board)
        requires
            tiles_x >= 2,
            tiles_x * (tiles_x - 1) <= usize::MAX,
        ensures
            board.wf(),
            board.spec_tiles_x() == tiles_x,
            board.grid() == initial_grid(tiles_x as int),
            forall|r: int, c: int|
                0 <= r < tiles_x - 1 && 0 <= c < tiles_x ==> #[trigger] board.grid()[r][c]
                    == initial_tile(tiles_x as int, r, c),
            board.width == 0,
            board.height == 0,
            board.x == 0,
            board.y == 0,
    {
        let mut tiles: Vec<Vec<bool>> = Vec::new();
        let mut i: usize = 0;
        while i < tiles_x - 1
            invariant
                tiles_x >= 2,
                i <= tiles_x - 1,
                tiles@.len() == i,
                forall|r: int| 0 <= r < i ==> (#[trigger] tiles@[r])@.len() == tiles_x,
                forall|r: int, c: int|
                    0 <= r < i && 0 <= c < tiles_x ==> (#[trigger] tiles@[r]@[c]) == initial_tile(
                        tiles_x as int,
                        r,
                        c,
                    ),
            decreases tiles_x - 1 - i,
        {
            let mut row: Vec<bool> = Vec::new();
            let mut j: usize = 0;
            while j < tiles_x
                invariant
                    tiles_x >= 2,
                    i < tiles_x - 1,
                    j <= tiles_x,
                    row@.len() == j,
                    forall|c: int|
                        0 <= c < j ==> (#[trigger] row@[c]) == initial_tile(
                            tiles_x as int,
                            i as int,
                            c,
                        ),
                decreases tiles_x - j,
            {
                row.push(j <= tiles_x - 2 - i);
                j += 1;
            }
            tiles.push(row);
            i += 1;
        }
        let board = Board { tiles, width: 0, height: 0, x: 0, y: 0 };
        assert(board.spec_tile_width() == 0);
        assert(board.grid() =~~= initial_grid(tiles_x as int));
        board
    }

    /// Number of tiles along the horizontal axis.
    pub fn tiles_x(&self) -> (n: usize)
        requires
            self.wf(),
        ensures
            n == self.spec_tiles_x(),
    {
        proof {
            lemma_count_bounds_side(self.spec_tiles_x());
        }
        self.tiles.len() + 1
    }

    /// Width of one tile in whole pixels: the board's width divided by the
    /// number of tiles in a row, rounded down.
    pub fn tile_width(&self) -> (w: u32)
        requires
            self.wf(),
        ensures
            w == self.spec_tile_width(),
    {
        let n: usize = self.tiles_x();
        let w: usize = self.width as usize / n;
        w as u32
    }

    /// Row and column of the tile that holds the pixel (`x`, `y`).
    pub open spec fn spec_tile_index(&self, x: int, y: int) -> (int, int) {
        self@.tile_of(x, y)
    }

    /// Ownership of the tile that holds the pixel (`x`, `y`).
    pub open spec fn spec_tile_at(&self, x: int, y: int) -> bool {
        self.grid()[self.spec_tile_index(x, y).0][self.spec_tile_index(x, y).1]
    }

    /// Row and column of the tile that holds the pixel (`x`, `y`) of the
    /// board, by the exact width of a tile.
    pub fn tile_index(&self, x: u32, y: u32) -> (index: (usize, usize))
        requires
            self.wf(),
            x < self.width,
            y < self.height,
        ensures
            index.0 == self.spec_tile_index(x as int, y as int).0,
            index.1 == self.spec_tile_index(x as int, y as int).1,
            index.0 < self.spec_tiles_x() - 1,
            index.1 < self.spec_tiles_x(),
    {
        let n: usize = self.tiles_x();
        proof {
            lemma_tile_on_board(self@, x as int, y as int);
            assert(0 <= y * n <= 0xffff_ffff * 0xffff_ffff_ffff_ffff && 0 <= x * n <= 0xffff_ffff
                * 0xffff_ffff_ffff_ffff) by (nonlinear_arith)
                requires
                    0 <= x <= 0xffff_ffff,
                    0 <= y <= 0xffff_ffff,
                    0 <= n <= 0xffff_ffff_ffff_ffff,
            ;
        }
        let row: u128 = ((y as u128) * (n as u128)) / (self.width as u128);
        let col: u128 = ((x as u128) * (n as u128)) / (self.width as u128);
        (row as usize, col as usize)
    }

    /// Ownership of the tile that holds the pixel (`x`, `y`) of the board.
    pub fn tile_at(&self, x: u32, y: u32) -> (owner: bool)
        requires
            self.wf(),
            x < self.width,
            y < self.height,
        ensures
            owner == self.spec_tile_at(x as int, y as int),
    {
        let (row, col) = self.tile_index(x, y);
        assert(self.grid()[row as int] == self.tiles@[row as int]@);
        self.tiles[row][col]
    }

    /// Gives the tile at (`row`, `col`) to `value`.
    pub fn set_tile(&mut self, row: usize, col: usize, value: bool)
        requires
            old(self).wf(),
            row < old(self).spec_tiles_x() - 1,
            col < old(self).spec_tiles_x(),
        ensures
            final(self).wf(),
            final(self).spec_tiles_x() == old(self).spec_tiles_x(),
            final(self).grid() == grid_with(old(self).grid(), row as int, col as int, value),
            final(self).width == old(self).width,
            final(self).height == old(self).height,
            final(self).x == old(self).x,
            final(self).y == old(self).y,
    {
        assert(old(self).grid()[row as int] == old(self).tiles@[row as int]@);
        self.tiles[row][col] = value;
        assert(self.grid() =~= grid_with(old(self).grid(), row as int, col as int, value));
    }

    /// Gives the tile that holds the pixel (`x`, `y`) of the board to `value`.
    pub fn set_tile_at(&mut self, x: u32, y: u32, value: bool)
        requires
            old(self).wf(),
            x < old(self).width,
            y < old(self).height,
        ensures
            final(self).wf(),
            final(self).spec_tiles_x() == old(self).spec_tiles_x(),
            final(self).grid() == grid_with(
                old(self).grid(),
                old(self).spec_tile_index(x as int, y as int).0,
                old(self).spec_tile_index(x as int, y as int).1,
                value,
            ),
            final(self).width == old(self).width,
            final(self).height == old(self).height,
            final(self).x == old(self).x,
            final(self).y == old(self).y,
    {
        let (row, col) = self.tile_index(x, y);
        self.set_tile(row, col, value);
    }

    /// Makes the board `width` pixels wide, and as high as its rows of tiles
    /// of whole pixels; the tiles keep their owners.
    pub fn resize(&mut self, width: u32)
        requires
            old(self).wf(),
        ensures
            final(self).wf(),
            final(self).tiles == old(self).tiles,
            final(self).width == width,
            final(self).height == final(self).spec_tile_width() * (old(self).spec_tiles_x() - 1),
            final(self).spec_tile_width() == width as int / old(self).spec_tiles_x(),
            final(self).x == old(self).x,
            final(self).y == old(self).y,
    {
        let n: usize = self.tiles_x();
        let tile: usize = width as usize / n;
        proof {
            lemma_whole_tiles(width as int, n as int);
        }
        self.width = width;
        self.height = (tile * (n - 1)) as u32;
    }

    /// Fits the board into a viewport: as wide as the viewport, or as its
    /// height less the margin, whichever is smaller, as high as its rows of
    /// tiles of whole pixels, and centred.
    pub fn update_size_and_position(&mut self, viewport_width: u32, viewport_height: u32)
        requires
            old(self).wf(),
        ensures
            final(self).wf(),
            final(self).tiles == old(self).tiles,
            final(self).width == available_width(viewport_width as int, viewport_height as int),
            final(self).height == final(self).spec_tile_width() * (old(self).spec_tiles_x() - 1),
            final(self).spec_tile_width() == available_width(
                viewport_width as int,
                viewport_height as int,
            ) / old(self).spec_tiles_x(),
            final(self).x == viewport_width / 2 - final(self).width / 2,
            final(self).y == viewport_height / 2 - final(self).height / 2,
    {
        let below: u32 = if viewport_height >= VIEWPORT_MARGIN {
            viewport_height - VIEWPORT_MARGIN
        } else {
            0
        };
        let available: u32 = if viewport_width <= below {
            viewport_width
        } else {
            below
        };
        proof {
            lemma_whole_tiles(available as int, self.spec_tiles_x());
        }
        self.resize(available);
        self.x = viewport_width / 2 - self.width / 2;
        self.y = viewport_height / 2 - self.height / 2;
    }

    /// Number of gold tiles and number of black tiles.
    pub fn score(&self) -> (counts: (usize, usize))
        requires
            self.wf(),
        ensures
            counts.0 == tiles_owned(self.grid(), true),
            counts.1 == tiles_owned(self.grid(), false),
            counts.0 + counts.1 == (self.spec_tiles_x() - 1) * self.spec_tiles_x(),
    {
        let n: usize = self.tiles_x();
        let mut gold: usize = 0;
        let mut black: usize = 0;
        let mut r: usize = 0;
        proof {
            assert(self.grid().take(0) =~= Seq::<Seq<bool>>::empty());
            lemma_tiles_owned_total(self.grid().take(0), 0, n as int);
        }
        while r < n - 1
            invariant
                self.wf(),
                n == self.spec_tiles_x(),
                r <= n - 1,
                gold == tiles_owned(self.grid().take(r as int), true),
                black == tiles_owned(self.grid().take(r as int), false),
                gold + black == r * n,
            decreases n - 1 - r,
        {
            let row = &self.tiles[r];
            let mut row_gold: usize = 0;
            let mut row_black: usize = 0;
            let mut c: usize = 0;
            assert(self.grid()[r as int] == row@);
            assert(row@.take(0) =~= Seq::<bool>::empty());
            while c < n
                invariant
                    row@.len() == n,
                    c <= n,
                    row_gold == row_owned(row@.take(c as int), true),
                    row_black == row_owned(row@.take(c as int), false),
                    row_gold + row_black == c,
                decreases n - c,
            {
                proof {
                    assert(row@.take(c as int + 1) =~= row@.take(c as int).push(row@[c as int]));
                    lemma_row_owned_push(row@.take(c as int), row@[c as int], true);
                    lemma_row_owned_push(row@.take(c as int), row@[c as int], false);
                }
                if row[c] {
                    row_gold += 1;
                } else {
                    row_black += 1;
                }
                c += 1;
            }
            proof {
                assert(row@.take(n as int) =~= row@);
                assert(self.grid().take(r as int + 1) =~= self.grid().take(r as int).push(row@));
                lemma_tiles_owned_push(self.grid().take(r as int), row@, true);
                lemma_tiles_owned_push(self.grid().take(r as int), row@, false);
                assert(r * n + n == (r + 1) * n) by (nonlinear_arith);
                assert((r + 1) * n <= (n - 1) * n) by (nonlinear_arith)
                    requires
                        r + 1 <= n - 1,
                        n >= 0,
                ;
                assert((n - 1) * n == n * (n - 1)) by (nonlinear_arith);
            }
            gold += row_gold;
            black += row_black;
            r += 1;
        }
        proof {
            assert(self.grid().take(n as int - 1) =~= self.grid());
        }
        (gold, black)
    }
}

} // verus!
