//! The tile grid: a flat, row-major sequence of tiles with fixed dimensions.

use vstd::prelude::*;

verus! {

/// Width of the level that the parameterless map builders produce.
pub const MAX_WIDTH: i32 = 80;

/// Height of the level that the parameterless map builders produce.
pub const MAX_HEIGHT: i32 = 50;

/// The terrain of one cell.
#[derive(Clone, Copy, Debug, PartialEq, Eq, Structural)]
pub enum TileType {
    Wall,
    Floor,
}

/// The flat index of the cell `(x, y)` in a grid that is `width` cells wide.
pub open spec fn flat_index(width: int, x: int, y: int) -> int {
    y * width + x
}

/// The mathematical model of a grid: its dimensions and its tiles in
/// row-major order.
#[verifier::ext_equal]
pub struct GridView {
    pub width: int,
    pub height: int,
    pub tiles: Seq<TileType>,
}

impl GridView {
    /// The dimensions are non-negative and there is one tile per cell.
    pub open spec fn wf(self) -> bool {
        &&& 0 <= self.width
        &&& 0 <= self.height
        &&& self.tiles.len() == self.width * self.height
    }

    /// Whether `(x, y)` names a cell of the grid.
    pub open spec fn in_bounds(self, x: int, y: int) -> bool {
        0 <= x < self.width && 0 <= y < self.height
    }

    /// The flat index of the cell `(x, y)`.
    pub open spec fn index_of(self, x: int, y: int) -> int {
        flat_index(self.width, x, y)
    }

    /// The column of the cell with flat index `i`.
    pub open spec fn column_of(self, i: int) -> int {
        i % self.width
    }

    /// The row of the cell with flat index `i`.
    pub open spec fn row_of(self, i: int) -> int {
        i / self.width
    }

    /// The tile of the cell `(x, y)`.
    pub open spec fn tile(self, x: int, y: int) -> TileType {
        self.tiles[self.index_of(x, y)]
    }

    /// The grid of the given dimensions in which every cell is a wall.
    pub open spec fn blank(width: int, height: int) -> GridView {
        GridView {
            width,
            height,
            tiles: Seq::new((width * height) as nat, |i: int| TileType::Wall),
        }
    }

    /// This grid with the tile at flat index `i` replaced.
    pub open spec fn put_at(self, i: int, tile: TileType) -> GridView {
        GridView { width: self.width, height: self.height, tiles: self.tiles.update(i, tile) }
    }

    /// This grid with the tile of the cell `(x, y)` replaced.
    pub open spec fn put(self, x: int, y: int, tile: TileType) -> GridView {
        self.put_at(self.index_of(x, y), tile)
    }
}

/// The flat index of an in-bounds cell addresses a tile of the grid, and
/// decoding it gives the cell back.
pub proof fn lemma_index_roundtrip(g: GridView, x: int, y: int)
    requires
        g.wf(),
        g.in_bounds(x, y),
    ensures
        0 <= g.index_of(x, y) < g.tiles.len(),
        g.column_of(g.index_of(x, y)) == x,
        g.row_of(g.index_of(x, y)) == y,
{
    let w = g.width;
    let h = g.height;
    assert(0 <= y * w + x < w * h) by (nonlinear_arith)
        requires
            0 <= x < w,
            0 <= y < h,
    ;
    vstd::arithmetic::div_mod::lemma_fundamental_div_mod_converse(y * w + x, w, y, x);
}

/// Every flat index of the grid decodes to an in-bounds cell whose flat index
/// it is.
pub proof fn lemma_coords_roundtrip(g: GridView, i: int)
    requires
        g.wf(),
        0 <= i < g.tiles.len(),
    ensures
        g.in_bounds(g.column_of(i), g.row_of(i)),
        g.index_of(g.column_of(i), g.row_of(i)) == i,
{
    let w = g.width;
    let h = g.height;
    assert(w > 0) by (nonlinear_arith)
        requires
            0 <= w,
            0 <= i < w * h,
    ;
    vstd::arithmetic::div_mod::lemma_fundamental_div_mod(i, w);
    vstd::arithmetic::div_mod::lemma_mod_bound(i, w);
    let q = i / w;
    let r = i % w;
    assert(i == q * w + r) by (nonlinear_arith)
        requires
            i == w * q + r,
    ;
    assert(0 <= q < h) by (nonlinear_arith)
        requires
            0 <= i < w * h,
            i == q * w + r,
            0 <= r < w,
    ;
}

/// Two in-bounds cells with the same flat index are the same cell.
pub proof fn lemma_index_injective(g: GridView, xa: int, ya: int, xb: int, yb: int)
    requires
        g.wf(),
        g.in_bounds(xa, ya),
        g.in_bounds(xb, yb),
        g.index_of(xa, ya) == g.index_of(xb, yb),
    ensures
        xa == xb,
        ya == yb,
{
    lemma_index_roundtrip(g, xa, ya);
    lemma_index_roundtrip(g, xb, yb);
}

/// A level's terrain: `width * height` tiles in row-major order.
#[derive(Debug, PartialEq, Eq)]
pub struct TileGrid {
    width: i32,
    height: i32,
    tiles: Vec<TileType>,
}

impl View for TileGrid {
    type V = GridView;

    closed spec fn view(&self) -> GridView {
        GridView { width: self.width as int, height: self.height as int, tiles: self.tiles@ }
    }
}

impl TileGrid {
    /// The grid holds one tile per cell of its dimensions.
    pub open spec fn wf(&self) -> bool {
        self@.wf()
    }

    /// A grid of the given dimensions in which every cell is a wall.
    pub fn new(width: i32, height: i32) -> (grid: TileGrid)
        requires
            0 <= width,
            0 <= height,
            width * height <= usize::MAX,
        ensures
            grid.wf(),
            grid@ == GridView::blank(width as int, height as int),
    {
        assert(0 <= width * height) by (nonlinear_arith)
            requires
                0 <= width,
                0 <= height,
        ;
        let count: usize = (width as usize) * (height as usize);
        let mut tiles: Vec<TileType> = Vec::new();
        let mut i: usize = 0;
        while i < count
            invariant
                i <= count,
                tiles@.len() == i,
                forall|k: int| 0 <= k < i ==> tiles@[k] == TileType::Wall,
            decreases count - i,
        {
            tiles.push(TileType::Wall);
            i += 1;
        }
        let grid = TileGrid { width, height, tiles };
        assert(grid@.tiles =~= GridView::blank(width as int, height as int).tiles);
        grid
    }

    /// The number of columns.
    pub fn width(&self) -> (w: i32)
        ensures
            w == self@.width,
    {
        self.width
    }

    /// The number of rows.
    pub fn height(&self) -> (h: i32)
        ensures
            h == self@.height,
    {
        self.height
    }

    /// The number of tiles.
    pub fn len(&self) -> (n: usize)
        ensures
            n == self@.tiles.len(),
    {
        self.tiles.len()
    }

    /// Whether `(x, y)` names a cell of the grid.
    pub fn in_bounds(&self, x: i32, y: i32) -> (b: bool)
        ensures
            b == self@.in_bounds(x as int, y as int),
    {
        0 <= x && x < self.width && 0 <= y && y < self.height
    }

    /// The flat index of the in-bounds cell `(x, y)`.
    pub fn index_of(&self, x: i32, y: i32) -> (i: usize)
        requires
            self.wf(),
            self@.in_bounds(x as int, y as int),
        ensures
            i == self@.index_of(x as int, y as int),
            i < self@.tiles.len(),
    {
        let count: usize = self.tiles.len();
        proof {
            lemma_index_roundtrip(self@, x as int, y as int);
            assert(0 <= y * self.width <= count) by (nonlinear_arith)
                requires
                    0 <= x < self.width,
                    0 <= y,
                    y * self.width + x < count,
            ;
        }
        (y as usize) * (self.width as usize) + (x as usize)
    }

    /// The cell `(x, y)` that the flat index `i` addresses.
    pub fn coords_of(&self, i: usize) -> (c: (i32, i32))
        requires
            self.wf(),
            i < self@.tiles.len(),
        ensures
            c.0 == self@.column_of(i as int),
            c.1 == self@.row_of(i as int),
            self@.in_bounds(c.0 as int, c.1 as int),
            self@.index_of(c.0 as int, c.1 as int) == i,
    {
        proof {
            lemma_coords_roundtrip(self@, i as int);
        }
        let w: usize = self.width as usize;
        ((i % w) as i32, (i / w) as i32)
    }

    /// The tile of the in-bounds cell `(x, y)`.
    pub fn get(&self, x: i32, y: i32) -> (tile: TileType)
        requires
            self.wf(),
            self@.in_bounds(x as int, y as int),
        ensures
            tile == self@.tile(x as int, y as int),
    {
        let i = self.index_of(x, y);
        self.tiles[i]
    }

    /// Replaces the tile of the in-bounds cell `(x, y)`.
    pub fn set(&mut self, x: i32, y: i32, tile: TileType)
        requires
            old(self).wf(),
            old(self)@.in_bounds(x as int, y as int),
        ensures
            final(self).wf(),
            final(self)@ == old(self)@.put(x as int, y as int, tile),
    {
        let i = self.index_of(x, y);
        self.tiles.set(i, tile);
    }

    /// The tile at flat index `i`.
    pub fn tile_at(&self, i: usize) -> (tile: TileType)
        requires
            i < self@.tiles.len(),
        ensures
            tile == self@.tiles[i as int],
    {
        self.tiles[i]
    }

    /// Replaces the tile at flat index `i`.
    pub fn set_at(&mut self, i: usize, tile: TileType)
        requires
            i < old(self)@.tiles.len(),
        ensures
            final(self)@ == old(self)@.put_at(i as int, tile),
    {
        self.tiles.set(i, tile);
    }

    /// Lists the cells in row-major order, each with its column, its row
    /// and its tile.
    pub fn cells(&self) -> (cells: Vec<(i32, i32, TileType)>)
        requires
            self.wf(),
        ensures
            cells@.len() == self@.tiles.len(),
            forall|i: int|
                0 <= i < self@.tiles.len() ==> {
                    &&& (#[trigger] cells@[i]).0 == self@.column_of(i)
                    &&& cells@[i].1 == self@.row_of(i)
                    &&& cells@[i].2 == self@.tiles[i]
                    &&& self@.in_bounds(cells@[i].0 as int, cells@[i].1 as int)
                },
    {
        if self.width <= 0 {
            assert(self@.tiles.len() == 0) by (nonlinear_arith)
                requires
                    self@.tiles.len() == self.width * self.height,
                    self.width == 0,
            ;
            return Vec::new();
        }
        assert(self.width * self.height <= self.width * 0x8000_0000) by (nonlinear_arith)
            requires
                self.width > 0,
                self.height < 0x8000_0000,
        ;
        let cells = cells_of(self.tiles.as_slice(), self.width);
        proof {
            assert forall|i: int| 0 <= i < self@.tiles.len() implies self@.in_bounds(
                (#[trigger] cells@[i]).0 as int,
                cells@[i].1 as int,
            ) by {
                lemma_coords_roundtrip(self@, i);
            }
        }
        cells
    }

    /// The tiles in row-major order.
    pub fn tiles(&self) -> (tiles: &Vec<TileType>)
        ensures
            tiles@ == self@.tiles,
    {
        &self.tiles
    }

    /// Gives up the grid for its tiles in row-major order.
    pub fn into_tiles(self) -> (tiles: Vec<TileType>)
        ensures
            tiles@ == self@.tiles,
    {
        self.tiles
    }
}

/// Lists the tiles of a row-major sequence that is `width` cells wide, each
/// with its column and its row, in the order of the sequence: columns run
/// fastest.
pub fn cells_of(tiles: &[TileType], width: i32) -> (cells: Vec<(i32, i32, TileType)>)
    requires
        width > 0,
        tiles@.len() <= width * 0x8000_0000,
    ensures
        cells@.len() == tiles@.len(),
        forall|i: int|
            0 <= i < tiles@.len() ==> {
                &&& (#[trigger] cells@[i]).0 == i % (width as int)
                &&& cells@[i].1 == i / (width as int)
                &&& cells@[i].2 == tiles@[i]
            },
{
    let w: usize = width as usize;
    let count: usize = tiles.len();
    let mut cells: Vec<(i32, i32, TileType)> = Vec::new();
    let mut i: usize = 0;
    while i < count
        invariant
            i <= count,
            count == tiles@.len(),
            count <= width * 0x8000_0000,
            w == width,
            width > 0,
            cells@.len() == i,
            forall|k: int|
                0 <= k < i ==> {
                    &&& (#[trigger] cells@[k]).0 == k % (width as int)
                    &&& cells@[k].1 == k / (width as int)
                    &&& cells@[k].2 == tiles@[k]
                },
        decreases count - i,
    {
        proof {
            lemma_row_fits(i as int, width as int, count as int);
        }
        let x: i32 = (i % w) as i32;
        let y: i32 = (i / w) as i32;
        cells.push((x, y, tiles[i]));
        i += 1;
    }
    cells
}

/// In a sequence of at most `width * 2^31` tiles, every tile has a column
/// below `width` and a row below `2^31`.
proof fn lemma_row_fits(i: int, width: int, count: int)
    requires
        width > 0,
        0 <= i < count,
        count <= width * 0x8000_0000,
    ensures
        0 <= i % width < width,
        0 <= i / width < 0x8000_0000,
{
    vstd::arithmetic::div_mod::lemma_fundamental_div_mod(i, width);
    vstd::arithmetic::div_mod::lemma_mod_bound(i, width);
    let q = i / width;
    let r = i % width;
    assert(0 <= q < 0x8000_0000) by (nonlinear_arith)
        requires
            width > 0,
            0 <= r < width,
            i == width * q + r,
            0 <= i < width * 0x8000_0000,
    ;
}

/// The flat index of the cell `(x, y)` on a level of the default width.
pub fn xy_idx(x: i32, y: i32) -> (idx: usize)
    requires
        0 <= x < MAX_WIDTH,
        0 <= y < MAX_HEIGHT,
    ensures
        idx == flat_index(MAX_WIDTH as int, x as int, y as int),
{
    assert(0 <= y * MAX_WIDTH <= 49 * 80) by (nonlinear_arith)
        requires
            0 <= y < 50,
            MAX_WIDTH == 80,
    ;
    (y as usize * MAX_WIDTH as usize) + x as usize
}

} // verus!
