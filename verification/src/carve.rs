//! Carving rooms and corridors into a tile grid.
//!
//! Every carving operation turns a set of tiles into floor and leaves the
//! others as they were. Rooms are addressed by cell, and their interior must
//! lie on the grid. Corridor tiles are addressed through the flat index of
//! their coordinates, and a tile is written only where that index is greater
//! than zero and less than the number of tiles: the first tile of the grid is
//! never carved by a corridor.

use vstd::prelude::*;
use vstd::math::{min, max};
use crate::grid::{flat_index, lemma_coords_roundtrip, lemma_index_roundtrip, GridView, TileGrid, TileType};
use crate::rect::Rect;

verus! {

/// Whether the flat index `i` is that of a coordinate pair `(x, y)` with `x`
/// in `lo..=hi`.
pub open spec fn in_row_span(width: int, y: int, lo: int, hi: int, i: int) -> bool {
    lo <= i - y * width <= hi
}

/// Whether the flat index `i` is that of a coordinate pair `(x, y)` with `y`
/// in `lo..=hi`.
pub open spec fn in_column_span(width: int, x: int, lo: int, hi: int, i: int) -> bool {
    exists|y: int| lo <= y <= hi && #[trigger] flat_index(width, x, y) == i
}

impl GridView {
    /// Whether every interior cell of `room` is a cell of this grid.
    pub open spec fn holds_interior(self, room: Rect) -> bool {
        room.wf() ==> {
            &&& -1 <= room.x1
            &&& room.x2 < self.width
            &&& -1 <= room.y1
            &&& room.y2 < self.height
        }
    }

    /// This grid with the corridor tile `(x, y)` carved: the tile at the flat
    /// index of `(x, y)` becomes floor if that index is greater than zero and
    /// addresses a tile.
    pub open spec fn carve_tile(self, x: int, y: int) -> GridView {
        let i = self.index_of(x, y);
        if 0 < i < self.tiles.len() {
            self.put_at(i, TileType::Floor)
        } else {
            self
        }
    }

    /// This grid with a horizontal corridor carved along row `y` between the
    /// columns `xa` and `xb`, both included, in either order.
    pub open spec fn carve_horizontal(self, xa: int, xb: int, y: int) -> GridView {
        GridView {
            width: self.width,
            height: self.height,
            tiles: Seq::new(
                self.tiles.len(),
                |i: int|
                    if 0 < i && in_row_span(self.width, y, min(xa, xb), max(xa, xb), i) {
                        TileType::Floor
                    } else {
                        self.tiles[i]
                    },
            ),
        }
    }

    /// This grid with a vertical corridor carved along column `x` between the
    /// rows `ya` and `yb`, both included, in either order.
    pub open spec fn carve_vertical(self, ya: int, yb: int, x: int) -> GridView {
        GridView {
            width: self.width,
            height: self.height,
            tiles: Seq::new(
                self.tiles.len(),
                |i: int|
                    if 0 < i && in_column_span(self.width, x, min(ya, yb), max(ya, yb), i) {
                        TileType::Floor
                    } else {
                        self.tiles[i]
                    },
            ),
        }
    }

    /// This grid with the interior of `room` carved: every cell `(x, y)` with
    /// `x1 < x <= x2` and `y1 < y <= y2` becomes floor.
    pub open spec fn carve_room(self, room: Rect) -> GridView {
        GridView {
            width: self.width,
            height: self.height,
            tiles: Seq::new(
                self.tiles.len(),
                |i: int|
                    if room.interior_contains(self.column_of(i), self.row_of(i)) {
                        TileType::Floor
                    } else {
                        self.tiles[i]
                    },
            ),
        }
    }
}

/// Extending a column span by one row adds exactly the flat index of the new
/// row's coordinate.
proof fn lemma_column_span_step(width: int, x: int, lo: int, hi: int, i: int)
    requires
        lo <= hi,
    ensures
        in_column_span(width, x, lo, hi, i) == (in_column_span(width, x, lo, hi - 1, i) || i
            == flat_index(width, x, hi)),
{
    if in_column_span(width, x, lo, hi, i) {
        let y = choose|y: int| lo <= y <= hi && #[trigger] flat_index(width, x, y) == i;
        if y != hi {
            assert(lo <= y <= hi - 1 && flat_index(width, x, y) == i);
        }
    }
    if in_column_span(width, x, lo, hi - 1, i) {
        let y = choose|y: int| lo <= y <= hi - 1 && #[trigger] flat_index(width, x, y) == i;
        assert(lo <= y <= hi && flat_index(width, x, y) == i);
    }
    if i == flat_index(width, x, hi) {
        assert(lo <= hi <= hi && flat_index(width, x, hi) == i);
    }
}

/// Carving a room turns the cells of its interior into floor and leaves
/// every other cell of the grid as it was.
pub proof fn lemma_carve_room_tile(g: GridView, room: Rect, x: int, y: int)
    requires
        g.wf(),
        g.in_bounds(x, y),
    ensures
        g.carve_room(room).tile(x, y) == (if room.interior_contains(x, y) {
            TileType::Floor
        } else {
            g.tile(x, y)
        }),
{
    lemma_index_roundtrip(g, x, y);
}

/// On a grid that holds both ends of the span, a horizontal corridor turns
/// the cells of its row between the two columns into floor, but for the
/// grid's first cell, and leaves every other cell as it was.
pub proof fn lemma_carve_horizontal_tile(g: GridView, xa: int, xb: int, row: int, x: int, y: int)
    requires
        g.wf(),
        g.in_bounds(x, y),
        0 <= xa < g.width,
        0 <= xb < g.width,
    ensures
        g.carve_horizontal(xa, xb, row).tile(x, y) == (if y == row && min(xa, xb) <= x <= max(
            xa,
            xb,
        ) && !(x == 0 && y == 0) {
            TileType::Floor
        } else {
            g.tile(x, y)
        }),
{
    lemma_index_roundtrip(g, x, y);
    let w = g.width;
    let i = g.index_of(x, y);
    assert(i - row * w == (y - row) * w + x) by (nonlinear_arith)
        requires
            i == y * w + x,
    ;
    assert(y > row ==> (y - row) * w >= w) by (nonlinear_arith)
        requires
            w >= 0,
    ;
    assert(y < row ==> (y - row) * w <= -w) by (nonlinear_arith)
        requires
            w >= 0,
    ;
    assert(y == row ==> (y - row) * w == 0) by (nonlinear_arith);
    lemma_first_cell(g, x, y);
}

/// On a grid that holds the column, a vertical corridor turns the cells of
/// its column between the two rows into floor, but for the grid's first
/// cell, and leaves every other cell as it was.
pub proof fn lemma_carve_vertical_tile(g: GridView, ya: int, yb: int, column: int, x: int, y: int)
    requires
        g.wf(),
        g.in_bounds(x, y),
        0 <= column < g.width,
    ensures
        g.carve_vertical(ya, yb, column).tile(x, y) == (if x == column && min(ya, yb) <= y <= max(
            ya,
            yb,
        ) && !(x == 0 && y == 0) {
            TileType::Floor
        } else {
            g.tile(x, y)
        }),
{
    lemma_index_roundtrip(g, x, y);
    let w = g.width;
    let i = g.index_of(x, y);
    let lo = min(ya, yb);
    let hi = max(ya, yb);
    if in_column_span(w, column, lo, hi, i) {
        let other = choose|other: int| lo <= other <= hi && #[trigger] flat_index(w, column, other) == i;
        assert(other == y && column == x) by (nonlinear_arith)
            requires
                other * w + column == y * w + x,
                0 <= column < w,
                0 <= x < w,
        ;
    }
    if x == column && lo <= y <= hi {
        assert(flat_index(w, column, y) == i);
    }
    lemma_first_cell(g, x, y);
}

/// Among the cells of a grid, only `(0, 0)` has flat index zero.
pub proof fn lemma_first_cell(g: GridView, x: int, y: int)
    requires
        g.wf(),
        g.in_bounds(x, y),
    ensures
        g.index_of(x, y) == 0 <==> (x == 0 && y == 0),
{
    let w = g.width;
    assert(y * w + x == 0 <==> (x == 0 && y == 0)) by (nonlinear_arith)
        requires
            0 <= x < w,
            0 <= y,
    ;
}

/// Carves the corridor tile `(x, y)`.
///
/// The tile is written through its flat index `y * width + x`, and only if
/// that index is greater than zero and less than the number of tiles.
pub fn apply_floor_tile(grid: &mut TileGrid, x: i32, y: i32)
    requires
        old(grid).wf(),
    ensures
        final(grid).wf(),
        final(grid)@ == old(grid)@.carve_tile(x as int, y as int),
{
    let width = grid.width();
    let count = grid.len();
    assert(-0x4000_0000_0000_0000 <= y * width <= 0x4000_0000_0000_0000) by (nonlinear_arith)
        requires
            -0x8000_0000 <= y < 0x8000_0000,
            0 <= width < 0x8000_0000,
    ;
    let idx: i64 = y as i64 * width as i64 + x as i64;
    if idx > 0 && (idx as u64) < (count as u64) {
        grid.set_at(idx as usize, TileType::Floor);
    }
}

/// Carves a horizontal corridor along row `y` between the columns `x1` and
/// `x2`, both included, in either order.
pub fn apply_horizontal_tunnel(grid: &mut TileGrid, x1: i32, x2: i32, y: i32)
    requires
        old(grid).wf(),
    ensures
        final(grid).wf(),
        final(grid)@ == old(grid)@.carve_horizontal(x1 as int, x2 as int, y as int),
{
    let lo: i32 = if x1 <= x2 { x1 } else { x2 };
    let hi: i32 = if x1 <= x2 { x2 } else { x1 };
    let ghost start = grid@;
    let mut x: i64 = lo as i64;
    while x <= hi as i64
        invariant
            lo <= x <= hi + 1,
            lo == min(x1 as int, x2 as int),
            hi == max(x1 as int, x2 as int),
            grid.wf(),
            start.wf(),
            grid@.width == start.width,
            grid@.height == start.height,
            forall|i: int|
                0 <= i < start.tiles.len() ==> #[trigger] grid@.tiles[i] == (if 0 < i
                    && in_row_span(start.width, y as int, lo as int, x - 1, i) {
                    TileType::Floor
                } else {
                    start.tiles[i]
                }),
        decreases hi + 1 - x,
    {
        apply_floor_tile(grid, x as i32, y);
        x += 1;
    }
    assert(grid@ =~= start.carve_horizontal(x1 as int, x2 as int, y as int));
}

/// Carves a vertical corridor along column `x` between the rows `y1` and
/// `y2`, both included, in either order.
pub fn apply_vertical_tunnel(grid: &mut TileGrid, y1: i32, y2: i32, x: i32)
    requires
        old(grid).wf(),
    ensures
        final(grid).wf(),
        final(grid)@ == old(grid)@.carve_vertical(y1 as int, y2 as int, x as int),
{
    let lo: i32 = if y1 <= y2 { y1 } else { y2 };
    let hi: i32 = if y1 <= y2 { y2 } else { y1 };
    let ghost start = grid@;
    let mut y: i64 = lo as i64;
    while y <= hi as i64
        invariant
            lo <= y <= hi + 1,
            lo == min(y1 as int, y2 as int),
            hi == max(y1 as int, y2 as int),
            grid.wf(),
            start.wf(),
            grid@.width == start.width,
            grid@.height == start.height,
            forall|i: int|
                0 <= i < start.tiles.len() ==> #[trigger] grid@.tiles[i] == (if 0 < i
                    && in_column_span(start.width, x as int, lo as int, y - 1, i) {
                    TileType::Floor
                } else {
                    start.tiles[i]
                }),
        decreases hi + 1 - y,
    {
        apply_floor_tile(grid, x, y as i32);
        proof {
            assert forall|i: int| 0 <= i < start.tiles.len() implies #[trigger] grid@.tiles[i] == (
            if 0 < i && in_column_span(start.width, x as int, lo as int, y as int, i) {
                TileType::Floor
            } else {
                start.tiles[i]
            }) by {
                lemma_column_span_step(start.width, x as int, lo as int, y as int, i);
            }
        }
        y += 1;
    }
    assert(grid@ =~= start.carve_vertical(y1 as int, y2 as int, x as int));
}

/// Carves the interior of `room`: every cell `(x, y)` with `x1 < x <= x2` and
/// `y1 < y <= y2` becomes floor.
pub fn apply_room_to_map(room: &Rect, grid: &mut TileGrid)
    requires
        old(grid).wf(),
        old(grid)@.holds_interior(*room),
    ensures
        final(grid).wf(),
        final(grid)@ == old(grid)@.carve_room(*room),
{
    let ghost start = grid@;
    let width = grid.width();
    let height = grid.height();
    if room.x1 >= room.x2 || room.y1 >= room.y2 {
        assert(grid@ =~= start.carve_room(*room));
        return ;
    }
    let mut y: i32 = room.y1 + 1;
    while y <= room.y2
        invariant
            room.wf(),
            start.holds_interior(*room),
            start.width == width,
            start.height == height,
            room.y1 < y <= room.y2 + 1,
            grid.wf(),
            start.wf(),
            grid@.width == start.width,
            grid@.height == start.height,
            forall|i: int|
                0 <= i < start.tiles.len() ==> #[trigger] grid@.tiles[i] == (if room.interior_contains(
                    start.column_of(i),
                    start.row_of(i),
                ) && start.row_of(i) < y {
                    TileType::Floor
                } else {
                    start.tiles[i]
                }),
        decreases room.y2 + 1 - y,
    {
        let mut x: i32 = room.x1 + 1;
        while x <= room.x2
            invariant
                room.wf(),
                start.holds_interior(*room),
                start.width == width,
                start.height == height,
                room.y1 < y <= room.y2,
                room.x1 < x <= room.x2 + 1,
                grid.wf(),
                start.wf(),
                grid@.width == start.width,
                grid@.height == start.height,
                forall|i: int|
                    0 <= i < start.tiles.len() ==> #[trigger] grid@.tiles[i] == (
                    if room.interior_contains(start.column_of(i), start.row_of(i)) && (
                    start.row_of(i) < y || (start.row_of(i) == y && start.column_of(i) < x)) {
                        TileType::Floor
                    } else {
                        start.tiles[i]
                    }),
            decreases room.x2 + 1 - x,
        {
            let ghost before = grid@;
            grid.set(x, y, TileType::Floor);
            proof {
                lemma_index_roundtrip(start, x as int, y as int);
                assert forall|i: int| 0 <= i < start.tiles.len() implies #[trigger] grid@.tiles[i]
                    == (if room.interior_contains(start.column_of(i), start.row_of(i)) && (
                start.row_of(i) < y || (start.row_of(i) == y && start.column_of(i) < x + 1)) {
                    TileType::Floor
                } else {
                    start.tiles[i]
                }) by {
                    lemma_coords_roundtrip(start, i);
                    assert(before.tiles[i] == (if room.interior_contains(
                        start.column_of(i),
                        start.row_of(i),
                    ) && (start.row_of(i) < y || (start.row_of(i) == y && start.column_of(i) < x)) {
                        TileType::Floor
                    } else {
                        start.tiles[i]
                    }));
                }
            }
            x += 1;
        }
        y += 1;
    }
    assert(grid@ =~= start.carve_room(*room));
}

} // verus!
