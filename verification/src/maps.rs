//! Ready-made maps of the default size.

use vstd::prelude::*;
use rltk::RandomNumberGenerator;
use crate::carve::{apply_horizontal_tunnel, apply_room_to_map};
use crate::grid::{flat_index, xy_idx, GridView, TileGrid, TileType, MAX_HEIGHT, MAX_WIDTH};
use crate::random::roll_dice;
use crate::rect::Rect;

verus! {

/// The number of walls that the test map scatters.
pub const SCATTERED_WALLS: i32 = 400;

/// The grid of the default size with two rooms side by side and a corridor
/// between them.
pub open spec fn two_room_grid() -> GridView {
    GridView::blank(MAX_WIDTH as int, MAX_HEIGHT as int).carve_room(
        Rect::spec_new(20, 15, 10, 15),
    ).carve_room(Rect::spec_new(35, 15, 10, 15)).carve_horizontal(25, 40, 23)
}

/// Makes a map of the default size with two rooms, ten cells wide and
/// fifteen tall, and a horizontal corridor that joins them.
pub fn new_map_rooms_and_corridors() -> (map: Vec<TileType>)
    ensures
        map@ == two_room_grid().tiles,
        map@.len() == MAX_WIDTH * MAX_HEIGHT,
{
    let mut grid = TileGrid::new(MAX_WIDTH, MAX_HEIGHT);
    let room1 = Rect::new(20, 15, 10, 15);
    let room2 = Rect::new(35, 15, 10, 15);
    apply_room_to_map(&room1, &mut grid);
    apply_room_to_map(&room2, &mut grid);
    apply_horizontal_tunnel(&mut grid, 25, 40, 23);
    grid.into_tiles()
}

/// Whether the tile at flat index `i` of a map of the default size lies on
/// one of the four edges.
pub open spec fn on_border(i: int) -> bool {
    let x = i % (MAX_WIDTH as int);
    let y = i / (MAX_WIDTH as int);
    x == 0 || x == MAX_WIDTH - 1 || y == 0 || y == MAX_HEIGHT - 1
}

/// The flat index of the middle of a map of the default size.
pub open spec fn middle_index() -> int {
    flat_index(MAX_WIDTH as int, MAX_WIDTH as int / 2, MAX_HEIGHT as int / 2)
}

/// Whether one of the coordinate pairs in `hits` has the flat index `i`.
pub open spec fn hit(hits: Seq<(int, int)>, i: int) -> bool {
    exists|k: int|
        0 <= k < hits.len() && flat_index(MAX_WIDTH as int, (#[trigger] hits[k]).0, hits[k].1) == i
}

/// The test map for the given scattered coordinates: walls on the border and
/// at every hit but the middle of the map, floor elsewhere.
pub open spec fn test_map(hits: Seq<(int, int)>) -> Seq<TileType> {
    Seq::new(
        (MAX_WIDTH * MAX_HEIGHT) as nat,
        |i: int|
            if on_border(i) || (i != middle_index() && hit(hits, i)) {
                TileType::Wall
            } else {
                TileType::Floor
            },
    )
}

/// One more coordinate pair hits its own flat index and no other.
proof fn lemma_hit_push(hits: Seq<(int, int)>, x: int, y: int, i: int)
    ensures
        hit(hits.push((x, y)), i) == (hit(hits, i) || i == flat_index(MAX_WIDTH as int, x, y)),
{
    let more = hits.push((x, y));
    if hit(more, i) {
        let k = choose|k: int|
            0 <= k < more.len() && flat_index(MAX_WIDTH as int, (#[trigger] more[k]).0, more[k].1)
                == i;
        if k < hits.len() {
            assert(hits[k] == more[k]);
        }
    }
    if hit(hits, i) {
        let k = choose|k: int|
            0 <= k < hits.len() && flat_index(MAX_WIDTH as int, (#[trigger] hits[k]).0, hits[k].1)
                == i;
        assert(more[k] == hits[k]);
    }
    if i == flat_index(MAX_WIDTH as int, x, y) {
        assert(more[hits.len() as int] == (x, y));
    }
}

/// Turns the cell `(x, y)` of a map of the default size into a wall, unless
/// it is the middle of the map.
pub fn scatter_wall(map: &mut Vec<TileType>, x: i32, y: i32)
    requires
        old(map)@.len() == MAX_WIDTH * MAX_HEIGHT,
        0 <= x < MAX_WIDTH,
        0 <= y < MAX_HEIGHT,
    ensures
        final(map)@ == (if flat_index(MAX_WIDTH as int, x as int, y as int) != middle_index() {
            old(map)@.update(flat_index(MAX_WIDTH as int, x as int, y as int), TileType::Wall)
        } else {
            old(map)@
        }),
{
    let idx = xy_idx(x, y);
    if idx != xy_idx(MAX_WIDTH / 2, MAX_HEIGHT / 2) {
        map.set(idx, TileType::Wall);
    }
}

/// Makes a map of the default size with solid boundaries and four hundred
/// walls scattered at random; the middle of the map is kept free.
///
/// Whatever the dice show, the map is the test map of some four hundred
/// coordinate pairs off the first row and the first column.
pub fn new_map_test() -> (map: Vec<TileType>)
    ensures
        exists|hits: Seq<(int, int)>|
            {
                &&& hits.len() == SCATTERED_WALLS
                &&& forall|k: int|
                    0 <= k < hits.len() ==> 1 <= (#[trigger] hits[k]).0 < MAX_WIDTH && 1
                        <= hits[k].1 < MAX_HEIGHT
                &&& map@ == #[trigger] test_map(hits)
            },
{
    let mut map: Vec<TileType> = Vec::new();
    let mut n: usize = 0;
    while n < 4000
        invariant
            n <= 4000,
            map@.len() == n,
            forall|i: int| 0 <= i < n ==> map@[i] == TileType::Floor,
        decreases 4000 - n,
    {
        map.push(TileType::Floor);
        n += 1;
    }

    let mut x: i32 = 0;
    while x < MAX_WIDTH
        invariant
            0 <= x <= MAX_WIDTH,
            map@.len() == 4000,
            forall|i: int|
                0 <= i < 4000 ==> #[trigger] map@[i] == (if (i / 80 == 0 || i / 80 == 49) && i % 80
                    < x {
                    TileType::Wall
                } else {
                    TileType::Floor
                }),
        decreases MAX_WIDTH - x,
    {
        map.set(xy_idx(x, 0), TileType::Wall);
        map.set(xy_idx(x, MAX_HEIGHT - 1), TileType::Wall);
        x += 1;
    }

    let mut y: i32 = 0;
    while y < MAX_HEIGHT
        invariant
            0 <= y <= MAX_HEIGHT,
            map@.len() == 4000,
            forall|i: int|
                0 <= i < 4000 ==> #[trigger] map@[i] == (if i / 80 == 0 || i / 80 == 49 || ((i % 80
                    == 0 || i % 80 == 79) && i / 80 < y) {
                    TileType::Wall
                } else {
                    TileType::Floor
                }),
        decreases MAX_HEIGHT - y,
    {
        map.set(xy_idx(0, y), TileType::Wall);
        map.set(xy_idx(MAX_WIDTH - 1, y), TileType::Wall);
        y += 1;
    }

    let mut rng = RandomNumberGenerator::new();
    let ghost mut hits: Seq<(int, int)> = Seq::empty();
    let mut count: i32 = 0;
    while count < SCATTERED_WALLS
        invariant
            0 <= count <= SCATTERED_WALLS,
            hits.len() == count,
            forall|k: int|
                0 <= k < hits.len() ==> 1 <= (#[trigger] hits[k]).0 < MAX_WIDTH && 1 <= hits[k].1
                    < MAX_HEIGHT,
            map@.len() == 4000,
            map@ == test_map(hits),
        decreases SCATTERED_WALLS - count,
    {
        let x = roll_dice(&mut rng, 1, MAX_WIDTH - 1);
        let y = roll_dice(&mut rng, 1, MAX_HEIGHT - 1);
        scatter_wall(&mut map, x, y);
        proof {
            let more = hits.push((x as int, y as int));
            assert forall|i: int| 0 <= i < 4000 implies map@[i] == test_map(more)[i] by {
                lemma_hit_push(hits, x as int, y as int, i);
                assert(test_map(hits)[i] == (if on_border(i) || (i != middle_index() && hit(
                    hits,
                    i,
                )) {
                    TileType::Wall
                } else {
                    TileType::Floor
                }));
            }
            assert(map@ =~= test_map(more));
            hits = more;
        }
        count += 1;
    }
    map
}

} // verus!
