//! A level under construction: its grid and the rooms accepted so far.
//!
//! Rooms are placed one at a time. A candidate that overlaps or touches an
//! accepted room is rejected and leaves no trace. An accepted room has its
//! interior carved, is joined to the room accepted before it by an L-shaped
//! corridor between the two centers, and is appended to the room list.

use vstd::prelude::*;
use vstd::math::{min, max};
use crate::carve::{
    apply_horizontal_tunnel,
    apply_room_to_map,
    apply_vertical_tunnel,
    lemma_carve_horizontal_tile,
    lemma_carve_room_tile,
    lemma_carve_vertical_tile,
};
use crate::grid::{GridView, TileGrid, TileType};
use crate::rect::{lemma_center_within, Rect};

verus! {

/// Whether the cell `(x, y)` lies on the L-shaped path between the centers of
/// `prev` and `next`.
///
/// Seen from the center of `next`, a horizontal-first path runs along the row
/// of `next` to the column of `prev` and along that column to the center of
/// `prev`; a vertical-first path runs along the column of `next` to the row
/// of `prev` and along that row to the center of `prev`.
pub open spec fn on_path(prev: Rect, next: Rect, horizontal_first: bool, x: int, y: int) -> bool {
    let p = prev.spec_center();
    let n = next.spec_center();
    if horizontal_first {
        ||| y == n.1 && min(p.0, n.0) <= x <= max(p.0, n.0)
        ||| x == p.0 && min(p.1, n.1) <= y <= max(p.1, n.1)
    } else {
        ||| x == n.0 && min(p.1, n.1) <= y <= max(p.1, n.1)
        ||| y == p.1 && min(p.0, n.0) <= x <= max(p.0, n.0)
    }
}

impl GridView {
    /// Whether `room` has a positive size and lies on the grid with a margin
    /// of one cell on every side.
    pub open spec fn admits(self, room: Rect) -> bool {
        &&& room.wf()
        &&& 0 <= room.x1
        &&& room.x2 <= self.width - 2
        &&& 0 <= room.y1
        &&& room.y2 <= self.height - 2
    }

    /// This grid with the corridor between the centers of `prev` and `next`
    /// carved.
    pub open spec fn link(self, prev: Rect, next: Rect, horizontal_first: bool) -> GridView {
        let p = prev.spec_center();
        let n = next.spec_center();
        if horizontal_first {
            self.carve_horizontal(p.0, n.0, n.1).carve_vertical(p.1, n.1, p.0)
        } else {
            self.carve_vertical(p.1, n.1, n.0).carve_horizontal(p.0, n.0, p.1)
        }
    }

    /// Whether every cell on the path between the centers of `prev` and
    /// `next`, other than the grid's first cell, is floor.
    pub open spec fn joins(self, prev: Rect, next: Rect, horizontal_first: bool) -> bool {
        forall|x: int, y: int|
            on_path(prev, next, horizontal_first, x, y) && !(x == 0 && y == 0) ==> #[trigger] self.tile(
                x,
                y,
            ) == TileType::Floor
    }

    /// Whether every cell on the four edges of the grid is a wall.
    pub open spec fn edges_are_walls(self) -> bool {
        forall|x: int, y: int|
            self.in_bounds(x, y) && (x == 0 || y == 0 || x == self.width - 1 || y == self.height
                - 1) ==> #[trigger] self.tile(x, y) == TileType::Wall
    }
}

/// The mathematical model of a level: its grid, and the accepted rooms in the
/// order of their acceptance.
pub struct LevelView {
    pub grid: GridView,
    pub rooms: Seq<Rect>,
}

impl LevelView {
    /// The level of the given dimensions with no room: every cell is a wall.
    pub open spec fn blank(width: int, height: int) -> LevelView {
        LevelView { grid: GridView::blank(width, height), rooms: Seq::empty() }
    }

    /// Whether `candidate` keeps clear of every accepted room.
    pub open spec fn accepts(self, candidate: Rect) -> bool {
        forall|k: int|
            0 <= k < self.rooms.len() ==> !candidate.spec_intersect(#[trigger] self.rooms[k])
    }

    /// Whether placing `room` turns the cell `(x, y)` into floor.
    pub open spec fn carves(self, room: Rect, horizontal_first: bool, x: int, y: int) -> bool {
        ||| room.interior_contains(x, y)
        ||| self.rooms.len() > 0 && on_path(self.rooms.last(), room, horizontal_first, x, y) && !(x
            == 0 && y == 0)
    }

    /// The level after one placement attempt.
    pub open spec fn place(self, candidate: Rect, horizontal_first: bool) -> LevelView {
        if !self.accepts(candidate) {
            self
        } else {
            let carved = self.grid.carve_room(candidate);
            LevelView {
                grid: if self.rooms.len() > 0 {
                    carved.link(self.rooms.last(), candidate, horizontal_first)
                } else {
                    carved
                },
                rooms: self.rooms.push(candidate),
            }
        }
    }

    /// No two accepted rooms overlap or touch.
    pub open spec fn rooms_apart(self) -> bool {
        forall|i: int, j: int|
            0 <= i < self.rooms.len() && 0 <= j < self.rooms.len() && i != j ==> !(
            #[trigger] self.rooms[i]).spec_intersect(#[trigger] self.rooms[j])
    }

    /// The interior of every accepted room is floor.
    pub open spec fn rooms_carved(self) -> bool {
        forall|k: int, x: int, y: int|
            0 <= k < self.rooms.len() && #[trigger] self.rooms[k].interior_contains(x, y)
                ==> self.grid.tile(x, y) == TileType::Floor
    }

    /// Whether the room at position `k` is joined to the one before it by a
    /// path of floor with one of the two bends.
    pub open spec fn joined(self, k: int) -> bool {
        ||| self.grid.joins(self.rooms[k - 1], self.rooms[k], true)
        ||| self.grid.joins(self.rooms[k - 1], self.rooms[k], false)
    }

    /// Every accepted room but the first is joined to the one before it.
    pub open spec fn rooms_joined(self) -> bool {
        forall|k: int| 1 <= k < self.rooms.len() ==> #[trigger] self.joined(k)
    }

    /// Every accepted room is at least two cells wide and two cells tall.
    pub open spec fn spacious(self) -> bool {
        forall|k: int|
            0 <= k < self.rooms.len() ==> (#[trigger] self.rooms[k]).x2 - self.rooms[k].x1 >= 2
                && self.rooms[k].y2 - self.rooms[k].y1 >= 2
    }

    /// No floor lies on the far edges of the grid, and none on the near edges
    /// if every room is at least two cells wide and tall.
    pub open spec fn floor_within_margin(self) -> bool {
        forall|x: int, y: int|
            self.grid.in_bounds(x, y) && #[trigger] self.grid.tile(x, y) == TileType::Floor ==> {
                &&& x <= self.grid.width - 2
                &&& y <= self.grid.height - 2
                &&& self.spacious() ==> 1 <= x && 1 <= y
            }
    }

    /// What holds of a level however it was built.
    pub open spec fn wf(self) -> bool {
        &&& self.grid.wf()
        &&& forall|k: int| 0 <= k < self.rooms.len() ==> self.grid.admits(#[trigger] self.rooms[k])
        &&& self.rooms_apart()
        &&& self.rooms_carved()
        &&& self.rooms_joined()
        &&& self.floor_within_margin()
    }
}

/// The corridor between two rooms that the grid admits turns the cells of its
/// path into floor, but for the grid's first cell, and leaves every other
/// cell as it was.
pub proof fn lemma_link_tile(
    g: GridView,
    prev: Rect,
    next: Rect,
    horizontal_first: bool,
    x: int,
    y: int,
)
    requires
        g.wf(),
        g.admits(prev),
        g.admits(next),
        g.in_bounds(x, y),
    ensures
        g.link(prev, next, horizontal_first).tile(x, y) == (if on_path(
            prev,
            next,
            horizontal_first,
            x,
            y,
        ) && !(x == 0 && y == 0) {
            TileType::Floor
        } else {
            g.tile(x, y)
        }),
{
    lemma_center_within(prev);
    lemma_center_within(next);
    let p = prev.spec_center();
    let n = next.spec_center();
    if horizontal_first {
        let mid = g.carve_horizontal(p.0, n.0, n.1);
        lemma_carve_horizontal_tile(g, p.0, n.0, n.1, x, y);
        lemma_carve_vertical_tile(mid, p.1, n.1, p.0, x, y);
    } else {
        let mid = g.carve_vertical(p.1, n.1, n.0);
        lemma_carve_vertical_tile(g, p.1, n.1, n.0, x, y);
        lemma_carve_horizontal_tile(mid, p.0, n.0, p.1, x, y);
    }
}

/// Placing an accepted room turns the cells of its interior and of its
/// corridor into floor and leaves every other cell as it was.
pub proof fn lemma_place_tile(level: LevelView, room: Rect, horizontal_first: bool, x: int, y: int)
    requires
        level.wf(),
        level.grid.admits(room),
        level.accepts(room),
        level.grid.in_bounds(x, y),
    ensures
        level.place(room, horizontal_first).grid.tile(x, y) == (if level.carves(
            room,
            horizontal_first,
            x,
            y,
        ) {
            TileType::Floor
        } else {
            level.grid.tile(x, y)
        }),
{
    let carved = level.grid.carve_room(room);
    lemma_carve_room_tile(level.grid, room, x, y);
    if level.rooms.len() > 0 {
        lemma_link_tile(carved, level.rooms.last(), room, horizontal_first, x, y);
    }
}

/// A placement attempt with a room that the grid admits keeps the level
/// well-formed.
pub proof fn lemma_place_keeps_wf(level: LevelView, room: Rect, horizontal_first: bool)
    requires
        level.wf(),
        level.grid.admits(room),
    ensures
        level.place(room, horizontal_first).wf(),
        level.place(room, horizontal_first).grid.width == level.grid.width,
        level.place(room, horizontal_first).grid.height == level.grid.height,
{
    if level.accepts(room) {
        let next = level.place(room, horizontal_first);
        let count = level.rooms.len() as int;
        assert(next.grid.wf());
        assert forall|k: int| 0 <= k < next.rooms.len() implies next.grid.admits(
            #[trigger] next.rooms[k],
        ) by {
            if k < count {
                assert(level.grid.admits(level.rooms[k]));
            }
        }
        assert(next.rooms_apart()) by {
            assert forall|i: int, j: int|
                0 <= i < next.rooms.len() && 0 <= j < next.rooms.len() && i != j implies !(
            #[trigger] next.rooms[i]).spec_intersect(#[trigger] next.rooms[j]) by {
                if i < count && j < count {
                    assert(!level.rooms[i].spec_intersect(level.rooms[j]));
                } else if i < count {
                    assert(!room.spec_intersect(level.rooms[i]));
                } else {
                    assert(!room.spec_intersect(level.rooms[j]));
                }
            }
        }
        assert(next.rooms_carved()) by {
            assert forall|k: int, x: int, y: int|
                0 <= k < next.rooms.len() && #[trigger] next.rooms[k].interior_contains(
                    x,
                    y,
                ) implies next.grid.tile(x, y) == TileType::Floor by {
                assert(next.grid.admits(next.rooms[k]));
                lemma_place_tile(level, room, horizontal_first, x, y);
                if k < count {
                    assert(level.rooms[k].interior_contains(x, y));
                }
            }
        }
        assert(next.rooms_joined()) by {
            assert forall|k: int| 1 <= k < next.rooms.len() implies #[trigger] next.joined(k) by {
                let a = next.rooms[k - 1];
                let b = next.rooms[k];
                assert(next.grid.admits(a));
                assert(next.grid.admits(b));
                lemma_center_within(a);
                lemma_center_within(b);
                if k < count {
                    assert(level.joined(k));
                    let h = level.grid.joins(a, b, true);
                    assert forall|x: int, y: int|
                        on_path(a, b, h, x, y) && !(x == 0 && y == 0) implies #[trigger] next.grid.tile(
                        x,
                        y,
                    ) == TileType::Floor by {
                        assert(level.grid.tile(x, y) == TileType::Floor);
                        lemma_place_tile(level, room, horizontal_first, x, y);
                    }
                    assert(next.grid.joins(a, b, h));
                } else {
                    assert(a == level.rooms.last());
                    assert forall|x: int, y: int|
                        on_path(a, b, horizontal_first, x, y) && !(x == 0 && y == 0) implies #[trigger] next.grid.tile(
                        x,
                        y,
                    ) == TileType::Floor by {
                        lemma_place_tile(level, room, horizontal_first, x, y);
                    }
                    assert(next.grid.joins(a, b, horizontal_first));
                }
            }
        }
        assert(next.floor_within_margin()) by {
            if count > 0 {
                assert(level.grid.admits(level.rooms.last()));
                lemma_center_within(level.rooms.last());
            }
            lemma_center_within(room);
            if next.spacious() {
                assert forall|k: int| 0 <= k < level.rooms.len() implies (
                #[trigger] level.rooms[k]).x2 - level.rooms[k].x1 >= 2 && level.rooms[k].y2
                    - level.rooms[k].y1 >= 2 by {
                    assert(next.rooms[k] == level.rooms[k]);
                }
                assert(level.spacious());
                assert(next.rooms[count] == room);
            }
            assert forall|x: int, y: int|
                next.grid.in_bounds(x, y) && #[trigger] next.grid.tile(x, y)
                    == TileType::Floor implies {
                &&& x <= next.grid.width - 2
                &&& y <= next.grid.height - 2
                &&& next.spacious() ==> 1 <= x && 1 <= y
            } by {
                lemma_place_tile(level, room, horizontal_first, x, y);
                if !level.carves(room, horizontal_first, x, y) {
                    assert(level.grid.tile(x, y) == TileType::Floor);
                }
            }
        }
    }
}

/// One placement attempt: the candidate room, and the bend of the corridor
/// that joins it to the room before it if it is accepted.
#[derive(Clone, Copy, Debug, PartialEq, Eq, Structural)]
pub struct Attempt {
    pub room: Rect,
    pub horizontal_first: bool,
}

/// The level that a sequence of placement attempts builds on a blank grid.
pub open spec fn build(width: int, height: int, attempts: Seq<Attempt>) -> LevelView
    decreases attempts.len(),
{
    if attempts.len() == 0 {
        LevelView::blank(width, height)
    } else {
        build(width, height, attempts.drop_last()).place(
            attempts.last().room,
            attempts.last().horizontal_first,
        )
    }
}

/// Whether a grid of the given dimensions admits the room of every attempt.
pub open spec fn all_admitted(width: int, height: int, attempts: Seq<Attempt>) -> bool {
    forall|k: int|
        0 <= k < attempts.len() ==> GridView::blank(width, height).admits(
            (#[trigger] attempts[k]).room,
        )
}

/// The blank level is well-formed.
pub proof fn lemma_blank_wf(width: int, height: int)
    requires
        0 <= width,
        0 <= height,
    ensures
        LevelView::blank(width, height).wf(),
{
    let level = LevelView::blank(width, height);
    assert(0 <= width * height) by (nonlinear_arith)
        requires
            0 <= width,
            0 <= height,
    ;
    assert forall|x: int, y: int|
        level.grid.in_bounds(x, y) && #[trigger] level.grid.tile(x, y)
            == TileType::Floor implies false by {
        crate::grid::lemma_index_roundtrip(level.grid, x, y);
    }
}

/// A level built from attempts whose rooms the grid admits is well-formed
/// and has the dimensions it was built with.
pub proof fn lemma_build_wf(width: int, height: int, attempts: Seq<Attempt>)
    requires
        0 <= width,
        0 <= height,
        all_admitted(width, height, attempts),
    ensures
        build(width, height, attempts).wf(),
        build(width, height, attempts).grid.width == width,
        build(width, height, attempts).grid.height == height,
        build(width, height, attempts).grid.tiles.len() == width * height,
    decreases attempts.len(),
{
    if attempts.len() == 0 {
        lemma_blank_wf(width, height);
    } else {
        let rest = attempts.drop_last();
        assert forall|k: int| 0 <= k < rest.len() implies GridView::blank(width, height).admits(
            (#[trigger] rest[k]).room,
        ) by {
            assert(rest[k] == attempts[k]);
        }
        lemma_build_wf(width, height, rest);
        let last = attempts.last();
        assert(GridView::blank(width, height).admits(attempts[attempts.len() - 1].room));
        lemma_place_keeps_wf(build(width, height, rest), last.room, last.horizontal_first);
    }
}

/// With no attempt the level stays blank: every cell is a wall and there is
/// no room.
pub proof fn lemma_build_nothing(width: int, height: int)
    ensures
        build(width, height, Seq::empty()) == LevelView::blank(width, height),
        build(width, height, Seq::empty()).rooms.len() == 0,
{
}

/// One more attempt is one more placement on the level built so far.
pub proof fn lemma_build_push(width: int, height: int, attempts: Seq<Attempt>, attempt: Attempt)
    ensures
        build(width, height, attempts.push(attempt)) == build(width, height, attempts).place(
            attempt.room,
            attempt.horizontal_first,
        ),
{
    assert(attempts.push(attempt).drop_last() =~= attempts);
}

/// A level has at most one room for each attempt.
pub proof fn lemma_rooms_bounded(width: int, height: int, attempts: Seq<Attempt>)
    ensures
        build(width, height, attempts).rooms.len() <= attempts.len(),
    decreases attempts.len(),
{
    if attempts.len() > 0 {
        lemma_rooms_bounded(width, height, attempts.drop_last());
    }
}

/// The level is a function of the attempts: the same dimensions and the same
/// attempts, in the same order, give the same grid and the same rooms.
pub proof fn lemma_same_attempts_same_level(
    width: int,
    height: int,
    first: Seq<Attempt>,
    second: Seq<Attempt>,
)
    requires
        first.len() == second.len(),
        forall|k: int| 0 <= k < first.len() ==> first[k] == second[k],
    ensures
        build(width, height, first) == build(width, height, second),
{
    assert(first =~= second);
}

/// No two rooms of a built level overlap or touch.
pub proof fn lemma_rooms_never_overlap(
    width: int,
    height: int,
    attempts: Seq<Attempt>,
    i: int,
    j: int,
)
    requires
        0 <= width,
        0 <= height,
        all_admitted(width, height, attempts),
        0 <= i < build(width, height, attempts).rooms.len(),
        0 <= j < build(width, height, attempts).rooms.len(),
        i != j,
    ensures
        !build(width, height, attempts).rooms[i].spec_intersect(
            build(width, height, attempts).rooms[j],
        ),
{
    lemma_build_wf(width, height, attempts);
}

/// Every interior cell of every room of a built level is a cell of the grid
/// and is floor.
pub proof fn lemma_room_interiors_are_floor(
    width: int,
    height: int,
    attempts: Seq<Attempt>,
    k: int,
    x: int,
    y: int,
)
    requires
        0 <= width,
        0 <= height,
        all_admitted(width, height, attempts),
        0 <= k < build(width, height, attempts).rooms.len(),
        build(width, height, attempts).rooms[k].interior_contains(x, y),
    ensures
        build(width, height, attempts).grid.in_bounds(x, y),
        build(width, height, attempts).grid.tile(x, y) == TileType::Floor,
{
    lemma_build_wf(width, height, attempts);
    let level = build(width, height, attempts);
    assert(level.grid.admits(level.rooms[k]));
}

/// Every room of a built level but the first is joined to the room before
/// it: with one of the two bends, every cell on the path between the two
/// centers, other than the grid's first cell, is floor.
pub proof fn lemma_consecutive_rooms_are_joined(
    width: int,
    height: int,
    attempts: Seq<Attempt>,
    k: int,
)
    requires
        0 <= width,
        0 <= height,
        all_admitted(width, height, attempts),
        1 <= k < build(width, height, attempts).rooms.len(),
    ensures
        exists|horizontal_first: bool|
            #[trigger] build(width, height, attempts).grid.joins(
                build(width, height, attempts).rooms[k - 1],
                build(width, height, attempts).rooms[k],
                horizontal_first,
            ),
{
    lemma_build_wf(width, height, attempts);
    let level = build(width, height, attempts);
    assert(level.joined(k));
}

/// A level keeps its edges: the cells of the last column and of the last row
/// are walls, and so are those of the first column and of the first row if
/// every room is at least two cells wide and tall.
pub proof fn lemma_edges_stay_walls(level: LevelView)
    requires
        level.wf(),
    ensures
        forall|x: int, y: int|
            level.grid.in_bounds(x, y) && (x == level.grid.width - 1 || y == level.grid.height
                - 1) ==> #[trigger] level.grid.tile(x, y) == TileType::Wall,
        level.spacious() ==> level.grid.edges_are_walls(),
{
    assert forall|x: int, y: int|
        level.grid.in_bounds(x, y) && (x == level.grid.width - 1 || y == level.grid.height
            - 1) implies #[trigger] level.grid.tile(x, y) == TileType::Wall by {
        if level.grid.tile(x, y) == TileType::Floor {
            assert(false);
        }
    }
    if level.spacious() {
        assert forall|x: int, y: int|
            level.grid.in_bounds(x, y) && (x == 0 || y == 0 || x == level.grid.width - 1 || y
                == level.grid.height - 1) implies #[trigger] level.grid.tile(x, y)
            == TileType::Wall by {
            if level.grid.tile(x, y) == TileType::Floor {
                assert(false);
            }
        }
    }
}

/// A level: the tile grid, and the rooms accepted so far in the order of
/// their acceptance.
#[derive(Debug, PartialEq, Eq)]
pub struct Level {
    grid: TileGrid,
    rooms: Vec<Rect>,
}

impl View for Level {
    type V = LevelView;

    closed spec fn view(&self) -> LevelView {
        LevelView { grid: self.grid@, rooms: self.rooms@ }
    }
}

impl Level {
    /// The rooms lie within the margin and apart from each other, their
    /// interiors are floor, each is joined to the one before it, and the
    /// edges of the grid are untouched.
    pub open spec fn wf(&self) -> bool {
        self@.wf()
    }

    /// A level of the given dimensions with no room and every cell a wall.
    pub fn new(width: i32, height: i32) -> (level: Level)
        requires
            0 <= width,
            0 <= height,
            width * height <= usize::MAX,
        ensures
            level.wf(),
            level@ == LevelView::blank(width as int, height as int),
    {
        proof {
            lemma_blank_wf(width as int, height as int);
        }
        Level { grid: TileGrid::new(width, height), rooms: Vec::new() }
    }

    /// The tile grid.
    pub fn grid(&self) -> (grid: &TileGrid)
        ensures
            grid@ == self@.grid,
    {
        &self.grid
    }

    /// The accepted rooms in the order of their acceptance.
    pub fn rooms(&self) -> (rooms: &Vec<Rect>)
        ensures
            rooms@ == self@.rooms,
    {
        &self.rooms
    }

    /// Gives up the level for its tile grid.
    pub fn into_grid(self) -> (grid: TileGrid)
        ensures
            grid@ == self@.grid,
    {
        self.grid
    }

    /// Whether `room` has a positive size and lies on the grid with a margin
    /// of one cell on every side.
    pub fn admits(&self, room: &Rect) -> (ok: bool)
        ensures
            ok == self@.grid.admits(*room),
    {
        let width = self.grid.width();
        let height = self.grid.height();
        room.x1 < room.x2 && room.y1 < room.y2 && 0 <= room.x1 && 0 <= room.y1 && width >= 2
            && height >= 2 && room.x2 <= width - 2 && room.y2 <= height - 2
    }

    /// Whether `candidate` keeps clear of every accepted room: it neither
    /// overlaps nor touches one.
    pub fn accepts(&self, candidate: &Rect) -> (ok: bool)
        ensures
            ok == self@.accepts(*candidate),
    {
        let mut k: usize = 0;
        while k < self.rooms.len()
            invariant
                k <= self.rooms.len(),
                forall|j: int| 0 <= j < k ==> !candidate.spec_intersect(#[trigger] self.rooms@[j]),
            decreases self.rooms.len() - k,
        {
            if candidate.intersect(&self.rooms[k]) {
                assert(candidate.spec_intersect(self@.rooms[k as int]));
                return false;
            }
            k += 1;
        }
        true
    }

    /// Adds a room that the level admits and accepts: carves its interior,
    /// joins it to the room accepted before it, if there is one, and appends
    /// it to the room list.
    pub fn add_room(&mut self, room: Rect, horizontal_first: bool)
        requires
            old(self).wf(),
            old(self)@.grid.admits(room),
            old(self)@.accepts(room),
        ensures
            final(self).wf(),
            final(self)@ == old(self)@.place(room, horizontal_first),
    {
        proof {
            lemma_place_keeps_wf(self@, room, horizontal_first);
        }
        apply_room_to_map(&room, &mut self.grid);
        let count = self.rooms.len();
        if count > 0 {
            let prev = self.rooms[count - 1];
            let (next_x, next_y) = room.center();
            let (prev_x, prev_y) = prev.center();
            if horizontal_first {
                apply_horizontal_tunnel(&mut self.grid, prev_x, next_x, next_y);
                apply_vertical_tunnel(&mut self.grid, prev_y, next_y, prev_x);
            } else {
                apply_vertical_tunnel(&mut self.grid, prev_y, next_y, next_x);
                apply_horizontal_tunnel(&mut self.grid, prev_x, next_x, prev_y);
            }
        }
        self.rooms.push(room);
    }
}

} // verus!
