//! The dungeon generator: a fixed number of placement attempts, each with a
//! room drawn from the random source.

use vstd::prelude::*;
use rltk::RandomNumberGenerator;
use crate::level::{build, lemma_build_push, lemma_edges_stay_walls, Attempt, Level, LevelView};
use crate::random::{range, roll_dice};
use crate::rect::Rect;

verus! {

/// Whether `room` is one that the sampler can draw: its width and height lie
/// in `min_size..=max_size`, and it lies on a grid of the given dimensions
/// with a margin of one cell on every side.
pub open spec fn sampled(width: int, height: int, min_size: int, max_size: int, room: Rect) -> bool {
    &&& min_size <= room.x2 - room.x1 <= max_size
    &&& min_size <= room.y2 - room.y1 <= max_size
    &&& 0 <= room.x1
    &&& room.x2 <= width - 2
    &&& 0 <= room.y1
    &&& room.y2 <= height - 2
}

/// Whether the room of every attempt is one that the sampler can draw.
pub open spec fn all_sampled(
    width: int,
    height: int,
    min_size: int,
    max_size: int,
    attempts: Seq<Attempt>,
) -> bool {
    forall|k: int|
        0 <= k < attempts.len() ==> sampled(
            width,
            height,
            min_size,
            max_size,
            (#[trigger] attempts[k]).room,
        )
}

/// The number of origins along an axis of `extent` cells at which a room of
/// `size` cells keeps the margin: `extent - size - 1`, or zero if that is
/// negative.
pub fn origin_span(extent: i32, size: i32) -> (span: i32)
    requires
        0 <= extent,
        0 < size,
    ensures
        span == if extent - size - 1 > 0 {
            extent - size - 1
        } else {
            0
        },
{
    let span: i32 = extent - size - 1;
    if span > 0 {
        span
    } else {
        0
    }
}

/// Draws a candidate room: a width and a height from
/// `min_room_size..=max_room_size`, then an origin that keeps a margin of one
/// cell on every side of the grid. Where the drawn size leaves no such
/// origin, there is no candidate.
pub fn sample_room(
    width: i32,
    height: i32,
    min_room_size: i32,
    max_room_size: i32,
    rng: &mut RandomNumberGenerator,
) -> (candidate: Option<Rect>)
    requires
        0 <= width,
        0 <= height,
        0 < min_room_size <= max_room_size < i32::MAX,
    ensures
        candidate matches Some(room) ==> sampled(
            width as int,
            height as int,
            min_room_size as int,
            max_room_size as int,
            room,
        ),
        width >= max_room_size + 2 && height >= max_room_size + 2 ==> candidate is Some,
        width < min_room_size + 2 || height < min_room_size + 2 ==> candidate is None,
{
    let w = range(rng, min_room_size, max_room_size + 1);
    let h = range(rng, min_room_size, max_room_size + 1);
    let span_x = origin_span(width, w);
    let span_y = origin_span(height, h);
    if span_x < 1 || span_y < 1 {
        return None;
    }
    let x = roll_dice(rng, 1, span_x) - 1;
    let y = roll_dice(rng, 1, span_y) - 1;
    Some(Rect::new(x, y, w, h))
}

/// Generates a level: starts from a grid of walls and makes `max_attempts`
/// placement attempts, each with a freshly drawn candidate room. A candidate
/// that overlaps or touches an accepted room is dropped. An accepted room is
/// carved and joined to the room accepted before it by a corridor whose bend
/// a coin flip chooses.
///
/// A draw whose size leaves no origin on the grid spends its attempt without
/// a candidate, so a grid too small for any room stays a grid of walls.
///
/// Whatever the random source yields, the level is the one that some
/// sequence of drawable attempts builds, one attempt for each draw that gave
/// a candidate.
pub fn generate(
    width: i32,
    height: i32,
    max_attempts: usize,
    min_room_size: i32,
    max_room_size: i32,
    rng: &mut RandomNumberGenerator,
) -> (level: Level)
    requires
        0 <= width,
        0 <= height,
        width * height <= usize::MAX,
        0 < min_room_size <= max_room_size < i32::MAX,
    ensures
        level.wf(),
        level@.grid.width == width,
        level@.grid.height == height,
        level@.grid.tiles.len() == width * height,
        exists|attempts: Seq<Attempt>|
            {
                &&& attempts.len() <= max_attempts
                &&& width >= max_room_size + 2 && height >= max_room_size + 2 ==> attempts.len()
                    == max_attempts
                &&& all_sampled(
                    width as int,
                    height as int,
                    min_room_size as int,
                    max_room_size as int,
                    attempts,
                )
                &&& level@ == #[trigger] build(width as int, height as int, attempts)
            },
        forall|k: int|
            0 <= k < level@.rooms.len() ==> sampled(
                width as int,
                height as int,
                min_room_size as int,
                max_room_size as int,
                #[trigger] level@.rooms[k],
            ),
        level@.rooms.len() <= max_attempts,
        max_attempts == 0 ==> level@ == LevelView::blank(width as int, height as int),
        min_room_size >= 2 ==> level@.grid.edges_are_walls(),
{
    let mut level = Level::new(width, height);
    let ghost mut tried: Seq<Attempt> = Seq::empty();
    let mut i: usize = 0;
    while i < max_attempts
        invariant
            0 <= width,
            0 <= height,
            0 < min_room_size <= max_room_size < i32::MAX,
            i <= max_attempts,
            level.wf(),
            level@.grid.width == width,
            level@.grid.height == height,
            level@ == build(width as int, height as int, tried),
            tried.len() <= i,
            level@.rooms.len() <= i,
            width >= max_room_size + 2 && height >= max_room_size + 2 ==> tried.len() == i,
            all_sampled(
                width as int,
                height as int,
                min_room_size as int,
                max_room_size as int,
                tried,
            ),
            forall|k: int|
                0 <= k < level@.rooms.len() ==> sampled(
                    width as int,
                    height as int,
                    min_room_size as int,
                    max_room_size as int,
                    #[trigger] level@.rooms[k],
                ),
        decreases max_attempts - i,
    {
        match sample_room(width, height, min_room_size, max_room_size, rng) {
            Some(candidate) => {
                let ghost before = level@;
                let mut horizontal_first = false;
                if level.accepts(&candidate) {
                    if level.rooms().len() > 0 {
                        horizontal_first = range(rng, 0, 2) == 1;
                    }
                    level.add_room(candidate, horizontal_first);
                }
                proof {
                    let attempt = Attempt { room: candidate, horizontal_first };
                    lemma_build_push(width as int, height as int, tried, attempt);
                    tried = tried.push(attempt);
                    assert(level@ == before.place(candidate, horizontal_first));
                }
            },
            None => {},
        }
        i += 1;
    }
    proof {
        lemma_edges_stay_walls(level@);
        if min_room_size >= 2 {
            assert(level@.spacious());
        }
        assert(level@.grid.wf());
    }
    level
}

} // verus!
