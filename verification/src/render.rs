//! What a renderer needs to know of a tile: the glyph that stands for it.

use vstd::prelude::*;
use crate::grid::TileType;

verus! {

/// The code that `rltk::to_cp437` gives the character `c` in code page 437.
pub uninterp spec fn cp437_of(c: char) -> u16;

/// Calls `rltk::to_cp437`, a table from characters to codes of code page 437
/// that maps what it does not hold to zero. The result is named, and the two
/// entries that the library uses are stated: `#` has the code 35 and `.` the
/// code 46.
#[verifier::external_body]
pub(crate) fn to_cp437(c: char) -> (glyph: u16)
    ensures
        glyph == cp437_of(c),
        c == '#' ==> glyph == 35,
        c == '.' ==> glyph == 46,
{
    rltk::to_cp437(c)
}

/// The character that stands for a tile: `#` for a wall, `.` for floor.
pub open spec fn tile_symbol(tile: TileType) -> char {
    match tile {
        TileType::Wall => '#',
        TileType::Floor => '.',
    }
}

/// The glyph that stands for a tile, as a code of code page 437.
pub fn tile_glyph(tile: TileType) -> (glyph: u16)
    ensures
        glyph == cp437_of(tile_symbol(tile)),
        glyph == match tile {
            TileType::Wall => 35u16,
            TileType::Floor => 46u16,
        },
{
    match tile {
        TileType::Wall => to_cp437('#'),
        TileType::Floor => to_cp437('.'),
    }
}

} // verus!
