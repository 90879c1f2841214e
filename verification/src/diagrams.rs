//! Diagrams of the board, as text.

use crate::coordinate::Vec2;
use hext_boards::HexagonalBoard;
use vstd::prelude::*;

verus! {

/// The drawing, as text, of the hexagons at the given coordinates, each with
/// its character in the middle.
pub uninterp spec fn spec_hexagons_text(cells: Seq<(int, int, char)>) -> Seq<char>;

/// The cells as mathematical values.
pub open spec fn cells_view(cells: Seq<(i32, i32, char)>) -> Seq<(int, int, char)> {
    Seq::new(cells.len(), |i: int| (cells[i].0 as int, cells[i].1 as int, cells[i].2))
}

/// Collects the cells into a `HexagonalBoard` of the crate `hext_boards` and
/// calls its `render_with`, which draws every hexagon with its character in
/// the middle and returns the drawing as text.
///
/// The crate keeps the cells in a hash map, but sorts what it draws by line
/// and column, and what it draws at a place does not depend on the order in
/// which it visits the cells, so the text is determined by the cells. It
/// reads the last place of the drawing, which an empty board does not have,
/// and computes with `i32`: both are excluded here.
#[verifier::external_body]
pub(crate) fn hexagons_text(cells: &Vec<(i32, i32, char)>) -> (text: String)
    requires
        cells@.len() > 0,
        forall|i: int|
            0 <= i < cells@.len() ==> -1000 <= (#[trigger] cells@[i]).0 <= 1000 && -1000
                <= cells@[i].1 <= 1000,
    ensures
        text@ == spec_hexagons_text(cells_view(cells@)),
{
    let board: HexagonalBoard<char> = cells.iter().map(|cell| ([cell.0, cell.1], cell.2)).collect();
    board.render_with(|glyph| *glyph)
}

/// The cell of the tile at place `i` of the list of tiles, with the `i`-th
/// of the given characters on it.
pub open spec fn tile_cells(glyphs: Seq<char>) -> Seq<(int, int, char)> {
    Seq::new(
        91,
        |i: int| (Vec2::tile_at(i).x as int, Vec2::tile_at(i).y as int, glyphs[i]),
    )
}

/// Returns the diagram of the board in which each tile holds its character:
/// `glyphs` gives one character per tile, the tiles taken by `x`, then by
/// `y`.
pub fn visualize_tiles(glyphs: &Vec<char>) -> (text: String)
    requires
        glyphs@.len() == 91,
    ensures
        text@ == spec_hexagons_text(tile_cells(glyphs@)),
{
    let tiles = Vec2::iter();
    let mut cells: Vec<(i32, i32, char)> = Vec::new();
    let mut i: usize = 0;
    while i < 91
        invariant
            i <= 91,
            glyphs@.len() == 91,
            tiles@ == Vec2::tiles(),
            cells@.len() == i,
            forall|k: int|
                0 <= k < i ==> (#[trigger] cells@[k]) == (
                    Vec2::tile_at(k).x as i32,
                    Vec2::tile_at(k).y as i32,
                    glyphs@[k],
                ),
        decreases 91 - i,
    {
        let position = tiles[i];
        cells.push((position.x() as i32, position.y() as i32, glyphs[i]));
        i += 1;
    }
    assert(cells_view(cells@) =~= tile_cells(glyphs@));
    hexagons_text(&cells)
}

/// Whether `glyph` is a character that the two functions may give for the
/// tile at place `i`: the character that `to_char` gives for an answer of
/// `property` on the tile.
pub open spec fn shows<T, P: Fn(Vec2) -> T, C: Fn(&T) -> char>(
    property: P,
    to_char: C,
    i: int,
    glyph: char,
) -> bool {
    exists|value: T|
        property.ensures((Vec2::tile_at(i),), value) && #[trigger] to_char.ensures(
            (&value,),
            glyph,
        )
}

/// Returns the diagram of the board where each tile holds the character of
/// some property of the tile: `property` is asked for each tile, the tiles
/// taken by `x`, then by `y`, and `to_char` for the character of each
/// answer.
pub fn visualize_tile_property<T, P: Fn(Vec2) -> T, C: Fn(&T) -> char>(
    property: P,
    to_char: C,
) -> (text: String)
    requires
        forall|position: Vec2| position.wf() ==> property.requires((position,)),
        forall|value: T| to_char.requires((&value,)),
    ensures
        exists|glyphs: Seq<char>|
            {
                &&& glyphs.len() == 91
                &&& forall|i: int| 0 <= i < 91 ==> #[trigger] shows(property, to_char, i, glyphs[i])
                &&& text@ == #[trigger] spec_hexagons_text(tile_cells(glyphs))
            },
{
    let tiles = Vec2::iter();
    let mut glyphs: Vec<char> = Vec::new();
    let mut i: usize = 0;
    while i < 91
        invariant
            i <= 91,
            tiles@ == Vec2::tiles(),
            glyphs@.len() == i,
            forall|position: Vec2| position.wf() ==> property.requires((position,)),
            forall|value: T| to_char.requires((&value,)),
            forall|k: int| 0 <= k < i ==> #[trigger] shows(property, to_char, k, glyphs@[k]),
        decreases 91 - i,
    {
        proof {
            Vec2::lemma_tiles(i as int);
        }
        let value = property(tiles[i]);
        let glyph = to_char(&value);
        assert(shows(property, to_char, i as int, glyph));
        glyphs.push(glyph);
        i += 1;
    }
    visualize_tiles(&glyphs)
}

} // verus!
