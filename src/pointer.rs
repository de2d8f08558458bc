use vstd::arithmetic::div_mod::lemma_fundamental_div_mod_converse;
use vstd::prelude::*;

verus! {

/// A point or a size on a drawing surface, in whole pixels; `y` grows downwards.
#[derive(Debug, Clone, Copy, PartialEq, Eq, Structural)]
pub struct Vec2i {
    pub x: i32,
    pub y: i32,
}

/// A grid cell: `x` is its column, `y` its row.
#[derive(Debug, Clone, Copy, PartialEq, Eq, Structural)]
pub struct GridCoordinates {
    pub x: i32,
    pub y: i32,
}

/// `v` clamped into the range of `i32`.
pub open spec fn saturate_i32(v: int) -> i32 {
    if v < i32::MIN {
        i32::MIN
    } else if v > i32::MAX {
        i32::MAX
    } else {
        v as i32
    }
}

/// The cell index along one axis for pointer coordinate `p` on a surface of
/// extent `surface`, over a board of `cells` cells of `cell_size` pixels drawn
/// centred on the surface: `1/2 + cells/2 + (p - surface/2) / cell_size`,
/// rounded down and saturated to `i32`. A pointer left of or above the board
/// gives a negative index.
pub open spec fn axis_cell(p: int, surface: int, cells: int, cell_size: int) -> i32 {
    saturate_i32((cell_size + cells * cell_size + 2 * p - surface) / (2 * cell_size))
}

/// The cell under the pointer, or `None` when there is no pointer.
pub open spec fn pointer_cell(
    pointer: Option<Vec2i>,
    surface: Vec2i,
    board_height: int,
    board_width: int,
    cell_size: int,
) -> Option<GridCoordinates> {
    match pointer {
        None => None,
        Some(p) => Some(
            GridCoordinates {
                x: axis_cell(p.x as int, surface.x as int, board_width, cell_size),
                y: axis_cell(p.y as int, surface.y as int, board_height, cell_size),
            },
        ),
    }
}

/// One axis of `map_pointer`.
fn axis_index(p: i32, surface: i32, cells: i32, cell_size: i32) -> (r: i32)
    requires
        cell_size > 0,
    ensures
        r == axis_cell(p as int, surface as int, cells as int, cell_size as int),
{
    let cs = cell_size as i64;
    let n = cells as i64;
    assert(-0x8000_0000 * 0x7fff_ffff <= n * cs <= 0x7fff_ffff * 0x7fff_ffff) by (nonlinear_arith)
        requires
            0 < cs <= 0x7fff_ffff,
            -0x8000_0000 <= n <= 0x7fff_ffff,
    ;
    let num: i64 = cs + n * cs + 2 * (p as i64) - surface as i64;
    let den: i64 = 2 * cs;
    let q: i64 = if num >= 0 {
        num / den
    } else {
        -((-num + den - 1) / den)
    };
    proof {
        if num < 0 {
            let m = (-num + den - 1) / (den as int);
            assert(-num + den - 1 == m * den + (-num + den - 1) % (den as int)) by (nonlinear_arith)
                requires den > 0, m == (-num + den - 1) / (den as int);
            assert(num == (-m) * den + (den - 1 - (-num + den - 1) % (den as int))) by (nonlinear_arith)
                requires -num + den - 1 == m * den + (-num + den - 1) % (den as int);
            lemma_fundamental_div_mod_converse(num as int, den as int, -m, den - 1 - (-num + den - 1) % (den as int));
        }
    }
    if q < i32::MIN as i64 {
        i32::MIN
    } else if q > i32::MAX as i64 {
        i32::MAX
    } else {
        q as i32
    }
}

/// Maps a pointer position on the surface to the board cell beneath it,
/// for a board of `board_height` by `board_width` cells of `cell_size`
/// pixels drawn centred on the surface. The result is not clamped to the
/// board: a pointer beside the board gives a cell outside it.
pub fn map_pointer(
    pointer: Option<Vec2i>,
    surface: Vec2i,
    board_height: i32,
    board_width: i32,
    cell_size: i32,
) -> (r: Option<GridCoordinates>)
    requires
        cell_size > 0,
    ensures
        r == pointer_cell(pointer, surface, board_height as int, board_width as int, cell_size as int),
{
    match pointer {
        None => None,
        Some(p) => Some(
            GridCoordinates {
                x: axis_index(p.x, surface.x, board_width, cell_size),
                y: axis_index(p.y, surface.y, board_height, cell_size),
            },
        ),
    }
}

/// The centre of the cell at `index` along one axis maps back to `index`.
proof fn lemma_axis_centre(p: int, surface: int, cells: int, cell_size: int, index: int)
    requires
        cell_size > 0,
        0 <= index < cells,
        cells <= i32::MAX,
        2 * p == surface + (2 * index - cells) * cell_size,
    ensures
        axis_cell(p, surface, cells, cell_size) == index,
{
    let num = cell_size + cells * cell_size + 2 * p - surface;
    assert(num == index * (2 * cell_size) + cell_size) by (nonlinear_arith)
        requires
            num == cell_size + cells * cell_size + 2 * p - surface,
            2 * p == surface + (2 * index - cells) * cell_size,
    ;
    lemma_fundamental_div_mod_converse(num, 2 * cell_size, index, cell_size);
}

/// A pointer at the exact centre of a board cell maps back to that cell.
pub proof fn lemma_cell_centre_maps_back(
    surface: Vec2i,
    board_height: i32,
    board_width: i32,
    cell_size: i32,
    row: i32,
    col: i32,
    pointer: Vec2i,
)
    requires
        cell_size > 0,
        0 <= row < board_height,
        0 <= col < board_width,
        2 * pointer.x == surface.x + (2 * col - board_width) * cell_size,
        2 * pointer.y == surface.y + (2 * row - board_height) * cell_size,
    ensures
        pointer_cell(Some(pointer), surface, board_height as int, board_width as int, cell_size as int)
            == Some(GridCoordinates { x: col, y: row }),
{
    lemma_axis_centre(pointer.x as int, surface.x as int, board_width as int, cell_size as int, col as int);
    lemma_axis_centre(pointer.y as int, surface.y as int, board_height as int, cell_size as int, row as int);
}

} // verus!
