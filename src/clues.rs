use crate::board::{grid_of, grid_shaped, Board, BoardValue};
use vstd::prelude::*;

verus! {

/// Whether `(r, c)` lies on the grid and holds a bomb; cells off the grid hold none.
pub open spec fn bomb_at(g: Seq<Seq<BoardValue>>, r: int, c: int) -> bool {
    &&& 0 <= r < g.len()
    &&& 0 <= c < g[r].len()
    &&& g[r][c] == BoardValue::Bomb
}

/// 1 for a bomb at `(r, c)`, else 0.
pub open spec fn bomb_weight(g: Seq<Seq<BoardValue>>, r: int, c: int) -> int {
    if bomb_at(g, r, c) {
        1
    } else {
        0
    }
}

/// The number of bombs among the up to eight neighbours of `(r, c)`.
pub open spec fn adjacent_bombs(g: Seq<Seq<BoardValue>>, r: int, c: int) -> int {
    bomb_weight(g, r - 1, c - 1) + bomb_weight(g, r - 1, c) + bomb_weight(g, r - 1, c + 1)
        + bomb_weight(g, r, c - 1) + bomb_weight(g, r, c + 1) + bomb_weight(g, r + 1, c - 1)
        + bomb_weight(g, r + 1, c) + bomb_weight(g, r + 1, c + 1)
}

/// The value of a cell without a bomb that has `n` bombs around it.
pub open spec fn clue_for(n: int) -> BoardValue {
    if n == 0 {
        BoardValue::Empty
    } else {
        BoardValue::Clue(n as i32)
    }
}

/// Whether a value, if it is a clue, counts between 1 and 8 bombs.
pub open spec fn clue_in_range(v: BoardValue) -> bool {
    match v {
        BoardValue::Clue(n) => 1 <= n <= 8,
        _ => true,
    }
}

/// The value that clue derivation gives the cell `(r, c)`.
pub open spec fn derived_cell(g: Seq<Seq<BoardValue>>, r: int, c: int) -> BoardValue {
    if g[r][c] == BoardValue::Bomb {
        BoardValue::Bomb
    } else {
        clue_for(adjacent_bombs(g, r, c))
    }
}

/// The grid with bombs kept and every other cell replaced by its clue.
pub open spec fn derive_clues(g: Seq<Seq<BoardValue>>) -> Seq<Seq<BoardValue>> {
    Seq::new(g.len(), |r: int| Seq::new(g[r].len(), |c: int| derived_cell(g, r, c)))
}

/// Whether `(r, c)` lies on a `height` by `width` grid.
pub open spec fn on_grid(height: int, width: int, r: int, c: int) -> bool {
    0 <= r < height && 0 <= c < width
}

/// 1 when `(r, c)` lies on the grid, else 0.
pub open spec fn cell_weight(height: int, width: int, r: int, c: int) -> int {
    if on_grid(height, width, r, c) {
        1
    } else {
        0
    }
}

/// How many of the eight neighbours of `(r, c)` lie on a `height` by `width` grid.
pub open spec fn neighbours_on_grid(height: int, width: int, r: int, c: int) -> int {
    cell_weight(height, width, r - 1, c - 1) + cell_weight(height, width, r - 1, c)
        + cell_weight(height, width, r - 1, c + 1) + cell_weight(height, width, r, c - 1)
        + cell_weight(height, width, r, c + 1) + cell_weight(height, width, r + 1, c - 1)
        + cell_weight(height, width, r + 1, c) + cell_weight(height, width, r + 1, c + 1)
}

/// Whether the board at `(row, col)` holds a bomb; positions off the board hold none.
fn has_bomb(board: &Board, row: i64, col: i64) -> (r: bool)
    requires
        board.wf(),
    ensures
        r == bomb_at(board@, row as int, col as int),
{
    if row < 0 || col < 0 || row >= board.height as i64 || col >= board.width as i64 {
        return false;
    }
    assert(board@[row as int].len() == board.width);
    matches!(board.values[row as usize][col as usize], BoardValue::Bomb)
}

/// The number of bombs around `(row, col)`.
fn count_adjacent(board: &Board, row: i64, col: i64) -> (r: i32)
    requires
        board.wf(),
        0 <= row < board.height,
        0 <= col < board.width,
    ensures
        r == adjacent_bombs(board@, row as int, col as int),
{
    let mut count: i32 = 0;
    if has_bomb(board, row - 1, col - 1) {
        count = count + 1;
    }
    if has_bomb(board, row - 1, col) {
        count = count + 1;
    }
    if has_bomb(board, row - 1, col + 1) {
        count = count + 1;
    }
    if has_bomb(board, row, col - 1) {
        count = count + 1;
    }
    if has_bomb(board, row, col + 1) {
        count = count + 1;
    }
    if has_bomb(board, row + 1, col - 1) {
        count = count + 1;
    }
    if has_bomb(board, row + 1, col) {
        count = count + 1;
    }
    if has_bomb(board, row + 1, col + 1) {
        count = count + 1;
    }
    count
}

/// Derives the clues of a board: bombs stay, every other cell becomes `Empty`
/// when no bomb touches it and `Clue(n)` when `n` bombs do.
pub fn build_clues(board: &Board) -> (r: Board)
    requires
        board.wf(),
    ensures
        r.wf(),
        r.height == board.height,
        r.width == board.width,
        r@ == derive_clues(board@),
        forall|row: int, col: int|
            on_grid(r.height as int, r.width as int, row, col) ==> clue_in_range(#[trigger] r@[row][col]),
{
    let mut values: Vec<Vec<BoardValue>> = Vec::new();
    let mut i: i32 = 0;
    while i < board.height
        invariant
            board.wf(),
            0 <= i <= board.height,
            values@.len() == i,
            forall|row: int| 0 <= row < i ==> #[trigger] values@[row]@ == derive_clues(board@)[row],
        decreases board.height - i,
    {
        let mut cells: Vec<BoardValue> = Vec::new();
        let mut j: i32 = 0;
        assert(board@[i as int].len() == board.width);
        while j < board.width
            invariant
                board.wf(),
                0 <= i < board.height,
                0 <= j <= board.width,
                cells@.len() == j,
                forall|col: int| 0 <= col < j ==> #[trigger] cells@[col] == derived_cell(board@, i as int, col),
            decreases board.width - j,
        {
            assert(board@[i as int].len() == board.width);
            if matches!(board.values[i as usize][j as usize], BoardValue::Bomb) {
                cells.push(BoardValue::Bomb);
            } else {
                let n = count_adjacent(board, i as i64, j as i64);
                if n == 0 {
                    cells.push(BoardValue::Empty);
                } else {
                    cells.push(BoardValue::Clue(n));
                }
            }
            j = j + 1;
        }
        assert(cells@ =~= derive_clues(board@)[i as int]);
        values.push(cells);
        i = i + 1;
    }
    let r = Board { height: board.height, width: board.width, values };
    assert(r@ =~= derive_clues(board@));
    proof {
        lemma_clues_in_range(board@, board.height as int, board.width as int);
    }
    r
}

/// The bombs around a cell number at most its neighbours that lie on the
/// grid, and a corner cell has at most three such neighbours.
pub proof fn lemma_adjacent_bombs_bounded(g: Seq<Seq<BoardValue>>, height: int, width: int, r: int, c: int)
    requires
        grid_shaped(g, height, width),
        height > 0,
        width > 0,
    ensures
        0 <= adjacent_bombs(g, r, c) <= neighbours_on_grid(height, width, r, c) <= 8,
        (r == 0 || r == height - 1) && (c == 0 || c == width - 1) ==> neighbours_on_grid(height, width, r, c) <= 3,
{
}

/// Every clue of a derived grid lies between 1 and 8; no cell is `Clue(0)`.
pub proof fn lemma_clues_in_range(g: Seq<Seq<BoardValue>>, height: int, width: int)
    requires
        grid_shaped(g, height, width),
        height > 0,
        width > 0,
    ensures
        forall|r: int, c: int|
            on_grid(height, width, r, c) ==> clue_in_range(#[trigger] derive_clues(g)[r][c]),
{
    assert forall|r: int, c: int| on_grid(height, width, r, c) implies clue_in_range(
        #[trigger] derive_clues(g)[r][c],
    ) by {
        lemma_adjacent_bombs_bounded(g, height, width, r, c);
    }
}

/// Deriving clues depends on where the bombs lie and on nothing else: two
/// grids of one shape with bombs in the same cells derive the same clues.
pub proof fn lemma_derive_clues_depends_on_bombs(g1: Seq<Seq<BoardValue>>, g2: Seq<Seq<BoardValue>>, height: int, width: int)
    requires
        grid_shaped(g1, height, width),
        grid_shaped(g2, height, width),
        forall|r: int, c: int| on_grid(height, width, r, c) ==> (#[trigger] g1[r][c] == BoardValue::Bomb <==> g2[r][c] == BoardValue::Bomb),
    ensures
        derive_clues(g1) == derive_clues(g2),
{
    assert forall|r: int, c: int| #[trigger] bomb_at(g1, r, c) == bomb_at(g2, r, c) by {
        if on_grid(height, width, r, c) {
            assert(g1[r][c] == BoardValue::Bomb <==> g2[r][c] == BoardValue::Bomb);
        }
    }
    assert forall|r: int| 0 <= r < height implies #[trigger] derive_clues(g1)[r] =~= derive_clues(g2)[r] by {
        assert forall|c: int| 0 <= c < width implies #[trigger] derived_cell(g1, r, c) == derived_cell(g2, r, c) by {
            assert(g1[r][c] == BoardValue::Bomb <==> g2[r][c] == BoardValue::Bomb);
        }
    }
    assert(derive_clues(g1) =~= derive_clues(g2));
}

/// Deriving clues a second time changes nothing: the bombs are kept, and the
/// clues are counted again from the same bombs.
pub proof fn lemma_derive_clues_idempotent(g: Seq<Seq<BoardValue>>, height: int, width: int)
    requires
        grid_shaped(g, height, width),
    ensures
        derive_clues(derive_clues(g)) == derive_clues(g),
{
    let d = derive_clues(g);
    assert(grid_shaped(d, height, width));
    assert forall|r: int, c: int| on_grid(height, width, r, c) implies (#[trigger] d[r][c] == BoardValue::Bomb <==> g[r][c] == BoardValue::Bomb) by {
        assert(d[r][c] == derived_cell(g, r, c));
    }
    lemma_derive_clues_depends_on_bombs(d, g, height, width);
}

} // verus!
