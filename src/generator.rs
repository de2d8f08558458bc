use crate::board::{grid_of, grid_shaped, Board, BoardValue};
use crate::clues::{
    adjacent_bombs, bomb_at, build_clues, clue_for, clue_in_range, derive_clues, derived_cell,
    lemma_derive_clues_idempotent, on_grid,
};
use rand::seq::SliceRandom;
use vstd::prelude::*;

verus! {

/// Why a board could not be generated.
#[derive(Debug, Clone, Copy, PartialEq, Eq, Structural)]
pub enum BoardError {
    /// A dimension is not positive, or the bomb count is negative or
    /// exceeds the number of cells.
    InvalidConfiguration,
}

/// Whether a board of `height` by `width` cells can hold `bombs` bombs.
pub open spec fn valid_config(height: int, width: int, bombs: int) -> bool {
    &&& height > 0
    &&& width > 0
    &&& 0 <= bombs <= height * width
}

/// The cells of `g` that hold a bomb.
pub open spec fn bomb_cells(g: Seq<Seq<BoardValue>>) -> Set<(i32, i32)> {
    Set::new(|p: (i32, i32)| bomb_at(g, p.0 as int, p.1 as int))
}

/// Whether every cell of a `height` by `width` grid is a bomb or empty.
pub open spec fn bombs_only(g: Seq<Seq<BoardValue>>, height: int, width: int) -> bool {
    forall|r: int, c: int|
        on_grid(height, width, r, c) ==> (#[trigger] g[r][c] == BoardValue::Bomb || g[r][c] == BoardValue::Empty)
}

/// Whether `(row, col)` is a cell of a `height` by `width` grid.
pub open spec fn cell_on_grid(height: int, width: int, p: (i32, i32)) -> bool {
    on_grid(height, width, p.0 as int, p.1 as int)
}

/// Lexicographic order on cells: by row, then by column.
spec fn cell_before(p: (i32, i32), q: (i32, i32)) -> bool {
    p.0 < q.0 || (p.0 == q.0 && p.1 < q.1)
}

/// Every cell of a `height` by `width` grid, once each, row by row.
fn all_cells(height: i32, width: i32) -> (r: Vec<(i32, i32)>)
    requires
        height > 0,
        width > 0,
    ensures
        r@.len() == height * width,
        r@.no_duplicates(),
        forall|k: int| 0 <= k < r@.len() ==> cell_on_grid(height as int, width as int, #[trigger] r@[k]),
{
    let mut cells: Vec<(i32, i32)> = Vec::new();
    let mut i: i32 = 0;
    while i < height
        invariant
            height > 0,
            width > 0,
            0 <= i <= height,
            cells@.len() == i * width,
            cells@.no_duplicates(),
            forall|k: int| 0 <= k < cells@.len() ==> cell_on_grid(height as int, width as int, #[trigger] cells@[k]),
            forall|k: int| 0 <= k < cells@.len() ==> (#[trigger] cells@[k]).0 < i,
        decreases height - i,
    {
        let mut j: i32 = 0;
        while j < width
            invariant
                height > 0,
                width > 0,
                0 <= i < height,
                0 <= j <= width,
                cells@.len() == i * width + j,
                cells@.no_duplicates(),
                forall|k: int| 0 <= k < cells@.len() ==> cell_on_grid(height as int, width as int, #[trigger] cells@[k]),
                forall|k: int| 0 <= k < cells@.len() ==> cell_before(#[trigger] cells@[k], (i, j)),
            decreases width - j,
        {
            cells.push((i, j));
            j = j + 1;
        }
        assert(cells@.len() == (i + 1) * width) by (nonlinear_arith)
            requires
                cells@.len() == i * width + width,
        ;
        i = i + 1;
    }
    cells
}

/// Relies on rand's `SliceRandom::shuffle` over the thread-local generator
/// (`rand::thread_rng`): it only swaps elements, so the cells come back in
/// some order, each as often as before.
#[verifier::external_body]
fn shuffle_cells(cells: &mut Vec<(i32, i32)>)
    ensures
        final(cells)@.to_multiset() == old(cells)@.to_multiset(),
{
    cells.shuffle(&mut rand::thread_rng());
}

/// Builds a `height` by `width` board with a bomb on each of the first
/// `count` entries of `cells` and every other cell empty.
pub fn place_mines(height: i32, width: i32, cells: &Vec<(i32, i32)>, count: usize) -> (r: Board)
    requires
        height > 0,
        width > 0,
        count <= cells@.len(),
        forall|k: int| 0 <= k < count ==> cell_on_grid(height as int, width as int, #[trigger] cells@[k]),
    ensures
        r.wf(),
        r.height == height,
        r.width == width,
        bomb_cells(r@) == cells@.take(count as int).to_set(),
        bombs_only(r@, height as int, width as int),
{
    let mut values: Vec<Vec<BoardValue>> = Vec::new();
    let mut i: i32 = 0;
    while i < height
        invariant
            0 <= i <= height,
            width > 0,
            values@.len() == i,
            forall|row: int| 0 <= row < i ==> #[trigger] values@[row]@ == Seq::new(width as nat, |c: int| BoardValue::Empty),
        decreases height - i,
    {
        let mut cells_of_row: Vec<BoardValue> = Vec::new();
        let mut j: i32 = 0;
        while j < width
            invariant
                0 <= j <= width,
                cells_of_row@ == Seq::new(j as nat, |c: int| BoardValue::Empty),
            decreases width - j,
        {
            cells_of_row.push(BoardValue::Empty);
            j = j + 1;
            assert(cells_of_row@ =~= Seq::new(j as nat, |c: int| BoardValue::Empty));
        }
        values.push(cells_of_row);
        i = i + 1;
    }
    let mut k: usize = 0;
    while k < count
        invariant
            height > 0,
            width > 0,
            count <= cells@.len(),
            forall|k: int| 0 <= k < count ==> cell_on_grid(height as int, width as int, #[trigger] cells@[k]),
            0 <= k <= count,
            grid_shaped(grid_of(values@), height as int, width as int),
            forall|r: int, c: int| on_grid(height as int, width as int, r, c) ==>
                #[trigger] grid_of(values@)[r][c] == if cells@.take(k as int).contains((r as i32, c as i32)) {
                    BoardValue::Bomb
                } else {
                    BoardValue::Empty
                },
        decreases count - k,
    {
        let (row, col) = cells[k];
        assert(cell_on_grid(height as int, width as int, cells@[k as int]));
        assert(grid_of(values@)[row as int].len() == width);
        let ghost before = grid_of(values@);
        values[row as usize][col as usize] = BoardValue::Bomb;
        assert(grid_of(values@) =~= before.update(row as int, before[row as int].update(col as int, BoardValue::Bomb)));
        assert(cells@.take(k + 1) =~= cells@.take(k as int).push((row, col)));
        assert forall|r: int, c: int| on_grid(height as int, width as int, r, c) implies
            #[trigger] grid_of(values@)[r][c] == if cells@.take(k + 1).contains((r as i32, c as i32)) {
                BoardValue::Bomb
            } else {
                BoardValue::Empty
            } by {
            let x = (r as i32, c as i32);
            let prev = cells@.take(k as int);
            if x == (row, col) {
                assert(prev.push((row, col))[prev.len() as int] == x);
            } else if prev.contains(x) {
                let q = choose|q: int| 0 <= q < prev.len() && prev[q] == x;
                assert(prev.push((row, col))[q] == x);
            } else {
                assert(!prev.push((row, col)).contains(x));
            }
            assert(before[r][c] == if cells@.take(k as int).contains((r as i32, c as i32)) {
                BoardValue::Bomb
            } else {
                BoardValue::Empty
            });
        }
        k = k + 1;
    }
    let r = Board { height, width, values };
    let ghost taken = cells@.take(count as int);
    assert forall|p: (i32, i32)| #[trigger] bomb_cells(r@).contains(p) <==> taken.to_set().contains(p) by {
        if taken.contains(p) {
            let q = choose|q: int| 0 <= q < taken.len() && taken[q] == p;
            assert(cell_on_grid(height as int, width as int, cells@[q]));
            assert(r@[p.0 as int][p.1 as int] == BoardValue::Bomb);
        }
        if bomb_at(r@, p.0 as int, p.1 as int) {
            assert(r@[p.0 as int][p.1 as int] == BoardValue::Bomb);
        }
    }
    assert(bomb_cells(r@) =~= taken.to_set());
    r
}

/// A `height` by `width` board with `number_of_bombs` bombs placed uniformly
/// at random over distinct cells, all other cells empty; an invalid
/// configuration is refused.
pub fn build_random_board(height: i32, width: i32, number_of_bombs: i32) -> (r: Result<Board, BoardError>)
    ensures
        r is Ok <==> valid_config(height as int, width as int, number_of_bombs as int),
        r is Err ==> r == Err::<Board, BoardError>(BoardError::InvalidConfiguration),
        r matches Ok(b) ==> {
            &&& b.wf()
            &&& b.height == height
            &&& b.width == width
            &&& bomb_cells(b@).finite()
            &&& bomb_cells(b@).len() == number_of_bombs
            &&& bombs_only(b@, height as int, width as int)
        },
{
    if height <= 0 || width <= 0 || number_of_bombs < 0 {
        return Err(BoardError::InvalidConfiguration);
    }
    assert(0 < height as i64 * width as i64 <= i32::MAX as i64 * i32::MAX as i64) by (nonlinear_arith)
        requires
            0 < height <= i32::MAX,
            0 < width <= i32::MAX,
    ;
    if number_of_bombs as i64 > height as i64 * width as i64 {
        return Err(BoardError::InvalidConfiguration);
    }
    let mut cells = all_cells(height, width);
    let ghost ordered = cells@;
    shuffle_cells(&mut cells);
    proof {
        ordered.lemma_multiset_has_no_duplicates();
        cells@.to_multiset_ensures();
        ordered.to_multiset_ensures();
        assert forall|x: (i32, i32)| cells@.to_multiset().contains(x) implies cells@.to_multiset().count(x) == 1 by {
            assert(ordered.to_multiset().contains(x));
        }
        cells@.lemma_multiset_has_no_duplicates_conv();
        assert forall|k: int| 0 <= k < cells@.len() implies cell_on_grid(height as int, width as int, #[trigger] cells@[k]) by {
            assert(cells@.to_multiset().count(cells@[k]) > 0);
            assert(ordered.contains(cells@[k]));
        }
        assert(cells@.take(number_of_bombs as int).no_duplicates());
        cells@.take(number_of_bombs as int).unique_seq_to_set();
    }
    let board = place_mines(height, width, &cells, number_of_bombs as usize);
    Ok(board)
}

/// A full game board: `number_of_bombs` bombs placed at random, and every
/// other cell holding the clue for the bombs around it.
pub fn generate(height: i32, width: i32, number_of_bombs: i32) -> (r: Result<Board, BoardError>)
    ensures
        r is Ok <==> valid_config(height as int, width as int, number_of_bombs as int),
        r is Err ==> r == Err::<Board, BoardError>(BoardError::InvalidConfiguration),
        r matches Ok(b) ==> {
            &&& b.wf()
            &&& b.height == height
            &&& b.width == width
            &&& bomb_cells(b@).finite()
            &&& bomb_cells(b@).len() == number_of_bombs
            &&& forall|row: int, col: int|
                on_grid(height as int, width as int, row, col) && #[trigger] b@[row][col] != BoardValue::Bomb
                    ==> b@[row][col] == clue_for(adjacent_bombs(b@, row, col))
            &&& forall|row: int, col: int|
                on_grid(height as int, width as int, row, col) ==> clue_in_range(#[trigger] b@[row][col])
        },
{
    match build_random_board(height, width, number_of_bombs) {
        Err(e) => Err(e),
        Ok(mines) => {
            let board = build_clues(&mines);
            proof {
                lemma_derive_clues_idempotent(mines@, height as int, width as int);
                assert forall|row: int, col: int|
                    on_grid(height as int, width as int, row, col) && #[trigger] board@[row][col] != BoardValue::Bomb
                        implies board@[row][col] == clue_for(adjacent_bombs(board@, row, col)) by {
                    assert(derive_clues(board@)[row][col] == derived_cell(board@, row, col));
                }
                assert forall|p: (i32, i32)| #[trigger] bomb_cells(board@).contains(p) <==> bomb_cells(mines@).contains(p) by {
                    if on_grid(height as int, width as int, p.0 as int, p.1 as int) {
                        assert(board@[p.0 as int][p.1 as int] == derived_cell(mines@, p.0 as int, p.1 as int));
                    }
                }
                assert(bomb_cells(board@) =~= bomb_cells(mines@));
            }
            Ok(board)
        },
    }
}

} // verus!
