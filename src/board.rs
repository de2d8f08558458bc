use vstd::prelude::*;

verus! {

/// What one cell of a board holds.
#[derive(Debug, Clone, Copy, PartialEq, Eq, Structural)]
pub enum BoardValue {
    Empty,
    Bomb,
    Clue(i32),
}

/// A rectangular grid of cell values, `height` rows of `width` cells each.
#[derive(Debug)]
pub struct Board {
    pub height: i32,
    pub width: i32,
    pub values: Vec<Vec<BoardValue>>,
}

/// The grid as a sequence of rows.
pub open spec fn grid_of(values: Seq<Vec<BoardValue>>) -> Seq<Seq<BoardValue>> {
    Seq::new(values.len(), |r: int| values[r]@)
}

/// Whether `g` is a `height` by `width` grid.
pub open spec fn grid_shaped(g: Seq<Seq<BoardValue>>, height: int, width: int) -> bool {
    &&& g.len() == height
    &&& forall|r: int| 0 <= r < height ==> (#[trigger] g[r]).len() == width
}

impl View for Board {
    type V = Seq<Seq<BoardValue>>;

    open spec fn view(&self) -> Seq<Seq<BoardValue>> {
        grid_of(self.values@)
    }
}

impl Board {
    /// Both dimensions are positive and the rows match them.
    pub open spec fn wf(&self) -> bool {
        &&& self.height > 0
        &&& self.width > 0
        &&& grid_shaped(self@, self.height as int, self.width as int)
    }

    /// The number of rows.
    pub fn height(&self) -> (r: i32)
        ensures
            r == self.height,
    {
        self.height
    }

    /// The number of columns.
    pub fn width(&self) -> (r: i32)
        ensures
            r == self.width,
    {
        self.width
    }

    /// The value at `(row, col)`.
    pub fn value(&self, row: usize, col: usize) -> (r: BoardValue)
        requires
            self.wf(),
            row < self.height,
            col < self.width,
        ensures
            r == self@[row as int][col as int],
    {
        self.values[row][col]
    }
}

} // verus!
