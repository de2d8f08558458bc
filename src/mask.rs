use vstd::prelude::*;

verus! {

/// The reveal state of one cell.
#[derive(Debug, Clone, Copy, PartialEq, Eq, Structural)]
pub enum MaskValue {
    Closed,
    Open,
    Flagged,
    Question,
}

/// The reveal state of every cell, aligned with a board of the same shape.
#[derive(Debug)]
pub struct BoardMask {
    pub height: i32,
    pub width: i32,
    pub values: Vec<Vec<MaskValue>>,
}

impl View for BoardMask {
    type V = Seq<Seq<MaskValue>>;

    open spec fn view(&self) -> Seq<Seq<MaskValue>> {
        Seq::new(self.values@.len(), |r: int| self.values@[r]@)
    }
}

impl BoardMask {
    /// Both dimensions are positive and the rows match them.
    pub open spec fn wf(&self) -> bool {
        &&& self.height > 0
        &&& self.width > 0
        &&& self@.len() == self.height
        &&& forall|r: int| 0 <= r < self.height ==> (#[trigger] self@[r]).len() == self.width
    }

    /// The state of the cell at `(row, col)`.
    pub fn state(&self, row: usize, col: usize) -> (r: MaskValue)
        requires
            self.wf(),
            row < self.height,
            col < self.width,
        ensures
            r == self@[row as int][col as int],
    {
        assert(self@[row as int].len() == self.width);
        self.values[row][col]
    }

    /// Sets the state of the cell at `(row, col)`, leaving every other cell as it was.
    pub fn set_state(&mut self, row: usize, col: usize, value: MaskValue)
        requires
            old(self).wf(),
            row < old(self).height,
            col < old(self).width,
        ensures
            final(self).wf(),
            final(self).height == old(self).height,
            final(self).width == old(self).width,
            final(self)@ == old(self)@.update(row as int, old(self)@[row as int].update(col as int, value)),
    {
        let ghost before = self@;
        assert(before[row as int].len() == self.width);
        self.values[row][col] = value;
        assert(self@ =~= before.update(row as int, before[row as int].update(col as int, value)));
    }
}

/// A `height` by `width` mask with every cell closed.
pub fn build_mask(height: i32, width: i32) -> (r: BoardMask)
    requires
        height > 0,
        width > 0,
    ensures
        r.wf(),
        r.height == height,
        r.width == width,
        forall|row: int, col: int| 0 <= row < height && 0 <= col < width ==> #[trigger] r@[row][col] == MaskValue::Closed,
{
    let mut values: Vec<Vec<MaskValue>> = Vec::new();
    let mut i: i32 = 0;
    while i < height
        invariant
            0 <= i <= height,
            width > 0,
            values@.len() == i,
            forall|row: int| 0 <= row < i ==> #[trigger] values@[row]@ == Seq::new(width as nat, |c: int| MaskValue::Closed),
        decreases height - i,
    {
        let mut cells: Vec<MaskValue> = Vec::new();
        let mut j: i32 = 0;
        while j < width
            invariant
                0 <= j <= width,
                cells@ == Seq::new(j as nat, |c: int| MaskValue::Closed),
            decreases width - j,
        {
            cells.push(MaskValue::Closed);
            j = j + 1;
            assert(cells@ =~= Seq::new(j as nat, |c: int| MaskValue::Closed));
        }
        values.push(cells);
        i = i + 1;
    }
    BoardMask { height, width, values }
}

} // verus!
