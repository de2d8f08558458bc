use crate::board::{Board, BoardValue};
use crate::mask::{BoardMask, MaskValue};
use vstd::prelude::*;

verus! {

/// The character of a decimal digit `d < 10`.
pub open spec fn digit_char(d: nat) -> char {
    if d == 0 {
        '0'
    } else if d == 1 {
        '1'
    } else if d == 2 {
        '2'
    } else if d == 3 {
        '3'
    } else if d == 4 {
        '4'
    } else if d == 5 {
        '5'
    } else if d == 6 {
        '6'
    } else if d == 7 {
        '7'
    } else if d == 8 {
        '8'
    } else {
        '9'
    }
}

/// The decimal digits of `n`, most significant first, without leading zeros.
pub open spec fn digits(n: nat) -> Seq<char>
    decreases n,
{
    if n < 10 {
        seq![digit_char(n)]
    } else {
        digits(n / 10).push(digit_char(n % 10))
    }
}

/// `n` written in decimal, with a leading `-` when negative.
pub open spec fn decimal(n: int) -> Seq<char> {
    if n < 0 {
        seq!['-'] + digits((-n) as nat)
    } else {
        digits(n as nat)
    }
}

/// The text of one board cell.
pub open spec fn value_text(v: BoardValue) -> Seq<char> {
    match v {
        BoardValue::Empty => seq!['.'],
        BoardValue::Bomb => seq!['B'],
        BoardValue::Clue(n) => decimal(n as int),
    }
}

/// The character of one mask cell.
pub open spec fn mask_char(v: MaskValue) -> char {
    match v {
        MaskValue::Closed => '.',
        MaskValue::Open => ' ',
        MaskValue::Flagged => 'F',
        MaskValue::Question => '?',
    }
}

/// The cells of a row written one after another.
pub open spec fn board_row_text(row: Seq<BoardValue>) -> Seq<char>
    decreases row.len(),
{
    if row.len() == 0 {
        Seq::empty()
    } else {
        board_row_text(row.drop_last()) + value_text(row.last())
    }
}

/// Every row followed by a line break.
pub open spec fn board_rows_text(g: Seq<Seq<BoardValue>>) -> Seq<char>
    decreases g.len(),
{
    if g.len() == 0 {
        Seq::empty()
    } else {
        board_rows_text(g.drop_last()) + board_row_text(g.last()) + seq!['\n']
    }
}

/// The cells of a mask row written one after another.
pub open spec fn mask_row_text(row: Seq<MaskValue>) -> Seq<char> {
    row.map_values(|v: MaskValue| mask_char(v))
}

/// Every mask row followed by a line break.
pub open spec fn mask_rows_text(g: Seq<Seq<MaskValue>>) -> Seq<char>
    decreases g.len(),
{
    if g.len() == 0 {
        Seq::empty()
    } else {
        mask_rows_text(g.drop_last()) + mask_row_text(g.last()) + seq!['\n']
    }
}

/// The header line `<height>x<width>`, with its line break.
pub open spec fn header_text(height: int, width: int) -> Seq<char> {
    decimal(height) + seq!['x'] + decimal(width) + seq!['\n']
}

/// Relies on `String`'s `FromIterator<&char>`: the string holds the
/// characters in order.
#[verifier::external_body]
fn string_of(chars: &Vec<char>) -> (r: String)
    ensures
        r@ == chars@,
{
    chars.iter().collect::<String>()
}

fn digit(d: u64) -> (r: char)
    requires
        d < 10,
    ensures
        r == digit_char(d as nat),
{
    if d == 0 {
        '0'
    } else if d == 1 {
        '1'
    } else if d == 2 {
        '2'
    } else if d == 3 {
        '3'
    } else if d == 4 {
        '4'
    } else if d == 5 {
        '5'
    } else if d == 6 {
        '6'
    } else if d == 7 {
        '7'
    } else if d == 8 {
        '8'
    } else {
        '9'
    }
}

fn push_digits(out: &mut Vec<char>, n: u64)
    ensures
        final(out)@ == old(out)@ + digits(n as nat),
    decreases n,
{
    if n >= 10 {
        push_digits(out, n / 10);
    }
    out.push(digit(n % 10));
}

fn push_decimal(out: &mut Vec<char>, n: i32)
    ensures
        final(out)@ == old(out)@ + decimal(n as int),
{
    if n < 0 {
        out.push('-');
        push_digits(out, (-(n as i64)) as u64);
        assert(final(out)@ =~= old(out)@ + decimal(n as int));
    } else {
        push_digits(out, n as u64);
    }
}

fn push_value(out: &mut Vec<char>, v: BoardValue)
    ensures
        final(out)@ == old(out)@ + value_text(v),
{
    match v {
        BoardValue::Empty => out.push('.'),
        BoardValue::Bomb => out.push('B'),
        BoardValue::Clue(n) => push_decimal(out, n),
    }
}

fn mask_symbol(v: MaskValue) -> (r: char)
    ensures
        r == mask_char(v),
{
    match v {
        MaskValue::Closed => '.',
        MaskValue::Open => ' ',
        MaskValue::Flagged => 'F',
        MaskValue::Question => '?',
    }
}

impl BoardValue {
    /// The cell as text: `.` when empty, `B` for a bomb, the count for a clue.
    pub fn to_text(&self) -> (r: String)
        ensures
            r@ == value_text(*self),
    {
        let mut out: Vec<char> = Vec::new();
        push_value(&mut out, *self);
        string_of(&out)
    }
}

impl Board {
    /// The board as text: the header `<height>x<width>`, then one line per
    /// row with one entry per cell.
    pub fn to_text(&self) -> (r: String)
        requires
            self.wf(),
        ensures
            r@ == header_text(self.height as int, self.width as int) + board_rows_text(self@),
    {
        let mut out: Vec<char> = Vec::new();
        push_decimal(&mut out, self.height);
        out.push('x');
        push_decimal(&mut out, self.width);
        out.push('\n');
        let ghost head = out@;
        assert(head =~= header_text(self.height as int, self.width as int));
        let mut i: usize = 0;
        while i < self.values.len()
            invariant
                self.wf(),
                0 <= i <= self@.len(),
                out@ == head + board_rows_text(self@.take(i as int)),
            decreases self@.len() - i,
        {
            let row = &self.values[i];
            assert(row@ == self@[i as int]);
            let ghost start = out@;
            let mut j: usize = 0;
            while j < row.len()
                invariant
                    0 <= j <= row@.len(),
                    out@ == start + board_row_text(row@.take(j as int)),
                decreases row@.len() - j,
            {
                push_value(&mut out, row[j]);
                assert(row@.take(j + 1).drop_last() =~= row@.take(j as int));
                j = j + 1;
                assert(out@ =~= start + board_row_text(row@.take(j as int)));
            }
            out.push('\n');
            assert(row@.take(j as int) =~= row@);
            assert(self@.take(i + 1).drop_last() =~= self@.take(i as int));
            i = i + 1;
            assert(out@ =~= head + board_rows_text(self@.take(i as int)));
        }
        assert(self@.take(i as int) =~= self@);
        string_of(&out)
    }
}

impl MaskValue {
    /// The cell as text: `.` closed, a space open, `F` flagged, `?` questioned.
    pub fn to_text(&self) -> (r: String)
        ensures
            r@ == seq![mask_char(*self)],
    {
        let mut out: Vec<char> = Vec::new();
        out.push(mask_symbol(*self));
        string_of(&out)
    }
}

impl BoardMask {
    /// The mask as text: the header `<height>x<width>`, then one line per
    /// row with one character per cell.
    pub fn to_text(&self) -> (r: String)
        requires
            self.wf(),
        ensures
            r@ == header_text(self.height as int, self.width as int) + mask_rows_text(self@),
    {
        let mut out: Vec<char> = Vec::new();
        push_decimal(&mut out, self.height);
        out.push('x');
        push_decimal(&mut out, self.width);
        out.push('\n');
        let ghost head = out@;
        assert(head =~= header_text(self.height as int, self.width as int));
        let mut i: usize = 0;
        while i < self.values.len()
            invariant
                self.wf(),
                0 <= i <= self@.len(),
                out@ == head + mask_rows_text(self@.take(i as int)),
            decreases self@.len() - i,
        {
            let row = &self.values[i];
            assert(row@ == self@[i as int]);
            let ghost start = out@;
            let mut j: usize = 0;
            while j < row.len()
                invariant
                    0 <= j <= row@.len(),
                    out@ == start + mask_row_text(row@.take(j as int)),
                decreases row@.len() - j,
            {
                out.push(mask_symbol(row[j]));
                j = j + 1;
                assert(out@ =~= start + mask_row_text(row@.take(j as int)));
            }
            out.push('\n');
            assert(row@.take(j as int) =~= row@);
            assert(self@.take(i + 1).drop_last() =~= self@.take(i as int));
            i = i + 1;
            assert(out@ =~= head + mask_rows_text(self@.take(i as int)));
        }
        assert(self@.take(i as int) =~= self@);
        string_of(&out)
    }
}

} // verus!
