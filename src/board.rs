//! Game board definitions.
//!
//! The board is independent from the flying balls: it only keeps track of
//! which cells are lit and which are dark.
use vstd::prelude::*;

verus! {

/// Row/column indexing type.
pub type Index = u8;

/// One row of the board: 256 cells packed into four 64-bit words.
pub type RawRow = [u64; 4];

/// The whole board storage: room for 256 rows.
pub type RawState = [RawRow; 256];

/// Number of cells held by one word of a row.
pub const ROW_PART_SIZE: usize = 64;

/// Whether bit `bit` of `word` is set.
pub open spec fn word_has(word: u64, bit: int) -> bool {
    word & (1u64 << (bit as u64)) != 0
}

/// Whether the cell in column `col` of a raw row is lit.
pub open spec fn row_has(row: RawRow, col: int) -> bool {
    word_has(row@[col / 64], col % 64)
}

proof fn lemma_xor_same(w: u64, b: u64)
    requires
        b < 64,
    ensures
        ((w ^ (1u64 << b)) & (1u64 << b) != 0) == !(w & (1u64 << b) != 0),
{
    assert(((w ^ (1u64 << b)) & (1u64 << b) != 0) == !(w & (1u64 << b) != 0)) by (bit_vector)
        requires
            b < 64,
    ;
}

proof fn lemma_xor_other(w: u64, b: u64, c: u64)
    requires
        b < 64,
        c < 64,
        b != c,
    ensures
        ((w ^ (1u64 << b)) & (1u64 << c) != 0) == (w & (1u64 << c) != 0),
{
    assert(((w ^ (1u64 << b)) & (1u64 << c) != 0) == (w & (1u64 << c) != 0)) by (bit_vector)
        requires
            b < 64,
            c < 64,
            b != c,
    ;
}

proof fn lemma_or_same(w: u64, b: u64)
    requires
        b < 64,
    ensures
        (w | (1u64 << b)) & (1u64 << b) != 0,
{
    assert((w | (1u64 << b)) & (1u64 << b) != 0) by (bit_vector)
        requires
            b < 64,
    ;
}

proof fn lemma_or_other(w: u64, b: u64, c: u64)
    requires
        b < 64,
        c < 64,
        b != c,
    ensures
        ((w | (1u64 << b)) & (1u64 << c) != 0) == (w & (1u64 << c) != 0),
{
    assert(((w | (1u64 << b)) & (1u64 << c) != 0) == (w & (1u64 << c) != 0)) by (bit_vector)
        requires
            b < 64,
            c < 64,
            b != c,
    ;
}

proof fn lemma_zero_word(b: u64)
    requires
        b < 64,
    ensures
        0u64 & (1u64 << b) == 0,
{
    assert(0u64 & (1u64 << b) == 0) by (bit_vector);
}

/// High level cell/ball state.
#[derive(Debug, Clone, Copy, PartialEq, Eq, Structural)]
pub enum State {
    /// The cell/ball is lit.
    Lit,
    /// The cell/ball is dark.
    Dark,
}

/// The state that a lit flag stands for.
pub open spec fn state_of(lit: bool) -> State {
    if lit {
        State::Lit
    } else {
        State::Dark
    }
}

/// Whether a cell starts lit: the left half of every row is lit, and on a
/// board of odd size every odd row has one more lit cell.
pub open spec fn initial_cell(size: int, row: int, col: int) -> bool {
    col < size / 2 || (size % 2 == 1 && row % 2 == 1 && col == size / 2)
}

/// The cells of a freshly created board of the given size, row by row.
pub open spec fn initial_grid(size: int) -> Seq<Seq<bool>> {
    Seq::new(size as nat, |r: int| Seq::new(size as nat, |c: int| initial_cell(size, r, c)))
}

/// `g` with the cell at (`row`, `col`) toggled.
pub open spec fn flipped(g: Seq<Seq<bool>>, row: int, col: int) -> Seq<Seq<bool>> {
    g.update(row, g[row].update(col, !g[row][col]))
}

/// The first `size` cells of a raw row.
pub open spec fn row_cells(size: int, row: RawRow) -> Seq<bool> {
    Seq::new(size as nat, |c: int| row_has(row, c))
}

/// The top-left `size` by `size` cells of the raw storage, row by row.
pub open spec fn grid_cells(size: int, state: RawState) -> Seq<Seq<bool>> {
    Seq::new(size as nat, |r: int| row_cells(size, state@[r]))
}

/// The glyph that draws a cell.
pub open spec fn glyph(lit: bool) -> char {
    if lit {
        '▣'
    } else {
        '▢'
    }
}

/// One row drawn as glyphs, left to right, ended by a line break.
pub open spec fn row_text(row: Seq<bool>) -> Seq<char> {
    row.map_values(|lit: bool| glyph(lit)).push('\n')
}

/// The rows of `g` drawn one under the other.
pub open spec fn grid_text(g: Seq<Seq<bool>>) -> Seq<char>
    decreases g.len(),
{
    if g.len() == 0 {
        Seq::empty()
    } else {
        grid_text(g.drop_last()) + row_text(g.last())
    }
}

/// The decimal digit `d`.
pub open spec fn digit_char(d: int) -> char {
    seq!['0', '1', '2', '3', '4', '5', '6', '7', '8', '9'][d]
}

/// `n` written in decimal, without leading zeros.
pub open spec fn decimal_text(n: nat) -> Seq<char>
    decreases n,
{
    if n < 10 {
        seq![digit_char(n as int)]
    } else {
        decimal_text(n / 10).push(digit_char((n % 10) as int))
    }
}

/// The text that describes a board: its cells, then its size.
pub open spec fn board_text(g: Seq<Seq<bool>>) -> Seq<char> {
    grid_text(g) + "Board { size: "@ + decimal_text(g.len()) + " }"@
}

fn digit_str(d: u8) -> (r: &'static str)
    requires
        d < 10,
    ensures
        r@ == seq![digit_char(d as int)],
{
    proof {
        reveal_strlit("0");
        reveal_strlit("1");
        reveal_strlit("2");
        reveal_strlit("3");
        reveal_strlit("4");
        reveal_strlit("5");
        reveal_strlit("6");
        reveal_strlit("7");
        reveal_strlit("8");
        reveal_strlit("9");
    }
    match d {
        0 => "0",
        1 => "1",
        2 => "2",
        3 => "3",
        4 => "4",
        5 => "5",
        6 => "6",
        7 => "7",
        8 => "8",
        _ => "9",
    }
}

/// Append `n` in decimal to `out`.
fn append_decimal(out: &mut String, n: u8)
    ensures
        final(out)@ == old(out)@ + decimal_text(n as nat),
{
    let ghost start = out@;
    if n >= 100 {
        out.append(digit_str(n / 100));
        out.append(digit_str(n / 10 % 10));
        assert(n as nat / 10 / 10 == n as nat / 100);
        assert(decimal_text((n / 100) as nat) == seq![digit_char((n / 100) as int)]);
        assert(decimal_text((n / 10) as nat) == decimal_text((n / 100) as nat).push(
            digit_char((n / 10 % 10) as int),
        ));
        assert(out@ =~= start + decimal_text((n / 10) as nat));
    } else if n >= 10 {
        out.append(digit_str(n / 10));
        assert(decimal_text((n / 10) as nat) == seq![digit_char((n / 10) as int)]);
        assert(out@ =~= start + decimal_text((n / 10) as nat));
    }
    out.append(digit_str(n % 10));
    assert(out@ =~= start + decimal_text(n as nat));
}

/// Low-level operations on the packed board storage.
pub struct StateOps;

impl StateOps {
    /// Split a column index into the word that holds it and its bit in that word.
    pub fn part_and_bit_index(col_index: Index) -> (r: (usize, usize))
        ensures
            r.0 == col_index / 64,
            r.1 == col_index % 64,
            r.0 < 4,
            r.1 < 64,
    {
        let col_index = col_index as usize;
        let part_index = col_index / ROW_PART_SIZE;
        let bit_index = col_index % ROW_PART_SIZE;
        (part_index, bit_index)
    }

    /// The storage of a new board: the initial pattern on the first `size`
    /// rows and columns, every other bit clear.
    pub fn initial(size: Index) -> (state: RawState)
        ensures
            forall|r: int, c: int|
                0 <= r < 256 && 0 <= c < 256 ==> #[trigger] row_has(state@[r], c) == (r < size
                    && initial_cell(size as int, r, c)),
    {
        let mut state: RawState = [[0u64; 4]; 256];
        let is_size_odd = size % 2 > 0;
        let mut row_index: Index = 0;
        proof {
            assert forall|r: int, c: int| 0 <= r < 256 && 0 <= c < 256 implies !row_has(state@[r], c) by {
                lemma_zero_word((c % 64) as u64);
            }
        }
        while row_index < size
            invariant
                row_index <= size,
                is_size_odd == (size % 2 == 1),
                forall|r: int, c: int|
                    0 <= r < 256 && 0 <= c < 256 ==> #[trigger] row_has(state@[r], c) == (r
                        < row_index && initial_cell(size as int, r, c)),
            decreases size - row_index,
        {
            let max_cell_to_lit: Index = if is_size_odd && row_index % 2 > 0 {
                size / 2 + 1
            } else {
                size / 2
            };
            let mut row: RawRow = state[row_index as usize];
            let mut col_index: Index = 0;
            while col_index < max_cell_to_lit
                invariant
                    col_index <= max_cell_to_lit,
                    max_cell_to_lit <= 128,
                    forall|c: int| 0 <= c < 256 ==> row_has(row, c) == (c < col_index),
                decreases max_cell_to_lit - col_index,
            {
                let (part_index, bit_index) = Self::part_and_bit_index(col_index);
                let cell: u64 = 1u64 << (bit_index as u64);
                let ghost before = row;
                row[part_index] = row[part_index] | cell;
                proof {
                    assert forall|c: int| 0 <= c < 256 implies row_has(row, c) == (c < col_index
                        + 1) by {
                        assert(row_has(before, c) == (c < col_index));
                        if c / 64 == part_index {
                            if c == col_index {
                                lemma_or_same(before@[c / 64], bit_index as u64);
                            } else {
                                assert(c % 64 != bit_index);
                                lemma_or_other(before@[c / 64], bit_index as u64, (c % 64) as u64);
                            }
                        } else {
                            assert(row@[c / 64] == before@[c / 64]);
                        }
                    }
                }
                col_index = col_index + 1;
            }
            state[row_index as usize] = row;
            proof {
                assert forall|c: int| 0 <= c < 256 implies row_has(row, c) == initial_cell(
                    size as int,
                    row_index as int,
                    c,
                ) by {}
            }
            row_index = row_index + 1;
        }
        state
    }

    /// Draw the first `size` rows and columns of the storage, one line per row.
    pub fn debug(size: Index, state: &RawState) -> (r: String)
        ensures
            r@ == grid_text(grid_cells(size as int, *state)),
    {
        let ghost g = grid_cells(size as int, *state);
        let mut out = String::new();
        let mut row_index: Index = 0;
        while row_index < size
            invariant
                row_index <= size,
                g == grid_cells(size as int, *state),
                out@ == grid_text(g.take(row_index as int)),
            decreases size - row_index,
        {
            let row = Self::row(state, row_index);
            let ghost line = g[row_index as int];
            let ghost before = out@;
            let mut col_index: Index = 0;
            while col_index < size
                invariant
                    col_index <= size,
                    line == row_cells(size as int, *row),
                    out@ == before + line.take(col_index as int).map_values(
                        |lit: bool| glyph(lit),
                    ),
                decreases size - col_index,
            {
                proof {
                    reveal_strlit("▣");
                    reveal_strlit("▢");
                }
                let glyph_str = match Self::cell(row, col_index) {
                    State::Lit => "▣",
                    State::Dark => "▢",
                };
                out.append(glyph_str);
                proof {
                    assert(line.take(col_index as int + 1).map_values(|lit: bool| glyph(lit))
                        =~= line.take(col_index as int).map_values(|lit: bool| glyph(lit)).push(
                        glyph(line[col_index as int]),
                    ));
                }
                col_index = col_index + 1;
            }
            proof {
                reveal_strlit("\n");
            }
            out.append("\n");
            proof {
                assert(line.take(size as int) =~= line);
                assert(g.take(row_index as int + 1).drop_last() =~= g.take(row_index as int));
                assert(out@ =~= grid_text(g.take(row_index as int + 1)));
            }
            row_index = row_index + 1;
        }
        proof {
            assert(g.take(size as int) =~= g);
        }
        out
    }

    /// The raw row at the given index.
    pub fn row(state: &RawState, row_index: Index) -> (r: &RawRow)
        ensures
            *r == state@[row_index as int],
    {
        let row_state = &state[row_index as usize];
        row_state
    }

    /// The raw row at the given index, for writing.
    pub fn row_mut(state: &mut RawState, row_index: Index) -> (r: &mut RawRow)
        ensures
            *r == old(state)@[row_index as int],
            final(state)@ == old(state)@.update(row_index as int, *final(r)),
    {
        let row_state = &mut state[row_index as usize];
        row_state
    }

    /// The state of the cell in column `col_index` of a raw row.
    pub fn cell(row: &RawRow, col_index: Index) -> (r: State)
        ensures
            r == state_of(row_has(*row, col_index as int)),
    {
        let (part_index, bit_index) = Self::part_and_bit_index(col_index);
        let cell: u64 = 1u64 << (bit_index as u64);
        if row[part_index] & cell > 0 {
            State::Lit
        } else {
            State::Dark
        }
    }

    /// Toggle the cell in column `col_index` of a raw row.
    pub fn flip(row: &mut RawRow, col_index: Index)
        ensures
            forall|c: int|
                0 <= c < 256 ==> row_has(*final(row), c) == if c == col_index {
                    !row_has(*old(row), c)
                } else {
                    row_has(*old(row), c)
                },
    {
        let (part_index, bit_index) = Self::part_and_bit_index(col_index);
        let cell: u64 = 1u64 << (bit_index as u64);
        row[part_index] = row[part_index] ^ cell;
        proof {
            assert forall|c: int| 0 <= c < 256 implies row_has(*row, c) == if c == col_index {
                !row_has(*old(row), c)
            } else {
                row_has(*old(row), c)
            } by {
                if c / 64 == part_index {
                    if c == col_index {
                        lemma_xor_same(old(row)@[c / 64], bit_index as u64);
                    } else {
                        lemma_xor_other(old(row)@[c / 64], bit_index as u64, (c % 64) as u64);
                    }
                }
            }
        }
    }
}

/// A representation of the game board.
///
/// The game board is a square filled with cells that can be either
/// "Lit" or "Dark". Two balls, one of each kind, fly over it; when a ball
/// hits a cell of the opposite kind, the cell flips.
pub struct Board {
    /// Size of the board: both width and height, in cells.
    size: Index,
    /// Every cell of the board, one bit each (`1` lit, `0` dark).
    ///
    /// The cells of a row are consecutive bits, left to right; only the first
    /// `size` rows and columns are in use.
    state: RawState,
}

impl View for Board {
    type V = Seq<Seq<bool>>;

    /// The cells in use, row by row; `true` for a lit cell.
    closed spec fn view(&self) -> Seq<Seq<bool>> {
        grid_cells(self.size as int, self.state)
    }
}

impl Board {
    /// Create and initialize a new board of the given size.
    pub fn new(size: Index) -> (r: Board)
        requires
            size > 1,
        ensures
            r@ == initial_grid(size as int),
    {
        let state = StateOps::initial(size);
        let r = Board { size, state };
        proof {
            assert forall|i: int| 0 <= i < size implies r@[i] == initial_grid(size as int)[i] by {
                assert(r@[i] =~= initial_grid(size as int)[i]);
            }
            assert(r@ =~= initial_grid(size as int));
        }
        r
    }

    /// Return the size of the board.
    pub fn size(&self) -> (r: Index)
        ensures
            r == self@.len(),
    {
        self.size
    }

    /// Describe the board as text: one line of glyphs per row, then its size.
    pub fn debug_text(&self) -> (r: String)
        ensures
            r@ == board_text(self@),
    {
        let mut out = StateOps::debug(self.size, &self.state);
        proof {
            reveal_strlit("Board { size: ");
            reveal_strlit(" }");
        }
        out.append("Board { size: ");
        append_decimal(&mut out, self.size);
        out.append(" }");
        out
    }

    /// The raw storage of the board, for drawing it elsewhere: the first
    /// `size` rows and columns hold the cells.
    pub fn raw_state(&self) -> (r: &RawState)
        ensures
            grid_cells(self@.len() as int, *r) == self@,
    {
        &self.state
    }

    /// Inspect a single row of the game board.
    pub fn row(&self, row_index: Index) -> (r: Row<'_>)
        requires
            row_index < self@.len(),
        ensures
            r@ == self@[row_index as int],
    {
        let row = StateOps::row(&self.state, row_index);
        let r = Row { board: self, row };
        proof {
            assert(r@ =~= self@[row_index as int]);
        }
        r
    }

    /// Inspect a single cell state at the given row and column index.
    pub fn cell(&self, row_index: Index, col_index: Index) -> (r: State)
        requires
            row_index < self@.len(),
            col_index < self@.len(),
        ensures
            r == state_of(self@[row_index as int][col_index as int]),
    {
        self.row(row_index).cell(col_index)
    }

    /// Flip the cell state at the given row and column index.
    pub fn flip(&mut self, row_index: Index, col_index: Index)
        requires
            row_index < old(self)@.len(),
            col_index < old(self)@.len(),
        ensures
            final(self)@ == flipped(old(self)@, row_index as int, col_index as int),
    {
        let ghost before = *self;
        let row = StateOps::row_mut(&mut self.state, row_index);
        StateOps::flip(row, col_index);
        proof {
            let want = flipped(before@, row_index as int, col_index as int);
            assert forall|i: int| 0 <= i < self.size implies self@[i] == want[i] by {
                assert(self@[i] =~= want[i]);
            }
            assert(self@ =~= want);
        }
    }
}

/// Every row of a board is as long as the board is tall.
pub proof fn board_is_square(b: &Board)
    ensures
        forall|i: int| 0 <= i < b@.len() ==> #[trigger] b@[i].len() == b@.len(),
{
}

/// Flipping the same cell twice in a row gives the board back as it was.
pub proof fn flip_twice_restores(b: &Board, row: Index, col: Index)
    requires
        row < b@.len(),
        col < b@.len(),
    ensures
        flipped(flipped(b@, row as int, col as int), row as int, col as int) == b@,
{
    let g = b@;
    let once = flipped(g, row as int, col as int);
    let twice = flipped(once, row as int, col as int);
    assert(twice[row as int] =~= g[row as int]);
    assert(twice =~= g);
}

/// Flipping a cell toggles that cell, keeps every other cell, and keeps the
/// board square and of the same size.
pub proof fn flip_changes_one_cell(b: &Board, row: Index, col: Index)
    requires
        row < b@.len(),
        col < b@.len(),
    ensures
        ({
            let f = flipped(b@, row as int, col as int);
            &&& f.len() == b@.len()
            &&& forall|i: int| 0 <= i < f.len() ==> #[trigger] f[i].len() == b@.len()
            &&& forall|i: int, j: int|
                0 <= i < f.len() && 0 <= j < f.len() ==> #[trigger] f[i][j] == if i == row && j
                    == col {
                    !b@[i][j]
                } else {
                    b@[i][j]
                }
        }),
{
}

/// A view of a single row of the game board.
pub struct Row<'a> {
    board: &'a Board,
    row: &'a RawRow,
}

impl<'a> View for Row<'a> {
    type V = Seq<bool>;

    /// The cells of the row that are in use; `true` for a lit cell.
    closed spec fn view(&self) -> Seq<bool> {
        row_cells(self.board.size as int, *self.row)
    }
}

impl<'a> Row<'a> {
    /// Inspect the state of a single cell within the row.
    pub fn cell(&self, col_index: Index) -> (r: State)
        requires
            col_index < self@.len(),
        ensures
            r == state_of(self@[col_index as int]),
    {
        StateOps::cell(self.row, col_index)
    }
}

} // verus!
