//! The 3×3 board: its cells, the marks on them and the eight winning lines.

use vstd::prelude::*;
use crate::card::Card;
use crate::sequences::{lemma_filter_members, lemma_filter_no_duplicates, lemma_filter_split, negated};

verus! {

/// A cell of the board, as `(row, column)`, both counted from 1.
pub type Cell = (u8, u8);

/// Three cells in a row, a column or a diagonal.
pub type Line = (Cell, Cell, Cell);

/// Whether `cell` lies on the board: row and column are both 1, 2 or 3.
pub open spec fn in_grid(cell: Cell) -> bool {
    1 <= cell.0 <= 3 && 1 <= cell.1 <= 3
}

/// The nine cells of the board in row-major order: `(1, 1)`, `(1, 2)`,
/// `(1, 3)`, `(2, 1)`, and so on up to `(3, 3)`.
pub open spec fn all_cells() -> Seq<Cell> {
    Seq::new(9, |k: int| ((k / 3 + 1) as u8, (k % 3 + 1) as u8))
}

/// What a board, seen as a map from its occupied cells to their cards, holds
/// at `cell`: the card there, or `None` where the cell is empty or off the board.
pub open spec fn mark_on(marks: Map<Cell, Card>, cell: Cell) -> Option<Card> {
    if marks.contains_key(cell) {
        Some(marks[cell])
    } else {
        None
    }
}

/// The test "this cell holds exactly `target`".
pub open spec fn holds(marks: Map<Cell, Card>, target: Option<Card>) -> spec_fn(Cell) -> bool {
    |cell: Cell| mark_on(marks, cell) == target
}

/// The cells of the board that hold `target`, in row-major order. With `None`
/// as target these are the empty cells.
pub open spec fn cells_holding(marks: Map<Cell, Card>, target: Option<Card>) -> Seq<Cell> {
    all_cells().filter(holds(marks, target))
}

/// The empty cells of the board, in row-major order.
pub open spec fn empty_cells(marks: Map<Cell, Card>) -> Seq<Cell> {
    cells_holding(marks, None)
}

/// A map of marks describes a board when every marked cell lies on the grid.
pub open spec fn is_board(marks: Map<Cell, Card>) -> bool {
    forall|cell: Cell| marks.contains_key(cell) ==> in_grid(cell)
}

/// The eight winning lines: the three rows from top to bottom, the three
/// columns from left to right, then the diagonal from `(1, 1)` and the one
/// from `(1, 3)`.
pub open spec fn winning_lines() -> Seq<Line> {
    seq![
        ((1u8, 1u8), (1u8, 2u8), (1u8, 3u8)),
        ((2u8, 1u8), (2u8, 2u8), (2u8, 3u8)),
        ((3u8, 1u8), (3u8, 2u8), (3u8, 3u8)),
        ((1u8, 1u8), (2u8, 1u8), (3u8, 1u8)),
        ((1u8, 2u8), (2u8, 2u8), (3u8, 2u8)),
        ((1u8, 3u8), (2u8, 3u8), (3u8, 3u8)),
        ((1u8, 1u8), (2u8, 2u8), (3u8, 3u8)),
        ((1u8, 3u8), (2u8, 2u8), (3u8, 1u8)),
    ]
}

/// Whether all three cells of `line` hold `card`.
pub open spec fn line_held(marks: Map<Cell, Card>, line: Line, card: Card) -> bool {
    &&& mark_on(marks, line.0) == Some(card)
    &&& mark_on(marks, line.1) == Some(card)
    &&& mark_on(marks, line.2) == Some(card)
}

/// Whether `card` holds all three cells of at least one winning line.
pub open spec fn has_won(marks: Map<Cell, Card>, card: Card) -> bool {
    exists|i: int| 0 <= i < winning_lines().len() && line_held(marks, #[trigger] winning_lines()[i], card)
}

/// The nine cells are the cells of the grid, each listed once.
pub proof fn lemma_all_cells()
    ensures
        all_cells().len() == 9,
        all_cells().no_duplicates(),
        forall|cell: Cell| #[trigger] all_cells().contains(cell) <==> in_grid(cell),
{
    assert forall|cell: Cell| #[trigger] all_cells().contains(cell) <==> in_grid(cell) by {
        if in_grid(cell) {
            let k = 3 * (cell.0 - 1) + (cell.1 - 1);
            assert(all_cells()[k] == cell);
        }
    }
}

/// The cells that hold `target` are the cells of the grid with that content,
/// each listed once.
pub proof fn lemma_cells_holding(marks: Map<Cell, Card>, target: Option<Card>)
    ensures
        cells_holding(marks, target).no_duplicates(),
        forall|cell: Cell| #[trigger]
            cells_holding(marks, target).contains(cell) <==> in_grid(cell) && mark_on(marks, cell)
                == target,
{
    lemma_all_cells();
    lemma_filter_members(all_cells(), holds(marks, target));
    lemma_filter_no_duplicates(all_cells(), holds(marks, target));
}

/// The empty cells are the cells of the grid that hold no mark, and there are
/// nine of them less one for each marked cell.
pub proof fn lemma_empty_cells(marks: Map<Cell, Card>)
    requires
        is_board(marks),
    ensures
        marks.dom().finite(),
        empty_cells(marks).len() == 9 - marks.dom().len(),
        forall|cell: Cell| #[trigger]
            empty_cells(marks).contains(cell) <==> in_grid(cell) && !marks.contains_key(cell),
{
    lemma_all_cells();
    lemma_cells_holding(marks, None);
    let marked = all_cells().filter(negated(holds(marks, None)));
    lemma_filter_split(all_cells(), holds(marks, None));
    lemma_filter_members(all_cells(), negated(holds(marks, None)));
    lemma_filter_no_duplicates(all_cells(), negated(holds(marks, None)));
    assert(marked.to_set() =~= marks.dom());
    marked.unique_seq_to_set();
    vstd::seq_lib::seq_to_set_is_finite(marked);
}

/// Every winning line is made of three different cells of the grid.
pub proof fn lemma_winning_lines()
    ensures
        winning_lines().len() == 8,
        forall|i: int|
            0 <= i < 8 ==> {
                let line = #[trigger] winning_lines()[i];
                &&& in_grid(line.0) && in_grid(line.1) && in_grid(line.2)
                &&& line.0 != line.1 && line.1 != line.2 && line.0 != line.2
            },
{
}

/// A card that holds a winning line holds at least three cells.
pub proof fn lemma_win_needs_three(marks: Map<Cell, Card>, card: Card)
    requires
        has_won(marks, card),
    ensures
        cells_holding(marks, Some(card)).len() >= 3,
{
    lemma_winning_lines();
    lemma_cells_holding(marks, Some(card));
    let held = cells_holding(marks, Some(card));
    let i = choose|i: int|
        0 <= i < winning_lines().len() && line_held(marks, #[trigger] winning_lines()[i], card);
    let line = winning_lines()[i];
    assert(held.contains(line.0) && held.contains(line.1) && held.contains(line.2));
    let a = choose|a: int| 0 <= a < held.len() && held[a] == line.0;
    let b = choose|b: int| 0 <= b < held.len() && held[b] == line.1;
    let c = choose|c: int| 0 <= c < held.len() && held[c] == line.2;
    assert(a != b && b != c && a != c);
}

/// The board: a 3×3 grid whose cells are empty or hold one card.
#[derive(Debug)]
pub struct GameBoard {
    board: [[Option<Card>; 3]; 3],
}

impl View for GameBoard {
    type V = Map<Cell, Card>;

    /// The marks on the board: a map from each occupied cell to its card.
    closed spec fn view(&self) -> Map<Cell, Card> {
        Map::new(
            |cell: Cell| in_grid(cell) && self.board[cell.0 - 1][cell.1 - 1] is Some,
            |cell: Cell| self.board[cell.0 - 1][cell.1 - 1]->0,
        )
    }
}

impl GameBoard {
    /// Every marked cell of a board lies on the grid.
    pub proof fn lemma_view_is_board(&self)
        ensures
            is_board(self@),
    {
    }

    /// Creates a board with all nine cells empty.
    pub fn new() -> (b: Self)
        ensures
            b@ == Map::<Cell, Card>::empty(),
    {
        let b = Self { board: [[None; 3]; 3] };
        assert(b@ =~= Map::<Cell, Card>::empty());
        b
    }

    /// The grid itself, row by row: the entry at `[i][j]` is what the cell
    /// `(i + 1, j + 1)` holds.
    pub fn board_status(&self) -> (grid: &[[Option<Card>; 3]; 3])
        ensures
            forall|i: int, j: int|
                0 <= i < 3 && 0 <= j < 3 ==> #[trigger] grid[i][j] == mark_on(
                    self@,
                    ((i + 1) as u8, (j + 1) as u8),
                ),
    {
        &self.board
    }

    /// The cells that hold `card`, in row-major order; for `None`, the empty cells.
    pub fn get_user_board_entries(&self, card: &Option<Card>) -> (v: Vec<Cell>)
        ensures
            v@ == cells_holding(self@, *card),
    {
        let mut v: Vec<Cell> = Vec::new();
        let mut k: u8 = 0;
        proof {
            reveal(Seq::filter);
            assert(all_cells().take(0) =~= Seq::<Cell>::empty());
        }
        while k < 9
            invariant
                k <= 9,
                v@ == all_cells().take(k as int).filter(holds(self@, *card)),
            decreases 9 - k,
        {
            let row: u8 = k / 3;
            let col: u8 = k % 3;
            let held = self.board[row as usize][col as usize];
            let cell: Cell = (row + 1, col + 1);
            proof {
                reveal(Seq::filter);
                let next = all_cells().take(k + 1);
                assert(next.drop_last() =~= all_cells().take(k as int));
                assert(next.last() == cell);
                assert(mark_on(self@, cell) == held);
            }
            if same_mark(held, *card) {
                v.push(cell);
            }
            k = k + 1;
        }
        proof {
            assert(all_cells().take(9) =~= all_cells());
        }
        v
    }

    /// The empty cells in row-major order. There are nine of them less one for
    /// each marked cell, and none of them is marked.
    pub fn get_available_spaces(&self) -> (v: Vec<Cell>)
        ensures
            v@ == empty_cells(self@),
            v@.len() == 9 - self@.dom().len(),
            forall|i: int| 0 <= i < v@.len() ==> !self@.contains_key(#[trigger] v@[i]),
    {
        let v = self.get_user_board_entries(&None);
        proof {
            lemma_empty_cells(self@);
            assert forall|i: int| 0 <= i < v@.len() implies !self@.contains_key(
                #[trigger] v@[i],
            ) by {
                assert(empty_cells(self@).contains(v@[i]));
            }
        }
        v
    }

    /// The eight winning lines: rows, then columns, then the two diagonals.
    pub fn get_winning_patterns(&self) -> (v: Vec<Line>)
        ensures
            v@ == winning_lines(),
    {
        let mut v: Vec<Line> = Vec::new();
        v.push(((1, 1), (1, 2), (1, 3)));
        v.push(((2, 1), (2, 2), (2, 3)));
        v.push(((3, 1), (3, 2), (3, 3)));
        v.push(((1, 1), (2, 1), (3, 1)));
        v.push(((1, 2), (2, 2), (3, 2)));
        v.push(((1, 3), (2, 3), (3, 3)));
        v.push(((1, 1), (2, 2), (3, 3)));
        v.push(((1, 3), (2, 2), (3, 1)));
        assert(v@ =~= winning_lines());
        v
    }

    /// Puts `card` on `cell`, whatever the cell held before.
    pub(crate) fn place(&mut self, cell: Cell, card: Card)
        requires
            in_grid(cell),
        ensures
            final(self)@ == old(self)@.insert(cell, card),
    {
        let r: usize = (cell.0 - 1) as usize;
        let c: usize = (cell.1 - 1) as usize;
        self.board[r][c] = Some(card);
        assert(self@ =~= old(self)@.insert(cell, card));
    }
}

/// Whether `cell` is one of `cells`.
pub fn contains_cell(cells: &Vec<Cell>, cell: Cell) -> (found: bool)
    ensures
        found == cells@.contains(cell),
{
    let mut i: usize = 0;
    while i < cells.len()
        invariant
            i <= cells.len(),
            forall|j: int| 0 <= j < i ==> cells@[j] != cell,
        decreases cells.len() - i,
    {
        let here = cells[i];
        if here.0 == cell.0 && here.1 == cell.1 {
            return true;
        }
        i = i + 1;
    }
    false
}

/// Whether two cells hold the same thing.
fn same_mark(a: Option<Card>, b: Option<Card>) -> (r: bool)
    ensures
        r == (a == b),
{
    match (a, b) {
        (None, None) => true,
        (Some(x), Some(y)) => x == y,
        _ => false,
    }
}

} // verus!
