//! Reading a move as the player typed it: a row and a column, both counted
//! from 1, with a comma between them.

use vstd::prelude::*;
use crate::board::{contains_cell, empty_cells, Cell};
use crate::card::Card;
use crate::game::Game;
use crate::text::{
    chars_of, field_end, field_len, lemma_field_len, parse_number, parse_range, trim_range,
    trimmed,
};

verus! {

/// Why what the player typed is no move.
#[derive(PartialEq, Eq, Structural, Debug, Clone, Copy)]
pub enum EntryError {
    /// Nothing was typed but white space.
    Empty,
    /// There is no comma.
    MissingComma,
    /// Nothing stands before the first comma but white space.
    BlankRow,
    /// Nothing stands after the first comma but white space.
    BlankColumn,
    /// What stands before the first comma is no number from 0 to 255.
    RowNotNumber,
    /// What stands after the first comma is no number from 0 to 255.
    ColumnNotNumber,
    /// The cell in this row and column is off the board or occupied.
    NotAvailable(u8, u8),
}

/// What is written for the row: all that stands before the first comma.
pub open spec fn row_field(s: Seq<char>) -> Seq<char> {
    s.take(field_len(s) as int)
}

/// What is written for the column: all that stands between the first comma
/// and the second, or the end where there is no second.
pub open spec fn column_field(s: Seq<char>) -> Seq<char> {
    let rest = s.skip(field_len(s) as int + 1);
    rest.take(field_len(rest) as int)
}

/// The cell that `input` names. White space around the whole is left out;
/// around a number it is not accepted. What follows a second comma is not
/// read.
pub open spec fn read_entry(input: Seq<char>) -> Result<Cell, EntryError> {
    let s = trimmed(input);
    if s.len() == 0 {
        Err(EntryError::Empty)
    } else if !s.contains(',') {
        Err(EntryError::MissingComma)
    } else if trimmed(row_field(s)).len() == 0 {
        Err(EntryError::BlankRow)
    } else if trimmed(column_field(s)).len() == 0 {
        Err(EntryError::BlankColumn)
    } else if parse_number(row_field(s), 255) is None {
        Err(EntryError::RowNotNumber)
    } else if parse_number(column_field(s), 255) is None {
        Err(EntryError::ColumnNotNumber)
    } else {
        Ok((parse_number(row_field(s), 255)->0 as u8, parse_number(column_field(s), 255)->0 as u8))
    }
}

/// The move that `input` asks for on a board with these marks: the cell
/// that it names, where that is an empty cell of the board.
pub open spec fn check_entry(marks: Map<Cell, Card>, input: Seq<char>) -> Result<
    Cell,
    EntryError,
> {
    match read_entry(input) {
        Err(error) => Err(error),
        Ok(cell) => if empty_cells(marks).contains(cell) {
            Ok(cell)
        } else {
            Err(EntryError::NotAvailable(cell.0, cell.1))
        },
    }
}

/// Reads the cell that `input` names.
pub fn parse_entry(input: &str) -> (r: Result<Cell, EntryError>)
    ensures
        r == read_entry(input@),
{
    let text = chars_of(input);
    let (from, to) = trim_range(&text, 0, text.len());
    let ghost s = text@.subrange(from as int, to as int);
    assert(text@.subrange(0, text@.len() as int) =~= input@);
    if from == to {
        return Err(EntryError::Empty);
    }
    let comma = field_end(&text, from, to);
    proof {
        lemma_field_len(s);
        if comma < to {
            assert(s[comma - from] == ',');
        }
    }
    if comma == to {
        return Err(EntryError::MissingComma);
    }
    let next_comma = field_end(&text, comma + 1, to);
    assert(row_field(s) =~= text@.subrange(from as int, comma as int));
    assert(s.skip(field_len(s) as int + 1) =~= text@.subrange(comma + 1, to as int));
    assert(column_field(s) =~= text@.subrange(comma + 1, next_comma as int));
    let (row_from, row_to) = trim_range(&text, from, comma);
    if row_from == row_to {
        return Err(EntryError::BlankRow);
    }
    let (column_from, column_to) = trim_range(&text, comma + 1, next_comma);
    if column_from == column_to {
        return Err(EntryError::BlankColumn);
    }
    let row = parse_range(&text, from, comma, 255);
    let column = parse_range(&text, comma + 1, next_comma, 255);
    match row {
        None => Err(EntryError::RowNotNumber),
        Some(row) => match column {
            None => Err(EntryError::ColumnNotNumber),
            Some(column) => Ok((row as u8, column as u8)),
        },
    }
}

/// Reads the move that `input` asks for in `game`: the cell that it names,
/// where that is an empty cell of the board.
pub fn check_user_entry_pattern(game: &Game, input: String) -> (r: Result<Cell, EntryError>)
    ensures
        r == check_entry(game.board@, input@),
{
    match parse_entry(input.as_str()) {
        Err(error) => Err(error),
        Ok(entry) => {
            let available_entries = game.board.get_available_spaces();
            if contains_cell(&available_entries, entry) {
                Ok(entry)
            } else {
                Err(EntryError::NotAvailable(entry.0, entry.1))
            }
        },
    }
}

} // verus!
