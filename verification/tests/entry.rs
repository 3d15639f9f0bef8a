use tic_tac_toe::text::{chars_of, field_end, is_whitespace, parse_range, trim_range};
use tic_tac_toe::{
    check_user_entry_pattern, parse_entry, Card, EntryError, Game, GameBoard, Player,
};

fn x_against_o() -> Game {
    let mut game = Game::new(GameBoard::new(), false);
    let mut first = Player::new();
    first.set_card(Some(Card::X));
    let mut second = Player::new();
    second.set_card(Some(Card::O));
    assert!(game.add_player(first));
    assert!(game.add_player(second));
    assert!(game.start());
    game
}

fn trimmed(text: &str) -> String {
    let chars = chars_of(text);
    let (from, to) = trim_range(&chars, 0, chars.len());
    chars[from..to].iter().collect()
}

fn number(text: &str, max: u32) -> Option<u32> {
    let chars = chars_of(text);
    parse_range(&chars, 0, chars.len(), max)
}

#[test]
fn whitespace_is_what_the_standard_library_calls_whitespace() {
    for code in 0..=0x10ffffu32 {
        if let Some(c) = char::from_u32(code) {
            assert_eq!(is_whitespace(c), c.is_whitespace(), "U+{:04X}", code);
        }
    }
}

#[test]
fn chars_of_lists_the_characters() {
    assert_eq!(chars_of(""), Vec::<char>::new());
    assert_eq!(chars_of("1,2"), vec!['1', ',', '2']);
    assert_eq!(chars_of("é\u{3000}x"), vec!['é', '\u{3000}', 'x']);
}

#[test]
fn trim_leaves_out_the_blanks_at_both_ends() {
    for text in [
        "",
        " ",
        "  \t\n",
        "1,2",
        " 1,2",
        "1,2 ",
        "\t 1 , 2 \r\n",
        "\u{a0}1,2\u{2003}",
        "a b",
        " a b ",
        "\u{3000}",
        "x\u{85}",
        "\u{1680}y",
        "\u{200b}z\u{200b}",
    ] {
        assert_eq!(trimmed(text), text.trim(), "{:?}", text);
    }
}

#[test]
fn trim_range_stays_within_the_range() {
    let chars = chars_of("  ab  cd  ");
    assert_eq!(trim_range(&chars, 0, chars.len()), (2, 8));
    assert_eq!(trim_range(&chars, 2, 6), (2, 4));
    assert_eq!(trim_range(&chars, 4, 6), (6, 6));
    assert_eq!(trim_range(&chars, 3, 3), (3, 3));
    assert_eq!(trim_range(&chars, 4, 10), (6, 8));
}

#[test]
fn field_ends_at_the_first_comma() {
    let chars = chars_of("12,3,45");
    assert_eq!(field_end(&chars, 0, chars.len()), 2);
    assert_eq!(field_end(&chars, 3, chars.len()), 4);
    assert_eq!(field_end(&chars, 5, chars.len()), 7);
    assert_eq!(field_end(&chars, 2, chars.len()), 2);
    assert_eq!(field_end(&chars, 0, 1), 1);
    assert_eq!(field_end(&chars, 7, 7), 7);
}

#[test]
fn numbers_are_read_as_the_standard_library_reads_them() {
    for text in [
        "", "0", "1", "9", "10", "007", "255", "256", "0256", "300", "999", "1000", "+", "+1",
        "+255", "+256", "++1", "-1", "-0", "-", "1+", " 1", "1 ", "1a", "a1", "a", "١", "1.0",
        "1,2", "00000000000000000000000000001", "99999999999999999999999999999",
    ] {
        assert_eq!(number(text, 255), text.parse::<u8>().ok().map(u32::from), "{:?}", text);
    }
    for text in [
        "", "0", "1", "2", "42", "+7", "4294967295", "4294967296", "04294967295", "42949672950",
        "18446744073709551616", "99999999999999999999", "-3", "3 ", "x", "+",
    ] {
        assert_eq!(number(text, u32::MAX), text.parse::<u32>().ok(), "{:?}", text);
    }
}

#[test]
fn every_number_up_to_a_thousand_is_read() {
    for n in 0..1000u32 {
        let text = n.to_string();
        assert_eq!(number(&text, 255), if n <= 255 { Some(n) } else { None });
        assert_eq!(number(&text, u32::MAX), Some(n));
    }
}

#[test]
fn parse_range_reads_the_part_asked_for() {
    let chars = chars_of("12,34");
    assert_eq!(parse_range(&chars, 0, 2, 255), Some(12));
    assert_eq!(parse_range(&chars, 3, 5, 255), Some(34));
    assert_eq!(parse_range(&chars, 1, 2, 255), Some(2));
    assert_eq!(parse_range(&chars, 0, 5, 255), None);
    assert_eq!(parse_range(&chars, 2, 2, 255), None);
    assert_eq!(parse_range(&chars, 0, 2, 11), None);
    assert_eq!(parse_range(&chars, 0, 2, 12), Some(12));
}

#[test]
fn entry_is_a_row_and_a_column() {
    assert_eq!(parse_entry("1,1"), Ok((1, 1)));
    assert_eq!(parse_entry("2,3"), Ok((2, 3)));
    assert_eq!(parse_entry("3,1"), Ok((3, 1)));
    assert_eq!(parse_entry("  2,3\n"), Ok((2, 3)));
    assert_eq!(parse_entry("+2,+3"), Ok((2, 3)));
    assert_eq!(parse_entry("02,003"), Ok((2, 3)));
    assert_eq!(parse_entry("0,255"), Ok((0, 255)));
    assert_eq!(parse_entry("7,9"), Ok((7, 9)));
}

#[test]
fn entry_is_not_read_beyond_a_second_comma() {
    assert_eq!(parse_entry("1,2,3"), Ok((1, 2)));
    assert_eq!(parse_entry("1,2,"), Ok((1, 2)));
    assert_eq!(parse_entry("1,2,x y"), Ok((1, 2)));
}

#[test]
fn empty_entry() {
    assert_eq!(parse_entry(""), Err(EntryError::Empty));
    assert_eq!(parse_entry("   "), Err(EntryError::Empty));
    assert_eq!(parse_entry("\n"), Err(EntryError::Empty));
    assert_eq!(parse_entry("\u{a0}\t"), Err(EntryError::Empty));
}

#[test]
fn entry_without_comma() {
    assert_eq!(parse_entry("12"), Err(EntryError::MissingComma));
    assert_eq!(parse_entry("1 2"), Err(EntryError::MissingComma));
    assert_eq!(parse_entry("1;2"), Err(EntryError::MissingComma));
    assert_eq!(parse_entry("row"), Err(EntryError::MissingComma));
}

#[test]
fn entry_with_blank_row() {
    assert_eq!(parse_entry(",2"), Err(EntryError::BlankRow));
    assert_eq!(parse_entry(","), Err(EntryError::BlankRow));
    assert_eq!(parse_entry(" , 2"), Err(EntryError::BlankRow));
    assert_eq!(parse_entry(",,"), Err(EntryError::BlankRow));
    assert_eq!(parse_entry("x \t,2"), Err(EntryError::RowNotNumber));
}

#[test]
fn entry_with_blank_column() {
    assert_eq!(parse_entry("1,"), Err(EntryError::BlankColumn));
    assert_eq!(parse_entry("1,   "), Err(EntryError::BlankColumn));
    assert_eq!(parse_entry("1, ,3"), Err(EntryError::BlankColumn));
    assert_eq!(parse_entry("1,,3"), Err(EntryError::BlankColumn));
    assert_eq!(parse_entry("x,"), Err(EntryError::BlankColumn));
}

#[test]
fn entry_whose_row_is_no_number() {
    assert_eq!(parse_entry("a,1"), Err(EntryError::RowNotNumber));
    assert_eq!(parse_entry("1 ,2"), Err(EntryError::RowNotNumber));
    assert_eq!(parse_entry("-1,2"), Err(EntryError::RowNotNumber));
    assert_eq!(parse_entry("256,2"), Err(EntryError::RowNotNumber));
    assert_eq!(parse_entry("1.5,2"), Err(EntryError::RowNotNumber));
    assert_eq!(parse_entry("a,b"), Err(EntryError::RowNotNumber));
    assert_eq!(parse_entry("+,2"), Err(EntryError::RowNotNumber));
}

#[test]
fn entry_whose_column_is_no_number() {
    assert_eq!(parse_entry("1,b"), Err(EntryError::ColumnNotNumber));
    assert_eq!(parse_entry("1, 2"), Err(EntryError::ColumnNotNumber));
    assert_eq!(parse_entry("1,2 ,3"), Err(EntryError::ColumnNotNumber));
    assert_eq!(parse_entry("1,256"), Err(EntryError::ColumnNotNumber));
    assert_eq!(parse_entry("1,-2"), Err(EntryError::ColumnNotNumber));
    assert_eq!(parse_entry("1,2x"), Err(EntryError::ColumnNotNumber));
}

#[test]
fn entry_on_an_empty_cell_is_accepted() {
    let game = x_against_o();
    for row in 1..=3u8 {
        for column in 1..=3u8 {
            let input = format!("{},{}\n", row, column);
            assert_eq!(check_user_entry_pattern(&game, input), Ok((row, column)));
        }
    }
}

#[test]
fn entry_on_an_occupied_cell_is_not_available() {
    let mut game = x_against_o();
    game.play((2, 2));
    game.play((1, 3));
    assert_eq!(
        check_user_entry_pattern(&game, String::from("2,2")),
        Err(EntryError::NotAvailable(2, 2))
    );
    assert_eq!(
        check_user_entry_pattern(&game, String::from(" 1,3 ")),
        Err(EntryError::NotAvailable(1, 3))
    );
    assert_eq!(check_user_entry_pattern(&game, String::from("1,2")), Ok((1, 2)));
}

#[test]
fn entry_off_the_board_is_not_available() {
    let game = x_against_o();
    assert_eq!(
        check_user_entry_pattern(&game, String::from("0,1")),
        Err(EntryError::NotAvailable(0, 1))
    );
    assert_eq!(
        check_user_entry_pattern(&game, String::from("1,4")),
        Err(EntryError::NotAvailable(1, 4))
    );
    assert_eq!(
        check_user_entry_pattern(&game, String::from("255,255")),
        Err(EntryError::NotAvailable(255, 255))
    );
}

#[test]
fn entry_that_is_no_cell_is_turned_down_as_it_is_read() {
    let game = x_against_o();
    assert_eq!(check_user_entry_pattern(&game, String::from("  ")), Err(EntryError::Empty));
    assert_eq!(check_user_entry_pattern(&game, String::from("11")), Err(EntryError::MissingComma));
    assert_eq!(check_user_entry_pattern(&game, String::from(",1")), Err(EntryError::BlankRow));
    assert_eq!(check_user_entry_pattern(&game, String::from("1,")), Err(EntryError::BlankColumn));
    assert_eq!(check_user_entry_pattern(&game, String::from("x,1")), Err(EntryError::RowNotNumber));
    assert_eq!(
        check_user_entry_pattern(&game, String::from("1,x")),
        Err(EntryError::ColumnNotNumber)
    );
}

#[test]
fn accepted_entry_can_be_played() {
    let mut game = x_against_o();
    for input in ["1,1", "2,1", "1,2", "2,2"] {
        let entry = check_user_entry_pattern(&game, String::from(input)).unwrap();
        assert_eq!(game.play_checked(entry), Ok(None));
    }
    let entry = check_user_entry_pattern(&game, String::from("1,3")).unwrap();
    assert_eq!(game.play_checked(entry), Ok(Some(0)));
}
