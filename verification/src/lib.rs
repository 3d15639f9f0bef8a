//! A two-player game of noughts and crosses on a 3×3 board: the board, the
//! players and their cards, turn taking and win detection.

pub mod board;
pub mod card;
pub mod entry;
pub mod game;
pub mod laws;
pub mod player;
pub mod sequences;
pub mod setup;
pub mod text;

pub use board::{Cell, GameBoard, Line};
pub use card::Card;
pub use entry::{check_user_entry_pattern, parse_entry, EntryError};
pub use game::{Game, GameState, GameStatus, PlayError};
pub use player::Player;
pub use setup::{check_user_card, parse_card_number, prepare_card, setup_game};
