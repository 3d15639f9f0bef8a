//! Before the first move: the cards on offer, the card that the player
//! picked, and a game made ready for them.

use std::collections::HashMap;
use vstd::prelude::*;
use crate::board::GameBoard;
use crate::card::Card;
use crate::game::{Game, GameState, GameStatus};
use crate::player::Player;
use crate::text::{chars_of, parse_number, parse_range, trim_range, trimmed};

verus! {

/// The number that `input` writes once the white space around it is left
/// out, where it writes one that fits in 32 bits.
pub open spec fn card_number(input: Seq<char>) -> Option<nat> {
    parse_number(trimmed(input), u32::MAX as nat)
}

/// The player beside the bot, or alone, gets the card that they chose. The
/// first card that this leaves goes to the first player in the list who has
/// none: to the bot, or, without a bot, to the player who chose nothing.
pub open spec fn setup_state(bot: bool, chosen: Option<Card>) -> GameState {
    let given = match chosen {
        None => Card::X,
        Some(card) => card.spec_other(),
    };
    GameState {
        board: Map::empty(),
        players: if bot {
            seq![Player { card: Some(given) }, Player { card: chosen }]
        } else {
            seq![Player { card: Some(given) }]
        },
        bot,
        turn: 0,
        status: GameStatus::Creating,
    }
}

/// The cards on offer, by the number that picks them: 1 for X, 2 for O.
pub fn prepare_card() -> (cards: HashMap<u32, Card>)
    ensures
        cards@ == map![1u32 => Card::X, 2u32 => Card::O],
{
    broadcast use vstd::std_specs::hash::group_hash_axioms;

    let mut card_selection: HashMap<u32, Card> = HashMap::new();
    card_selection.insert(1, Card::X);
    card_selection.insert(2, Card::O);
    assert(card_selection@ =~= map![1u32 => Card::X, 2u32 => Card::O]);
    card_selection
}

/// Reads the number with which the player picks a card.
pub fn parse_card_number(user_input: &str) -> (number: Option<u32>)
    ensures
        match number {
            Some(n) => card_number(user_input@) == Some(n as nat),
            None => card_number(user_input@) is None,
        },
{
    let text = chars_of(user_input);
    let (from, to) = trim_range(&text, 0, text.len());
    assert(text@.subrange(0, text@.len() as int) =~= user_input@);
    parse_range(&text, from, to, u32::MAX)
}

/// The card that the player picked by typing its number, or `None` where no
/// card has that number.
pub fn check_user_card(cards: HashMap<u32, Card>, user_input: String) -> (card: Option<Card>)
    requires
        card_number(user_input@) is Some,
    ensures
        card == if cards@.contains_key(card_number(user_input@)->0 as u32) {
            Some(cards@[card_number(user_input@)->0 as u32])
        } else {
            None
        },
{
    broadcast use vstd::std_specs::hash::group_hash_axioms;

    let parsed = parse_card_number(user_input.as_str()).unwrap();
    match cards.get(&parsed) {
        Some(card) => Some(*card),
        None => None,
    }
}

/// Makes a game ready on an empty board: with or without a bot, the player
/// who chose `chosen` joins, and the first card that is left goes to the
/// first player without one.
pub fn setup_game(bot: bool, chosen: Option<Card>) -> (game: Game)
    requires
        bot || chosen is None,
    ensures
        game@ == setup_state(bot, chosen),
        game@.valid(),
{
    let gameboard = GameBoard::new();
    let mut newgame = Game::new(gameboard, bot);

    let mut player = Player::new();
    player.set_card(chosen);
    let has_added_player = newgame.add_player(player);
    assert(has_added_player);

    let available_card = newgame.available_cards().unwrap()[0];
    let position = newgame.get_position_of_user_with_no_card().unwrap();
    newgame.players[position].set_card(Some(available_card));
    assert(newgame@.players =~= setup_state(bot, chosen).players);
    newgame
}

} // verus!
