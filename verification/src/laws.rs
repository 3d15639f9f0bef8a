//! What holds of every game, whatever is played.

use vstd::prelude::*;
use crate::board::{cells_holding, empty_cells, lemma_cells_holding, Cell};
use crate::card::Card;
use crate::game::{cards_besides, GameState, GameStatus};
use crate::player::Player;

verus! {

/// One call that changes a game.
pub enum Step {
    /// `add_player` with this player.
    AddPlayer(Player),
    /// `start`.
    Start,
    /// `play` on this cell.
    Play(Cell),
}

impl GameState {
    /// The state after one call.
    pub open spec fn step(self, step: Step) -> GameState {
        match step {
            Step::AddPlayer(player) => self.add_player(player),
            Step::Start => self.start(),
            Step::Play(cell) => self.play(cell),
        }
    }

    /// The state after a series of calls, made one after the other.
    pub open spec fn run(self, steps: Seq<Step>) -> GameState
        decreases steps.len(),
    {
        if steps.len() == 0 {
            self
        } else {
            self.run(steps.drop_last()).step(steps.last())
        }
    }
}

/// Once two players have joined one after the other, a third is refused, and
/// the list still holds the two.
pub proof fn lemma_third_player_is_refused(
    game: GameState,
    first: Player,
    second: Player,
    third: Player,
)
    requires
        game.can_add_player(),
        game.add_player(first).can_add_player(),
    ensures
        !game.add_player(first).add_player(second).can_add_player(),
        game.add_player(first).add_player(second).add_player(third) == game.add_player(
            first,
        ).add_player(second),
        game.add_player(first).add_player(second).add_player(third).players.len() == 2,
{
}

/// No call takes a game back to the state in which it is created.
pub proof fn lemma_never_creating_again(game: GameState, steps: Seq<Step>)
    requires
        game.status != GameStatus::Creating,
    ensures
        game.run(steps).status != GameStatus::Creating,
    decreases steps.len(),
{
    if steps.len() > 0 {
        lemma_never_creating_again(game, steps.drop_last());
    }
}

/// A game begins once at most. `start` succeeds only on a game that is being
/// created and has two players, and then the game is played. After that,
/// whatever is called in between, every further `start` fails and leaves the
/// game, its status included, as it was.
pub proof fn lemma_start_succeeds_once(game: GameState, later: Seq<Step>)
    requires
        game.can_start(),
    ensures
        game.status == GameStatus::Creating && game.players.len() == 2,
        game.start().status == GameStatus::Playing,
        !game.start().run(later).can_start(),
        game.start().run(later).start() == game.start().run(later),
{
    lemma_never_creating_again(game.start(), later);
}

/// With nobody in the game both cards are to be had, X first.
pub proof fn lemma_cards_for_no_players(game: GameState)
    requires
        game.players.len() == 0,
    ensures
        game.available_cards() == Some(seq![Card::X, Card::O]),
{
}

/// With one player who holds a card, the other card is the only one to be had.
pub proof fn lemma_cards_for_one_player(game: GameState, held: Card)
    requires
        game.players.len() == 1,
        game.players[0].card == Some(held),
    ensures
        game.available_cards() == Some(seq![held.spec_other()]),
{
}

/// With two players who hold the two different cards, none is to be had.
pub proof fn lemma_cards_for_two_players(game: GameState, held: Card)
    requires
        game.players.len() == 2,
        game.players[0].card == Some(held),
        game.players[1].card == Some(held.spec_other()),
    ensures
        game.available_cards() is None,
{
}

/// In a game of at most two players, the cards to be had are those that no
/// player holds, each listed once; and there are none to be had exactly when
/// both of two players hold a card.
pub proof fn lemma_available_cards_are_unclaimed(game: GameState)
    requires
        game.players.len() <= 2,
    ensures
        game.available_cards() is None <==> game.players.len() == 2 && game.players[0].card is Some
            && game.players[1].card is Some,
        game.available_cards() matches Some(cards) ==> cards.no_duplicates() && forall|card: Card|
            #[trigger] cards.contains(card) <==> forall|i: int|
                0 <= i < game.players.len() ==> game.players[i].card != Some(card),
{
    if let Some(cards) = game.available_cards() {
        let held = if game.players.len() == 0 {
            None
        } else if game.players.len() == 1 || game.players[0].card is Some {
            game.players[0].card
        } else {
            game.players[1].card
        };
        assert(cards == cards_besides(held));
        assert forall|card: Card| #[trigger] cards.contains(card) <==> forall|i: int|
            0 <= i < game.players.len() ==> game.players[i].card != Some(card) by {
            match held {
                None => {
                    assert(cards[0] == Card::X && cards[1] == Card::O);
                },
                Some(taken) => {
                    assert(cards[0] == taken.spec_other());
                    if card == taken {
                        assert(exists|i: int|
                            0 <= i < game.players.len() && game.players[i].card == Some(card));
                    }
                },
            }
        }
    }
}

/// Asking twice for the empty cells of a board, or twice for the cells that
/// hold a card, with no move in between, gives the same answer.
pub proof fn lemma_queries_repeat(
    marks: Map<Cell, Card>,
    target: Option<Card>,
    first_spaces: Seq<Cell>,
    second_spaces: Seq<Cell>,
    first_entries: Seq<Cell>,
    second_entries: Seq<Cell>,
)
    requires
        first_spaces == empty_cells(marks),
        second_spaces == empty_cells(marks),
        first_entries == cells_holding(marks, target),
        second_entries == cells_holding(marks, target),
    ensures
        first_spaces == second_spaces,
        first_entries == second_entries,
{
}

/// A move on an empty cell takes the cell: it is no longer among the empty
/// cells, and it is among the cells that hold the mover's card.
pub proof fn lemma_played_cell_is_taken(game: GameState, cell: Cell)
    requires
        game.can_play(cell),
        empty_cells(game.board).contains(cell),
    ensures
        !empty_cells(game.play(cell).board).contains(cell),
        cells_holding(game.play(cell).board, Some(game.mover_card())).contains(cell),
{
    lemma_cells_holding(game.play(cell).board, None);
    lemma_cells_holding(game.play(cell).board, Some(game.mover_card()));
}

} // verus!
