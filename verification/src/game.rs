//! The game: two players, whose turn it is, and the state machine from
//! setting up over playing to a finished game.

use vstd::prelude::*;
use crate::board::{
    cells_holding, contains_cell, has_won, in_grid, is_board, lemma_cells_holding,
    lemma_empty_cells, lemma_win_needs_three, lemma_winning_lines, line_held, winning_lines, Cell,
    GameBoard, Line,
};
use crate::card::Card;
use crate::player::Player;

verus! {

/// Where a game stands in its life: it is created, then played, then finished.
#[derive(PartialEq, Eq, Structural, Debug, Clone, Copy)]
pub enum GameStatus {
    Playing,
    Creating,
    Finished,
}

/// Why a move was turned down.
#[derive(PartialEq, Eq, Structural, Debug, Clone, Copy)]
pub enum PlayError {
    /// The game has not begun or is over.
    NotPlaying,
    /// The player whose turn it is does not exist or holds no card.
    MoverHasNoCard,
    /// The cell lies off the board or is occupied.
    InvalidMoveTarget,
}

/// A game: the board, up to two players, whether a player slot was reserved
/// for a bot, the index of the player who moves next, and the status.
#[derive(Debug)]
pub struct Game {
    pub board: GameBoard,
    pub players: Vec<Player>,
    pub bot: bool,
    pub turn: usize,
    pub status: GameStatus,
}

/// The mathematical state of a game.
pub struct GameState {
    /// The marks on the board, by cell.
    pub board: Map<Cell, Card>,
    /// The players in the order in which they joined.
    pub players: Seq<Player>,
    /// Whether a slot was reserved for a bot.
    pub bot: bool,
    /// The index of the player who moves next.
    pub turn: int,
    pub status: GameStatus,
}

impl View for Game {
    type V = GameState;

    open spec fn view(&self) -> GameState {
        GameState {
            board: self.board@,
            players: self.players@,
            bot: self.bot,
            turn: self.turn as int,
            status: self.status,
        }
    }
}

/// The cards that are left when one player holds `held`: both cards, X first,
/// where the player holds none, and else the other card.
pub open spec fn cards_besides(held: Option<Card>) -> Seq<Card> {
    match held {
        None => seq![Card::X, Card::O],
        Some(card) => seq![card.spec_other()],
    }
}

impl GameState {
    /// A game as it is created: nobody has joined but the bot, where one was
    /// asked for, and the first player is to move.
    pub open spec fn fresh(board: Map<Cell, Card>, bot: bool) -> GameState {
        GameState {
            board,
            players: if bot {
                seq![Player { card: None }]
            } else {
                Seq::empty()
            },
            bot,
            turn: 0,
            status: GameStatus::Creating,
        }
    }

    /// What holds of every game that is used through its methods: the marks
    /// lie on the grid, there are at most two players, and the turn is 0 or 1.
    pub open spec fn valid(self) -> bool {
        &&& is_board(self.board)
        &&& self.players.len() <= 2
        &&& 0 <= self.turn <= 1
    }

    /// Whether another player can join: fewer than two have.
    pub open spec fn can_add_player(self) -> bool {
        self.players.len() < 2
    }

    /// The state after `player` asked to join: they are last in the list
    /// where there was room, and nothing has changed where there was none.
    pub open spec fn add_player(self, player: Player) -> GameState {
        if self.can_add_player() {
            GameState { players: self.players.push(player), ..self }
        } else {
            self
        }
    }

    /// Whether play can begin: the game is being created and has exactly two players.
    pub open spec fn can_start(self) -> bool {
        self.status == GameStatus::Creating && self.players.len() == 2
    }

    /// The state after a request to begin play.
    pub open spec fn start(self) -> GameState {
        if self.can_start() {
            GameState { status: GameStatus::Playing, ..self }
        } else {
            self
        }
    }

    /// Whether a move on `cell` is defined: the cell lies on the grid, and the
    /// player whose turn it is exists and holds a card.
    pub open spec fn can_play(self, cell: Cell) -> bool {
        &&& in_grid(cell)
        &&& 0 <= self.turn < self.players.len()
        &&& self.players[self.turn].card is Some
    }

    /// The card of the player whose turn it is.
    pub open spec fn mover_card(self) -> Card {
        self.players[self.turn].card->0
    }

    /// The board after the player whose turn it is has put their card on `cell`.
    pub open spec fn board_after(self, cell: Cell) -> Map<Cell, Card> {
        self.board.insert(cell, self.mover_card())
    }

    /// Whether a move on `cell` wins the game for the player whose turn it
    /// is: with their card on `cell`, they hold a whole winning line.
    pub open spec fn wins_with(self, cell: Cell) -> bool {
        has_won(self.board_after(cell), self.mover_card())
    }

    /// The state after the player whose turn it is has moved on `cell`: their
    /// card is there; where that wins, the game is finished and the turn stays
    /// with the winner; else the turn passes to the other player.
    pub open spec fn play(self, cell: Cell) -> GameState {
        if self.wins_with(cell) {
            GameState { board: self.board_after(cell), status: GameStatus::Finished, ..self }
        } else {
            GameState {
                board: self.board_after(cell),
                turn: if self.turn == 0 {
                    1
                } else {
                    0
                },
                ..self
            }
        }
    }

    /// Why a move on `cell` is turned down, if it is: the game is not being
    /// played, or the player whose turn it is has no card, or the cell is off
    /// the board or occupied, in this order.
    pub open spec fn play_error(self, cell: Cell) -> Option<PlayError> {
        if self.status != GameStatus::Playing {
            Some(PlayError::NotPlaying)
        } else if !(0 <= self.turn < self.players.len() && self.players[self.turn].card is Some) {
            Some(PlayError::MoverHasNoCard)
        } else if !in_grid(cell) || self.board.contains_key(cell) {
            Some(PlayError::InvalidMoveTarget)
        } else {
            None
        }
    }

    /// The cards that no player holds yet, X before O; `None` once both of
    /// the two players hold a card.
    pub open spec fn available_cards(self) -> Option<Seq<Card>> {
        if self.players.len() == 0 {
            Some(cards_besides(None))
        } else if self.players.len() == 1 {
            Some(cards_besides(self.players[0].card))
        } else if self.players[0].card is None {
            Some(cards_besides(self.players[1].card))
        } else if self.players[1].card is None {
            Some(cards_besides(self.players[0].card))
        } else {
            None
        }
    }
}

impl Game {
    /// Creates a game on `board`. With `add_bot`, a player without a card is
    /// already in the list, in the slot of the bot.
    pub fn new(board: GameBoard, add_bot: bool) -> (game: Self)
        ensures
            game.board == board,
            game@ == GameState::fresh(board@, add_bot),
            game@.valid(),
    {
        let mut players: Vec<Player> = Vec::new();
        if add_bot {
            let bot = Player::new();
            players.push(bot);
        }
        let game = Self { board, players, bot: add_bot, turn: 0, status: GameStatus::Creating };
        proof {
            game.board.lemma_view_is_board();
            assert(game@.players =~= GameState::fresh(board@, add_bot).players);
        }
        game
    }

    /// The player whose turn it is puts their card on `entry`, whatever the
    /// cell held before. Where they now hold a whole winning line, the game is
    /// finished and their index is returned; else the turn passes to the other
    /// player and `None` is returned.
    pub fn play(&mut self, entry: Cell) -> (winner: Option<usize>)
        requires
            old(self)@.can_play(entry),
        ensures
            final(self)@ == old(self)@.play(entry),
            winner == if old(self)@.wins_with(entry) {
                Some(old(self).turn)
            } else {
                None
            },
            old(self)@.valid() ==> final(self)@.valid(),
    {
        let card = self.players[self.turn].card.unwrap();
        self.board.place(entry, card);

        let patterns = self.board.get_winning_patterns();
        let user_entries = self.board.get_user_board_entries(&Some(card));
        let ghost marks = self.board@;
        proof {
            lemma_winning_lines();
            lemma_cells_holding(marks, Some(card));
            if has_won(marks, card) {
                lemma_win_needs_three(marks, card);
            }
        }

        let mut won = false;
        // Three cells at least make a line.
        if user_entries.len() >= 3 {
            let mut j: usize = 0;
            while j < patterns.len()
                invariant_except_break
                    !won,
                    forall|i: int|
                        0 <= i < j ==> !line_held(marks, #[trigger] winning_lines()[i], card),
                invariant
                    j <= patterns.len(),
                    patterns@ == winning_lines(),
                    user_entries@ == cells_holding(marks, Some(card)),
                ensures
                    won == has_won(marks, card),
                decreases patterns.len() - j,
            {
                let (first, second, third): Line = patterns[j];
                proof {
                    lemma_winning_lines();
                    lemma_cells_holding(marks, Some(card));
                }
                if contains_cell(&user_entries, first) && contains_cell(&user_entries, second)
                    && contains_cell(&user_entries, third) {
                    assert(line_held(marks, winning_lines()[j as int], card));
                    won = true;
                    break;
                }
                j = j + 1;
            }
        }
        if won {
            self.status = GameStatus::Finished;
            Some(self.turn)
        } else {
            if self.turn == 0 {
                self.turn = 1;
            } else {
                self.turn = 0;
            }
            None
        }
    }

    /// The move of `play`, made only where the game is being played, the
    /// player whose turn it is holds a card, and `entry` is an empty cell of
    /// the board. Any other move is turned down and changes nothing.
    pub fn play_checked(&mut self, entry: Cell) -> (r: Result<Option<usize>, PlayError>)
        ensures
            match old(self)@.play_error(entry) {
                Some(error) => r == Err::<Option<usize>, PlayError>(error) && *final(self) == *old(
                    self,
                ),
                None => {
                    &&& final(self)@ == old(self)@.play(entry)
                    &&& r == Ok::<Option<usize>, PlayError>(
                        if old(self)@.wins_with(entry) {
                            Some(old(self).turn)
                        } else {
                            None
                        },
                    )
                },
            },
            old(self)@.valid() ==> final(self)@.valid(),
    {
        match self.status {
            GameStatus::Playing => {},
            _ => {
                return Err(PlayError::NotPlaying);
            },
        }
        if self.turn >= self.players.len() || self.players[self.turn].card.is_none() {
            return Err(PlayError::MoverHasNoCard);
        }
        let free = self.board.get_available_spaces();
        proof {
            self.board.lemma_view_is_board();
            lemma_empty_cells(self.board@);
        }
        if !contains_cell(&free, entry) {
            return Err(PlayError::InvalidMoveTarget);
        }
        Ok(self.play(entry))
    }

    /// Begins play where the game is being created and has exactly two
    /// players, and says whether it did. A game that is played or finished,
    /// or has fewer players, stays as it is.
    pub fn start(&mut self) -> (started: bool)
        ensures
            started == old(self)@.can_start(),
            final(self)@ == old(self)@.start(),
            !started ==> *final(self) == *old(self),
            old(self)@.valid() ==> final(self)@.valid(),
    {
        match self.status {
            GameStatus::Playing => false,
            GameStatus::Finished => false,
            GameStatus::Creating => {
                if self.players.len() != 2 {
                    return false;
                }
                self.status = GameStatus::Playing;
                true
            },
        }
    }

    /// Lets `player` join at the end of the list where fewer than two players
    /// have joined, and says whether it did. A game with two players stays as
    /// it is.
    pub fn add_player(&mut self, player: Player) -> (added: bool)
        ensures
            added == old(self)@.can_add_player(),
            final(self)@ == old(self)@.add_player(player),
            !added ==> *final(self) == *old(self),
            old(self)@.valid() ==> final(self)@.valid(),
    {
        if self.players.len() >= 2 {
            return false;
        }
        self.players.push(player);
        true
    }

    /// The index of the first player in the list who holds no card, or `None`
    /// where every player holds one.
    pub fn get_position_of_user_with_no_card(&self) -> (position: Option<usize>)
        ensures
            match position {
                Some(i) => {
                    &&& i < self.players@.len()
                    &&& self.players@[i as int].card is None
                    &&& forall|j: int| 0 <= j < i ==> self.players@[j].card is Some
                },
                None => forall|j: int| 0 <= j < self.players@.len() ==> self.players@[j].card is Some,
            },
    {
        let mut i: usize = 0;
        while i < self.players.len()
            invariant
                i <= self.players@.len(),
                forall|j: int| 0 <= j < i ==> self.players@[j].card is Some,
            decreases self.players@.len() - i,
        {
            if self.players[i].card.is_none() {
                return Some(i);
            }
            i = i + 1;
        }
        None
    }

    /// The cards that are still to be had, X before O: both for a game
    /// without players; with one player, what that player leaves; with two,
    /// what the one with a card leaves to the one without. `None` once both
    /// players hold a card.
    pub fn available_cards(&self) -> (cards: Option<Vec<Card>>)
        ensures
            match cards {
                Some(v) => self@.available_cards() == Some(v@),
                None => self@.available_cards() is None,
            },
    {
        if self.players.len() == 0 {
            Some(remaining_cards(None))
        } else if self.players.len() == 1 {
            Some(remaining_cards(self.players[0].card))
        } else if self.players[0].card.is_none() {
            Some(remaining_cards(self.players[1].card))
        } else if self.players[1].card.is_none() {
            Some(remaining_cards(self.players[0].card))
        } else {
            None
        }
    }
}

/// The cards that a player who holds `held` leaves to the other.
fn remaining_cards(held: Option<Card>) -> (v: Vec<Card>)
    ensures
        v@ == cards_besides(held),
{
    let mut v: Vec<Card> = Vec::new();
    match held {
        None => {
            v.push(Card::X);
            v.push(Card::O);
        },
        Some(card) => {
            v.push(card.other());
        },
    }
    assert(v@ =~= cards_besides(held));
    v
}

} // verus!
