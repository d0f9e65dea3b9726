//! The move-validation and win-detection state machine of one session.
//!
//! Both players share one 3x3 board. A cell starts empty, is first taken by
//! one player, and becomes jointly claimed when the other player also takes
//! it. A move is refused when it leaves the board, repeats the immediately
//! preceding move's cell, re-takes a cell the mover already holds alone, or
//! aims at a jointly claimed cell. Win detection is a query over the board:
//! a full row, column or diagonal of jointly claimed cells.

use vstd::prelude::*;

verus! {

#[derive(Debug, Copy, Clone, PartialEq, Eq, Structural)]
pub enum Player {
    Horizontal,
    Vertical,
}

#[derive(Debug, Copy, Clone, PartialEq, Eq, Structural)]
pub enum FieldState {
    Empty,
    OccupiedByOne(Player),
    Both,
}

/// Why a move was refused; the connection stays open and the game state
/// machine keeps accepting further moves.
#[derive(Debug, Copy, Clone, PartialEq, Eq, Structural)]
pub enum GameError {
    /// The target cell lies outside the 3x3 board.
    OutOfBounds,
    /// The target cell is the one the immediately preceding move took,
    /// whoever played it.
    RepeatedCell,
    /// The mover already holds the target cell alone.
    AlreadyOccupiedBySelf,
    /// The target cell is already jointly claimed by both players.
    CellFull,
}

type Board = [[FieldState; 3]; 3];

#[derive(Debug)]
pub struct Game {
    pub board: Board,
    pub current_player: Player,
    pub previous_move: Option<(u8, u8)>,
}

pub open spec fn opponent(p: Player) -> Player {
    match p {
        Player::Horizontal => Player::Vertical,
        Player::Vertical => Player::Horizontal,
    }
}

impl GameError {
    /// The human-readable description of the refusal.
    pub fn message(&self) -> (r: &'static str)
        ensures
            r@ == match *self {
                GameError::OutOfBounds => "Invalid coordinates"@,
                GameError::RepeatedCell => "Invalid move: placed in last round"@,
                GameError::AlreadyOccupiedBySelf => "Invalid move: already placed"@,
                GameError::CellFull => "Invalid move"@,
            },
    {
        match *self {
            GameError::OutOfBounds => "Invalid coordinates",
            GameError::RepeatedCell => "Invalid move: placed in last round",
            GameError::AlreadyOccupiedBySelf => "Invalid move: already placed",
            GameError::CellFull => "Invalid move",
        }
    }
}

impl Game {
    /// The board cell at row `r`, column `c`.
    pub open spec fn cell(self, r: int, c: int) -> FieldState {
        self.board[r][c]
    }

    pub open spec fn row_full(self, r: int) -> bool {
        &&& self.cell(r, 0) == FieldState::Both
        &&& self.cell(r, 1) == FieldState::Both
        &&& self.cell(r, 2) == FieldState::Both
    }

    pub open spec fn col_full(self, c: int) -> bool {
        &&& self.cell(0, c) == FieldState::Both
        &&& self.cell(1, c) == FieldState::Both
        &&& self.cell(2, c) == FieldState::Both
    }

    pub open spec fn diagonal_full(self) -> bool {
        &&& self.cell(0, 0) == FieldState::Both
        &&& self.cell(1, 1) == FieldState::Both
        &&& self.cell(2, 2) == FieldState::Both
    }

    pub open spec fn anti_diagonal_full(self) -> bool {
        &&& self.cell(0, 2) == FieldState::Both
        &&& self.cell(1, 1) == FieldState::Both
        &&& self.cell(2, 0) == FieldState::Both
    }

    /// Some full row, column or diagonal is entirely jointly claimed.
    pub open spec fn has_winning_line(self) -> bool {
        ||| self.row_full(0)
        ||| self.row_full(1)
        ||| self.row_full(2)
        ||| self.col_full(0)
        ||| self.col_full(1)
        ||| self.col_full(2)
        ||| self.diagonal_full()
        ||| self.anti_diagonal_full()
    }

    /// The state a fresh game starts in: an empty board, the horizontal
    /// player to move, and no move played yet.
    pub open spec fn is_initial(self) -> bool {
        &&& forall|r: int, c: int|
            0 <= r < 3 && 0 <= c < 3 ==> self.cell(r, c) == FieldState::Empty
        &&& self.current_player == Player::Horizontal
        &&& self.previous_move is None
    }

    /// Whether a move at `coords` is accepted in this state.
    pub open spec fn move_allowed(self, coords: (u8, u8)) -> bool {
        &&& coords.0 < 3 && coords.1 < 3
        &&& self.previous_move != Some(coords)
        &&& {
            ||| self.cell(coords.0 as int, coords.1 as int) == FieldState::Empty
            ||| self.cell(coords.0 as int, coords.1 as int) == FieldState::OccupiedByOne(
                opponent(self.current_player),
            )
        }
    }

    pub fn new() -> (g: Game)
        ensures
            g.is_initial(),
    {
        let empty_row = [FieldState::Empty, FieldState::Empty, FieldState::Empty];
        Game { board: [empty_row, empty_row, empty_row], current_player: Player::Horizontal, previous_move: None }
    }

    /// Try to take the cell at `coords` for the player whose turn it is.
    ///
    /// On success the cell advances (empty to singly held, singly held by
    /// the opponent to jointly claimed), the move is recorded as the
    /// previous move, and the turn passes to the other player. A refused
    /// move changes nothing: the board, the turn and the recorded previous
    /// move all stay as they were.
    pub fn make_move(&mut self, coords: (u8, u8)) -> (r: Result<(), GameError>)
        ensures
            r is Ok <==> old(self).move_allowed(coords),
            r == Err::<(), GameError>(GameError::OutOfBounds) <==> !(coords.0 < 3 && coords.1 < 3),
            r == Err::<(), GameError>(GameError::RepeatedCell) <==> coords.0 < 3 && coords.1 < 3
                && old(self).previous_move == Some(coords),
            r == Err::<(), GameError>(GameError::AlreadyOccupiedBySelf) <==> coords.0 < 3
                && coords.1 < 3 && old(self).previous_move != Some(coords) && old(self).cell(
                coords.0 as int,
                coords.1 as int,
            ) == FieldState::OccupiedByOne(old(self).current_player),
            r == Err::<(), GameError>(GameError::CellFull) <==> coords.0 < 3 && coords.1 < 3
                && old(self).previous_move != Some(coords) && old(self).cell(
                coords.0 as int,
                coords.1 as int,
            ) == FieldState::Both,
            r is Err ==> *final(self) == *old(self),
            final(self).current_player == if r is Ok {
                opponent(old(self).current_player)
            } else {
                old(self).current_player
            },
            final(self).previous_move == if r is Ok {
                Some(coords)
            } else {
                old(self).previous_move
            },
            r is Ok ==> final(self).cell(coords.0 as int, coords.1 as int) == (
            if old(self).cell(coords.0 as int, coords.1 as int) == FieldState::Empty {
                FieldState::OccupiedByOne(old(self).current_player)
            } else {
                FieldState::Both
            }),
            forall|i: int, j: int|
                0 <= i < 3 && 0 <= j < 3 && !(i == coords.0 as int && j == coords.1 as int)
                    ==> final(self).cell(i, j) == old(self).cell(i, j),
    {
        // Out of bound check
        if coords.0 >= 3 || coords.1 >= 3 {
            return Err(GameError::OutOfBounds);
        }
        // Check if the field was occupied in the last round
        if let Some(prev) = self.previous_move {
            if prev.0 == coords.0 && prev.1 == coords.1 {
                return Err(GameError::RepeatedCell);
            }
        }

        let row = coords.0 as usize;
        let col = coords.1 as usize;

        // Try to occupy the field
        let taken = match self.board[row][col] {
            FieldState::Empty => FieldState::OccupiedByOne(self.current_player),
            FieldState::OccupiedByOne(player) => {
                if player == self.current_player {
                    return Err(GameError::AlreadyOccupiedBySelf);
                }
                FieldState::Both
            },
            FieldState::Both => {
                return Err(GameError::CellFull);
            },
        };
        let mut new_row = self.board[row];
        new_row[col] = taken;
        self.board[row] = new_row;

        // Record the move and set the next player
        self.previous_move = Some(coords);
        self.current_player = match self.current_player {
            Player::Horizontal => Player::Vertical,
            Player::Vertical => Player::Horizontal,
        };

        Ok(())
    }

    /// Report the player whose turn it now is when some row, column or
    /// diagonal is entirely jointly claimed, and nothing otherwise.
    pub fn check_win(&self) -> (r: Option<Player>)
        ensures
            r is Some <==> self.has_winning_line(),
            r is Some ==> r == Some(self.current_player),
    {
        let b = &self.board;
        let won = (b[0][0] == FieldState::Both && b[0][1] == FieldState::Both && b[0][2]
            == FieldState::Both) || (b[1][0] == FieldState::Both && b[1][1] == FieldState::Both
            && b[1][2] == FieldState::Both) || (b[2][0] == FieldState::Both && b[2][1]
            == FieldState::Both && b[2][2] == FieldState::Both) || (b[0][0] == FieldState::Both
            && b[1][0] == FieldState::Both && b[2][0] == FieldState::Both) || (b[0][1]
            == FieldState::Both && b[1][1] == FieldState::Both && b[2][1] == FieldState::Both) || (
        b[0][2] == FieldState::Both && b[1][2] == FieldState::Both && b[2][2] == FieldState::Both)
            || (b[0][0] == FieldState::Both && b[1][1] == FieldState::Both && b[2][2]
            == FieldState::Both) || (b[0][2] == FieldState::Both && b[1][1] == FieldState::Both
            && b[2][0] == FieldState::Both);
        if won {
            Some(self.current_player)
        } else {
            None
        }
    }
}

} // verus!
