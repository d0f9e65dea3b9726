use tickoattwo::game::{FieldState, Game, GameError, Player};

#[test]
fn test_check_win() {
    let mut game = Game::new();

    // Test no winner
    assert_eq!(game.check_win(), None);

    // Test horizontal win
    game.board = [
        [FieldState::Both, FieldState::Both, FieldState::Both],
        [FieldState::Empty, FieldState::Empty, FieldState::Empty],
        [FieldState::Empty, FieldState::Empty, FieldState::Empty],
    ];
    game.current_player = Player::Horizontal;
    assert_eq!(game.check_win(), Some(Player::Horizontal));

    // Test vertical win
    game.board = [
        [FieldState::Empty, FieldState::Empty, FieldState::Empty],
        [FieldState::Both, FieldState::Both, FieldState::Both],
        [FieldState::Both, FieldState::Both, FieldState::Both],
    ];
    game.current_player = Player::Vertical;
    assert_eq!(game.check_win(), Some(Player::Vertical));

    // Test diagonal win
    game.board = [
        [FieldState::Both, FieldState::Empty, FieldState::Empty],
        [FieldState::Empty, FieldState::Both, FieldState::Empty],
        [FieldState::Empty, FieldState::Empty, FieldState::Both],
    ];
    game.current_player = Player::Horizontal;
    assert_eq!(game.check_win(), Some(Player::Horizontal));
}

// Test invalid coordinates
#[test]
fn test_make_move_bounds() {
    let mut game = Game::new();

    assert_eq!(
        game.make_move((3, 0)).map_err(|e| e.message()),
        Err("Invalid coordinates")
    );
}

// Test invalid move: placed in last round
#[test]
fn test_make_move_last_round() {
    let mut game = Game::new();

    game.previous_move = Some((0u8, 0u8));
    assert_eq!(
        game.make_move((0, 0)).map_err(|e| e.message()),
        Err("Invalid move: placed in last round")
    );
}

// Test invalid move: already placed
#[test]
fn test_make_move_already_placed() {
    let mut game = Game::new();

    // Test valid move
    assert_eq!(game.make_move((0, 1)), Ok(()));
    assert_eq!(
        game.board[0][1],
        FieldState::OccupiedByOne(Player::Horizontal)
    );

    // Test valid move
    assert_eq!(game.make_move((1, 1)), Ok(()));
    assert_eq!(
        game.board[1][1],
        FieldState::OccupiedByOne(Player::Vertical)
    );

    // Test invalid move: already placed
    assert_eq!(
        game.make_move((0, 1)).map_err(|e| e.message()),
        Err("Invalid move: already placed")
    );
}

// Test valid move
#[test]
fn test_make_move_valid() {
    let mut game = Game::new();

    // Test valid move
    assert_eq!(game.make_move((0, 1)), Ok(()));
    assert_eq!(
        game.board[0][1],
        FieldState::OccupiedByOne(Player::Horizontal)
    );

    // Test valid move
    assert_eq!(game.make_move((1, 1)), Ok(()));
    assert_eq!(
        game.board[1][1],
        FieldState::OccupiedByOne(Player::Vertical)
    );

    // Test valid move
    assert_eq!(game.make_move((1, 2)), Ok(()));
    assert_eq!(
        game.board[1][2],
        FieldState::OccupiedByOne(Player::Horizontal)
    );

    // Test valid move
    assert_eq!(game.make_move((2, 2)), Ok(()));
    assert_eq!(
        game.board[2][2],
        FieldState::OccupiedByOne(Player::Vertical)
    );
}

// Test valid move
#[test]
fn test_make_move_valid_both() {
    let mut game = Game::new();

    // Test valid move
    assert_eq!(game.make_move((0, 1)), Ok(()));
    assert_eq!(
        game.board[0][1],
        FieldState::OccupiedByOne(Player::Horizontal)
    );

    // Test valid move
    assert_eq!(game.make_move((1, 1)), Ok(()));
    assert_eq!(
        game.board[1][1],
        FieldState::OccupiedByOne(Player::Vertical)
    );

    // Test valid move
    assert_eq!(game.make_move((1, 2)), Ok(()));
    assert_eq!(
        game.board[1][2],
        FieldState::OccupiedByOne(Player::Horizontal)
    );

    // Test valid move both
    assert_eq!(game.make_move((0, 1)), Ok(()));
    assert_eq!(game.board[0][1], FieldState::Both);
}

// Test invalid move
#[test]
fn test_make_move_invalid_both() {
    let mut game = Game::new();

    // Test valid move
    assert_eq!(game.make_move((0, 1)), Ok(()));
    assert_eq!(
        game.board[0][1],
        FieldState::OccupiedByOne(Player::Horizontal)
    );

    // Test valid move
    assert_eq!(game.make_move((1, 1)), Ok(()));
    assert_eq!(
        game.board[1][1],
        FieldState::OccupiedByOne(Player::Vertical)
    );

    // Test valid move
    assert_eq!(game.make_move((1, 2)), Ok(()));
    assert_eq!(
        game.board[1][2],
        FieldState::OccupiedByOne(Player::Horizontal)
    );

    // Test valid move both
    assert_eq!(game.make_move((0, 1)), Ok(()));
    assert_eq!(game.board[0][1], FieldState::Both);

    // Test valid move
    assert_eq!(game.make_move((2, 1)), Ok(()));
    assert_eq!(
        game.board[2][1],
        FieldState::OccupiedByOne(Player::Horizontal)
    );

    // Test invalid move both
    assert_eq!(
        game.make_move((0, 1)).map_err(|e| e.message()),
        Err("Invalid move")
    );
}

// A refused move changes nothing: the board, the turn and the recorded
// previous move all stay as they were.
#[test]
fn test_make_move_failure_effects() {
    let mut game = Game::new();

    assert_eq!(game.make_move((0, 0)), Ok(()));
    assert_eq!(game.make_move((0, 1)), Ok(()));
    assert_eq!(game.current_player, Player::Horizontal);
    assert_eq!(game.previous_move, Some((0, 1)));

    // Out of bounds: refused, nothing changes.
    assert_eq!(game.make_move((0, 3)), Err(GameError::OutOfBounds));
    assert_eq!(game.previous_move, Some((0, 1)));
    assert_eq!(game.current_player, Player::Horizontal);

    // Re-taking one's own cell: refused, nothing changes, so the same
    // attempt is refused the same way again.
    assert_eq!(game.make_move((0, 0)), Err(GameError::AlreadyOccupiedBySelf));
    assert_eq!(game.previous_move, Some((0, 1)));
    assert_eq!(game.current_player, Player::Horizontal);
    assert_eq!(game.make_move((0, 0)), Err(GameError::AlreadyOccupiedBySelf));
    assert_eq!(
        game.board[0][0],
        FieldState::OccupiedByOne(Player::Horizontal)
    );

    // Aiming at a jointly claimed cell: refused, nothing changes.
    assert_eq!(game.make_move((1, 1)), Ok(()));
    assert_eq!(game.make_move((0, 0)), Ok(()));
    assert_eq!(game.board[0][0], FieldState::Both);
    assert_eq!(game.previous_move, Some((0, 0)));
    assert_eq!(game.current_player, Player::Horizontal);
    assert_eq!(game.make_move((1, 0)), Ok(()));
    assert_eq!(game.make_move((0, 0)), Err(GameError::CellFull));
    assert_eq!(game.previous_move, Some((1, 0)));
    assert_eq!(game.current_player, Player::Vertical);
    assert_eq!(game.board[0][0], FieldState::Both);
}

// Win detection through play: a column of jointly claimed cells, and the
// reported winner is the player about to move next.
#[test]
fn test_check_win_through_moves() {
    let mut game = Game::new();

    let moves: [(u8, u8); 8] = [
        (0, 0),
        (0, 1),
        (1, 0),
        (0, 0),
        (2, 0),
        (1, 0),
        (2, 1),
        (2, 0),
    ];
    for (i, m) in moves.iter().enumerate() {
        assert_eq!(game.check_win(), None, "no winner before move {}", i);
        assert_eq!(game.make_move(*m), Ok(()));
    }
    // Column 0 is entirely jointly claimed; eight moves passed the turn
    // back to the horizontal player.
    assert_eq!(game.board[0][0], FieldState::Both);
    assert_eq!(game.board[1][0], FieldState::Both);
    assert_eq!(game.board[2][0], FieldState::Both);
    assert_eq!(game.check_win(), Some(Player::Horizontal));
}

#[test]
fn test_game_error_messages() {
    assert_eq!(GameError::OutOfBounds.message(), "Invalid coordinates");
    assert_eq!(
        GameError::RepeatedCell.message(),
        "Invalid move: placed in last round"
    );
    assert_eq!(
        GameError::AlreadyOccupiedBySelf.message(),
        "Invalid move: already placed"
    );
    assert_eq!(GameError::CellFull.message(), "Invalid move");
}
