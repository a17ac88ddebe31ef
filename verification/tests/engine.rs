use tictactoe::board::Board;
use tictactoe::board::MoveError;
use tictactoe::game::Game;
use tictactoe::game::GameState;
use tictactoe::game::Player;
use tictactoe::game::parse_position;

fn player(name: &str, mark: &str) -> Player {
    Player::new(name.to_string(), mark.to_string())
}

fn fresh_game() -> Game {
    Game::new(player("A", "X"), player("B", "O"))
}

#[test]
fn legend_shows_the_nine_positions() {
    assert_eq!(
        Board::legend(),
        "0 | 1 | 2\n---------\n3 | 4 | 5\n---------\n6 | 7 | 8\n"
    );
}

#[test]
fn empty_board_renders_like_the_legend() {
    let b = Board::new();
    assert_eq!(b.render(), Board::legend());
}

#[test]
fn render_shows_marks_and_position_digits() {
    let mut b = Board::new();
    b.place(0, "X".to_string()).unwrap();
    b.place(4, "O".to_string()).unwrap();
    assert_eq!(b.render(), "X | 1 | 2\n---------\n3 | O | 5\n---------\n6 | 7 | 8\n");
}

#[test]
fn place_rejects_out_of_range_positions() {
    let mut b = Board::new();
    assert_eq!(b.place(9, "X".to_string()), Err(MoveError::OutOfRange));
    assert_eq!(b.place(100, "X".to_string()), Err(MoveError::OutOfRange));
}

#[test]
fn place_rejects_an_occupied_cell() {
    let mut b = Board::new();
    assert_eq!(b.place(3, "X".to_string()), Ok(()));
    assert_eq!(b.place(3, "O".to_string()), Err(MoveError::CellOccupied));
    assert_eq!(b.cell(3), &Some("X".to_string()));
}

#[test]
fn winner_detects_rows_columns_and_diagonals() {
    let lines: [[usize; 3]; 8] = [
        [0, 1, 2],
        [3, 4, 5],
        [6, 7, 8],
        [0, 3, 6],
        [1, 4, 7],
        [2, 5, 8],
        [0, 4, 8],
        [2, 4, 6],
    ];
    for line in lines.iter() {
        let mut b = Board::new();
        for &p in line.iter() {
            b.place(p, "X".to_string()).unwrap();
        }
        assert_eq!(b.winner(), Some(&"X".to_string()));
    }
}

#[test]
fn winner_is_none_without_a_complete_line() {
    let mut b = Board::new();
    assert_eq!(b.winner(), None);
    b.place(0, "X".to_string()).unwrap();
    b.place(1, "X".to_string()).unwrap();
    b.place(2, "O".to_string()).unwrap();
    assert_eq!(b.winner(), None);
}

#[test]
fn is_full_only_when_all_nine_cells_are_occupied() {
    let mut b = Board::new();
    assert!(!b.is_full());
    for p in 0..8 {
        b.place(p, "X".to_string()).unwrap();
        assert!(!b.is_full());
    }
    b.place(8, "X".to_string()).unwrap();
    assert!(b.is_full());
}

#[test]
fn parse_position_accepts_decimal_values_up_to_eight() {
    assert_eq!(parse_position("0"), Some(0));
    assert_eq!(parse_position("5"), Some(5));
    assert_eq!(parse_position("8"), Some(8));
    assert_eq!(parse_position("08"), Some(8));
    assert_eq!(parse_position("0000000007"), Some(7));
}

#[test]
fn parse_position_rejects_bad_tokens() {
    assert_eq!(parse_position(""), None);
    assert_eq!(parse_position("9"), None);
    assert_eq!(parse_position("10"), None);
    assert_eq!(parse_position("123456789123456789"), None);
    assert_eq!(parse_position("abc"), None);
    assert_eq!(parse_position("2x"), None);
    assert_eq!(parse_position("-1"), None);
    assert_eq!(parse_position(" 3"), None);
}

#[test]
fn a_new_game_awaits_player_one_on_an_empty_board() {
    let g = fresh_game();
    assert_eq!(g.state, GameState::AwaitingPlayer1Move);
    assert_eq!(g.current_player().name, "A");
    assert_eq!(g.render_table(), Board::legend());
}

#[test]
fn has_player_matches_names_exactly() {
    let g = fresh_game();
    assert!(g.has_player(&"A".to_string()));
    assert!(g.has_player(&"B".to_string()));
    assert!(!g.has_player(&"a".to_string()));
    assert!(!g.has_player(&"C".to_string()));
    assert!(!g.has_player(&"X".to_string()));
}

#[test]
fn a_successful_move_places_the_mark_and_passes_the_turn() {
    let mut g = fresh_game();
    assert_eq!(g.apply_move("0"), Ok(GameState::AwaitingPlayer2Move));
    assert_eq!(g.state, GameState::AwaitingPlayer2Move);
    assert_eq!(g.board.cell(0), &Some("X".to_string()));
    assert_eq!(g.current_player().name, "B");
    assert_eq!(g.apply_move("4"), Ok(GameState::AwaitingPlayer1Move));
    assert_eq!(g.board.cell(4), &Some("O".to_string()));
    assert_eq!(g.current_player().name, "A");
}

#[test]
fn a_rejected_move_leaves_state_and_board_unchanged() {
    let mut g = fresh_game();
    g.apply_move("0").unwrap();
    let table = g.render_table();
    assert_eq!(g.apply_move("0"), Err(MoveError::CellOccupied));
    assert_eq!(g.state, GameState::AwaitingPlayer2Move);
    assert_eq!(g.render_table(), table);
    assert_eq!(g.apply_move("nine"), Err(MoveError::InvalidPosition));
    assert_eq!(g.state, GameState::AwaitingPlayer2Move);
    assert_eq!(g.apply_move("9"), Err(MoveError::InvalidPosition));
    assert_eq!(g.state, GameState::AwaitingPlayer2Move);
    assert_eq!(g.render_table(), table);
}

#[test]
fn completing_a_row_wins_the_game_for_player_one() {
    let mut g = fresh_game();
    g.apply_move("0").unwrap();
    g.apply_move("3").unwrap();
    g.apply_move("1").unwrap();
    g.apply_move("4").unwrap();
    assert_eq!(g.apply_move("2"), Ok(GameState::Player1Won));
    assert_eq!(g.state, GameState::Player1Won);
    assert_eq!(g.board.winner(), Some(&"X".to_string()));
}

#[test]
fn completing_a_column_wins_the_game_for_player_two() {
    let mut g = fresh_game();
    g.apply_move("0").unwrap();
    g.apply_move("2").unwrap();
    g.apply_move("1").unwrap();
    g.apply_move("5").unwrap();
    g.apply_move("6").unwrap();
    assert_eq!(g.apply_move("8"), Ok(GameState::Player2Won));
    assert_eq!(g.state, GameState::Player2Won);
    assert_eq!(g.board.winner(), Some(&"O".to_string()));
}

#[test]
fn a_full_board_with_no_line_is_a_draw_after_the_ninth_move() {
    let mut g = fresh_game();
    for token in ["0", "1", "2", "4", "3", "5", "7", "6"] {
        g.apply_move(token).unwrap();
        assert!(!matches!(
            g.state,
            GameState::Player1Won | GameState::Player2Won | GameState::Draw
        ));
    }
    assert_eq!(g.apply_move("8"), Ok(GameState::Draw));
    assert_eq!(g.state, GameState::Draw);
    assert!(g.board.is_full());
    assert_eq!(g.board.winner(), None);
}

#[test]
fn moves_against_a_finished_game_fail() {
    let mut g = fresh_game();
    g.apply_move("0").unwrap();
    g.apply_move("3").unwrap();
    g.apply_move("1").unwrap();
    g.apply_move("4").unwrap();
    g.apply_move("2").unwrap();
    assert_eq!(g.state, GameState::Player1Won);
    assert_eq!(g.apply_move("5"), Err(MoveError::GameAlreadyOver));
    assert_eq!(g.state, GameState::Player1Won);
}

#[test]
fn rendering_twice_yields_identical_output() {
    let mut g = fresh_game();
    g.apply_move("4").unwrap();
    let first = g.render_table();
    let second = g.render_table();
    assert_eq!(first, second);
}
