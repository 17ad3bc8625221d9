use zeromind::reducer::{check_winner, is_board_full, reducer};
use zeromind::state::{valid_moves, GameAction, GamePrivateState, GamePublicState, DRAW};
use zeromind::traits::{HasActions, HasTerminalState, TurboActionSerialization};

fn play(state: &mut GamePublicState, private: &mut GamePrivateState, cols: &[u8]) {
    for c in cols {
        reducer(state, private, &GameAction::DropPiece(*c));
    }
}

#[test]
fn piece_lands_on_bottom_and_turn_passes() {
    let mut s = GamePublicState::initial();
    let mut p = GamePrivateState::initial();
    play(&mut s, &mut p, &[3]);
    assert_eq!(s.board[5][3], 1);
    assert_eq!(s.current_player, 2);
    assert_eq!(s.moves, vec![3]);
    assert_eq!(p.moves, 1);
    play(&mut s, &mut p, &[3]);
    assert_eq!(s.board[4][3], 2);
    assert_eq!(s.current_player, 1);
}

#[test]
fn out_of_range_column_changes_nothing() {
    let mut s = GamePublicState::initial();
    let mut p = GamePrivateState::initial();
    play(&mut s, &mut p, &[7]);
    assert!(s.moves.is_empty());
    assert_eq!(s.current_player, 1);
    assert_eq!(p.moves, 0);
}

#[test]
fn full_column_is_rejected() {
    let mut s = GamePublicState::initial();
    let mut p = GamePrivateState::initial();
    play(&mut s, &mut p, &[0, 0, 0, 0, 0, 0]);
    assert_eq!(s.moves.len(), 6);
    let player = s.current_player;
    play(&mut s, &mut p, &[0]);
    assert_eq!(s.moves.len(), 6);
    assert_eq!(s.current_player, player);
    assert_eq!(p.moves, 6);
}

#[test]
fn vertical_four_wins() {
    let mut s = GamePublicState::initial();
    let mut p = GamePrivateState::initial();
    play(&mut s, &mut p, &[0, 1, 0, 1, 0, 1, 0]);
    assert_eq!(s.winner, 1);
    assert_eq!(s.current_player, 1);
    assert!(s.is_terminal());
    assert!(HasTerminalState::is_terminal(&s));
    // No move is taken after the end.
    play(&mut s, &mut p, &[2]);
    assert_eq!(s.moves, vec![0, 1, 0, 1, 0, 1, 0]);
    assert_eq!(HasActions::actions(&s), vec![0, 1, 0, 1, 0, 1, 0]);
}

#[test]
fn horizontal_four_wins_for_second_player() {
    let mut s = GamePublicState::initial();
    let mut p = GamePrivateState::initial();
    play(&mut s, &mut p, &[0, 1, 0, 2, 0, 3, 6, 4]);
    assert_eq!(s.winner, 2);
}

#[test]
fn diagonal_detection() {
    let mut board = [[0u8; 7]; 6];
    board[5][0] = 1;
    board[4][1] = 1;
    board[3][2] = 1;
    board[2][3] = 1;
    assert!(check_winner(&board, 3, 2, 1));
    assert!(check_winner(&board, 5, 0, 1));
    assert!(!check_winner(&board, 3, 2, 2));
    let mut other = [[0u8; 7]; 6];
    other[2][2] = 2;
    other[3][3] = 2;
    other[4][4] = 2;
    other[5][5] = 2;
    assert!(check_winner(&other, 4, 4, 2));
    other[5][5] = 1;
    assert!(!check_winner(&other, 4, 4, 2));
}

#[test]
fn full_board_detection() {
    let mut board = [[1u8; 7]; 6];
    assert!(is_board_full(&board));
    board[0][6] = 0;
    assert!(!is_board_full(&board));
    assert_eq!(valid_moves(&board), vec![6]);
}

#[test]
fn full_board_without_line_is_a_draw() {
    // Rows alternate in blocks so that no line of four forms.
    let mut s = GamePublicState::initial();
    let pattern: [[u8; 7]; 6] = [
        [1, 1, 2, 2, 1, 1, 2],
        [2, 2, 1, 1, 2, 2, 1],
        [1, 1, 2, 2, 1, 1, 2],
        [2, 2, 1, 1, 2, 2, 1],
        [1, 1, 2, 2, 1, 1, 2],
        [2, 2, 1, 1, 2, 2, 1],
    ];
    s.board = pattern;
    s.board[0][6] = 0;
    s.current_player = 2;
    let mut p = GamePrivateState::initial();
    play(&mut s, &mut p, &[6]);
    assert_eq!(s.winner, DRAW);
}

#[test]
fn action_bytes_deserialize() {
    let bytes = [4u8, 9];
    let (action, rest) = <GameAction as TurboActionSerialization>::deserialize(&bytes).unwrap();
    assert!(matches!(action, GameAction::DropPiece(4)));
    assert_eq!(rest, &[9u8][..]);
    assert!(GameAction::deserialize(&[]).is_err());
}
