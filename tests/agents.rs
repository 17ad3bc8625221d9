use zeromind::input::ParticipantMetadata;
use zeromind::minimax;
use zeromind::minimax::MinimaxAgent;
use zeromind::simulator::Agent;
use zeromind::random_agent;
use zeromind::state::GamePublicState;

#[test]
fn random_agent_picks_among_open_columns() {
    let s = GamePublicState::initial();
    assert_eq!(random_agent::agent(&s, 10), 3);
    let mut t = GamePublicState::initial();
    t.board[0][0] = 1;
    t.board[0][1] = 2;
    // Open columns are 2..=6; 7 % 5 == 2 picks column 4.
    assert_eq!(random_agent::agent(&t, 7), 4);
}

#[test]
fn random_agent_after_the_end_plays_zero() {
    let mut s = GamePublicState::initial();
    s.winner = 1;
    assert_eq!(random_agent::agent(&s, 5), 0);
}

#[test]
fn minimax_takes_the_win() {
    // Only columns 3 and 6 are open; player 1 wins at once in column 3.
    let mut s = GamePublicState::initial();
    let fill: [[u8; 7]; 6] = [
        [1, 2, 1, 0, 1, 2, 0],
        [1, 2, 1, 0, 1, 2, 0],
        [2, 1, 2, 0, 2, 1, 0],
        [2, 1, 2, 1, 2, 1, 0],
        [1, 2, 1, 1, 1, 2, 2],
        [1, 2, 1, 1, 2, 1, 2],
    ];
    s.board = fill;
    s.current_player = 1;
    assert_eq!(minimax::agent(&s), 3);
}

#[test]
fn minimax_plays_an_open_column() {
    let mut s = GamePublicState::initial();
    let fill: [[u8; 7]; 6] = [
        [2, 1, 2, 1, 2, 1, 0],
        [1, 2, 1, 2, 1, 2, 0],
        [2, 1, 2, 1, 2, 1, 2],
        [1, 2, 1, 2, 1, 2, 1],
        [2, 1, 2, 1, 2, 1, 2],
        [1, 2, 1, 2, 1, 2, 1],
    ];
    s.board = fill;
    s.current_player = 2;
    assert_eq!(minimax::agent(&s), 6);
}

#[test]
fn minimax_on_a_full_grid_plays_zero() {
    let mut s = GamePublicState::initial();
    s.board = [[1u8; 7]; 6];
    assert_eq!(minimax::agent(&s), 0);
}

#[test]
fn minimax_agent_in_a_run_is_reproducible() {
    let meta = ParticipantMetadata { server: vec![1u8; 64], player0: vec![2u8; 64], player1: vec![3u8; 64] };
    let s = GamePublicState::initial();
    let first = MinimaxAgent.decide(&s, &meta, 0, 0);
    assert_eq!(first, minimax::agent(&s));
    assert!(first < 7);
}
