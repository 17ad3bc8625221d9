use std::cell::Cell;

use zeromind::abi::encode_public_state;
use zeromind::action::serialize_action_json;
use zeromind::commitment::{commit_to, generate_commitment, make_metadata, CommitmentError};
use zeromind::input::{assemble_inputs, AssemblyError, ParticipantMetadata};
use zeromind::minimax::FixedAgent;
use zeromind::random_agent::{draw, RandomAgent};
use zeromind::receipts::{verify_agent_receipt, verify_execution, verify_game_receipt, VerificationError};
use zeromind::reader::{read_agent_input, read_game_input};
use zeromind::setup_cache::SetupCache;
use zeromind::simulator::{
    run_game, zeromind_agent_program, zeromind_run_agent, Agent, GameRecord, ReplayError,
};
use zeromind::state::{GameAction, GamePublicState};
use zeromind::traits::TurboActionSerialization;


fn metadata() -> ParticipantMetadata {
    ParticipantMetadata { server: vec![7u8; 64], player0: vec![8u8; 64], player1: vec![9u8; 64] }
}

/// Agent 0 plays column 0, agent 1 column 1: agent 0 wins in seven turns.
fn won_record() -> GameRecord {
    run_game(&FixedAgent { column: 0 }, &FixedAgent { column: 1 }, &metadata(), 100)
}

#[test]
fn always_zero_agents_fill_one_column() {
    let record = run_game(&FixedAgent { column: 0 }, &FixedAgent { column: 0 }, &metadata(), 20);
    assert_eq!(record.moves(), vec![0, 0, 0, 0, 0, 0]);
    assert_eq!(record.final_state.winner, 0);
    assert_eq!(record.movers.len(), 20);
    assert_eq!(record.decisions, vec![0u8; 20]);
}

#[test]
fn movers_alternate_from_zero() {
    let record = run_game(&FixedAgent { column: 0 }, &FixedAgent { column: 0 }, &metadata(), 9);
    assert_eq!(record.movers, vec![0, 1, 0, 1, 0, 1, 0, 1, 0]);
    let won = won_record();
    assert_eq!(won.movers, vec![0, 1, 0, 1, 0, 1, 0]);
    assert_eq!(won.moves(), vec![0, 1, 0, 1, 0, 1, 0]);
    assert_eq!(won.final_state.winner, 1);
}

#[test]
fn assembly_is_deterministic_and_laid_out() {
    let moves = vec![3u8, 4];
    let a = assemble_inputs(&metadata(), &moves).unwrap();
    let b = assemble_inputs(&metadata(), &moves).unwrap();
    assert_eq!(a.game, b.game);
    assert_eq!(a.agent0, b.agent0);
    assert_eq!(a.agent1, b.agent1);
    let mut prefix = vec![7u8; 64];
    prefix.extend_from_slice(&[2, 0, 0, 0, 0, 0, 0, 0]);
    prefix.extend_from_slice(&[8u8; 64]);
    prefix.extend_from_slice(&[9u8; 64]);
    let mut game = prefix.clone();
    game.extend_from_slice(&[4, 0, 0, 0, 0, 0, 0, 0, 0, 3, 1, 4]);
    assert_eq!(a.game, game);
    let mut agent1 = prefix.clone();
    agent1.extend_from_slice(&[2, 0, 0, 0, 0, 0, 0, 0, 3, 4, 1]);
    assert_eq!(a.agent1, agent1);
    assert_eq!(&a.agent0[..200], &prefix[..]);
    assert_eq!(*a.agent0.last().unwrap(), 0);
}

#[test]
fn assembly_rejects_malformed_content() {
    let mut m = metadata();
    m.player1 = vec![1u8; 63];
    assert_eq!(assemble_inputs(&m, &vec![1]).err(), Some(AssemblyError::BadCommitment { role: 2 }));
    assert_eq!(
        assemble_inputs(&metadata(), &vec![1, 2, 9, 8]).err(),
        Some(AssemblyError::BadMove { index: 2 })
    );
}

#[test]
fn echoing_receipts_pass_verification() {
    let record = won_record();
    let inputs = assemble_inputs(&metadata(), &record.moves()).unwrap();
    let out = encode_public_state(&record.final_state);
    let verified = verify_execution(&record, inputs, out, record.moves(), record.moves());
    let verified = verified.ok().unwrap();
    let bundle = verified.settlement(vec![1], vec![2], vec![3], vec![4], vec![5]);
    assert_eq!(bundle.final_state, encode_public_state(&record.final_state));
    assert_eq!(bundle.game_proof, vec![3]);
}

#[test]
fn state_encoding_layout() {
    let s = GamePublicState::initial();
    let bytes = encode_public_state(&s);
    // Offset word, 42 grid words, two bytes, the list's offset and length.
    assert_eq!(bytes.len(), 32 * 47);
    assert_eq!(bytes[31], 0x20);
    assert_eq!(bytes[32 + 42 * 32 + 31], 1);
}

#[test]
fn each_game_divergence_is_rejected() {
    let record = won_record();
    let good = encode_public_state(&record.final_state);
    // Other final bytes with the same decoded moves and outcome.
    let mut other = GamePublicState::initial();
    other.winner = 1;
    other.moves = record.moves();
    let bytes = encode_public_state(&other);
    assert_eq!(verify_game_receipt(&record, &bytes), Err(VerificationError::GameResultMismatch));
    // Another move list.
    let mut moved = other;
    moved.moves = vec![0];
    let bytes = encode_public_state(&moved);
    assert_eq!(verify_game_receipt(&record, &bytes), Err(VerificationError::GameMovesMismatch));
    // No outcome.
    let mut open = GamePublicState::initial();
    open.moves = record.moves();
    let bytes = encode_public_state(&open);
    assert_eq!(verify_game_receipt(&record, &bytes), Err(VerificationError::GameNotTerminal));
    // Not an encoding at all.
    assert_eq!(verify_game_receipt(&record, &vec![1, 2, 3]), Err(VerificationError::GameOutputUndecodable));
    assert_eq!(verify_game_receipt(&record, &good), Ok(()));
}

#[test]
fn tampered_history_is_rejected_before_any_key_is_requested() {
    let record = won_record();
    let mut inputs = assemble_inputs(&metadata(), &record.moves()).unwrap();
    // The agent 0 history starts after the participants (200 bytes) and its count (8).
    inputs.agent0[208] ^= 1;
    let declared: Vec<u8> = inputs.agent0[208..208 + 7].to_vec();
    assert_eq!(
        verify_agent_receipt(&record, 0, &declared),
        Err(VerificationError::AgentMovesMismatch { role: 0 })
    );
    let cache: SetupCache<u32> = SetupCache::new();
    let out = encode_public_state(&record.final_state);
    let result = verify_execution(&record, inputs, out, declared, record.moves());
    assert_eq!(result.err(), Some(VerificationError::AgentMovesMismatch { role: 0 }));
    assert_eq!(cache.derivations(), 0);
}

#[test]
fn setup_is_derived_once_per_identity() {
    let counter = Cell::new(0u32);
    let derive = |id: &Vec<u8>| -> Result<u32, String> {
        counter.set(counter.get() + 1);
        Ok(id.len() as u32 * 100 + counter.get())
    };
    let mut cache: SetupCache<u32> = SetupCache::new();
    let a = vec![1u8, 2, 3];
    let b = vec![4u8];
    let first = cache.get_or_create(&a, &derive).unwrap();
    for _ in 0..5 {
        let slot = cache.get_or_create(&a, &derive).unwrap();
        assert_eq!(*cache.key_pair(slot), *cache.key_pair(first));
    }
    assert_eq!(counter.get(), 1);
    let second = cache.get_or_create(&b, &derive).unwrap();
    assert_eq!(counter.get(), 2);
    assert_eq!(*cache.key_pair(first), 301);
    assert_eq!(*cache.key_pair(second), 102);
    let again_a = cache.get_or_create(&a, &derive).unwrap();
    let again_b = cache.get_or_create(&b, &derive).unwrap();
    assert_eq!(*cache.key_pair(again_a), 301);
    assert_eq!(*cache.key_pair(again_b), 102);
    assert_eq!(cache.derivations(), 2);
    assert_eq!(counter.get(), 2);
}

#[test]
fn failed_derivation_is_not_cached() {
    let mut cache: SetupCache<u32> = SetupCache::new();
    let id = vec![5u8];
    let failed = cache.get_or_create(&id, |_: &Vec<u8>| -> Result<u32, String> { Err("down".to_string()) });
    assert!(failed.is_err());
    assert_eq!(cache.lookup(&id), None);
    let slot = cache.get_or_create(&id, |_: &Vec<u8>| -> Result<u32, String> { Ok(9) }).unwrap();
    assert_eq!(*cache.key_pair(slot), 9);
    assert_eq!(cache.derivations(), 2);
}

#[test]
fn replay_accepts_true_history_and_rejects_false_one() {
    let history = vec![0u8, 1, 0, 1, 0, 1, 0];
    assert_eq!(zeromind_agent_program(&history, 0, &metadata(), &FixedAgent { column: 0 }), Ok(history.clone()));
    assert_eq!(zeromind_agent_program(&history, 1, &metadata(), &FixedAgent { column: 1 }), Ok(history.clone()));
    assert_eq!(
        zeromind_agent_program(&history, 1, &metadata(), &FixedAgent { column: 2 }),
        Err(ReplayError::InvalidAction { index: 1 })
    );
    assert_eq!(zeromind_agent_program(&history, 2, &metadata(), &FixedAgent { column: 0 }), Err(ReplayError::InvalidPlayer));
}

#[test]
fn commitments_are_fresh_points() {
    let (scalar, c) = generate_commitment().unwrap();
    assert_eq!(scalar.len(), 32);
    assert_eq!(c.len(), 64);
    assert_ne!(&c[..32], &scalar[..]);
    let m = make_metadata().unwrap();
    assert_eq!(m.server.len(), 64);
    assert_ne!(m.server, m.player0);
    assert_ne!(m.player0, m.player1);
    assert!(assemble_inputs(&m, &vec![0, 1]).is_ok());
}

#[test]
fn json_moves_are_encoded() {
    assert_eq!(serialize_action_json("3"), Ok(vec![3]));
    assert_eq!(serialize_action_json("{\"action\":\"DropPiece\",\"data\":[4]}"), Ok(vec![4]));
    assert_eq!(
        <GameAction as TurboActionSerialization>::serialize_json("{\"action\":\"DropPiece\",\"data\":[9]}"),
        Err("Column out of bounds")
    );
    assert_eq!(serialize_action_json("{\"action\":\"Pass\",\"data\":[]}"), Err("Invalid action type"));
    assert_eq!(serialize_action_json("{\"action\":\"DropPiece\",\"data\":[1,2]}"), Err("Invalid data length for DropPiece"));
    assert_eq!(serialize_action_json("{\"action\":\"DropPiece\",\"data\":[\"x\"]}"), Err("Invalid column"));
    assert_eq!(serialize_action_json("{\"data\":[1]}"), Err("Missing action field"));
    assert_eq!(serialize_action_json("{\"action\":\"DropPiece\"}"), Err("Missing data field"));
    assert_eq!(serialize_action_json("{oops"), Err("Invalid JSON"));
}

#[test]
fn programs_read_back_what_was_assembled() {
    let moves = vec![3u8, 4, 0];
    let inputs = assemble_inputs(&metadata(), &moves).unwrap();
    let (m, mv, role) = read_agent_input(&inputs.agent1).unwrap();
    assert_eq!(m.server, vec![7u8; 64]);
    assert_eq!(m.player1, vec![9u8; 64]);
    assert_eq!(mv, moves);
    assert_eq!(role, 1);
    let (g, gm) = read_game_input(&inputs.game).unwrap();
    assert_eq!(g.player0, vec![8u8; 64]);
    assert_eq!(gm, moves);
    // A mover tag out of turn is refused.
    let mut bad = inputs.game.clone();
    bad[208] = 1;
    assert!(read_game_input(&bad).is_none());
    // A truncated input is refused.
    assert!(read_agent_input(&inputs.agent0[..inputs.agent0.len() - 1].to_vec()).is_none());
}

#[test]
fn run_with_fresh_commitments() {
    let (meta, record) = zeromind_run_agent(&FixedAgent { column: 0 }, &FixedAgent { column: 1 }, 50).unwrap();
    assert_eq!(meta.server.len(), 64);
    assert_ne!(meta.player0, meta.player1);
    assert_eq!(record.moves(), vec![0, 1, 0, 1, 0, 1, 0]);
    assert_eq!(record.final_state.winner, 1);
}

#[test]
fn random_agent_draws_from_the_commitments() {
    // Player 0's word is 8 * 0x01010101, the server's 7 * 0x01010101.
    assert_eq!(draw(&metadata(), 0, 0), 252645135);
    let s = GamePublicState::initial();
    // 252645135 % 7 == 1 picks column 1 of the seven open ones.
    assert_eq!(RandomAgent.decide(&s, &metadata(), 0, 0), 1);
}

#[test]
fn runs_with_equal_commitments_are_equal() {
    let a = run_game(&RandomAgent, &RandomAgent, &metadata(), 60);
    let b = run_game(&RandomAgent, &RandomAgent, &metadata(), 60);
    assert_eq!(a.decisions, b.decisions);
    assert_eq!(a.moves(), b.moves());
    assert_eq!(a.final_state.board, b.final_state.board);
    assert_eq!(a.final_state.winner, b.final_state.winner);
    // A random run replays: each agent program accepts the history.
    let moves = a.decisions.clone();
    assert_eq!(zeromind_agent_program(&moves, 0, &metadata(), &RandomAgent), Ok(moves.clone()));
    assert_eq!(zeromind_agent_program(&moves, 1, &metadata(), &RandomAgent), Ok(moves.clone()));
}

fn abi_word(n: usize) -> Vec<u8> {
    let mut w = vec![0u8; 32];
    w[30] = (n / 256) as u8;
    w[31] = (n % 256) as u8;
    w
}

#[test]
fn state_encoding_words() {
    let mut s = GamePublicState::initial();
    s.board[5][3] = 1;
    s.board[4][3] = 2;
    s.current_player = 1;
    s.moves = vec![3, 3];
    let mut expected = abi_word(32);
    for r in 0..6 {
        for c in 0..7 {
            expected.extend(abi_word(s.board[r][c] as usize));
        }
    }
    expected.extend(abi_word(1));
    expected.extend(abi_word(0));
    expected.extend(abi_word(45 * 32));
    expected.extend(abi_word(2));
    expected.extend(abi_word(3));
    expected.extend(abi_word(3));
    assert_eq!(encode_public_state(&s), expected);
}

#[test]
fn commitment_to_one_is_the_generator() {
    let mut one = vec![0u8; 32];
    one[31] = 1;
    let c = commit_to(&one).unwrap();
    let mut expected = vec![0u8; 64];
    expected[31] = 1;
    expected[63] = 2;
    assert_eq!(c, expected);
    assert_eq!(commit_to(&vec![0u8; 32]), Err(CommitmentError::ZeroScalar));
}
