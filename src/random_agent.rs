use vstd::prelude::*;
use crate::input::ParticipantMetadata;
use crate::simulator::{meta_view, public_view, Agent};
use crate::state::{
    has_open_column, lemma_open_columns, open_columns, valid_moves, Board, GamePublicState,
};

verus! {

/// A random agent: once the game has an outcome it plays column 0; otherwise it
/// plays the open column that `random` picks, modulo the number of open
/// columns, among them in order.
pub fn agent(state: &GamePublicState, random: u32) -> (r: u8)
    requires
        state.winner != 0 || has_open_column(state.board),
    ensures
        state.winner != 0 ==> r == 0,
        state.winner == 0 ==> r as int == open_columns(state.board)[(random as int) % open_columns(
            state.board,
        ).len() as int],
{
    if state.winner != 0 {
        return 0;
    }
    let empty_columns = valid_moves(&state.board);
    proof {
        lemma_open_columns(state.board, 7);
        let c = choose|c: int| 0 <= c < 7 && crate::state::cell(state.board, 0, c) == 0;
        assert(0 <= c < 7 && crate::state::cell(state.board, 0, c) == 0);
    }
    let idx = (random % (empty_columns.len() as u32)) as usize;
    empty_columns[idx] as u8
}

/// Byte `i` of `s`, or 0 past its end.
pub open spec fn byte_or_zero(s: Seq<u8>, i: int) -> nat {
    if 0 <= i < s.len() {
        s[i] as nat
    } else {
        0
    }
}

/// The four bytes of `s` from `o`, least significant first.
pub open spec fn word_at(s: Seq<u8>, o: int) -> nat {
    byte_or_zero(s, o) + 256 * byte_or_zero(s, o + 1) + 65536 * byte_or_zero(s, o + 2) + 16777216
        * byte_or_zero(s, o + 3)
}

/// The number an agent of `role` draws at `turn` from the commitments: the
/// word of its player's commitment and the word of the server's commitment at
/// the turn's position (the turn modulo 16, in words of four bytes), plus the
/// turn, modulo 2^32.
pub open spec fn context_draw(meta: (Seq<u8>, Seq<u8>, Seq<u8>), role: u8, turn: u32) -> u32 {
    let player = if role == 0 {
        meta.1
    } else {
        meta.2
    };
    let o = 4 * (turn % 16) as int;
    ((word_at(player, o) + word_at(meta.0, o) + turn as nat) % 0x1_0000_0000) as u32
}

fn byte_at(v: &Vec<u8>, i: usize) -> (r: u64)
    ensures
        r == byte_or_zero(v@, i as int),
        r < 256,
{
    if i < v.len() {
        v[i] as u64
    } else {
        0
    }
}

fn word(v: &Vec<u8>, o: usize) -> (r: u64)
    requires
        o < 64,
    ensures
        r == word_at(v@, o as int),
        r < 0x1_0000_0000,
{
    byte_at(v, o) + 256 * byte_at(v, o + 1) + 65536 * byte_at(v, o + 2) + 16777216 * byte_at(v, o + 3)
}

/// The number an agent of `role` draws at `turn` from the commitments.
pub fn draw(meta: &ParticipantMetadata, role: u8, turn: u32) -> (r: u32)
    ensures
        r == context_draw(meta_view(*meta), role, turn),
{
    let o: usize = 4 * (turn % 16) as usize;
    let player = if role == 0 {
        &meta.player0
    } else {
        &meta.player1
    };
    let sum: u64 = word(player, o) + word(&meta.server, o) + turn as u64;
    (sum % 0x1_0000_0000) as u32
}

/// What the random agent plays: column 0 once the game has an outcome or no
/// column is open, otherwise the open column its draw picks.
pub open spec fn random_choice(
    state: (Board, u8, u8, Seq<u8>),
    meta: (Seq<u8>, Seq<u8>, Seq<u8>),
    role: u8,
    turn: u32,
) -> u8 {
    if state.2 != 0 || !has_open_column(state.0) {
        0
    } else {
        let cols = open_columns(state.0);
        cols[(context_draw(meta, role, turn) as int) % cols.len() as int] as u8
    }
}

/// The random agent as a participant of a run, drawing from the commitments so
/// that a replay reproduces its decisions.
pub struct RandomAgent;

impl Agent for RandomAgent {
    open spec fn choice(
        &self,
        state: (Board, u8, u8, Seq<u8>),
        meta: (Seq<u8>, Seq<u8>, Seq<u8>),
        role: u8,
        turn: u32,
    ) -> u8 {
        random_choice(state, meta, role, turn)
    }

    fn decide(&self, state: &GamePublicState, meta: &ParticipantMetadata, role: u8, turn: u32) -> (r:
        u8) {
        proof {
            lemma_open_columns(state.board, 7);
        }
        if state.winner == 0 && valid_moves(&state.board).len() == 0 {
            proof {
                if has_open_column(state.board) {
                    let c = choose|c: int| 0 <= c < 7 && crate::state::cell(state.board, 0, c) == 0;
                    assert(0 <= c < 7 && crate::state::cell(state.board, 0, c) == 0);
                }
            }
            return 0;
        }
        proof {
            if state.winner == 0 {
                let cols = open_columns(state.board);
                assert(cols.len() > 0);
                assert(crate::state::cell(state.board, 0, cols[0] as int) == 0);
            }
        }
        let r = draw(meta, role, turn);
        agent(state, r)
    }
}

} // verus!
