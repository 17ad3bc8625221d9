use vstd::prelude::*;
use alloy_sol_types::sol_data::{Array, FixedArray, Uint};
use alloy_sol_types::SolType;
use crate::state::{Board, GamePublicState};

verus! {

/// The rows of a grid, top row first.
pub open spec fn board_rows(b: Board) -> Seq<Seq<u8>> {
    Seq::new(6, |r: int| b@[r]@)
}

/// A public state as the plain values it is encoded from.
pub open spec fn state_parts(s: GamePublicState) -> (Seq<Seq<u8>>, u8, u8, Seq<u8>) {
    (board_rows(s.board), s.current_player, s.winner, s.moves@)
}

/// The `k` low bytes of `n`, most significant first.
pub open spec fn be_bytes(n: nat, k: nat) -> Seq<u8>
    decreases k,
{
    if k == 0 {
        Seq::empty()
    } else {
        be_bytes(n / 256, (k - 1) as nat) + seq![(n % 256) as u8]
    }
}

/// An ABI word: 32 bytes, most significant first.
pub open spec fn word(n: nat) -> Seq<u8> {
    be_bytes(n, 32)
}

/// One word per value, in order.
pub open spec fn words_of(s: Seq<u8>) -> Seq<u8>
    decreases s.len(),
{
    if s.len() == 0 {
        Seq::empty()
    } else {
        words_of(s.drop_last()) + word(s.last() as nat)
    }
}

/// One word per cell, row after row.
pub open spec fn rows_words(rows: Seq<Seq<u8>>) -> Seq<u8>
    decreases rows.len(),
{
    if rows.len() == 0 {
        Seq::empty()
    } else {
        rows_words(rows.drop_last()) + words_of(rows.last())
    }
}

/// The Solidity ABI encoding of a public state as the tuple
/// `(uint8[7][6], uint8, uint8, uint8[])`: the offset of the tuple (32), the
/// 42 cells row after row, the player to move, the outcome, the offset of the
/// move list within the tuple (45 words), then the list's length and its
/// moves, each in a word of its own.
pub open spec fn state_encoding(
    board: Seq<Seq<u8>>,
    current_player: u8,
    winner: u8,
    moves: Seq<u8>,
) -> Seq<u8> {
    word(32) + rows_words(board) + word(current_player as nat) + word(winner as nat) + word(45 * 32)
        + word(moves.len()) + words_of(moves)
}

/// What the Solidity ABI decoder makes of `bytes` read as the tuple
/// `(uint8[7][6], uint8, uint8, uint8[])`, or `None` where it fails.
pub uninterp spec fn state_decoding(bytes: Seq<u8>) -> Option<(Seq<Seq<u8>>, u8, u8, Seq<u8>)>;

/// Relies on alloy_sol_types' `SolType::abi_encode` for the tuple
/// `(uint8[7][6], uint8, uint8, uint8[])`: a dynamic tuple is encoded behind
/// its offset, static values in place one word each, the dynamic list behind
/// an offset as its length and its elements.
#[verifier::external_body]
pub(crate) fn encode_state(s: &GamePublicState) -> (r: Vec<u8>)
    ensures
        r@ == state_encoding(board_rows(s.board), s.current_player, s.winner, s.moves@),
{
    <(FixedArray<FixedArray<Uint<8>, 7>, 6>, Uint<8>, Uint<8>, Array<Uint<8>>) as SolType>::abi_encode(
        &(s.board, s.current_player, s.winner, s.moves.clone()),
    )
}

/// Relies on alloy_sol_types' `SolType::abi_decode` for the tuple
/// `(uint8[7][6], uint8, uint8, uint8[])`: a function of the bytes alone; its
/// error is mapped to `None`.
#[verifier::external_body]
pub(crate) fn decode_state(bytes: &Vec<u8>) -> (r: Option<GamePublicState>)
    ensures
        match state_decoding(bytes@) {
            None => r is None,
            Some(p) => r matches Some(s) && state_parts(s) == p,
        },
{
    match <(FixedArray<FixedArray<Uint<8>, 7>, 6>, Uint<8>, Uint<8>, Array<Uint<8>>) as SolType>::abi_decode(
        bytes,
    ) {
        Ok((board, current_player, winner, moves)) => Some(
            GamePublicState { board, current_player, winner, moves },
        ),
        Err(_) => None,
    }
}

/// The ABI encoding of a public state, as the game program declares it.
pub fn encode_public_state(s: &GamePublicState) -> (r: Vec<u8>)
    ensures
        r@ == state_encoding(board_rows(s.board), s.current_player, s.winner, s.moves@),
{
    encode_state(s)
}

} // verus!
