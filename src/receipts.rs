use vstd::prelude::*;
use crate::abi::{board_rows, decode_state, encode_state, state_decoding, state_encoding, state_parts};
use crate::input::ExecutionInputs;
use crate::simulator::GameRecord;
use crate::state::GamePublicState;

verus! {

/// Which check of a declared output failed.
#[derive(PartialEq, Eq, Structural, Clone, Copy, Debug)]
pub enum VerificationError {
    /// The game program's output is no encoding of a public state.
    GameOutputUndecodable,
    /// The game program's output reports another move list than the record.
    GameMovesMismatch,
    /// The game program's output reports a game without an outcome.
    GameNotTerminal,
    /// The game program's output differs from the encoding of the record's
    /// final state.
    GameResultMismatch,
    /// The output of the program of agent `role` differs from the record's moves.
    AgentMovesMismatch { role: u8 },
}

/// The verdict on the game program's output, given what it decodes to and the
/// encoding of the record's final state: the decoded moves must be the
/// record's, the decoded game must have an outcome, and the output must be
/// that encoding byte for byte; the first failing check is reported.
pub open spec fn game_verdict(
    moves: Seq<u8>,
    decoded: Option<(Seq<Seq<u8>>, u8, u8, Seq<u8>)>,
    expected: Seq<u8>,
    output: Seq<u8>,
) -> Result<(), VerificationError> {
    match decoded {
        None => Err(VerificationError::GameOutputUndecodable),
        Some(d) => if d.3 != moves {
            Err(VerificationError::GameMovesMismatch)
        } else if d.2 == 0 {
            Err(VerificationError::GameNotTerminal)
        } else if output != expected {
            Err(VerificationError::GameResultMismatch)
        } else {
            Ok(())
        },
    }
}

/// The verdict on the output of the program of agent `role`: it must be the
/// record's moves.
pub open spec fn agent_verdict(moves: Seq<u8>, role: u8, output: Seq<u8>) -> Result<(), VerificationError> {
    if output == moves {
        Ok(())
    } else {
        Err(VerificationError::AgentMovesMismatch { role })
    }
}

pub open spec fn decoded_parts(decoded: Option<GamePublicState>) -> Option<(Seq<Seq<u8>>, u8, u8, Seq<u8>)> {
    match decoded {
        Some(s) => Some(state_parts(s)),
        None => None,
    }
}

/// The encoding of the record's final state.
pub open spec fn record_encoding(record: GameRecord) -> Seq<u8> {
    let s = record.final_state;
    state_encoding(board_rows(s.board), s.current_player, s.winner, s.moves@)
}

/// The verdict on all three outputs, checked in order: game, agent 0, agent 1.
pub open spec fn run_verdict(
    record: GameRecord,
    game_output: Seq<u8>,
    agent0_output: Seq<u8>,
    agent1_output: Seq<u8>,
) -> Result<(), VerificationError> {
    let moves = record.final_state.moves@;
    let g = game_verdict(moves, state_decoding(game_output), record_encoding(record), game_output);
    if g is Err {
        g
    } else if agent_verdict(moves, 0, agent0_output) is Err {
        agent_verdict(moves, 0, agent0_output)
    } else {
        agent_verdict(moves, 1, agent1_output)
    }
}

/// Whether two byte strings are equal.
pub fn same_bytes(a: &Vec<u8>, b: &Vec<u8>) -> (r: bool)
    ensures
        r == (a@ == b@),
{
    if a.len() != b.len() {
        return false;
    }
    let mut i: usize = 0;
    while i < a.len()
        invariant
            a@.len() == b@.len(),
            i <= a@.len(),
            forall|j: int| 0 <= j < i ==> a@[j] == b@[j],
        decreases a@.len() - i,
    {
        if a[i] != b[i] {
            return false;
        }
        i = i + 1;
    }
    assert(a@ =~= b@);
    true
}

/// Checks the game program's output against the record, given the output read
/// back as a public state and the encoding of the record's final state.
pub fn check_game_output(
    moves: &Vec<u8>,
    decoded: &Option<GamePublicState>,
    expected: &Vec<u8>,
    output: &Vec<u8>,
) -> (r: Result<(), VerificationError>)
    ensures
        r == game_verdict(moves@, decoded_parts(*decoded), expected@, output@),
{
    match decoded {
        None => Err(VerificationError::GameOutputUndecodable),
        Some(d) => {
            if !same_bytes(&d.moves, moves) {
                Err(VerificationError::GameMovesMismatch)
            } else if !d.is_terminal() {
                Err(VerificationError::GameNotTerminal)
            } else if !same_bytes(output, expected) {
                Err(VerificationError::GameResultMismatch)
            } else {
                Ok(())
            }
        },
    }
}

/// Checks the game program's declared output against the record.
pub fn verify_game_receipt(record: &GameRecord, output: &Vec<u8>) -> (r: Result<(), VerificationError>)
    ensures
        r == game_verdict(
            record.final_state.moves@,
            state_decoding(output@),
            record_encoding(*record),
            output@,
        ),
{
    let decoded = decode_state(output);
    let expected = encode_state(&record.final_state);
    check_game_output(&record.final_state.moves, &decoded, &expected, output)
}

/// Checks the declared output of the program of agent `role` against the
/// record.
pub fn verify_agent_receipt(record: &GameRecord, role: u8, output: &Vec<u8>) -> (r: Result<(), VerificationError>)
    ensures
        r == agent_verdict(record.final_state.moves@, role, output@),
{
    if same_bytes(output, &record.final_state.moves) {
        Ok(())
    } else {
        Err(VerificationError::AgentMovesMismatch { role })
    }
}

/// The inputs of a run whose three declared outputs passed every check. Only
/// `verify_execution` makes one, so nothing reaches the proving stage unchecked.
pub struct VerifiedSubmission {
    inputs: ExecutionInputs,
    record_moves: Vec<u8>,
    final_encoding: Vec<u8>,
    game_output: Vec<u8>,
    agent0_output: Vec<u8>,
    agent1_output: Vec<u8>,
}

impl VerifiedSubmission {
    pub closed spec fn moves_spec(&self) -> Seq<u8> {
        self.record_moves@
    }

    pub closed spec fn final_encoding_spec(&self) -> Seq<u8> {
        self.final_encoding@
    }

    pub closed spec fn game_output_spec(&self) -> Seq<u8> {
        self.game_output@
    }

    pub closed spec fn agent_output_spec(&self, role: u8) -> Seq<u8> {
        if role == 0 {
            self.agent0_output@
        } else {
            self.agent1_output@
        }
    }

    pub closed spec fn input_spec(&self, program: u8) -> Seq<u8> {
        if program == 0 {
            self.inputs.game@
        } else if program == 1 {
            self.inputs.agent0@
        } else {
            self.inputs.agent1@
        }
    }

    /// Every check passed on the outputs held.
    #[verifier::type_invariant]
    closed spec fn checks_passed(&self) -> bool {
        self.passed()
    }

    /// Every check passed on the outputs held.
    pub closed spec fn passed(&self) -> bool {
        &&& game_verdict(
            self.record_moves@,
            state_decoding(self.game_output@),
            self.final_encoding@,
            self.game_output@,
        ) == Ok::<(), VerificationError>(())
        &&& self.agent0_output@ == self.record_moves@
        &&& self.agent1_output@ == self.record_moves@
    }

    /// The game program's input, to be proved.
    pub fn game_input(&self) -> (r: &Vec<u8>)
        ensures
            r@ == self.input_spec(0),
            self.passed(),
    {
        proof {
            use_type_invariant(self);
        }
        &self.inputs.game
    }

    /// The input of the program of agent 0, to be proved.
    pub fn agent0_input(&self) -> (r: &Vec<u8>)
        ensures
            r@ == self.input_spec(1),
            self.passed(),
    {
        proof {
            use_type_invariant(self);
        }
        &self.inputs.agent0
    }

    /// The input of the program of agent 1, to be proved.
    pub fn agent1_input(&self) -> (r: &Vec<u8>)
        ensures
            r@ == self.input_spec(2),
            self.passed(),
    {
        proof {
            use_type_invariant(self);
        }
        &self.inputs.agent1
    }

    /// Packs the proofs with the encoded final state for the ledger.
    pub fn settlement(
        self,
        agent0_key: Vec<u8>,
        agent1_key: Vec<u8>,
        game_proof: Vec<u8>,
        agent0_proof: Vec<u8>,
        agent1_proof: Vec<u8>,
    ) -> (r: SettlementBundle)
        ensures
            r.agent0_key@ == agent0_key@,
            r.agent1_key@ == agent1_key@,
            r.game_proof@ == game_proof@,
            r.agent0_proof@ == agent0_proof@,
            r.agent1_proof@ == agent1_proof@,
            r.final_state@ == self.final_encoding_spec(),
    {
        SettlementBundle {
            agent0_key,
            agent1_key,
            game_proof,
            agent0_proof,
            agent1_proof,
            final_state: self.final_encoding,
        }
    }
}

/// What the ledger receives for one run: the verification-key identifiers of
/// the two agent programs, the three proofs and the encoded final state.
pub struct SettlementBundle {
    pub agent0_key: Vec<u8>,
    pub agent1_key: Vec<u8>,
    pub game_proof: Vec<u8>,
    pub agent0_proof: Vec<u8>,
    pub agent1_proof: Vec<u8>,
    pub final_state: Vec<u8>,
}

/// Compares what the game program and both agent programs declared with the
/// record, before any proof is made. It succeeds exactly when all three
/// comparisons pass, and otherwise names the first one that failed.
pub fn verify_execution(
    record: &GameRecord,
    inputs: ExecutionInputs,
    game_output: Vec<u8>,
    agent0_output: Vec<u8>,
    agent1_output: Vec<u8>,
) -> (r: Result<VerifiedSubmission, VerificationError>)
    ensures
        match run_verdict(*record, game_output@, agent0_output@, agent1_output@) {
            Err(e) => r == Err::<VerifiedSubmission, VerificationError>(e),
            Ok(_) => r matches Ok(v) && v.passed() && v.input_spec(0) == inputs.game@ && v.input_spec(1)
                == inputs.agent0@ && v.input_spec(2) == inputs.agent1@ && v.moves_spec()
                == record.final_state.moves@ && v.final_encoding_spec() == record_encoding(*record)
                && v.game_output_spec() == game_output@ && v.agent_output_spec(0) == agent0_output@
                && v.agent_output_spec(1) == agent1_output@,
        },
{
    match verify_game_receipt(record, &game_output) {
        Err(e) => return Err(e),
        Ok(()) => {},
    }
    match verify_agent_receipt(record, 0, &agent0_output) {
        Err(e) => return Err(e),
        Ok(()) => {},
    }
    match verify_agent_receipt(record, 1, &agent1_output) {
        Err(e) => return Err(e),
        Ok(()) => {},
    }
    let record_moves = record.final_state.actions();
    let final_encoding = encode_state(&record.final_state);
    Ok(VerifiedSubmission { inputs, record_moves, final_encoding, game_output, agent0_output, agent1_output })
}

/// Nothing is proved unchecked: every submission that reaches the proving stage
/// carries outputs on which the game check and both agent checks passed.
pub proof fn lemma_verified_before_proving(v: &VerifiedSubmission)
    requires
        v.passed(),
    ensures
        game_verdict(
            v.moves_spec(),
            state_decoding(v.game_output_spec()),
            v.final_encoding_spec(),
            v.game_output_spec(),
        ) == Ok::<(), VerificationError>(()),
        v.agent_output_spec(0) == v.moves_spec(),
        v.agent_output_spec(1) == v.moves_spec(),
{
}

/// The checks accept outputs that echo the record and reject each kind of
/// divergence on its own: a game output that reads back as the record's final
/// state and is its encoding passes when that state has an outcome; one whose
/// moves differ, one without an outcome, and one whose bytes differ from the
/// encoding are each rejected with their own error; an agent output passes
/// exactly when it is the record's moves.
pub proof fn lemma_receipt_checks(record: GameRecord, output: Seq<u8>, role: u8, agent_output: Seq<u8>)
    ensures
        ({
            let moves = record.final_state.moves@;
            let verdict = game_verdict(moves, state_decoding(output), record_encoding(record), output);
            &&& (state_decoding(output) == Some(state_parts(record.final_state)) && output
                == record_encoding(record) && record.final_state.winner != 0) ==> verdict == Ok::<
                (),
                VerificationError,
            >(())
            &&& (state_decoding(output) matches Some(d) && d.3 != moves) ==> verdict == Err::<
                (),
                VerificationError,
            >(VerificationError::GameMovesMismatch)
            &&& (state_decoding(output) matches Some(d) && d.3 == moves && d.2 == 0) ==> verdict
                == Err::<(), VerificationError>(VerificationError::GameNotTerminal)
            &&& (state_decoding(output) matches Some(d) && d.3 == moves && d.2 != 0 && output
                != record_encoding(record)) ==> verdict == Err::<(), VerificationError>(
                VerificationError::GameResultMismatch,
            )
            &&& (agent_verdict(moves, role, agent_output) is Ok <==> agent_output == moves)
        }),
{
}

} // verus!
