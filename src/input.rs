use vstd::prelude::*;

verus! {

/// The commitments of the three participants of a run.
pub struct ParticipantMetadata {
    pub server: Vec<u8>,
    pub player0: Vec<u8>,
    pub player1: Vec<u8>,
}

/// Length in bytes of a commitment: the two coordinates of a curve point.
pub const COMMITMENT_LEN: usize = 64;

/// The `k` low bytes of `n`, least significant first.
pub open spec fn le_bytes(n: nat, k: nat) -> Seq<u8>
    decreases k,
{
    if k == 0 {
        Seq::empty()
    } else {
        seq![(n % 256) as u8] + le_bytes(n / 256, (k - 1) as nat)
    }
}

/// A count as it stands in an input: eight bytes, least significant first.
pub open spec fn count_bytes(n: nat) -> Seq<u8> {
    le_bytes(n, 8)
}

/// The participants' section: the server's commitment, then the list of the
/// players' commitments (its length, then each in order).
pub open spec fn metadata_stream(server: Seq<u8>, player0: Seq<u8>, player1: Seq<u8>) -> Seq<u8> {
    server + count_bytes(2) + player0 + player1
}

/// The history with each move preceded by its mover: 0, 1, 0, 1, ...
pub open spec fn tagged_history(moves: Seq<u8>) -> Seq<u8>
    decreases moves.len(),
{
    if moves.len() == 0 {
        Seq::empty()
    } else {
        let n = (moves.len() - 1) as int;
        tagged_history(moves.subrange(0, n)) + seq![(n % 2) as u8, moves[n]]
    }
}

/// The game program's input.
pub open spec fn game_input(server: Seq<u8>, player0: Seq<u8>, player1: Seq<u8>, moves: Seq<u8>) -> Seq<u8> {
    metadata_stream(server, player0, player1) + count_bytes(2 * moves.len()) + tagged_history(moves)
}

/// The input of the program of agent `role`: the flat history and the role.
pub open spec fn agent_input(
    server: Seq<u8>,
    player0: Seq<u8>,
    player1: Seq<u8>,
    moves: Seq<u8>,
    role: u8,
) -> Seq<u8> {
    metadata_stream(server, player0, player1) + count_bytes(moves.len()) + moves + seq![role]
}

/// The three inputs of a run.
pub struct ExecutionInputs {
    pub game: Vec<u8>,
    pub agent0: Vec<u8>,
    pub agent1: Vec<u8>,
}

/// Why the inputs of a run could not be assembled.
#[derive(PartialEq, Eq, Structural, Clone, Copy, Debug)]
pub enum AssemblyError {
    /// The commitment of participant `role` (0 the server, 1 and 2 the players)
    /// does not have the length of a commitment.
    BadCommitment { role: u8 },
    /// The move at `index` names no column of the grid.
    BadMove { index: usize },
}

/// The inputs are assembled exactly when every commitment has its length and
/// every move names a column; otherwise the first fault is reported.
pub open spec fn assembly_outcome(server: Seq<u8>, player0: Seq<u8>, player1: Seq<u8>, moves: Seq<u8>) -> Option<AssemblyError> {
    if server.len() != COMMITMENT_LEN {
        Some(AssemblyError::BadCommitment { role: 0 })
    } else if player0.len() != COMMITMENT_LEN {
        Some(AssemblyError::BadCommitment { role: 1 })
    } else if player1.len() != COMMITMENT_LEN {
        Some(AssemblyError::BadCommitment { role: 2 })
    } else if exists|i: int| 0 <= i < moves.len() && moves[i] >= 7 {
        let i = choose|i: int| 0 <= i < moves.len() && moves[i] >= 7 && forall|j: int| 0 <= j < i ==> moves[j] < 7;
        Some(AssemblyError::BadMove { index: i as usize })
    } else {
        None
    }
}

/// Appends `n` as eight bytes, least significant first.
fn push_count(out: &mut Vec<u8>, n: u64)
    ensures
        final(out)@ == old(out)@ + count_bytes(n as nat),
{
    let ghost start = old(out)@;
    let mut v: u64 = n;
    let mut i: usize = 0;
    while i < 8
        invariant
            i <= 8,
            out@ + le_bytes(v as nat, (8 - i) as nat) == start + le_bytes(n as nat, 8),
        decreases 8 - i,
    {
        let ghost before = out@;
        assert(le_bytes(v as nat, (8 - i) as nat) == seq![(v % 256) as u8] + le_bytes(
            (v / 256) as nat,
            (8 - i - 1) as nat,
        ));
        out.push((v % 256) as u8);
        v = v / 256;
        i = i + 1;
        assert(out@ + le_bytes(v as nat, (8 - i) as nat) =~= before + (seq![(out@.last())]
            + le_bytes(v as nat, (8 - i) as nat)));
    }
    assert(le_bytes(v as nat, 0) =~= Seq::<u8>::empty());
    assert(out@ =~= start + le_bytes(n as nat, 8));
}

/// Appends all of `src`.
pub fn append_bytes(out: &mut Vec<u8>, src: &Vec<u8>)
    ensures
        final(out)@ == old(out)@ + src@,
{
    let ghost start = old(out)@;
    let mut i: usize = 0;
    while i < src.len()
        invariant
            i <= src@.len(),
            out@ == start + src@.subrange(0, i as int),
        decreases src@.len() - i,
    {
        out.push(src[i]);
        i = i + 1;
        assert(out@ =~= start + src@.subrange(0, i as int));
    }
    assert(src@.subrange(0, src@.len() as int) =~= src@);
}

fn metadata_bytes(meta: &ParticipantMetadata) -> (r: Vec<u8>)
    ensures
        r@ == metadata_stream(meta.server@, meta.player0@, meta.player1@),
{
    let mut out: Vec<u8> = Vec::new();
    append_bytes(&mut out, &meta.server);
    push_count(&mut out, 2);
    append_bytes(&mut out, &meta.player0);
    append_bytes(&mut out, &meta.player1);
    assert(out@ =~= metadata_stream(meta.server@, meta.player0@, meta.player1@));
    out
}

fn history_bytes(out: &mut Vec<u8>, moves: &Vec<u8>)
    ensures
        final(out)@ == old(out)@ + tagged_history(moves@),
{
    let ghost start = old(out)@;
    let mut i: usize = 0;
    assert(tagged_history(moves@.subrange(0, 0)) =~= Seq::<u8>::empty());
    while i < moves.len()
        invariant
            i <= moves@.len(),
            out@ == start + tagged_history(moves@.subrange(0, i as int)),
        decreases moves@.len() - i,
    {
        out.push((i % 2) as u8);
        out.push(moves[i]);
        i = i + 1;
        assert(moves@.subrange(0, i as int).subrange(0, i - 1) =~= moves@.subrange(0, i - 1));
        assert(out@ =~= start + tagged_history(moves@.subrange(0, i as int)));
    }
    assert(moves@.subrange(0, moves@.len() as int) =~= moves@);
}

fn first_bad_move(moves: &Vec<u8>) -> (r: Option<usize>)
    ensures
        r matches Some(i) ==> i < moves@.len() && moves@[i as int] >= 7 && forall|j: int|
            0 <= j < i ==> moves@[j] < 7,
        r is None ==> forall|j: int| 0 <= j < moves@.len() ==> moves@[j] < 7,
{
    let mut i: usize = 0;
    while i < moves.len()
        invariant
            i <= moves@.len(),
            forall|j: int| 0 <= j < i ==> moves@[j] < 7,
        decreases moves@.len() - i,
    {
        if moves[i] >= 7 {
            return Some(i);
        }
        i = i + 1;
    }
    None
}

/// Builds the three inputs of a run from the participants' commitments and the
/// recorded moves: for the game program the participants, then the moves each
/// preceded by its mover; for each agent program the participants, then the
/// moves, then the agent's role.
pub fn assemble_inputs(meta: &ParticipantMetadata, moves: &Vec<u8>) -> (r: Result<
    ExecutionInputs,
    AssemblyError,
>)
    requires
        2 * moves@.len() <= u64::MAX,
    ensures
        match assembly_outcome(meta.server@, meta.player0@, meta.player1@, moves@) {
            Some(e) => r == Err::<ExecutionInputs, AssemblyError>(e),
            None => r matches Ok(inputs) && inputs.game@ == game_input(
                meta.server@,
                meta.player0@,
                meta.player1@,
                moves@,
            ) && inputs.agent0@ == agent_input(
                meta.server@,
                meta.player0@,
                meta.player1@,
                moves@,
                0,
            ) && inputs.agent1@ == agent_input(
                meta.server@,
                meta.player0@,
                meta.player1@,
                moves@,
                1,
            ),
        },
{
    if meta.server.len() != COMMITMENT_LEN {
        return Err(AssemblyError::BadCommitment { role: 0 });
    }
    if meta.player0.len() != COMMITMENT_LEN {
        return Err(AssemblyError::BadCommitment { role: 1 });
    }
    if meta.player1.len() != COMMITMENT_LEN {
        return Err(AssemblyError::BadCommitment { role: 2 });
    }
    match first_bad_move(moves) {
        Some(i) => {
            proof {
                let w = choose|k: int| 0 <= k < moves@.len() && moves@[k] >= 7 && forall|j: int|
                    0 <= j < k ==> moves@[j] < 7;
                assert(w == i as int) by {
                    if w < i {
                        assert(moves@[w] < 7);
                    }
                    if w > i {
                        assert(moves@[i as int] < 7);
                    }
                }
            }
            return Err(AssemblyError::BadMove { index: i });
        },
        None => {},
    }
    let prefix = metadata_bytes(meta);
    let n = moves.len() as u64;
    let mut game: Vec<u8> = Vec::new();
    append_bytes(&mut game, &prefix);
    push_count(&mut game, 2 * n);
    history_bytes(&mut game, moves);
    let mut agent0: Vec<u8> = Vec::new();
    append_bytes(&mut agent0, &prefix);
    push_count(&mut agent0, n);
    append_bytes(&mut agent0, moves);
    agent0.push(0);
    let mut agent1: Vec<u8> = Vec::new();
    append_bytes(&mut agent1, &prefix);
    push_count(&mut agent1, n);
    append_bytes(&mut agent1, moves);
    agent1.push(1);
    Ok(ExecutionInputs { game, agent0, agent1 })
}

/// Assembly is deterministic: participants with equal commitments and equal
/// move histories give byte-identical inputs for every program.
pub proof fn lemma_assembly_deterministic(
    a: &ParticipantMetadata,
    b: &ParticipantMetadata,
    moves_a: Seq<u8>,
    moves_b: Seq<u8>,
    role: u8,
)
    requires
        a.server@ == b.server@,
        a.player0@ == b.player0@,
        a.player1@ == b.player1@,
        moves_a == moves_b,
    ensures
        game_input(a.server@, a.player0@, a.player1@, moves_a) == game_input(
            b.server@,
            b.player0@,
            b.player1@,
            moves_b,
        ),
        agent_input(a.server@, a.player0@, a.player1@, moves_a, role) == agent_input(
            b.server@,
            b.player0@,
            b.player1@,
            moves_b,
            role,
        ),
{
}

/// The three inputs of a run share the participants' section as their prefix.
pub proof fn lemma_shared_prefix(server: Seq<u8>, player0: Seq<u8>, player1: Seq<u8>, moves: Seq<u8>, role: u8)
    ensures
        ({
            let p = metadata_stream(server, player0, player1);
            &&& game_input(server, player0, player1, moves).subrange(0, p.len() as int) == p
            &&& agent_input(server, player0, player1, moves, role).subrange(0, p.len() as int) == p
        }),
{
    let p = metadata_stream(server, player0, player1);
    assert(game_input(server, player0, player1, moves).subrange(0, p.len() as int) =~= p);
    assert(agent_input(server, player0, player1, moves, role).subrange(0, p.len() as int) =~= p);
}

/// The game program's history holds the recorded moves, in order, at its odd
/// positions, each preceded by its mover, which alternates 0, 1, 0, 1, ... from
/// the first move on: replaying it gives back the flat history of the agents.
pub proof fn lemma_history_parity(moves: Seq<u8>)
    ensures
        tagged_history(moves).len() == 2 * moves.len(),
        forall|j: int| 0 <= j < moves.len() ==> #[trigger] tagged_history(moves)[2 * j] == (j % 2) as u8,
        forall|j: int| 0 <= j < moves.len() ==> #[trigger] tagged_history(moves)[2 * j + 1] == moves[j],
    decreases moves.len(),
{
    if moves.len() > 0 {
        let n = moves.len() - 1;
        let init = moves.subrange(0, n as int);
        lemma_history_parity(init);
        let t = tagged_history(moves);
        assert(t == tagged_history(init) + seq![(n % 2) as u8, moves[n as int]]);
        assert forall|j: int| 0 <= j < moves.len() implies t[2 * j] == (j
            % 2) as u8 && t[2 * j + 1] == moves[j] by {
            if j < n {
                assert(tagged_history(init)[2 * j + 1] == init[j]);
                assert(tagged_history(init)[2 * j] == (j % 2) as u8);
                assert(t[2 * j] == tagged_history(init)[2 * j]);
                assert(t[2 * j + 1] == tagged_history(init)[2 * j + 1]);
            } else {
                assert(j == n);
                assert(t[2 * j] == (n % 2) as u8);
                assert(t[2 * j + 1] == moves[n as int]);
            }
        }
    }
}

} // verus!
