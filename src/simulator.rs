use vstd::prelude::*;
use crate::commitment::{is_commitment, make_metadata, CommitmentError};
use crate::input::ParticipantMetadata;
use crate::reducer::{game_view, initial_view, lemma_empty_board, reducer, step_view};
use crate::state::{Board, GameAction, GamePrivateState, GamePublicState};

verus! {

/// The public part of a position: grid, player to move, outcome, moves.
pub open spec fn public_of(g: (Board, u8, u8, Seq<u8>, u32)) -> (Board, u8, u8, Seq<u8>) {
    (g.0, g.1, g.2, g.3)
}

/// A public state as plain values.
pub open spec fn public_view(s: GamePublicState) -> (Board, u8, u8, Seq<u8>) {
    (s.board, s.current_player, s.winner, s.moves@)
}

/// The participants' commitments as plain values: server, player 0, player 1.
pub open spec fn meta_view(m: ParticipantMetadata) -> (Seq<u8>, Seq<u8>, Seq<u8>) {
    (m.server@, m.player0@, m.player1@)
}

/// A decision program. Its decision is a function of the public state and of
/// its context: the participants' commitments, its role and the turn.
pub trait Agent {
    spec fn choice(
        &self,
        state: (Board, u8, u8, Seq<u8>),
        meta: (Seq<u8>, Seq<u8>, Seq<u8>),
        role: u8,
        turn: u32,
    ) -> u8;

    fn decide(&self, state: &GamePublicState, meta: &ParticipantMetadata, role: u8, turn: u32) -> (r:
        u8)
        ensures
            r == self.choice(public_view(*state), meta_view(*meta), role, turn),
    ;
}

/// Where a run stands.
#[derive(PartialEq, Eq, Structural, Clone, Copy, Debug)]
pub enum Phase {
    AwaitingPlayer0,
    AwaitingPlayer1,
    Terminal,
}

/// A run of the game in progress: the two states of the rules, the agent whose
/// turn it is (0 or 1) and the number of turns taken.
pub struct Simulation {
    pub public_state: GamePublicState,
    pub private_state: GamePrivateState,
    pub mover: u8,
    pub turns: u32,
}

/// `movers` goes 0, 1, 0, 1, ... from its start.
pub open spec fn alternates(movers: Seq<u8>) -> bool {
    forall|i: int| 0 <= i < movers.len() ==> #[trigger] movers[i] == (i % 2) as u8
}

impl Simulation {
    pub open spec fn wf(&self) -> bool {
        &&& self.mover == (self.turns % 2) as u8
        &&& self.private_state.moves <= self.turns
    }

    pub open spec fn view(&self) -> (Board, u8, u8, Seq<u8>, u32) {
        game_view(self.public_state, self.private_state.moves)
    }

    pub open spec fn phase_spec(&self) -> Phase {
        if self.public_state.winner != 0 {
            Phase::Terminal
        } else if self.mover == 0 {
            Phase::AwaitingPlayer0
        } else {
            Phase::AwaitingPlayer1
        }
    }

    /// A run at the start: the initial position, agent 0 to move.
    pub fn new() -> (r: Self)
        ensures
            r.wf(),
            r.turns == 0,
            r.view() == initial_view(),
            r.phase_spec() == Phase::AwaitingPlayer0,
    {
        let r = Simulation {
            public_state: GamePublicState::initial(),
            private_state: GamePrivateState::initial(),
            mover: 0,
            turns: 0,
        };
        proof {
            lemma_empty_board(r.public_state.board);
            assert(r.public_state.moves@ =~= Seq::<u8>::empty());
        }
        r
    }

    pub fn phase(&self) -> (r: Phase)
        ensures
            r == self.phase_spec(),
    {
        if self.public_state.winner != 0 {
            Phase::Terminal
        } else if self.mover == 0 {
            Phase::AwaitingPlayer0
        } else {
            Phase::AwaitingPlayer1
        }
    }

    /// Applies the move of the agent whose turn it is and hands the turn to the
    /// other agent, whatever the rules made of the move.
    pub fn play(&mut self, column: u8)
        requires
            old(self).wf(),
            old(self).turns < u32::MAX,
        ensures
            final(self).wf(),
            final(self).turns == old(self).turns + 1,
            final(self).mover == 1 - old(self).mover,
            final(self).view() == step_view(old(self).view(), column),
    {
        reducer(&mut self.public_state, &mut self.private_state, &GameAction::DropPiece(column));
        self.mover = 1 - self.mover;
        self.turns = self.turns + 1;
    }
}

/// The decision asked for at `turn` from the position `g`: agent 0 decides on
/// even turns, agent 1 on odd ones, each with its own role.
pub open spec fn turn_choice<A0: Agent, A1: Agent>(
    a0: A0,
    a1: A1,
    meta: (Seq<u8>, Seq<u8>, Seq<u8>),
    g: (Board, u8, u8, Seq<u8>, u32),
    turn: nat,
) -> u8 {
    if turn % 2 == 0 {
        a0.choice(public_of(g), meta, 0, turn as u32)
    } else {
        a1.choice(public_of(g), meta, 1, turn as u32)
    }
}

/// A run from position `g` at `turn`, with at most `fuel` more turns: the
/// decisions taken, in order, and the position reached. The run stops at the
/// first position with an outcome; every decision is applied once by the rules.
pub open spec fn run_from<A0: Agent, A1: Agent>(
    a0: A0,
    a1: A1,
    meta: (Seq<u8>, Seq<u8>, Seq<u8>),
    g: (Board, u8, u8, Seq<u8>, u32),
    turn: nat,
    fuel: nat,
) -> (Seq<u8>, (Board, u8, u8, Seq<u8>, u32))
    decreases fuel,
{
    if fuel == 0 || g.2 != 0 {
        (Seq::empty(), g)
    } else {
        let d = turn_choice(a0, a1, meta, g, turn);
        let rest = run_from(a0, a1, meta, step_view(g, d), turn + 1, (fuel - 1) as nat);
        (seq![d] + rest.0, rest.1)
    }
}

/// The run of two agents from the initial position, for at most `max_turns`
/// turns.
pub open spec fn game_run<A0: Agent, A1: Agent>(
    a0: A0,
    a1: A1,
    meta: (Seq<u8>, Seq<u8>, Seq<u8>),
    max_turns: u32,
) -> (Seq<u8>, (Board, u8, u8, Seq<u8>, u32)) {
    run_from(a0, a1, meta, initial_view(), 0, max_turns as nat)
}

proof fn lemma_run_stops<A0: Agent, A1: Agent>(
    a0: A0,
    a1: A1,
    meta: (Seq<u8>, Seq<u8>, Seq<u8>),
    g: (Board, u8, u8, Seq<u8>, u32),
    turn: nat,
    fuel: nat,
)
    ensures
        run_from(a0, a1, meta, g, turn, fuel).1 .2 != 0 || run_from(a0, a1, meta, g, turn, fuel).0.len()
            == fuel,
        run_from(a0, a1, meta, g, turn, fuel).0.len() <= fuel,
    decreases fuel,
{
    if !(fuel == 0 || g.2 != 0) {
        let d = turn_choice(a0, a1, meta, g, turn);
        lemma_run_stops(a0, a1, meta, step_view(g, d), turn + 1, (fuel - 1) as nat);
    }
}

/// The authoritative record of a run: the final public state, the agent that
/// moved at each turn and the decision it took.
pub struct GameRecord {
    pub final_state: GamePublicState,
    pub movers: Vec<u8>,
    pub decisions: Vec<u8>,
}

impl GameRecord {
    /// The moves applied, in order.
    pub fn moves(&self) -> (r: Vec<u8>)
        ensures
            r@ == self.final_state.moves@,
    {
        self.final_state.actions()
    }
}

/// `record` is the run of `a0` and `a1` with commitments `meta` for at most
/// `max_turns` turns: its decisions are the run's, its final state is the
/// run's final position, and its movers alternate 0, 1, 0, ... one per turn.
pub open spec fn is_run<A0: Agent, A1: Agent>(
    a0: A0,
    a1: A1,
    meta: (Seq<u8>, Seq<u8>, Seq<u8>),
    max_turns: u32,
    record: GameRecord,
) -> bool {
    let run = game_run(a0, a1, meta, max_turns);
    &&& record.decisions@ == run.0
    &&& public_view(record.final_state) == public_of(run.1)
    &&& record.movers@.len() == record.decisions@.len()
    &&& alternates(record.movers@)
}

/// Runs the two agents against the rules, agent 0 first and then in strict
/// alternation, each deciding on the current public state with the
/// participants' commitments, its role and the turn, until the game has an
/// outcome or `max_turns` turns have been taken.
pub fn run_game<A0: Agent, A1: Agent>(
    agent0: &A0,
    agent1: &A1,
    meta: &ParticipantMetadata,
    max_turns: u32,
) -> (r: GameRecord)
    ensures
        is_run(*agent0, *agent1, meta_view(*meta), max_turns, r),
        r.final_state.winner != 0 || r.decisions@.len() == max_turns,
        r.decisions@.len() <= max_turns,
{
    let ghost m = meta_view(*meta);
    let ghost full = game_run(*agent0, *agent1, m, max_turns);
    let mut sim = Simulation::new();
    let mut movers: Vec<u8> = Vec::new();
    let mut decisions: Vec<u8> = Vec::new();
    proof {
        assert(decisions@ + run_from(*agent0, *agent1, m, sim.view(), 0, max_turns as nat).0
            =~= full.0);
    }
    while sim.phase() != Phase::Terminal && sim.turns < max_turns
        invariant
            sim.wf(),
            sim.turns <= max_turns,
            movers@.len() == sim.turns,
            decisions@.len() == sim.turns,
            alternates(movers@),
            m == meta_view(*meta),
            full == game_run(*agent0, *agent1, m, max_turns),
            full.0 == decisions@ + run_from(
                *agent0,
                *agent1,
                m,
                sim.view(),
                sim.turns as nat,
                (max_turns - sim.turns) as nat,
            ).0,
            full.1 == run_from(
                *agent0,
                *agent1,
                m,
                sim.view(),
                sim.turns as nat,
                (max_turns - sim.turns) as nat,
            ).1,
        decreases max_turns - sim.turns,
    {
        let ghost g = sim.view();
        let ghost k = sim.turns;
        let column = if sim.mover == 0 {
            agent0.decide(&sim.public_state, meta, 0, sim.turns)
        } else {
            agent1.decide(&sim.public_state, meta, 1, sim.turns)
        };
        assert(column == turn_choice(*agent0, *agent1, m, g, k as nat));
        let ghost before = decisions@;
        movers.push(sim.mover);
        decisions.push(column);
        sim.play(column);
        proof {
            let rest = run_from(
                *agent0,
                *agent1,
                m,
                sim.view(),
                sim.turns as nat,
                (max_turns - sim.turns) as nat,
            );
            assert(before + (seq![column] + rest.0) =~= decisions@ + rest.0);
        }
    }
    proof {
        lemma_run_stops(*agent0, *agent1, m, initial_view(), 0, max_turns as nat);
        assert(decisions@ =~= full.0);
        assert(public_view(sim.public_state) == public_of(sim.view()));
    }
    GameRecord { final_state: sim.public_state, movers, decisions }
}

/// Runs are deterministic: the same agents with equal commitments give the
/// same decisions and the same final position.
pub proof fn lemma_run_deterministic<A0: Agent, A1: Agent>(
    a0: A0,
    a1: A1,
    m1: ParticipantMetadata,
    m2: ParticipantMetadata,
    max_turns: u32,
    r1: GameRecord,
    r2: GameRecord,
)
    requires
        meta_view(m1) == meta_view(m2),
        is_run(a0, a1, meta_view(m1), max_turns, r1),
        is_run(a0, a1, meta_view(m2), max_turns, r2),
    ensures
        r1.decisions@ == r2.decisions@,
        public_view(r1.final_state) == public_view(r2.final_state),
{
}

/// Draws fresh commitments for the server and the two players, then runs the
/// two agents with them as `run_game` does. Returns the commitments with the
/// record; fails only where no commitment could be made.
pub fn zeromind_run_agent<A0: Agent, A1: Agent>(agent1: &A0, agent2: &A1, max_turns: u32) -> (r:
    Result<(ParticipantMetadata, GameRecord), CommitmentError>)
    ensures
        r matches Ok((m, record)) ==> is_commitment(m.server@) && is_commitment(m.player0@)
            && is_commitment(m.player1@) && is_run(*agent1, *agent2, meta_view(m), max_turns, record)
            && (record.final_state.winner != 0 || record.decisions@.len() == max_turns),
{
    match make_metadata() {
        Ok(metadata) => {
            let record = run_game(agent1, agent2, &metadata, max_turns);
            Ok((metadata, record))
        },
        Err(e) => Err(e),
    }
}

/// The position after replaying the first `i` moves of `actions` from the
/// initial position.
pub open spec fn replay_view(actions: Seq<u8>, i: nat) -> (Board, u8, u8, Seq<u8>, u32)
    decreases i,
{
    if i == 0 {
        initial_view()
    } else {
        step_view(replay_view(actions, (i - 1) as nat), actions[i - 1])
    }
}

/// At turn `i`, if it is `player_id`'s, the agent decides `actions[i]` on the
/// position reached by replaying the moves before it.
pub open spec fn own_turn_matches<A: Agent>(
    agent: A,
    meta: (Seq<u8>, Seq<u8>, Seq<u8>),
    player_id: u8,
    actions: Seq<u8>,
    i: int,
) -> bool {
    i % 2 != player_id as int || agent.choice(
        public_of(replay_view(actions, i as nat)),
        meta,
        player_id,
        i as u32,
    ) == actions[i]
}

/// Why a replay refused a move history.
#[derive(PartialEq, Eq, Structural, Clone, Copy, Debug)]
pub enum ReplayError {
    /// The role is neither 0 nor 1.
    InvalidPlayer,
    /// At turn `index`, which was the replaying agent's, the agent decided
    /// otherwise than the history says.
    InvalidAction { index: usize },
}

/// What an agent program checks: the history is replayed against the rules,
/// turn after turn from the initial position, and at each turn of `player_id`
/// the agent's own decision on the position reached must equal the recorded
/// move. On success the history is the program's output; otherwise the first
/// turn where the decision differs is reported.
pub fn zeromind_agent_program<A: Agent>(
    actions: &Vec<u8>,
    player_id: u8,
    meta: &ParticipantMetadata,
    agent: &A,
) -> (r: Result<Vec<u8>, ReplayError>)
    requires
        actions@.len() < u32::MAX,
    ensures
        player_id > 1 <==> r == Err::<Vec<u8>, ReplayError>(ReplayError::InvalidPlayer),
        player_id <= 1 ==> (r is Ok <==> forall|i: int|
            0 <= i < actions@.len() ==> #[trigger] own_turn_matches(
                *agent,
                meta_view(*meta),
                player_id,
                actions@,
                i,
            )),
        r matches Ok(out) ==> out@ == actions@,
        r matches Err(ReplayError::InvalidAction { index }) ==> index < actions@.len()
            && !own_turn_matches(*agent, meta_view(*meta), player_id, actions@, index as int)
            && forall|j: int|
            0 <= j < index ==> #[trigger] own_turn_matches(
                *agent,
                meta_view(*meta),
                player_id,
                actions@,
                j,
            ),
{
    if player_id != 0 && player_id != 1 {
        return Err(ReplayError::InvalidPlayer);
    }
    let ghost m = meta_view(*meta);
    let mut sim = Simulation::new();
    let mut i: usize = 0;
    while i < actions.len()
        invariant
            sim.wf(),
            sim.turns == i,
            i <= actions@.len(),
            actions@.len() < u32::MAX,
            player_id <= 1,
            m == meta_view(*meta),
            sim.view() == replay_view(actions@, i as nat),
            forall|j: int| 0 <= j < i ==> #[trigger] own_turn_matches(*agent, m, player_id, actions@, j),
        decreases actions@.len() - i,
    {
        let action = actions[i];
        if sim.mover == player_id {
            let decided = agent.decide(&sim.public_state, meta, player_id, i as u32);
            assert(public_view(sim.public_state) == public_of(sim.view()));
            if decided != action {
                assert(!own_turn_matches(*agent, m, player_id, actions@, i as int));
                return Err(ReplayError::InvalidAction { index: i });
            }
        }
        assert(own_turn_matches(*agent, m, player_id, actions@, i as int));
        sim.play(action);
        i = i + 1;
    }
    let mut out: Vec<u8> = Vec::new();
    let mut j: usize = 0;
    while j < actions.len()
        invariant
            j <= actions@.len(),
            out@ == actions@.subrange(0, j as int),
        decreases actions@.len() - j,
    {
        out.push(actions[j]);
        j = j + 1;
        assert(out@ =~= actions@.subrange(0, j as int));
    }
    assert(out@ =~= actions@);
    Ok(out)
}

} // verus!
