use vstd::prelude::*;
use vstd::arithmetic::div_mod::{lemma_fundamental_div_mod_converse, lemma_mod_breakdown, lemma_small_mod};
use crate::input::{
    agent_input, count_bytes, game_input, le_bytes, lemma_history_parity,
    tagged_history, ParticipantMetadata,
};

verus! {

/// `256` to the power `k`.
pub open spec fn pow256(k: nat) -> nat
    decreases k,
{
    if k == 0 {
        1
    } else {
        256 * pow256((k - 1) as nat)
    }
}

/// The number that `s` writes, least significant byte first.
pub open spec fn le_value(s: Seq<u8>) -> nat
    decreases s.len(),
{
    if s.len() == 0 {
        0
    } else {
        s[0] as nat + 256 * le_value(s.drop_first())
    }
}

proof fn lemma_pow256_pos(k: nat)
    ensures
        pow256(k) > 0,
    decreases k,
{
    if k > 0 {
        lemma_pow256_pos((k - 1) as nat);
    }
}

proof fn lemma_le_value_bound(s: Seq<u8>)
    ensures
        le_value(s) < pow256(s.len()),
    decreases s.len(),
{
    if s.len() > 0 {
        lemma_le_value_bound(s.drop_first());
    }
}

proof fn lemma_le_bytes_len(n: nat, k: nat)
    ensures
        le_bytes(n, k).len() == k,
    decreases k,
{
    if k > 0 {
        lemma_le_bytes_len(n / 256, (k - 1) as nat);
    }
}

/// Writing back the number a byte string holds gives the byte string.
proof fn lemma_le_bytes_of_value(s: Seq<u8>)
    ensures
        le_bytes(le_value(s), s.len()) == s,
    decreases s.len(),
{
    if s.len() > 0 {
        let rest = s.drop_first();
        lemma_le_bytes_of_value(rest);
        let v = le_value(s);
        lemma_fundamental_div_mod_converse(v as int, 256, le_value(rest) as int, s[0] as int);
        assert(le_bytes(v, s.len()) =~= seq![s[0]] + rest);
        assert(seq![s[0]] + rest =~= s);
    }
}

/// Reading back `k` written bytes of `n` gives `n` modulo `256^k`.
proof fn lemma_value_of_le_bytes(n: nat, k: nat)
    ensures
        le_value(le_bytes(n, k)) == n % pow256(k),
    decreases k,
{
    if k == 0 {
        assert(le_bytes(n, 0) =~= Seq::<u8>::empty());
    } else {
        let k1 = (k - 1) as nat;
        lemma_value_of_le_bytes(n / 256, k1);
        lemma_pow256_pos(k1);
        let b = le_bytes(n, k);
        assert(b.drop_first() =~= le_bytes(n / 256, k1));
        lemma_mod_breakdown(n as int, 256, pow256(k1) as int);
    }
}

proof fn lemma_count_round_trip(n: nat)
    requires
        n < 0x1_0000_0000_0000_0000,
    ensures
        le_value(count_bytes(n)) == n,
        count_bytes(n).len() == 8,
{
    reveal_with_fuel(pow256, 9);
    assert(pow256(8) == 0x1_0000_0000_0000_0000nat);
    lemma_value_of_le_bytes(n, 8);
    lemma_small_mod(n, pow256(8));
    lemma_le_bytes_len(n, 8);
}

/// Reads the eight bytes at `pos` as a count.
fn read_count(bytes: &Vec<u8>, pos: usize) -> (r: u64)
    requires
        pos + 8 <= bytes@.len(),
    ensures
        r as nat == le_value(bytes@.subrange(pos as int, pos + 8)),
{
    let ghost s = bytes@.subrange(pos as int, pos + 8);
    let len = bytes.len();
    let mut v: u64 = 0;
    let mut i: usize = 8;
    proof {
        assert(s.subrange(8, 8) =~= Seq::<u8>::empty());
    }
    while i > 0
        invariant
            i <= 8,
            pos + 8 <= bytes@.len(),
            bytes@.len() == len,
            s == bytes@.subrange(pos as int, pos + 8),
            v as nat == le_value(s.subrange(i as int, 8)),
        decreases i,
    {
        i = i - 1;
        proof {
            assert(s.subrange(i as int, 8).drop_first() =~= s.subrange(i + 1, 8));
            lemma_le_value_bound(s.subrange(i + 1, 8));
            reveal_with_fuel(pow256, 9);
            assert(pow256((8 - (i + 1)) as nat) <= 0x100_0000_0000_0000nat) by {
                reveal_with_fuel(pow256, 9);
            }
            assert(v < 0x100_0000_0000_0000);
        }
        v = v * 256 + bytes[pos + i] as u64;
    }
    proof {
        assert(s.subrange(0, 8) =~= s);
    }
    v
}

/// Copies `bytes[from..to]`.
fn copy_range(bytes: &Vec<u8>, from: usize, to: usize) -> (r: Vec<u8>)
    requires
        from <= to <= bytes@.len(),
    ensures
        r@ == bytes@.subrange(from as int, to as int),
{
    let mut r: Vec<u8> = Vec::new();
    let mut i: usize = from;
    while i < to
        invariant
            from <= i <= to <= bytes@.len(),
            r@ == bytes@.subrange(from as int, i as int),
        decreases to - i,
    {
        r.push(bytes[i]);
        i = i + 1;
        assert(r@ =~= bytes@.subrange(from as int, i as int));
    }
    r
}

/// How an agent program reads its input: the three commitments, the moves and
/// the role, or `None` where the bytes are not laid out so.
pub open spec fn agent_input_parts(b: Seq<u8>) -> Option<(Seq<u8>, Seq<u8>, Seq<u8>, Seq<u8>, u8)> {
    if b.len() < 209 || le_value(b.subrange(64, 72)) != 2 || b.len() != 209 + le_value(
        b.subrange(200, 208),
    ) {
        None
    } else {
        let n = b.len() - 209;
        Some(
            (
                b.subrange(0, 64),
                b.subrange(72, 136),
                b.subrange(136, 200),
                b.subrange(208, 208 + n),
                b[208 + n],
            ),
        )
    }
}

/// The history section of the game program's input holds alternating tags.
pub open spec fn tags_alternate(h: Seq<u8>) -> bool {
    forall|j: int| 0 <= j < h.len() / 2 ==> #[trigger] h[2 * j] == (j % 2) as u8
}

/// How the game program reads its input: the three commitments and the moves,
/// or `None` where the bytes are not laid out so or a mover tag is out of turn.
pub open spec fn game_input_parts(b: Seq<u8>) -> Option<(Seq<u8>, Seq<u8>, Seq<u8>, Seq<u8>)> {
    if b.len() < 208 || le_value(b.subrange(64, 72)) != 2 || b.len() != 208 + le_value(
        b.subrange(200, 208),
    ) || (b.len() - 208) % 2 != 0 {
        None
    } else {
        let h = b.subrange(208, b.len() as int);
        if !tags_alternate(h) {
            None
        } else {
            Some(
                (
                    b.subrange(0, 64),
                    b.subrange(72, 136),
                    b.subrange(136, 200),
                    Seq::new(h.len() / 2, |j: int| h[2 * j + 1]),
                ),
            )
        }
    }
}

/// Reads the input of an agent program.
pub fn read_agent_input(bytes: &Vec<u8>) -> (r: Option<(ParticipantMetadata, Vec<u8>, u8)>)
    ensures
        match agent_input_parts(bytes@) {
            None => r is None,
            Some((s, player0, player1, moves, role)) => r matches Some((m, mv, ro)) && m.server@ == s
                && m.player0@ == player0 && m.player1@ == player1 && mv@ == moves && ro == role,
        },
{
    if bytes.len() < 209 {
        return None;
    }
    if read_count(bytes, 64) != 2 {
        return None;
    }
    let n = read_count(bytes, 200);
    let rest = bytes.len() - 209;
    if n != rest as u64 {
        return None;
    }
    let server = copy_range(bytes, 0, 64);
    let player0 = copy_range(bytes, 72, 136);
    let player1 = copy_range(bytes, 136, 200);
    let moves = copy_range(bytes, 208, 208 + rest);
    let role = bytes[208 + rest];
    Some((ParticipantMetadata { server, player0, player1 }, moves, role))
}

/// Reads the input of the game program.
pub fn read_game_input(bytes: &Vec<u8>) -> (r: Option<(ParticipantMetadata, Vec<u8>)>)
    ensures
        match game_input_parts(bytes@) {
            None => r is None,
            Some((s, player0, player1, moves)) => r matches Some((m, mv)) && m.server@ == s && m.player0@
                == player0 && m.player1@ == player1 && mv@ == moves,
        },
{
    if bytes.len() < 208 {
        return None;
    }
    if read_count(bytes, 64) != 2 {
        return None;
    }
    let n = read_count(bytes, 200);
    let rest = bytes.len() - 208;
    if n != rest as u64 || rest % 2 != 0 {
        return None;
    }
    let ghost h = bytes@.subrange(208, bytes@.len() as int);
    let half = rest / 2;
    let mut moves: Vec<u8> = Vec::new();
    let mut j: usize = 0;
    while j < half
        invariant
            bytes@.len() == 208 + rest,
            bytes@.len() <= usize::MAX,
            rest == 2 * half,
            h == bytes@.subrange(208, bytes@.len() as int),
            j <= half,
            forall|k: int| 0 <= k < j ==> #[trigger] h[2 * k] == (k % 2) as u8,
            moves@ == Seq::new(j as nat, |k: int| h[2 * k + 1]),
        decreases half - j,
    {
        if bytes[208 + 2 * j] != (j % 2) as u8 {
            assert(h[2 * j] != (j % 2) as u8);
            return None;
        }
        moves.push(bytes[208 + 2 * j + 1]);
        j = j + 1;
        assert(moves@ =~= Seq::new(j as nat, |k: int| h[2 * k + 1]));
    }
    let server = copy_range(bytes, 0, 64);
    let player0 = copy_range(bytes, 72, 136);
    let player1 = copy_range(bytes, 136, 200);
    Some((ParticipantMetadata { server, player0, player1 }, moves))
}

/// An agent program reads back exactly what was assembled for it: the
/// commitments, the same move sequence and its role.
pub proof fn lemma_agent_input_round_trip(
    s: Seq<u8>,
    player0: Seq<u8>,
    player1: Seq<u8>,
    moves: Seq<u8>,
    role: u8,
)
    requires
        s.len() == 64,
        player0.len() == 64,
        player1.len() == 64,
        moves.len() < 0x1_0000_0000_0000_0000,
    ensures
        agent_input_parts(agent_input(s, player0, player1, moves, role)) == Some((s, player0, player1, moves, role)),
{
    let b = agent_input(s, player0, player1, moves, role);
    lemma_count_round_trip(2);
    lemma_count_round_trip(moves.len() as nat);
    let n = moves.len() as int;
    assert(b.subrange(64, 72) =~= count_bytes(2));
    assert(b.subrange(200, 208) =~= count_bytes(moves.len() as nat));
    assert(b.subrange(0, 64) =~= s);
    assert(b.subrange(72, 136) =~= player0);
    assert(b.subrange(136, 200) =~= player1);
    assert(b.subrange(208, 208 + n) =~= moves);
    assert(b[208 + n] == role);
}

/// The game program reads back exactly the commitments and the move sequence
/// that were assembled for it.
pub proof fn lemma_game_input_round_trip(s: Seq<u8>, player0: Seq<u8>, player1: Seq<u8>, moves: Seq<u8>)
    requires
        s.len() == 64,
        player0.len() == 64,
        player1.len() == 64,
        2 * moves.len() < 0x1_0000_0000_0000_0000,
    ensures
        game_input_parts(game_input(s, player0, player1, moves)) == Some((s, player0, player1, moves)),
{
    let b = game_input(s, player0, player1, moves);
    lemma_count_round_trip(2);
    lemma_count_round_trip(2 * moves.len());
    lemma_history_parity(moves);
    let t = tagged_history(moves);
    assert(b.subrange(64, 72) =~= count_bytes(2));
    assert(b.subrange(200, 208) =~= count_bytes(2 * moves.len()));
    assert(b.subrange(0, 64) =~= s);
    assert(b.subrange(72, 136) =~= player0);
    assert(b.subrange(136, 200) =~= player1);
    let h = b.subrange(208, b.len() as int);
    assert(h =~= t);
    assert(tags_alternate(h));
    assert(Seq::new(h.len() / 2, |j: int| h[2 * j + 1]) =~= moves);
}

/// What an agent program reads is what the assembler would have written for
/// it: the input is `agent_input` of the parts read.
pub proof fn lemma_agent_input_sound(b: Seq<u8>)
    ensures
        agent_input_parts(b) matches Some((s, player0, player1, moves, role)) ==> b == agent_input(
            s,
            player0,
            player1,
            moves,
            role,
        ),
{
    if let Some((s, player0, player1, moves, role)) = agent_input_parts(b) {
        lemma_le_bytes_of_value(b.subrange(64, 72));
        lemma_le_bytes_of_value(b.subrange(200, 208));
        assert(b =~= s + b.subrange(64, 72) + player0 + player1 + b.subrange(200, 208) + moves + seq![role]);
    }
}

/// What the game program reads is what the assembler would have written for
/// it: the input is `game_input` of the parts read.
pub proof fn lemma_game_input_sound(b: Seq<u8>)
    ensures
        game_input_parts(b) matches Some((s, player0, player1, moves)) ==> b == game_input(s, player0, player1, moves),
{
    if let Some((s, player0, player1, moves)) = game_input_parts(b) {
        lemma_le_bytes_of_value(b.subrange(64, 72));
        lemma_le_bytes_of_value(b.subrange(200, 208));
        let h = b.subrange(208, b.len() as int);
        lemma_history_parity(moves);
        let t = tagged_history(moves);
        assert forall|i: int| 0 <= i < h.len() implies h[i] == t[i] by {
            let j = i / 2;
            if i % 2 == 0 {
                assert(i == 2 * j);
                assert(h[2 * j] == (j % 2) as u8);
            } else {
                assert(i == 2 * j + 1);
                assert(moves[j] == h[2 * j + 1]);
            }
        }
        assert(h =~= t);
        assert(b =~= s + b.subrange(64, 72) + player0 + player1 + b.subrange(200, 208) + h);
    }
}

} // verus!
