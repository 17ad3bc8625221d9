use vstd::prelude::*;
use vstd::array::{spec_array_fill_for_copy_type, spec_array_update};
use crate::state::{
    board_cell, board_updated, cell, is_empty_board, set_cell, Board, GameAction, GamePrivateState,
    GamePublicState, DRAW,
};

verus! {

/// Four cells of `line` from `k` on hold `p`.
pub open spec fn window_of(line: Seq<u8>, p: u8, k: int) -> bool {
    line[k] == p && line[k + 1] == p && line[k + 2] == p && line[k + 3] == p
}

/// `line` holds four consecutive cells equal to `p`.
pub open spec fn four_in_a_row(line: Seq<u8>, p: u8) -> bool {
    exists|k: int| 0 <= k && k + 4 <= line.len() && #[trigger] window_of(line, p, k)
}

/// Length of the run of cells equal to `p` that ends just before index `i`.
pub open spec fn run_end(line: Seq<u8>, p: u8, i: int) -> nat
    decreases i,
{
    if i <= 0 {
        0
    } else if line[i - 1] == p {
        run_end(line, p, i - 1) + 1
    } else {
        0
    }
}

/// The row through `row`.
pub open spec fn row_line(b: Board, row: int) -> Seq<u8> {
    Seq::new(7, |i: int| cell(b, row, i))
}

/// The column through `col`.
pub open spec fn column_line(b: Board, col: int) -> Seq<u8> {
    Seq::new(6, |i: int| cell(b, i, col))
}

pub open spec fn min_int(a: int, b: int) -> int {
    if a <= b { a } else { b }
}

/// The diagonal running down and to the right through `(row, col)`, from its
/// upper end.
pub open spec fn falling_line(b: Board, row: int, col: int) -> Seq<u8> {
    let m = min_int(row, col);
    let r0 = row - m;
    let c0 = col - m;
    Seq::new(min_int(6 - r0, 7 - c0) as nat, |i: int| cell(b, r0 + i, c0 + i))
}

/// The diagonal running down and to the left through `(row, col)`, from its
/// upper end.
pub open spec fn rising_line(b: Board, row: int, col: int) -> Seq<u8> {
    let m = min_int(row, 6 - col);
    let r0 = row - m;
    let c0 = col + m;
    Seq::new(min_int(6 - r0, c0 + 1) as nat, |i: int| cell(b, r0 + i, c0 - i))
}

/// Some line through `(row, col)` holds four pieces of `player` in a row.
pub open spec fn wins_through(b: Board, row: int, col: int, player: u8) -> bool {
    four_in_a_row(row_line(b, row), player) || four_in_a_row(column_line(b, col), player)
        || four_in_a_row(falling_line(b, row, col), player) || four_in_a_row(
        rising_line(b, row, col),
        player,
    )
}

/// Every column is filled up to the top row.
pub open spec fn board_full(b: Board) -> bool {
    forall|c: int| 0 <= c < 7 ==> cell(b, 0, c) != 0
}

/// The lowest empty cell of column `col` at or above row `r`, or -1.
pub open spec fn landing_from(b: Board, col: int, r: int) -> int
    decreases r + 1,
{
    if r < 0 {
        -1
    } else if cell(b, r, col) == 0 {
        r
    } else {
        landing_from(b, col, r - 1)
    }
}

/// The row a piece dropped into `col` comes to rest in, or -1 when the column is
/// full.
pub open spec fn landing_row(b: Board, col: int) -> int {
    landing_from(b, col, 5)
}

proof fn lemma_window_run(line: Seq<u8>, p: u8, e: int)
    requires
        4 <= e <= line.len(),
    ensures
        window_of(line, p, e - 4) <==> run_end(line, p, e) >= 4,
{
    reveal_with_fuel(run_end, 5);
}

/// Whether `line` holds four consecutive cells equal to `p`.
fn has_four(line: &Vec<u8>, p: u8) -> (r: bool)
    ensures
        r == four_in_a_row(line@, p),
{
    let mut count: usize = 0;
    let mut i: usize = 0;
    while i < line.len()
        invariant
            i <= line@.len(),
            count == run_end(line@, p, i as int),
            count < 4,
            count <= i,
            forall|k: int| 0 <= k && k + 4 <= i ==> !#[trigger] window_of(line@, p, k),
        decreases line@.len() - i,
    {
        if line[i] == p {
            count = count + 1;
        } else {
            count = 0;
        }
        assert(count == run_end(line@, p, i + 1));
        if i + 1 >= 4 {
            proof {
                lemma_window_run(line@, p, i + 1);
            }
        }
        if count >= 4 {
            assert(window_of(line@, p, i + 1 - 4));
            return true;
        }
        i = i + 1;
    }
    false
}

/// Whether a piece of `player` at `(row, col)` completes four in a row along the
/// row, the column or one of the two diagonals through that cell.
pub fn check_winner(board: &Board, row: usize, col: usize, player: u8) -> (r: bool)
    requires
        row < 6,
        col < 7,
    ensures
        r == wins_through(*board, row as int, col as int, player),
{
    let mut line: Vec<u8> = Vec::new();
    let mut c: usize = 0;
    while c < 7
        invariant
            row < 6,
            c <= 7,
            line@ == row_line(*board, row as int).subrange(0, c as int),
        decreases 7 - c,
    {
        line.push(board_cell(board, row, c));
        c = c + 1;
        assert(line@ =~= row_line(*board, row as int).subrange(0, c as int));
    }
    assert(line@ =~= row_line(*board, row as int));
    if has_four(&line, player) {
        return true;
    }
    let mut line: Vec<u8> = Vec::new();
    let mut r: usize = 0;
    while r < 6
        invariant
            col < 7,
            r <= 6,
            line@ == column_line(*board, col as int).subrange(0, r as int),
        decreases 6 - r,
    {
        line.push(board_cell(board, r, col));
        r = r + 1;
        assert(line@ =~= column_line(*board, col as int).subrange(0, r as int));
    }
    assert(line@ =~= column_line(*board, col as int));
    if has_four(&line, player) {
        return true;
    }
    // Diagonal down and to the right, from its upper end.
    let m: usize = if row <= col { row } else { col };
    let r0: usize = row - m;
    let c0: usize = col - m;
    let n: usize = if 6 - r0 <= 7 - c0 { 6 - r0 } else { 7 - c0 };
    assert(falling_line(*board, row as int, col as int).len() == n);
    let mut line: Vec<u8> = Vec::new();
    let mut i: usize = 0;
    while i < n
        invariant
            r0 + n <= 6,
            c0 + n <= 7,
            i <= n,
            n == falling_line(*board, row as int, col as int).len(),
            r0 == row - min_int(row as int, col as int),
            c0 == col - min_int(row as int, col as int),
            line@ == falling_line(*board, row as int, col as int).subrange(0, i as int),
        decreases n - i,
    {
        line.push(board_cell(board, r0 + i, c0 + i));
        i = i + 1;
        assert(line@ =~= falling_line(*board, row as int, col as int).subrange(0, i as int));
    }
    assert(line@ =~= falling_line(*board, row as int, col as int));
    if has_four(&line, player) {
        return true;
    }
    // Diagonal down and to the left, from its upper end.
    let m: usize = if row <= 6 - col { row } else { 6 - col };
    let r0: usize = row - m;
    let c0: usize = col + m;
    let n: usize = if 6 - r0 <= c0 + 1 { 6 - r0 } else { c0 + 1 };
    assert(rising_line(*board, row as int, col as int).len() == n);
    let mut line: Vec<u8> = Vec::new();
    let mut i: usize = 0;
    while i < n
        invariant
            r0 + n <= 6,
            c0 < 7,
            n <= c0 + 1,
            i <= n,
            n == rising_line(*board, row as int, col as int).len(),
            r0 == row - min_int(row as int, 6 - col),
            c0 == col + min_int(row as int, 6 - col),
            line@ == rising_line(*board, row as int, col as int).subrange(0, i as int),
        decreases n - i,
    {
        line.push(board_cell(board, r0 + i, c0 - i));
        i = i + 1;
        assert(line@ =~= rising_line(*board, row as int, col as int).subrange(0, i as int));
    }
    assert(line@ =~= rising_line(*board, row as int, col as int));
    has_four(&line, player)
}

/// Whether every column is filled up to the top row.
pub fn is_board_full(board: &Board) -> (r: bool)
    ensures
        r == board_full(*board),
{
    let mut c: usize = 0;
    while c < 7
        invariant
            c <= 7,
            forall|j: int| 0 <= j < c ==> cell(*board, 0, j) != 0,
        decreases 7 - c,
    {
        if board_cell(board, 0, c) == 0 {
            return false;
        }
        c = c + 1;
    }
    true
}

/// The move is applied: the game is running, the column exists and has room.
pub open spec fn move_applies(public: GamePublicState, col: u8) -> bool {
    public.winner == 0 && col < 7 && landing_row(public.board, col as int) >= 0
}

/// One step of the rules: `new_pub` and `new_private_moves` follow from
/// `old_pub` and `old_private_moves` by `action`.
pub open spec fn reducer_step(
    old_pub: GamePublicState,
    old_private_moves: u32,
    action: GameAction,
    new_pub: GamePublicState,
    new_private_moves: u32,
) -> bool {
    let GameAction::DropPiece(col) = action;
    if !move_applies(old_pub, col) {
        new_pub.board == old_pub.board && new_pub.current_player == old_pub.current_player
            && new_pub.winner == old_pub.winner && new_pub.moves@ == old_pub.moves@
            && new_private_moves == old_private_moves
    } else {
        let row = landing_row(old_pub.board, col as int);
        let cp = old_pub.current_player;
        &&& board_updated(old_pub.board, new_pub.board, row, col as int, cp)
        &&& new_private_moves == old_private_moves + 1
        &&& new_pub.moves@ == old_pub.moves@.push(col)
        &&& if wins_through(new_pub.board, row, col as int, cp) {
            new_pub.winner == cp && new_pub.current_player == cp
        } else if board_full(new_pub.board) {
            new_pub.winner == DRAW && new_pub.current_player == cp
        } else {
            new_pub.winner == 0 && new_pub.current_player == (if cp == 1 {
                2u8
            } else {
                1u8
            })
        }
    }
}

/// A game position as plain values: the grid, the player to move, the
/// outcome, the moves played and the count of pieces placed.
pub open spec fn game_view(s: GamePublicState, private_moves: u32) -> (Board, u8, u8, Seq<u8>, u32) {
    (s.board, s.current_player, s.winner, s.moves@, private_moves)
}

/// The grid with cell `(r, c)` set to `v`.
pub open spec fn board_set(b: Board, r: int, c: int, v: u8) -> Board {
    spec_array_update(b, r, spec_array_update(b@[r], c, v))
}

/// A grid with every cell empty.
pub open spec fn empty_board() -> Board {
    spec_array_fill_for_copy_type::<[u8; 7], 6>(spec_array_fill_for_copy_type::<u8, 7>(0u8))
}

/// The position a game starts from.
pub open spec fn initial_view() -> (Board, u8, u8, Seq<u8>, u32) {
    (empty_board(), 1, 0, Seq::empty(), 0)
}

/// One step of the rules as a function: the position after dropping a piece of
/// the player to move into `col`. A move after the end of the game, into a
/// column that does not exist, or into a full column changes nothing.
pub open spec fn step_view(g: (Board, u8, u8, Seq<u8>, u32), col: u8) -> (Board, u8, u8, Seq<u8>, u32) {
    let (board, cp, winner, moves, placed) = g;
    if !(winner == 0 && col < 7 && landing_row(board, col as int) >= 0) {
        g
    } else {
        let row = landing_row(board, col as int);
        let nb = board_set(board, row, col as int, cp);
        if wins_through(nb, row, col as int, cp) {
            (nb, cp, cp, moves.push(col), (placed + 1) as u32)
        } else if board_full(nb) {
            (nb, cp, DRAW, moves.push(col), (placed + 1) as u32)
        } else {
            (nb, if cp == 1 { 2u8 } else { 1u8 }, 0, moves.push(col), (placed + 1) as u32)
        }
    }
}

/// Grids that agree on every cell are equal.
pub proof fn lemma_board_ext(b1: Board, b2: Board)
    requires
        forall|i: int, j: int| 0 <= i < 6 && 0 <= j < 7 ==> #[trigger] cell(b1, i, j) == cell(b2, i, j),
    ensures
        b1 == b2,
{
    assert forall|i: int| 0 <= i < 6 implies b1[i] == b2[i] by {
        assert forall|j: int| 0 <= j < 7 implies b1[i][j] == b2[i][j] by {
            assert(cell(b1, i, j) == cell(b2, i, j));
        }
        vstd::array::axiom_array_ext_equal(b1[i], b2[i]);
        assert(b1[i] =~= b2[i]);
    }
    vstd::array::axiom_array_ext_equal(b1, b2);
    assert(b1 =~= b2);
}

pub proof fn lemma_board_set(b: Board, r: int, c: int, v: u8)
    requires
        0 <= r < 6,
        0 <= c < 7,
    ensures
        board_updated(b, board_set(b, r, c, v), r, c, v),
{
    vstd::array::axiom_spec_array_update(b@[r], c, v);
    vstd::array::axiom_spec_array_update(b, r, spec_array_update(b@[r], c, v));
}

/// The grid with no piece is the empty grid.
pub proof fn lemma_empty_board(b: Board)
    requires
        is_empty_board(b),
    ensures
        b == empty_board(),
{
    vstd::array::axiom_spec_array_fill_for_copy_type::<u8, 7>(0u8);
    vstd::array::axiom_spec_array_fill_for_copy_type::<[u8; 7], 6>(
        spec_array_fill_for_copy_type::<u8, 7>(0u8),
    );
    lemma_board_ext(b, empty_board());
}

/// The rules relation fixes the next position: it is `step_view`.
proof fn lemma_step_functional(
    old_pub: GamePublicState,
    old_private_moves: u32,
    action: GameAction,
    new_pub: GamePublicState,
    new_private_moves: u32,
)
    requires
        reducer_step(old_pub, old_private_moves, action, new_pub, new_private_moves),
        old_private_moves < u32::MAX,
    ensures
        ({
            let GameAction::DropPiece(col) = action;
            game_view(new_pub, new_private_moves) == step_view(game_view(old_pub, old_private_moves), col)
        }),
{
    let GameAction::DropPiece(col) = action;
    if move_applies(old_pub, col) {
        let row = landing_row(old_pub.board, col as int);
        lemma_landing_bounds(old_pub.board, col as int, 5);
        lemma_board_set(old_pub.board, row, col as int, old_pub.current_player);
        lemma_board_ext(new_pub.board, board_set(old_pub.board, row, col as int, old_pub.current_player));
    }
}

proof fn lemma_landing_bounds(b: Board, col: int, r: int)
    requires
        -1 <= r < 6,
    ensures
        -1 <= landing_from(b, col, r) <= r,
    decreases r + 1,
{
    if r >= 0 && cell(b, r, col) != 0 {
        lemma_landing_bounds(b, col, r - 1);
    }
}

/// The rules of the game. A piece of the player to move drops into the chosen
/// column and the outcome is updated; a move after the end of the game, into a
/// column that does not exist, or into a full column changes nothing.
pub fn reducer(
    public_state: &mut GamePublicState,
    private_state: &mut GamePrivateState,
    action: &GameAction,
)
    requires
        old(private_state).moves < u32::MAX,
    ensures
        reducer_step(
            *old(public_state),
            old(private_state).moves,
            *action,
            *final(public_state),
            final(private_state).moves,
        ),
        game_view(*final(public_state), final(private_state).moves) == step_view(
            game_view(*old(public_state), old(private_state).moves),
            action->DropPiece_0,
        ),
{
    let GameAction::DropPiece(column) = *action;
    // A finished game takes no more moves.
    if public_state.winner != 0 {
        assert(public_state.moves@ =~= old(public_state).moves@);
        return;
    }
    if column >= 7 {
        return;
    }
    let col = column as usize;
    // Find the lowest empty row of the column.
    let mut row: usize = 5;
    while row > 0 && board_cell(&public_state.board, row, col) != 0
        invariant
            row <= 5,
            col < 7,
            landing_from(public_state.board, col as int, 5) == landing_from(
                public_state.board,
                col as int,
                row as int,
            ),
        decreases row,
    {
        row = row - 1;
    }
    if board_cell(&public_state.board, row, col) != 0 {
        assert(landing_from(public_state.board, col as int, -1) == -1);
        return;
    }
    let cp = public_state.current_player;
    set_cell(&mut public_state.board, row, col, cp);
    private_state.moves = private_state.moves + 1;
    if check_winner(&public_state.board, row, col, cp) {
        public_state.winner = cp;
    } else if is_board_full(&public_state.board) {
        public_state.winner = DRAW;
    } else {
        public_state.current_player = if cp == 1 {
            2
        } else {
            1
        };
    }
    public_state.moves.push(column);
    proof {
        lemma_step_functional(
            *old(public_state),
            old(private_state).moves,
            *action,
            *public_state,
            private_state.moves,
        );
    }
}

} // verus!
