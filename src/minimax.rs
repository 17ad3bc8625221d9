use vstd::prelude::*;
use crate::input::ParticipantMetadata;
use crate::reducer::{board_set, landing_from, landing_row, lemma_board_ext, lemma_board_set};
use crate::simulator::{meta_view, public_view, Agent};
use crate::state::{
    board_cell, board_updated, cell, has_open_column, lemma_open_columns, open_columns,
    set_cell, valid_moves, Board, GamePublicState,
};

verus! {

/// Plies searched ahead.
pub const MAX_DEPTH: usize = 6;

/// Score of a won position.
pub const WIN_SCORE: i32 = 1000000;

/// Directions of a window of four cells: along a row, down a column, down to
/// the right, up to the right.
pub open spec fn window_fits(dir: u8, r: int, c: int) -> bool {
    if dir == 0 {
        0 <= r < 6 && 0 <= c && c + 3 < 7
    } else if dir == 1 {
        0 <= r && r + 3 < 6 && 0 <= c < 7
    } else if dir == 2 {
        0 <= r && r + 3 < 6 && 0 <= c && c + 3 < 7
    } else {
        3 <= r < 6 && 0 <= c && c + 3 < 7
    }
}

/// Cell `i` (0 to 3) of the window in direction `dir` from `(r, c)`.
pub open spec fn window_cell(b: Board, dir: u8, r: int, c: int, i: int) -> u8 {
    if dir == 0 {
        cell(b, r, c + i)
    } else if dir == 1 {
        cell(b, r + i, c)
    } else if dir == 2 {
        cell(b, r + i, c + i)
    } else {
        cell(b, r - i, c + i)
    }
}

/// The window in direction `dir` from `(r, c)` is all `piece`.
pub open spec fn window_full(b: Board, piece: u8, dir: u8, r: int, c: int) -> bool {
    window_cell(b, dir, r, c, 0) == piece && window_cell(b, dir, r, c, 1) == piece && window_cell(
        b,
        dir,
        r,
        c,
        2,
    ) == piece && window_cell(b, dir, r, c, 3) == piece
}

/// `piece` has four in a row somewhere on the grid.
pub open spec fn is_win_spec(b: Board, piece: u8) -> bool {
    exists|dir: u8, r: int, c: int|
        dir < 4 && window_fits(dir, r, c) && #[trigger] window_full(b, piece, dir, r, c)
}

/// The four cells of a window.
fn window_at(board: &Board, dir: u8, r: usize, c: usize) -> (w: [u8; 4])
    requires
        dir < 4,
        window_fits(dir, r as int, c as int),
    ensures
        forall|i: int| 0 <= i < 4 ==> w@[i] == window_cell(*board, dir, r as int, c as int, i),
{
    if dir == 0 {
        [
            board_cell(board, r, c),
            board_cell(board, r, c + 1),
            board_cell(board, r, c + 2),
            board_cell(board, r, c + 3),
        ]
    } else if dir == 1 {
        [
            board_cell(board, r, c),
            board_cell(board, r + 1, c),
            board_cell(board, r + 2, c),
            board_cell(board, r + 3, c),
        ]
    } else if dir == 2 {
        [
            board_cell(board, r, c),
            board_cell(board, r + 1, c + 1),
            board_cell(board, r + 2, c + 2),
            board_cell(board, r + 3, c + 3),
        ]
    } else {
        [
            board_cell(board, r, c),
            board_cell(board, r - 1, c + 1),
            board_cell(board, r - 2, c + 2),
            board_cell(board, r - 3, c + 3),
        ]
    }
}

/// The rows and columns a window in direction `dir` may start from.
pub open spec fn dir_rows(dir: u8) -> (int, int) {
    if dir == 0 {
        (0, 6)
    } else if dir == 3 {
        (3, 6)
    } else {
        (0, 3)
    }
}

pub open spec fn dir_cols(dir: u8) -> int {
    if dir == 1 {
        7
    } else {
        4
    }
}

proof fn lemma_fits_range(dir: u8, r: int, c: int)
    requires
        dir < 4,
    ensures
        window_fits(dir, r, c) <==> (dir_rows(dir).0 <= r < dir_rows(dir).1 && 0 <= c < dir_cols(
            dir,
        )),
{
}

/// Whether some window in direction `dir` is all `piece`.
fn has_window(board: &Board, piece: u8, dir: u8) -> (found: bool)
    requires
        dir < 4,
    ensures
        found == exists|r: int, c: int|
            window_fits(dir, r, c) && #[trigger] window_full(*board, piece, dir, r, c),
{
    let r1: usize = if dir == 0 || dir == 3 {
        6
    } else {
        3
    };
    let c1: usize = if dir == 1 {
        7
    } else {
        4
    };
    let mut r: usize = if dir == 3 {
        3
    } else {
        0
    };
    while r < r1
        invariant
            dir < 4,
            r1 == dir_rows(dir).1,
            c1 == dir_cols(dir),
            dir_rows(dir).0 <= r <= r1,
            forall|rr: int, cc: int|
                dir_rows(dir).0 <= rr < r && 0 <= cc < c1 ==> !#[trigger] window_full(
                    *board,
                    piece,
                    dir,
                    rr,
                    cc,
                ),
        decreases r1 - r,
    {
        let mut c: usize = 0;
        while c < c1
            invariant
                dir < 4,
                r1 == dir_rows(dir).1,
                c1 == dir_cols(dir),
                dir_rows(dir).0 <= r < r1,
                c <= c1,
                forall|rr: int, cc: int|
                    dir_rows(dir).0 <= rr < r && 0 <= cc < c1 ==> !#[trigger] window_full(
                        *board,
                        piece,
                        dir,
                        rr,
                        cc,
                    ),
                forall|cc: int| 0 <= cc < c ==> !#[trigger] window_full(*board, piece, dir, r as int, cc),
            decreases c1 - c,
        {
            proof {
                lemma_fits_range(dir, r as int, c as int);
            }
            let w = window_at(board, dir, r, c);
            if w[0] == piece && w[1] == piece && w[2] == piece && w[3] == piece {
                assert(window_full(*board, piece, dir, r as int, c as int));
                return true;
            }
            c = c + 1;
        }
        r = r + 1;
    }
    proof {
        assert forall|rr: int, cc: int| window_fits(dir, rr, cc) implies !#[trigger] window_full(
            *board,
            piece,
            dir,
            rr,
            cc,
        ) by {
            lemma_fits_range(dir, rr, cc);
        }
    }
    false
}

/// Whether `piece` has four in a row anywhere on the grid.
fn is_win(board: &Board, piece: u8) -> (r: bool)
    ensures
        r == is_win_spec(*board, piece),
{
    let h = has_window(board, piece, 0);
    let v = has_window(board, piece, 1);
    let d = has_window(board, piece, 2);
    let a = has_window(board, piece, 3);
    proof {
        if is_win_spec(*board, piece) {
            let (dir, r, c) = choose|dir: u8, r: int, c: int|
                dir < 4 && window_fits(dir, r, c) && #[trigger] window_full(*board, piece, dir, r, c);
            assert(dir == 0 || dir == 1 || dir == 2 || dir == 3);
        }
        if h {
            let (r, c) = choose|r: int, c: int|
                window_fits(0, r, c) && #[trigger] window_full(*board, piece, 0, r, c);
            assert(window_full(*board, piece, 0, r, c));
        }
        if v {
            let (r, c) = choose|r: int, c: int|
                window_fits(1, r, c) && #[trigger] window_full(*board, piece, 1, r, c);
            assert(window_full(*board, piece, 1, r, c));
        }
        if d {
            let (r, c) = choose|r: int, c: int|
                window_fits(2, r, c) && #[trigger] window_full(*board, piece, 2, r, c);
            assert(window_full(*board, piece, 2, r, c));
        }
        if a {
            let (r, c) = choose|r: int, c: int|
                window_fits(3, r, c) && #[trigger] window_full(*board, piece, 3, r, c);
            assert(window_full(*board, piece, 3, r, c));
        }
    }
    h || v || d || a
}

/// How many of the first `n` cells of `w` equal `v`.
pub open spec fn count_upto(w: Seq<u8>, v: u8, n: int) -> nat
    decreases n,
{
    if n <= 0 {
        0
    } else {
        count_upto(w, v, n - 1) + if w[n - 1] == v {
            1nat
        } else {
            0nat
        }
    }
}

/// The heuristic value of a window holding `own` pieces and `empty` empty cells.
pub open spec fn window_score(own: nat, empty: nat) -> i32 {
    if own == 4 {
        1000
    } else if own == 3 && empty == 1 {
        5
    } else if own == 2 && empty == 2 {
        2
    } else {
        0
    }
}

/// Scores a window of four cells for `piece`.
fn eval_window(window: &[u8; 4], piece: u8) -> (r: i32)
    ensures
        r == window_score(count_upto(window@, piece, 4), count_upto(window@, 0, 4)),
        0 <= r <= 1000,
{
    let mut empty: usize = 0;
    let mut own: usize = 0;
    let mut i: usize = 0;
    while i < 4
        invariant
            i <= 4,
            empty == count_upto(window@, 0, i as int),
            own == count_upto(window@, piece, i as int),
            empty <= i,
            own <= i,
        decreases 4 - i,
    {
        if window[i] == 0 {
            empty = empty + 1;
        }
        if window[i] == piece {
            own = own + 1;
        }
        i = i + 1;
    }
    if own == 4 {
        1000
    } else if own == 3 && empty == 1 {
        5
    } else if own == 2 && empty == 2 {
        2
    } else {
        0
    }
}

/// The four cells of a window, in order.
pub open spec fn window_seq(b: Board, dir: u8, r: int, c: int) -> Seq<u8> {
    seq![
        window_cell(b, dir, r, c, 0),
        window_cell(b, dir, r, c, 1),
        window_cell(b, dir, r, c, 2),
        window_cell(b, dir, r, c, 3),
    ]
}

/// The heuristic value of a window for `piece`.
pub open spec fn window_value(b: Board, piece: u8, dir: u8, r: int, c: int) -> int {
    window_score(count_upto(window_seq(b, dir, r, c), piece, 4), count_upto(window_seq(b, dir, r, c), 0, 4)) as int
}

/// Sum over the first `c` windows of row `r` in direction `dir` of the value
/// for `my` less the value for `opp`.
pub open spec fn row_sum(b: Board, my: u8, opp: u8, dir: u8, r: int, c: int) -> int
    decreases c,
{
    if c <= 0 {
        0
    } else {
        row_sum(b, my, opp, dir, r, c - 1) + window_value(b, my, dir, r, c - 1) - window_value(
            b,
            opp,
            dir,
            r,
            c - 1,
        )
    }
}

/// Sum of `row_sum` over the rows of direction `dir` below `r`.
pub open spec fn dir_sum(b: Board, my: u8, opp: u8, dir: u8, r: int) -> int
    decreases r - dir_rows(dir).0,
{
    if r <= dir_rows(dir).0 {
        0
    } else {
        dir_sum(b, my, opp, dir, r - 1) + row_sum(b, my, opp, dir, r - 1, dir_cols(dir))
    }
}

/// Pieces of `my` in the centre column among the first `r` rows.
pub open spec fn center_count(b: Board, my: u8, r: int) -> int
    decreases r,
{
    if r <= 0 {
        0
    } else {
        center_count(b, my, r - 1) + if cell(b, r - 1, 3) == my {
            1int
        } else {
            0int
        }
    }
}

/// The heuristic value of a grid for `my`.
pub open spec fn eval_spec(b: Board, my: u8, opp: u8) -> int {
    center_count(b, my, 6) * 6 + dir_sum(b, my, opp, 0, 6) + dir_sum(b, my, opp, 1, 3) + dir_sum(
        b,
        my,
        opp,
        2,
        3,
    ) + dir_sum(b, my, opp, 3, 6)
}

/// Sum over the windows in direction `dir` of the score for `my_piece` less the
/// score for `opp_piece`.
fn score_dir(board: &Board, my_piece: u8, opp_piece: u8, dir: u8) -> (score: i32)
    requires
        dir < 4,
    ensures
        -42000 <= score <= 42000,
        score as int == dir_sum(*board, my_piece, opp_piece, dir, dir_rows(dir).1),
{
    let r1: usize = if dir == 0 || dir == 3 {
        6
    } else {
        3
    };
    let c1: usize = if dir == 1 {
        7
    } else {
        4
    };
    let r0: usize = if dir == 3 {
        3
    } else {
        0
    };
    let mut score: i32 = 0;
    let mut r: usize = r0;
    while r < r1
        invariant
            dir < 4,
            r0 == dir_rows(dir).0,
            r1 == dir_rows(dir).1,
            c1 == dir_cols(dir),
            r0 <= r <= r1,
            r1 - r0 <= 6,
            c1 <= 7,
            -7000 * (r - r0) <= score <= 7000 * (r - r0),
            score as int == dir_sum(*board, my_piece, opp_piece, dir, r as int),
        decreases r1 - r,
    {
        let mut c: usize = 0;
        while c < c1
            invariant
                dir < 4,
                r0 == dir_rows(dir).0,
                r1 == dir_rows(dir).1,
                c1 == dir_cols(dir),
                r0 <= r < r1,
                r1 - r0 <= 6,
                c1 <= 7,
                c <= c1,
                -7000 * (r - r0) - 1000 * c <= score <= 7000 * (r - r0) + 1000 * c,
                score as int == dir_sum(*board, my_piece, opp_piece, dir, r as int) + row_sum(
                    *board,
                    my_piece,
                    opp_piece,
                    dir,
                    r as int,
                    c as int,
                ),
            decreases c1 - c,
        {
            proof {
                lemma_fits_range(dir, r as int, c as int);
            }
            let w = window_at(board, dir, r, c);
            assert(w@ =~= window_seq(*board, dir, r as int, c as int));
            let mine = eval_window(&w, my_piece);
            let theirs = eval_window(&w, opp_piece);
            score = score + mine - theirs;
            c = c + 1;
        }
        r = r + 1;
    }
    score
}

/// Heuristic value of the grid for `my_piece`: six points per own piece in the
/// centre column, and for every window of four the score for `my_piece` less
/// the score for `opp_piece`.
fn evaluate(board: &Board, my_piece: u8, opp_piece: u8) -> (score: i32)
    ensures
        -168036 <= score <= 168036,
        score as int == eval_spec(*board, my_piece, opp_piece),
{
    let mut center: i32 = 0;
    let mut r: usize = 0;
    while r < 6
        invariant
            r <= 6,
            0 <= center <= r,
            center as int == center_count(*board, my_piece, r as int),
        decreases 6 - r,
    {
        if board_cell(board, r, 3) == my_piece {
            center = center + 1;
        }
        r = r + 1;
    }
    let mut score: i32 = center * 6;
    score = score + score_dir(board, my_piece, opp_piece, 0);
    score = score + score_dir(board, my_piece, opp_piece, 1);
    score = score + score_dir(board, my_piece, opp_piece, 2);
    score = score + score_dir(board, my_piece, opp_piece, 3);
    score
}

/// The grid with `piece` dropped into `col`, or `None` where the column does
/// not exist or is full.
pub open spec fn drop_spec(b: Board, col: int, piece: u8) -> Option<Board> {
    if col < 0 || col >= 7 || cell(b, 0, col) != 0 {
        None
    } else {
        Some(board_set(b, landing_row(b, col), col, piece))
    }
}

/// The grid with `piece` dropped into `col`, or `None` when the column does not
/// exist or is full.
fn drop_piece(board: &Board, col: usize, piece: u8) -> (r: Option<Board>)
    ensures
        r == drop_spec(*board, col as int, piece),
{
    if col >= 7 || board_cell(board, 0, col) != 0 {
        return None;
    }
    let mut row: usize = 5;
    while board_cell(board, row, col) != 0
        invariant
            row <= 5,
            col < 7,
            cell(*board, 0, col as int) == 0,
            landing_from(*board, col as int, 5) == landing_from(*board, col as int, row as int),
        decreases row,
    {
        row = row - 1;
    }
    let mut next = *board;
    set_cell(&mut next, row, col, piece);
    proof {
        assert(landing_row(*board, col as int) == row);
        lemma_board_set(*board, row as int, col as int, piece);
        lemma_board_ext(next, board_set(*board, row as int, col as int, piece));
    }
    Some(next)
}

/// The value of a position where the search stops: won, lost or drawn when the
/// game is over, the heuristic otherwise.
pub open spec fn leaf_value(b: Board, terminal: bool, my: u8, opp: u8) -> i32 {
    if terminal {
        if is_win_spec(b, my) {
            WIN_SCORE
        } else if is_win_spec(b, opp) {
            (-WIN_SCORE) as i32
        } else {
            0
        }
    } else {
        eval_spec(b, my, opp) as i32
    }
}

/// Depth-limited minimax with alpha-beta pruning, as a function: the value of
/// the position for `my` and the column that reaches it.
pub open spec fn search(b: Board, depth: nat, alpha: i32, beta: i32, maxi: bool, my: u8, opp: u8) -> (
    i32,
    Option<usize>,
)
    decreases depth, open_columns(b).len() + 1,
{
    let moves = open_columns(b);
    let terminal = is_win_spec(b, my) || is_win_spec(b, opp) || moves.len() == 0;
    if depth == 0 || terminal {
        (leaf_value(b, terminal, my, opp), None)
    } else {
        search_moves(
            b,
            depth,
            moves,
            0,
            alpha,
            beta,
            if maxi {
                i32::MIN
            } else {
                i32::MAX
            },
            None,
            maxi,
            my,
            opp,
        )
    }
}

/// The search over the columns `moves` from index `i`, with the bounds, the
/// best value and the best column so far.
pub open spec fn search_moves(
    b: Board,
    depth: nat,
    moves: Seq<usize>,
    i: nat,
    alpha: i32,
    beta: i32,
    value: i32,
    best: Option<usize>,
    maxi: bool,
    my: u8,
    opp: u8,
) -> (i32, Option<usize>)
    decreases depth, moves.len() - i,
{
    if depth == 0 || i >= moves.len() {
        (value, best)
    } else {
        let col = moves[i as int];
        match drop_spec(b, col as int, if maxi { my } else { opp }) {
            None => search_moves(b, depth, moves, i + 1, alpha, beta, value, best, maxi, my, opp),
            Some(next) => {
                let score = search(next, (depth - 1) as nat, alpha, beta, !maxi, my, opp).0;
                let better = if maxi { score > value } else { score < value };
                let v2 = if better { score } else { value };
                let b2 = if better { Some(col) } else { best };
                let a2 = if maxi && v2 > alpha { v2 } else { alpha };
                let be2 = if !maxi && v2 < beta { v2 } else { beta };
                if a2 >= be2 {
                    (v2, b2)
                } else {
                    search_moves(b, depth, moves, i + 1, a2, be2, v2, b2, maxi, my, opp)
                }
            },
        }
    }
}

/// Depth-limited minimax with alpha-beta pruning. Returns the value of the
/// position for `my_piece` and, below the horizon, the column that reaches it.
fn minimax(
    board: &Board,
    depth: usize,
    alpha: i32,
    beta: i32,
    maximizing: bool,
    my_piece: u8,
    opp_piece: u8,
) -> (r: (i32, Option<usize>))
    ensures
        r == search(*board, depth as nat, alpha, beta, maximizing, my_piece, opp_piece),
        r.1 matches Some(c) ==> c < 7 && cell(*board, 0, c as int) == 0,
    decreases depth,
{
    let moves = valid_moves(board);
    proof {
        lemma_open_columns(*board, 7);
    }
    let terminal = is_win(board, my_piece) || is_win(board, opp_piece) || moves.len() == 0;
    if depth == 0 || terminal {
        let val = if terminal {
            if is_win(board, my_piece) {
                WIN_SCORE
            } else if is_win(board, opp_piece) {
                -WIN_SCORE
            } else {
                0
            }
        } else {
            evaluate(board, my_piece, opp_piece)
        };
        return (val, None);
    }
    let mut alpha = alpha;
    let mut beta = beta;
    let mut best_col: Option<usize> = None;
    let piece = if maximizing {
        my_piece
    } else {
        opp_piece
    };
    let mut value: i32 = if maximizing {
        i32::MIN
    } else {
        i32::MAX
    };
    let ghost whole = search(*board, depth as nat, alpha, beta, maximizing, my_piece, opp_piece);
    let mut i: usize = 0;
    while i < moves.len()
        invariant_except_break
            whole == search_moves(
                *board,
                depth as nat,
                moves@,
                i as nat,
                alpha,
                beta,
                value,
                best_col,
                maximizing,
                my_piece,
                opp_piece,
            ),
        invariant
            depth > 0,
            i <= moves@.len(),
            moves@ == open_columns(*board),
            piece == if maximizing { my_piece } else { opp_piece },
            forall|k: int|
                0 <= k < moves@.len() ==> #[trigger] moves@[k] < 7 && cell(*board, 0, moves@[k] as int) == 0,
            best_col matches Some(c) ==> c < 7 && cell(*board, 0, c as int) == 0,
        ensures
            whole == (value, best_col),
        decreases moves@.len() - i,
    {
        let col = moves[i];
        match drop_piece(board, col, piece) {
            Some(next) => {
                let (score, _) = minimax(
                    &next,
                    depth - 1,
                    alpha,
                    beta,
                    !maximizing,
                    my_piece,
                    opp_piece,
                );
                if maximizing {
                    if score > value {
                        value = score;
                        best_col = Some(col);
                    }
                    if value > alpha {
                        alpha = value;
                    }
                } else {
                    if score < value {
                        value = score;
                        best_col = Some(col);
                    }
                    if value < beta {
                        beta = value;
                    }
                }
                if alpha >= beta {
                    break ;
                }
            },
            None => {},
        }
        i = i + 1;
    }
    (value, best_col)
}

/// The column the search picks: the best one found, else the first open
/// column, else 0.
pub open spec fn best_move_spec(b: Board, my: u8, opp: u8) -> usize {
    match search(b, MAX_DEPTH as nat, i32::MIN, i32::MAX, true, my, opp).1 {
        Some(c) => c,
        None => if open_columns(b).len() > 0 {
            open_columns(b)[0]
        } else {
            0
        },
    }
}

/// The column the search agent plays for the player to move.
pub open spec fn minimax_choice(board: Board, current_player: u8) -> u8 {
    best_move_spec(board, current_player, if current_player == 1 { 2u8 } else { 1u8 }) as u8
}

/// The column the search picks for `my_piece`: the best one found, else the
/// first open column, else 0.
fn best_move(board: &Board, my_piece: u8, opp_piece: u8) -> (r: usize)
    ensures
        r < 7,
        r == best_move_spec(*board, my_piece, opp_piece),
        has_open_column(*board) ==> cell(*board, 0, r as int) == 0,
        !has_open_column(*board) ==> r == 0,
{
    let (_, col) = minimax(board, MAX_DEPTH, i32::MIN, i32::MAX, true, my_piece, opp_piece);
    let moves = valid_moves(board);
    proof {
        lemma_open_columns(*board, 7);
        if moves@.len() > 0 {
            assert(cell(*board, 0, moves@[0] as int) == 0);
        }
    }
    match col {
        Some(c) => c,
        None => {
            if moves.len() > 0 {
                moves[0]
            } else {
                0
            }
        },
    }
}

/// A search agent: depth-limited minimax with alpha-beta pruning for the player
/// to move, scoring won positions at one million and others by a heuristic on
/// the windows of four. Its column depends on the grid and the player to move
/// alone; it always exists, and can take a piece whenever some column can; on
/// a full grid it is 0.
pub fn agent(state: &GamePublicState) -> (r: u8)
    ensures
        r == minimax_choice(state.board, state.current_player),
        r < 7,
        has_open_column(state.board) ==> cell(state.board, 0, r as int) == 0,
        !has_open_column(state.board) ==> r == 0,
{
    let my_piece: u8 = state.current_player;
    let opp_piece: u8 = if my_piece == 1 {
        2
    } else {
        1
    };
    best_move(&state.board, my_piece, opp_piece) as u8
}

/// The search agent as a participant of a run.
pub struct MinimaxAgent;

impl Agent for MinimaxAgent {
    open spec fn choice(
        &self,
        state: (Board, u8, u8, Seq<u8>),
        meta: (Seq<u8>, Seq<u8>, Seq<u8>),
        role: u8,
        turn: u32,
    ) -> u8 {
        minimax_choice(state.0, state.1)
    }

    fn decide(&self, state: &GamePublicState, meta: &ParticipantMetadata, role: u8, turn: u32) -> (r:
        u8) {
        agent(state)
    }
}

/// An agent that always plays the same column.
pub struct FixedAgent {
    pub column: u8,
}

impl Agent for FixedAgent {
    open spec fn choice(
        &self,
        state: (Board, u8, u8, Seq<u8>),
        meta: (Seq<u8>, Seq<u8>, Seq<u8>),
        role: u8,
        turn: u32,
    ) -> u8 {
        self.column
    }

    fn decide(&self, state: &GamePublicState, meta: &ParticipantMetadata, role: u8, turn: u32) -> (r:
        u8) {
        self.column
    }
}

} // verus!
