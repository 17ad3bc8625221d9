use vstd::prelude::*;

verus! {

/// Marker stored in `winner` when the grid filled up without a line of four.
pub const DRAW: u8 = 3;

/// A grid of 6 rows and 7 columns, row 0 on top; 0 is an empty cell, 1 and 2
/// hold the pieces of the two players.
pub type Board = [[u8; 7]; 6];

/// The public state of a grid-drop game: the grid, whose turn it is (1 or 2),
/// the outcome (0 while running, 1 or 2 for a winner, 3 for a draw) and the
/// columns played so far, in order.
pub struct GamePublicState {
    pub board: Board,
    pub current_player: u8,
    pub winner: u8,
    pub moves: Vec<u8>,
}

/// State kept out of sight of the agents: the number of pieces placed.
pub struct GamePrivateState {
    pub moves: u32,
}

/// A move of the game: drop a piece into a column (0 to 6).
pub enum GameAction {
    DropPiece(u8),
}

/// Cell `(r, c)` of a grid.
pub open spec fn cell(board: Board, r: int, c: int) -> u8 {
    board@[r]@[c]
}

pub open spec fn is_empty_board(board: Board) -> bool {
    forall|r: int, c: int| 0 <= r < 6 && 0 <= c < 7 ==> cell(board, r, c) == 0
}

/// `b2` is `b1` with cell `(r, c)` set to `v`.
pub open spec fn board_updated(b1: Board, b2: Board, r: int, c: int, v: u8) -> bool {
    forall|i: int, j: int|
        0 <= i < 6 && 0 <= j < 7 ==> #[trigger] cell(b2, i, j) == if i == r && j == c {
            v
        } else {
            cell(b1, i, j)
        }
}

/// Reads cell `(r, c)`.
pub fn board_cell(board: &Board, r: usize, c: usize) -> (v: u8)
    requires
        r < 6,
        c < 7,
    ensures
        v == cell(*board, r as int, c as int),
{
    board[r][c]
}

/// Writes `v` into cell `(r, c)`.
pub fn set_cell(board: &mut Board, r: usize, c: usize, v: u8)
    requires
        r < 6,
        c < 7,
    ensures
        board_updated(*old(board), *final(board), r as int, c as int, v),
{
    board[r][c] = v;
}

impl GamePublicState {
    /// The state a game starts from: an empty grid, player 1 to move, no outcome
    /// and no moves.
    pub fn initial() -> (r: Self)
        ensures
            is_empty_board(r.board),
            r.current_player == 1,
            r.winner == 0,
            r.moves@.len() == 0,
    {
        let row: [u8; 7] = [0u8; 7];
        let board: Board = [row; 6];
        GamePublicState { board, current_player: 1, winner: 0, moves: Vec::new() }
    }

    /// The game has an outcome.
    pub fn is_terminal(&self) -> (r: bool)
        ensures
            r == (self.winner != 0),
    {
        self.winner != 0
    }

    /// The columns played so far, in order.
    pub fn actions(&self) -> (r: Vec<u8>)
        ensures
            r@ == self.moves@,
    {
        let mut r: Vec<u8> = Vec::new();
        let mut i: usize = 0;
        while i < self.moves.len()
            invariant
                i <= self.moves@.len(),
                r@ == self.moves@.subrange(0, i as int),
            decreases self.moves@.len() - i,
        {
            r.push(self.moves[i]);
            i = i + 1;
            assert(r@ =~= self.moves@.subrange(0, i as int));
        }
        assert(r@ =~= self.moves@);
        r
    }
}

impl Default for GamePublicState {
    fn default() -> (r: Self)
        ensures
            is_empty_board(r.board),
            r.current_player == 1,
            r.winner == 0,
            r.moves@.len() == 0,
    {
        GamePublicState::initial()
    }
}

impl GamePrivateState {
    /// No piece placed yet.
    pub fn initial() -> (r: Self)
        ensures
            r.moves == 0,
    {
        GamePrivateState { moves: 0 }
    }
}

impl Default for GamePrivateState {
    fn default() -> (r: Self)
        ensures
            r.moves == 0,
    {
        GamePrivateState::initial()
    }
}

/// The columns among the first `n` whose top cell is empty, in order.
pub open spec fn open_columns_upto(b: Board, n: int) -> Seq<usize>
    decreases n,
{
    if n <= 0 {
        Seq::empty()
    } else if cell(b, 0, n - 1) == 0 {
        open_columns_upto(b, n - 1).push((n - 1) as usize)
    } else {
        open_columns_upto(b, n - 1)
    }
}

/// The columns that can take another piece, in order.
pub open spec fn open_columns(b: Board) -> Seq<usize> {
    open_columns_upto(b, 7)
}

/// Some column can take another piece.
pub open spec fn has_open_column(b: Board) -> bool {
    exists|c: int| 0 <= c < 7 && cell(b, 0, c) == 0
}

pub proof fn lemma_open_columns(b: Board, n: int)
    requires
        0 <= n <= 7,
    ensures
        forall|i: int|
            0 <= i < open_columns_upto(b, n).len() ==> #[trigger] open_columns_upto(b, n)[i] < n
                && cell(b, 0, open_columns_upto(b, n)[i] as int) == 0,
        (exists|c: int| 0 <= c < n && cell(b, 0, c) == 0) ==> open_columns_upto(b, n).len() > 0,
        open_columns_upto(b, n).len() <= n,
    decreases n,
{
    if n > 0 {
        lemma_open_columns(b, n - 1);
    }
}

/// The columns that can take another piece, in order.
pub fn valid_moves(board: &Board) -> (r: Vec<usize>)
    ensures
        r@ == open_columns(*board),
{
    let mut r: Vec<usize> = Vec::new();
    let mut c: usize = 0;
    while c < 7
        invariant
            c <= 7,
            r@ == open_columns_upto(*board, c as int),
        decreases 7 - c,
    {
        if board_cell(board, 0, c) == 0 {
            r.push(c);
        }
        c = c + 1;
    }
    r
}

impl GameAction {
    /// Reads one move from the front of `action`: its first byte is the column.
    /// Returns the move and the rest of the bytes.
    pub fn deserialize(action: &[u8]) -> (r: Result<(GameAction, &[u8]), &'static str>)
        ensures
            action@.len() == 0 ==> r is Err,
            action@.len() > 0 ==> (r matches Ok((GameAction::DropPiece(c), rest)) && c
                == action@[0] && rest@ == action@.subrange(1, action@.len() as int)),
    {
        if action.len() == 0 {
            return Err("empty action");
        }
        let column = action[0];
        let rest = vstd::slice::slice_subrange(action, 1, action.len());
        Ok((GameAction::DropPiece(column), rest))
    }
}

} // verus!
