//! Noughts and crosses on a board of three by three, as an example of a game
//! that the engine can run.

use vstd::prelude::*;
use vstd::bytes::lemma_auto_spec_u64_to_from_le_bytes;
use vstd::bytes::spec_u64_from_le_bytes;
use vstd::bytes::spec_u64_to_le_bytes;
use vstd::bytes::u64_from_le_bytes;
use vstd::bytes::u64_to_le_bytes;
use vstd::slice::slice_subrange;
use crate::identity::AgentKey;
use crate::turn_based_game::GameStatus;
use crate::turn_based_game::GameStatusView;
use crate::turn_based_game::TurnBasedGame;

verus! {

/// The board has this many rows and this many columns.
pub const BOARD_SIZE: usize = 3;

/// The dense form of a board has this many rows and this many columns.
pub const DENSE_SIZE: usize = 8;

/// A mark on the board, by its column and its row.
#[derive(Clone, Copy, Debug, PartialEq, Eq)]
pub struct Piece {
    pub x: usize,
    pub y: usize,
}

/// What a player can do when it is their turn.
#[derive(Clone, Copy, Debug, PartialEq, Eq)]
pub enum TicTacToeMove {
    Place(Piece),
    Resign,
}

/// Why a piece cannot be placed.
#[derive(Clone, Copy, Debug, PartialEq, Eq)]
pub enum TicTacToeError {
    /// The position is not on the board.
    OutOfBounds,
    /// The position already holds a piece.
    Occupied,
}

/// A game of noughts and crosses: each player with the pieces they have
/// placed, and the player who gave up, if one did.
#[derive(Clone, Debug, PartialEq, Eq)]
pub struct TicTacToe {
    pub player_1: AgentKey,
    pub pieces_1: Vec<Piece>,
    pub player_2: AgentKey,
    pub pieces_2: Vec<Piece>,
    pub player_resigned: Option<AgentKey>,
}

/// A [`TicTacToe`] as mathematical values.
pub struct TicTacToeView {
    pub player_1: Seq<u8>,
    pub pieces_1: Seq<Piece>,
    pub player_2: Seq<u8>,
    pub pieces_2: Seq<Piece>,
    pub player_resigned: Option<Seq<u8>>,
}

impl View for TicTacToe {
    type V = TicTacToeView;

    open spec fn view(&self) -> TicTacToeView {
        TicTacToeView {
            player_1: self.player_1@,
            pieces_1: self.pieces_1@,
            player_2: self.player_2@,
            pieces_2: self.pieces_2@,
            player_resigned: self.player_resigned.deep_view(),
        }
    }
}

/// One of the pieces stands at column `x`, row `y`.
pub open spec fn holds(pieces: Seq<Piece>, x: int, y: int) -> bool {
    exists|k: int| 0 <= k < pieces.len() && (#[trigger] pieces[k]).x == x && pieces[k].y == y
}

/// What stands at column `x`, row `y`: 0 for nothing, 1 for a piece of the
/// first player, 2 for a piece of the second.
pub open spec fn cell(state: TicTacToeView, x: int, y: int) -> u8 {
    if holds(state.pieces_2, x, y) {
        2
    } else if holds(state.pieces_1, x, y) {
        1
    } else {
        0
    }
}

/// `mark` fills a whole row, a whole column or one of the two diagonals.
pub open spec fn owns_line(state: TicTacToeView, mark: u8) -> bool {
    ||| exists|x: int|
        0 <= x < 3 && cell(state, x, 0) == mark && cell(state, x, 1) == mark && #[trigger] cell(
            state,
            x,
            2,
        ) == mark
    ||| exists|y: int|
        0 <= y < 3 && cell(state, 0, y) == mark && cell(state, 1, y) == mark && #[trigger] cell(
            state,
            2,
            y,
        ) == mark
    ||| cell(state, 0, 0) == mark && cell(state, 1, 1) == mark && cell(state, 2, 2) == mark
    ||| cell(state, 0, 2) == mark && cell(state, 1, 1) == mark && cell(state, 2, 0) == mark
}

/// The player who has filled a line, if one has. Where both have, which no
/// game of legal moves reaches, the first player is named.
pub open spec fn winner_spec(state: TicTacToeView) -> Option<Seq<u8>> {
    if owns_line(state, 1) {
        Some(state.player_1)
    } else if owns_line(state, 2) {
        Some(state.player_2)
    } else {
        None
    }
}

/// The board holds `mark` wherever one of `pieces` stands, and what `old`
/// holds elsewhere.
pub open spec fn marked(
    board: [[u8; 8]; 8],
    before: [[u8; 8]; 8],
    pieces: Seq<Piece>,
    mark: u8,
) -> bool {
    forall|x: int, y: int|
        0 <= x < 8 && 0 <= y < 8 ==> #[trigger] board[x][y] == (if holds(pieces, x, y) {
            mark
        } else {
            before[x][y]
        })
}

fn mark_pieces(board: &mut [[u8; 8]; 8], pieces: &Vec<Piece>, mark: u8)
    ensures
        marked(*final(board), *old(board), pieces@, mark),
{
    let ghost before = *board;
    let mut i: usize = 0;
    while i < pieces.len()
        invariant
            i <= pieces.len(),
            marked(*board, before, pieces@.take(i as int), mark),
        decreases pieces.len() - i,
    {
        let piece = pieces[i];
        let ghost previous = *board;
        if piece.x < DENSE_SIZE && piece.y < DENSE_SIZE {
            let mut column = board[piece.x];
            column[piece.y] = mark;
            board[piece.x] = column;
        }
        proof {
            let done = pieces@.take(i as int);
            let next = pieces@.take(i + 1);
            assert(next[i as int] == piece);
            assert forall|x: int, y: int| 0 <= x < 8 && 0 <= y < 8 implies #[trigger] board[x][y]
                == (if holds(next, x, y) {
                mark
            } else {
                before[x][y]
            }) by {
                assert(previous[x][y] == (if holds(done, x, y) {
                    mark
                } else {
                    before[x][y]
                }));
                if holds(done, x, y) {
                    let k = choose|k: int|
                        0 <= k < done.len() && (#[trigger] done[k]).x == x && done[k].y == y;
                    assert(next[k] == done[k]);
                }
                if holds(next, x, y) {
                    let k = choose|k: int|
                        0 <= k < next.len() && (#[trigger] next[k]).x == x && next[k].y == y;
                    if k < i {
                        assert(done[k] == next[k]);
                    }
                }
            }
        }
        i += 1;
    }
    assert(pieces@.take(pieces.len() as int) =~= pieces@);
}

impl TicTacToe {
    /// The board as rows of cells: 0 for nothing, 1 for a piece of the first
    /// player, 2 for a piece of the second. A piece that stands outside the
    /// dense board is left out.
    pub fn to_dense(&self) -> (board: [[u8; 8]; 8])
        ensures
            forall|x: int, y: int|
                0 <= x < 8 && 0 <= y < 8 ==> #[trigger] board[x][y] == cell(self@, x, y),
    {
        let mut board = [[0u8; 8]; 8];
        let ghost empty = board;
        mark_pieces(&mut board, &self.pieces_1, 1);
        let ghost first = board;
        mark_pieces(&mut board, &self.pieces_2, 2);
        proof {
            assert forall|x: int, y: int| 0 <= x < 8 && 0 <= y < 8 implies #[trigger] board[x][y]
                == cell(self@, x, y) by {
                assert(empty[x][y] == 0);
                assert(first[x][y] == (if holds(self.pieces_1@, x, y) {
                    1u8
                } else {
                    empty[x][y]
                }));
            }
        }
        board
    }
}

/// Whether `mark` fills a line of the board.
fn line_filled(board: &[[u8; 8]; 8], mark: u8, Ghost(state): Ghost<TicTacToeView>) -> (filled: bool)
    requires
        forall|x: int, y: int|
            0 <= x < 8 && 0 <= y < 8 ==> #[trigger] board[x][y] == cell(state, x, y),
    ensures
        filled == owns_line(state, mark),
{
    let mut i: usize = 0;
    while i < BOARD_SIZE
        invariant
            i <= 3,
            forall|x: int, y: int|
                0 <= x < 8 && 0 <= y < 8 ==> #[trigger] board[x][y] == cell(state, x, y),
            forall|x: int|
                0 <= x < i ==> !(cell(state, x, 0) == mark && cell(state, x, 1) == mark
                    && #[trigger] cell(state, x, 2) == mark),
            forall|y: int|
                0 <= y < i ==> !(cell(state, 0, y) == mark && cell(state, 1, y) == mark
                    && #[trigger] cell(state, 2, y) == mark),
        decreases 3 - i,
    {
        if board[i][0] == mark && board[i][1] == mark && board[i][2] == mark {
            assert(cell(state, i as int, 0) == mark && cell(state, i as int, 1) == mark && cell(
                state,
                i as int,
                2,
            ) == mark);
            return true;
        }
        if board[0][i] == mark && board[1][i] == mark && board[2][i] == mark {
            assert(cell(state, 0, i as int) == mark && cell(state, 1, i as int) == mark && cell(
                state,
                2,
                i as int,
            ) == mark);
            return true;
        }
        i += 1;
    }
    if board[0][0] == mark && board[1][1] == mark && board[2][2] == mark {
        return true;
    }
    board[0][2] == mark && board[1][1] == mark && board[2][0] == mark
}

impl Piece {
    /// Whether the position is on the board.
    pub fn is_in_bounds(&self) -> (on_board: Result<(), TicTacToeError>)
        ensures
            on_board == (if self.x < 3 && self.y < 3 {
                Ok::<(), TicTacToeError>(())
            } else {
                Err::<(), TicTacToeError>(TicTacToeError::OutOfBounds)
            }),
    {
        if self.x < BOARD_SIZE && self.y < BOARD_SIZE {
            Ok(())
        } else {
            Err(TicTacToeError::OutOfBounds)
        }
    }

    /// Whether the position, which is on the dense board, is free.
    pub fn is_empty(&self, game_state: &TicTacToe) -> (free: Result<(), TicTacToeError>)
        requires
            self.x < 8,
            self.y < 8,
        ensures
            free == (if cell(game_state@, self.x as int, self.y as int) == 0 {
                Ok::<(), TicTacToeError>(())
            } else {
                Err::<(), TicTacToeError>(TicTacToeError::Occupied)
            }),
    {
        let board = game_state.to_dense();
        if board[self.x][self.y] == 0 {
            Ok(())
        } else {
            Err(TicTacToeError::Occupied)
        }
    }
}

impl TicTacToe {
    /// The player who has filled a line, if one has.
    pub fn winner(&self) -> (winner: Option<AgentKey>)
        ensures
            winner.deep_view() == winner_spec(self@),
    {
        let board = self.to_dense();
        if line_filled(&board, 1, Ghost(self@)) {
            Some(self.player_1.duplicate())
        } else if line_filled(&board, 2, Ghost(self@)) {
            Some(self.player_2.duplicate())
        } else {
            None
        }
    }
}

/// The player who plays against `player`.
pub open spec fn opponent_of(state: TicTacToeView, player: Seq<u8>) -> Seq<u8> {
    if player == state.player_1 {
        state.player_2
    } else {
        state.player_1
    }
}

/// The state with one more piece of the player `author`; who is not the first
/// player plays as the second.
pub open spec fn with_piece(state: TicTacToeView, piece: Piece, author: Seq<u8>) -> TicTacToeView {
    if author == state.player_1 {
        TicTacToeView { pieces_1: state.pieces_1.push(piece), ..state }
    } else {
        TicTacToeView { pieces_2: state.pieces_2.push(piece), ..state }
    }
}

impl TurnBasedGame for TicTacToe {
    type GameMove = TicTacToeMove;

    type RuleError = TicTacToeError;

    open spec fn min_players_spec() -> Option<usize> {
        Some(2)
    }

    open spec fn max_players_spec() -> Option<usize> {
        Some(2)
    }

    open spec fn initial_spec(players: Seq<Seq<u8>>) -> TicTacToeView {
        TicTacToeView {
            player_1: players[0],
            pieces_1: Seq::empty(),
            player_2: players[1],
            pieces_2: Seq::empty(),
            player_resigned: None,
        }
    }

    /// One byte 1 is a resignation. A byte 0 and then the column and the row,
    /// each as eight bytes with the lowest first, is a piece at that place.
    open spec fn decode_spec(bytes: Seq<u8>) -> Option<TicTacToeMove> {
        if bytes.len() == 1 && bytes[0] == 1 {
            Some(TicTacToeMove::Resign)
        } else if bytes.len() == 17 && bytes[0] == 0 {
            let x = spec_u64_from_le_bytes(bytes.subrange(1, 9));
            let y = spec_u64_from_le_bytes(bytes.subrange(9, 17));
            if x <= usize::MAX && y <= usize::MAX {
                Some(TicTacToeMove::Place(Piece { x: x as usize, y: y as usize }))
            } else {
                None
            }
        } else {
            None
        }
    }

    open spec fn encode_spec(game_move: TicTacToeMove) -> Seq<u8> {
        match game_move {
            TicTacToeMove::Resign => seq![1u8],
            TicTacToeMove::Place(piece) => seq![0u8] + spec_u64_to_le_bytes(piece.x as u64)
                + spec_u64_to_le_bytes(piece.y as u64),
        }
    }

    /// A piece goes on a free position of the board, to the player who
    /// places it. A resignation is always allowed.
    open spec fn apply_move_spec(
        state: TicTacToeView,
        game_move: TicTacToeMove,
        author: Seq<u8>,
        players: Seq<Seq<u8>>,
    ) -> Result<TicTacToeView, TicTacToeError> {
        match game_move {
            TicTacToeMove::Place(piece) => if !(piece.x < 3 && piece.y < 3) {
                Err(TicTacToeError::OutOfBounds)
            } else if cell(state, piece.x as int, piece.y as int) != 0 {
                Err(TicTacToeError::Occupied)
            } else {
                Ok(with_piece(state, piece, author))
            },
            TicTacToeMove::Resign => Ok(
                TicTacToeView { player_resigned: Some(author), ..state },
            ),
        }
    }

    /// The game ends when a player gives up, in favour of the other one, or
    /// when a player has filled a line, in favour of that player.
    open spec fn status_spec(state: TicTacToeView) -> GameStatusView {
        match state.player_resigned {
            Some(resigned) => GameStatusView::Finished {
                winners: seq![opponent_of(state, resigned)],
            },
            None => match winner_spec(state) {
                Some(winner) => GameStatusView::Finished { winners: seq![winner] },
                None => GameStatusView::Ongoing,
            },
        }
    }

    proof fn lemma_codec_round_trip(game_move: TicTacToeMove) {
        lemma_auto_spec_u64_to_from_le_bytes();
        match game_move {
            TicTacToeMove::Resign => {},
            TicTacToeMove::Place(piece) => {
                let bx = spec_u64_to_le_bytes(piece.x as u64);
                let by = spec_u64_to_le_bytes(piece.y as u64);
                let bytes = Self::encode_spec(game_move);
                assert(bytes.subrange(1, 9) =~= bx);
                assert(bytes.subrange(9, 17) =~= by);
            },
        }
    }

    fn min_players() -> (min: Option<usize>) {
        Some(2)
    }

    fn max_players() -> (max: Option<usize>) {
        Some(2)
    }

    fn initial(players: &Vec<AgentKey>) -> (state: TicTacToe) {
        TicTacToe {
            player_1: players[0].duplicate(),
            pieces_1: Vec::new(),
            player_2: players[1].duplicate(),
            pieces_2: Vec::new(),
            player_resigned: None,
        }
    }

    fn decode_move(bytes: &Vec<u8>) -> (game_move: Option<TicTacToeMove>) {
        if bytes.len() == 1 && bytes[0] == 1 {
            Some(TicTacToeMove::Resign)
        } else if bytes.len() == 17 && bytes[0] == 0 {
            let x = u64_from_le_bytes(slice_subrange(bytes.as_slice(), 1, 9));
            let y = u64_from_le_bytes(slice_subrange(bytes.as_slice(), 9, 17));
            if x <= usize::MAX as u64 && y <= usize::MAX as u64 {
                Some(TicTacToeMove::Place(Piece { x: x as usize, y: y as usize }))
            } else {
                None
            }
        } else {
            None
        }
    }

    fn encode_move(game_move: &TicTacToeMove) -> (bytes: Vec<u8>) {
        let mut bytes: Vec<u8> = Vec::new();
        match game_move {
            TicTacToeMove::Resign => {
                bytes.push(1);
                assert(bytes@ =~= seq![1u8]);
            },
            TicTacToeMove::Place(piece) => {
                bytes.push(0);
                let mut column = u64_to_le_bytes(piece.x as u64);
                let mut row = u64_to_le_bytes(piece.y as u64);
                bytes.append(&mut column);
                bytes.append(&mut row);
                assert(bytes@ =~= seq![0u8] + spec_u64_to_le_bytes(piece.x as u64)
                    + spec_u64_to_le_bytes(piece.y as u64));
            },
        }
        bytes
    }

    fn apply_move(
        self,
        game_move: TicTacToeMove,
        author: &AgentKey,
        players: &Vec<AgentKey>,
    ) -> (next: Result<TicTacToe, TicTacToeError>) {
        let mut game = self;
        match game_move {
            TicTacToeMove::Place(piece) => {
                match piece.is_in_bounds() {
                    Err(e) => {
                        return Err(e);
                    },
                    Ok(()) => {},
                }
                match piece.is_empty(&game) {
                    Err(e) => {
                        return Err(e);
                    },
                    Ok(()) => {},
                }
                if author.same_as(&game.player_1) {
                    game.pieces_1.push(piece);
                } else {
                    game.pieces_2.push(piece);
                }
            },
            TicTacToeMove::Resign => {
                game.player_resigned = Some(author.duplicate());
            },
        }
        Ok(game)
    }

    fn status(&self) -> (status: GameStatus) {
        let winner = match &self.player_resigned {
            Some(resigned) => {
                if resigned.same_as(&self.player_1) {
                    Some(self.player_2.duplicate())
                } else {
                    Some(self.player_1.duplicate())
                }
            },
            None => self.winner(),
        };
        match winner {
            Some(key) => {
                let mut winners: Vec<AgentKey> = Vec::new();
                let ghost bytes = key@;
                winners.push(key);
                assert(winners.deep_view() =~= seq![bytes]);
                GameStatus::Finished { winners }
            },
            None => GameStatus::Ongoing,
        }
    }
}

/// Where a piece stands when the cells of the dense board are counted
/// column by column.
pub open spec fn cell_number(piece: Piece) -> int {
    piece.x * 8 + piece.y
}

/// `pieces` lists the cells of the board that hold `mark`, each once, column
/// by column and in each column from the first row on.
pub open spec fn lists_marked(pieces: Seq<Piece>, board: [[u8; 8]; 8], mark: u8) -> bool {
    &&& forall|k: int|
        0 <= k < pieces.len() ==> (#[trigger] pieces[k]).x < 8 && pieces[k].y < 8
            && board[pieces[k].x as int][pieces[k].y as int] == mark
    &&& forall|j: int, k: int|
        0 <= j < k < pieces.len() ==> cell_number(#[trigger] pieces[j]) < cell_number(
            #[trigger] pieces[k],
        )
    &&& forall|x: int, y: int|
        0 <= x < 8 && 0 <= y < 8 && #[trigger] board[x][y] == mark ==> holds(pieces, x, y)
}

fn collect_marked(board: &[[u8; 8]; 8], mark: u8) -> (pieces: Vec<Piece>)
    ensures
        lists_marked(pieces@, *board, mark),
{
    let mut pieces: Vec<Piece> = Vec::new();
    let mut x: usize = 0;
    while x < DENSE_SIZE
        invariant
            x <= 8,
            forall|k: int|
                0 <= k < pieces.len() ==> (#[trigger] pieces@[k]).x < x && pieces@[k].y < 8
                    && board[pieces@[k].x as int][pieces@[k].y as int] == mark,
            forall|j: int, k: int|
                0 <= j < k < pieces.len() ==> cell_number(#[trigger] pieces@[j]) < cell_number(
                    #[trigger] pieces@[k],
                ),
            forall|a: int, b: int|
                0 <= a < x && 0 <= b < 8 && #[trigger] board[a][b] == mark ==> holds(
                    pieces@,
                    a,
                    b,
                ),
        decreases 8 - x,
    {
        let mut y: usize = 0;
        while y < DENSE_SIZE
            invariant
                x < 8,
                y <= 8,
                forall|k: int|
                    0 <= k < pieces.len() ==> (#[trigger] pieces@[k]).x <= x && pieces@[k].y < 8
                        && (pieces@[k].x == x ==> pieces@[k].y < y)
                        && board[pieces@[k].x as int][pieces@[k].y as int] == mark,
                forall|j: int, k: int|
                    0 <= j < k < pieces.len() ==> cell_number(#[trigger] pieces@[j]) < cell_number(
                        #[trigger] pieces@[k],
                    ),
                forall|a: int, b: int|
                    0 <= a < 8 && 0 <= b < 8 && (a < x || (a == x && b < y)) && #[trigger] board[a][b]
                        == mark ==> holds(pieces@, a, b),
            decreases 8 - y,
        {
            if board[x][y] == mark {
                let ghost before = pieces@;
                pieces.push(Piece { x, y });
                proof {
                    assert forall|a: int, b: int|
                        0 <= a < 8 && 0 <= b < 8 && (a < x || (a == x && b < y + 1))
                            && #[trigger] board[a][b] == mark implies holds(pieces@, a, b) by {
                        if a == x && b == y {
                            assert(pieces@[before.len() as int].x == a);
                        } else {
                            assert(holds(before, a, b));
                            let k = choose|k: int|
                                0 <= k < before.len() && (#[trigger] before[k]).x == a
                                    && before[k].y == b;
                            assert(pieces@[k] == before[k]);
                        }
                    }
                }
            }
            y += 1;
        }
        x += 1;
    }
    pieces
}

impl TicTacToe {
    /// The game of these two players in which the board is as given: a cell
    /// that holds 1 is a piece of the first player, one that holds 2 a piece
    /// of the second, and nobody has resigned.
    pub fn from_dense(board: [[u8; 8]; 8], player_1: AgentKey, player_2: AgentKey) -> (game:
        TicTacToe)
        ensures
            game@.player_1 == player_1@,
            game@.player_2 == player_2@,
            game@.player_resigned is None,
            lists_marked(game@.pieces_1, board, 1),
            lists_marked(game@.pieces_2, board, 2),
            forall|x: int, y: int|
                0 <= x < 8 && 0 <= y < 8 ==> cell(game@, x, y) == (if board[x][y] == 1
                    || board[x][y] == 2 {
                    #[trigger] board[x][y]
                } else {
                    0
                }),
    {
        let pieces_1 = collect_marked(&board, 1);
        let pieces_2 = collect_marked(&board, 2);
        let game = TicTacToe { player_1, pieces_1, player_2, pieces_2, player_resigned: None };
        proof {
            assert forall|x: int, y: int| 0 <= x < 8 && 0 <= y < 8 implies cell(game@, x, y) == (
            if board[x][y] == 1 || board[x][y] == 2 {
                #[trigger] board[x][y]
            } else {
                0
            }) by {
                if holds(game@.pieces_1, x, y) {
                    let k = choose|k: int|
                        0 <= k < game@.pieces_1.len() && (#[trigger] game@.pieces_1[k]).x == x
                            && game@.pieces_1[k].y == y;
                    assert(board[x][y] == 1);
                }
                if holds(game@.pieces_2, x, y) {
                    let k = choose|k: int|
                        0 <= k < game@.pieces_2.len() && (#[trigger] game@.pieces_2[k]).x == x
                            && game@.pieces_2[k].y == y;
                    assert(board[x][y] == 2);
                }
            }
        }
        game
    }

    /// Whether the game allows the move in this state.
    pub fn is_valid(&self, game_move: TicTacToeMove) -> (allowed: Result<(), TicTacToeError>)
        ensures
            allowed == (match game_move {
                TicTacToeMove::Place(piece) => if !(piece.x < 3 && piece.y < 3) {
                    Err::<(), TicTacToeError>(TicTacToeError::OutOfBounds)
                } else if cell(self@, piece.x as int, piece.y as int) != 0 {
                    Err::<(), TicTacToeError>(TicTacToeError::Occupied)
                } else {
                    Ok::<(), TicTacToeError>(())
                },
                TicTacToeMove::Resign => Ok::<(), TicTacToeError>(()),
            }),
    {
        match game_move {
            TicTacToeMove::Place(piece) => {
                match piece.is_in_bounds() {
                    Err(e) => {
                        return Err(e);
                    },
                    Ok(()) => {},
                }
                piece.is_empty(self)
            },
            TicTacToeMove::Resign => Ok(()),
        }
    }
}

/// A player who gives up has lost at once: whatever the board holds, the
/// game has ended in favour of the other player.
pub proof fn lemma_resignation_ends_game(
    state: TicTacToeView,
    author: Seq<u8>,
    players: Seq<Seq<u8>>,
)
    ensures
        TicTacToe::apply_move_spec(state, TicTacToeMove::Resign, author, players) matches Ok(next)
            && TicTacToe::status_spec(next) == (GameStatusView::Finished {
            winners: seq![opponent_of(state, author)],
        }),
{
}

/// While nobody has given up, the game has ended exactly when a player
/// has filled a row, a column or a diagonal, and then in that player's
/// favour; a board without such a line has no winner.
pub proof fn lemma_filled_line_decides(state: TicTacToeView)
    requires
        state.player_resigned is None,
    ensures
        owns_line(state, 1) ==> TicTacToe::status_spec(state) == (GameStatusView::Finished {
            winners: seq![state.player_1],
        }),
        !owns_line(state, 1) && owns_line(state, 2) ==> TicTacToe::status_spec(state) == (
        GameStatusView::Finished { winners: seq![state.player_2] }),
        !owns_line(state, 1) && !owns_line(state, 2) ==> TicTacToe::status_spec(state)
            == GameStatusView::Ongoing,
{
}

impl TicTacToeError {
    /// The reason in words.
    pub open spec fn reason_spec(self) -> Seq<char> {
        match self {
            TicTacToeError::OutOfBounds => "Position is not in bounds"@,
            TicTacToeError::Occupied => "A piece already exists at that position"@,
        }
    }

    /// The reason in words, for the player whose move was turned down.
    pub fn reason(&self) -> (text: &'static str)
        ensures
            text@ == self.reason_spec(),
    {
        match self {
            TicTacToeError::OutOfBounds => "Position is not in bounds",
            TicTacToeError::Occupied => "A piece already exists at that position",
        }
    }
}

} // verus!
