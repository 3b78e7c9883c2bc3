//! The board: an 8×8 grid of tiles, row 0 being Black's back rank and row 7
//! White's, together with its mathematical model.
//!
//! A board is modelled by two values: the partial map from squares to the
//! pieces standing on them ([`pieces_of`]) and the set of highlighted squares
//! ([`lit_of`]). Every contract of the crate speaks of these two.

use vstd::prelude::*;

verus! {

/// Number of rows, and of columns, of the board.
pub const BOARD_SIZE: usize = 8;

/// The six kinds of piece.
#[derive(Clone, Copy, Debug, PartialEq, Eq, Structural)]
pub enum ChessPiece {
    King,
    Queen,
    Rook,
    Bishop,
    Knight,
    Pawn,
}

/// The two sides. White moves first and starts on rows 6 and 7.
#[derive(Clone, Copy, Debug, PartialEq, Eq, Structural)]
pub enum Player {
    White,
    Black,
}

/// A piece: its kind and the side it belongs to.
#[derive(Clone, Copy, Debug, PartialEq, Eq, Structural)]
pub struct PieceState {
    pub owner: Player,
    pub piece: ChessPiece,
}

/// One square of the board: the piece on it, if any, and whether the square
/// is highlighted as a destination of the selected piece.
#[derive(Clone, Copy, Debug, PartialEq, Eq, Structural)]
pub struct TileState {
    pub piece_state: Option<PieceState>,
    pub high_light: bool,
}

/// A square: `h` is the row, `w` the column.
#[derive(Clone, Copy, Debug, PartialEq, Eq, Structural)]
pub struct Point {
    pub h: usize,
    pub w: usize,
}

/// Rows of tiles, row-major.
pub type Board = Vec<Vec<TileState>>;

impl Player {
    /// The other player.
    pub open spec fn other(self) -> Player {
        match self {
            Player::White => Player::Black,
            Player::Black => Player::White,
        }
    }

    /// The other player.
    pub fn opponent(self) -> (r: Player)
        ensures
            r == self.other(),
    {
        match self {
            Player::White => Player::Black,
            Player::Black => Player::White,
        }
    }
}

/// The square in row `h` and column `w`, for coordinates that lie on the board.
pub open spec fn square(h: int, w: int) -> Point {
    Point { h: h as usize, w: w as usize }
}

/// `q` is one of the 64 squares.
pub open spec fn on_board(q: Point) -> bool {
    q.h < BOARD_SIZE && q.w < BOARD_SIZE
}

/// A board has eight rows of eight tiles.
pub open spec fn board_wf(board: Board) -> bool {
    &&& board.len() == BOARD_SIZE
    &&& forall|h: int| 0 <= h < BOARD_SIZE ==> (#[trigger] board[h]).len() == BOARD_SIZE
}

/// The pieces on the board, keyed by the square each stands on.
#[verifier::opaque]
pub open spec fn pieces_of(board: Board) -> Map<Point, PieceState> {
    Map::new(
        |q: Point| on_board(q) && board[q.h as int][q.w as int].piece_state is Some,
        |q: Point| board[q.h as int][q.w as int].piece_state->0,
    )
}

/// The highlighted squares of the board.
#[verifier::opaque]
pub open spec fn lit_of(board: Board) -> Set<Point> {
    Set::new(|q: Point| on_board(q) && board[q.h as int][q.w as int].high_light)
}

/// What stands on `q`, if anything.
pub open spec fn occupant(pieces: Map<Point, PieceState>, q: Point) -> Option<PieceState> {
    if pieces.dom().contains(q) {
        Some(pieces[q])
    } else {
        None
    }
}

/// The piece that opens the game in column `w` of a back rank.
pub open spec fn back_rank_piece(w: int) -> ChessPiece {
    if w == 0 || w == 7 {
        ChessPiece::Rook
    } else if w == 1 || w == 6 {
        ChessPiece::Knight
    } else if w == 2 || w == 5 {
        ChessPiece::Bishop
    } else if w == 3 {
        ChessPiece::Queen
    } else {
        ChessPiece::King
    }
}

/// The standard opening position: Black on rows 0 and 1, White on rows 6 and
/// 7, pawns on the inner of the two rows.
pub open spec fn initial_pieces() -> Map<Point, PieceState> {
    Map::new(
        |q: Point| on_board(q) && (q.h <= 1 || q.h >= 6),
        |q: Point|
            PieceState {
                owner: if q.h <= 1 {
                    Player::Black
                } else {
                    Player::White
                },
                piece: if q.h == 1 || q.h == 6 {
                    ChessPiece::Pawn
                } else {
                    back_rank_piece(q.w as int)
                },
            },
    )
}

/// The tile that `pieces` and `lit` put on square `q`.
pub open spec fn tile_of(pieces: Map<Point, PieceState>, lit: Set<Point>, q: Point) -> TileState {
    TileState { piece_state: occupant(pieces, q), high_light: lit.contains(q) }
}

/// `board` is the well-formed board whose model is `pieces` and `lit`.
pub open spec fn board_shows(board: Board, pieces: Map<Point, PieceState>, lit: Set<Point>) -> bool {
    &&& board_wf(board)
    &&& pieces_of(board) == pieces
    &&& lit_of(board) == lit
}

/// The two model values say all there is to say of a well-formed board: two
/// boards with the same pieces and the same highlights hold the same tiles.
pub proof fn lemma_model_determines_board(a: Board, b: Board)
    requires
        board_wf(a),
        board_wf(b),
        pieces_of(a) == pieces_of(b),
        lit_of(a) == lit_of(b),
    ensures
        forall|h: int, w: int| 0 <= h < 8 && 0 <= w < 8 ==> a[h][w] == b[h][w],
{
    reveal(pieces_of);
    reveal(lit_of);
    assert forall|h: int, w: int| 0 <= h < 8 && 0 <= w < 8 implies a[h][w] == b[h][w] by {
        let q = square(h, w);
        assert(on_board(q) && q.h == h && q.w == w);
        assert(a[h][w].high_light == lit_of(a).contains(q));
        assert(b[h][w].high_light == lit_of(b).contains(q));
        assert(a[h][w].piece_state is Some == pieces_of(a).dom().contains(q));
        assert(b[h][w].piece_state is Some == pieces_of(b).dom().contains(q));
        if pieces_of(a).dom().contains(q) {
            assert(a[h][w].piece_state->0 == pieces_of(a)[q]);
            assert(b[h][w].piece_state->0 == pieces_of(b)[q]);
        }
        assert(a[h][w].piece_state == b[h][w].piece_state);
    }
}

/// A fresh board in the standard opening position, nothing highlighted.
pub fn init_board() -> (board: Board)
    ensures
        board_shows(board, initial_pieces(), Set::empty()),
{
    let blank = TileState { piece_state: None, high_light: false };
    let mut board: Board = vec![vec![blank; BOARD_SIZE]; BOARD_SIZE];
    let chess_seq: [ChessPiece; 8] = [
        ChessPiece::Rook,
        ChessPiece::Knight,
        ChessPiece::Bishop,
        ChessPiece::Queen,
        ChessPiece::King,
        ChessPiece::Bishop,
        ChessPiece::Knight,
        ChessPiece::Rook,
    ];
    let mut i: usize = 0;
    while i < BOARD_SIZE
        invariant
            i <= BOARD_SIZE,
            board_wf(board),
            blank == (TileState { piece_state: None, high_light: false }),
            forall|w: int| 0 <= w < 8 ==> #[trigger] chess_seq[w] == back_rank_piece(w),
            forall|h: int, w: int|
                0 <= h < 8 && 0 <= w < 8 ==> #[trigger] board[h][w] == (if w < i {
                    tile_of(initial_pieces(), Set::empty(), square(h, w))
                } else {
                    blank
                }),
        decreases BOARD_SIZE - i,
    {
        board[0][i] = TileState {
            piece_state: Some(PieceState { owner: Player::Black, piece: chess_seq[i] }),
            high_light: false,
        };
        board[1][i] = TileState {
            piece_state: Some(PieceState { owner: Player::Black, piece: ChessPiece::Pawn }),
            high_light: false,
        };
        board[6][i] = TileState {
            piece_state: Some(PieceState { owner: Player::White, piece: ChessPiece::Pawn }),
            high_light: false,
        };
        board[7][i] = TileState {
            piece_state: Some(PieceState { owner: Player::White, piece: chess_seq[i] }),
            high_light: false,
        };
        i += 1;
    }
    proof {
        reveal(pieces_of);
        reveal(lit_of);
        assert(pieces_of(board) =~= initial_pieces());
        assert(lit_of(board) =~= Set::empty());
    }
    board
}

/// A copy of `board` in which every square listed in `light` has its highlight
/// set to `value`; every other tile is as it was.
pub fn update_high_light(board: &Board, light: Vec<Point>, value: bool) -> (out: Board)
    requires
        board_wf(*board),
        forall|q: Point| #[trigger] light@.contains(q) ==> on_board(q),
    ensures
        board_shows(
            out,
            pieces_of(*board),
            if value {
                lit_of(*board).union(light@.to_set())
            } else {
                lit_of(*board).difference(light@.to_set())
            },
        ),
{
    let mut out: Board = board.clone();
    assert(forall|h: int, w: int| 0 <= h < 8 && 0 <= w < 8 ==> out[h][w] == board[h][w]);
    assert forall|j: int| 0 <= j < light.len() implies on_board(#[trigger] light[j]) by {
        assert(light@.contains(light[j]));
    }
    let mut i: usize = 0;
    while i < light.len()
        invariant
            i <= light.len(),
            board_wf(*board),
            board_wf(out),
            forall|j: int| 0 <= j < light.len() ==> on_board(#[trigger] light[j]),
            forall|h: int, w: int|
                0 <= h < 8 && 0 <= w < 8 ==> (#[trigger] out[h][w]).piece_state
                    == board[h][w].piece_state,
            forall|h: int, w: int|
                0 <= h < 8 && 0 <= w < 8 ==> (#[trigger] out[h][w]).high_light == (if light@.take(
                    i as int,
                ).contains(square(h, w)) {
                    value
                } else {
                    board[h][w].high_light
                }),
        decreases light.len() - i,
    {
        let p = light[i];
        out[p.h][p.w].high_light = value;
        proof {
            let before = light@.take(i as int);
            let after = light@.take(i + 1);
            assert(after =~= before.push(p));
            assert forall|q: Point| after.contains(q) <==> before.contains(q) || q == p by {
                vstd::seq_lib::lemma_seq_contains_after_push(before, p, q);
            }
        }
        i += 1;
    }
    proof {
        reveal(pieces_of);
        reveal(lit_of);
        assert(light@.take(light.len() as int) =~= light@);
        assert(pieces_of(out) =~= pieces_of(*board));
        if value {
            assert(lit_of(out) =~= lit_of(*board).union(light@.to_set()));
        } else {
            assert(lit_of(out) =~= lit_of(*board).difference(light@.to_set()));
        }
    }
    out
}

/// Whether `board` has eight rows of eight tiles.
pub fn is_board(board: &Board) -> (ok: bool)
    ensures
        ok == board_wf(*board),
{
    if board.len() != BOARD_SIZE {
        return false;
    }
    let mut h: usize = 0;
    while h < BOARD_SIZE
        invariant
            board.len() == BOARD_SIZE,
            h <= BOARD_SIZE,
            forall|i: int| 0 <= i < h ==> (#[trigger] board[i]).len() == BOARD_SIZE,
        decreases BOARD_SIZE - h,
    {
        if board[h].len() != BOARD_SIZE {
            return false;
        }
        h += 1;
    }
    true
}

/// What stands on square `q`, if anything.
pub fn piece_at(board: &Board, q: Point) -> (piece: Option<PieceState>)
    requires
        board_wf(*board),
        on_board(q),
    ensures
        piece == occupant(pieces_of(*board), q),
{
    proof {
        reveal(pieces_of);
    }
    board[q.h][q.w].piece_state
}

/// Replaces the tile on square `q`.
pub fn put(board: &mut Board, q: Point, tile: TileState)
    requires
        board_wf(*old(board)),
        on_board(q),
    ensures
        board_shows(
            *final(board),
            match tile.piece_state {
                Some(x) => pieces_of(*old(board)).insert(q, x),
                None => pieces_of(*old(board)).remove(q),
            },
            if tile.high_light {
                lit_of(*old(board)).insert(q)
            } else {
                lit_of(*old(board)).remove(q)
            },
        ),
{
    board[q.h][q.w] = tile;
    proof {
        reveal(pieces_of);
        reveal(lit_of);
        let before = *old(board);
        assert(forall|h: int, w: int|
            0 <= h < 8 && 0 <= w < 8 && !(h == q.h && w == q.w) ==> board[h][w] == before[h][w]);
        match tile.piece_state {
            Some(x) => {
                assert(pieces_of(*board) =~= pieces_of(before).insert(q, x));
            },
            None => {
                assert(pieces_of(*board) =~= pieces_of(before).remove(q));
            },
        }
        if tile.high_light {
            assert(lit_of(*board) =~= lit_of(before).insert(q));
        } else {
            assert(lit_of(*board) =~= lit_of(before).remove(q));
        }
    }
}

/// Puts `piece` on square `q`, whose highlight stays as it is.
pub fn place(board: &mut Board, q: Point, piece: PieceState)
    requires
        board_wf(*old(board)),
        on_board(q),
    ensures
        board_shows(*final(board), pieces_of(*old(board)).insert(q, piece), lit_of(*old(board))),
{
    board[q.h][q.w].piece_state = Some(piece);
    proof {
        reveal(pieces_of);
        reveal(lit_of);
        let before = *old(board);
        assert(forall|h: int, w: int|
            0 <= h < 8 && 0 <= w < 8 && !(h == q.h && w == q.w) ==> board[h][w] == before[h][w]);
        assert(pieces_of(*board) =~= pieces_of(before).insert(q, piece));
        assert(lit_of(*board) =~= lit_of(before));
    }
}

} // verus!
