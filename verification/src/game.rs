//! The game: whose turn it is, which piece is selected, the en-passant
//! target and the two modal flags, and the four events that change them.
//!
//! The state is modelled by [`ChessView`]; each event is a function from one
//! view to the next ([`ChessView::select`], [`ChessView::confirm`],
//! [`ChessView::promote`], [`ChessView::initial`]), and [`Chess::update`]
//! is proved to follow them.
//!
//! Known gaps of the rules, kept on purpose: there is no check, checkmate,
//! stalemate, castling or draw. The game is over as soon as a king is
//! captured, which is no rule of chess. A confirmed move may name any square
//! of the board, highlighted or not, and the modal flags do not block the
//! events. In a game played by clicks the highlighted squares are at all
//! times the moves of the selected piece, so a click on a highlighted square
//! asks for a move that the piece has.

use crate::board::{
    board_shows, board_wf, init_board, initial_pieces, is_board, lit_of, on_board, piece_at,
    pieces_of, place, put, square, update_high_light, Board, ChessPiece, PieceState, Player, Point,
    TileState, BOARD_SIZE,
};
use crate::moves::{forward, last_row, magnitude, move_able, moves};
use vstd::prelude::*;

verus! {

/// Castling rights, one flag per rook and per king. No rule reads or sets
/// them yet; a reset clears them.
#[derive(Clone, Copy, Debug, PartialEq, Eq, Structural)]
pub struct Castling {
    pub w_r_rook: bool,
    pub w_l_rook: bool,
    pub w_king: bool,
    pub b_r_rook: bool,
    pub b_l_rook: bool,
    pub b_king: bool,
}

/// An event from the player.
#[derive(Clone, Copy, Debug, PartialEq, Eq, Structural)]
pub enum Message {
    /// A click on a square that is not highlighted, with the piece that the
    /// player saw on it: select that piece, or drop the selection.
    MoveAble(Point, Option<PieceState>),
    /// A click on a highlighted square: move the selected piece there.
    Move(Point),
    /// The piece that a pawn on its last row turns into.
    Promotion(PieceState),
    /// Start a new game.
    Reset,
}

/// What is shown over the board.
#[derive(Clone, Copy, Debug, PartialEq, Eq, Structural)]
pub enum Overlay {
    /// Nothing: the board takes the clicks.
    Clear,
    /// The choice of the piece that the pawn of this player turns into.
    Promotion(Player),
    /// The end of the game, with its winner.
    GameOver(Player),
}

/// A game in progress.
#[derive(Debug)]
pub struct Chess {
    /// The 64 tiles.
    pub board: Board,
    /// The player to move.
    pub turn: Player,
    /// The selected piece and the square it was selected on.
    pub choose: Option<(Point, PieceState)>,
    /// The square that a pawn skipped on the move just made, onto which an
    /// opposing pawn may capture it.
    pub en_passant: Option<Point>,
    pub castling: Castling,
    /// A pawn has reached its last row and waits for the player's choice.
    pub promotion_popup: bool,
    /// A king has been taken.
    pub game_over: bool,
}

/// The mathematical model of a [`Chess`]: the board as the pieces on it and
/// the set of highlighted squares, and the other fields as they are.
pub struct ChessView {
    pub pieces: Map<Point, PieceState>,
    pub lit: Set<Point>,
    pub turn: Player,
    pub choose: Option<(Point, PieceState)>,
    pub en_passant: Option<Point>,
    pub castling: Castling,
    pub promotion_popup: bool,
    pub game_over: bool,
}

/// All six castling flags cleared.
pub open spec fn no_castling() -> Castling {
    Castling {
        w_r_rook: false,
        w_l_rook: false,
        w_king: false,
        b_r_rook: false,
        b_l_rook: false,
        b_king: false,
    }
}

/// The square one row behind `q` for a pawn of `owner`: where it stood before
/// its last single step.
pub open spec fn behind(owner: Player, q: Point) -> Point {
    square(q.h - forward(owner), q.w as int)
}

/// A pawn of `owner` going from `from` to `to` makes the double step that
/// leaves an en-passant target: two rows in one column, ending on row 4 for
/// White and on row 3 for Black.
pub open spec fn double_step(owner: Player, from: Point, to: Point) -> bool {
    &&& magnitude(to.h - from.h) == 2
    &&& to.w == from.w
    &&& to.h == match owner {
        Player::White => 4int,
        Player::Black => 3int,
    }
}

/// The move of `piece` to `p` is an en-passant capture: a pawn moves onto the
/// en-passant target.
pub open spec fn takes_in_passing(piece: PieceState, en_passant: Option<Point>, p: Point) -> bool {
    piece.piece == ChessPiece::Pawn && en_passant == Some(p)
}

/// The en-passant target that the move of `piece` from `origin` to `p`
/// leaves: the square behind `p` after a pawn's double step, none otherwise.
pub open spec fn passed_target(piece: PieceState, origin: Point, p: Point) -> Option<Point> {
    if piece.piece == ChessPiece::Pawn && double_step(piece.owner, origin, p) {
        Some(behind(piece.owner, p))
    } else {
        None
    }
}

/// The pieces once the one on `origin` has gone to `p`: when the move takes
/// in passing, the piece behind `p` leaves the board first; then the mover
/// replaces what stood on `p` and leaves `origin` empty.
pub open spec fn moved_pieces(
    pieces: Map<Point, PieceState>,
    owner: Player,
    origin: Point,
    p: Point,
    passing: bool,
) -> Map<Point, PieceState> {
    let left = if passing {
        pieces.remove(behind(owner, p))
    } else {
        pieces
    };
    left.insert(p, left[origin]).remove(origin)
}

/// The highlights once the selected piece has gone from `origin` to `p`:
/// every square in `reach`, the squares that the piece could go to when the
/// move was made, has lost its highlight, and so have `p`, `origin` and the
/// square of a pawn taken in passing.
pub open spec fn moved_lit(
    lit: Set<Point>,
    reach: Set<Point>,
    owner: Player,
    origin: Point,
    p: Point,
    passing: bool,
) -> Set<Point> {
    let dimmed = lit.difference(reach);
    let cleared = if passing {
        dimmed.remove(behind(owner, p))
    } else {
        dimmed
    };
    cleared.remove(p).remove(origin)
}

/// A king, of either side, stands on `q`.
pub open spec fn is_king(pieces: Map<Point, PieceState>, q: Point) -> bool {
    pieces.dom().contains(q) && pieces[q].piece == ChessPiece::King
}

/// A pawn, of either side, stands on `q`.
pub open spec fn is_pawn(pieces: Map<Point, PieceState>, q: Point) -> bool {
    pieces.dom().contains(q) && pieces[q].piece == ChessPiece::Pawn
}

/// `q` is the leftmost square of row `row` that holds a pawn.
pub open spec fn leftmost_pawn(pieces: Map<Point, PieceState>, row: int, q: Point) -> bool {
    &&& on_board(q)
    &&& q.h == row
    &&& is_pawn(pieces, q)
    &&& forall|c: int| 0 <= c < q.w ==> !is_pawn(pieces, #[trigger] square(row, c))
}

impl ChessView {
    /// The state in which every game starts.
    pub open spec fn initial() -> ChessView {
        ChessView {
            pieces: initial_pieces(),
            lit: Set::empty(),
            turn: Player::White,
            choose: None,
            en_passant: None,
            castling: no_castling(),
            promotion_popup: false,
            game_over: false,
        }
    }

    /// The selection, if there is one, names a square of the board on which
    /// a piece stands, and was made by the player whose turn it is.
    pub open spec fn wf(self) -> bool {
        self.choose matches Some((origin, piece)) ==> {
            &&& on_board(origin)
            &&& self.pieces.dom().contains(origin)
            &&& piece.owner == self.turn
        }
    }

    /// The squares that the selected piece may move to; none without a
    /// selection.
    pub open spec fn selected_moves(self) -> Set<Point> {
        match self.choose {
            Some((origin, piece)) => moves(self.pieces, piece.piece, self.en_passant, origin),
            None => Set::empty(),
        }
    }

    /// The event is one that this state can take: it names squares of the
    /// board, selects only a square that holds a piece, and an en-passant
    /// capture takes a square of the board other than the one the capturing
    /// pawn leaves.
    pub open spec fn accepts(self, message: Message) -> bool {
        match message {
            Message::MoveAble(p, occupant) => occupant matches Some(x) && x.owner == self.turn ==> {
                &&& on_board(p)
                &&& self.pieces.dom().contains(p)
            },
            Message::Move(p) => self.choose matches Some((origin, piece)) ==> {
                &&& on_board(p)
                &&& piece.piece == ChessPiece::Pawn && self.en_passant == Some(p) ==> {
                    &&& 0 <= p.h - forward(piece.owner) < 8
                    &&& behind(piece.owner, p) != origin
                }
            },
            Message::Promotion(_) => true,
            Message::Reset => true,
        }
    }

    /// After a click on square `p`, on which the player saw `occupant`: the
    /// highlights of the old selection are cleared; if `occupant` is a piece
    /// of the player to move, it becomes the selection and its moves are
    /// highlighted; if not, there is no selection any more.
    pub open spec fn select(self, p: Point, occupant: Option<PieceState>) -> ChessView {
        let cleared = self.lit.difference(self.selected_moves());
        match occupant {
            Some(x) if x.owner == self.turn => ChessView {
                lit: cleared.union(moves(self.pieces, x.piece, self.en_passant, p)),
                choose: Some((p, x)),
                ..self
            },
            _ => ChessView { lit: cleared, choose: None, ..self },
        }
    }

    /// After the selected piece has moved to `p`; without a selection nothing
    /// changes.
    ///
    /// The pieces change as [`moved_pieces`] says. The squares that were
    /// highlighted for the selected piece lose their highlight, as
    /// [`moved_lit`] says. The en-passant target is dropped, and set anew
    /// behind `p` if the move is a pawn's double step. The game is over if a king stood on `p`. The
    /// selection ends, a pawn on its last row asks for a promotion, and the
    /// turn passes to the other player.
    pub open spec fn confirm(self, p: Point) -> ChessView {
        match self.choose {
            None => self,
            Some((origin, piece)) => {
                let passing = takes_in_passing(piece, self.en_passant, p);
                ChessView {
                    pieces: moved_pieces(self.pieces, piece.owner, origin, p, passing),
                    lit: moved_lit(
                        self.lit,
                        self.selected_moves(),
                        piece.owner,
                        origin,
                        p,
                        passing,
                    ),
                    turn: self.turn.other(),
                    choose: None,
                    en_passant: passed_target(piece, origin, p),
                    castling: self.castling,
                    promotion_popup: self.promotion_popup || (piece.piece == ChessPiece::Pawn
                        && p.h == last_row(piece.owner)),
                    game_over: self.game_over || is_king(self.pieces, p),
                }
            },
        }
    }

    /// After the promotion to `piece`: the leftmost pawn on the last row of
    /// `piece`'s owner, if there is a pawn on that row, has become `piece`,
    /// and no promotion is pending.
    pub open spec fn promote(self, piece: PieceState) -> ChessView {
        let row = last_row(piece.owner);
        ChessView {
            pieces: if exists|q: Point| leftmost_pawn(self.pieces, row, q) {
                self.pieces.insert(choose|q: Point| leftmost_pawn(self.pieces, row, q), piece)
            } else {
                self.pieces
            },
            promotion_popup: false,
            ..self
        }
    }

    /// What is shown over the board: the promotion choice while one is
    /// pending, else the end of the game once a king was taken. Either is
    /// for the player who moved last, the turn having passed already.
    pub open spec fn overlay(self) -> Overlay {
        if self.promotion_popup {
            Overlay::Promotion(self.turn.other())
        } else if self.game_over {
            Overlay::GameOver(self.turn.other())
        } else {
            Overlay::Clear
        }
    }

    /// The state after `message`.
    pub open spec fn step(self, message: Message) -> ChessView {
        match message {
            Message::MoveAble(p, occupant) => self.select(p, occupant),
            Message::Move(p) => self.confirm(p),
            Message::Promotion(piece) => self.promote(piece),
            Message::Reset => ChessView::initial(),
        }
    }
}

impl View for Chess {
    type V = ChessView;

    open spec fn view(&self) -> ChessView {
        ChessView {
            pieces: pieces_of(self.board),
            lit: lit_of(self.board),
            turn: self.turn,
            choose: self.choose,
            en_passant: self.en_passant,
            castling: self.castling,
            promotion_popup: self.promotion_popup,
            game_over: self.game_over,
        }
    }
}

impl Chess {
    /// The board has its eight rows of eight tiles and the selection is
    /// sound.
    pub open spec fn wf(&self) -> bool {
        board_wf(self.board) && self@.wf()
    }

    /// `update` may be called with `message`: a reset always, any other
    /// event on a well-formed game that accepts it.
    pub open spec fn accepts(&self, message: Message) -> bool {
        message is Reset || (self.wf() && self@.accepts(message))
    }

    /// Whether the game is well formed.
    pub fn is_wf(&self) -> (ok: bool)
        ensures
            ok == self.wf(),
    {
        if !is_board(&self.board) {
            return false;
        }
        match self.choose {
            Some((origin, piece)) => origin.h < BOARD_SIZE && origin.w < BOARD_SIZE && piece_at(
                &self.board,
                origin,
            ).is_some() && piece.owner == self.turn,
            None => true,
        }
    }

    /// Whether `update` may be called with `message`.
    pub fn is_acceptable(&self, message: &Message) -> (ok: bool)
        ensures
            ok == self.accepts(*message),
    {
        match message {
            Message::Reset => true,
            Message::Promotion(_) => self.is_wf(),
            Message::MoveAble(p, occupant) => {
                if !self.is_wf() {
                    return false;
                }
                match occupant {
                    Some(x) => x.owner != self.turn || (p.h < BOARD_SIZE && p.w < BOARD_SIZE
                        && piece_at(&self.board, *p).is_some()),
                    None => true,
                }
            },
            Message::Move(p) => {
                if !self.is_wf() {
                    return false;
                }
                match self.choose {
                    None => true,
                    Some((origin, piece)) => {
                        if !(p.h < BOARD_SIZE && p.w < BOARD_SIZE) {
                            return false;
                        }
                        let passing = piece.piece == ChessPiece::Pawn && match self.en_passant {
                            Some(x) => x.h == p.h && x.w == p.w,
                            None => false,
                        };
                        if !passing {
                            return true;
                        }
                        match piece.owner {
                            Player::White => p.h + 1 < BOARD_SIZE && !(origin.h == p.h + 1
                                && origin.w == p.w),
                            Player::Black => p.h >= 1 && !(origin.h == p.h - 1 && origin.w == p.w),
                        }
                    },
                }
            },
        }
    }

    /// A new game.
    pub fn new() -> (game: Chess)
        ensures
            game.wf(),
            game@ == ChessView::initial(),
    {
        Chess {
            board: init_board(),
            turn: Player::White,
            choose: None,
            en_passant: None,
            castling: Castling {
                w_r_rook: false,
                b_king: false,
                b_l_rook: false,
                b_r_rook: false,
                w_king: false,
                w_l_rook: false,
            },
            promotion_popup: false,
            game_over: false,
        }
    }

    /// Handles a click on square `p`, on which the player saw `occupant`.
    pub fn select(&mut self, p: Point, occupant: Option<PieceState>)
        requires
            old(self).wf(),
            old(self)@.accepts(Message::MoveAble(p, occupant)),
        ensures
            final(self).wf(),
            final(self)@ == old(self)@.select(p, occupant),
    {
        if let Some((point, piece_state)) = self.choose {
            let light = move_able(&self.board, piece_state.piece, &point, &self.en_passant);
            self.board = update_high_light(&self.board, light, false);
        }
        self.choose = None;
        if let Some(x) = occupant {
            if x.owner == self.turn {
                let light = move_able(&self.board, x.piece, &p, &self.en_passant);
                self.board = update_high_light(&self.board, light, true);
                self.choose = Some((p, x));
            }
        }
        proof {
            let next = old(self)@.select(p, occupant);
            assert(self@.pieces =~= next.pieces);
            assert(self@.lit =~= next.lit);
        }
    }

    /// Moves the selected piece to square `p`; does nothing without a
    /// selection.
    pub fn confirm_move(&mut self, p: Point)
        requires
            old(self).wf(),
            old(self)@.accepts(Message::Move(p)),
        ensures
            final(self).wf(),
            final(self)@ == old(self)@.confirm(p),
    {
        if let Some((point, piece_state)) = self.choose {
            let pawn = piece_state.piece == ChessPiece::Pawn;
            let passing = pawn && match self.en_passant {
                Some(x) => x.h == p.h && x.w == p.w,
                None => false,
            };
            if holds_king(&self.board, p) {
                self.game_over = true;
            }
            move_piece(&mut self.board, piece_state, point, p, passing, &self.en_passant);
            self.en_passant = passed_square(piece_state, point, p);
            self.choose = None;
            if pawn && p.h == last_rank(piece_state.owner) {
                self.promotion_popup = true;
            }
            self.turn = self.turn.opponent();
        }
    }

    /// Turns the leftmost pawn on the last row of `piece_state`'s owner into
    /// `piece_state` and ends the wait for a promotion.
    pub fn promote(&mut self, piece_state: PieceState)
        requires
            old(self).wf(),
        ensures
            final(self).wf(),
            final(self)@ == old(self)@.promote(piece_state),
    {
        let row = last_rank(piece_state.owner);
        if let Some(q) = find_pawn(&self.board, row) {
            proof {
                lemma_leftmost_pawn_is_unique(
                    self@.pieces,
                    row as int,
                    q,
                    choose|c: Point| leftmost_pawn(self@.pieces, row as int, c),
                );
            }
            place(&mut self.board, q, piece_state);
        }
        self.promotion_popup = false;
    }

    /// Starts a new game, whatever the state was.
    pub fn reset(&mut self)
        ensures
            final(self).wf(),
            final(self)@ == ChessView::initial(),
    {
        self.board = init_board();
        self.turn = Player::White;
        self.choose = None;
        self.promotion_popup = false;
        self.en_passant = None;
        self.castling = Castling {
            w_r_rook: false,
            b_king: false,
            b_l_rook: false,
            b_r_rook: false,
            w_king: false,
            w_l_rook: false,
        };
        self.game_over = false;
    }

    /// Handles one event.
    pub fn update(&mut self, message: Message)
        requires
            old(self).accepts(message),
        ensures
            final(self).wf(),
            final(self)@ == old(self)@.step(message),
    {
        match message {
            Message::MoveAble(p, piece_state) => self.select(p, piece_state),
            Message::Move(p) => self.confirm_move(p),
            Message::Promotion(piece_state) => self.promote(piece_state),
            Message::Reset => self.reset(),
        }
    }

    /// What is to be shown over the board.
    pub fn overlay(&self) -> (overlay: Overlay)
        ensures
            overlay == self@.overlay(),
    {
        if self.promotion_popup {
            Overlay::Promotion(self.turn.opponent())
        } else if self.game_over {
            Overlay::GameOver(self.turn.opponent())
        } else {
            Overlay::Clear
        }
    }

    /// The pieces that a pawn of `owner` may turn into, in the order in
    /// which they are offered: queen, bishop, knight, rook.
    pub fn promotion_choices(owner: Player) -> (list: Vec<PieceState>)
        ensures
            list@ == seq![
                (PieceState { owner, piece: ChessPiece::Queen }),
                (PieceState { owner, piece: ChessPiece::Bishop }),
                (PieceState { owner, piece: ChessPiece::Knight }),
                (PieceState { owner, piece: ChessPiece::Rook }),
            ],
    {
        let mut list: Vec<PieceState> = Vec::new();
        list.push(PieceState { owner, piece: ChessPiece::Queen });
        list.push(PieceState { owner, piece: ChessPiece::Bishop });
        list.push(PieceState { owner, piece: ChessPiece::Knight });
        list.push(PieceState { owner, piece: ChessPiece::Rook });
        list
    }

    /// The title of the game's window.
    pub fn title(&self) -> (title: String)
        ensures
            title@ == "chess - Iced"@,
    {
        String::from_str("chess - Iced")
    }
}

/// The event that a click on `tile`, which lies on `square`, sends: a move
/// to a highlighted tile, the selection of a piece on a tile that is not
/// highlighted, nothing on a tile that is neither highlighted nor occupied.
pub open spec fn click(tile: TileState, square: Point) -> Option<Message> {
    if tile.high_light {
        Some(Message::Move(square))
    } else if tile.piece_state is Some {
        Some(Message::MoveAble(square, tile.piece_state))
    } else {
        None
    }
}

/// The event that a click on the tile in row `h` and column `w` sends.
pub fn tile_message(tile: &TileState, h: usize, w: usize) -> (message: Option<Message>)
    ensures
        message == click(*tile, Point { h, w }),
{
    if tile.high_light {
        Some(Message::Move(Point { h, w }))
    } else {
        match tile.piece_state {
            Some(x) => Some(Message::MoveAble(Point { h, w }, Some(x))),
            None => None,
        }
    }
}

/// A row holds at most one leftmost pawn.
proof fn lemma_leftmost_pawn_is_unique(pieces: Map<Point, PieceState>, row: int, a: Point, b: Point)
    requires
        leftmost_pawn(pieces, row, a),
        leftmost_pawn(pieces, row, b),
    ensures
        a == b,
{
    if a.w < b.w {
        assert(square(row, a.w as int) == a);
    } else if b.w < a.w {
        assert(square(row, b.w as int) == b);
    }
}

/// The leftmost square of row `row` that holds a pawn, if the row holds one.
fn find_pawn(board: &Board, row: usize) -> (found: Option<Point>)
    requires
        board_wf(*board),
        row < BOARD_SIZE,
    ensures
        match found {
            Some(q) => leftmost_pawn(pieces_of(*board), row as int, q),
            None => forall|q: Point| !leftmost_pawn(pieces_of(*board), row as int, q),
        },
{
    let mut i: usize = 0;
    while i < BOARD_SIZE
        invariant
            board_wf(*board),
            row < BOARD_SIZE,
            i <= BOARD_SIZE,
            forall|c: int| 0 <= c < i ==> !is_pawn(pieces_of(*board), #[trigger] square(row as int, c)),
        decreases BOARD_SIZE - i,
    {
        let q = Point { h: row, w: i };
        if let Some(x) = piece_at(board, q) {
            if x.piece == ChessPiece::Pawn {
                assert(forall|c: int| 0 <= c < q.w ==> !is_pawn(pieces_of(*board), #[trigger] square(row as int, c)));
                return Some(q);
            }
        }
        assert(square(row as int, i as int) == q);
        i += 1;
    }
    assert forall|q: Point| !leftmost_pawn(pieces_of(*board), row as int, q) by {
        if on_board(q) && q.h == row {
            assert(square(row as int, q.w as int) == q);
        }
    }
    None
}

/// Carries out on the board the move of `piece` from `origin` to `p`:
/// clears the highlights of the moves that the piece has with the en-passant
/// target `en_passant`, takes the pawn behind `p` if the move takes in
/// passing, and relocates the mover.
fn move_piece(
    board: &mut Board,
    piece: PieceState,
    origin: Point,
    p: Point,
    passing: bool,
    en_passant: &Option<Point>,
)
    requires
        board_wf(*old(board)),
        on_board(origin),
        on_board(p),
        pieces_of(*old(board)).dom().contains(origin),
        passing ==> 0 <= p.h - forward(piece.owner) < 8 && behind(piece.owner, p) != origin,
    ensures
        board_shows(
            *final(board),
            moved_pieces(pieces_of(*old(board)), piece.owner, origin, p, passing),
            moved_lit(
                lit_of(*old(board)),
                moves(pieces_of(*old(board)), piece.piece, *en_passant, origin),
                piece.owner,
                origin,
                p,
                passing,
            ),
        ),
{
    let light = move_able(board, piece.piece, &origin, en_passant);
    *board = update_high_light(board, light, false);
    // en passant kill
    if passing {
        take_behind(board, piece.owner, p);
    }
    relocate(board, origin, p);
}

/// Removes the piece, and the highlight, one row behind `p` as seen by a pawn
/// of `owner`.
fn take_behind(board: &mut Board, owner: Player, p: Point)
    requires
        board_wf(*old(board)),
        on_board(p),
        0 <= p.h - forward(owner) < 8,
    ensures
        board_shows(
            *final(board),
            pieces_of(*old(board)).remove(behind(owner, p)),
            lit_of(*old(board)).remove(behind(owner, p)),
        ),
{
    let blank = TileState { piece_state: None, high_light: false };
    match owner {
        Player::White => {
            put(board, Point { h: p.h + 1, w: p.w }, blank);
        },
        Player::Black => {
            put(board, Point { h: p.h - 1, w: p.w }, blank);
        },
    }
}

/// The en-passant target that the move of `piece` from `from` to `to`
/// leaves: the square behind `to` after a pawn's double step, none otherwise.
fn passed_square(piece: PieceState, from: Point, to: Point) -> (target: Option<Point>)
    requires
        on_board(from),
        on_board(to),
    ensures
        target == passed_target(piece, from, to),
{
    if piece.piece == ChessPiece::Pawn && to.w == from.w && (to.h == from.h + 2 || from.h == to.h
        + 2) {
        if piece.owner == Player::White && to.h == 4 {
            Some(Point { h: to.h + 1, w: to.w })
        } else if piece.owner == Player::Black && to.h == 3 {
            Some(Point { h: to.h - 1, w: to.w })
        } else {
            None
        }
    } else {
        None
    }
}

/// Whether a king, of either side, stands on `q`.
fn holds_king(board: &Board, q: Point) -> (r: bool)
    requires
        board_wf(*board),
        on_board(q),
    ensures
        r == is_king(pieces_of(*board), q),
{
    match piece_at(board, q) {
        Some(x) => x.piece == ChessPiece::King,
        None => false,
    }
}

/// The row on which `owner`'s pawns promote.
fn last_rank(owner: Player) -> (row: usize)
    ensures
        row == last_row(owner),
{
    match owner {
        Player::White => 0,
        Player::Black => 7,
    }
}

/// Moves the piece on `from` to `to` and leaves neither square highlighted.
fn relocate(board: &mut Board, from: Point, to: Point)
    requires
        board_wf(*old(board)),
        on_board(from),
        on_board(to),
        pieces_of(*old(board)).dom().contains(from),
    ensures
        board_shows(
            *final(board),
            pieces_of(*old(board)).insert(to, pieces_of(*old(board))[from]).remove(from),
            lit_of(*old(board)).remove(to).remove(from),
        ),
{
    let moved = piece_at(board, from);
    put(board, to, TileState { piece_state: moved, high_light: false });
    put(board, from, TileState { piece_state: None, high_light: false });
}

} // verus!
