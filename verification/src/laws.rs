//! What holds of the rules, proved from the definitions in `moves` and
//! `game`.

use crate::board::{on_board, square, ChessPiece, PieceState, Player, Point};
use crate::game::{behind, double_step, is_pawn, leftmost_pawn, ChessView, Message};
use crate::moves::{
    distance, forward, held_by, home_row, king_reaches, knight_reaches, last_row, magnitude, moves,
    offset_by, on_ray, pawn_reaches, ray_reaches, reaches, unit_step, vacant,
};
use vstd::prelude::*;

verus! {

/// Whatever the piece and wherever it stands, every square it may move to
/// lies on the board and is not the square it stands on.
pub proof fn lemma_moves_stay_on_board(
    pieces: Map<Point, PieceState>,
    piece: ChessPiece,
    en_passant: Option<Point>,
    p: Point,
    q: Point,
)
    requires
        reaches(pieces, piece, en_passant, p, q),
    ensures
        on_board(q),
        q != p,
{
}

/// A sliding piece reaches a square along a ray only if every square of the
/// ray before it is vacant.
pub proof fn lemma_ray_passes_only_vacant_squares(
    pieces: Map<Point, PieceState>,
    owner: Player,
    p: Point,
    dh: int,
    dw: int,
    q: Point,
    r: Point,
)
    requires
        ray_reaches(pieces, owner, p, dh, dw, q),
        on_ray(p, dh, dw, r),
        distance(p, r) < distance(p, q),
    ensures
        vacant(pieces, r),
{
}

/// Along a ray, where `first` is the first occupied square: a sliding piece
/// reaches every square before `first`, reaches `first` itself exactly when
/// the opponent holds it, and reaches no square beyond it.
pub proof fn lemma_ray_stops_at_first_piece(
    pieces: Map<Point, PieceState>,
    owner: Player,
    p: Point,
    dh: int,
    dw: int,
    first: Point,
    q: Point,
)
    requires
        unit_step(dh, dw),
        on_board(p),
        on_board(first),
        on_ray(p, dh, dw, first),
        !vacant(pieces, first),
        forall|r: Point|
            on_ray(p, dh, dw, r) && distance(p, r) < distance(p, first) ==> #[trigger] vacant(
                pieces,
                r,
            ),
        on_ray(p, dh, dw, q),
    ensures
        distance(p, q) < distance(p, first) ==> ray_reaches(pieces, owner, p, dh, dw, q),
        distance(p, q) == distance(p, first) ==> (ray_reaches(pieces, owner, p, dh, dw, q)
            <==> pieces[first].owner != owner),
        distance(p, q) > distance(p, first) ==> !ray_reaches(pieces, owner, p, dh, dw, q),
{
    if distance(p, q) < distance(p, first) {
        assert(vacant(pieces, q));
    } else if distance(p, q) == distance(p, first) {
        assert(q == first);
    } else {
        if ray_reaches(pieces, owner, p, dh, dw, q) {
            assert(vacant(pieces, first));
        }
    }
}

/// A king and a knight never move onto a piece of their own side.
pub proof fn lemma_steps_spare_own_pieces(pieces: Map<Point, PieceState>, p: Point, q: Point)
    requires
        king_reaches(pieces, p, q) || knight_reaches(pieces, p, q),
    ensures
        !held_by(pieces, pieces[p].owner, q),
{
}

/// A pawn may take one step ahead exactly when that square is on the board
/// and vacant, and two steps ahead exactly when it stands on its home row and
/// both squares ahead of it are vacant.
pub proof fn lemma_pawn_steps(
    pieces: Map<Point, PieceState>,
    en_passant: Option<Point>,
    p: Point,
    q: Point,
)
    requires
        on_board(p),
    ensures
        offset_by(p, forward(pieces[p].owner), 0, q) ==> (pawn_reaches(pieces, en_passant, p, q) <==> on_board(
            q,
        ) && vacant(pieces, q)),
        offset_by(p, 2 * forward(pieces[p].owner), 0, q) ==> (pawn_reaches(
            pieces,
            en_passant,
            p,
            q,
        ) <==> p.h == home_row(pieces[p].owner) && vacant(
            pieces,
            square(p.h + forward(pieces[p].owner), p.w as int),
        ) && vacant(pieces, q)),
{
}

/// An accepted event leaves a well-formed state well formed.
pub proof fn lemma_step_keeps_wf(v: ChessView, message: Message)
    requires
        v.wf(),
        v.accepts(message),
    ensures
        v.step(message).wf(),
{
}

/// The initial state is well formed.
pub proof fn lemma_initial_is_wf()
    ensures
        ChessView::initial().wf(),
{
}

/// A pawn's double step leaves the en-passant target on the square it passed
/// over, in its own column; any other move leaves none.
pub proof fn lemma_double_step_sets_target(v: ChessView, origin: Point, piece: PieceState, p: Point)
    requires
        v.choose == Some((origin, piece)),
    ensures
        piece.piece == ChessPiece::Pawn && double_step(piece.owner, origin, p) ==> {
            &&& v.confirm(p).en_passant == Some(behind(piece.owner, p))
            &&& behind(piece.owner, p).w == p.w
            &&& behind(piece.owner, p).h == match piece.owner {
                Player::White => 5int,
                Player::Black => 2int,
            }
        },
        !(piece.piece == ChessPiece::Pawn && double_step(piece.owner, origin, p)) ==> v.confirm(
            p,
        ).en_passant is None,
{
}

/// After a pawn's double step to `p`, an opposing pawn that stands beside `p`
/// may move onto the en-passant target.
pub proof fn lemma_target_is_offered(
    v: ChessView,
    origin: Point,
    piece: PieceState,
    p: Point,
    beside: Point,
)
    requires
        v.wf(),
        v.accepts(Message::Move(p)),
        v.choose == Some((origin, piece)),
        piece.piece == ChessPiece::Pawn,
        double_step(piece.owner, origin, p),
        on_board(beside),
        beside.h == p.h,
        magnitude(beside.w - p.w) == 1,
        is_pawn(v.confirm(p).pieces, beside),
        v.confirm(p).pieces[beside].owner == piece.owner.other(),
    ensures
        moves(v.confirm(p).pieces, ChessPiece::Pawn, v.confirm(p).en_passant, beside).contains(
            behind(piece.owner, p),
        ),
{
    reveal(moves);
}

/// A pawn that moves onto the en-passant target takes the piece one row
/// behind the target and lands on the target.
pub proof fn lemma_capture_in_passing(v: ChessView, origin: Point, piece: PieceState, p: Point)
    requires
        v.wf(),
        v.accepts(Message::Move(p)),
        v.choose == Some((origin, piece)),
        piece.piece == ChessPiece::Pawn,
        v.en_passant == Some(p),
        origin != p,
    ensures
        !v.confirm(p).pieces.dom().contains(behind(piece.owner, p)),
        !v.confirm(p).pieces.dom().contains(origin),
        v.confirm(p).pieces.dom().contains(p),
        v.confirm(p).pieces[p] == v.pieces[origin],
{
}

/// An en-passant target lasts for one move: once the next piece has been
/// selected and moved, the target that the move before it left is gone.
pub proof fn lemma_target_lasts_one_move(
    v: ChessView,
    p: Point,
    next: Point,
    occupant: Option<PieceState>,
    to: Point,
)
    requires
        v.wf(),
        v.choose is Some,
        v.confirm(p).en_passant is Some,
        v.confirm(p).select(next, occupant).choose is Some,
    ensures
        v.confirm(p).select(next, occupant).confirm(to).en_passant != v.confirm(p).en_passant,
{
}

/// A pawn that moves onto its last row asks for a promotion.
pub proof fn lemma_last_row_asks_for_promotion(
    v: ChessView,
    origin: Point,
    piece: PieceState,
    p: Point,
)
    requires
        v.choose == Some((origin, piece)),
        piece.piece == ChessPiece::Pawn,
        p.h == last_row(piece.owner),
    ensures
        v.confirm(p).promotion_popup,
{
}

/// When a pawn has moved onto its last row, the promotion that follows turns
/// exactly one pawn of that row into the chosen piece, changes nothing else
/// on the board, and ends the wait.
pub proof fn lemma_promotion_replaces_one_pawn(
    v: ChessView,
    origin: Point,
    piece: PieceState,
    p: Point,
    choice: PieceState,
)
    requires
        v.wf(),
        v.accepts(Message::Move(p)),
        v.choose == Some((origin, piece)),
        v.pieces[origin] == piece,
        piece.piece == ChessPiece::Pawn,
        origin != p,
        p.h == last_row(piece.owner),
        choice.owner == piece.owner,
    ensures
        !v.confirm(p).promote(choice).promotion_popup,
        exists|q: Point|
            {
                &&& on_board(q)
                &&& q.h == p.h
                &&& #[trigger] is_pawn(v.confirm(p).pieces, q)
                &&& v.confirm(p).promote(choice).pieces == v.confirm(p).pieces.insert(q, choice)
            },
        v.confirm(p).promote(choice).lit == v.confirm(p).lit,
{
    let after = v.confirm(p);
    let row = last_row(choice.owner);
    assert(is_pawn(after.pieces, p));
    lemma_row_with_pawn_has_leftmost(after.pieces, row, p, p.w as int);
    let q = choose|q: Point| leftmost_pawn(after.pieces, row, q);
    assert(is_pawn(after.pieces, q));
}

/// A row that holds a pawn on `at`, and none in the columns from `from` up to
/// `at`, holds a leftmost pawn.
proof fn lemma_row_with_pawn_has_leftmost(
    pieces: Map<Point, PieceState>,
    row: int,
    at: Point,
    from: int,
)
    requires
        on_board(at),
        at.h == row,
        is_pawn(pieces, at),
        0 <= from <= at.w,
        forall|c: int| from <= c < at.w ==> !is_pawn(pieces, #[trigger] square(row, c)),
    ensures
        exists|q: Point| leftmost_pawn(pieces, row, q),
    decreases from,
{
    if from == 0 {
        assert(leftmost_pawn(pieces, row, at));
    } else if is_pawn(pieces, square(row, from - 1)) {
        lemma_row_with_pawn_has_leftmost(pieces, row, square(row, from - 1), from - 1);
    } else {
        lemma_row_with_pawn_has_leftmost(pieces, row, at, from - 1);
    }
}

/// Selecting the same piece twice in a row gives the same state as selecting
/// it once: the same selection and the same highlighted squares.
pub proof fn lemma_select_twice(v: ChessView, p: Point, piece: PieceState)
    requires
        piece.owner == v.turn,
    ensures
        v.select(p, Some(piece)).select(p, Some(piece)) == v.select(p, Some(piece)),
{
    let once = v.select(p, Some(piece));
    let twice = once.select(p, Some(piece));
    assert(twice.lit =~= once.lit);
}

/// A confirmed move clears exactly what was highlighted for it: where the
/// highlighted squares were the moves of the selected piece, no square is
/// highlighted after the move, an en-passant square that was offered and
/// not used included.
pub proof fn lemma_confirm_clears_highlights(v: ChessView, p: Point)
    requires
        v.choose is Some,
        v.lit == v.selected_moves(),
    ensures
        v.confirm(p).lit == Set::<Point>::empty(),
{
    assert(v.confirm(p).lit =~= Set::<Point>::empty());
}

/// The highlighted squares follow the selection: where they are the moves
/// of the selected piece (none without a selection) before a click, a move or
/// a reset, they are so after it. A promotion keeps this where no piece is
/// selected.
pub proof fn lemma_highlights_follow_selection(v: ChessView, message: Message)
    requires
        v.lit == v.selected_moves(),
        message is Promotion ==> v.choose is None,
    ensures
        v.step(message).lit == v.step(message).selected_moves(),
{
    let after = v.step(message);
    assert(after.lit =~= after.selected_moves());
}

} // verus!
