//! Move generation: for each kind of piece, the squares it may move to.
//!
//! Every generator is specified by a predicate over the pieces on the board
//! (`rook_reaches`, `pawn_reaches`, ...) and returns a list without
//! repetitions of exactly the squares that satisfy it. Neither check nor
//! self-exposure is considered: a king may step next to a king.

use crate::board::{
    board_wf, on_board, piece_at, pieces_of, square, Board, ChessPiece, PieceState, Player, Point,
    BOARD_SIZE,
};
use vstd::prelude::*;

verus! {

/// The sign of `x`: 1, 0 or -1.
pub open spec fn signum(x: int) -> int {
    if x > 0 {
        1
    } else if x < 0 {
        -1
    } else {
        0
    }
}

/// The absolute value of `x`.
pub open spec fn magnitude(x: int) -> int {
    if x >= 0 {
        x
    } else {
        -x
    }
}

/// Number of king steps from `p` to `q`: the larger of the row and column
/// differences.
pub open spec fn distance(p: Point, q: Point) -> int {
    let rows = magnitude(q.h - p.h);
    let cols = magnitude(q.w - p.w);
    if rows >= cols {
        rows
    } else {
        cols
    }
}

/// No piece stands on `q`.
pub open spec fn vacant(pieces: Map<Point, PieceState>, q: Point) -> bool {
    !pieces.dom().contains(q)
}

/// A piece of `owner` stands on `q`.
pub open spec fn held_by(pieces: Map<Point, PieceState>, owner: Player, q: Point) -> bool {
    pieces.dom().contains(q) && pieces[q].owner == owner
}

/// `(dh, dw)` is one of the eight unit steps of the board.
pub open spec fn unit_step(dh: int, dw: int) -> bool {
    -1 <= dh <= 1 && -1 <= dw <= 1 && !(dh == 0 && dw == 0)
}

/// `q` lies on the ray that leaves `p` in direction `(dh, dw)`: one or more
/// steps away, all of them in that direction.
pub open spec fn on_ray(p: Point, dh: int, dw: int, q: Point) -> bool {
    &&& signum(q.h - p.h) == dh
    &&& signum(q.w - p.w) == dw
    &&& dh != 0 && dw != 0 ==> magnitude(q.h - p.h) == magnitude(q.w - p.w)
}

/// A sliding piece of `owner` on `p` reaches `q` along direction `(dh, dw)`:
/// every square of the ray before `q` is vacant, and `q` itself is vacant or
/// held by the opponent.
pub open spec fn ray_reaches(
    pieces: Map<Point, PieceState>,
    owner: Player,
    p: Point,
    dh: int,
    dw: int,
    q: Point,
) -> bool {
    &&& on_board(q)
    &&& on_ray(p, dh, dw, q)
    &&& forall|r: Point|
        on_ray(p, dh, dw, r) && distance(p, r) < distance(p, q) ==> #[trigger] vacant(pieces, r)
    &&& !held_by(pieces, owner, q)
}

/// A rook on `p` reaches `q`: along one of the four straight rays.
pub open spec fn rook_reaches(pieces: Map<Point, PieceState>, p: Point, q: Point) -> bool {
    let owner = pieces[p].owner;
    ||| ray_reaches(pieces, owner, p, 0, -1, q)
    ||| ray_reaches(pieces, owner, p, 0, 1, q)
    ||| ray_reaches(pieces, owner, p, 1, 0, q)
    ||| ray_reaches(pieces, owner, p, -1, 0, q)
}

/// A bishop on `p` reaches `q`: along one of the four diagonal rays.
pub open spec fn bishop_reaches(pieces: Map<Point, PieceState>, p: Point, q: Point) -> bool {
    let owner = pieces[p].owner;
    ||| ray_reaches(pieces, owner, p, -1, -1, q)
    ||| ray_reaches(pieces, owner, p, 1, -1, q)
    ||| ray_reaches(pieces, owner, p, -1, 1, q)
    ||| ray_reaches(pieces, owner, p, 1, 1, q)
}

/// A queen on `p` reaches `q`: as a bishop or as a rook.
pub open spec fn queen_reaches(pieces: Map<Point, PieceState>, p: Point, q: Point) -> bool {
    bishop_reaches(pieces, p, q) || rook_reaches(pieces, p, q)
}

/// A king on `p` reaches the adjacent squares that its own side does not hold.
pub open spec fn king_reaches(pieces: Map<Point, PieceState>, p: Point, q: Point) -> bool {
    &&& on_board(q)
    &&& distance(p, q) == 1
    &&& !held_by(pieces, pieces[p].owner, q)
}

/// `q` is a knight's jump away from `p`: two squares along one axis and one
/// along the other.
pub open spec fn knight_jump(p: Point, q: Point) -> bool {
    let rows = magnitude(q.h - p.h);
    let cols = magnitude(q.w - p.w);
    (rows == 1 && cols == 2) || (rows == 2 && cols == 1)
}

/// A knight on `p` reaches the squares a jump away that its own side does
/// not hold.
pub open spec fn knight_reaches(pieces: Map<Point, PieceState>, p: Point, q: Point) -> bool {
    &&& on_board(q)
    &&& knight_jump(p, q)
    &&& !held_by(pieces, pieces[p].owner, q)
}

/// A piece of kind `piece` standing on `p` may move to `q`. The owner is read
/// from the board, the kind is given.
pub open spec fn reaches(
    pieces: Map<Point, PieceState>,
    piece: ChessPiece,
    en_passant: Option<Point>,
    p: Point,
    q: Point,
) -> bool {
    match piece {
        ChessPiece::Rook => rook_reaches(pieces, p, q),
        ChessPiece::Bishop => bishop_reaches(pieces, p, q),
        ChessPiece::King => king_reaches(pieces, p, q),
        ChessPiece::Knight => knight_reaches(pieces, p, q),
        ChessPiece::Queen => queen_reaches(pieces, p, q),
        ChessPiece::Pawn => pawn_reaches(pieces, en_passant, p, q),
    }
}

/// The set of squares that a piece of kind `piece` standing on `p` may move to.
#[verifier::opaque]
pub open spec fn moves(
    pieces: Map<Point, PieceState>,
    piece: ChessPiece,
    en_passant: Option<Point>,
    p: Point,
) -> Set<Point> {
    Set::new(|q: Point| reaches(pieces, piece, en_passant, p, q))
}

/// `q` is the square `dh` rows and `dw` columns away from `p`.
pub open spec fn offset_by(p: Point, dh: int, dw: int, q: Point) -> bool {
    q.h - p.h == dh && q.w - p.w == dw
}

/// The row step of `owner`'s pawns: Black advances towards row 7, White
/// towards row 0.
pub open spec fn forward(owner: Player) -> int {
    match owner {
        Player::Black => 1,
        Player::White => -1,
    }
}

/// The row on which `owner`'s pawns start.
pub open spec fn home_row(owner: Player) -> int {
    match owner {
        Player::Black => 1,
        Player::White => 6,
    }
}

/// The row on which `owner`'s pawns promote: the opponent's back rank.
pub open spec fn last_row(owner: Player) -> int {
    match owner {
        Player::Black => 7,
        Player::White => 0,
    }
}

/// `q` is the square straight ahead of the pawn on `p`, and is vacant.
pub open spec fn pawn_advances(pieces: Map<Point, PieceState>, p: Point, q: Point) -> bool {
    &&& offset_by(p, forward(pieces[p].owner), 0, q)
    &&& vacant(pieces, q)
}

/// `q` is two squares ahead of the pawn on `p`, the pawn stands on its home
/// row, and both squares ahead of it are vacant.
pub open spec fn pawn_double_steps(pieces: Map<Point, PieceState>, p: Point, q: Point) -> bool {
    let owner = pieces[p].owner;
    &&& p.h == home_row(owner)
    &&& offset_by(p, 2 * forward(owner), 0, q)
    &&& vacant(pieces, square(p.h + forward(owner), p.w as int))
    &&& vacant(pieces, q)
}

/// `q` is diagonally ahead of the pawn on `p` and either holds an opposing
/// piece or is the en-passant target.
pub open spec fn pawn_captures(
    pieces: Map<Point, PieceState>,
    en_passant: Option<Point>,
    p: Point,
    q: Point,
) -> bool {
    let owner = pieces[p].owner;
    &&& q.h - p.h == forward(owner)
    &&& magnitude(q.w - p.w) == 1
    &&& (held_by(pieces, owner.other(), q) || en_passant == Some(q))
}

/// A pawn on `p` reaches `q`: by a step, a double step or a capture.
pub open spec fn pawn_reaches(
    pieces: Map<Point, PieceState>,
    en_passant: Option<Point>,
    p: Point,
    q: Point,
) -> bool {
    &&& on_board(q)
    &&& (pawn_advances(pieces, p, q) || pawn_double_steps(pieces, p, q) || pawn_captures(
        pieces,
        en_passant,
        p,
        q,
    ))
}

/// Appends a square that the list does not hold yet.
fn push_fresh(out: &mut Vec<Point>, q: Point)
    requires
        old(out)@.no_duplicates(),
        !old(out)@.contains(q),
    ensures
        final(out)@ == old(out)@.push(q),
        final(out)@.no_duplicates(),
        forall|x: Point| final(out)@.contains(x) <==> old(out)@.contains(x) || x == q,
{
    out.push(q);
    proof {
        let before = old(out)@;
        let after = out@;
        assert forall|x: Point| after.contains(x) <==> before.contains(x) || x == q by {
            vstd::seq_lib::lemma_seq_contains_after_push(before, q, x);
        }
    }
}

/// Walks from `p` in direction `(dh, dw)` and appends each square that a
/// sliding piece of `owner` reaches: the vacant squares up to the first piece
/// or the edge, and that piece's square if the opponent owns it.
fn cast_ray(board: &Board, owner: Player, p: &Point, dh: i32, dw: i32, out: &mut Vec<Point>)
    requires
        board_wf(*board),
        on_board(*p),
        unit_step(dh as int, dw as int),
        old(out)@.no_duplicates(),
        forall|q: Point| old(out)@.contains(q) ==> !on_ray(*p, dh as int, dw as int, q),
    ensures
        final(out)@.no_duplicates(),
        forall|q: Point| #[trigger]
            final(out)@.contains(q) <==> old(out)@.contains(q) || ray_reaches(
                pieces_of(*board),
                owner,
                *p,
                dh as int,
                dw as int,
                q,
            ),
{
    let ghost pieces = pieces_of(*board);
    let ghost start = out@;
    let ghost (gh, gw) = (dh as int, dw as int);
    let mut ch: i32 = p.h as i32 + dh;
    let mut cw: i32 = p.w as i32 + dw;
    let mut blocked = false;
    let ghost mut k: int = 1;
    while !blocked && 0 <= ch && ch < BOARD_SIZE as i32 && 0 <= cw && cw < BOARD_SIZE as i32
        invariant
            board_wf(*board),
            on_board(*p),
            unit_step(gh, gw),
            gh == dh && gw == dw,
            pieces == pieces_of(*board),
            out@.no_duplicates(),
            forall|q: Point| start.contains(q) ==> !on_ray(*p, gh, gw, q),
            1 <= k <= 8,
            -1 <= ch <= 8,
            -1 <= cw <= 8,
            ch - p.h == if dh == 0 { 0 } else if dh > 0 { k } else { -k },
            cw - p.w == if dw == 0 { 0 } else if dw > 0 { k } else { -k },
            !blocked ==> forall|r: Point|
                on_ray(*p, gh, gw, r) && distance(*p, r) < k ==> #[trigger] vacant(pieces, r),
            !blocked ==> forall|q: Point| #[trigger]
                out@.contains(q) <==> start.contains(q) || (on_board(q) && on_ray(*p, gh, gw, q)
                    && distance(*p, q) < k),
            blocked ==> forall|q: Point| #[trigger]
                out@.contains(q) <==> start.contains(q) || ray_reaches(pieces, owner, *p, gh, gw, q),
        decreases 8 - k, if blocked { 0int } else { 1int },
    {
        let here = Point { h: ch as usize, w: cw as usize };
        let ghost before = out@;
        assert(on_board(here) && on_ray(*p, gh, gw, here) && distance(*p, here) == k);
        assert forall|r: Point| on_ray(*p, gh, gw, r) && distance(*p, r) == k implies r == here by {}
        assert(!before.contains(here));
        assert forall|q: Point| before.contains(q) && !start.contains(q) implies ray_reaches(
            pieces,
            owner,
            *p,
            gh,
            gw,
            q,
        ) by {
            assert(vacant(pieces, q));
        }
        match piece_at(board, here) {
            Some(x) => {
                assert(pieces.dom().contains(here) && pieces[here] == x);
                if x.owner != owner {
                    push_fresh(out, here);
                    assert(ray_reaches(pieces, owner, *p, gh, gw, here));
                }
                blocked = true;
                assert forall|q: Point| #[trigger]
                    out@.contains(q) <==> start.contains(q) || ray_reaches(
                        pieces,
                        owner,
                        *p,
                        gh,
                        gw,
                        q,
                    ) by {
                    if ray_reaches(pieces, owner, *p, gh, gw, q) {
                        if distance(*p, q) > k {
                            assert(vacant(pieces, here));
                        } else if distance(*p, q) < k {
                            assert(before.contains(q));
                        }
                    }
                }
            },
            None => {
                assert(vacant(pieces, here));
                push_fresh(out, here);
                ch = ch + dh;
                cw = cw + dw;
                proof {
                    k = k + 1;
                }
            },
        }
    }
    proof {
        if !blocked {
            assert forall|q: Point| #[trigger]
                out@.contains(q) <==> start.contains(q) || ray_reaches(
                    pieces,
                    owner,
                    *p,
                    gh,
                    gw,
                    q,
                ) by {
                if on_board(q) && on_ray(*p, gh, gw, q) {
                    assert(distance(*p, q) < k);
                }
                if out@.contains(q) && !start.contains(q) {
                    assert(vacant(pieces, q));
                }
            }
        }
    }
}

/// The squares a rook on `p` may move to: along the row and the column, up to
/// and including the first opposing piece, up to and excluding the first piece
/// of its own side.
pub fn move_able_rook(board: &Board, p: &Point) -> (high_light: Vec<Point>)
    requires
        board_wf(*board),
        on_board(*p),
        pieces_of(*board).dom().contains(*p),
    ensures
        high_light@.no_duplicates(),
        forall|q: Point| #[trigger]
            high_light@.contains(q) <==> rook_reaches(pieces_of(*board), *p, q),
        forall|q: Point| #[trigger] high_light@.contains(q) ==> on_board(q) && q != *p,
{
    let mut high_light: Vec<Point> = Vec::new();
    let piece = piece_at(board, *p).unwrap();
    cast_ray(board, piece.owner, p, 0, -1, &mut high_light);
    cast_ray(board, piece.owner, p, 0, 1, &mut high_light);
    cast_ray(board, piece.owner, p, 1, 0, &mut high_light);
    cast_ray(board, piece.owner, p, -1, 0, &mut high_light);
    high_light
}

/// The squares a bishop on `p` may move to: along the two diagonals, under
/// the blocking rule of the rook.
pub fn move_able_bishop(board: &Board, p: &Point) -> (high_light: Vec<Point>)
    requires
        board_wf(*board),
        on_board(*p),
        pieces_of(*board).dom().contains(*p),
    ensures
        high_light@.no_duplicates(),
        forall|q: Point| #[trigger]
            high_light@.contains(q) <==> bishop_reaches(pieces_of(*board), *p, q),
        forall|q: Point| #[trigger] high_light@.contains(q) ==> on_board(q) && q != *p,
{
    let mut high_light: Vec<Point> = Vec::new();
    let piece = piece_at(board, *p).unwrap();
    cast_ray(board, piece.owner, p, -1, -1, &mut high_light);
    cast_ray(board, piece.owner, p, 1, -1, &mut high_light);
    cast_ray(board, piece.owner, p, -1, 1, &mut high_light);
    cast_ray(board, piece.owner, p, 1, 1, &mut high_light);
    high_light
}

/// The squares a queen on `p` may move to: those of a bishop and those of a
/// rook standing there.
pub fn move_able_queen(board: &Board, p: &Point) -> (high_light: Vec<Point>)
    requires
        board_wf(*board),
        on_board(*p),
        pieces_of(*board).dom().contains(*p),
    ensures
        high_light@.no_duplicates(),
        forall|q: Point| #[trigger]
            high_light@.contains(q) <==> queen_reaches(pieces_of(*board), *p, q),
        forall|q: Point| #[trigger] high_light@.contains(q) ==> on_board(q) && q != *p,
{
    let mut high_light: Vec<Point> = move_able_bishop(board, p);
    let mut straight: Vec<Point> = move_able_rook(board, p);
    let ghost diagonal = high_light@;
    let ghost lines = straight@;
    high_light.append(&mut straight);
    proof {
        assert(high_light@ == diagonal + lines);
        assert forall|i: int, j: int| 0 <= i < diagonal.len() && 0 <= j < lines.len() implies
            diagonal[i] != lines[j] by {
            assert(diagonal.contains(diagonal[i]));
            assert(lines.contains(lines[j]));
        }
        vstd::seq_lib::lemma_no_dup_in_concat(diagonal, lines);
        assert forall|q: Point| #[trigger]
            high_light@.contains(q) <==> diagonal.contains(q) || lines.contains(q) by {
            if diagonal.contains(q) {
                let i = choose|i: int| 0 <= i < diagonal.len() && diagonal[i] == q;
                assert(high_light@[i] == q);
            }
            if lines.contains(q) {
                let j = choose|j: int| 0 <= j < lines.len() && lines[j] == q;
                assert(high_light@[diagonal.len() + j] == q);
            }
        }
    }
    high_light
}

/// Appends the square `dh` rows and `dw` columns away from `p` if it lies on
/// the board and no piece of `owner` stands on it.
fn try_step(board: &Board, owner: Player, p: &Point, dh: i32, dw: i32, out: &mut Vec<Point>)
    requires
        board_wf(*board),
        on_board(*p),
        -2 <= dh <= 2,
        -2 <= dw <= 2,
        old(out)@.no_duplicates(),
        forall|q: Point| old(out)@.contains(q) ==> !offset_by(*p, dh as int, dw as int, q),
    ensures
        final(out)@.no_duplicates(),
        final(out)@.len() <= old(out)@.len() + 1,
        forall|q: Point| #[trigger]
            final(out)@.contains(q) <==> old(out)@.contains(q) || (on_board(q) && offset_by(
                *p,
                dh as int,
                dw as int,
                q,
            ) && !held_by(pieces_of(*board), owner, q)),
{
    let th: i32 = p.h as i32 + dh;
    let tw: i32 = p.w as i32 + dw;
    if 0 <= th && th < BOARD_SIZE as i32 && 0 <= tw && tw < BOARD_SIZE as i32 {
        let target = Point { h: th as usize, w: tw as usize };
        assert forall|q: Point| offset_by(*p, dh as int, dw as int, q) implies q == target by {}
        match piece_at(board, target) {
            Some(x) => {
                assert(pieces_of(*board).dom().contains(target) && pieces_of(*board)[target] == x);
                if x.owner != owner {
                    push_fresh(out, target);
                }
            },
            None => {
                assert(vacant(pieces_of(*board), target));
                push_fresh(out, target);
            },
        }
    }
}

/// The squares a king on `p` may move to: the adjacent squares that hold no
/// piece of its own side.
pub fn move_able_king(board: &Board, p: &Point) -> (high_light: Vec<Point>)
    requires
        board_wf(*board),
        on_board(*p),
        pieces_of(*board).dom().contains(*p),
    ensures
        high_light@.no_duplicates(),
        high_light@.len() <= 8,
        forall|q: Point| #[trigger]
            high_light@.contains(q) <==> king_reaches(pieces_of(*board), *p, q),
        forall|q: Point| #[trigger] high_light@.contains(q) ==> on_board(q) && q != *p,
{
    let mut high_light: Vec<Point> = Vec::new();
    let piece = piece_at(board, *p).unwrap();
    let ghost pieces = pieces_of(*board);
    let mut dh: i32 = -1;
    while dh <= 1
        invariant
            board_wf(*board),
            on_board(*p),
            pieces == pieces_of(*board),
            pieces.dom().contains(*p),
            piece.owner == pieces[*p].owner,
            -1 <= dh <= 2,
            high_light@.no_duplicates(),
            high_light@.len() <= 3 * (dh + 1) - (if dh > 0 { 1int } else { 0int }),
            forall|q: Point| #[trigger]
                high_light@.contains(q) <==> king_reaches(pieces, *p, q) && q.h - p.h < dh,
        decreases 2 - dh,
    {
        let mut dw: i32 = -1;
        while dw <= 1
            invariant
                board_wf(*board),
                on_board(*p),
                pieces == pieces_of(*board),
                pieces.dom().contains(*p),
                piece.owner == pieces[*p].owner,
                -1 <= dh <= 1,
                -1 <= dw <= 2,
                high_light@.no_duplicates(),
                high_light@.len() <= 3 * (dh + 1) + (dw + 1) - (if dh > 0 || (dh == 0 && dw > 0) {
                    1int
                } else {
                    0int
                }),
                forall|q: Point| #[trigger]
                    high_light@.contains(q) <==> king_reaches(pieces, *p, q) && (q.h - p.h < dh || (
                    q.h - p.h == dh && q.w - p.w < dw)),
            decreases 2 - dw,
        {
            if !(dh == 0 && dw == 0) {
                try_step(board, piece.owner, p, dh, dw, &mut high_light);
            }
            dw += 1;
        }
        dh += 1;
    }
    high_light
}

/// The squares a knight on `p` may move to: the knight's jumps that land on
/// the board and not on a piece of its own side.
pub fn move_able_knight(board: &Board, p: &Point) -> (high_light: Vec<Point>)
    requires
        board_wf(*board),
        on_board(*p),
        pieces_of(*board).dom().contains(*p),
    ensures
        high_light@.no_duplicates(),
        high_light@.len() <= 8,
        forall|q: Point| #[trigger]
            high_light@.contains(q) <==> knight_reaches(pieces_of(*board), *p, q),
        forall|q: Point| #[trigger] high_light@.contains(q) ==> on_board(q) && q != *p,
{
    let mut high_light: Vec<Point> = Vec::new();
    let piece = piece_at(board, *p).unwrap();
    try_step(board, piece.owner, p, 2, 1, &mut high_light);
    try_step(board, piece.owner, p, 2, -1, &mut high_light);
    try_step(board, piece.owner, p, -2, 1, &mut high_light);
    try_step(board, piece.owner, p, -2, -1, &mut high_light);
    try_step(board, piece.owner, p, 1, 2, &mut high_light);
    try_step(board, piece.owner, p, 1, -2, &mut high_light);
    try_step(board, piece.owner, p, -1, 2, &mut high_light);
    try_step(board, piece.owner, p, -1, -2, &mut high_light);
    high_light
}

/// Whether a pawn of `owner` may capture onto `target`, a square diagonally
/// ahead of it: an opposing piece stands there, or it is the en-passant target.
fn pawn_takes(board: &Board, owner: Player, en_passant: &Option<Point>, target: Point) -> (r: bool)
    requires
        board_wf(*board),
        on_board(target),
    ensures
        r == (held_by(pieces_of(*board), owner.other(), target) || *en_passant == Some(target)),
{
    let opposed = match piece_at(board, target) {
        Some(x) => x.owner != owner,
        None => false,
    };
    let passing = match en_passant {
        Some(x) => x.h == target.h && x.w == target.w,
        None => false,
    };
    opposed || passing
}

/// The squares a pawn on `p` may move to: one square ahead if vacant, two if
/// the pawn is on its home row and both are vacant, and either square
/// diagonally ahead if an opposing piece stands there or it is the
/// en-passant target. A pawn on its last row has nowhere to go.
pub fn move_able_pawn(board: &Board, p: &Point, en_passant: &Option<Point>) -> (high_light: Vec<
    Point,
>)
    requires
        board_wf(*board),
        on_board(*p),
        pieces_of(*board).dom().contains(*p),
    ensures
        high_light@.no_duplicates(),
        forall|q: Point| #[trigger]
            high_light@.contains(q) <==> pawn_reaches(pieces_of(*board), *en_passant, *p, q),
        forall|q: Point| #[trigger] high_light@.contains(q) ==> on_board(q) && q != *p,
        forall|q: Point|
            offset_by(*p, forward(pieces_of(*board)[*p].owner), 0, q) ==> (#[trigger]
            high_light@.contains(q) <==> on_board(q) && vacant(pieces_of(*board), q)),
        forall|q: Point|
            offset_by(*p, 2 * forward(pieces_of(*board)[*p].owner), 0, q) ==> (#[trigger]
            high_light@.contains(q) <==> p.h == home_row(pieces_of(*board)[*p].owner) && vacant(
                pieces_of(*board),
                square(p.h + forward(pieces_of(*board)[*p].owner), p.w as int),
            ) && vacant(pieces_of(*board), q)),
{
    let mut high_light: Vec<Point> = Vec::new();
    let h = p.h;
    let w = p.w;
    let piece = piece_at(board, *p).unwrap();
    let ghost pieces = pieces_of(*board);
    let (step, home): (i32, usize) = match piece.owner {
        Player::Black => (1, 1),
        Player::White => (-1, 6),
    };
    let ahead: i32 = h as i32 + step;
    if 0 <= ahead && ahead < BOARD_SIZE as i32 {
        let row = ahead as usize;
        let one = Point { h: row, w };
        if piece_at(board, one).is_none() {
            assert(vacant(pieces, one));
            push_fresh(&mut high_light, one);
            if h == home {
                let two = Point { h: (ahead + step) as usize, w };
                if piece_at(board, two).is_none() {
                    assert(vacant(pieces, two));
                    push_fresh(&mut high_light, two);
                }
            }
        }
        // attack
        if w + 1 < BOARD_SIZE {
            let target = Point { h: row, w: w + 1 };
            if pawn_takes(board, piece.owner, en_passant, target) {
                push_fresh(&mut high_light, target);
            }
        }
        if w >= 1 {
            let target = Point { h: row, w: w - 1 };
            if pawn_takes(board, piece.owner, en_passant, target) {
                push_fresh(&mut high_light, target);
            }
        }
    }
    high_light
}

/// The squares that the piece on `p` may move to if it moves as a `piece`,
/// each listed once.
pub fn move_able(board: &Board, piece: ChessPiece, p: &Point, en_passant: &Option<Point>) -> (light:
    Vec<Point>)
    requires
        board_wf(*board),
        on_board(*p),
        pieces_of(*board).dom().contains(*p),
    ensures
        light@.no_duplicates(),
        light@.to_set() == moves(pieces_of(*board), piece, *en_passant, *p),
        forall|q: Point| #[trigger] light@.contains(q) ==> on_board(q) && q != *p,
{
    let light = match piece {
        ChessPiece::Rook => move_able_rook(board, p),
        ChessPiece::Bishop => move_able_bishop(board, p),
        ChessPiece::King => move_able_king(board, p),
        ChessPiece::Knight => move_able_knight(board, p),
        ChessPiece::Queen => move_able_queen(board, p),
        ChessPiece::Pawn => move_able_pawn(board, p, en_passant),
    };
    proof {
        reveal(moves);
        assert(light@.to_set() =~= moves(pieces_of(*board), piece, *en_passant, *p));
    }
    light
}

/// The squares that the piece standing on `origin` may move to, each listed
/// once.
pub fn moves_for(board: &Board, origin: &Point, en_passant: &Option<Point>) -> (light: Vec<Point>)
    requires
        board_wf(*board),
        on_board(*origin),
        pieces_of(*board).dom().contains(*origin),
    ensures
        light@.no_duplicates(),
        light@.to_set() == moves(
            pieces_of(*board),
            pieces_of(*board)[*origin].piece,
            *en_passant,
            *origin,
        ),
        forall|q: Point| #[trigger] light@.contains(q) ==> on_board(q) && q != *origin,
{
    let piece = piece_at(board, *origin).unwrap();
    move_able(board, piece.piece, origin, en_passant)
}

} // verus!
