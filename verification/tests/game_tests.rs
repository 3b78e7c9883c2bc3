use chess_board::board::{
    init_board, Board, ChessPiece, PieceState, Player, Point, TileState,
};
use chess_board::game::{tile_message, Castling, Chess, Message, Overlay};

fn sq(h: usize, w: usize) -> Point {
    Point { h, w }
}

fn piece(owner: Player, piece: ChessPiece) -> PieceState {
    PieceState { owner, piece }
}

fn lit(game: &Chess) -> Vec<(usize, usize)> {
    let mut v = Vec::new();
    for h in 0..8 {
        for w in 0..8 {
            if game.board[h][w].high_light {
                v.push((h, w));
            }
        }
    }
    v
}

fn send(game: &mut Chess, message: Message) {
    assert!(game.is_acceptable(&message));
    game.update(message);
    assert!(game.is_wf());
}

/// Clicks the piece on `from`, then the square `to`.
fn play(game: &mut Chess, from: (usize, usize), to: (usize, usize)) {
    let seen = game.board[from.0][from.1].piece_state;
    send(game, Message::MoveAble(sq(from.0, from.1), seen));
    send(game, Message::Move(sq(to.0, to.1)));
}

fn bare(pieces: &[(usize, usize, Player, ChessPiece)], turn: Player) -> Chess {
    let mut board: Board = vec![vec![TileState { piece_state: None, high_light: false }; 8]; 8];
    for (h, w, owner, kind) in pieces {
        board[*h][*w].piece_state = Some(piece(*owner, *kind));
    }
    let mut game = Chess::new();
    game.board = board;
    game.turn = turn;
    game
}

fn no_rights() -> Castling {
    Castling {
        w_r_rook: false,
        w_l_rook: false,
        w_king: false,
        b_r_rook: false,
        b_l_rook: false,
        b_king: false,
    }
}

#[test]
fn new_game_is_the_opening_position() {
    let game = Chess::new();
    assert!(game.is_wf());
    assert_eq!(game.board, init_board());
    assert_eq!(game.turn, Player::White);
    assert_eq!(game.choose, None);
    assert_eq!(game.en_passant, None);
    assert_eq!(game.castling, no_rights());
    assert!(!game.promotion_popup);
    assert!(!game.game_over);
    assert_eq!(game.overlay(), Overlay::Clear);
}

#[test]
fn title_names_the_game() {
    assert_eq!(Chess::new().title(), "chess - Iced");
}

#[test]
fn scenario_white_pawn_double_step() {
    let mut game = Chess::new();
    let pawn = piece(Player::White, ChessPiece::Pawn);
    send(&mut game, Message::MoveAble(sq(6, 4), Some(pawn)));
    assert_eq!(lit(&game), vec![(4, 4), (5, 4)]);
    assert_eq!(game.choose, Some((sq(6, 4), pawn)));
    assert_eq!(game.turn, Player::White);

    send(&mut game, Message::Move(sq(4, 4)));
    assert_eq!(game.board[4][4].piece_state, Some(pawn));
    assert_eq!(game.board[6][4].piece_state, None);
    assert_eq!(game.en_passant, Some(sq(5, 4)));
    assert_eq!(game.turn, Player::Black);
    assert_eq!(game.choose, None);
    assert!(lit(&game).is_empty());
    assert!(!game.promotion_popup);
    assert!(!game.game_over);
}

#[test]
fn scenario_black_double_step_then_plain_capture() {
    let mut game = Chess::new();
    play(&mut game, (6, 4), (4, 4));
    play(&mut game, (1, 3), (3, 3));
    assert_eq!(game.en_passant, Some(sq(2, 3)));
    assert_eq!(game.turn, Player::White);
    // the white pawn on (4, 4) may take the black pawn where it stands
    let pawn = piece(Player::White, ChessPiece::Pawn);
    send(&mut game, Message::MoveAble(sq(4, 4), Some(pawn)));
    assert_eq!(lit(&game), vec![(3, 3), (3, 4)]);
    send(&mut game, Message::Move(sq(3, 3)));
    assert_eq!(game.board[3][3].piece_state, Some(pawn));
    assert_eq!(game.board[4][4].piece_state, None);
    assert_eq!(game.en_passant, None);
}

#[test]
fn scenario_en_passant_capture() {
    let mut game = Chess::new();
    play(&mut game, (6, 4), (4, 4));
    play(&mut game, (1, 0), (2, 0));
    assert_eq!(game.en_passant, None);
    play(&mut game, (4, 4), (3, 4));
    play(&mut game, (1, 3), (3, 3));
    assert_eq!(game.en_passant, Some(sq(2, 3)));

    let pawn = piece(Player::White, ChessPiece::Pawn);
    send(&mut game, Message::MoveAble(sq(3, 4), Some(pawn)));
    assert_eq!(lit(&game), vec![(2, 3), (2, 4)]);
    send(&mut game, Message::Move(sq(2, 3)));
    assert_eq!(game.board[3][3].piece_state, None);
    assert_eq!(game.board[2][3].piece_state, Some(pawn));
    assert_eq!(game.board[3][4].piece_state, None);
    assert_eq!(game.en_passant, None);
    assert_eq!(game.turn, Player::Black);
    assert!(lit(&game).is_empty());
    let mut white = 0;
    let mut black = 0;
    for row in &game.board {
        for tile in row {
            match tile.piece_state {
                Some(x) if x.owner == Player::White => white += 1,
                Some(_) => black += 1,
                None => {}
            }
        }
    }
    assert_eq!((white, black), (16, 15));
}

#[test]
fn black_takes_in_passing_too() {
    let mut game = bare(
        &[
            (4, 2, Player::Black, ChessPiece::Pawn),
            (6, 3, Player::White, ChessPiece::Pawn),
        ],
        Player::White,
    );
    play(&mut game, (6, 3), (4, 3));
    assert_eq!(game.en_passant, Some(sq(5, 3)));
    let pawn = piece(Player::Black, ChessPiece::Pawn);
    send(&mut game, Message::MoveAble(sq(4, 2), Some(pawn)));
    assert_eq!(lit(&game), vec![(5, 2), (5, 3)]);
    send(&mut game, Message::Move(sq(5, 3)));
    assert_eq!(game.board[4][3].piece_state, None);
    assert_eq!(game.board[5][3].piece_state, Some(pawn));
}

#[test]
fn en_passant_target_lasts_one_move() {
    let mut game = Chess::new();
    play(&mut game, (6, 4), (4, 4));
    assert_eq!(game.en_passant, Some(sq(5, 4)));
    play(&mut game, (0, 1), (2, 2));
    assert_eq!(game.en_passant, None);
    play(&mut game, (6, 0), (5, 0));
    assert_eq!(game.en_passant, None);
}

#[test]
fn single_steps_leave_no_target() {
    let mut game = Chess::new();
    play(&mut game, (6, 4), (5, 4));
    assert_eq!(game.en_passant, None);
    play(&mut game, (1, 4), (2, 4));
    assert_eq!(game.en_passant, None);
    // two rows, but not onto row 4: a rook is no pawn
    let mut other = bare(&[(6, 0, Player::White, ChessPiece::Rook)], Player::White);
    play(&mut other, (6, 0), (4, 0));
    assert_eq!(other.en_passant, None);
}

#[test]
fn selecting_twice_changes_nothing() {
    let mut game = Chess::new();
    let knight = piece(Player::White, ChessPiece::Knight);
    send(&mut game, Message::MoveAble(sq(7, 1), Some(knight)));
    let board = game.board.clone();
    let chosen = game.choose;
    assert_eq!(lit(&game), vec![(5, 0), (5, 2)]);
    send(&mut game, Message::MoveAble(sq(7, 1), Some(knight)));
    assert_eq!(game.board, board);
    assert_eq!(game.choose, chosen);
}

#[test]
fn selecting_another_piece_moves_the_highlights() {
    let mut game = Chess::new();
    send(&mut game, Message::MoveAble(sq(7, 1), Some(piece(Player::White, ChessPiece::Knight))));
    send(&mut game, Message::MoveAble(sq(6, 7), Some(piece(Player::White, ChessPiece::Pawn))));
    assert_eq!(lit(&game), vec![(4, 7), (5, 7)]);
    assert_eq!(game.choose, Some((sq(6, 7), piece(Player::White, ChessPiece::Pawn))));
}

#[test]
fn clicking_the_opponent_drops_the_selection() {
    let mut game = Chess::new();
    send(&mut game, Message::MoveAble(sq(6, 4), Some(piece(Player::White, ChessPiece::Pawn))));
    send(&mut game, Message::MoveAble(sq(1, 4), Some(piece(Player::Black, ChessPiece::Pawn))));
    assert!(lit(&game).is_empty());
    assert_eq!(game.choose, None);
    assert_eq!(game.turn, Player::White);
    assert_eq!(
        game.board.iter().flatten().map(|t| t.piece_state).collect::<Vec<_>>(),
        init_board().iter().flatten().map(|t| t.piece_state).collect::<Vec<_>>()
    );
}

#[test]
fn clicking_an_empty_square_drops_the_selection() {
    let mut game = Chess::new();
    send(&mut game, Message::MoveAble(sq(6, 4), Some(piece(Player::White, ChessPiece::Pawn))));
    send(&mut game, Message::MoveAble(sq(4, 0), None));
    assert!(lit(&game).is_empty());
    assert_eq!(game.choose, None);
}

#[test]
fn move_without_selection_does_nothing() {
    let mut game = Chess::new();
    send(&mut game, Message::Move(sq(4, 4)));
    assert_eq!(game.board, init_board());
    assert_eq!(game.turn, Player::White);
    assert_eq!(game.en_passant, None);
}

#[test]
fn capture_replaces_the_piece() {
    let mut game = bare(
        &[
            (4, 4, Player::White, ChessPiece::Rook),
            (4, 7, Player::Black, ChessPiece::Bishop),
        ],
        Player::White,
    );
    play(&mut game, (4, 4), (4, 7));
    assert_eq!(game.board[4][7].piece_state, Some(piece(Player::White, ChessPiece::Rook)));
    assert_eq!(game.board[4][4].piece_state, None);
    assert!(!game.game_over);
    assert_eq!(game.turn, Player::Black);
}

#[test]
fn taking_a_king_ends_the_game() {
    let mut game = bare(
        &[
            (4, 4, Player::White, ChessPiece::Queen),
            (4, 0, Player::Black, ChessPiece::King),
        ],
        Player::White,
    );
    play(&mut game, (4, 4), (4, 0));
    assert!(game.game_over);
    assert!(!game.promotion_popup);
    assert_eq!(game.overlay(), Overlay::GameOver(Player::White));
    assert_eq!(game.board[4][0].piece_state, Some(piece(Player::White, ChessPiece::Queen)));
}

#[test]
fn pawn_on_last_row_asks_for_promotion() {
    let mut game = bare(
        &[
            (1, 2, Player::White, ChessPiece::Pawn),
            (0, 5, Player::Black, ChessPiece::King),
        ],
        Player::White,
    );
    play(&mut game, (1, 2), (0, 2));
    assert!(game.promotion_popup);
    assert_eq!(game.turn, Player::Black);
    assert_eq!(game.overlay(), Overlay::Promotion(Player::White));

    let queen = piece(Player::White, ChessPiece::Queen);
    send(&mut game, Message::Promotion(queen));
    assert!(!game.promotion_popup);
    assert_eq!(game.board[0][2].piece_state, Some(queen));
    assert_eq!(game.board[0][5].piece_state, Some(piece(Player::Black, ChessPiece::King)));
    assert_eq!(game.turn, Player::Black);
    assert_eq!(game.overlay(), Overlay::Clear);
}

#[test]
fn black_promotes_on_row_seven() {
    let mut game = bare(&[(6, 6, Player::Black, ChessPiece::Pawn)], Player::Black);
    play(&mut game, (6, 6), (7, 6));
    assert!(game.promotion_popup);
    assert_eq!(game.overlay(), Overlay::Promotion(Player::Black));
    let knight = piece(Player::Black, ChessPiece::Knight);
    send(&mut game, Message::Promotion(knight));
    assert!(!game.promotion_popup);
    assert_eq!(game.board[7][6].piece_state, Some(knight));
}

#[test]
fn promotion_takes_the_leftmost_pawn_only() {
    let mut game = bare(
        &[
            (0, 1, Player::Black, ChessPiece::Rook),
            (0, 3, Player::White, ChessPiece::Pawn),
            (0, 6, Player::White, ChessPiece::Pawn),
            (7, 0, Player::White, ChessPiece::Pawn),
        ],
        Player::Black,
    );
    game.promotion_popup = true;
    let rook = piece(Player::White, ChessPiece::Rook);
    send(&mut game, Message::Promotion(rook));
    assert_eq!(game.board[0][3].piece_state, Some(rook));
    assert_eq!(game.board[0][6].piece_state, Some(piece(Player::White, ChessPiece::Pawn)));
    assert_eq!(game.board[0][1].piece_state, Some(piece(Player::Black, ChessPiece::Rook)));
    assert_eq!(game.board[7][0].piece_state, Some(piece(Player::White, ChessPiece::Pawn)));
    assert!(!game.promotion_popup);
}

#[test]
fn promotion_without_a_pawn_only_clears_the_flag() {
    let mut game = Chess::new();
    game.promotion_popup = true;
    send(&mut game, Message::Promotion(piece(Player::White, ChessPiece::Queen)));
    assert_eq!(game.board, init_board());
    assert!(!game.promotion_popup);
}

#[test]
fn promotion_keeps_the_highlight_of_the_tile() {
    let mut game = bare(&[(7, 4, Player::Black, ChessPiece::Pawn)], Player::White);
    game.board[7][4].high_light = true;
    send(&mut game, Message::Promotion(piece(Player::Black, ChessPiece::Bishop)));
    assert_eq!(
        game.board[7][4],
        TileState { piece_state: Some(piece(Player::Black, ChessPiece::Bishop)), high_light: true }
    );
}

#[test]
fn reset_restores_the_opening_position() {
    let mut game = Chess::new();
    play(&mut game, (6, 4), (4, 4));
    play(&mut game, (1, 3), (3, 3));
    send(&mut game, Message::MoveAble(sq(4, 4), Some(piece(Player::White, ChessPiece::Pawn))));
    game.castling.w_king = true;
    game.game_over = true;
    game.promotion_popup = true;
    send(&mut game, Message::Reset);
    assert_eq!(game.board, init_board());
    assert_eq!(game.turn, Player::White);
    assert_eq!(game.choose, None);
    assert_eq!(game.en_passant, None);
    assert_eq!(game.castling, no_rights());
    assert!(!game.promotion_popup);
    assert!(!game.game_over);
    let count = game.board.iter().flatten().filter(|t| t.piece_state.is_some()).count();
    assert_eq!(count, 32);
}

#[test]
fn reset_takes_any_state() {
    let mut game = Chess::new();
    game.board = Vec::new();
    game.choose = Some((sq(9, 9), piece(Player::Black, ChessPiece::King)));
    assert!(!game.is_wf());
    assert!(game.is_acceptable(&Message::Reset));
    game.update(Message::Reset);
    assert!(game.is_wf());
    assert_eq!(game.board, init_board());
}

#[test]
fn unused_en_passant_square_loses_its_highlight() {
    // the pawn could have taken in passing but steps ahead: the square it was
    // offered is cleared with the others
    let mut game = bare(
        &[
            (3, 4, Player::White, ChessPiece::Pawn),
            (1, 3, Player::Black, ChessPiece::Pawn),
        ],
        Player::Black,
    );
    play(&mut game, (1, 3), (3, 3));
    send(&mut game, Message::MoveAble(sq(3, 4), Some(piece(Player::White, ChessPiece::Pawn))));
    assert_eq!(lit(&game), vec![(2, 3), (2, 4)]);
    send(&mut game, Message::Move(sq(2, 4)));
    assert!(lit(&game).is_empty());
    assert_eq!(game.en_passant, None);
    assert_eq!(game.board[3][3].piece_state, Some(piece(Player::Black, ChessPiece::Pawn)));
    assert_eq!(game.board[2][4].piece_state, Some(piece(Player::White, ChessPiece::Pawn)));
}

#[test]
fn unused_en_passant_square_is_cleared_in_a_game_from_the_start() {
    let mut game = Chess::new();
    play(&mut game, (6, 4), (4, 4));
    play(&mut game, (1, 0), (2, 0));
    play(&mut game, (4, 4), (3, 4));
    play(&mut game, (1, 3), (3, 3));
    send(&mut game, Message::MoveAble(sq(3, 4), Some(piece(Player::White, ChessPiece::Pawn))));
    assert_eq!(lit(&game), vec![(2, 3), (2, 4)]);
    send(&mut game, Message::Move(sq(2, 4)));
    assert!(lit(&game).is_empty());
    assert_eq!(tile_message(&game.board[2][3], 2, 3), None);
}

#[test]
fn every_move_of_a_game_leaves_nothing_lit() {
    let mut game = Chess::new();
    let moves = [
        ((6, 4), (4, 4)),
        ((1, 4), (3, 4)),
        ((7, 6), (5, 5)),
        ((0, 1), (2, 2)),
        ((7, 5), (4, 2)),
        ((0, 3), (4, 7)),
        ((5, 5), (3, 4)),
        ((4, 7), (6, 5)),
    ];
    for (from, to) in moves {
        let seen = game.board[from.0][from.1].piece_state;
        send(&mut game, Message::MoveAble(sq(from.0, from.1), seen));
        assert!(game.board[to.0][to.1].high_light);
        send(&mut game, Message::Move(sq(to.0, to.1)));
        assert!(lit(&game).is_empty());
    }
}

#[test]
fn promotion_choices_are_queen_bishop_knight_rook() {
    for owner in [Player::White, Player::Black] {
        assert_eq!(
            Chess::promotion_choices(owner),
            vec![
                piece(owner, ChessPiece::Queen),
                piece(owner, ChessPiece::Bishop),
                piece(owner, ChessPiece::Knight),
                piece(owner, ChessPiece::Rook),
            ]
        );
    }
}

#[test]
fn move_to_any_square_is_carried_out() {
    let mut game = Chess::new();
    send(&mut game, Message::MoveAble(sq(7, 0), Some(piece(Player::White, ChessPiece::Rook))));
    send(&mut game, Message::Move(sq(3, 3)));
    assert_eq!(game.board[3][3].piece_state, Some(piece(Player::White, ChessPiece::Rook)));
    assert_eq!(game.board[7][0].piece_state, None);
    assert_eq!(game.turn, Player::Black);
}

#[test]
fn messages_that_cannot_be_taken_are_refused() {
    let game = Chess::new();
    // a piece of the side to move that is not on the board
    assert!(!game.is_acceptable(&Message::MoveAble(
        sq(4, 4),
        Some(piece(Player::White, ChessPiece::Pawn))
    )));
    assert!(!game.is_acceptable(&Message::MoveAble(
        sq(8, 0),
        Some(piece(Player::White, ChessPiece::Pawn))
    )));
    // the other side's piece is never looked up
    assert!(game.is_acceptable(&Message::MoveAble(
        sq(8, 0),
        Some(piece(Player::Black, ChessPiece::Pawn))
    )));
    assert!(game.is_acceptable(&Message::Move(sq(9, 9))));

    let mut chosen = Chess::new();
    chosen.update(Message::MoveAble(sq(6, 4), Some(piece(Player::White, ChessPiece::Pawn))));
    assert!(chosen.is_acceptable(&Message::Move(sq(4, 4))));
    assert!(!chosen.is_acceptable(&Message::Move(sq(8, 4))));
    assert!(!chosen.is_acceptable(&Message::Move(sq(4, 8))));
    // an en-passant capture that would take the capturing pawn itself
    chosen.en_passant = Some(sq(5, 4));
    assert!(!chosen.is_acceptable(&Message::Move(sq(5, 4))));
    // or a square off the board
    chosen.en_passant = Some(sq(7, 0));
    assert!(!chosen.is_acceptable(&Message::Move(sq(7, 0))));
    chosen.en_passant = Some(sq(5, 3));
    assert!(chosen.is_acceptable(&Message::Move(sq(5, 3))));
}

#[test]
fn ill_formed_games_are_recognised() {
    let mut game = Chess::new();
    game.choose = Some((sq(4, 4), piece(Player::White, ChessPiece::Pawn)));
    assert!(!game.is_wf());
    game.choose = Some((sq(1, 4), piece(Player::Black, ChessPiece::Pawn)));
    assert!(!game.is_wf());
    game.choose = Some((sq(6, 8), piece(Player::White, ChessPiece::Pawn)));
    assert!(!game.is_wf());
    game.choose = Some((sq(6, 4), piece(Player::White, ChessPiece::Pawn)));
    assert!(game.is_wf());
    game.board[2].push(TileState { piece_state: None, high_light: false });
    assert!(!game.is_wf());
    assert!(!game.is_acceptable(&Message::Promotion(piece(Player::White, ChessPiece::Queen))));
}

#[test]
fn tile_message_follows_highlight_and_occupant() {
    let pawn = piece(Player::Black, ChessPiece::Pawn);
    let plain = TileState { piece_state: Some(pawn), high_light: false };
    assert_eq!(tile_message(&plain, 1, 2), Some(Message::MoveAble(sq(1, 2), Some(pawn))));
    let target = TileState { piece_state: Some(pawn), high_light: true };
    assert_eq!(tile_message(&target, 1, 2), Some(Message::Move(sq(1, 2))));
    let free = TileState { piece_state: None, high_light: true };
    assert_eq!(tile_message(&free, 5, 0), Some(Message::Move(sq(5, 0))));
    let dead = TileState { piece_state: None, high_light: false };
    assert_eq!(tile_message(&dead, 5, 0), None);
}

#[test]
fn overlay_prefers_promotion_over_game_over() {
    let mut game = Chess::new();
    game.game_over = true;
    assert_eq!(game.overlay(), Overlay::GameOver(Player::Black));
    game.promotion_popup = true;
    assert_eq!(game.overlay(), Overlay::Promotion(Player::Black));
    game.turn = Player::Black;
    assert_eq!(game.overlay(), Overlay::Promotion(Player::White));
}

#[test]
fn events_also_work_one_by_one() {
    let mut game = Chess::new();
    let pawn = piece(Player::White, ChessPiece::Pawn);
    game.select(sq(6, 0), Some(pawn));
    assert_eq!(lit(&game), vec![(4, 0), (5, 0)]);
    game.confirm_move(sq(5, 0));
    assert_eq!(game.board[5][0].piece_state, Some(pawn));
    assert_eq!(game.turn, Player::Black);
    game.promote(piece(Player::Black, ChessPiece::Queen));
    assert!(!game.promotion_popup);
    game.reset();
    assert_eq!(game.board, init_board());
}
