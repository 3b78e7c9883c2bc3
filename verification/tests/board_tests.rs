use chess_board::board::{
    init_board, is_board, piece_at, place, put, update_high_light, Board, ChessPiece, PieceState,
    Player, Point, TileState,
};

fn count_pieces(board: &Board, owner: Player) -> usize {
    let mut n = 0;
    for row in board {
        for tile in row {
            if let Some(x) = tile.piece_state {
                if x.owner == owner {
                    n += 1;
                }
            }
        }
    }
    n
}

#[test]
fn init_board_is_eight_by_eight() {
    let board = init_board();
    assert!(is_board(&board));
    assert_eq!(board.len(), 8);
    for row in &board {
        assert_eq!(row.len(), 8);
    }
}

#[test]
fn init_board_has_sixteen_pieces_each() {
    let board = init_board();
    assert_eq!(count_pieces(&board, Player::White), 16);
    assert_eq!(count_pieces(&board, Player::Black), 16);
}

#[test]
fn init_board_back_ranks() {
    let board = init_board();
    let order = [
        ChessPiece::Rook,
        ChessPiece::Knight,
        ChessPiece::Bishop,
        ChessPiece::Queen,
        ChessPiece::King,
        ChessPiece::Bishop,
        ChessPiece::Knight,
        ChessPiece::Rook,
    ];
    for w in 0..8 {
        assert_eq!(
            board[0][w].piece_state,
            Some(PieceState { owner: Player::Black, piece: order[w] })
        );
        assert_eq!(
            board[1][w].piece_state,
            Some(PieceState { owner: Player::Black, piece: ChessPiece::Pawn })
        );
        assert_eq!(
            board[6][w].piece_state,
            Some(PieceState { owner: Player::White, piece: ChessPiece::Pawn })
        );
        assert_eq!(
            board[7][w].piece_state,
            Some(PieceState { owner: Player::White, piece: order[w] })
        );
        for h in 2..6 {
            assert_eq!(board[h][w].piece_state, None);
        }
    }
}

#[test]
fn init_board_nothing_highlighted() {
    let board = init_board();
    for row in &board {
        for tile in row {
            assert!(!tile.high_light);
        }
    }
}

#[test]
fn is_board_rejects_wrong_shapes() {
    let blank = TileState { piece_state: None, high_light: false };
    let short: Board = vec![vec![blank; 8]; 7];
    assert!(!is_board(&short));
    let mut ragged: Board = vec![vec![blank; 8]; 8];
    ragged[3].pop();
    assert!(!is_board(&ragged));
    let empty: Board = Vec::new();
    assert!(!is_board(&empty));
}

#[test]
fn update_high_light_sets_listed_squares_only() {
    let board = init_board();
    let light = vec![Point { h: 5, w: 4 }, Point { h: 4, w: 4 }];
    let lit = update_high_light(&board, light, true);
    for h in 0..8 {
        for w in 0..8 {
            let expected = (h == 5 || h == 4) && w == 4;
            assert_eq!(lit[h][w].high_light, expected);
            assert_eq!(lit[h][w].piece_state, board[h][w].piece_state);
        }
    }
    // the board handed in is left as it was
    assert!(!board[5][4].high_light);
}

#[test]
fn update_high_light_clears_listed_squares_only() {
    let board = init_board();
    let lit = update_high_light(
        &board,
        vec![Point { h: 5, w: 4 }, Point { h: 4, w: 4 }, Point { h: 3, w: 0 }],
        true,
    );
    let dim = update_high_light(&lit, vec![Point { h: 5, w: 4 }, Point { h: 0, w: 0 }], false);
    assert!(!dim[5][4].high_light);
    assert!(dim[4][4].high_light);
    assert!(dim[3][0].high_light);
    assert!(!dim[0][0].high_light);
}

#[test]
fn update_high_light_takes_repeated_and_empty_lists() {
    let board = init_board();
    let same = update_high_light(&board, Vec::new(), true);
    assert_eq!(same, board);
    let twice = update_high_light(&board, vec![Point { h: 2, w: 2 }, Point { h: 2, w: 2 }], true);
    assert!(twice[2][2].high_light);
}

#[test]
fn piece_at_reads_the_tile() {
    let board = init_board();
    assert_eq!(
        piece_at(&board, Point { h: 7, w: 4 }),
        Some(PieceState { owner: Player::White, piece: ChessPiece::King })
    );
    assert_eq!(piece_at(&board, Point { h: 3, w: 3 }), None);
}

#[test]
fn put_replaces_one_tile() {
    let mut board = init_board();
    let before = board.clone();
    let tile = TileState {
        piece_state: Some(PieceState { owner: Player::White, piece: ChessPiece::Queen }),
        high_light: true,
    };
    put(&mut board, Point { h: 4, w: 2 }, tile);
    for h in 0..8 {
        for w in 0..8 {
            if h == 4 && w == 2 {
                assert_eq!(board[h][w], tile);
            } else {
                assert_eq!(board[h][w], before[h][w]);
            }
        }
    }
}

#[test]
fn place_keeps_the_highlight() {
    let mut board = update_high_light(&init_board(), vec![Point { h: 0, w: 3 }], true);
    let knight = PieceState { owner: Player::White, piece: ChessPiece::Knight };
    place(&mut board, Point { h: 0, w: 3 }, knight);
    assert_eq!(board[0][3], TileState { piece_state: Some(knight), high_light: true });
    place(&mut board, Point { h: 4, w: 4 }, knight);
    assert_eq!(board[4][4], TileState { piece_state: Some(knight), high_light: false });
}

#[test]
fn opponent_is_the_other_player() {
    assert_eq!(Player::White.opponent(), Player::Black);
    assert_eq!(Player::Black.opponent(), Player::White);
}
