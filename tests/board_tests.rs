use bitboard_chess::board::{Board, MoveError};
use bitboard_chess::notation::notation_to_idx;
use bitboard_chess::types::{Color, Piece, PieceType};

#[test]
fn test_get_bitboard_mut() {
    let mut board = Board::new();

    let knights = board.get_bitboard_mut(Color::White, PieceType::Knight);
    assert_eq!(*knights, 0x0000_0000_0000_0042);

    // modify it
    *knights = 0x1234;
    assert_eq!(board.white_knights, 0x1234);
}

#[test]
fn test_get_piece_at_starting_position() {
    let board = Board::new();

    assert_eq!(
        board.get_piece_at("e2"),
        Some(Piece::new(Color::White, PieceType::Pawn))
    );
    assert_eq!(
        board.get_piece_at("a1"),
        Some(Piece::new(Color::White, PieceType::Rook))
    );
    assert_eq!(
        board.get_piece_at("b8"),
        Some(Piece::new(Color::Black, PieceType::Knight))
    );
    assert_eq!(
        board.get_piece_at("e8"),
        Some(Piece::new(Color::Black, PieceType::King))
    );
    assert_eq!(
        board.get_piece_at("d8"),
        Some(Piece::new(Color::Black, PieceType::Queen))
    );

    assert_eq!(board.get_piece_at("e4"), None); // empty square
    assert_eq!(board.get_piece_at("z9"), None); // invalid notation
}

#[test]
fn test_get_piece_by_mask() {
    let board = Board::new();
    let idx = notation_to_idx("g1").unwrap();
    let mask = 1u64 << idx;

    let piece = board.get_piece_by_mask(mask);
    assert_eq!(piece, Some(Piece::new(Color::White, PieceType::Knight)));

    let empty_mask = 1u64 << notation_to_idx("e4").unwrap();
    assert_eq!(board.get_piece_by_mask(empty_mask), None);
}

#[test]
fn test_get_piece() {
    let board = Board::new();
    assert_eq!(
        board.get_piece_at("a2"),
        Some(Piece::new(Color::White, PieceType::Pawn))
    );
    assert_eq!(
        board.get_piece_at("a8"),
        Some(Piece::new(Color::Black, PieceType::Rook))
    );
    assert_eq!(board.get_piece_at("a4"), None);
}

#[test]
fn test_move_piece() {
    let mut board = Board::new();

    // Move white pawn from a2 to a4
    assert!(board.move_piece("a2", "a4").is_ok());
    assert_eq!(board.get_piece_at("a2"), None);
    assert_eq!(
        board.get_piece_at("a4"),
        Some(Piece::new(Color::White, PieceType::Pawn))
    );
}

fn bitboards(board: &Board) -> [u64; 12] {
    [
        board.white_pawns,
        board.white_rooks,
        board.white_knights,
        board.white_bishops,
        board.white_queens,
        board.white_king,
        board.black_pawns,
        board.black_rooks,
        board.black_knights,
        board.black_bishops,
        board.black_queens,
        board.black_king,
    ]
}

fn assert_exclusive(board: &Board) {
    let bbs = bitboards(board);
    for i in 0..12 {
        for j in 0..12 {
            if i != j {
                assert_eq!(bbs[i] & bbs[j], 0, "bitboards {} and {} overlap", i, j);
            }
        }
    }
}

#[test]
fn exclusive_after_every_move() {
    let mut board = Board::new();
    assert_exclusive(&board);
    let moves = [
        ("e2", "e4"),
        ("d7", "d5"),
        ("e4", "d5"),
        ("d8", "d5"),
        ("b1", "c3"),
        ("d5", "a2"),
        ("a1", "a2"),
        ("h8", "h1"),
        ("e1", "e1"),
        ("e3", "e5"),
        ("g1", "f3"),
    ];
    for (from, to) in moves {
        let _ = board.move_piece(from, to);
        assert_exclusive(&board);
    }
}

#[test]
fn start_position_counts() {
    let board = Board::new();
    let count = |w: u64, b: u64| w.count_ones() + b.count_ones();
    assert_eq!(count(board.white_pawns, board.black_pawns), 16);
    assert_eq!(count(board.white_rooks, board.black_rooks), 4);
    assert_eq!(count(board.white_knights, board.black_knights), 4);
    assert_eq!(count(board.white_bishops, board.black_bishops), 4);
    assert_eq!(count(board.white_queens, board.black_queens), 2);
    assert_eq!(count(board.white_king, board.black_king), 2);
    for bb in bitboards(&board) {
        assert!(bb.count_ones() >= 1);
    }
    let all = board.occupancy(Color::White) | board.occupancy(Color::Black);
    assert_eq!(all.count_ones(), 32);
    assert_eq!(all, 0xFFFF_0000_0000_FFFF);
}

#[test]
fn occupancy_of_each_side() {
    let board = Board::new();
    assert_eq!(board.white_pieces(), 0x0000_0000_0000_FFFF);
    assert_eq!(board.black_pieces(), 0xFFFF_0000_0000_0000);
    assert_eq!(board.occupancy(Color::White), board.white_pieces());
    assert_eq!(board.occupancy(Color::Black), board.black_pieces());
    assert_eq!(board.get_bitboard(Color::Black, PieceType::Queen), 0x0800_0000_0000_0000);
}

#[test]
fn pawn_double_step_to_a4() {
    let mut board = Board::new();
    assert_eq!(board.move_piece("a2", "a4"), Ok(()));
    assert_eq!(board.get_piece_at("a2"), None);
    assert_eq!(
        board.get_piece_at("a4"),
        Some(Piece::new(Color::White, PieceType::Pawn))
    );
    assert_eq!(board.white_pawns, 0x0000_0000_0100_FE00);
}

#[test]
fn empty_source_leaves_board_unchanged() {
    let mut board = Board::new();
    let before = bitboards(&board);
    assert_eq!(board.move_piece("e3", "e4"), Err(MoveError::EmptySource));
    assert_eq!(bitboards(&board), before);
}

#[test]
fn move_onto_empty_square_is_not_a_capture() {
    let mut board = Board::new();
    assert_eq!(board.move_piece("a2", "a4"), Ok(()));
    assert_eq!(board.move_piece("a4", "a5"), Ok(()));
    assert_eq!(board.get_piece_at("a4"), None);
    assert_eq!(
        board.get_piece_at("a5"),
        Some(Piece::new(Color::White, PieceType::Pawn))
    );
    assert_eq!(board.black_pieces(), 0xFFFF_0000_0000_0000);
}

#[test]
fn move_onto_own_square_is_self_capture() {
    let mut board = Board::new();
    let before = bitboards(&board);
    assert_eq!(board.move_piece("b1", "b1"), Err(MoveError::SelfCapture));
    assert_eq!(bitboards(&board), before);
    assert_eq!(
        board.get_piece_at("b1"),
        Some(Piece::new(Color::White, PieceType::Knight))
    );
}

#[test]
fn capture_of_own_piece_is_refused() {
    let mut board = Board::new();
    let before = bitboards(&board);
    assert_eq!(board.move_piece("a1", "a2"), Err(MoveError::SelfCapture));
    assert_eq!(board.move_piece("d8", "e8"), Err(MoveError::SelfCapture));
    assert_eq!(bitboards(&board), before);
}

#[test]
fn invalid_notation_is_refused() {
    let mut board = Board::new();
    let before = bitboards(&board);
    assert_eq!(board.move_piece("z9", "a4"), Err(MoveError::InvalidNotation));
    assert_eq!(board.move_piece("a2", "a9"), Err(MoveError::InvalidNotation));
    assert_eq!(board.move_piece("", "a4"), Err(MoveError::InvalidNotation));
    assert_eq!(board.move_piece("e3", "i4"), Err(MoveError::InvalidNotation));
    assert_eq!(bitboards(&board), before);
}

#[test]
fn capture_removes_the_captured_piece() {
    let mut board = Board::new();
    assert_eq!(board.move_piece("d1", "d7"), Ok(()));
    assert_eq!(
        board.get_piece_at("d7"),
        Some(Piece::new(Color::White, PieceType::Queen))
    );
    assert_eq!(board.get_piece_at("d1"), None);
    assert_eq!(board.black_pawns, 0x00F7_0000_0000_0000);
    assert_eq!(board.white_queens, 0x0008_0000_0000_0000);
    assert_eq!(board.black_pieces().count_ones(), 15);
    assert_eq!(board.white_pieces().count_ones(), 16);
}

#[test]
fn square_symbols_of_start_position() {
    let board = Board::new();
    let rank1: String = (0..8).map(|i| board.square_symbol(i)).collect();
    let rank8: String = (56..64).map(|i| board.square_symbol(i)).collect();
    assert_eq!(rank1, "RNBQKBNR");
    assert_eq!(rank8, "rnbqkbnr");
    assert_eq!(board.square_symbol(12), 'P');
    assert_eq!(board.square_symbol(52), 'p');
    assert_eq!(board.square_symbol(28), '.');
}
