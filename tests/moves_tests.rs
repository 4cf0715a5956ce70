use bitboard_chess::moves::{get_black_pawn_move, get_white_pawn_move};
use bitboard_chess::types::{Color, Piece, PieceType};

#[test]
fn white_pawn_from_second_rank_has_two_steps() {
    assert_eq!(get_white_pawn_move(8), (Some(16), Some(24)));
    assert_eq!(get_white_pawn_move(12), (Some(20), Some(28)));
}

#[test]
fn white_pawn_elsewhere_has_one_step() {
    assert_eq!(get_white_pawn_move(20), (Some(28), None));
    assert_eq!(get_white_pawn_move(0), (Some(8), None));
    assert_eq!(get_white_pawn_move(55), (Some(63), None));
}

#[test]
fn white_pawn_on_last_rank_has_none() {
    assert_eq!(get_white_pawn_move(56), (None, None));
    assert_eq!(get_white_pawn_move(63), (None, None));
}

#[test]
fn black_pawn_offsets() {
    assert_eq!(get_black_pawn_move(9), (17, Some(25)));
    assert_eq!(get_black_pawn_move(50), (58, None));
}

#[test]
fn piece_symbols() {
    assert_eq!(Piece::new(Color::White, PieceType::Pawn).symbol(), 'P');
    assert_eq!(Piece::new(Color::White, PieceType::Knight).symbol(), 'N');
    assert_eq!(Piece::new(Color::White, PieceType::King).symbol(), 'K');
    assert_eq!(Piece::new(Color::Black, PieceType::Queen).symbol(), 'q');
    assert_eq!(Piece::new(Color::Black, PieceType::Bishop).symbol(), 'b');
    assert_eq!(Piece::new(Color::Black, PieceType::Rook).symbol(), 'r');
}
