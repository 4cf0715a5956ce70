use vstd::prelude::*;

use crate::notation::{decode, notation_to_idx};
use crate::types::{Bitboard, Color, Piece, PieceType};

verus! {

/// A chess position: one bitboard for each colour and piece type.
pub struct Board {
    pub white_pawns: Bitboard,
    pub white_rooks: Bitboard,
    pub white_knights: Bitboard,
    pub white_bishops: Bitboard,
    pub white_queens: Bitboard,
    pub white_king: Bitboard,
    pub black_pawns: Bitboard,
    pub black_rooks: Bitboard,
    pub black_knights: Bitboard,
    pub black_bishops: Bitboard,
    pub black_queens: Bitboard,
    pub black_king: Bitboard,
}

/// The single-bit mask of square `idx`.
pub open spec fn square_mask(idx: int) -> u64 {
    1u64 << (idx as u64)
}

/// Why a move was refused.
#[derive(Debug, Clone, Copy, PartialEq, Eq, Structural)]
pub enum MoveError {
    /// A square was not written as a file letter `a`-`h` and a rank digit `1`-`8`.
    InvalidNotation,
    /// No piece stands on the source square.
    EmptySource,
    /// The destination holds a piece of the moving side.
    SelfCapture,
}

/// The piece at position `k` of the fixed lookup order.
fn piece_at_order(k: usize) -> (p: Piece)
    requires
        k < 12,
    ensures
        p.order() == k,
{
    let color = if k < 6 { Color::White } else { Color::Black };
    let t = k % 6;
    let piece_type = if t == 0 {
        PieceType::Pawn
    } else if t == 1 {
        PieceType::Rook
    } else if t == 2 {
        PieceType::Knight
    } else if t == 3 {
        PieceType::Bishop
    } else if t == 4 {
        PieceType::Queen
    } else {
        PieceType::King
    };
    Piece::new(color, piece_type)
}

impl Board {
    /// The bitboard that holds the squares of pieces equal to `p`.
    pub open spec fn bitboard(self, p: Piece) -> u64 {
        match (p.color, p.piece_type) {
            (Color::White, PieceType::Pawn) => self.white_pawns,
            (Color::White, PieceType::Rook) => self.white_rooks,
            (Color::White, PieceType::Knight) => self.white_knights,
            (Color::White, PieceType::Bishop) => self.white_bishops,
            (Color::White, PieceType::Queen) => self.white_queens,
            (Color::White, PieceType::King) => self.white_king,
            (Color::Black, PieceType::Pawn) => self.black_pawns,
            (Color::Black, PieceType::Rook) => self.black_rooks,
            (Color::Black, PieceType::Knight) => self.black_knights,
            (Color::Black, PieceType::Bishop) => self.black_bishops,
            (Color::Black, PieceType::Queen) => self.black_queens,
            (Color::Black, PieceType::King) => self.black_king,
        }
    }

    /// This board with the bitboard of `p` replaced by `v`.
    pub open spec fn with_bitboard(self, p: Piece, v: u64) -> Board {
        match (p.color, p.piece_type) {
            (Color::White, PieceType::Pawn) => Board { white_pawns: v, ..self },
            (Color::White, PieceType::Rook) => Board { white_rooks: v, ..self },
            (Color::White, PieceType::Knight) => Board { white_knights: v, ..self },
            (Color::White, PieceType::Bishop) => Board { white_bishops: v, ..self },
            (Color::White, PieceType::Queen) => Board { white_queens: v, ..self },
            (Color::White, PieceType::King) => Board { white_king: v, ..self },
            (Color::Black, PieceType::Pawn) => Board { black_pawns: v, ..self },
            (Color::Black, PieceType::Rook) => Board { black_rooks: v, ..self },
            (Color::Black, PieceType::Knight) => Board { black_knights: v, ..self },
            (Color::Black, PieceType::Bishop) => Board { black_bishops: v, ..self },
            (Color::Black, PieceType::Queen) => Board { black_queens: v, ..self },
            (Color::Black, PieceType::King) => Board { black_king: v, ..self },
        }
    }

    /// Whether a piece equal to `p` stands on a square of `mask`.
    pub open spec fn hits(self, p: Piece, mask: u64) -> bool {
        self.bitboard(p) & mask != 0
    }

    /// `r` is what a lookup of `mask` finds: the first piece in the fixed
    /// order whose bitboard meets `mask`, or nothing where none does.
    pub open spec fn is_first_hit(self, mask: u64, r: Option<Piece>) -> bool {
        match r {
            Some(p) => self.hits(p, mask) && forall|q: Piece| q.order() < p.order() ==> !#[trigger] self.hits(q, mask),
            None => forall|q: Piece| !#[trigger] self.hits(q, mask),
        }
    }

    /// The squares held by pieces of colour `c`.
    pub open spec fn occupancy_of(self, c: Color) -> u64 {
        self.bitboard(Piece { color: c, piece_type: PieceType::Pawn })
            | self.bitboard(Piece { color: c, piece_type: PieceType::Rook })
            | self.bitboard(Piece { color: c, piece_type: PieceType::Knight })
            | self.bitboard(Piece { color: c, piece_type: PieceType::Bishop })
            | self.bitboard(Piece { color: c, piece_type: PieceType::Queen })
            | self.bitboard(Piece { color: c, piece_type: PieceType::King })
    }

    /// The board after `p` moves from the square of `from_mask` to that of
    /// `to_mask`: `p` leaves the source, whatever stood on the destination is
    /// removed, and `p` is placed there.
    pub open spec fn after_move(self, p: Piece, from_mask: u64, to_mask: u64) -> Board {
        let moved = |q: Piece| if q == p {
            ((self.bitboard(q) & !from_mask) & !to_mask) | to_mask
        } else {
            self.bitboard(q) & !to_mask
        };
        Board {
            white_pawns: moved(Piece { color: Color::White, piece_type: PieceType::Pawn }),
            white_rooks: moved(Piece { color: Color::White, piece_type: PieceType::Rook }),
            white_knights: moved(Piece { color: Color::White, piece_type: PieceType::Knight }),
            white_bishops: moved(Piece { color: Color::White, piece_type: PieceType::Bishop }),
            white_queens: moved(Piece { color: Color::White, piece_type: PieceType::Queen }),
            white_king: moved(Piece { color: Color::White, piece_type: PieceType::King }),
            black_pawns: moved(Piece { color: Color::Black, piece_type: PieceType::Pawn }),
            black_rooks: moved(Piece { color: Color::Black, piece_type: PieceType::Rook }),
            black_knights: moved(Piece { color: Color::Black, piece_type: PieceType::Knight }),
            black_bishops: moved(Piece { color: Color::Black, piece_type: PieceType::Bishop }),
            black_queens: moved(Piece { color: Color::Black, piece_type: PieceType::Queen }),
            black_king: moved(Piece { color: Color::Black, piece_type: PieceType::King }),
        }
    }

    /// What a move from the square of `from_mask` to that of `to_mask` may
    /// leave behind, given the result `r` and the board `after`: with no
    /// piece on the source it fails with `EmptySource`; otherwise the piece
    /// that a lookup finds there either meets its own side on the
    /// destination and fails with `SelfCapture`, or moves.
    pub open spec fn moved_as(self, from_mask: u64, to_mask: u64, r: Result<(), MoveError>, after: Board) -> bool {
        &&& (r == Err::<(), MoveError>(MoveError::EmptySource)) <==> (forall|q: Piece| !#[trigger] self.hits(q, from_mask))
        &&& forall|p: Piece| #[trigger] self.is_first_hit(from_mask, Some(p)) ==> {
            if self.occupancy_of(p.color) & to_mask != 0 {
                r == Err::<(), MoveError>(MoveError::SelfCapture) && after == self
            } else {
                r == Ok::<(), MoveError>(()) && after == self.after_move(p, from_mask, to_mask)
            }
        }
    }

    /// No square is held by two pieces: distinct bitboards never intersect.
    pub open spec fn wf(self) -> bool {
        forall|p: Piece, q: Piece|
            p != q ==> #[trigger] self.bitboard(p) & #[trigger] self.bitboard(q) == 0
    }

    /// The board with the standard starting position.
    pub fn new() -> (r: Self)
        ensures
            r == start_position(),
            r.wf(),
    {
        let r = Board {
            white_pawns: 0x0000_0000_0000_FF00,
            white_rooks: 0x0000_0000_0000_0081,
            white_knights: 0x0000_0000_0000_0042,
            white_bishops: 0x0000_0000_0000_0024,
            white_queens: 0x0000_0000_0000_0008,
            white_king: 0x0000_0000_0000_0010,
            black_pawns: 0x00FF_0000_0000_0000,
            black_rooks: 0x8100_0000_0000_0000,
            black_knights: 0x4200_0000_0000_0000,
            black_bishops: 0x2400_0000_0000_0000,
            black_queens: 0x0800_0000_0000_0000,
            black_king: 0x1000_0000_0000_0000,
        };
        proof {
            lemma_start_disjoint();
        }
        r
    }

    /// Reads the bitboard of the given colour and piece type.
    pub fn get_bitboard(&self, color: Color, piece_type: PieceType) -> (r: Bitboard)
        ensures
            r == self.bitboard(Piece { color, piece_type }),
    {
        match (color, piece_type) {
            (Color::White, PieceType::Pawn) => self.white_pawns,
            (Color::White, PieceType::Rook) => self.white_rooks,
            (Color::White, PieceType::Knight) => self.white_knights,
            (Color::White, PieceType::Bishop) => self.white_bishops,
            (Color::White, PieceType::Queen) => self.white_queens,
            (Color::White, PieceType::King) => self.white_king,
            (Color::Black, PieceType::Pawn) => self.black_pawns,
            (Color::Black, PieceType::Rook) => self.black_rooks,
            (Color::Black, PieceType::Knight) => self.black_knights,
            (Color::Black, PieceType::Bishop) => self.black_bishops,
            (Color::Black, PieceType::Queen) => self.black_queens,
            (Color::Black, PieceType::King) => self.black_king,
        }
    }

    /// The one place through which the board is changed: a mutable reference
    /// to the bitboard of the given colour and piece type.
    pub fn get_bitboard_mut(&mut self, color: Color, piece_type: PieceType) -> (r: &mut Bitboard)
        ensures
            *r == old(self).bitboard(Piece { color, piece_type }),
            *final(self) == old(self).with_bitboard(Piece { color, piece_type }, *final(r)),
    {
        match (color, piece_type) {
            (Color::White, PieceType::Pawn) => &mut self.white_pawns,
            (Color::White, PieceType::Rook) => &mut self.white_rooks,
            (Color::White, PieceType::Knight) => &mut self.white_knights,
            (Color::White, PieceType::Bishop) => &mut self.white_bishops,
            (Color::White, PieceType::Queen) => &mut self.white_queens,
            (Color::White, PieceType::King) => &mut self.white_king,
            (Color::Black, PieceType::Pawn) => &mut self.black_pawns,
            (Color::Black, PieceType::Rook) => &mut self.black_rooks,
            (Color::Black, PieceType::Knight) => &mut self.black_knights,
            (Color::Black, PieceType::Bishop) => &mut self.black_bishops,
            (Color::Black, PieceType::Queen) => &mut self.black_queens,
            (Color::Black, PieceType::King) => &mut self.black_king,
        }
    }

    /// Finds the piece on a square of `mask`, scanning the bitboards in the
    /// fixed order (white pawn to king, then black pawn to king).
    pub fn get_piece_by_mask(&self, mask: u64) -> (r: Option<Piece>)
        ensures
            self.is_first_hit(mask, r),
    {
        let mut k: usize = 0;
        while k < 12
            invariant
                k <= 12,
                forall|q: Piece| q.order() < k ==> !#[trigger] self.hits(q, mask),
            decreases 12 - k,
        {
            let p = piece_at_order(k);
            if self.get_bitboard(p.color, p.piece_type) & mask != 0 {
                return Some(p);
            }
            k += 1;
        }
        None
    }

    /// The piece on the square named by `pos`; nothing where the notation is
    /// invalid or the square is empty.
    pub fn get_piece_at(&self, pos: &str) -> (r: Option<Piece>)
        ensures
            decode(pos@) is None ==> r is None,
            decode(pos@) matches Some(i) ==> self.is_first_hit(square_mask(i), r),
    {
        let idx = match notation_to_idx(pos) {
            Some(i) => i,
            None => return None,
        };
        let mask = 1u64 << idx;
        self.get_piece_by_mask(mask)
    }

    /// The squares held by pieces of colour `color`.
    pub fn occupancy(&self, color: Color) -> (r: Bitboard)
        ensures
            r == self.occupancy_of(color),
    {
        self.get_bitboard(color, PieceType::Pawn) | self.get_bitboard(color, PieceType::Rook)
            | self.get_bitboard(color, PieceType::Knight) | self.get_bitboard(color, PieceType::Bishop)
            | self.get_bitboard(color, PieceType::Queen) | self.get_bitboard(color, PieceType::King)
    }

    /// The squares held by white pieces.
    pub fn white_pieces(&self) -> (r: Bitboard)
        ensures
            r == self.occupancy_of(Color::White),
    {
        self.white_pawns | self.white_rooks | self.white_knights | self.white_bishops
            | self.white_queens | self.white_king
    }

    /// The squares held by black pieces.
    pub fn black_pieces(&self) -> (r: Bitboard)
        ensures
            r == self.occupancy_of(Color::Black),
    {
        self.black_pawns | self.black_rooks | self.black_knights | self.black_bishops
            | self.black_queens | self.black_king
    }

    /// The character drawn for square `idx`: the glyph of the piece that a
    /// lookup finds there, or `'.'` for an empty square.
    pub fn square_symbol(&self, idx: usize) -> (r: char)
        requires
            idx < 64,
        ensures
            forall|p: Piece| #[trigger] self.is_first_hit(square_mask(idx as int), Some(p)) ==> r == p.glyph(),
            self.is_first_hit(square_mask(idx as int), None) ==> r == '.',
    {
        match self.get_piece_by_mask(1u64 << idx) {
            Some(p) => p.symbol(),
            None => '.',
        }
    }

    /// Moves the piece on square `from` to square `to`, removing whatever
    /// stood there. The move is refused, and the board left as it was, when
    /// a square is not valid notation, when `from` is empty, or when `to`
    /// holds a piece of the moving side.
    pub fn move_piece(&mut self, from: &str, to: &str) -> (r: Result<(), MoveError>)
        ensures
            decode(from@) is None || decode(to@) is None ==> r == Err::<(), MoveError>(MoveError::InvalidNotation),
            (decode(from@), decode(to@)) matches (Some(f), Some(t)) ==> old(self).moved_as(square_mask(f), square_mask(t), r, *final(self)),
            r is Err ==> *final(self) == *old(self),
            old(self).wf() ==> final(self).wf(),
            decode(from@) is Some && decode(from@) == decode(to@) ==> r is Err,
    {
        let from_idx = match notation_to_idx(from) {
            Some(i) => i,
            None => return Err(MoveError::InvalidNotation),
        };
        let to_idx = match notation_to_idx(to) {
            Some(i) => i,
            None => return Err(MoveError::InvalidNotation),
        };
        let from_mask = 1u64 << from_idx;
        let to_mask = 1u64 << to_idx;

        let piece = match self.get_piece_by_mask(from_mask) {
            Some(p) => p,
            None => return Err(MoveError::EmptySource),
        };
        proof {
            lemma_own_square_occupied(*self, from_mask, piece);
        }
        if self.occupancy(piece.color) & to_mask != 0 {
            return Err(MoveError::SelfCapture);
        }
        let ghost start = *self;

        // Vacate the source.
        *self.get_bitboard_mut(piece.color, piece.piece_type) &= !from_mask;
        let ghost vacated = *self;
        proof {
            lemma_with_bitboard(start, piece, start.bitboard(piece) & !from_mask);
        }

        // Remove whatever stands on the destination, of either colour.
        let mut k: usize = 0;
        while k < 12
            invariant
                k <= 12,
                forall|q: Piece| #[trigger] self.bitboard(q) == if q.order() < k {
                    vacated.bitboard(q) & !to_mask
                } else {
                    vacated.bitboard(q)
                },
            decreases 12 - k,
        {
            let q = piece_at_order(k);
            let ghost before = *self;
            *self.get_bitboard_mut(q.color, q.piece_type) &= !to_mask;
            proof {
                lemma_with_bitboard(before, q, before.bitboard(q) & !to_mask);
            }
            k += 1;
        }

        // Place the piece on the destination.
        let ghost cleared = *self;
        *self.get_bitboard_mut(piece.color, piece.piece_type) |= to_mask;
        proof {
            lemma_with_bitboard(cleared, piece, cleared.bitboard(piece) | to_mask);
            lemma_after_move_bitboard(start, piece, from_mask, to_mask);
            lemma_same_bitboards(*self, start.after_move(piece, from_mask, to_mask));
            if start.wf() {
                lemma_move_keeps_exclusive(start, piece, from_mask, to_mask);
            }
        }
        Ok(())
    }
}

/// Replacing one bitboard leaves the other eleven as they were.
proof fn lemma_with_bitboard(b: Board, p: Piece, v: u64)
    ensures
        forall|q: Piece| #[trigger] b.with_bitboard(p, v).bitboard(q) == if q == p { v } else { b.bitboard(q) },
{
}

/// The bitboards of a board after a move, one by one.
pub(crate) proof fn lemma_after_move_bitboard(b: Board, p: Piece, from_mask: u64, to_mask: u64)
    ensures
        forall|q: Piece| #[trigger] b.after_move(p, from_mask, to_mask).bitboard(q) == if q == p {
            ((b.bitboard(q) & !from_mask) & !to_mask) | to_mask
        } else {
            b.bitboard(q) & !to_mask
        },
{
}

/// Two boards with the same twelve bitboards are the same board.
proof fn lemma_same_bitboards(a: Board, b: Board)
    requires
        forall|q: Piece| #[trigger] a.bitboard(q) == b.bitboard(q),
    ensures
        a == b,
{
    assert(a.white_pawns == b.white_pawns && a.white_rooks == b.white_rooks) by {
        assert(a.bitboard(Piece { color: Color::White, piece_type: PieceType::Pawn }) == b.bitboard(Piece { color: Color::White, piece_type: PieceType::Pawn }));
        assert(a.bitboard(Piece { color: Color::White, piece_type: PieceType::Rook }) == b.bitboard(Piece { color: Color::White, piece_type: PieceType::Rook }));
    }
    assert(a.white_knights == b.white_knights && a.white_bishops == b.white_bishops) by {
        assert(a.bitboard(Piece { color: Color::White, piece_type: PieceType::Knight }) == b.bitboard(Piece { color: Color::White, piece_type: PieceType::Knight }));
        assert(a.bitboard(Piece { color: Color::White, piece_type: PieceType::Bishop }) == b.bitboard(Piece { color: Color::White, piece_type: PieceType::Bishop }));
    }
    assert(a.white_queens == b.white_queens && a.white_king == b.white_king) by {
        assert(a.bitboard(Piece { color: Color::White, piece_type: PieceType::Queen }) == b.bitboard(Piece { color: Color::White, piece_type: PieceType::Queen }));
        assert(a.bitboard(Piece { color: Color::White, piece_type: PieceType::King }) == b.bitboard(Piece { color: Color::White, piece_type: PieceType::King }));
    }
    assert(a.black_pawns == b.black_pawns && a.black_rooks == b.black_rooks) by {
        assert(a.bitboard(Piece { color: Color::Black, piece_type: PieceType::Pawn }) == b.bitboard(Piece { color: Color::Black, piece_type: PieceType::Pawn }));
        assert(a.bitboard(Piece { color: Color::Black, piece_type: PieceType::Rook }) == b.bitboard(Piece { color: Color::Black, piece_type: PieceType::Rook }));
    }
    assert(a.black_knights == b.black_knights && a.black_bishops == b.black_bishops) by {
        assert(a.bitboard(Piece { color: Color::Black, piece_type: PieceType::Knight }) == b.bitboard(Piece { color: Color::Black, piece_type: PieceType::Knight }));
        assert(a.bitboard(Piece { color: Color::Black, piece_type: PieceType::Bishop }) == b.bitboard(Piece { color: Color::Black, piece_type: PieceType::Bishop }));
    }
    assert(a.black_queens == b.black_queens && a.black_king == b.black_king) by {
        assert(a.bitboard(Piece { color: Color::Black, piece_type: PieceType::Queen }) == b.bitboard(Piece { color: Color::Black, piece_type: PieceType::Queen }));
        assert(a.bitboard(Piece { color: Color::Black, piece_type: PieceType::King }) == b.bitboard(Piece { color: Color::Black, piece_type: PieceType::King }));
    }
}

/// A move keeps the bitboards pairwise disjoint: after it, as before, no
/// square holds two pieces.
pub proof fn lemma_move_keeps_exclusive(b: Board, p: Piece, from_mask: u64, to_mask: u64)
    requires
        b.wf(),
    ensures
        b.after_move(p, from_mask, to_mask).wf(),
{
    let a = b.after_move(p, from_mask, to_mask);
    lemma_after_move_bitboard(b, p, from_mask, to_mask);
    assert forall|q1: Piece, q2: Piece| q1 != q2 implies #[trigger] a.bitboard(q1) & #[trigger] a.bitboard(q2) == 0 by {
        let x = b.bitboard(q1);
        let y = b.bitboard(q2);
        assert(x & y == 0);
        let f = from_mask;
        let t = to_mask;
        if q1 == p {
            assert((((x & !f) & !t) | t) & (y & !t) == 0) by (bit_vector)
                requires
                    x & y == 0,
            ;
        } else if q2 == p {
            assert((x & !t) & (((y & !f) & !t) | t) == 0) by (bit_vector)
                requires
                    x & y == 0,
            ;
        } else {
            assert((x & !t) & (y & !t) == 0) by (bit_vector)
                requires
                    x & y == 0,
            ;
        }
    }
}


/// The piece that a lookup finds is counted in its side's occupancy, so a
/// move from a square to itself is always refused as a capture of the
/// moving side's own piece.
pub proof fn lemma_own_square_occupied(b: Board, mask: u64, p: Piece)
    requires
        b.is_first_hit(mask, Some(p)),
    ensures
        b.occupancy_of(p.color) & mask != 0,
{
    let c = p.color;
    let x0 = b.bitboard(Piece { color: c, piece_type: PieceType::Pawn });
    let x1 = b.bitboard(Piece { color: c, piece_type: PieceType::Rook });
    let x2 = b.bitboard(Piece { color: c, piece_type: PieceType::Knight });
    let x3 = b.bitboard(Piece { color: c, piece_type: PieceType::Bishop });
    let x4 = b.bitboard(Piece { color: c, piece_type: PieceType::Queen });
    let x5 = b.bitboard(Piece { color: c, piece_type: PieceType::King });
    assert((x0 | x1 | x2 | x3 | x4 | x5) & mask == 0 ==> x0 & mask == 0 && x1 & mask == 0 && x2 & mask == 0
        && x3 & mask == 0 && x4 & mask == 0 && x5 & mask == 0) by (bit_vector);
}

/// The standard starting position.
pub open spec fn start_position() -> Board {
    Board {
        white_pawns: 0x0000_0000_0000_FF00,
        white_rooks: 0x0000_0000_0000_0081,
        white_knights: 0x0000_0000_0000_0042,
        white_bishops: 0x0000_0000_0000_0024,
        white_queens: 0x0000_0000_0000_0008,
        white_king: 0x0000_0000_0000_0010,
        black_pawns: 0x00FF_0000_0000_0000,
        black_rooks: 0x8100_0000_0000_0000,
        black_knights: 0x4200_0000_0000_0000,
        black_bishops: 0x2400_0000_0000_0000,
        black_queens: 0x0800_0000_0000_0000,
        black_king: 0x1000_0000_0000_0000,
    }
}

/// The twelve starting bitboards are pairwise disjoint.
proof fn lemma_start_disjoint()
    ensures
        start_position().wf(),
{
    let bbs = seq![
        0x0000_0000_0000_FF00u64, 0x0000_0000_0000_0081u64, 0x0000_0000_0000_0042u64,
        0x0000_0000_0000_0024u64, 0x0000_0000_0000_0008u64, 0x0000_0000_0000_0010u64,
        0x00FF_0000_0000_0000u64, 0x8100_0000_0000_0000u64, 0x4200_0000_0000_0000u64,
        0x2400_0000_0000_0000u64, 0x0800_0000_0000_0000u64, 0x1000_0000_0000_0000u64,
    ];
    assert(forall|i: int, j: int| 0 <= i < 12 && 0 <= j < 12 && i != j ==> #[trigger] bbs[i] & #[trigger] bbs[j] == 0) by {
        assert forall|i: int, j: int| 0 <= i < 12 && 0 <= j < 12 && i != j implies #[trigger] bbs[i] & #[trigger] bbs[j] == 0 by {
            let a = bbs[i];
            let b = bbs[j];
            assert(a & b == 0) by (bit_vector)
                requires
                    a == 0xFF00u64 || a == 0x81u64 || a == 0x42u64 || a == 0x24u64 || a == 0x08u64 || a == 0x10u64
                    || a == 0x00FF_0000_0000_0000u64 || a == 0x8100_0000_0000_0000u64 || a == 0x4200_0000_0000_0000u64
                    || a == 0x2400_0000_0000_0000u64 || a == 0x0800_0000_0000_0000u64 || a == 0x1000_0000_0000_0000u64,
                    b == 0xFF00u64 || b == 0x81u64 || b == 0x42u64 || b == 0x24u64 || b == 0x08u64 || b == 0x10u64
                    || b == 0x00FF_0000_0000_0000u64 || b == 0x8100_0000_0000_0000u64 || b == 0x4200_0000_0000_0000u64
                    || b == 0x2400_0000_0000_0000u64 || b == 0x0800_0000_0000_0000u64 || b == 0x1000_0000_0000_0000u64,
                    a != b,
            ;
        }
    }
    let start = start_position();
    assert forall|p: Piece, q: Piece| p != q implies #[trigger] start.bitboard(p) & #[trigger] start.bitboard(q) == 0 by {
        assert(start.bitboard(p) == bbs[p.order()]);
        assert(start.bitboard(q) == bbs[q.order()]);
    }
}

} // verus!
