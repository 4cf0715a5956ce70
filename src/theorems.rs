use vstd::arithmetic::power2::{lemma2_to64, lemma2_to64_rest, lemma_pow2_pos, lemma_pow2_unfold, pow2};
use vstd::prelude::*;

use crate::board::{lemma_after_move_bitboard, square_mask, start_position, Board};
use crate::types::{Color, Piece, PieceType};

verus! {

/// The number of set bits of `b`: how many squares a bitboard holds.
pub open spec fn pop_count(b: u64) -> nat
    decreases b,
{
    if b == 0 {
        0
    } else {
        (b % 2) as nat + pop_count(b / 2)
    }
}

/// One halving step of `pop_count`, also for zero.
proof fn lemma_pop_count_step(b: u64)
    ensures
        pop_count(b) == (b % 2) as nat + pop_count(b / 2),
{
}

/// The bits of `lo + hi * 2^k`, where `lo < 2^k`, are those of `lo` and
/// those of `hi`.
pub proof fn lemma_pop_count_split(lo: u64, hi: u64, k: nat)
    requires
        lo < pow2(k),
        lo + hi * pow2(k) <= u64::MAX,
    ensures
        pop_count((lo + hi * pow2(k)) as u64) == pop_count(lo) + pop_count(hi),
    decreases k,
{
    let x = (lo + hi * pow2(k)) as u64;
    if k == 0 {
        assert(pow2(0) == 1) by {
            lemma2_to64();
        }
        assert(lo == 0);
        assert(x == hi);
    } else {
        let p = pow2((k - 1) as nat);
        lemma_pow2_unfold(k);
        lemma_pow2_pos((k - 1) as nat);
        let lo2 = lo / 2;
        assert(lo2 < p);
        let m = hi * p;
        assert(hi * (2 * p) == 2 * m) by (nonlinear_arith)
            requires
                m == hi * p,
        ;
        assert(m >= 0) by (nonlinear_arith)
            requires
                m == hi * p,
                p > 0,
        ;
        assert(x == lo + 2 * m);
        assert(x % 2 == lo % 2 && x / 2 == lo2 + m);
        lemma_pop_count_split(lo2 as u64, hi, (k - 1) as nat);
        lemma_pop_count_step(x);
        lemma_pop_count_step(lo);
    }
}

/// Set-bit counts of the white starting bitboards.
proof fn lemma_start_pop_counts_low()
    ensures
        pop_count(0xFF00u64) == 8,
        pop_count(0x81u64) == 2,
        pop_count(0x42u64) == 2,
        pop_count(0x24u64) == 2,
        pop_count(0x08u64) == 1,
        pop_count(0x10u64) == 1,
        pop_count(0xFFFFu64) == 16,
{
    reveal_with_fuel(pop_count, 17);
}

/// Set-bit counts of the starting bitboards.
proof fn lemma_start_pop_counts()
    ensures
        pop_count(0xFF00u64) == 8,
        pop_count(0x00FF_0000_0000_0000u64) == 8,
        pop_count(0x81u64) == 2,
        pop_count(0x8100_0000_0000_0000u64) == 2,
        pop_count(0x42u64) == 2,
        pop_count(0x4200_0000_0000_0000u64) == 2,
        pop_count(0x24u64) == 2,
        pop_count(0x2400_0000_0000_0000u64) == 2,
        pop_count(0x08u64) == 1,
        pop_count(0x0800_0000_0000_0000u64) == 1,
        pop_count(0x10u64) == 1,
        pop_count(0x1000_0000_0000_0000u64) == 1,
        pop_count(0xFFFF_0000_0000_FFFFu64) == 32,
{
    lemma_start_pop_counts_low();
    lemma2_to64();
    lemma2_to64_rest();
    assert(pop_count(0) == 0);
    lemma_pop_count_split(0, 0xFF00, 40);
    lemma_pop_count_split(0, 0x81, 56);
    lemma_pop_count_split(0, 0x42, 56);
    lemma_pop_count_split(0, 0x24, 56);
    lemma_pop_count_split(0, 0x08, 56);
    lemma_pop_count_split(0, 0x10, 56);
    lemma_pop_count_split(0xFFFF, 0xFFFF, 48);
}

/// The starting position has 8 pawns, 2 rooks, 2 knights, 2 bishops, 1 queen
/// and 1 king on each side (16, 4, 4, 4, 2 and 2 in all), and the two sides
/// together hold 32 squares.
pub proof fn lemma_start_counts()
    ensures
        forall|c: Color| pop_count(#[trigger] start_position().bitboard(Piece { color: c, piece_type: PieceType::Pawn })) == 8,
        forall|c: Color| pop_count(#[trigger] start_position().bitboard(Piece { color: c, piece_type: PieceType::Rook })) == 2,
        forall|c: Color| pop_count(#[trigger] start_position().bitboard(Piece { color: c, piece_type: PieceType::Knight })) == 2,
        forall|c: Color| pop_count(#[trigger] start_position().bitboard(Piece { color: c, piece_type: PieceType::Bishop })) == 2,
        forall|c: Color| pop_count(#[trigger] start_position().bitboard(Piece { color: c, piece_type: PieceType::Queen })) == 1,
        forall|c: Color| pop_count(#[trigger] start_position().bitboard(Piece { color: c, piece_type: PieceType::King })) == 1,
        pop_count(start_position().occupancy_of(Color::White) | start_position().occupancy_of(Color::Black)) == 32,
{
    lemma_start_pop_counts();
    let s = start_position();
    assert(s.occupancy_of(Color::White) | s.occupancy_of(Color::Black) == 0xFFFF_0000_0000_FFFFu64) by {
        assert(0xFF00u64 | 0x81u64 | 0x42u64 | 0x24u64 | 0x08u64 | 0x10u64 == 0xFFFFu64) by (bit_vector);
        assert(0x00FF_0000_0000_0000u64 | 0x8100_0000_0000_0000u64 | 0x4200_0000_0000_0000u64
            | 0x2400_0000_0000_0000u64 | 0x0800_0000_0000_0000u64 | 0x1000_0000_0000_0000u64
            == 0xFFFF_0000_0000_0000u64) by (bit_vector);
        assert(0xFFFFu64 | 0xFFFF_0000_0000_0000u64 == 0xFFFF_0000_0000_FFFFu64) by (bit_vector);
    }
}

/// Where a piece that stands on square `f` moves to another square `t` of
/// a board with no doubly held square, a lookup of `t` afterwards finds that
/// piece, `f` is empty, and every other square holds what it held before.
pub proof fn lemma_move_relocates(b: Board, p: Piece, f: int, t: int)
    requires
        b.wf(),
        0 <= f < 64,
        0 <= t < 64,
        f != t,
        b.hits(p, square_mask(f)),
    ensures
        b.after_move(p, square_mask(f), square_mask(t)).is_first_hit(square_mask(t), Some(p)),
        b.after_move(p, square_mask(f), square_mask(t)).is_first_hit(square_mask(f), None),
        forall|s: int, q: Piece|
            0 <= s < 64 && s != f && s != t ==> #[trigger] b.after_move(p, square_mask(f), square_mask(t)).hits(q, square_mask(s))
                == b.hits(q, square_mask(s)),
{
    let fm = square_mask(f);
    let tm = square_mask(t);
    let a = b.after_move(p, fm, tm);
    let fu = f as u64;
    let tu = t as u64;
    lemma_after_move_bitboard(b, p, fm, tm);
    assert(fm & tm == 0) by (bit_vector)
        requires
            fm == 1u64 << fu,
            tm == 1u64 << tu,
            fu < 64,
            tu < 64,
            fu != tu,
    ;
    let xp = b.bitboard(p);
    assert((((xp & !fm) & !tm) | tm) & tm != 0 && (((xp & !fm) & !tm) | tm) & fm == 0) by (bit_vector)
        requires
            tm == 1u64 << tu,
            tu < 64,
            fm & tm == 0,
    ;
    assert(a.bitboard(p) == ((xp & !fm) & !tm) | tm);
    assert(a.hits(p, tm) && !a.hits(p, fm));
    assert forall|q: Piece| q != p implies !#[trigger] a.hits(q, tm) && !a.hits(q, fm) by {
        let y = b.bitboard(q);
        assert(xp & y == 0);
        assert((y & !tm) & tm == 0 && (y & !tm) & fm == 0) by (bit_vector)
            requires
                fm == 1u64 << fu,
                fu < 64,
                xp & y == 0,
                xp & fm != 0,
        ;
    }
    assert forall|q: Piece| !#[trigger] a.hits(q, fm) by {
        if q != p {
            assert(!a.hits(q, tm));
        }
    }
    assert forall|s: int, q: Piece| 0 <= s < 64 && s != f && s != t implies #[trigger] a.hits(q, square_mask(s))
        == b.hits(q, square_mask(s)) by {
        let sm = square_mask(s);
        let su = s as u64;
        let y = b.bitboard(q);
        assert((((y & !fm) & !tm) | tm) & sm == y & sm && (y & !tm) & sm == y & sm) by (bit_vector)
            requires
                fm == 1u64 << fu,
                tm == 1u64 << tu,
                sm == 1u64 << su,
                fu < 64,
                tu < 64,
                su < 64,
                su != fu,
                su != tu,
        ;
    }
}

} // verus!
