use vstd::prelude::*;

verus! {

broadcast use vstd::string::group_string_axioms;

/// Index of a file letter `'a'..='h'` counted from `'a'`.
pub open spec fn file_offset(c: char) -> int {
    c as int - 'a' as int
}

/// Index of a rank digit `'1'..='8'` counted from `'1'`.
pub open spec fn rank_offset(c: char) -> int {
    c as int - '1' as int
}

pub open spec fn is_file(c: char) -> bool {
    'a' <= c && c <= 'h'
}

pub open spec fn is_rank(c: char) -> bool {
    '1' <= c && c <= '8'
}

/// The square that a piece of text names: a file letter followed by a rank
/// digit; anything after those two characters is not read.
pub open spec fn decode(s: Seq<char>) -> Option<int> {
    if s.len() >= 2 && is_file(s[0]) && is_rank(s[1]) {
        Some(rank_offset(s[1]) * 8 + file_offset(s[0]))
    } else {
        None
    }
}

/// The two characters that name square `idx` (for `0 <= idx < 64`).
pub open spec fn encode(idx: int) -> Seq<char> {
    seq![
        seq!['a', 'b', 'c', 'd', 'e', 'f', 'g', 'h'][idx % 8],
        seq!['1', '2', '3', '4', '5', '6', '7', '8'][idx / 8],
    ]
}

/// Decodes algebraic square notation such as `"e4"` into a square index.
pub fn notation_to_idx(notation: &str) -> (r: Option<usize>)
    ensures
        r matches Some(i) ==> i < 64,
        r is Some <==> decode(notation@) is Some,
        r matches Some(i) ==> decode(notation@) == Some(i as int),
{
    let mut chars = notation.chars();
    let file_char = match chars.next() {
        Some(c) => c,
        None => return None,
    };
    let rank_char = match chars.next() {
        Some(c) => c,
        None => return None,
    };
    if !('a' <= file_char && file_char <= 'h') || !('1' <= rank_char && rank_char <= '8') {
        return None;
    }
    let file = (file_char as u32 - 'a' as u32) as usize;
    let rank = (rank_char as u32 - '1' as u32) as usize;
    Some(rank * 8 + file)
}

/// Every square round-trips: the text that names square `idx` decodes back
/// to `idx`.
pub proof fn lemma_decode_encode(idx: int)
    requires
        0 <= idx < 64,
    ensures
        encode(idx).len() == 2,
        decode(encode(idx)) == Some(idx),
{
    let f = idx % 8;
    let r = idx / 8;
    assert(0 <= f < 8 && 0 <= r < 8 && idx == r * 8 + f);
    let s = encode(idx);
    assert(s[0] == seq!['a', 'b', 'c', 'd', 'e', 'f', 'g', 'h'][f]);
    assert(s[1] == seq!['1', '2', '3', '4', '5', '6', '7', '8'][r]);
    assert(is_file(s[0]) && file_offset(s[0]) == f) by {
        assert(f == 0 || f == 1 || f == 2 || f == 3 || f == 4 || f == 5 || f == 6 || f == 7);
    }
    assert(is_rank(s[1]) && rank_offset(s[1]) == r) by {
        assert(r == 0 || r == 1 || r == 2 || r == 3 || r == 4 || r == 5 || r == 6 || r == 7);
    }
}

} // verus!
