use vstd::prelude::*;

verus! {

/// Candidate destinations of a white pawn on square `from`: one rank up,
/// and two ranks up from its starting rank; none from the last rank.
pub fn get_white_pawn_move(from: usize) -> (r: (Option<usize>, Option<usize>))
    requires
        from + 8 <= usize::MAX,
    ensures
        from / 8 == 7 ==> r == (None::<usize>, None::<usize>),
        from / 8 != 7 ==> r.0 == Some((from + 8) as usize),
        from / 8 != 7 && from / 8 == 1 ==> r.1 == Some((from + 16) as usize),
        from / 8 != 7 && from / 8 != 1 ==> r.1 is None,
{
    if from / 8 == 7 {
        return (None, None);
    }
    let one_step = from + 8;
    let two_steps = if from / 8 == 1 { Some(from + 16) } else { None };
    (Some(one_step), two_steps)
}

/// Candidate destinations of a black pawn on square `from`, counted the way
/// the white ones are: eight squares on, and sixteen from the second rank.
pub fn get_black_pawn_move(from: usize) -> (r: (usize, Option<usize>))
    requires
        from + 8 <= usize::MAX,
    ensures
        r.0 == from + 8,
        from / 8 == 1 ==> r.1 == Some((from + 16) as usize),
        from / 8 != 1 ==> r.1 is None,
{
    let one_step = from + 8;
    let two_steps = if from / 8 == 1 { Some(from + 16) } else { None };
    (one_step, two_steps)
}

} // verus!
