//! Laws of the line exchange.
use vstd::prelude::*;
use crate::grid::{
    apply_exchanges, base_pattern, base_shift, exchanged, is_grid, is_solution, same_block,
};
use crate::line::{band, swap_index, MapLine};

verus! {

/// Exchanging the same two lines twice gives back the grid one started from.
pub proof fn lemma_exchange_twice(g: Seq<Seq<u8>>, la: MapLine, lb: MapLine)
    requires
        is_grid(g),
        la.exchangeable(lb),
    ensures
        exchanged(exchanged(g, la, lb), la, lb) == g,
{
    assert(exchanged(exchanged(g, la, lb), la, lb) =~~= g);
}

/// Two cells of one block of the base pattern differ in their shifted
/// positions, modulo nine.
proof fn lemma_base_block_distinct(r1: int, c1: int, r2: int, c2: int)
    requires
        0 <= r1 < 9,
        0 <= c1 < 9,
        0 <= r2 < 9,
        0 <= c2 < 9,
        band(r1) == band(r2),
        band(c1) == band(c2),
        r1 != r2 || c1 != c2,
    ensures
        (base_shift(r1) + c1) % 9 != (base_shift(r2) + c2) % 9,
{
    lemma_base_shift_values();
    let x1 = base_shift(r1) + c1;
    let x2 = base_shift(r2) + c2;
    assert(x1 % 9 == if x1 < 9 { x1 } else { x1 - 9 });
    assert(x2 % 9 == if x2 < 9 { x2 } else { x2 - 9 });
    assert(r1 == 0 || r1 == 1 || r1 == 2 || r1 == 3 || r1 == 4 || r1 == 5 || r1 == 6 || r1 == 7
        || r1 == 8);
    assert(r2 == 0 || r2 == 1 || r2 == 2 || r2 == 3 || r2 == 4 || r2 == 5 || r2 == 6 || r2 == 7
        || r2 == 8);
    assert(c1 / 3 == 0 ==> c1 < 3 && c2 < 3);
    assert(c1 / 3 == 1 ==> 3 <= c1 < 6 && 3 <= c2 < 6);
    assert(c1 / 3 == 2 ==> 6 <= c1 && 6 <= c2);
}

/// The shift of each row of the base pattern.
proof fn lemma_base_shift_values()
    ensures
        base_shift(0) == 0,
        base_shift(1) == 6,
        base_shift(2) == 3,
        base_shift(3) == 8,
        base_shift(4) == 5,
        base_shift(5) == 2,
        base_shift(6) == 7,
        base_shift(7) == 4,
        base_shift(8) == 1,
{
}

/// Shifts of two different rows of the base pattern differ.
proof fn lemma_base_shift_distinct(r1: int, r2: int)
    requires
        0 <= r1 < 9,
        0 <= r2 < 9,
        r1 != r2,
    ensures
        base_shift(r1) != base_shift(r2),
        0 <= base_shift(r1) < 9,
{
    lemma_base_shift_values();
    assert(r1 == 0 || r1 == 1 || r1 == 2 || r1 == 3 || r1 == 4 || r1 == 5 || r1 == 6 || r1 == 7
        || r1 == 8);
    assert(r2 == 0 || r2 == 1 || r2 == 2 || r2 == 3 || r2 == 4 || r2 == 5 || r2 == 6 || r2 == 7
        || r2 == 8);
}

/// Each row of the base pattern is `1 2 .. 9` rotated left by its shift.
pub(crate) proof fn lemma_base_pattern_by_shift()
    ensures
        is_grid(base_pattern()),
        forall|r: int, c: int|
            0 <= r < 9 && 0 <= c < 9 ==> #[trigger] base_pattern()[r][c] as int == (base_shift(r) + c)
                % 9 + 1,
{
    let g = base_pattern();
    lemma_base_shift_values();
    assert forall|r: int, c: int| 0 <= r < 9 && 0 <= c < 9 implies #[trigger] g[r][c] as int == (
    base_shift(r) + c) % 9 + 1 by {
        assert(r == 0 || r == 1 || r == 2 || r == 3 || r == 4 || r == 5 || r == 6 || r == 7
            || r == 8);
        assert(c == 0 || c == 1 || c == 2 || c == 3 || c == 4 || c == 5 || c == 6 || c == 7
            || c == 8);
    }
}

/// The base pattern is a Sudoku solution.
pub proof fn lemma_base_pattern_is_solution()
    ensures
        is_solution(base_pattern()),
{
    let g = base_pattern();
    lemma_base_pattern_by_shift();
    assert forall|r: int, c1: int, c2: int|
        0 <= r < 9 && 0 <= c1 < 9 && 0 <= c2 < 9 && c1 != c2 implies #[trigger] g[r][c1]
        != #[trigger] g[r][c2] by {
        assert(g[r][c1] as int == (base_shift(r) + c1) % 9 + 1);
        assert(g[r][c2] as int == (base_shift(r) + c2) % 9 + 1);
    }
    assert forall|r1: int, r2: int, c: int|
        0 <= r1 < 9 && 0 <= r2 < 9 && 0 <= c < 9 && r1 != r2 implies #[trigger] g[r1][c]
        != #[trigger] g[r2][c] by {
        lemma_base_shift_distinct(r1, r2);
        lemma_base_shift_distinct(r2, r1);
        assert(g[r1][c] as int == (base_shift(r1) + c) % 9 + 1);
        assert(g[r2][c] as int == (base_shift(r2) + c) % 9 + 1);
    }
    assert forall|r1: int, c1: int, r2: int, c2: int|
        0 <= r1 < 9 && 0 <= c1 < 9 && 0 <= r2 < 9 && 0 <= c2 < 9 && same_block(r1, c1, r2, c2)
            && (r1 != r2 || c1 != c2) implies #[trigger] g[r1][c1] != #[trigger] g[r2][c2] by {
        lemma_base_block_distinct(r1, c1, r2, c2);
        assert(g[r1][c1] as int == (base_shift(r1) + c1) % 9 + 1);
        assert(g[r2][c2] as int == (base_shift(r2) + c2) % 9 + 1);
    }
}

/// Exchanging two exchangeable lines of a Sudoku solution gives a Sudoku
/// solution.
pub proof fn lemma_exchange_keeps_solution(g: Seq<Seq<u8>>, la: MapLine, lb: MapLine)
    requires
        is_solution(g),
        la.exchangeable(lb),
    ensures
        is_solution(exchanged(g, la, lb)),
{
    let h = exchanged(g, la, lb);
    match (la, lb) {
        (MapLine::Row(a), MapLine::Row(b)) => {
            assert forall|r: int, c: int| 0 <= r < 9 && 0 <= c < 9 implies #[trigger] h[r][c] == g[swap_index(r, a as int, b as int)][c] by {}
        },
        (MapLine::Column(a), MapLine::Column(b)) => {
            assert forall|r: int, c: int| 0 <= r < 9 && 0 <= c < 9 implies #[trigger] h[r][c] == g[r][swap_index(c, a as int, b as int)] by {}
        },
        _ => {},
    }
}

/// Any run of exchanges of exchangeable lines keeps a Sudoku solution a
/// Sudoku solution.
pub proof fn lemma_exchanges_keep_solution(g: Seq<Seq<u8>>, pairs: Seq<(MapLine, MapLine)>)
    requires
        is_solution(g),
        forall|i: int| 0 <= i < pairs.len() ==> (#[trigger] pairs[i]).0.exchangeable(pairs[i].1),
    ensures
        is_solution(apply_exchanges(g, pairs)),
    decreases pairs.len(),
{
    if pairs.len() > 0 {
        let rest = pairs.drop_last();
        assert forall|i: int| 0 <= i < rest.len() implies (#[trigger] rest[i]).0.exchangeable(rest[i].1) by {
            assert(rest[i] == pairs[i]);
        }
        lemma_exchanges_keep_solution(g, rest);
        lemma_exchange_keeps_solution(apply_exchanges(g, rest), pairs.last().0, pairs.last().1);
    }
}

} // verus!
