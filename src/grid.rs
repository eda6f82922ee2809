//! The 9×9 grid of digits and the exchange of points and of whole lines.
use vstd::prelude::*;
use crate::laws::{lemma_base_pattern_by_shift, lemma_exchange_keeps_solution};
use crate::line::{band, swap_index, MapLine, MapPoint};

verus! {

/// Why an exchange of two lines was refused.
#[derive(Clone, Copy, Debug, PartialEq, Eq, Structural)]
pub enum ExchangeError {
    /// One line is a row and the other a column.
    MismatchedType,
    /// The two lines lie in different bands.
    DifferentBand,
}

/// The grid: 81 digits, stored row after row.
pub struct SudokuMap {
    cells: Vec<u8>,
}

/// The grid is nine rows of nine digits each.
pub open spec fn is_grid(g: Seq<Seq<u8>>) -> bool {
    &&& g.len() == 9
    &&& forall|r: int| 0 <= r < 9 ==> #[trigger] g[r].len() == 9
}

/// Cells (`r1`, `c1`) and (`r2`, `c2`) lie in the same 3×3 block.
pub open spec fn same_block(r1: int, c1: int, r2: int, c2: int) -> bool {
    band(r1) == band(r2) && band(c1) == band(c2)
}

/// `g` is a Sudoku solution: all digits are 1 to 9, and no digit repeats in a
/// row, a column or a block. With nine cells each, every row, column and block
/// then holds each digit exactly once.
pub open spec fn is_solution(g: Seq<Seq<u8>>) -> bool {
    &&& is_grid(g)
    &&& forall|r: int, c: int| 0 <= r < 9 && 0 <= c < 9 ==> 1 <= #[trigger] g[r][c] <= 9
    &&& forall|r: int, c1: int, c2: int|
        0 <= r < 9 && 0 <= c1 < 9 && 0 <= c2 < 9 && c1 != c2 ==> #[trigger] g[r][c1]
            != #[trigger] g[r][c2]
    &&& forall|r1: int, r2: int, c: int|
        0 <= r1 < 9 && 0 <= r2 < 9 && 0 <= c < 9 && r1 != r2 ==> #[trigger] g[r1][c]
            != #[trigger] g[r2][c]
    &&& forall|r1: int, c1: int, r2: int, c2: int|
        0 <= r1 < 9 && 0 <= c1 < 9 && 0 <= r2 < 9 && 0 <= c2 < 9 && same_block(r1, c1, r2, c2)
            && (r1 != r2 || c1 != c2) ==> #[trigger] g[r1][c1] != #[trigger] g[r2][c2]
}

/// How far row `r` of the base pattern is `1 2 .. 9` rotated to the left.
pub open spec fn base_shift(r: int) -> int {
    (6 * r + 8 * (r / 3)) % 9
}

/// The base pattern that a new grid holds.
pub open spec fn base_pattern() -> Seq<Seq<u8>> {
    seq![
        seq![1u8, 2, 3, 4, 5, 6, 7, 8, 9],
        seq![7u8, 8, 9, 1, 2, 3, 4, 5, 6],
        seq![4u8, 5, 6, 7, 8, 9, 1, 2, 3],
        seq![9u8, 1, 2, 3, 4, 5, 6, 7, 8],
        seq![6u8, 7, 8, 9, 1, 2, 3, 4, 5],
        seq![3u8, 4, 5, 6, 7, 8, 9, 1, 2],
        seq![8u8, 9, 1, 2, 3, 4, 5, 6, 7],
        seq![5u8, 6, 7, 8, 9, 1, 2, 3, 4],
        seq![2u8, 3, 4, 5, 6, 7, 8, 9, 1],
    ]
}

/// `g` with the digits at points `a` and `b` traded.
pub open spec fn swap_cells(g: Seq<Seq<u8>>, a: MapPoint, b: MapPoint) -> Seq<Seq<u8>> {
    Seq::new(
        9,
        |r: int|
            Seq::new(
                9,
                |c: int|
                    if r == a.row && c == a.column {
                        g[b.row as int][b.column as int]
                    } else if r == b.row && c == b.column {
                        g[a.row as int][a.column as int]
                    } else {
                        g[r][c]
                    },
            ),
    )
}

/// `g` with lines `la` and `lb` traded whole; unchanged when one is a row and
/// the other a column.
pub open spec fn exchanged(g: Seq<Seq<u8>>, la: MapLine, lb: MapLine) -> Seq<Seq<u8>> {
    Seq::new(
        9,
        |r: int|
            Seq::new(
                9,
                |c: int|
                    match (la, lb) {
                        (MapLine::Row(a), MapLine::Row(b)) => g[swap_index(r, a as int, b as int)][c],
                        (MapLine::Column(a), MapLine::Column(b)) => g[r][swap_index(
                            c,
                            a as int,
                            b as int,
                        )],
                        _ => g[r][c],
                    },
            ),
    )
}

/// `g` after the exchanges of `pairs`, made in order.
pub open spec fn apply_exchanges(g: Seq<Seq<u8>>, pairs: Seq<(MapLine, MapLine)>) -> Seq<Seq<u8>>
    decreases pairs.len(),
{
    if pairs.len() == 0 {
        g
    } else {
        exchanged(apply_exchanges(g, pairs.drop_last()), pairs.last().0, pairs.last().1)
    }
}

/// Position of cell (`r`, `c`) along the direction in which line `l` runs.
pub open spec fn along(l: MapLine, r: int, c: int) -> int {
    match l {
        MapLine::Row(_) => c,
        MapLine::Column(_) => r,
    }
}

impl View for SudokuMap {
    type V = Seq<Seq<u8>>;

    closed spec fn view(&self) -> Seq<Seq<u8>> {
        Seq::new(9, |r: int| Seq::new(9, |c: int| self.cells@[9 * r + c]))
    }
}

impl SudokuMap {
    /// The storage holds exactly the 81 cells.
    pub closed spec fn wf(&self) -> bool {
        self.cells.len() == 81
    }

    /// The view of every grid is nine rows of nine digits, as the laws on
    /// exchanges require.
    pub proof fn lemma_view_is_grid(&self)
        ensures
            is_grid(self@),
    {
    }

    /// The grid filled with the base pattern.
    pub fn new() -> (r: SudokuMap)
        ensures
            r.wf(),
            r@ == base_pattern(),
    {
        let mut cells: Vec<u8> = Vec::new();
        for row in 0..9usize
            invariant
                cells.len() == 9 * row,
                forall|k: int|
                    0 <= k < cells.len() ==> #[trigger] cells@[k] == ((base_shift(k / 9) + k % 9)
                        % 9 + 1) as u8,
        {
            let shift: usize = (6 * row + 8 * (row / 3)) % 9;
            for column in 0..9usize
                invariant
                    0 <= row < 9,
                    shift == base_shift(row as int),
                    cells.len() == 9 * row + column,
                    forall|k: int|
                        0 <= k < cells.len() ==> #[trigger] cells@[k] == ((base_shift(k / 9) + k
                            % 9) % 9 + 1) as u8,
            {
                cells.push(((shift + column) % 9 + 1) as u8);
            }
        }
        let r = SudokuMap { cells };
        proof {
            lemma_base_pattern_by_shift();
        }
        assert(r@ =~~= base_pattern());
        r
    }

    /// The digit at point `p`.
    pub fn point(&self, p: MapPoint) -> (r: u8)
        requires
            self.wf(),
            p.in_grid(),
        ensures
            r == self@[p.row as int][p.column as int],
    {
        self.cells[9 * p.row + p.column]
    }

    /// Trades the digits at points `point_a` and `point_b`.
    pub fn exchange_point(&mut self, point_a: MapPoint, point_b: MapPoint)
        requires
            old(self).wf(),
            point_a.in_grid(),
            point_b.in_grid(),
        ensures
            final(self).wf(),
            final(self)@ == swap_cells(old(self)@, point_a, point_b),
    {
        let ia: usize = 9 * point_a.row + point_a.column;
        let ib: usize = 9 * point_b.row + point_b.column;
        let temp_a = self.cells[ia];
        self.cells[ia] = self.cells[ib];
        self.cells[ib] = temp_a;
        assert(self@ =~~= swap_cells(old(self)@, point_a, point_b));
    }

    /// The nine points of `line`, in order.
    pub fn get_line(&self, line: MapLine) -> (r: Vec<MapPoint>)
        ensures
            r@ == line.points(),
    {
        let mut result: Vec<MapPoint> = Vec::new();
        match line {
            MapLine::Row(row) => {
                for column in 0..9usize
                    invariant
                        line == MapLine::Row(row),
                        result.len() == column,
                        forall|i: int| 0 <= i < column ==> result@[i] == line.point_at(i),
                {
                    result.push(MapPoint::new(row, column));
                }
            },
            MapLine::Column(column) => {
                for row in 0..9usize
                    invariant
                        line == MapLine::Column(column),
                        result.len() == row,
                        forall|i: int| 0 <= i < row ==> result@[i] == line.point_at(i),
                {
                    result.push(MapPoint::new(row, column));
                }
            },
        }
        assert(result@ =~= line.points());
        result
    }

    /// Trades the lines `two_lines.0` and `two_lines.1` whole, point by point.
    /// Both must be rows or both columns, and they must lie in one band; the
    /// grid is left as it was otherwise.
    pub fn exchange_line(&mut self, two_lines: (MapLine, MapLine)) -> (r: Result<(), ExchangeError>)
        requires
            old(self).wf(),
            two_lines.0.in_grid(),
            two_lines.1.in_grid(),
        ensures
            final(self).wf(),
            !two_lines.0.same_kind(two_lines.1) ==> r == Err::<(), ExchangeError>(
                ExchangeError::MismatchedType,
            ) && *final(self) == *old(self),
            two_lines.0.same_kind(two_lines.1) && band(two_lines.0.line_index()) != band(
                two_lines.1.line_index(),
            ) ==> r == Err::<(), ExchangeError>(ExchangeError::DifferentBand) && *final(self)
                == *old(self),
            two_lines.0.same_kind(two_lines.1) && band(two_lines.0.line_index()) == band(
                two_lines.1.line_index(),
            ) ==> r == Ok::<(), ExchangeError>(()) && final(self)@ == exchanged(
                old(self)@,
                two_lines.0,
                two_lines.1,
            ),
            is_solution(old(self)@) ==> is_solution(final(self)@),
    {
        let (line_a, line_b) = two_lines;
        match (line_a, line_b) {
            (MapLine::Row(a), MapLine::Row(b)) => {
                if !is_in_the_same_group(a, b) {
                    return Err(ExchangeError::DifferentBand);
                }
            },
            (MapLine::Column(a), MapLine::Column(b)) => {
                if !is_in_the_same_group(a, b) {
                    return Err(ExchangeError::DifferentBand);
                }
            },
            (MapLine::Row(_), MapLine::Column(_)) => {
                return Err(ExchangeError::MismatchedType);
            },
            (MapLine::Column(_), MapLine::Row(_)) => {
                return Err(ExchangeError::MismatchedType);
            },
        }
        let points_a = self.get_line(line_a);
        let points_b = self.get_line(line_b);
        let ghost g0 = self@;
        for n in 0..9usize
            invariant
                self.wf(),
                points_a@ == line_a.points(),
                points_b@ == line_b.points(),
                line_a.in_grid(),
                line_b.in_grid(),
                line_a.same_kind(line_b),
                forall|r: int, c: int|
                    0 <= r < 9 && 0 <= c < 9 ==> #[trigger] self@[r][c] == if along(line_a, r, c)
                        < n {
                        exchanged(g0, line_a, line_b)[r][c]
                    } else {
                        g0[r][c]
                    },
        {
            self.exchange_point(points_a[n], points_b[n]);
        }
        assert(self@ =~~= exchanged(g0, line_a, line_b));
        proof {
            if is_solution(g0) {
                lemma_exchange_keeps_solution(g0, line_a, line_b);
            }
        }
        Ok(())
    }
}

/// Lines `a` and `b` lie in the same band.
fn is_in_the_same_group(a: usize, b: usize) -> (r: bool)
    ensures
        r == (band(a as int) == band(b as int)),
{
    a / 3 == b / 3
}

} // verus!
