//! Addressing of cells and of whole lines (rows and columns) of the grid.
use vstd::prelude::*;

verus! {

/// A cell of the grid, by row and column.
#[derive(Clone, Copy, Debug, PartialEq, Eq, Structural)]
pub struct MapPoint {
    pub row: usize,
    pub column: usize,
}

/// A whole row or a whole column of the grid, by its index.
#[derive(Clone, Copy, Debug, PartialEq, Eq, Structural)]
pub enum MapLine {
    Row(usize),
    Column(usize),
}

/// Index of the band (group of three consecutive lines) that line `i` lies in.
pub open spec fn band(i: int) -> int {
    i / 3
}

/// The index that `i` takes when lines `a` and `b` trade places.
pub open spec fn swap_index(i: int, a: int, b: int) -> int {
    if i == a {
        b
    } else if i == b {
        a
    } else {
        i
    }
}

impl MapPoint {
    /// The point lies on the grid.
    pub open spec fn in_grid(self) -> bool {
        self.row < 9 && self.column < 9
    }

    pub fn new(row: usize, column: usize) -> (r: MapPoint)
        ensures
            r.row == row,
            r.column == column,
    {
        MapPoint { row, column }
    }
}

impl MapLine {
    /// The row or column number of the line.
    pub open spec fn line_index(self) -> int {
        match self {
            MapLine::Row(k) => k as int,
            MapLine::Column(k) => k as int,
        }
    }

    /// The line lies on the grid.
    pub open spec fn in_grid(self) -> bool {
        self.line_index() < 9
    }

    /// Both lines are rows, or both are columns.
    pub open spec fn same_kind(self, other: MapLine) -> bool {
        (self is Row) == (other is Row)
    }

    /// The two lines may be exchanged: both lie on the grid, both are rows or
    /// both columns, and they lie in one band.
    pub open spec fn exchangeable(self, other: MapLine) -> bool {
        &&& self.in_grid()
        &&& other.in_grid()
        &&& self.same_kind(other)
        &&& band(self.line_index()) == band(other.line_index())
    }

    /// The `i`-th point of the line: along a row by column, along a column by row.
    pub open spec fn point_at(self, i: int) -> MapPoint {
        match self {
            MapLine::Row(k) => MapPoint { row: k, column: i as usize },
            MapLine::Column(k) => MapPoint { row: i as usize, column: k },
        }
    }

    /// The nine points of the line, in order.
    pub open spec fn points(self) -> Seq<MapPoint> {
        Seq::new(9, |i: int| self.point_at(i))
    }

    /// The line with index `3 * group_order + order_in_group`: a row when
    /// `line_type` holds, a column otherwise.
    pub fn new_in_group(group_order: usize, order_in_group: usize, line_type: bool) -> (r: MapLine)
        requires
            group_order < 3,
            order_in_group < 3,
        ensures
            r.line_index() == 3 * group_order + order_in_group,
            r is Row <==> line_type,
            band(r.line_index()) == group_order,
    {
        let order: usize = group_order * 3 + order_in_group;
        if line_type {
            MapLine::Row(order)
        } else {
            MapLine::Column(order)
        }
    }
}

} // verus!
