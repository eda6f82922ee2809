use sudoku_map::{mk_two_lines, ExchangeError, MapLine, MapPoint, SudokuMap};

const BASE: [[u8; 9]; 9] = [
    [1, 2, 3, 4, 5, 6, 7, 8, 9],
    [7, 8, 9, 1, 2, 3, 4, 5, 6],
    [4, 5, 6, 7, 8, 9, 1, 2, 3],
    [9, 1, 2, 3, 4, 5, 6, 7, 8],
    [6, 7, 8, 9, 1, 2, 3, 4, 5],
    [3, 4, 5, 6, 7, 8, 9, 1, 2],
    [8, 9, 1, 2, 3, 4, 5, 6, 7],
    [5, 6, 7, 8, 9, 1, 2, 3, 4],
    [2, 3, 4, 5, 6, 7, 8, 9, 1],
];

fn snapshot(map: &SudokuMap) -> Vec<Vec<u8>> {
    let mut rows = Vec::new();
    for row in 0..9 {
        let mut cells = Vec::new();
        for column in 0..9 {
            cells.push(map.point(MapPoint::new(row, column)));
        }
        rows.push(cells);
    }
    rows
}

fn base() -> Vec<Vec<u8>> {
    BASE.iter().map(|row| row.to_vec()).collect()
}

fn is_solution(g: &[Vec<u8>]) -> bool {
    let full = |cells: Vec<u8>| {
        let mut sorted = cells.clone();
        sorted.sort();
        sorted == vec![1, 2, 3, 4, 5, 6, 7, 8, 9]
    };
    for k in 0..9 {
        let row: Vec<u8> = (0..9).map(|c| g[k][c]).collect();
        let column: Vec<u8> = (0..9).map(|r| g[r][k]).collect();
        let block: Vec<u8> = (0..9).map(|i| g[3 * (k / 3) + i / 3][3 * (k % 3) + i % 3]).collect();
        if !full(row) || !full(column) || !full(block) {
            return false;
        }
    }
    true
}

#[test]
fn new_holds_base_pattern() {
    let map = SudokuMap::new();
    assert_eq!(map.point(MapPoint::new(0, 0)), 1);
    assert_eq!(map.point(MapPoint::new(1, 0)), 7);
    assert_eq!(map.point(MapPoint::new(8, 8)), 1);
    assert_eq!(snapshot(&map), base());
    assert!(is_solution(&snapshot(&map)));
}

#[test]
fn exchange_rows_in_one_band() {
    let mut map = SudokuMap::new();
    assert_eq!(map.exchange_line((MapLine::Row(0), MapLine::Row(1))), Ok(()));
    let after = snapshot(&map);
    let before = base();
    assert_eq!(after[0], before[1]);
    assert_eq!(after[1], before[0]);
    for row in 2..9 {
        assert_eq!(after[row], before[row]);
    }
    assert_eq!(after[0], vec![7, 8, 9, 1, 2, 3, 4, 5, 6]);
}

#[test]
fn exchange_columns_in_one_band() {
    let mut map = SudokuMap::new();
    assert_eq!(map.exchange_line((MapLine::Column(8), MapLine::Column(6))), Ok(()));
    let after = snapshot(&map);
    let before = base();
    for row in 0..9 {
        assert_eq!(after[row][6], before[row][8]);
        assert_eq!(after[row][8], before[row][6]);
        for column in 0..6 {
            assert_eq!(after[row][column], before[row][column]);
        }
        assert_eq!(after[row][7], before[row][7]);
    }
    assert_eq!(map.point(MapPoint::new(0, 6)), 9);
    assert_eq!(map.point(MapPoint::new(0, 8)), 7);
}

#[test]
fn exchange_line_with_itself_keeps_grid() {
    let mut map = SudokuMap::new();
    assert_eq!(map.exchange_line((MapLine::Row(4), MapLine::Row(4))), Ok(()));
    assert_eq!(snapshot(&map), base());
}

#[test]
fn exchange_twice_restores_grid() {
    let mut map = SudokuMap::new();
    map.shuffle(20);
    let start = snapshot(&map);
    for pair in [
        (MapLine::Row(3), MapLine::Row(5)),
        (MapLine::Column(0), MapLine::Column(2)),
        (MapLine::Column(7), MapLine::Column(6)),
    ] {
        assert_eq!(map.exchange_line(pair), Ok(()));
        assert_ne!(snapshot(&map), start);
        assert_eq!(map.exchange_line(pair), Ok(()));
        assert_eq!(snapshot(&map), start);
    }
}

#[test]
fn mismatched_type_is_refused() {
    let mut map = SudokuMap::new();
    assert_eq!(
        map.exchange_line((MapLine::Row(0), MapLine::Column(0))),
        Err(ExchangeError::MismatchedType)
    );
    assert_eq!(snapshot(&map), base());
}

#[test]
fn mismatched_type_is_refused_for_all_indices() {
    let mut map = SudokuMap::new();
    for a in 0..9 {
        for b in 0..9 {
            assert_eq!(
                map.exchange_line((MapLine::Row(a), MapLine::Column(b))),
                Err(ExchangeError::MismatchedType)
            );
            assert_eq!(
                map.exchange_line((MapLine::Column(a), MapLine::Row(b))),
                Err(ExchangeError::MismatchedType)
            );
        }
    }
    assert_eq!(snapshot(&map), base());
}

#[test]
fn different_band_is_refused() {
    let mut map = SudokuMap::new();
    assert_eq!(
        map.exchange_line((MapLine::Row(0), MapLine::Row(4))),
        Err(ExchangeError::DifferentBand)
    );
    assert_eq!(
        map.exchange_line((MapLine::Row(0), MapLine::Row(3))),
        Err(ExchangeError::DifferentBand)
    );
    assert_eq!(snapshot(&map), base());
}

#[test]
fn different_band_is_refused_for_all_indices() {
    let mut map = SudokuMap::new();
    for a in 0..9 {
        for b in 0..9 {
            if a / 3 != b / 3 {
                assert_eq!(
                    map.exchange_line((MapLine::Row(a), MapLine::Row(b))),
                    Err(ExchangeError::DifferentBand)
                );
                assert_eq!(
                    map.exchange_line((MapLine::Column(a), MapLine::Column(b))),
                    Err(ExchangeError::DifferentBand)
                );
            }
        }
    }
    assert_eq!(snapshot(&map), base());
}

#[test]
fn exchanges_keep_solution() {
    let mut map = SudokuMap::new();
    for _ in 0..200 {
        assert_eq!(map.exchange_line(mk_two_lines()), Ok(()));
        assert!(is_solution(&snapshot(&map)));
    }
}

#[test]
fn shuffle_keeps_solution() {
    let mut map = SudokuMap::new();
    map.shuffle(101);
    assert!(is_solution(&snapshot(&map)));
}

#[test]
fn shuffle_zero_times_keeps_grid() {
    let mut map = SudokuMap::new();
    map.shuffle(0);
    assert_eq!(snapshot(&map), base());
}

#[test]
fn exchange_point_trades_two_cells() {
    let mut map = SudokuMap::new();
    map.exchange_point(MapPoint::new(0, 0), MapPoint::new(8, 7));
    assert_eq!(map.point(MapPoint::new(0, 0)), 9);
    assert_eq!(map.point(MapPoint::new(8, 7)), 1);
    assert_eq!(map.point(MapPoint::new(0, 1)), 2);
}

#[test]
fn shuffle_once_changes_base_grid() {
    for _ in 0..100 {
        let mut map = SudokuMap::new();
        map.shuffle(1);
        let after = snapshot(&map);
        assert_ne!(after, base());
        assert!(is_solution(&after));
    }
}
