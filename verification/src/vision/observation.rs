//! From recognised labels on the model's grid to a board observation.
//!
//! The recogniser reports each piece as a FEN letter on a 10 x 9 grid seen
//! from the top of the screenshot; the label `'0'` marks the board itself.
//! When Black sits at the bottom, the grid is rotated to Red's point of view.
use vstd::prelude::*;
use crate::types::{Board, BoardCell, Piece, Side};

verus! {

broadcast use vstd::array::group_array_axioms;

/// Labels on the model's grid (row 0 at the top of the screenshot).
pub type RawGrid = [[Option<char>; 9]; 10];

/// Which side sits at the bottom of the screenshot.
#[derive(Debug, Clone, Copy, PartialEq, Eq, Structural)]
pub enum Camp {
    Red,
    Black,
    Unknown,
}

impl Camp {
    /// Whether Black sits at the bottom (so the grid must be rotated).
    pub fn is_black_bottom(self) -> (b: bool)
        ensures
            b == (self is Black),
    {
        match self {
            Camp::Black => true,
            _ => false,
        }
    }
}

/// One recognised board.
#[derive(Debug, Clone, Copy, PartialEq, Eq)]
pub struct BoardObservation {
    pub camp: Camp,
    /// Whether the grid was rotated by 180 degrees to Red's point of view.
    pub flipped: bool,
    pub board: Board,
    /// The grid as recognised (model coordinates, row 0 at the top).
    pub raw_grid: RawGrid,
}

/// Why a recognition result cannot be used.
#[derive(Debug, Clone, Copy, PartialEq, Eq, Structural)]
pub enum VisionError {
    /// No detection carries the board label `'0'`.
    BoardNotFound,
    /// A detection falls outside the 10 x 9 grid.
    OutOfBounds { row: usize, col: usize },
}

/// A detection reduced to its label and the grid cell its centre falls in.
#[derive(Debug, Clone, Copy, PartialEq, Eq, Structural)]
pub struct GridDetection {
    pub label: char,
    pub row: usize,
    pub col: usize,
}

/// Whether a detection is a piece (not the board itself).
pub open spec fn is_piece_label(d: GridDetection) -> bool {
    d.label != '0'
}

/// The cell of the first piece detection among the first `n` that falls off
/// the grid.
pub open spec fn first_off_grid(d: Seq<GridDetection>, n: int) -> Option<(usize, usize)>
    decreases n,
{
    if n <= 0 {
        None
    } else {
        match first_off_grid(d, n - 1) {
            Some(cell) => Some(cell),
            None => if is_piece_label(d[n - 1]) && (d[n - 1].col >= 9 || d[n - 1].row >= 10) {
                Some((d[n - 1].row, d[n - 1].col))
            } else {
                None
            },
        }
    }
}

/// The label left on cell (`r`, `c`) by the first `n` detections: the last
/// piece detection on that cell.
pub open spec fn label_on(d: Seq<GridDetection>, n: int, r: int, c: int) -> Option<char>
    decreases n,
{
    if n <= 0 {
        None
    } else if is_piece_label(d[n - 1]) && d[n - 1].row == r && d[n - 1].col == c {
        Some(d[n - 1].label)
    } else {
        label_on(d, n - 1, r, c)
    }
}

/// The camp told by the first `n` detections: the first king (`'k'` Black,
/// `'K'` Red) found in the palace columns of the three bottom rows.
pub open spec fn camp_of(d: Seq<GridDetection>, n: int) -> Camp
    decreases n,
{
    if n <= 0 {
        Camp::Unknown
    } else {
        let camp = camp_of(d, n - 1);
        let e = d[n - 1];
        if camp is Unknown && 3 <= e.col <= 5 && e.row >= 7 {
            if e.label == 'k' {
                Camp::Black
            } else if e.label == 'K' {
                Camp::Red
            } else {
                camp
            }
        } else {
            camp
        }
    }
}

/// Whether some detection is the board itself.
pub open spec fn has_board_label(d: Seq<GridDetection>) -> bool {
    exists|i: int| 0 <= i < d.len() && d[i].label == '0'
}

/// Places the detections on the 10 x 9 grid and infers the camp; refused when
/// no detection is the board itself, or with the first piece that falls off
/// the grid.
pub fn grid_from_detections(detections: &[GridDetection]) -> (r: Result<(Camp, RawGrid), VisionError>)
    ensures
        !has_board_label(detections@) ==> r == Err::<(Camp, RawGrid), VisionError>(
            VisionError::BoardNotFound,
        ),
        has_board_label(detections@) ==> match first_off_grid(detections@, detections@.len() as int) {
            Some((row, col)) => r == Err::<(Camp, RawGrid), VisionError>(
                VisionError::OutOfBounds { row, col },
            ),
            None => r matches Ok((camp, grid)) && camp == camp_of(
                detections@,
                detections@.len() as int,
            ) && forall|row: int, col: int|
                0 <= row < 10 && 0 <= col < 9 ==> #[trigger] grid@[row]@[col] == label_on(
                    detections@,
                    detections@.len() as int,
                    row,
                    col,
                ),
        },
{
    let mut has_board = false;
    let mut k: usize = 0;
    while k < detections.len()
        invariant
            k <= detections@.len(),
            has_board == exists|i: int| 0 <= i < k && detections@[i].label == '0',
        decreases detections@.len() - k,
    {
        if detections[k].label == '0' {
            has_board = true;
        }
        k += 1;
    }
    if !has_board {
        return Err(VisionError::BoardNotFound);
    }
    let mut camp = Camp::Unknown;
    let mut grid: RawGrid = [[None; 9]; 10];
    let mut i: usize = 0;
    while i < detections.len()
        invariant
            i <= detections@.len(),
            has_board_label(detections@),
            first_off_grid(detections@, i as int) is None,
            camp == camp_of(detections@, i as int),
            forall|row: int, col: int|
                0 <= row < 10 && 0 <= col < 9 ==> #[trigger] grid@[row]@[col] == label_on(
                    detections@,
                    i as int,
                    row,
                    col,
                ),
        decreases detections@.len() - i,
    {
        let d = detections[i];
        if d.label != '0' {
            if d.col >= 9 || d.row >= 10 {
                proof {
                    lemma_off_grid_stays(detections@, i as int + 1, detections@.len() as int);
                }
                return Err(VisionError::OutOfBounds { row: d.row, col: d.col });
            }
            grid[d.row][d.col] = Some(d.label);
        }
        if let Camp::Unknown = camp {
            if 3 <= d.col && d.col <= 5 && d.row >= 7 {
                if d.label == 'k' {
                    camp = Camp::Black;
                } else if d.label == 'K' {
                    camp = Camp::Red;
                }
            }
        }
        i += 1;
    }
    Ok((camp, grid))
}

proof fn lemma_off_grid_stays(d: Seq<GridDetection>, from: int, to: int)
    requires
        0 <= from <= to,
        first_off_grid(d, from) is Some,
    ensures
        first_off_grid(d, to) == first_off_grid(d, from),
    decreases to - from,
{
    if to > from {
        lemma_off_grid_stays(d, from, to - 1);
    }
}

/// The piece a grid label stands for (`None` for an empty cell or a label
/// that is not a piece).
pub open spec fn piece_at(grid: RawGrid, r: int, c: int) -> BoardCell {
    match grid@[r]@[c] {
        Some(l) => Piece::spec_from_fen_char(l),
        None => None,
    }
}

/// The grid cell a board square is read from: the same cell, or the
/// opposite one when the grid is rotated.
pub open spec fn source_row(flipped: bool, r: int) -> int {
    if flipped { 9 - r } else { r }
}

pub open spec fn source_col(flipped: bool, c: int) -> int {
    if flipped { 8 - c } else { c }
}

/// Whether `b` is the board read off `grid`: every square holds the piece of
/// its source cell.
pub open spec fn board_reads(b: Board, grid: RawGrid, flipped: bool) -> bool {
    forall|r: int, c: int|
        0 <= r < 10 && 0 <= c < 9 ==> #[trigger] b.at(r, c) == piece_at(
            grid,
            source_row(flipped, r),
            source_col(flipped, c),
        )
}

/// Reads the board off a recognised grid, rotating it when Black sits at the
/// bottom; labels that are not pieces are ignored.
pub fn observation_from_grid(camp: Camp, grid: RawGrid, side_to_move: Side) -> (o: BoardObservation)
    ensures
        o.camp == camp,
        o.flipped == (camp is Black),
        o.raw_grid == grid,
        o.board.side_to_move == side_to_move,
        board_reads(o.board, grid, camp is Black),
{
    let flipped = camp.is_black_bottom();
    let mut board = Board::empty(side_to_move);
    let mut row: usize = 0;
    while row < 10
        invariant
            row <= 10,
            flipped == (camp is Black),
            board.side_to_move == side_to_move,
            forall|r: int, c: int|
                0 <= r < 10 && 0 <= c < 9 ==> #[trigger] board.at(r, c) == if source_row(flipped, r)
                    < row {
                    piece_at(grid, source_row(flipped, r), source_col(flipped, c))
                } else {
                    None
                },
        decreases 10 - row,
    {
        let mut col: usize = 0;
        while col < 9
            invariant
                row < 10,
                col <= 9,
                flipped == (camp is Black),
                board.side_to_move == side_to_move,
                forall|r: int, c: int|
                    0 <= r < 10 && 0 <= c < 9 ==> #[trigger] board.at(r, c) == if source_row(
                        flipped,
                        r,
                    ) < row || (source_row(flipped, r) == row && source_col(flipped, c) < col) {
                        piece_at(grid, source_row(flipped, r), source_col(flipped, c))
                    } else {
                        None
                    },
            decreases 9 - col,
        {
            if let Some(label) = grid[row][col] {
                if let Some(piece) = Piece::from_fen_char(label) {
                    let tr: usize = if flipped { 9 - row } else { row };
                    let tc: usize = if flipped { 8 - col } else { col };
                    let ghost before = board;
                    board.grid[tr][tc] = Some(piece);
                    proof {
                        assert forall|r: int, c: int| 0 <= r < 10 && 0 <= c < 9 implies #[trigger] board.at(r, c)
                            == if r == tr && c == tc {
                            Some(piece)
                        } else {
                            before.at(r, c)
                        } by {}
                    }
                }
            }
            col += 1;
        }
        row += 1;
    }
    BoardObservation { camp, flipped, board, raw_grid: grid }
}

/// Before any king detection in the palace columns (3 to 5) of the bottom
/// rows (7 and below), the camp is still unknown.
proof fn lemma_camp_unknown_before(d: Seq<GridDetection>, n: int)
    requires
        n <= d.len(),
        forall|i: int|
            0 <= i < n && 3 <= #[trigger] d[i].col <= 5 && d[i].row >= 7 ==> d[i].label != 'k' && d[i].label
                != 'K',
    ensures
        camp_of(d, n) == Camp::Unknown,
    decreases n,
{
    if n > 0 {
        lemma_camp_unknown_before(d, n - 1);
    }
}

/// Once told, the camp stays.
proof fn lemma_camp_stays(d: Seq<GridDetection>, from: int, n: int)
    requires
        0 <= from <= n <= d.len(),
        !(camp_of(d, from) is Unknown),
    ensures
        camp_of(d, n) == camp_of(d, from),
    decreases n - from,
{
    if n > from {
        lemma_camp_stays(d, from, n - 1);
    }
}

/// The camp is told by the first king detection that falls in the palace
/// columns (3, 4 or 5) of the bottom rows (7 and below), whichever of those
/// columns it is in: Black's king there (`'k'`) means Black sits at the
/// bottom, Red's (`'K'`) means Red does. With no such detection the camp is
/// unknown.
pub proof fn lemma_camp_from_first_bottom_king(d: Seq<GridDetection>)
    ensures
        (forall|i: int|
            0 <= i < d.len() && 3 <= #[trigger] d[i].col <= 5 && d[i].row >= 7 ==> d[i].label != 'k'
                && d[i].label != 'K') ==> camp_of(d, d.len() as int) == Camp::Unknown,
        forall|j: int|
            0 <= j < d.len() && 3 <= #[trigger] d[j].col <= 5 && d[j].row >= 7 && (d[j].label == 'k'
                || d[j].label == 'K') && (forall|i: int|
                0 <= i < j && 3 <= #[trigger] d[i].col <= 5 && d[i].row >= 7 ==> d[i].label != 'k'
                    && d[i].label != 'K') ==> camp_of(d, d.len() as int) == if d[j].label == 'k' {
                Camp::Black
            } else {
                Camp::Red
            },
{
    if forall|i: int|
        0 <= i < d.len() && 3 <= #[trigger] d[i].col <= 5 && d[i].row >= 7 ==> d[i].label != 'k'
            && d[i].label != 'K' {
        lemma_camp_unknown_before(d, d.len() as int);
    }
    assert forall|j: int|
        0 <= j < d.len() && 3 <= #[trigger] d[j].col <= 5 && d[j].row >= 7 && (d[j].label == 'k'
            || d[j].label == 'K') && (forall|i: int|
            0 <= i < j && 3 <= #[trigger] d[i].col <= 5 && d[i].row >= 7 ==> d[i].label != 'k'
                && d[i].label != 'K') implies camp_of(d, d.len() as int) == if d[j].label == 'k' {
        Camp::Black
    } else {
        Camp::Red
    } by {
        lemma_camp_unknown_before(d, j);
        lemma_camp_stays(d, j + 1, d.len() as int);
    }
}

/// Reading the same grid rotated or not gives boards that are each other
/// turned by 180 degrees: the rotated board's square (`r`, `c`) holds what the
/// unrotated board holds at (`9 - r`, `8 - c`); unrotated, each square holds
/// the piece of its own grid cell.
pub proof fn lemma_rotated_reading(b0: Board, b1: Board, grid: RawGrid)
    requires
        board_reads(b0, grid, false),
        board_reads(b1, grid, true),
    ensures
        forall|r: int, c: int| 0 <= r < 10 && 0 <= c < 9 ==> #[trigger] b1.at(r, c) == b0.at(9 - r, 8 - c),
        forall|r: int, c: int| 0 <= r < 10 && 0 <= c < 9 ==> #[trigger] b0.at(r, c) == piece_at(grid, r, c),
{
    assert forall|r: int, c: int| 0 <= r < 10 && 0 <= c < 9 implies #[trigger] b1.at(r, c) == b0.at(
        9 - r,
        8 - c,
    ) by {
        assert(b0.at(9 - r, 8 - c) == piece_at(grid, source_row(false, 9 - r), source_col(false, 8 - c)));
    }
}

} // verus!
