//! The board model: sides, pieces, ICCS coordinates, moves, boards and game records.
use vstd::prelude::*;
use vstd::array::*;
use vstd::utf8::*;
use vstd::string::StringSliceAdditionalSpecFns;
use crate::text::push_char;

verus! {

broadcast use vstd::array::group_array_axioms;

/// Number of board rows (ranks).
pub const BOARD_ROWS: usize = 10;
/// Number of board columns (files).
pub const BOARD_COLS: usize = 9;

/// Standard opening position, red to move.
pub const STARTPOS_FEN: &'static str =
    "rnbakabnr/9/1c5c1/p1p1p1p1p/9/9/P1P1P1P1P/1C5C1/9/RNBAKABNR w";

/// The side to move.
#[derive(Debug, Clone, Copy, PartialEq, Eq, Hash, Structural)]
pub enum Side {
    /// Red moves first (`w` in FEN).
    Red,
    Black,
}

impl Default for Side {
    fn default() -> (s: Self)
        ensures
            s == Side::Red,
    {
        Side::Red
    }
}

impl Side {
    pub open spec fn spec_opposite(self) -> Side {
        match self {
            Side::Red => Side::Black,
            Side::Black => Side::Red,
        }
    }

    /// The other side.
    pub fn opposite(self) -> (s: Self)
        ensures
            s == self.spec_opposite(),
    {
        match self {
            Side::Red => Side::Black,
            Side::Black => Side::Red,
        }
    }

    pub open spec fn spec_fen_char(self) -> char {
        match self {
            Side::Red => 'w',
            Side::Black => 'b',
        }
    }

    /// FEN character of the side: `w` or `b`.
    pub fn to_fen_char(self) -> (c: char)
        ensures
            c == self.spec_fen_char(),
    {
        match self {
            Side::Red => 'w',
            Side::Black => 'b',
        }
    }

    pub open spec fn spec_from_fen_char(c: char) -> Option<Side> {
        if c == 'w' || c == 'W' || c == 'r' || c == 'R' {
            Some(Side::Red)
        } else if c == 'b' || c == 'B' {
            Some(Side::Black)
        } else {
            None
        }
    }

    /// Parses a side character; `w`, `r` (either case) mean red, `b` (either case) black.
    pub fn from_fen_char(value: char) -> (s: Option<Self>)
        ensures
            s == Self::spec_from_fen_char(value),
    {
        match value {
            'w' | 'W' | 'r' | 'R' => Some(Side::Red),
            'b' | 'B' => Some(Side::Black),
            _ => None,
        }
    }
}

/// Kind of a piece, without its side.
#[derive(Debug, Clone, Copy, PartialEq, Eq, Hash, Structural)]
pub enum PieceKind {
    King,
    Advisor,
    Elephant,
    Horse,
    Rook,
    Cannon,
    Pawn,
}

impl PieceKind {
    pub open spec fn spec_fen_base(self) -> char {
        match self {
            PieceKind::King => 'K',
            PieceKind::Advisor => 'A',
            PieceKind::Elephant => 'B',
            PieceKind::Horse => 'N',
            PieceKind::Rook => 'R',
            PieceKind::Cannon => 'C',
            PieceKind::Pawn => 'P',
        }
    }

    /// Upper-case FEN letter of the kind (the red piece's letter).
    pub fn fen_base(self) -> (c: char)
        ensures
            c == self.spec_fen_base(),
    {
        match self {
            PieceKind::King => 'K',
            PieceKind::Advisor => 'A',
            PieceKind::Elephant => 'B',
            PieceKind::Horse => 'N',
            PieceKind::Rook => 'R',
            PieceKind::Cannon => 'C',
            PieceKind::Pawn => 'P',
        }
    }

    pub open spec fn spec_from_upper(c: char) -> Option<PieceKind> {
        if c == 'K' {
            Some(PieceKind::King)
        } else if c == 'A' {
            Some(PieceKind::Advisor)
        } else if c == 'B' {
            Some(PieceKind::Elephant)
        } else if c == 'N' {
            Some(PieceKind::Horse)
        } else if c == 'R' {
            Some(PieceKind::Rook)
        } else if c == 'C' {
            Some(PieceKind::Cannon)
        } else if c == 'P' {
            Some(PieceKind::Pawn)
        } else {
            None
        }
    }
}

/// A piece: side and kind.
#[derive(Debug, Clone, Copy, PartialEq, Eq, Hash, Structural)]
pub struct Piece {
    pub side: Side,
    pub kind: PieceKind,
}

/// ASCII upper-case of a character (other characters unchanged).
pub open spec fn ascii_upper(c: char) -> char {
    if 'a' <= c <= 'z' {
        ((c as int) - 32) as char
    } else {
        c
    }
}

/// ASCII lower-case of a character (other characters unchanged).
pub open spec fn ascii_lower(c: char) -> char {
    if 'A' <= c <= 'Z' {
        ((c as int) + 32) as char
    } else {
        c
    }
}

impl Piece {
    pub open spec fn spec_fen_char(self) -> char {
        match self.side {
            Side::Red => self.kind.spec_fen_base(),
            Side::Black => ascii_lower(self.kind.spec_fen_base()),
        }
    }

    /// FEN letter: upper case for red, lower case for black.
    pub fn to_fen_char(self) -> (c: char)
        ensures
            c == self.spec_fen_char(),
    {
        let base = self.kind.fen_base();
        match self.side {
            Side::Red => base,
            Side::Black => match self.kind {
                PieceKind::King => 'k',
                PieceKind::Advisor => 'a',
                PieceKind::Elephant => 'b',
                PieceKind::Horse => 'n',
                PieceKind::Rook => 'r',
                PieceKind::Cannon => 'c',
                PieceKind::Pawn => 'p',
            },
        }
    }

    pub open spec fn spec_from_fen_char(c: char) -> Option<Piece> {
        if 'A' <= c <= 'Z' {
            match PieceKind::spec_from_upper(c) {
                Some(kind) => Some(Piece { side: Side::Red, kind }),
                None => None,
            }
        } else if 'a' <= c <= 'z' {
            match PieceKind::spec_from_upper(ascii_upper(c)) {
                Some(kind) => Some(Piece { side: Side::Black, kind }),
                None => None,
            }
        } else {
            None
        }
    }

    /// Parses a FEN piece letter (`KABNRCP`, lower case for black).
    pub fn from_fen_char(value: char) -> (p: Option<Self>)
        ensures
            p == Self::spec_from_fen_char(value),
    {
        let side = if 'A' <= value && value <= 'Z' {
            Side::Red
        } else if 'a' <= value && value <= 'z' {
            Side::Black
        } else {
            return None;
        };
        let kind = match value {
            'K' | 'k' => PieceKind::King,
            'A' | 'a' => PieceKind::Advisor,
            'B' | 'b' => PieceKind::Elephant,
            'N' | 'n' => PieceKind::Horse,
            'R' | 'r' => PieceKind::Rook,
            'C' | 'c' => PieceKind::Cannon,
            'P' | 'p' => PieceKind::Pawn,
            _ => return None,
        };
        Some(Piece { side, kind })
    }
}

/// Content of one square.
pub type BoardCell = Option<Piece>;

/// ICCS coordinate from red's point of view: `file` 0..=8 is `a`..`i`,
/// `rank` 0..=9 is `0`..`9` (rank 0 is red's back rank).
#[derive(Debug, Clone, Copy, PartialEq, Eq, Hash, Structural)]
pub struct Pos {
    pub file: u8,
    pub rank: u8,
}

/// Why an ICCS square failed to parse.
#[derive(Debug, Clone, Copy, PartialEq, Eq, Structural)]
pub enum PosParseError {
    InvalidLength,
    InvalidFile(char),
    InvalidRank(char),
    OutOfBounds,
}

impl Pos {
    pub open spec fn spec_in_bounds(self) -> bool {
        self.file < 9 && self.rank < 10
    }

    /// Grid row of the square (rank 9 is row 0).
    pub open spec fn row(self) -> int {
        9 - self.rank
    }

    /// Grid column of the square.
    pub open spec fn col(self) -> int {
        self.file as int
    }

    pub open spec fn spec_new(file: u8, rank: u8) -> Option<Pos> {
        if file < 9 && rank < 10 {
            Some(Pos { file, rank })
        } else {
            None
        }
    }

    /// A square, if it lies on the board.
    pub fn new(file: u8, rank: u8) -> (p: Option<Self>)
        ensures
            p == Self::spec_new(file, rank),
    {
        if file < 9 && rank < 10 {
            Some(Pos { file, rank })
        } else {
            None
        }
    }

    /// Whether the square lies on the board.
    pub fn is_in_bounds(self) -> (b: bool)
        ensures
            b == self.spec_in_bounds(),
    {
        self.file < 9 && self.rank < 10
    }

    /// Parse of a two-byte ICCS square given its bytes.
    pub open spec fn spec_from_pair(f: u8, r: u8) -> Result<Pos, PosParseError> {
        if !(97 <= f <= 105) {
            Err(PosParseError::InvalidFile(f as char))
        } else if !(48 <= r <= 57) {
            Err(PosParseError::InvalidRank(r as char))
        } else {
            Ok(Pos { file: (f - 97) as u8, rank: (r - 48) as u8 })
        }
    }

    /// Parse of an ICCS square given the UTF-8 bytes of the text.
    pub open spec fn spec_from_bytes(b: Seq<u8>) -> Result<Pos, PosParseError> {
        if b.len() != 2 {
            Err(PosParseError::InvalidLength)
        } else {
            Self::spec_from_pair(b[0], b[1])
        }
    }

    fn from_pair(f: u8, r: u8) -> (res: Result<Pos, PosParseError>)
        ensures
            res == Self::spec_from_pair(f, r),
    {
        if !(97 <= f && f <= 105) {
            return Err(PosParseError::InvalidFile(f as char));
        }
        if !(48 <= r && r <= 57) {
            return Err(PosParseError::InvalidRank(r as char));
        }
        Ok(Pos { file: f - 97, rank: r - 48 })
    }

    /// Parses an ICCS square such as `a0` (exactly two bytes, file `a`..`i`, rank `0`..`9`).
    pub fn from_iccs_square(value: &str) -> (res: Result<Self, PosParseError>)
        ensures
            res == Self::spec_from_bytes(value.spec_bytes()),
    {
        let bytes = value.as_bytes();
        if bytes.len() != 2 {
            return Err(PosParseError::InvalidLength);
        }
        Self::from_pair(bytes[0], bytes[1])
    }

    pub open spec fn spec_iccs(self) -> Seq<char> {
        seq![(97 + self.file) as char, (48 + self.rank) as char]
    }

    /// ICCS text of the square, e.g. `h2`.
    pub fn to_iccs_square(self) -> (s: String)
        requires
            self.file <= 158,
            self.rank <= 207,
        ensures
            s@ == self.spec_iccs(),
    {
        let file = (97u8 + self.file) as char;
        let rank = (48u8 + self.rank) as char;
        let mut out = String::new();
        push_char(&mut out, file);
        push_char(&mut out, rank);
        out
    }

    /// Grid index `(row, col)` of the square: `row = 9 - rank`, `col = file`.
    pub fn to_index(self) -> (rc: (usize, usize))
        requires
            self.rank <= 9,
        ensures
            rc.0 as int == self.row(),
            rc.1 as int == self.col(),
    {
        let row = (9 - self.rank) as usize;
        let col = self.file as usize;
        (row, col)
    }

    pub open spec fn spec_from_index(row: int, col: int) -> Option<Pos> {
        if 0 <= row < 10 && 0 <= col < 9 {
            Some(Pos { file: col as u8, rank: (9 - row) as u8 })
        } else {
            None
        }
    }

    /// Square at grid index `(row, col)`, if the index is on the board.
    pub fn from_index(row: usize, col: usize) -> (p: Option<Self>)
        ensures
            p == Self::spec_from_index(row as int, col as int),
    {
        if row >= 10 || col >= 9 {
            return None;
        }
        let rank = (9 - row) as u8;
        let file = col as u8;
        Self::new(file, rank)
    }
}

/// A move in ICCS terms.
#[derive(Debug, Clone, Copy, PartialEq, Eq, Hash, Structural)]
pub struct Move {
    pub from: Pos,
    pub to: Pos,
}

/// Why an ICCS move failed to parse.
#[derive(Debug, Clone, Copy, PartialEq, Eq, Structural)]
pub enum MoveParseError {
    InvalidLength,
    From(PosParseError),
    To(PosParseError),
}

/// Whether slicing an ICCS move text at byte 2 is well defined: always for texts
/// of other lengths (they are rejected before slicing), and for four-byte texts
/// exactly when byte 2 starts a character.
pub open spec fn iccs_move_sliceable(b: Seq<u8>) -> bool {
    b.len() == 4 ==> is_char_boundary(b, 2)
}

impl Move {
    /// A move from `from` to `to`.
    pub fn new(from: Pos, to: Pos) -> (m: Self)
        ensures
            m == (Move { from, to }),
    {
        Move { from, to }
    }

    pub open spec fn spec_from_bytes(b: Seq<u8>) -> Result<Move, MoveParseError> {
        if b.len() != 4 {
            Err(MoveParseError::InvalidLength)
        } else {
            match Pos::spec_from_pair(b[0], b[1]) {
                Err(e) => Err(MoveParseError::From(e)),
                Ok(from) => match Pos::spec_from_pair(b[2], b[3]) {
                    Err(e) => Err(MoveParseError::To(e)),
                    Ok(to) => Ok(Move { from, to }),
                },
            }
        }
    }

    /// Parses an ICCS move such as `h2e2`: four bytes, two squares.
    pub fn from_iccs(value: &str) -> (res: Result<Self, MoveParseError>)
        requires
            iccs_move_sliceable(value.spec_bytes()),
        ensures
            res == Self::spec_from_bytes(value.spec_bytes()),
    {
        let bytes = value.as_bytes();
        if bytes.len() != 4 {
            return Err(MoveParseError::InvalidLength);
        }
        let from = match Pos::from_pair(bytes[0], bytes[1]) {
            Ok(p) => p,
            Err(e) => return Err(MoveParseError::From(e)),
        };
        let to = match Pos::from_pair(bytes[2], bytes[3]) {
            Ok(p) => p,
            Err(e) => return Err(MoveParseError::To(e)),
        };
        Ok(Move { from, to })
    }

    pub open spec fn spec_iccs(self) -> Seq<char> {
        self.from.spec_iccs() + self.to.spec_iccs()
    }

    /// ICCS text of the move, e.g. `h2e2`.
    pub fn to_iccs(self) -> (s: String)
        requires
            self.from.file <= 158,
            self.from.rank <= 207,
            self.to.file <= 158,
            self.to.rank <= 207,
        ensures
            s@ == self.spec_iccs(),
    {
        let mut out = String::new();
        push_char(&mut out, (97u8 + self.from.file) as char);
        push_char(&mut out, (48u8 + self.from.rank) as char);
        push_char(&mut out, (97u8 + self.to.file) as char);
        push_char(&mut out, (48u8 + self.to.rank) as char);
        proof {
            assert(out@ =~= self.spec_iccs());
        }
        out
    }
}

/// A board: 10 rows of 9 squares (row 0 is rank 9) and the side to move.
#[derive(Debug, Clone, Copy)]
pub struct Board {
    pub grid: [[BoardCell; 9]; 10],
    pub side_to_move: Side,
}

fn cell_eq(a: BoardCell, b: BoardCell) -> (r: bool)
    ensures
        r == (a == b),
{
    match (a, b) {
        (None, None) => true,
        (Some(x), Some(y)) => x == y,
        _ => false,
    }
}

impl PartialEq for Board {
    fn eq(&self, other: &Self) -> (r: bool) {
        if self.side_to_move != other.side_to_move {
            return false;
        }
        let mut row: usize = 0;
        while row < 10
            invariant
                row <= 10,
                forall|r: int, c: int|
                    0 <= r < row && 0 <= c < 9 ==> self.grid@[r]@[c] == other.grid@[r]@[c],
            decreases 10 - row,
        {
            let mut col: usize = 0;
            while col < 9
                invariant
                    row < 10,
                    col <= 9,
                    forall|r: int, c: int|
                        0 <= r < row && 0 <= c < 9 ==> self.grid@[r]@[c] == other.grid@[r]@[c],
                    forall|c: int| 0 <= c < col ==> self.grid@[row as int]@[c] == other.grid@[row as int]@[c],
                decreases 9 - col,
            {
                if !cell_eq(self.grid[row][col], other.grid[row][col]) {
                    return false;
                }
                col += 1;
            }
            row += 1;
        }
        assert forall|r: int| 0 <= r < 10 implies self.grid@[r] == other.grid@[r] by {
            assert(self.grid@[r]@ =~= other.grid@[r]@);
        }
        assert(self.grid@ =~= other.grid@);
        assert(self.grid == other.grid);
        true
    }
}

impl vstd::std_specs::cmp::PartialEqSpecImpl for Board {
    open spec fn obeys_eq_spec() -> bool {
        true
    }

    open spec fn eq_spec(&self, other: &Self) -> bool {
        *self == *other
    }
}

impl Eq for Board {}

/// Number of occupied squares in a row (or any sequence of squares).
pub open spec fn count_occupied(s: Seq<BoardCell>) -> nat
    decreases s.len(),
{
    if s.len() == 0 {
        0
    } else {
        count_occupied(s.drop_last()) + if s.last().is_some() { 1nat } else { 0nat }
    }
}

/// Number of occupied squares in the first `n` rows of a board.
pub open spec fn count_rows(b: Board, n: int) -> nat
    decreases n,
{
    if n <= 0 {
        0
    } else {
        count_rows(b, n - 1) + count_occupied(b.grid@[n - 1]@)
    }
}

/// First square, scanning rows top to bottom and each row left to right from
/// flat index `k` (= row * 9 + col) on, that holds the king of `side`.
pub open spec fn king_search(b: Board, side: Side, k: int) -> Option<Pos>
    decreases 90 - k,
{
    if k >= 90 || k < 0 {
        None
    } else if b.at(k / 9, k % 9) == Some(Piece { side, kind: PieceKind::King }) {
        Some(Pos { file: (k % 9) as u8, rank: (9 - k / 9) as u8 })
    } else {
        king_search(b, side, k + 1)
    }
}

impl Board {
    /// Square at grid row `r`, column `c`.
    pub open spec fn at(self, r: int, c: int) -> BoardCell {
        self.grid@[r]@[c]
    }

    /// Square at an ICCS position.
    pub open spec fn cell(self, p: Pos) -> BoardCell {
        self.at(p.row(), p.col())
    }

    /// The board with one square replaced.
    pub open spec fn with_cell(self, p: Pos, v: BoardCell) -> Board {
        Board {
            grid: spec_array_update(
                self.grid,
                p.row(),
                spec_array_update(self.grid@[p.row()], p.col(), v),
            ),
            side_to_move: self.side_to_move,
        }
    }

    /// The board after moving whatever stands on `mv.from` to `mv.to`
    /// (the target square is written first, then the origin is cleared),
    /// with the side to move switched.
    pub open spec fn after_move(self, mv: Move) -> Board {
        let b = self.with_cell(mv.to, self.cell(mv.from)).with_cell(mv.from, None);
        Board { grid: b.grid, side_to_move: self.side_to_move.spec_opposite() }
    }

    pub open spec fn spec_piece_count(self) -> nat {
        count_rows(self, 10)
    }

    pub open spec fn spec_find_king(self, side: Side) -> Option<Pos> {
        king_search(self, side, 0)
    }

    /// A board with no pieces.
    pub fn empty(side_to_move: Side) -> (b: Self)
        ensures
            b.side_to_move == side_to_move,
            forall|r: int, c: int| 0 <= r < 10 && 0 <= c < 9 ==> b.at(r, c).is_none(),
    {
        Board { grid: [[None;9];10], side_to_move }
    }

    /// Square at `pos`.
    pub fn get(&self, pos: Pos) -> (c: BoardCell)
        requires
            pos.spec_in_bounds(),
        ensures
            c == self.cell(pos),
    {
        let (row, col) = pos.to_index();
        self.grid[row][col]
    }

    /// Replaces the square at `pos`.
    pub fn set(&mut self, pos: Pos, cell: BoardCell)
        requires
            pos.spec_in_bounds(),
        ensures
            *final(self) == old(self).with_cell(pos, cell),
    {
        let (row, col) = pos.to_index();
        self.grid[row][col] = cell;
        proof {
            let w = old(self).with_cell(pos, cell);
            assert(self.grid@[row as int]@ =~= w.grid@[row as int]@);
            assert(self.grid@ =~= w.grid@);
        }
    }

    /// Number of pieces on the board.
    pub fn piece_count(&self) -> (n: usize)
        ensures
            n as nat == self.spec_piece_count(),
    {
        let mut total: usize = 0;
        let mut row: usize = 0;
        while row < 10
            invariant
                row <= 10,
                total as nat == count_rows(*self, row as int),
                total <= row * 9,
            decreases 10 - row,
        {
            let mut col: usize = 0;
            let mut in_row: usize = 0;
            while col < 9
                invariant
                    row < 10,
                    col <= 9,
                    in_row as nat == count_occupied(self.grid@[row as int]@.take(col as int)),
                    in_row <= col,
                decreases 9 - col,
            {
                proof {
                    assert(self.grid@[row as int]@.take(col + 1).drop_last()
                        =~= self.grid@[row as int]@.take(col as int));
                }
                if self.grid[row][col].is_some() {
                    in_row += 1;
                }
                col += 1;
            }
            proof {
                assert(self.grid@[row as int]@.take(9) =~= self.grid@[row as int]@);
            }
            total += in_row;
            row += 1;
        }
        total
    }

    /// Position of the first king of `side` in row-major order.
    pub fn find_king(&self, side: Side) -> (p: Option<Pos>)
        ensures
            p == self.spec_find_king(side),
    {
        let mut row: usize = 0;
        while row < 10
            invariant
                row <= 10,
                king_search(*self, side, 0) == king_search(*self, side, (row * 9) as int),
            decreases 10 - row,
        {
            let mut col: usize = 0;
            while col < 9
                invariant
                    row < 10,
                    col <= 9,
                    king_search(*self, side, 0) == king_search(*self, side, (row * 9 + col) as int),
                decreases 9 - col,
            {
                let k = row * 9 + col;
                proof {
                    assert(k / 9 == row as int && k % 9 == col as int) by (nonlinear_arith)
                        requires k == row * 9 + col, col < 9;
                }
                if let Some(piece) = self.grid[row][col] {
                    if piece.side == side && piece.kind == PieceKind::King {
                        return Some(Pos { file: col as u8, rank: (9 - row) as u8 });
                    }
                }
                col += 1;
            }
            row += 1;
        }
        None
    }

    /// Moves the piece on `mv.from` to `mv.to` without any rule check; `None`
    /// (and no change) when the origin is empty.
    pub fn apply_move_unchecked(&mut self, mv: Move) -> (out: Option<MoveOutcome>)
        requires
            mv.from.spec_in_bounds(),
            mv.to.spec_in_bounds(),
        ensures
            old(self).cell(mv.from).is_none() ==> out.is_none() && *final(self) == *old(self),
            old(self).cell(mv.from).is_some() ==> {
                &&& *final(self) == old(self).after_move(mv)
                &&& out == Some(MoveOutcome {
                    mv,
                    moved: old(self).cell(mv.from).unwrap(),
                    captured: old(self).cell(mv.to),
                    next_side_to_move: old(self).side_to_move.spec_opposite(),
                })
            },
    {
        let moving_piece = match self.get(mv.from) {
            Some(p) => p,
            None => return None,
        };
        let captured = self.get(mv.to);
        self.set(mv.to, Some(moving_piece));
        self.set(mv.from, None);
        self.side_to_move = self.side_to_move.opposite();
        Some(MoveOutcome { mv, moved: moving_piece, captured, next_side_to_move: self.side_to_move })
    }

    /// A copy of the board with the move applied (no rule check); `None` when the origin is empty.
    pub fn clone_with_move_unchecked(&self, mv: Move) -> (out: Option<Self>)
        requires
            mv.from.spec_in_bounds(),
            mv.to.spec_in_bounds(),
        ensures
            out == if self.cell(mv.from).is_some() {
                Some(self.after_move(mv))
            } else {
                None
            },
    {
        let mut next = *self;
        match next.apply_move_unchecked(mv) {
            Some(_) => Some(next),
            None => None,
        }
    }
}


/// Kind standing on column `c` of a back rank in the opening.
pub open spec fn back_rank_kind(c: int) -> PieceKind {
    if c == 0 || c == 8 {
        PieceKind::Rook
    } else if c == 1 || c == 7 {
        PieceKind::Horse
    } else if c == 2 || c == 6 {
        PieceKind::Elephant
    } else if c == 3 || c == 5 {
        PieceKind::Advisor
    } else {
        PieceKind::King
    }
}

/// Square at grid row `r`, column `c` of the standard opening.
pub open spec fn startpos_cell(r: int, c: int) -> BoardCell {
    if r == 0 {
        Some(Piece { side: Side::Black, kind: back_rank_kind(c) })
    } else if r == 9 {
        Some(Piece { side: Side::Red, kind: back_rank_kind(c) })
    } else if r == 2 && (c == 1 || c == 7) {
        Some(Piece { side: Side::Black, kind: PieceKind::Cannon })
    } else if r == 7 && (c == 1 || c == 7) {
        Some(Piece { side: Side::Red, kind: PieceKind::Cannon })
    } else if r == 3 && c % 2 == 0 {
        Some(Piece { side: Side::Black, kind: PieceKind::Pawn })
    } else if r == 6 && c % 2 == 0 {
        Some(Piece { side: Side::Red, kind: PieceKind::Pawn })
    } else {
        None
    }
}

fn back_rank(side: Side) -> (row: [BoardCell; 9])
    ensures
        forall|c: int| 0 <= c < 9 ==> row@[c] == Some(Piece { side, kind: back_rank_kind(c) }),
{
    [
        Some(Piece { side, kind: PieceKind::Rook }),
        Some(Piece { side, kind: PieceKind::Horse }),
        Some(Piece { side, kind: PieceKind::Elephant }),
        Some(Piece { side, kind: PieceKind::Advisor }),
        Some(Piece { side, kind: PieceKind::King }),
        Some(Piece { side, kind: PieceKind::Advisor }),
        Some(Piece { side, kind: PieceKind::Elephant }),
        Some(Piece { side, kind: PieceKind::Horse }),
        Some(Piece { side, kind: PieceKind::Rook }),
    ]
}

fn cannon_row(side: Side) -> (row: [BoardCell; 9])
    ensures
        forall|c: int| 0 <= c < 9 ==> row@[c] == if c == 1 || c == 7 {
            Some(Piece { side, kind: PieceKind::Cannon })
        } else {
            None
        },
{
    let p = Some(Piece { side, kind: PieceKind::Cannon });
    [None, p, None, None, None, None, None, p, None]
}

fn pawn_row(side: Side) -> (row: [BoardCell; 9])
    ensures
        forall|c: int| 0 <= c < 9 ==> row@[c] == if c % 2 == 0 {
            Some(Piece { side, kind: PieceKind::Pawn })
        } else {
            None
        },
{
    let p = Some(Piece { side, kind: PieceKind::Pawn });
    [p, None, p, None, p, None, p, None, p]
}

impl Board {
    /// Whether the board is the standard opening with red to move.
    pub open spec fn is_startpos(self) -> bool {
        &&& self.side_to_move == Side::Red
        &&& forall|r: int, c: int| 0 <= r < 10 && 0 <= c < 9 ==> self.at(r, c) == startpos_cell(r, c)
    }

    /// The standard opening (the position of `STARTPOS_FEN`).
    pub fn startpos() -> (b: Self)
        ensures
            b.is_startpos(),
    {
        let empty: [BoardCell; 9] = [None;9];
        let grid = [
            back_rank(Side::Black),
            empty,
            cannon_row(Side::Black),
            pawn_row(Side::Black),
            empty,
            empty,
            pawn_row(Side::Red),
            cannon_row(Side::Red),
            empty,
            back_rank(Side::Red),
        ];
        Board { grid, side_to_move: Side::Red }
    }
}

impl Default for Board {
    fn default() -> (b: Self)
        ensures
            b.is_startpos(),
    {
        Board::startpos()
    }
}

/// What one move did (for the game record).
#[derive(Debug, Clone, Copy, PartialEq, Eq, Structural)]
pub struct MoveOutcome {
    pub mv: Move,
    pub moved: Piece,
    pub captured: BoardCell,
    pub next_side_to_move: Side,
}

/// A game: the current board and the moves played so far.
#[derive(Debug, Clone)]
pub struct GameRecord {
    pub board: Board,
    pub history: Vec<MoveOutcome>,
}

impl GameRecord {
    /// A record starting from `board` with an empty history.
    pub fn new(board: Board) -> (g: Self)
        ensures
            g.board == board,
            g.history@.len() == 0,
    {
        GameRecord { board, history: Vec::new() }
    }

    /// A record starting from the standard opening.
    pub fn startpos() -> (g: Self)
        ensures
            g.board.is_startpos(),
            g.history@.len() == 0,
    {
        Self::new(Board::startpos())
    }

    /// Plays a move without rule check and records its outcome.
    pub fn apply_move_unchecked(&mut self, mv: Move) -> (out: Option<MoveOutcome>)
        requires
            mv.from.spec_in_bounds(),
            mv.to.spec_in_bounds(),
        ensures
            old(self).board.cell(mv.from).is_none() ==> {
                &&& out.is_none()
                &&& *final(self) == *old(self)
            },
            old(self).board.cell(mv.from).is_some() ==> {
                &&& final(self).board == old(self).board.after_move(mv)
                &&& out == Some(MoveOutcome {
                    mv,
                    moved: old(self).board.cell(mv.from).unwrap(),
                    captured: old(self).board.cell(mv.to),
                    next_side_to_move: old(self).board.side_to_move.spec_opposite(),
                })
                &&& final(self).history@ == old(self).history@.push(out.unwrap())
            },
    {
        let outcome = match self.board.apply_move_unchecked(mv) {
            Some(o) => o,
            None => return None,
        };
        self.history.push(outcome);
        Some(outcome)
    }
}

/// Turning a side over twice gives the same side.
pub proof fn lemma_opposite_involution(s: Side)
    ensures
        s.spec_opposite().spec_opposite() == s,
        s.spec_opposite() != s,
{
}

/// A side's FEN character parses back to that side.
pub proof fn lemma_side_fen_round_trip(s: Side)
    ensures
        Side::spec_from_fen_char(s.spec_fen_char()) == Some(s),
{
}

/// A piece's FEN letter parses back to that piece.
pub proof fn lemma_piece_fen_round_trip(p: Piece)
    ensures
        Piece::spec_from_fen_char(p.spec_fen_char()) == Some(p),
{
}

/// Grid indices and ICCS squares correspond one to one on the board.
pub proof fn lemma_index_round_trip(p: Pos, row: int, col: int)
    ensures
        p.spec_in_bounds() ==> Pos::spec_from_index(p.row(), p.col()) == Some(p),
        (0 <= row < 10 && 0 <= col < 9) ==> (Pos::spec_from_index(row, col) matches Some(q)
            && q.spec_in_bounds() && q.row() == row && q.col() == col),
{
}

proof fn lemma_iccs_is_ascii(p: Pos)
    requires
        p.spec_in_bounds(),
    ensures
        is_ascii_chars(p.spec_iccs()),
{
}

/// The ICCS text of an on-board square parses back to the square.
pub proof fn lemma_pos_iccs_round_trip(p: Pos)
    requires
        p.spec_in_bounds(),
    ensures
        Pos::spec_from_bytes(encode_utf8(p.spec_iccs())) == Ok::<Pos, PosParseError>(p),
{
    lemma_iccs_is_ascii(p);
    is_ascii_chars_encode_utf8(p.spec_iccs());
    let b = encode_utf8(p.spec_iccs());
    assert(b[0] == p.spec_iccs()[0] as u8);
    assert(b[1] == p.spec_iccs()[1] as u8);
}

/// The ICCS text of a move between on-board squares can be sliced and parses
/// back to the move.
pub proof fn lemma_move_iccs_round_trip(m: Move)
    requires
        m.from.spec_in_bounds(),
        m.to.spec_in_bounds(),
    ensures
        iccs_move_sliceable(encode_utf8(m.spec_iccs())),
        Move::spec_from_bytes(encode_utf8(m.spec_iccs())) == Ok::<Move, MoveParseError>(m),
{
    let cs = m.spec_iccs();
    assert(is_ascii_chars(cs)) by {
        assert(forall|i: int| 0 <= i < 4 ==> cs[i] == (if i < 2 { m.from.spec_iccs()[i] } else { m.to.spec_iccs()[i - 2] }));
    }
    is_ascii_chars_encode_utf8(cs);
    let b = encode_utf8(cs);
    assert(b[0] == cs[0] as u8);
    assert(b[1] == cs[1] as u8);
    assert(b[2] == cs[2] as u8);
    assert(b[3] == cs[3] as u8);
    encode_utf8_valid_utf8(cs);
    is_char_boundary_iff_is_leading_byte(b, 2);
}

} // verus!
