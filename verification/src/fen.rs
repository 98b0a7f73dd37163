//! Xiangqi FEN: parsing into a board and the canonical text of a board.
use vstd::prelude::*;
use crate::text::{
    is_ws, join_chars_from, join_with, push_char, seqs_view, split_chars, split_on,
    split_whitespace, str_chars, string_from_chars, ws_tokens, lemma_ws_tokens_nonempty_tokens,
};
use crate::types::{Board, BoardCell, Piece, Pos, Side};

verus! {

broadcast use vstd::array::group_array_axioms;

/// FEN parsing options.
#[derive(Debug, Clone, Copy, PartialEq, Eq, Structural)]
pub struct FenParseOptions {
    /// Whether the side-to-move field is required.
    pub require_side: bool,
    /// Whether fields after the side are accepted (and ignored).
    pub allow_extra_fields: bool,
}

impl FenParseOptions {
    /// Strict mode: the side field is required, extra fields are ignored.
    pub fn strict() -> (o: Self)
        ensures
            o == (FenParseOptions { require_side: true, allow_extra_fields: true }),
    {
        FenParseOptions { require_side: true, allow_extra_fields: true }
    }
}

impl Default for FenParseOptions {
    fn default() -> (o: Self)
        ensures
            o == (FenParseOptions { require_side: true, allow_extra_fields: true }),
    {
        Self::strict()
    }
}

/// Why a FEN text was rejected.
#[derive(Debug, Clone, PartialEq, Eq)]
pub enum FenError {
    /// No field at all.
    Empty,
    /// The board field does not have 10 rows.
    InvalidRowCount(usize),
    /// A row does not describe exactly 9 squares.
    InvalidColCount { row: usize, cols: usize },
    /// A row holds a character that is neither a digit nor a piece letter.
    InvalidChar { row: usize, ch: char },
    /// The side field is required but absent.
    MissingSide,
    /// The side field does not start with a side character.
    InvalidSide(String),
    /// Extra fields are present but not allowed (they are quoted, space-separated).
    ExtraFields(String),
}

/// `FenError` with its texts as character sequences.
pub enum FenFault {
    Empty,
    InvalidRowCount(int),
    InvalidColCount { row: int, cols: int },
    InvalidChar { row: int, ch: char },
    MissingSide,
    InvalidSide(Seq<char>),
    ExtraFields(Seq<char>),
}

impl View for FenError {
    type V = FenFault;

    open spec fn view(&self) -> FenFault {
        match self {
            FenError::Empty => FenFault::Empty,
            FenError::InvalidRowCount(n) => FenFault::InvalidRowCount(*n as int),
            FenError::InvalidColCount { row, cols } => FenFault::InvalidColCount {
                row: *row as int,
                cols: *cols as int,
            },
            FenError::InvalidChar { row, ch } => FenFault::InvalidChar { row: *row as int, ch: *ch },
            FenError::MissingSide => FenFault::MissingSide,
            FenError::InvalidSide(s) => FenFault::InvalidSide(s@),
            FenError::ExtraFields(s) => FenFault::ExtraFields(s@),
        }
    }
}

/// State while reading one row left to right.
pub enum RowScan {
    /// Squares filled so far, next column, pending digit value.
    Running { cells: Seq<BoardCell>, col: int, buf: int },
    Failed(FenFault),
    /// A counter would exceed `usize::MAX` (the reader cannot go on).
    Overflow,
}

/// Outcome of reading one row.
pub enum RowResult {
    Cells(Seq<BoardCell>),
    Fault(FenFault),
    Overflow,
}

/// Outcome of reading all rows.
pub enum GridResult {
    Rows(Seq<Seq<BoardCell>>),
    Fault(FenFault),
    Overflow,
}

/// Outcome of reading a FEN text.
pub enum FenOutcome {
    /// Rows top to bottom (rank 9 first), each with 9 squares, and the side to move.
    Parsed(Seq<Seq<BoardCell>>, Side),
    Fault(FenFault),
    Overflow,
}

pub open spec fn empty_row() -> Seq<BoardCell> {
    Seq::new(9, |i: int| None::<Piece>)
}

/// One character of a row: digits accumulate a count of empty squares,
/// a piece letter first skips the counted squares and then fills the next one.
pub open spec fn scan_step(st: RowScan, ch: char, row: int) -> RowScan {
    match st {
        RowScan::Running { cells, col, buf } => if '0' <= ch <= '9' {
            let nb = buf * 10 + (ch as int - 48);
            if nb > usize::MAX {
                RowScan::Overflow
            } else {
                RowScan::Running { cells, col, buf: nb }
            }
        } else {
            let c2 = col + buf;
            if c2 > usize::MAX {
                RowScan::Overflow
            } else {
                match Piece::spec_from_fen_char(ch) {
                    None => RowScan::Failed(FenFault::InvalidChar { row, ch }),
                    Some(p) => if c2 >= 9 {
                        if c2 + 1 > usize::MAX {
                            RowScan::Overflow
                        } else {
                            RowScan::Failed(FenFault::InvalidColCount { row, cols: c2 + 1 })
                        }
                    } else {
                        RowScan::Running { cells: cells.update(c2, Some(p)), col: c2 + 1, buf: 0 }
                    },
                }
            }
        },
        RowScan::Failed(f) => RowScan::Failed(f),
        RowScan::Overflow => RowScan::Overflow,
    }
}

pub open spec fn scan_row(chars: Seq<char>, row: int) -> RowScan
    decreases chars.len(),
{
    if chars.len() == 0 {
        RowScan::Running { cells: empty_row(), col: 0, buf: 0 }
    } else {
        scan_step(scan_row(chars.drop_last(), row), chars.last(), row)
    }
}

/// Reading a row: after the last character the pending count is applied and
/// exactly 9 squares must have been described.
pub open spec fn parse_row_spec(chars: Seq<char>, row: int) -> RowResult {
    match scan_row(chars, row) {
        RowScan::Running { cells, col, buf } => if col + buf > usize::MAX {
            RowResult::Overflow
        } else if col + buf != 9 {
            RowResult::Fault(FenFault::InvalidColCount { row, cols: col + buf })
        } else {
            RowResult::Cells(cells)
        },
        RowScan::Failed(f) => RowResult::Fault(f),
        RowScan::Overflow => RowResult::Overflow,
    }
}

/// Reads the first `n` rows; the first row that fails decides the outcome.
pub open spec fn parse_rows(rows: Seq<Seq<char>>, n: int) -> GridResult
    decreases n,
{
    if n <= 0 {
        GridResult::Rows(Seq::empty())
    } else {
        match parse_rows(rows, n - 1) {
            GridResult::Rows(acc) => match parse_row_spec(rows[n - 1], n - 1) {
                RowResult::Cells(c) => GridResult::Rows(acc.push(c)),
                RowResult::Fault(f) => GridResult::Fault(f),
                RowResult::Overflow => GridResult::Overflow,
            },
            other => other,
        }
    }
}

/// Reading the board field: ten `/`-separated rows.
pub open spec fn parse_grid_spec(board: Seq<char>) -> GridResult {
    let rows = split_on(board, '/');
    if rows.len() != 10 {
        GridResult::Fault(FenFault::InvalidRowCount(rows.len() as int))
    } else {
        parse_rows(rows, 10)
    }
}

/// Reading the side field: its first character.
pub open spec fn parse_side_spec(tok: Seq<char>) -> Result<Side, FenFault> {
    match Side::spec_from_fen_char(tok[0]) {
        Some(s) => Ok(s),
        None => Err(FenFault::InvalidSide(tok)),
    }
}

/// Reading a FEN text: white-space separated fields (board, side, extras);
/// checks in order: no field, disallowed extras, side, board.
pub open spec fn spec_parse_fen(fen: Seq<char>, options: FenParseOptions) -> FenOutcome {
    let toks = ws_tokens(fen);
    if toks.len() == 0 {
        FenOutcome::Fault(FenFault::Empty)
    } else if !options.allow_extra_fields && toks.len() > 2 {
        FenOutcome::Fault(FenFault::ExtraFields(join_with(toks.skip(2), ' ')))
    } else {
        let side: Result<Side, FenFault> = if toks.len() >= 2 {
            parse_side_spec(toks[1])
        } else if options.require_side {
            Err(FenFault::MissingSide)
        } else {
            Ok(Side::Red)
        };
        match side {
            Err(f) => FenOutcome::Fault(f),
            Ok(s) => match parse_grid_spec(toks[0]) {
                GridResult::Rows(rows) => FenOutcome::Parsed(rows, s),
                GridResult::Fault(f) => FenOutcome::Fault(f),
                GridResult::Overflow => FenOutcome::Overflow,
            },
        }
    }
}

/// Whether the board holds exactly these rows (top to bottom) and side to move.
pub open spec fn board_matches(b: Board, rows: Seq<Seq<BoardCell>>, side: Side) -> bool {
    &&& b.side_to_move == side
    &&& rows.len() == 10
    &&& forall|r: int, c: int| 0 <= r < 10 && 0 <= c < 9 ==> b.at(r, c) == #[trigger] rows[r][c]
}

/// Whether `r` is the result the FEN reader promises for outcome `o`.
pub open spec fn fen_result_is(r: Result<Board, FenError>, o: FenOutcome) -> bool {
    match o {
        FenOutcome::Parsed(rows, side) => r matches Ok(b) && board_matches(b, rows, side),
        FenOutcome::Fault(f) => r matches Err(e) && e@ == f,
        FenOutcome::Overflow => false,
    }
}

/// A row reading that ran into an overflow stays an overflow.
proof fn lemma_scan_overflow_stays(chars: Seq<char>, row: int, i: int)
    requires
        0 <= i <= chars.len(),
        scan_row(chars.take(i), row) is Overflow,
    ensures
        scan_row(chars, row) is Overflow,
    decreases chars.len() - i,
{
    if i < chars.len() {
        assert(chars.take(i + 1).drop_last() =~= chars.take(i));
        lemma_scan_overflow_stays(chars, row, i + 1);
    } else {
        assert(chars.take(i) =~= chars);
    }
}

/// Parses a FEN text into a board.
pub fn parse_fen(fen: &str, options: FenParseOptions) -> (r: Result<Board, FenError>)
    requires
        !(spec_parse_fen(fen@, options) is Overflow),
    ensures
        fen_result_is(r, spec_parse_fen(fen@, options)),
{
    let chars = str_chars(fen);
    let parts = split_whitespace(&chars);
    proof {
        lemma_ws_tokens_nonempty_tokens(fen@);
    }
    if parts.len() == 0 {
        return Err(FenError::Empty);
    }
    if !options.allow_extra_fields && parts.len() > 2 {
        return Err(FenError::ExtraFields(join_chars_from(&parts, 2, ' ')));
    }
    let side = if parts.len() >= 2 {
        proof {
            assert(seqs_view(parts@)[1] == parts@[1]@);
        }
        match parse_side(&parts[1]) {
            Ok(s) => s,
            Err(e) => return Err(e),
        }
    } else if options.require_side {
        return Err(FenError::MissingSide);
    } else {
        Side::Red
    };
    proof {
        assert(seqs_view(parts@)[0] == parts@[0]@);
    }
    let grid = match parse_board_grid(&parts[0]) {
        Ok(g) => g,
        Err(e) => return Err(e),
    };
    Ok(Board { grid, side_to_move: side })
}

fn parse_side(raw: &Vec<char>) -> (r: Result<Side, FenError>)
    requires
        raw@.len() > 0,
    ensures
        match parse_side_spec(raw@) {
            Ok(s) => r == Ok::<Side, FenError>(s),
            Err(f) => r matches Err(e) && e@ == f,
        },
{
    match Side::from_fen_char(raw[0]) {
        Some(s) => Ok(s),
        None => Err(FenError::InvalidSide(string_from_chars(raw.as_slice()))),
    }
}

fn parse_board_grid(board: &Vec<char>) -> (r: Result<[[BoardCell; 9]; 10], FenError>)
    requires
        !(parse_grid_spec(board@) is Overflow),
    ensures
        match parse_grid_spec(board@) {
            GridResult::Rows(rows) => r matches Ok(g) && rows.len() == 10 && forall|i: int, j: int|
                0 <= i < 10 && 0 <= j < 9 ==> g@[i]@[j] == #[trigger] rows[i][j],
            GridResult::Fault(f) => r matches Err(e) && e@ == f,
            GridResult::Overflow => false,
        },
{
    let rows = split_chars(board, '/');
    if rows.len() != 10 {
        return Err(FenError::InvalidRowCount(rows.len()));
    }
    let ghost rv = seqs_view(rows@);
    let mut grid: [[BoardCell; 9]; 10] = [[None;9];10];
    let mut row_idx: usize = 0;
    while row_idx < 10
        invariant
            row_idx <= 10,
            rows@.len() == 10,
            rv == split_on(board@, '/'),
            rv == seqs_view(rows@),
            !(parse_rows(rv, 10) is Overflow),
            parse_rows(rv, row_idx as int) matches GridResult::Rows(acc) && acc.len() == row_idx
                && forall|i: int, j: int| 0 <= i < row_idx && 0 <= j < 9 ==> grid@[i]@[j] == #[trigger] acc[i][j],
        decreases 10 - row_idx,
    {
        proof {
            assert(rv[row_idx as int] == rows@[row_idx as int]@);
            lemma_rows_prefix_not_overflow(rv, row_idx as int + 1, 10);
        }
        let ghost acc = parse_rows(rv, row_idx as int)->Rows_0;
        match parse_row(&rows[row_idx], row_idx) {
            Ok(cells) => {
                let ghost g0 = grid;
                grid[row_idx] = cells;
                proof {
                    let acc2 = parse_rows(rv, row_idx + 1)->Rows_0;
                    assert forall|i: int, j: int| 0 <= i < row_idx + 1 && 0 <= j < 9 implies grid@[i]@[j] == #[trigger] acc2[i][j] by {
                        if i < row_idx {
                            assert(grid@[i] == g0@[i]);
                        }
                    }
                }
            },
            Err(e) => {
                proof {
                    lemma_rows_fault_stays(rv, row_idx as int + 1, 10);
                }
                return Err(e);
            },
        }
        row_idx += 1;
    }
    Ok(grid)
}

proof fn lemma_rows_prefix_not_overflow(rows: Seq<Seq<char>>, n: int, m: int)
    requires
        0 <= n <= m,
        !(parse_rows(rows, m) is Overflow),
    ensures
        !(parse_rows(rows, n) is Overflow),
    decreases m - n,
{
    if n < m {
        lemma_rows_prefix_not_overflow(rows, n + 1, m);
    }
}

proof fn lemma_rows_fault_stays(rows: Seq<Seq<char>>, n: int, m: int)
    requires
        0 <= n <= m,
        parse_rows(rows, n) is Fault,
    ensures
        parse_rows(rows, m) == parse_rows(rows, n),
    decreases m - n,
{
    if n < m {
        lemma_rows_fault_stays(rows, n, m - 1);
    }
}

fn parse_row(chars: &Vec<char>, row_idx: usize) -> (r: Result<[BoardCell; 9], FenError>)
    requires
        !(parse_row_spec(chars@, row_idx as int) is Overflow),
    ensures
        match parse_row_spec(chars@, row_idx as int) {
            RowResult::Cells(cells) => r matches Ok(a) && a@ == cells,
            RowResult::Fault(f) => r matches Err(e) && e@ == f,
            RowResult::Overflow => false,
        },
{
    let mut cells: [BoardCell; 9] = [None;9];
    let mut col_idx: usize = 0;
    let mut digit_buf: usize = 0;
    let mut i: usize = 0;
    proof {
        assert(chars@.take(0) =~= Seq::<char>::empty());
        assert(cells@ =~= empty_row());
    }
    while i < chars.len()
        invariant
            i <= chars@.len(),
            !(parse_row_spec(chars@, row_idx as int) is Overflow),
            scan_row(chars@.take(i as int), row_idx as int) == (RowScan::Running {
                cells: cells@,
                col: col_idx as int,
                buf: digit_buf as int,
            }),
        decreases chars@.len() - i,
    {
        let ch = chars[i];
        proof {
            assert(chars@.take(i + 1).drop_last() =~= chars@.take(i as int));
            assert(chars@.take(i + 1).last() == ch);
            if scan_row(chars@.take(i + 1), row_idx as int) is Overflow {
                lemma_scan_overflow_stays(chars@, row_idx as int, i + 1);
            }
        }
        if '0' <= ch && ch <= '9' {
            let digit = ((ch as u32) - 48) as usize;
            digit_buf = digit_buf * 10 + digit;
        } else {
            if digit_buf > 0 {
                col_idx += digit_buf;
                digit_buf = 0;
            }
            let piece = match Piece::from_fen_char(ch) {
                Some(p) => p,
                None => {
                    proof {
                        lemma_scan_failed_stays(chars@, row_idx as int, i + 1);
                    }
                    return Err(FenError::InvalidChar { row: row_idx, ch });
                },
            };
            if col_idx >= 9 {
                proof {
                    lemma_scan_failed_stays(chars@, row_idx as int, i + 1);
                }
                return Err(FenError::InvalidColCount { row: row_idx, cols: col_idx + 1 });
            }
            cells[col_idx] = Some(piece);
            col_idx += 1;
        }
        i += 1;
    }
    proof {
        assert(chars@.take(chars@.len() as int) =~= chars@);
    }
    if digit_buf > 0 {
        col_idx += digit_buf;
    }
    if col_idx != 9 {
        return Err(FenError::InvalidColCount { row: row_idx, cols: col_idx });
    }
    Ok(cells)
}

proof fn lemma_scan_failed_stays(chars: Seq<char>, row: int, i: int)
    requires
        0 <= i <= chars.len(),
        scan_row(chars.take(i), row) is Failed,
    ensures
        scan_row(chars, row) == scan_row(chars.take(i), row),
    decreases chars.len() - i,
{
    if i < chars.len() {
        assert(chars.take(i + 1).drop_last() =~= chars.take(i));
        lemma_scan_failed_stays(chars, row, i + 1);
    } else {
        assert(chars.take(i) =~= chars);
    }
}

impl Board {
    /// Parses a FEN text in strict mode.
    pub fn from_fen(fen: &str) -> (r: Result<Self, FenError>)
        requires
            !(spec_parse_fen(fen@, FenParseOptions { require_side: true, allow_extra_fields: true }) is Overflow),
        ensures
            fen_result_is(r, spec_parse_fen(fen@, FenParseOptions { require_side: true, allow_extra_fields: true })),
    {
        parse_fen(fen, FenParseOptions::strict())
    }

    /// Square at grid index `(row, col)`, if on the board.
    pub fn pos_from_index(row: usize, col: usize) -> (p: Option<Pos>)
        ensures
            p == Pos::spec_from_index(row as int, col as int),
    {
        Pos::from_index(row, col)
    }
}

/// Decimal text of a count of empty squares (nothing for zero; counts here are at most 9).
pub open spec fn digit_text(e: int) -> Seq<char> {
    if e > 0 {
        seq![(48 + e) as char]
    } else {
        Seq::empty()
    }
}

/// Canonical text of the first `k` squares of a row, and the number of empty
/// squares at its end not yet written.
pub open spec fn enc_row(cells: Seq<BoardCell>, k: int) -> (Seq<char>, int)
    decreases k,
{
    if k <= 0 {
        (Seq::empty(), 0)
    } else {
        let (o, e) = enc_row(cells, k - 1);
        match cells[k - 1] {
            None => (o, e + 1),
            Some(p) => (o + digit_text(e) + seq![p.spec_fen_char()], 0),
        }
    }
}

/// Canonical text of a row: piece letters, runs of empty squares as their count.
pub open spec fn row_text(cells: Seq<BoardCell>) -> Seq<char> {
    enc_row(cells, cells.len() as int).0 + digit_text(enc_row(cells, cells.len() as int).1)
}

/// Texts of the ten rows, top to bottom.
pub open spec fn row_texts(b: Board) -> Seq<Seq<char>> {
    Seq::new(10, |r: int| row_text(b.grid@[r]@))
}

/// Canonical FEN of a board: rows joined by `/`, a space, the side character.
pub open spec fn spec_to_fen(b: Board) -> Seq<char> {
    join_with(row_texts(b), '/').push(' ').push(b.side_to_move.spec_fen_char())
}

impl Board {
    /// The canonical FEN of the board (board and side fields only).
    pub fn to_fen(&self) -> (s: String)
        ensures
            s@ == spec_to_fen(*self),
    {
        let mut out = String::new();
        let ghost texts = row_texts(*self);
        let mut row: usize = 0;
        while row < 10
            invariant
                row <= 10,
                texts == row_texts(*self),
                out@ == join_with(texts.take(row as int), '/'),
            decreases 10 - row,
        {
            let ghost before = out@;
            if row > 0 {
                push_char(&mut out, '/');
            }
            let ghost mid = out@;
            let cells = self.grid[row];
            let mut empty: usize = 0;
            let mut col: usize = 0;
            while col < 9
                invariant
                    col <= 9,
                    empty <= col,
                    out@ == mid + enc_row(cells@, col as int).0,
                    empty as int == enc_row(cells@, col as int).1,
                decreases 9 - col,
            {
                match cells[col] {
                    Some(piece) => {
                        if empty > 0 {
                            push_char(&mut out, ((48 + empty) as u8) as char);
                            empty = 0;
                        }
                        push_char(&mut out, piece.to_fen_char());
                        proof {
                            let (o, e) = enc_row(cells@, col as int);
                            assert(out@ =~= mid + (o + digit_text(e) + seq![piece.spec_fen_char()]));
                        }
                    },
                    None => {
                        empty += 1;
                    },
                }
                col += 1;
            }
            if empty > 0 {
                push_char(&mut out, ((48 + empty) as u8) as char);
            }
            proof {
                assert(out@ =~= mid + row_text(cells@));
                assert(texts[row as int] == row_text(cells@));
                let tk = texts.take(row + 1);
                assert(tk.drop_last() =~= texts.take(row as int));
                assert(tk.last() == row_text(cells@));
                if row == 0 {
                    assert(out@ =~= tk[0]);
                } else {
                    assert(out@ =~= before.push('/') + tk.last());
                }
            }
            row += 1;
        }
        push_char(&mut out, ' ');
        push_char(&mut out, self.side_to_move.to_fen_char());
        proof {
            assert(texts.take(10) =~= texts);
        }
        out
    }
}

/// Whether a character is one of the characters canonical FEN rows use.
pub open spec fn is_row_char(c: char) -> bool {
    ('1' <= c <= '9') || Piece::spec_from_fen_char(c).is_some()
}

proof fn lemma_fen_char_is_letter(p: Piece)
    ensures
        Piece::spec_from_fen_char(p.spec_fen_char()) == Some(p),
        !('0' <= p.spec_fen_char() <= '9'),
        !is_ws(p.spec_fen_char()),
        p.spec_fen_char() != '/',
{
}

/// Everything `enc_row` produces: its trailing count, and that it only writes row characters.
proof fn lemma_enc_row_shape(cells: Seq<BoardCell>, k: int)
    requires
        0 <= k <= cells.len(),
        k <= 9,
    ensures
        0 <= enc_row(cells, k).1 <= k,
        forall|j: int| k - enc_row(cells, k).1 <= j < k ==> cells[j].is_none(),
        forall|i: int| 0 <= i < enc_row(cells, k).0.len() ==> is_row_char(#[trigger] enc_row(cells, k).0[i]),
        k > 0 && enc_row(cells, k).1 < k ==> enc_row(cells, k).0.len() > 0,
    decreases k,
{
    if k > 0 {
        lemma_enc_row_shape(cells, k - 1);
        let (o, e) = enc_row(cells, k - 1);
        match cells[k - 1] {
            None => {},
            Some(p) => {
                lemma_fen_char_is_letter(p);
                let o2 = o + digit_text(e) + seq![p.spec_fen_char()];
                assert forall|i: int| 0 <= i < o2.len() implies is_row_char(#[trigger] o2[i]) by {
                    if i < o.len() {
                        assert(o2[i] == o[i]);
                    } else if i < o.len() + digit_text(e).len() {
                        assert(o2[i] == (48 + e) as char);
                        assert(1 <= e <= 8);
                        assert('1' <= (48 + e) as char <= '9');
                    } else {
                        assert(o2[i] == p.spec_fen_char());
                    }
                }
            },
        }
    }
}

proof fn lemma_row_text_shape(cells: Seq<BoardCell>)
    requires
        cells.len() == 9,
    ensures
        row_text(cells).len() > 0,
        forall|i: int| 0 <= i < row_text(cells).len() ==> is_row_char(#[trigger] row_text(cells)[i]),
{
    lemma_enc_row_shape(cells, 9);
    let (o, e) = enc_row(cells, 9);
    let t = row_text(cells);
    assert forall|i: int| 0 <= i < t.len() implies is_row_char(#[trigger] t[i]) by {
        if i < o.len() {
            assert(t[i] == o[i]);
        } else {
            assert(t[i] == (48 + e) as char);
            assert('1' <= (48 + e) as char <= '9');
        }
    }
}

/// The first `m` squares of a row, the rest empty.
pub open spec fn row_prefix(cells: Seq<BoardCell>, m: int) -> Seq<BoardCell> {
    Seq::new(9, |j: int| if j < m { cells[j] } else { None::<Piece> })
}

proof fn lemma_scan_push(chars: Seq<char>, c: char, row: int)
    ensures
        scan_row(chars.push(c), row) == scan_step(scan_row(chars, row), c, row),
{
    assert(chars.push(c).drop_last() =~= chars);
}

proof fn lemma_scan_concat_digit(chars: Seq<char>, e: int, row: int)
    ensures
        scan_row(chars + digit_text(e), row) == if e > 0 {
            scan_step(scan_row(chars, row), (48 + e) as char, row)
        } else {
            scan_row(chars, row)
        },
{
    if e > 0 {
        assert(chars + digit_text(e) =~= chars.push((48 + e) as char));
        lemma_scan_push(chars, (48 + e) as char, row);
    } else {
        assert(chars + digit_text(e) =~= chars);
    }
}

/// Reading back the canonical text of the first `k` squares leaves the reader
/// with those squares filled, minus the trailing empty run still to be counted.
proof fn lemma_scan_enc_row(cells: Seq<BoardCell>, k: int, row: int)
    requires
        cells.len() == 9,
        0 <= k <= 9,
    ensures
        scan_row(enc_row(cells, k).0, row) == (RowScan::Running {
            cells: row_prefix(cells, k - enc_row(cells, k).1),
            col: k - enc_row(cells, k).1,
            buf: 0,
        }),
    decreases k,
{
    if k == 0 {
        assert(row_prefix(cells, 0) =~= empty_row());
    } else {
        lemma_scan_enc_row(cells, k - 1, row);
        lemma_enc_row_shape(cells, k - 1);
        let (o, e) = enc_row(cells, k - 1);
        match cells[k - 1] {
            None => {},
            Some(p) => {
                lemma_fen_char_is_letter(p);
                let x = o + digit_text(e);
                lemma_scan_concat_digit(o, e, row);
                assert(o + digit_text(e) + seq![p.spec_fen_char()] =~= x.push(p.spec_fen_char()));
                lemma_scan_push(x, p.spec_fen_char(), row);
                let c2 = k - 1;
                assert(row_prefix(cells, k - 1 - e).update(c2, Some(p)) =~= row_prefix(cells, k));
            },
        }
    }
}

proof fn lemma_parse_row_text(cells: Seq<BoardCell>, row: int)
    requires
        cells.len() == 9,
    ensures
        parse_row_spec(row_text(cells), row) == RowResult::Cells(cells),
{
    lemma_scan_enc_row(cells, 9, row);
    lemma_enc_row_shape(cells, 9);
    let (o, e) = enc_row(cells, 9);
    lemma_scan_concat_digit(o, e, row);
    assert(row_prefix(cells, 9 - e) =~= cells);
}

proof fn lemma_split_append(x: Seq<char>, t: Seq<char>, sep: char)
    requires
        forall|i: int| 0 <= i < t.len() ==> t[i] != sep,
    ensures
        split_on(x + t, sep) == split_on(x, sep).update(
            split_on(x, sep).len() - 1,
            split_on(x, sep).last() + t,
        ),
    decreases t.len(),
{
    crate::text::lemma_split_on_nonempty(x, sep);
    if t.len() == 0 {
        assert(x + t =~= x);
        assert(split_on(x, sep).last() + t =~= split_on(x, sep).last());
        assert(split_on(x, sep).update(split_on(x, sep).len() - 1, split_on(x, sep).last())
            =~= split_on(x, sep));
    } else {
        lemma_split_append(x, t.drop_last(), sep);
        assert((x + t).drop_last() =~= x + t.drop_last());
        assert((x + t).last() == t.last());
        let px = split_on(x, sep);
        assert(t.last() != sep);
        let a = px.last() + t.drop_last();
        assert(a.push(t.last()) =~= px.last() + t);
        let prev = px.update(px.len() - 1, a);
        assert(prev.len() == px.len());
        assert(prev.last() == a);
        assert(split_on(x + t, sep) == prev.update(prev.len() - 1, prev.last().push((x + t).last())));
        assert(prev.update(px.len() - 1, a.push(t.last())) =~= px.update(px.len() - 1, px.last() + t));
    }
}

/// Splitting a `sep`-joined list of pieces that do not contain `sep` gives the pieces back.
proof fn lemma_split_join(parts: Seq<Seq<char>>, sep: char)
    requires
        parts.len() >= 1,
        forall|k: int, i: int| 0 <= k < parts.len() && 0 <= i < parts[k].len() ==> #[trigger] parts[k][i] != sep,
    ensures
        split_on(join_with(parts, sep), sep) == parts,
    decreases parts.len(),
{
    if parts.len() == 1 {
        lemma_split_append(Seq::empty(), parts[0], sep);
        assert(Seq::<char>::empty() + parts[0] =~= parts[0]);
        assert(split_on(Seq::<char>::empty(), sep) =~= seq![Seq::<char>::empty()]);
        assert(split_on(parts[0], sep) =~= parts);
    } else {
        let init = parts.drop_last();
        lemma_split_join(init, sep);
        let j = join_with(init, sep);
        assert(j.push(sep).drop_last() =~= j);
        lemma_split_append(j.push(sep), parts.last(), sep);
        assert(split_on(j.push(sep), sep) =~= init.push(Seq::<char>::empty()));
        assert(Seq::<char>::empty() + parts.last() =~= parts.last());
        assert(split_on(join_with(parts, sep), sep) =~= parts);
    }
}

proof fn lemma_join_shape(parts: Seq<Seq<char>>, sep: char)
    requires
        parts.len() >= 1,
        parts[0].len() > 0,
        !is_ws(sep),
        forall|k: int, i: int| 0 <= k < parts.len() && 0 <= i < parts[k].len() ==> !is_ws(#[trigger] parts[k][i]),
    ensures
        join_with(parts, sep).len() > 0,
        forall|i: int| 0 <= i < join_with(parts, sep).len() ==> !is_ws(#[trigger] join_with(parts, sep)[i]),
    decreases parts.len(),
{
    if parts.len() > 1 {
        lemma_join_shape(parts.drop_last(), sep);
        let j = join_with(parts.drop_last(), sep);
        let t = join_with(parts, sep);
        assert forall|i: int| 0 <= i < t.len() implies !is_ws(#[trigger] t[i]) by {
            if i < j.len() {
                assert(t[i] == j[i]);
            } else if i == j.len() {
                assert(t[i] == sep);
            } else {
                assert(t[i] == parts.last()[i - j.len() - 1]);
            }
        }
    }
}

proof fn lemma_ws_tokens_single(t: Seq<char>)
    requires
        t.len() > 0,
        forall|i: int| 0 <= i < t.len() ==> !is_ws(#[trigger] t[i]),
    ensures
        ws_tokens(t) == seq![t],
    decreases t.len(),
{
    assert(!is_ws(t[t.len() - 1]));
    if t.len() == 1 {
        assert(t.drop_last() =~= Seq::<char>::empty());
        assert(ws_tokens(t.drop_last()) =~= Seq::<Seq<char>>::empty());
        assert(seq![t.last()] =~= t);
        assert(ws_tokens(t) =~= seq![t]);
    } else {
        lemma_ws_tokens_single(t.drop_last());
        assert(!is_ws(t[t.len() - 2]));
        assert(t.drop_last().push(t.last()) =~= t);
        let prev = ws_tokens(t.drop_last());
        assert(prev.last() == t.drop_last());
        assert(prev.update(0, prev.last().push(t.last())) =~= seq![t]);
    }
}

proof fn lemma_parse_rows_texts(b: Board, n: int)
    requires
        0 <= n <= 10,
    ensures
        parse_rows(row_texts(b), n) matches GridResult::Rows(acc) && acc.len() == n && forall|r: int|
            0 <= r < n ==> #[trigger] acc[r] == b.grid@[r]@,
    decreases n,
{
    if n > 0 {
        lemma_parse_rows_texts(b, n - 1);
        lemma_parse_row_text(b.grid@[n - 1]@, n - 1);
    }
}

/// The canonical FEN of any board reads back as that board, under any options.
pub proof fn lemma_fen_round_trip(b: Board, options: FenParseOptions)
    ensures
        spec_parse_fen(spec_to_fen(b), options) matches FenOutcome::Parsed(rows, side) && board_matches(b, rows, side),
{
    let texts = row_texts(b);
    assert forall|k: int, i: int| 0 <= k < texts.len() && 0 <= i < texts[k].len() implies
        !is_ws(#[trigger] texts[k][i]) && texts[k][i] != '/' by {
        lemma_row_text_shape(b.grid@[k]@);
        assert(is_row_char(texts[k][i]));
    }
    lemma_row_text_shape(b.grid@[0]@);
    lemma_join_shape(texts, '/');
    let j = join_with(texts, '/');
    lemma_ws_tokens_single(j);
    let c = b.side_to_move.spec_fen_char();
    let f = spec_to_fen(b);
    assert(j.push(' ').drop_last() =~= j);
    assert(ws_tokens(j.push(' ')) == ws_tokens(j));
    assert(f.drop_last() =~= j.push(' '));
    assert(ws_tokens(f) =~= seq![j, seq![c]]);
    lemma_split_join(texts, '/');
    lemma_parse_rows_texts(b, 10);
}

/// A board is determined by its rows and side to move.
pub proof fn lemma_board_matches_unique(x: Board, y: Board, rows: Seq<Seq<BoardCell>>, side: Side)
    requires
        board_matches(x, rows, side),
        board_matches(y, rows, side),
    ensures
        x == y,
{
    assert forall|r: int| 0 <= r < 10 implies x.grid@[r] == y.grid@[r] by {
        assert forall|c: int| 0 <= c < 9 implies x.grid@[r]@[c] == y.grid@[r]@[c] by {
            assert(x.at(r, c) == rows[r][c]);
            assert(y.at(r, c) == rows[r][c]);
        }
        assert(x.grid@[r]@ =~= y.grid@[r]@);
    }
    assert(x.grid@ =~= y.grid@);
    assert(x.grid == y.grid);
}

} // verus!
