//! Difference between two observed boards, classified into candidate events.
//! A diff never changes a board: it only says what might have happened.
use vstd::prelude::*;
use crate::types::{Board, BoardCell, Move, Piece, Pos, count_occupied, count_rows};

verus! {

broadcast use vstd::array::group_array_axioms;

/// Classification of a board diff.
#[derive(Debug, Clone, Copy, PartialEq, Eq, Structural)]
pub enum BoardDiffKind {
    /// Nothing changed.
    NoChange,
    /// Exactly one move explains the change.
    MoveCandidate,
    /// Only one square changed (typically recognition jitter).
    OneChanged,
    /// Several squares changed.
    MultiChanged,
    /// Fewer pieces than before, without a move explaining it.
    LessPieces,
    /// More pieces than before.
    MorePieces,
    /// Two squares changed but no move explains it.
    Indeterminate,
}

/// The move a diff points to (never applied by the diff itself).
#[derive(Debug, Clone, Copy, PartialEq, Eq, Structural)]
pub struct DiffedMove {
    pub mv: Move,
    pub moved: Piece,
    pub captured: BoardCell,
}

/// Result of comparing two boards.
#[derive(Debug, Clone, PartialEq, Eq)]
pub struct BoardDiff {
    pub kind: BoardDiffKind,
    /// `pieces(new) - pieces(old)`.
    pub piece_count_delta: isize,
    /// Changed squares, in row-major order.
    pub changed: Vec<Pos>,
    /// The move that explains the change, if one does.
    pub candidate: Option<DiffedMove>,
}

/// One changed square: where, what was there, what is there now.
pub type DiffEntry = (Pos, BoardCell, BoardCell);

/// Square at flat index `k` (= row * 9 + col).
pub open spec fn pos_of_index(k: int) -> Pos {
    Pos { file: (k % 9) as u8, rank: (9 - k / 9) as u8 }
}

/// The changed squares at flat indices `k..90`, in order.
pub open spec fn diff_entries(old: Board, new: Board, k: int) -> Seq<DiffEntry>
    decreases 90 - k,
{
    if k >= 90 || k < 0 {
        Seq::empty()
    } else {
        let here: Seq<DiffEntry> = if old.at(k / 9, k % 9) != new.at(k / 9, k % 9) {
            seq![(pos_of_index(k), old.at(k / 9, k % 9), new.at(k / 9, k % 9))]
        } else {
            Seq::empty()
        };
        here + diff_entries(old, new, k + 1)
    }
}

/// Whether an entry is a square that was vacated.
pub open spec fn is_vacated(e: DiffEntry) -> bool {
    e.1.is_some() && e.2.is_none()
}

/// Whether an entry is a square that now holds a piece.
pub open spec fn is_filled(e: DiffEntry) -> bool {
    e.2.is_some()
}

/// The move explained by two changed squares: one vacated and one now holding
/// the same piece (a later matching entry takes precedence over an earlier one).
pub open spec fn spec_infer(d: Seq<DiffEntry>) -> Option<DiffedMove> {
    if d.len() != 2 {
        None
    } else {
        let from = if is_vacated(d[1]) { Some(d[1]) } else if is_vacated(d[0]) { Some(d[0]) } else { None };
        let to = if is_filled(d[1]) { Some(d[1]) } else if is_filled(d[0]) { Some(d[0]) } else { None };
        match (from, to) {
            (Some(f), Some(t)) => if f.1.unwrap() == t.2.unwrap() {
                Some(DiffedMove { mv: Move { from: f.0, to: t.0 }, moved: f.1.unwrap(), captured: t.1 })
            } else {
                None
            },
            _ => None,
        }
    }
}

pub open spec fn spec_classify(len: int, delta: int, has_candidate: bool) -> BoardDiffKind {
    if has_candidate && (delta == 0 || delta == -1) && len == 2 {
        BoardDiffKind::MoveCandidate
    } else if delta < 0 {
        BoardDiffKind::LessPieces
    } else if delta > 0 {
        BoardDiffKind::MorePieces
    } else if len == 0 {
        BoardDiffKind::NoChange
    } else if len == 1 {
        BoardDiffKind::OneChanged
    } else if len == 2 {
        BoardDiffKind::Indeterminate
    } else {
        BoardDiffKind::MultiChanged
    }
}

/// Everything `diff_boards` reports, as a function of the two boards.
pub open spec fn spec_diff_kind(old: Board, new: Board) -> BoardDiffKind {
    let d = diff_entries(old, new, 0);
    if d.len() == 0 {
        BoardDiffKind::NoChange
    } else {
        spec_classify(d.len() as int, spec_delta(old, new), spec_infer(d).is_some())
    }
}

pub open spec fn spec_delta(old: Board, new: Board) -> int {
    new.spec_piece_count() - old.spec_piece_count()
}

pub open spec fn spec_changed(old: Board, new: Board) -> Seq<Pos> {
    diff_entries(old, new, 0).map_values(|e: DiffEntry| e.0)
}

pub open spec fn spec_candidate(old: Board, new: Board) -> Option<DiffedMove> {
    let d = diff_entries(old, new, 0);
    if d.len() == 0 {
        None
    } else {
        spec_infer(d)
    }
}

impl BoardDiff {
    pub open spec fn spec_is_move_candidate(&self) -> bool {
        self.kind == BoardDiffKind::MoveCandidate && self.candidate.is_some()
    }

    /// Whether the diff is a move candidate that carries its move.
    pub fn is_move_candidate(&self) -> (b: bool)
        ensures
            b == self.spec_is_move_candidate(),
    {
        self.kind == BoardDiffKind::MoveCandidate && self.candidate.is_some()
    }

    /// Whether the diff is exactly what `diff_boards(old, new)` returns.
    pub open spec fn describes(&self, old: Board, new: Board) -> bool {
        &&& self.kind == spec_diff_kind(old, new)
        &&& self.piece_count_delta as int == spec_delta(old, new)
        &&& self.changed@ == spec_changed(old, new)
        &&& self.candidate == spec_candidate(old, new)
    }
}

/// Compares two boards square by square.
pub fn diff_boards(old: &Board, new: &Board) -> (d: BoardDiff)
    ensures
        d.describes(*old, *new),
{
    let mut changed: Vec<Pos> = Vec::new();
    let mut diffs: Vec<DiffEntry> = Vec::new();
    let mut row: usize = 0;
    while row < 10
        invariant
            row <= 10,
            diffs@ + diff_entries(*old, *new, (row * 9) as int) == diff_entries(*old, *new, 0),
            changed@ == diffs@.map_values(|e: DiffEntry| e.0),
            diffs@.len() <= row * 9,
        decreases 10 - row,
    {
        let mut col: usize = 0;
        while col < 9
            invariant
                row < 10,
                col <= 9,
                diffs@ + diff_entries(*old, *new, (row * 9 + col) as int) == diff_entries(*old, *new, 0),
                changed@ == diffs@.map_values(|e: DiffEntry| e.0),
                diffs@.len() <= row * 9 + col,
            decreases 9 - col,
        {
            let k = row * 9 + col;
            proof {
                assert(k / 9 == row as int && k % 9 == col as int) by (nonlinear_arith)
                    requires k == row * 9 + col, col < 9;
            }
            let old_cell = old.grid[row][col];
            let new_cell = new.grid[row][col];
            let ghost before = diffs@;
            if !cell_differs(old_cell, new_cell) {
                proof {
                    assert(diff_entries(*old, *new, k as int) == diff_entries(*old, *new, k + 1));
                }
            } else {
                let pos = Pos { file: col as u8, rank: (9 - row) as u8 };
                changed.push(pos);
                diffs.push((pos, old_cell, new_cell));
                proof {
                    let e = (pos, old_cell, new_cell);
                    assert(diff_entries(*old, *new, k as int) == seq![e] + diff_entries(*old, *new, k + 1));
                    assert(diffs@ + diff_entries(*old, *new, k + 1) =~= before + diff_entries(*old, *new, k as int));
                    assert(changed@ =~= diffs@.map_values(|e: DiffEntry| e.0));
                }
            }
            col += 1;
        }
        row += 1;
    }
    proof {
        assert(diff_entries(*old, *new, 90) =~= Seq::<DiffEntry>::empty());
        assert(diffs@ =~= diff_entries(*old, *new, 0));
    }
    let old_count = old.piece_count();
    let new_count = new.piece_count();
    proof {
        lemma_piece_count_bound(*old);
        lemma_piece_count_bound(*new);
    }
    let piece_count_delta = new_count as isize - old_count as isize;
    if diffs.len() == 0 {
        return BoardDiff { kind: BoardDiffKind::NoChange, piece_count_delta, changed, candidate: None };
    }
    let candidate = infer_move_candidate(&diffs);
    let kind = classify_diff(diffs.len(), piece_count_delta, candidate.is_some());
    BoardDiff { kind, piece_count_delta, changed, candidate }
}

fn cell_differs(a: BoardCell, b: BoardCell) -> (r: bool)
    ensures
        r == (a != b),
{
    match (a, b) {
        (None, None) => false,
        (Some(x), Some(y)) => x != y,
        _ => true,
    }
}

proof fn lemma_count_occupied_bound(s: Seq<BoardCell>)
    ensures
        count_occupied(s) <= s.len(),
    decreases s.len(),
{
    if s.len() > 0 {
        lemma_count_occupied_bound(s.drop_last());
    }
}

proof fn lemma_count_rows_bound(b: Board, n: int)
    requires
        0 <= n <= 10,
    ensures
        count_rows(b, n) <= 9 * n,
    decreases n,
{
    if n > 0 {
        lemma_count_rows_bound(b, n - 1);
        lemma_count_occupied_bound(b.grid@[n - 1]@);
    }
}

proof fn lemma_piece_count_bound(b: Board)
    ensures
        b.spec_piece_count() <= 90,
{
    lemma_count_rows_bound(b, 10);
}

fn classify_diff(diff_len: usize, piece_count_delta: isize, has_candidate: bool) -> (k: BoardDiffKind)
    ensures
        k == spec_classify(diff_len as int, piece_count_delta as int, has_candidate),
{
    if has_candidate && (piece_count_delta == 0 || piece_count_delta == -1) && diff_len == 2 {
        return BoardDiffKind::MoveCandidate;
    }
    if piece_count_delta < 0 {
        return BoardDiffKind::LessPieces;
    }
    if piece_count_delta > 0 {
        return BoardDiffKind::MorePieces;
    }
    match diff_len {
        0 => BoardDiffKind::NoChange,
        1 => BoardDiffKind::OneChanged,
        2 => BoardDiffKind::Indeterminate,
        _ => BoardDiffKind::MultiChanged,
    }
}

fn infer_move_candidate(diffs: &Vec<DiffEntry>) -> (c: Option<DiffedMove>)
    ensures
        c == spec_infer(diffs@),
{
    if diffs.len() != 2 {
        return None;
    }
    let mut from: Option<(Pos, Piece)> = None;
    let mut to: Option<(Pos, Piece, BoardCell)> = None;
    let mut i: usize = 0;
    while i < 2
        invariant
            diffs@.len() == 2,
            i <= 2,
            from == if i >= 2 && is_vacated(diffs@[1]) {
                Some((diffs@[1].0, diffs@[1].1.unwrap()))
            } else if i >= 1 && is_vacated(diffs@[0]) {
                Some((diffs@[0].0, diffs@[0].1.unwrap()))
            } else {
                None
            },
            to == if i >= 2 && is_filled(diffs@[1]) {
                Some((diffs@[1].0, diffs@[1].2.unwrap(), diffs@[1].1))
            } else if i >= 1 && is_filled(diffs@[0]) {
                Some((diffs@[0].0, diffs@[0].2.unwrap(), diffs@[0].1))
            } else {
                None
            },
        decreases 2 - i,
    {
        let (pos, old_cell, new_cell) = diffs[i];
        match (old_cell, new_cell) {
            (Some(piece), None) => {
                from = Some((pos, piece));
            },
            (Some(old_piece), Some(new_piece)) => {
                to = Some((pos, new_piece, Some(old_piece)));
            },
            (None, Some(piece)) => {
                to = Some((pos, piece, None));
            },
            (None, None) => {},
        }
        i += 1;
    }
    let (from_pos, from_piece) = match from {
        Some(f) => f,
        None => return None,
    };
    let (to_pos, to_piece, captured) = match to {
        Some(t) => t,
        None => return None,
    };
    if from_piece != to_piece {
        return None;
    }
    Some(DiffedMove { mv: Move::new(from_pos, to_pos), moved: from_piece, captured })
}

/// Flat index (row * 9 + col) of an on-board square.
pub open spec fn index_of(p: Pos) -> int {
    p.row() * 9 + p.col()
}

proof fn lemma_index_of(p: Pos)
    requires
        p.spec_in_bounds(),
    ensures
        0 <= index_of(p) < 90,
        index_of(p) / 9 == p.row(),
        index_of(p) % 9 == p.col(),
        pos_of_index(index_of(p)) == p,
{
    let k = index_of(p);
    assert(k / 9 == p.row() && k % 9 == p.col()) by (nonlinear_arith)
        requires k == p.row() * 9 + p.col(), 0 <= p.col() < 9, 0 <= p.row() < 10;
}

/// What a square of `b.with_cell(p, v)` holds.
pub proof fn lemma_with_cell_at(b: Board, p: Pos, v: BoardCell, r: int, c: int)
    requires
        p.spec_in_bounds(),
        0 <= r < 10,
        0 <= c < 9,
    ensures
        b.with_cell(p, v).at(r, c) == if r == p.row() && c == p.col() { v } else { b.at(r, c) },
{
}

proof fn lemma_count_occupied_update(s: Seq<BoardCell>, i: int, v: BoardCell)
    requires
        0 <= i < s.len(),
    ensures
        count_occupied(s.update(i, v)) + (if s[i].is_some() { 1int } else { 0int })
            == count_occupied(s) + (if v.is_some() { 1int } else { 0int }),
    decreases s.len(),
{
    if i == s.len() - 1 {
        assert(s.update(i, v).drop_last() =~= s.drop_last());
    } else {
        lemma_count_occupied_update(s.drop_last(), i, v);
        assert(s.update(i, v).drop_last() =~= s.drop_last().update(i, v));
    }
}

proof fn lemma_count_rows_with_cell(b: Board, p: Pos, v: BoardCell, n: int)
    requires
        p.spec_in_bounds(),
        0 <= n <= 10,
    ensures
        count_rows(b.with_cell(p, v), n) + (if n > p.row() && b.cell(p).is_some() { 1int } else { 0int })
            == count_rows(b, n) + (if n > p.row() && v.is_some() { 1int } else { 0int }),
    decreases n,
{
    if n > 0 {
        lemma_count_rows_with_cell(b, p, v, n - 1);
        let w = b.with_cell(p, v);
        if n - 1 == p.row() {
            assert(w.grid@[n - 1]@ =~= b.grid@[n - 1]@.update(p.col(), v));
            lemma_count_occupied_update(b.grid@[n - 1]@, p.col(), v);
        } else {
            assert(w.grid@[n - 1]@ =~= b.grid@[n - 1]@);
        }
    }
}

/// Whether two boards agree at flat index `m`.
pub open spec fn same_at(old: Board, new: Board, m: int) -> bool {
    old.at(m / 9, m % 9) == new.at(m / 9, m % 9)
}

/// A diff entry for flat index `k`.
pub open spec fn entry_at(old: Board, new: Board, k: int) -> DiffEntry {
    (pos_of_index(k), old.at(k / 9, k % 9), new.at(k / 9, k % 9))
}

proof fn lemma_diff_entries_two(old: Board, new: Board, i: int, j: int, k: int)
    requires
        0 <= i < j < 90,
        0 <= k <= 90,
        old.at(i / 9, i % 9) != new.at(i / 9, i % 9),
        old.at(j / 9, j % 9) != new.at(j / 9, j % 9),
        forall|m: int| 0 <= m < 90 && m != i && m != j ==> #[trigger] same_at(old, new, m),
    ensures
        diff_entries(old, new, k) == (if k <= i { seq![entry_at(old, new, i)] } else { Seq::<DiffEntry>::empty() })
            + (if k <= j { seq![entry_at(old, new, j)] } else { Seq::<DiffEntry>::empty() }),
    decreases 90 - k,
{
    if k < 90 {
        lemma_diff_entries_two(old, new, i, j, k + 1);
        let rest = diff_entries(old, new, k + 1);
        if k != i && k != j {
            assert(same_at(old, new, k));
        }
        if k == i || k == j {
            assert(diff_entries(old, new, k) =~= seq![entry_at(old, new, k)] + rest);
        } else {
            assert(diff_entries(old, new, k) =~= rest);
        }
        assert(diff_entries(old, new, k) =~= (if k <= i { seq![entry_at(old, new, i)] } else { Seq::<DiffEntry>::empty() })
            + (if k <= j { seq![entry_at(old, new, j)] } else { Seq::<DiffEntry>::empty() }));
    } else {
        assert(diff_entries(old, new, k) =~= Seq::<DiffEntry>::empty());
        assert((if k <= i { seq![entry_at(old, new, i)] } else { Seq::<DiffEntry>::empty() })
            + (if k <= j { seq![entry_at(old, new, j)] } else { Seq::<DiffEntry>::empty() }) =~= Seq::<DiffEntry>::empty());
    }
}

proof fn lemma_diff_entries_same(b: Board, k: int)
    requires
        0 <= k <= 90,
    ensures
        diff_entries(b, b, k) =~= Seq::<DiffEntry>::empty(),
    decreases 90 - k,
{
    if k < 90 {
        lemma_diff_entries_same(b, k + 1);
    }
}

/// Comparing a board with itself reports no change at all.
pub proof fn lemma_diff_of_same_board(b: Board)
    ensures
        spec_diff_kind(b, b) == BoardDiffKind::NoChange,
        spec_changed(b, b).len() == 0,
        spec_candidate(b, b).is_none(),
        spec_delta(b, b) == 0,
{
    lemma_diff_entries_same(b, 0);
}

/// Diffing a board against the board after one move (of a piece that does not
/// land on an identical piece) yields that very move as the candidate: the
/// moved piece, what it captured, and one piece fewer exactly when it captured.
pub proof fn lemma_diff_finds_played_move(b: Board, mv: Move)
    requires
        mv.from.spec_in_bounds(),
        mv.to.spec_in_bounds(),
        mv.from != mv.to,
        b.cell(mv.from).is_some(),
        b.cell(mv.to) != b.cell(mv.from),
    ensures
        spec_diff_kind(b, b.after_move(mv)) == BoardDiffKind::MoveCandidate,
        spec_candidate(b, b.after_move(mv)) == Some(DiffedMove {
            mv,
            moved: b.cell(mv.from).unwrap(),
            captured: b.cell(mv.to),
        }),
        spec_delta(b, b.after_move(mv)) == if b.cell(mv.to).is_some() { -1int } else { 0int },
        spec_changed(b, b.after_move(mv)).len() == 2,
{
    let a = b.after_move(mv);
    let p = b.cell(mv.from);
    let mid = b.with_cell(mv.to, p);
    let fi = index_of(mv.from);
    let ti = index_of(mv.to);
    lemma_index_of(mv.from);
    lemma_index_of(mv.to);
    assert(fi != ti) by {
        if fi == ti {
            assert(mv.from.row() == mv.to.row() && mv.from.col() == mv.to.col());
        }
    }
    assert forall|r: int, c: int| 0 <= r < 10 && 0 <= c < 9 implies a.at(r, c) == if r == mv.from.row()
        && c == mv.from.col() {
        None
    } else if r == mv.to.row() && c == mv.to.col() {
        p
    } else {
        b.at(r, c)
    } by {
        lemma_with_cell_at(b, mv.to, p, r, c);
        lemma_with_cell_at(mid, mv.from, None, r, c);
    }
    assert forall|m: int| 0 <= m < 90 && m != fi && m != ti implies #[trigger] same_at(b, a, m) by {
        assert(0 <= m / 9 < 10 && 0 <= m % 9 < 9);
        if m / 9 == mv.from.row() && m % 9 == mv.from.col() {
            assert(m == (m / 9) * 9 + m % 9);
        }
        if m / 9 == mv.to.row() && m % 9 == mv.to.col() {
            assert(m == (m / 9) * 9 + m % 9);
        }
    }
    let (i, j) = if fi < ti { (fi, ti) } else { (ti, fi) };
    lemma_diff_entries_two(b, a, i, j, 0);
    let d = diff_entries(b, a, 0);
    assert(d =~= seq![entry_at(b, a, i), entry_at(b, a, j)]);
    let ef = entry_at(b, a, fi);
    let et = entry_at(b, a, ti);
    assert(ef == (mv.from, p, None::<Piece>));
    assert(et == (mv.to, b.cell(mv.to), p));
    lemma_count_rows_with_cell(b, mv.to, p, 10);
    lemma_count_rows_with_cell(mid, mv.from, None, 10);
    assert(a.grid == mid.with_cell(mv.from, None).grid);
    assert(count_rows(a, 10) == count_rows(mid.with_cell(mv.from, None), 10)) by {
        lemma_count_rows_same_grid(a, mid.with_cell(mv.from, None), 10);
    }
    assert(mid.cell(mv.from) == p) by {
        lemma_with_cell_at(b, mv.to, p, mv.from.row(), mv.from.col());
    }
}

proof fn lemma_count_rows_same_grid(x: Board, y: Board, n: int)
    requires
        x.grid == y.grid,
    ensures
        count_rows(x, n) == count_rows(y, n),
    decreases n,
{
    if n > 0 {
        lemma_count_rows_same_grid(x, y, n - 1);
    }
}

proof fn lemma_diff_entries_in_bounds(old: Board, new: Board, k: int)
    requires
        0 <= k <= 90,
    ensures
        forall|i: int| 0 <= i < diff_entries(old, new, k).len() ==> (#[trigger] diff_entries(old, new, k)[i]).0.spec_in_bounds(),
    decreases 90 - k,
{
    if k < 90 {
        lemma_diff_entries_in_bounds(old, new, k + 1);
        let rest = diff_entries(old, new, k + 1);
        let d = diff_entries(old, new, k);
        assert(0 <= k % 9 < 9 && 0 <= k / 9 < 10);
        assert forall|i: int| 0 <= i < d.len() implies (#[trigger] d[i]).0.spec_in_bounds() by {
            if old.at(k / 9, k % 9) != new.at(k / 9, k % 9) {
                if i > 0 {
                    assert(d[i] == rest[i - 1]);
                }
            } else {
                assert(d[i] == rest[i]);
            }
        }
    }
}

/// The squares of a candidate move lie on the board.
pub proof fn lemma_candidate_in_bounds(old: Board, new: Board)
    ensures
        spec_candidate(old, new) matches Some(c) ==> c.mv.from.spec_in_bounds() && c.mv.to.spec_in_bounds(),
{
    lemma_diff_entries_in_bounds(old, new, 0);
    let d = diff_entries(old, new, 0);
    if d.len() == 2 {
        assert(d[0].0.spec_in_bounds());
        assert(d[1].0.spec_in_bounds());
    }
}

/// When the diff reports no change, the two grids agree on every square.
pub proof fn lemma_no_change_same_grid(old: Board, new: Board)
    requires
        spec_diff_kind(old, new) == BoardDiffKind::NoChange,
    ensures
        old.grid == new.grid,
{
    lemma_no_change_same_from(old, new, 0);
    assert forall|r: int| 0 <= r < 10 implies old.grid@[r] == new.grid@[r] by {
        assert forall|c: int| 0 <= c < 9 implies old.grid@[r]@[c] == new.grid@[r]@[c] by {
            let m = r * 9 + c;
            assert(m / 9 == r && m % 9 == c) by (nonlinear_arith)
                requires m == r * 9 + c, 0 <= c < 9, 0 <= r;
            assert(same_at(old, new, m));
        }
        assert(old.grid@[r]@ =~= new.grid@[r]@);
    }
    assert(old.grid@ =~= new.grid@);
}

proof fn lemma_no_change_same_from(old: Board, new: Board, k: int)
    requires
        0 <= k <= 90,
        spec_diff_kind(old, new) == BoardDiffKind::NoChange,
        diff_entries(old, new, k).len() == 0,
    ensures
        forall|m: int| k <= m < 90 ==> #[trigger] same_at(old, new, m),
    decreases 90 - k,
{
    if k < 90 {
        if old.at(k / 9, k % 9) != new.at(k / 9, k % 9) {
            assert(diff_entries(old, new, k).len() >= 1);
        }
        lemma_no_change_same_from(old, new, k + 1);
    }
}

} // verus!
