//! Move legality: how each piece moves, whose turn it is, and the rule that the
//! two kings may not face each other on an open file. Repetition and other
//! adjudication rules are not covered.
use vstd::prelude::*;
use crate::text::push_str;
use crate::types::{Board, Move, MoveOutcome, Piece, PieceKind, Pos, Side};

verus! {

broadcast use vstd::array::group_array_axioms;

/// Result of a legality check.
#[derive(Debug, Clone, Copy, PartialEq, Eq, Structural)]
pub enum MoveLegality {
    Legal,
    Illegal(LegalMoveError),
}

/// Why a move is illegal.
#[derive(Debug, Clone, Copy, PartialEq, Eq, Structural)]
pub enum LegalMoveError {
    /// A square lies off the board.
    OutOfBounds,
    /// No piece stands on the origin.
    NoPieceAtFrom,
    /// The piece on the origin does not belong to the side to move.
    WrongSideToMove { expected: Side, found: Side },
    /// The target holds a piece of the mover's own side.
    FriendlyFire,
    /// The piece cannot move that way.
    InvalidPieceRule(PieceKind),
    /// After the move the two kings would face each other.
    KingsFaceEachOther,
}

/// Name of a side as shown in messages.
pub open spec fn side_name(s: Side) -> Seq<char> {
    match s {
        Side::Red => "Red"@,
        Side::Black => "Black"@,
    }
}

fn side_name_str(s: Side) -> (t: &'static str)
    ensures
        t@ == side_name(s),
{
    match s {
        Side::Red => "Red",
        Side::Black => "Black",
    }
}

/// Name of a piece kind as shown in messages.
pub open spec fn kind_name(k: PieceKind) -> Seq<char> {
    match k {
        PieceKind::King => "King"@,
        PieceKind::Advisor => "Advisor"@,
        PieceKind::Elephant => "Elephant"@,
        PieceKind::Horse => "Horse"@,
        PieceKind::Rook => "Rook"@,
        PieceKind::Cannon => "Cannon"@,
        PieceKind::Pawn => "Pawn"@,
    }
}

fn kind_name_str(k: PieceKind) -> (t: &'static str)
    ensures
        t@ == kind_name(k),
{
    match k {
        PieceKind::King => "King",
        PieceKind::Advisor => "Advisor",
        PieceKind::Elephant => "Elephant",
        PieceKind::Horse => "Horse",
        PieceKind::Rook => "Rook",
        PieceKind::Cannon => "Cannon",
        PieceKind::Pawn => "Pawn",
    }
}

impl LegalMoveError {
    /// The message shown to the user.
    pub open spec fn spec_message(self) -> Seq<char> {
        match self {
            LegalMoveError::OutOfBounds => "坐标超出棋盘范围"@,
            LegalMoveError::NoPieceAtFrom => "起点没有棋子"@,
            LegalMoveError::WrongSideToMove { expected, found } => "行棋方不匹配：期望 "@ + side_name(
                expected,
            ) + "，实际 "@ + side_name(found),
            LegalMoveError::FriendlyFire => "目标位置有己方棋子"@,
            LegalMoveError::InvalidPieceRule(k) => "不符合该棋子的移动规则："@ + kind_name(k),
            LegalMoveError::KingsFaceEachOther => "走子后将帅照面"@,
        }
    }

    /// The message shown to the user.
    pub fn message(&self) -> (s: String)
        ensures
            s@ == self.spec_message(),
    {
        let mut s = String::new();
        match *self {
            LegalMoveError::OutOfBounds => push_str(&mut s, "坐标超出棋盘范围"),
            LegalMoveError::NoPieceAtFrom => push_str(&mut s, "起点没有棋子"),
            LegalMoveError::WrongSideToMove { expected, found } => {
                push_str(&mut s, "行棋方不匹配：期望 ");
                push_str(&mut s, side_name_str(expected));
                push_str(&mut s, "，实际 ");
                push_str(&mut s, side_name_str(found));
            },
            LegalMoveError::FriendlyFire => push_str(&mut s, "目标位置有己方棋子"),
            LegalMoveError::InvalidPieceRule(k) => {
                push_str(&mut s, "不符合该棋子的移动规则：");
                push_str(&mut s, kind_name_str(k));
            },
            LegalMoveError::KingsFaceEachOther => push_str(&mut s, "走子后将帅照面"),
        }
        s
    }
}

/// `|a - b|`.
pub open spec fn dist(a: u8, b: u8) -> int {
    if a >= b {
        a - b
    } else {
        b - a
    }
}

/// Whether `pos` lies in the palace of `side` (files d..f; ranks 0..2 for red, 7..9 for black).
pub open spec fn in_palace(side: Side, pos: Pos) -> bool {
    &&& 3 <= pos.file <= 5
    &&& match side {
        Side::Red => pos.rank <= 2,
        Side::Black => 7 <= pos.rank <= 9,
    }
}

/// Whether `pos` lies beyond the river as seen from `side`.
pub open spec fn beyond_river(side: Side, pos: Pos) -> bool {
    match side {
        Side::Red => pos.rank >= 5,
        Side::Black => pos.rank <= 4,
    }
}

/// Number of occupied squares on `file` with rank in `[lo, hi)`.
pub open spec fn count_on_file(board: Board, file: u8, lo: int, hi: int) -> nat
    decreases hi - lo,
{
    if hi <= lo {
        0
    } else {
        count_on_file(board, file, lo, hi - 1) + if board.cell(
            Pos { file, rank: (hi - 1) as u8 },
        ).is_some() {
            1nat
        } else {
            0nat
        }
    }
}

/// Number of occupied squares on `rank` with file in `[lo, hi)`.
pub open spec fn count_on_rank(board: Board, rank: u8, lo: int, hi: int) -> nat
    decreases hi - lo,
{
    if hi <= lo {
        0
    } else {
        count_on_rank(board, rank, lo, hi - 1) + if board.cell(
            Pos { file: (hi - 1) as u8, rank },
        ).is_some() {
            1nat
        } else {
            0nat
        }
    }
}

/// Number of pieces strictly between two squares on one file or one rank;
/// `None` when the squares share neither.
pub open spec fn pieces_between(board: Board, from: Pos, to: Pos) -> Option<nat> {
    if from.file == to.file {
        let lo = if from.rank <= to.rank { from.rank } else { to.rank };
        let hi = if from.rank <= to.rank { to.rank } else { from.rank };
        Some(count_on_file(board, from.file, lo + 1, hi as int))
    } else if from.rank == to.rank {
        let lo = if from.file <= to.file { from.file } else { to.file };
        let hi = if from.file <= to.file { to.file } else { from.file };
        Some(count_on_rank(board, from.rank, lo + 1, hi as int))
    } else {
        None
    }
}

pub open spec fn king_moves(side: Side, mv: Move) -> bool {
    &&& dist(mv.from.file, mv.to.file) + dist(mv.from.rank, mv.to.rank) == 1
    &&& in_palace(side, mv.to)
}

pub open spec fn advisor_moves(side: Side, mv: Move) -> bool {
    &&& dist(mv.from.file, mv.to.file) == 1
    &&& dist(mv.from.rank, mv.to.rank) == 1
    &&& in_palace(side, mv.to)
}

pub open spec fn elephant_moves(board: Board, side: Side, mv: Move) -> bool {
    &&& dist(mv.from.file, mv.to.file) == 2
    &&& dist(mv.from.rank, mv.to.rank) == 2
    &&& !beyond_river(side, mv.to)
    &&& board.cell(
        Pos {
            file: ((mv.from.file + mv.to.file) / 2) as u8,
            rank: ((mv.from.rank + mv.to.rank) / 2) as u8,
        },
    ).is_none()
}

/// The square that blocks a horse's move (the "leg"), if the move has a horse's shape.
pub open spec fn horse_leg(mv: Move) -> Option<Pos> {
    let df = mv.to.file - mv.from.file;
    let dr = mv.to.rank - mv.from.rank;
    if dist(mv.from.file, mv.to.file) == 2 && dist(mv.from.rank, mv.to.rank) == 1 {
        Some(Pos { file: (mv.from.file + df / 2) as u8, rank: mv.from.rank })
    } else if dist(mv.from.file, mv.to.file) == 1 && dist(mv.from.rank, mv.to.rank) == 2 {
        Some(Pos { file: mv.from.file, rank: (mv.from.rank + dr / 2) as u8 })
    } else {
        None
    }
}

pub open spec fn horse_moves(board: Board, mv: Move) -> bool {
    match horse_leg(mv) {
        Some(leg) => board.cell(leg).is_none(),
        None => false,
    }
}

pub open spec fn rook_moves(board: Board, mv: Move) -> bool {
    pieces_between(board, mv.from, mv.to) == Some(0nat)
}

pub open spec fn cannon_moves(board: Board, mv: Move) -> bool {
    match pieces_between(board, mv.from, mv.to) {
        None => false,
        Some(n) => if board.cell(mv.to).is_none() {
            n == 0
        } else {
            n == 1
        },
    }
}

pub open spec fn pawn_moves(side: Side, mv: Move) -> bool {
    let df = mv.to.file - mv.from.file;
    let dr = mv.to.rank - mv.from.rank;
    let forward = match side {
        Side::Red => 1int,
        Side::Black => -1int,
    };
    ||| df == 0 && dr == forward
    ||| beyond_river(side, mv.from) && dr == 0 && (df == 1 || df == -1)
}

/// Whether the piece's own movement rule allows the move.
pub open spec fn piece_moves(board: Board, piece: Piece, mv: Move) -> bool {
    match piece.kind {
        PieceKind::King => king_moves(piece.side, mv),
        PieceKind::Advisor => advisor_moves(piece.side, mv),
        PieceKind::Elephant => elephant_moves(board, piece.side, mv),
        PieceKind::Horse => horse_moves(board, mv),
        PieceKind::Rook => rook_moves(board, mv),
        PieceKind::Cannon => cannon_moves(board, mv),
        PieceKind::Pawn => pawn_moves(piece.side, mv),
    }
}

/// Whether the two kings (the first of each side in row-major order) stand on
/// one file with nothing between them.
pub open spec fn kings_facing(board: Board) -> bool {
    match (board.spec_find_king(Side::Red), board.spec_find_king(Side::Black)) {
        (Some(red), Some(black)) => {
            &&& red.file == black.file
            &&& pieces_between(board, red, black) == Some(0nat)
        },
        _ => false,
    }
}

/// The verdict on a move, checks in order: bounds, origin occupied, turn,
/// own piece on target, movement rule, facing kings afterwards.
pub open spec fn spec_validate(board: Board, mv: Move) -> Result<(), LegalMoveError> {
    if !mv.from.spec_in_bounds() || !mv.to.spec_in_bounds() {
        Err(LegalMoveError::OutOfBounds)
    } else if board.cell(mv.from).is_none() {
        Err(LegalMoveError::NoPieceAtFrom)
    } else {
        let piece = board.cell(mv.from).unwrap();
        if piece.side != board.side_to_move {
            Err(LegalMoveError::WrongSideToMove { expected: board.side_to_move, found: piece.side })
        } else if board.cell(mv.to).is_some() && board.cell(mv.to).unwrap().side == piece.side {
            Err(LegalMoveError::FriendlyFire)
        } else if !piece_moves(board, piece, mv) {
            Err(LegalMoveError::InvalidPieceRule(piece.kind))
        } else if kings_facing(board.after_move(mv)) {
            Err(LegalMoveError::KingsFaceEachOther)
        } else {
            Ok(())
        }
    }
}

pub open spec fn spec_legality(board: Board, mv: Move) -> MoveLegality {
    match spec_validate(board, mv) {
        Ok(()) => MoveLegality::Legal,
        Err(e) => MoveLegality::Illegal(e),
    }
}

/// Checks a move against the rules for `board`.
pub fn check_move_legality(board: &Board, mv: Move) -> (r: MoveLegality)
    ensures
        r == spec_legality(*board, mv),
{
    match validate_move(board, mv) {
        Ok(()) => MoveLegality::Legal,
        Err(err) => MoveLegality::Illegal(err),
    }
}

impl Board {
    /// Plays the move if it is legal; otherwise leaves the board unchanged and reports why.
    pub fn apply_move_if_legal(&mut self, mv: Move) -> (r: Result<MoveOutcome, LegalMoveError>)
        ensures
            match spec_validate(*old(self), mv) {
                Err(e) => r == Err::<MoveOutcome, LegalMoveError>(e) && *final(self) == *old(self),
                Ok(()) => {
                    &&& *final(self) == old(self).after_move(mv)
                    &&& r == Ok::<MoveOutcome, LegalMoveError>(MoveOutcome {
                        mv,
                        moved: old(self).cell(mv.from).unwrap(),
                        captured: old(self).cell(mv.to),
                        next_side_to_move: old(self).side_to_move.spec_opposite(),
                    })
                },
            },
    {
        validate_move(self, mv)?;
        match self.apply_move_unchecked(mv) {
            Some(outcome) => Ok(outcome),
            None => Err(LegalMoveError::NoPieceAtFrom),
        }
    }
}

fn validate_move(board: &Board, mv: Move) -> (r: Result<(), LegalMoveError>)
    ensures
        r == spec_validate(*board, mv),
{
    if !mv.from.is_in_bounds() || !mv.to.is_in_bounds() {
        return Err(LegalMoveError::OutOfBounds);
    }
    let moving_piece = match board.get(mv.from) {
        Some(p) => p,
        None => return Err(LegalMoveError::NoPieceAtFrom),
    };
    if moving_piece.side != board.side_to_move {
        return Err(
            LegalMoveError::WrongSideToMove {
                expected: board.side_to_move,
                found: moving_piece.side,
            },
        );
    }
    if let Some(target_piece) = board.get(mv.to) {
        if target_piece.side == moving_piece.side {
            return Err(LegalMoveError::FriendlyFire);
        }
    }
    if !piece_rule_allows(board, moving_piece, mv) {
        return Err(LegalMoveError::InvalidPieceRule(moving_piece.kind));
    }
    if kings_face_after_move(board, mv) {
        return Err(LegalMoveError::KingsFaceEachOther);
    }
    Ok(())
}

fn piece_rule_allows(board: &Board, piece: Piece, mv: Move) -> (r: bool)
    requires
        mv.from.spec_in_bounds(),
        mv.to.spec_in_bounds(),
    ensures
        r == piece_moves(*board, piece, mv),
{
    match piece.kind {
        PieceKind::King => king_rule(piece.side, mv),
        PieceKind::Advisor => advisor_rule(piece.side, mv),
        PieceKind::Elephant => elephant_rule(board, piece.side, mv),
        PieceKind::Horse => horse_rule(board, mv),
        PieceKind::Rook => rook_rule(board, mv),
        PieceKind::Cannon => cannon_rule(board, mv),
        PieceKind::Pawn => pawn_rule(piece.side, mv),
    }
}

fn abs_diff(a: u8, b: u8) -> (d: u8)
    ensures
        d as int == dist(a, b),
{
    if a >= b {
        a - b
    } else {
        b - a
    }
}

fn in_palace_exec(side: Side, pos: Pos) -> (r: bool)
    ensures
        r == in_palace(side, pos),
{
    let file_ok = 3 <= pos.file && pos.file <= 5;
    let rank_ok = match side {
        Side::Red => pos.rank <= 2,
        Side::Black => 7 <= pos.rank && pos.rank <= 9,
    };
    file_ok && rank_ok
}

fn beyond_river_exec(side: Side, pos: Pos) -> (r: bool)
    ensures
        r == beyond_river(side, pos),
{
    match side {
        Side::Red => pos.rank >= 5,
        Side::Black => pos.rank <= 4,
    }
}

fn king_rule(side: Side, mv: Move) -> (r: bool)
    ensures
        r == king_moves(side, mv),
{
    let df = abs_diff(mv.from.file, mv.to.file);
    let dr = abs_diff(mv.from.rank, mv.to.rank);
    let is_one_step_ortho = (df == 1 && dr == 0) || (df == 0 && dr == 1);
    is_one_step_ortho && in_palace_exec(side, mv.to)
}

fn advisor_rule(side: Side, mv: Move) -> (r: bool)
    ensures
        r == advisor_moves(side, mv),
{
    let df = abs_diff(mv.from.file, mv.to.file);
    let dr = abs_diff(mv.from.rank, mv.to.rank);
    df == 1 && dr == 1 && in_palace_exec(side, mv.to)
}

fn elephant_rule(board: &Board, side: Side, mv: Move) -> (r: bool)
    requires
        mv.from.spec_in_bounds(),
        mv.to.spec_in_bounds(),
    ensures
        r == elephant_moves(*board, side, mv),
{
    let df = abs_diff(mv.from.file, mv.to.file);
    let dr = abs_diff(mv.from.rank, mv.to.rank);
    if !(df == 2 && dr == 2) {
        return false;
    }
    if beyond_river_exec(side, mv.to) {
        return false;
    }
    let eye_file = ((mv.from.file as u16 + mv.to.file as u16) / 2) as u8;
    let eye_rank = ((mv.from.rank as u16 + mv.to.rank as u16) / 2) as u8;
    let eye = match Pos::new(eye_file, eye_rank) {
        Some(p) => p,
        None => return false,
    };
    board.get(eye).is_none()
}

fn horse_rule(board: &Board, mv: Move) -> (r: bool)
    requires
        mv.from.spec_in_bounds(),
        mv.to.spec_in_bounds(),
    ensures
        r == horse_moves(*board, mv),
{
    let df = mv.to.file as i16 - mv.from.file as i16;
    let dr = mv.to.rank as i16 - mv.from.rank as i16;
    let adf = if df < 0 { -df } else { df };
    let adr = if dr < 0 { -dr } else { dr };
    let sf: i16 = if df > 0 { 1 } else if df < 0 { -1 } else { 0 };
    let sr: i16 = if dr > 0 { 1 } else if dr < 0 { -1 } else { 0 };
    let (leg_file, leg_rank) = if adf == 2 && adr == 1 {
        (mv.from.file as i16 + sf, mv.from.rank as i16)
    } else if adf == 1 && adr == 2 {
        (mv.from.file as i16, mv.from.rank as i16 + sr)
    } else {
        return false;
    };
    if !(0 <= leg_file && leg_file < 9 && 0 <= leg_rank && leg_rank < 10) {
        return false;
    }
    let leg = Pos { file: leg_file as u8, rank: leg_rank as u8 };
    board.get(leg).is_none()
}

fn rook_rule(board: &Board, mv: Move) -> (r: bool)
    requires
        mv.from.spec_in_bounds(),
        mv.to.spec_in_bounds(),
    ensures
        r == rook_moves(*board, mv),
{
    match count_between_straight(board, mv.from, mv.to) {
        Some(count) => count == 0,
        None => false,
    }
}

fn cannon_rule(board: &Board, mv: Move) -> (r: bool)
    requires
        mv.from.spec_in_bounds(),
        mv.to.spec_in_bounds(),
    ensures
        r == cannon_moves(*board, mv),
{
    let count = match count_between_straight(board, mv.from, mv.to) {
        Some(c) => c,
        None => return false,
    };
    match board.get(mv.to) {
        None => count == 0,
        Some(_) => count == 1,
    }
}

fn pawn_rule(side: Side, mv: Move) -> (r: bool)
    ensures
        r == pawn_moves(side, mv),
{
    let df = mv.to.file as i16 - mv.from.file as i16;
    let dr = mv.to.rank as i16 - mv.from.rank as i16;
    if (side == Side::Red && dr < 0) || (side == Side::Black && dr > 0) {
        return false;
    }
    let forward_step: i16 = match side {
        Side::Red => 1,
        Side::Black => -1,
    };
    if df == 0 && dr == forward_step {
        return true;
    }
    if beyond_river_exec(side, mv.from) && dr == 0 && (df == 1 || df == -1) {
        return true;
    }
    false
}

fn kings_face_after_move(board: &Board, mv: Move) -> (r: bool)
    requires
        mv.from.spec_in_bounds(),
        mv.to.spec_in_bounds(),
        board.cell(mv.from).is_some(),
    ensures
        r == kings_facing(board.after_move(mv)),
{
    match board.clone_with_move_unchecked(mv) {
        Some(next) => kings_face_each_other(&next),
        None => false,
    }
}

fn kings_face_each_other(board: &Board) -> (r: bool)
    ensures
        r == kings_facing(*board),
{
    let red_king = match board.find_king(Side::Red) {
        Some(p) => p,
        None => return false,
    };
    let black_king = match board.find_king(Side::Black) {
        Some(p) => p,
        None => return false,
    };
    proof {
        lemma_king_search_in_bounds(*board, Side::Red, 0);
        lemma_king_search_in_bounds(*board, Side::Black, 0);
    }
    if red_king.file != black_king.file {
        return false;
    }
    match count_between_straight(board, red_king, black_king) {
        Some(count) => count == 0,
        None => false,
    }
}

proof fn lemma_king_search_in_bounds(board: Board, side: Side, k: int)
    requires
        0 <= k,
    ensures
        crate::types::king_search(board, side, k) matches Some(p) ==> p.spec_in_bounds(),
    decreases 90 - k,
{
    if k < 90 {
        lemma_king_search_in_bounds(board, side, k + 1);
    }
}

fn count_between_straight(board: &Board, from: Pos, to: Pos) -> (r: Option<usize>)
    requires
        from.spec_in_bounds(),
        to.spec_in_bounds(),
    ensures
        match r {
            None => pieces_between(*board, from, to).is_none(),
            Some(n) => pieces_between(*board, from, to) == Some(n as nat),
        },
{
    if from.file == to.file {
        let file = from.file;
        let start = if from.rank <= to.rank { from.rank } else { to.rank } + 1;
        let end = if from.rank <= to.rank { to.rank } else { from.rank };
        let mut count: usize = 0;
        let mut rank = start;
        while rank < end
            invariant
                start <= 10,
                end < 10,
                start <= rank || end <= rank,
                file < 9,
                rank <= end || rank == start,
                count as nat == count_on_file(*board, file, start as int, rank as int),
                count <= rank,
            decreases end - rank,
        {
            if board.get(Pos { file, rank }).is_some() {
                count += 1;
            }
            rank += 1;
        }
        return Some(count);
    }
    if from.rank == to.rank {
        let rank = from.rank;
        let start = if from.file <= to.file { from.file } else { to.file } + 1;
        let end = if from.file <= to.file { to.file } else { from.file };
        let mut count: usize = 0;
        let mut file = start;
        while file < end
            invariant
                start <= 9,
                end < 9,
                start <= file || end <= file,
                rank < 10,
                file <= end || file == start,
                count as nat == count_on_rank(*board, rank, start as int, file as int),
                count <= file,
            decreases end - file,
        {
            if board.get(Pos { file, rank }).is_some() {
                count += 1;
            }
            file += 1;
        }
        return Some(count);
    }
    None
}

/// A legal move starts from a piece of the side to move, lands on a square
/// that holds no piece of that side (so it really moves), and does not leave
/// the two kings facing each other.
pub proof fn lemma_legal_move_shape(board: Board, mv: Move)
    requires
        spec_legality(board, mv) == MoveLegality::Legal,
    ensures
        mv.from.spec_in_bounds(),
        mv.to.spec_in_bounds(),
        board.cell(mv.from) matches Some(p) && p.side == board.side_to_move,
        board.cell(mv.to) matches Some(q) ==> q.side != board.side_to_move,
        mv.from != mv.to,
        !kings_facing(board.after_move(mv)),
        piece_moves(board, board.cell(mv.from).unwrap(), mv),
{
}

/// A horse of the side to move, going one file and two ranks, is blocked
/// exactly when the square beside it on its own file, one rank toward the
/// target, is occupied; going two files and one rank, exactly when the
/// square beside it on its own rank, one file toward the target, is
/// occupied. Any other step is refused by the horse's rule. When not
/// blocked the move is legal unless it leaves the kings facing.
pub proof fn lemma_horse_leg_blocks(board: Board, mv: Move)
    requires
        mv.from.spec_in_bounds(),
        mv.to.spec_in_bounds(),
        board.cell(mv.from) matches Some(p) && p.kind == PieceKind::Horse && p.side == board.side_to_move,
        !(board.cell(mv.to) matches Some(q) && q.side == board.side_to_move),
    ensures
        ({
            let unblocked = if kings_facing(board.after_move(mv)) {
                MoveLegality::Illegal(LegalMoveError::KingsFaceEachOther)
            } else {
                MoveLegality::Legal
            };
            let blocked = MoveLegality::Illegal(LegalMoveError::InvalidPieceRule(PieceKind::Horse));
            let rank_leg = Pos {
                file: mv.from.file,
                rank: if mv.to.rank > mv.from.rank {
                    (mv.from.rank + 1) as u8
                } else {
                    (mv.from.rank - 1) as u8
                },
            };
            let file_leg = Pos {
                rank: mv.from.rank,
                file: if mv.to.file > mv.from.file {
                    (mv.from.file + 1) as u8
                } else {
                    (mv.from.file - 1) as u8
                },
            };
            &&& dist(mv.from.file, mv.to.file) == 1 && dist(mv.from.rank, mv.to.rank) == 2
                ==> spec_legality(board, mv) == if board.cell(rank_leg) is Some {
                blocked
            } else {
                unblocked
            }
            &&& dist(mv.from.file, mv.to.file) == 2 && dist(mv.from.rank, mv.to.rank) == 1
                ==> spec_legality(board, mv) == if board.cell(file_leg) is Some {
                blocked
            } else {
                unblocked
            }
            &&& !(dist(mv.from.file, mv.to.file) == 1 && dist(mv.from.rank, mv.to.rank) == 2)
                && !(dist(mv.from.file, mv.to.file) == 2 && dist(mv.from.rank, mv.to.rank) == 1)
                ==> spec_legality(board, mv) == blocked
        }),
{
}

/// Whether the square on `file` at `rank` holds a piece.
#[verifier::opaque]
pub open spec fn occupied_on_file(board: Board, file: u8, rank: int) -> bool {
    board.cell(Pos { file, rank: rank as u8 }) is Some
}

/// Whether the square on `rank` at `file` holds a piece.
#[verifier::opaque]
pub open spec fn occupied_on_rank(board: Board, rank: u8, file: int) -> bool {
    board.cell(Pos { file: file as u8, rank }) is Some
}

proof fn lemma_count_on_file_step(board: Board, file: u8, lo: int, hi: int)
    requires
        lo < hi,
    ensures
        count_on_file(board, file, lo, hi) == count_on_file(board, file, lo, hi - 1) + if occupied_on_file(
            board,
            file,
            hi - 1,
        ) {
            1nat
        } else {
            0nat
        },
{
    reveal(occupied_on_file);
}

proof fn lemma_count_on_rank_step(board: Board, rank: u8, lo: int, hi: int)
    requires
        lo < hi,
    ensures
        count_on_rank(board, rank, lo, hi) == count_on_rank(board, rank, lo, hi - 1) + if occupied_on_rank(
            board,
            rank,
            hi - 1,
        ) {
            1nat
        } else {
            0nat
        },
{
    reveal(occupied_on_rank);
}

#[verifier::rlimit(60)]
proof fn lemma_count_on_file(board: Board, file: u8, lo: int, hi: int)
    ensures
        (count_on_file(board, file, lo, hi) == 0) <==> (forall|r: int|
            lo <= r < hi ==> !#[trigger] occupied_on_file(board, file, r)),
        (count_on_file(board, file, lo, hi) == 1) <==> (exists|r: int|
            lo <= r < hi && #[trigger] occupied_on_file(board, file, r) && forall|q: int|
                lo <= q < hi && q != r ==> !#[trigger] occupied_on_file(board, file, q)),
    decreases hi - lo,
{
    if hi > lo {
        lemma_count_on_file(board, file, lo, hi - 1);
        lemma_count_on_file_step(board, file, lo, hi);
        let last = occupied_on_file(board, file, hi - 1);
        if count_on_file(board, file, lo, hi) == 1 {
            if last {
                assert forall|q: int| lo <= q < hi && q != hi - 1 implies !#[trigger] occupied_on_file(
                    board,
                    file,
                    q,
                ) by {}
            } else {
                let r = choose|r: int|
                    lo <= r < hi - 1 && #[trigger] occupied_on_file(board, file, r) && forall|q: int|
                        lo <= q < hi - 1 && q != r ==> !#[trigger] occupied_on_file(board, file, q);
                assert forall|q: int| lo <= q < hi && q != r implies !#[trigger] occupied_on_file(
                    board,
                    file,
                    q,
                ) by {}
            }
        }
        if exists|r: int|
            lo <= r < hi && #[trigger] occupied_on_file(board, file, r) && forall|q: int|
                lo <= q < hi && q != r ==> !#[trigger] occupied_on_file(board, file, q) {
            let r = choose|r: int|
                lo <= r < hi && #[trigger] occupied_on_file(board, file, r) && forall|q: int|
                    lo <= q < hi && q != r ==> !#[trigger] occupied_on_file(board, file, q);
            if r == hi - 1 {
                assert forall|q: int| lo <= q < hi - 1 implies !#[trigger] occupied_on_file(board, file, q) by {}
            } else {
                assert(!occupied_on_file(board, file, hi - 1));
                assert forall|q: int| lo <= q < hi - 1 && q != r implies !#[trigger] occupied_on_file(
                    board,
                    file,
                    q,
                ) by {}
            }
        }
        if forall|r: int| lo <= r < hi ==> !#[trigger] occupied_on_file(board, file, r) {
            assert(!occupied_on_file(board, file, hi - 1));
        }
    }
}

proof fn lemma_count_on_rank(board: Board, rank: u8, lo: int, hi: int)
    ensures
        (count_on_rank(board, rank, lo, hi) == 0) <==> (forall|c: int|
            lo <= c < hi ==> !#[trigger] occupied_on_rank(board, rank, c)),
        (count_on_rank(board, rank, lo, hi) == 1) <==> (exists|c: int|
            lo <= c < hi && #[trigger] occupied_on_rank(board, rank, c) && forall|q: int|
                lo <= q < hi && q != c ==> !#[trigger] occupied_on_rank(board, rank, q)),
    decreases hi - lo,
{
    if hi > lo {
        lemma_count_on_rank(board, rank, lo, hi - 1);
        lemma_count_on_rank_step(board, rank, lo, hi);
        let last = occupied_on_rank(board, rank, hi - 1);
        if count_on_rank(board, rank, lo, hi) == 1 {
            if last {
                assert forall|q: int| lo <= q < hi && q != hi - 1 implies !#[trigger] occupied_on_rank(
                    board,
                    rank,
                    q,
                ) by {}
            } else {
                let c = choose|c: int|
                    lo <= c < hi - 1 && #[trigger] occupied_on_rank(board, rank, c) && forall|q: int|
                        lo <= q < hi - 1 && q != c ==> !#[trigger] occupied_on_rank(board, rank, q);
                assert forall|q: int| lo <= q < hi && q != c implies !#[trigger] occupied_on_rank(
                    board,
                    rank,
                    q,
                ) by {}
            }
        }
        if exists|c: int|
            lo <= c < hi && #[trigger] occupied_on_rank(board, rank, c) && forall|q: int|
                lo <= q < hi && q != c ==> !#[trigger] occupied_on_rank(board, rank, q) {
            let c = choose|c: int|
                lo <= c < hi && #[trigger] occupied_on_rank(board, rank, c) && forall|q: int|
                    lo <= q < hi && q != c ==> !#[trigger] occupied_on_rank(board, rank, q);
            if c == hi - 1 {
                assert forall|q: int| lo <= q < hi - 1 implies !#[trigger] occupied_on_rank(board, rank, q) by {}
            } else {
                assert(!occupied_on_rank(board, rank, hi - 1));
                assert forall|q: int| lo <= q < hi - 1 && q != c implies !#[trigger] occupied_on_rank(
                    board,
                    rank,
                    q,
                ) by {}
            }
        }
        if forall|c: int| lo <= c < hi ==> !#[trigger] occupied_on_rank(board, rank, c) {
            assert(!occupied_on_rank(board, rank, hi - 1));
        }
    }
}

/// Whether every square strictly between `from` and `to`, which share a file
/// or a rank, is empty.
pub open spec fn line_clear(board: Board, from: Pos, to: Pos) -> bool {
    if from.file == to.file {
        forall|r: int|
            (from.rank < r < to.rank || to.rank < r < from.rank) ==> !#[trigger] occupied_on_file(
                board,
                from.file,
                r,
            )
    } else {
        forall|c: int|
            (from.file < c < to.file || to.file < c < from.file) ==> !#[trigger] occupied_on_rank(
                board,
                from.rank,
                c,
            )
    }
}

/// Whether exactly one square strictly between `from` and `to`, which share a
/// file or a rank, holds a piece.
pub open spec fn line_has_one_screen(board: Board, from: Pos, to: Pos) -> bool {
    if from.file == to.file {
        exists|r: int|
            (from.rank < r < to.rank || to.rank < r < from.rank) && #[trigger] occupied_on_file(
                board,
                from.file,
                r,
            ) && forall|q: int|
                (from.rank < q < to.rank || to.rank < q < from.rank) && q != r ==> !#[trigger] occupied_on_file(
                    board,
                    from.file,
                    q,
                )
    } else {
        exists|c: int|
            (from.file < c < to.file || to.file < c < from.file) && #[trigger] occupied_on_rank(
                board,
                from.rank,
                c,
            ) && forall|q: int|
                (from.file < q < to.file || to.file < q < from.file) && q != c ==> !#[trigger] occupied_on_rank(
                    board,
                    from.rank,
                    q,
                )
    }
}

/// The empty-line, one-screen facts for the squares strictly between two
/// squares on one file or one rank.
proof fn lemma_pieces_between(board: Board, from: Pos, to: Pos)
    requires
        from.file == to.file || from.rank == to.rank,
    ensures
        (pieces_between(board, from, to) == Some(0nat)) == line_clear(board, from, to),
        (pieces_between(board, from, to) == Some(1nat)) == line_has_one_screen(board, from, to),
{
    if from.file == to.file {
        let lo = if from.rank <= to.rank { from.rank } else { to.rank };
        let hi = if from.rank <= to.rank { to.rank } else { from.rank };
        lemma_count_on_file(board, from.file, lo + 1, hi as int);
    } else {
        let lo = if from.file <= to.file { from.file } else { to.file };
        let hi = if from.file <= to.file { to.file } else { from.file };
        lemma_count_on_rank(board, from.rank, lo + 1, hi as int);
    }
}

/// Rook and cannon of the side to move: a move that leaves both the file and
/// the rank is refused by the piece's rule. Along a file or rank, a rook (or
/// a cannon moving to an empty square) needs every square in between empty;
/// a cannon capturing needs exactly one piece in between. When the rule is
/// met the move is legal unless it leaves the kings facing.
pub proof fn lemma_rook_and_cannon_lines(board: Board, mv: Move)
    requires
        mv.from.spec_in_bounds(),
        mv.to.spec_in_bounds(),
        board.cell(mv.from) matches Some(p) && (p.kind == PieceKind::Rook || p.kind == PieceKind::Cannon)
            && p.side == board.side_to_move,
        !(board.cell(mv.to) matches Some(q) && q.side == board.side_to_move),
    ensures
        ({
            let kind = board.cell(mv.from).unwrap().kind;
            let unblocked = if kings_facing(board.after_move(mv)) {
                MoveLegality::Illegal(LegalMoveError::KingsFaceEachOther)
            } else {
                MoveLegality::Legal
            };
            let blocked = MoveLegality::Illegal(LegalMoveError::InvalidPieceRule(kind));
            let on_line = mv.from.file == mv.to.file || mv.from.rank == mv.to.rank;
            &&& !on_line ==> spec_legality(board, mv) == blocked
            &&& on_line && (kind == PieceKind::Rook || board.cell(mv.to) is None) ==> spec_legality(
                board,
                mv,
            ) == if line_clear(board, mv.from, mv.to) {
                unblocked
            } else {
                blocked
            }
            &&& on_line && kind == PieceKind::Cannon && board.cell(mv.to) is Some ==> spec_legality(
                board,
                mv,
            ) == if line_has_one_screen(board, mv.from, mv.to) {
                unblocked
            } else {
                blocked
            }
        }),
{
    if mv.from.file == mv.to.file || mv.from.rank == mv.to.rank {
        lemma_pieces_between(board, mv.from, mv.to);
    }
}

/// An elephant of the side to move goes exactly two files and two ranks,
/// never across the river, and is blocked exactly when the square diagonally
/// next to it toward the target (its "eye") is occupied. When the rule is met
/// the move is legal unless it leaves the kings facing.
pub proof fn lemma_elephant_eye(board: Board, mv: Move)
    requires
        mv.from.spec_in_bounds(),
        mv.to.spec_in_bounds(),
        board.cell(mv.from) matches Some(p) && p.kind == PieceKind::Elephant && p.side
            == board.side_to_move,
        !(board.cell(mv.to) matches Some(q) && q.side == board.side_to_move),
    ensures
        ({
            let side = board.side_to_move;
            let unblocked = if kings_facing(board.after_move(mv)) {
                MoveLegality::Illegal(LegalMoveError::KingsFaceEachOther)
            } else {
                MoveLegality::Legal
            };
            let blocked = MoveLegality::Illegal(LegalMoveError::InvalidPieceRule(PieceKind::Elephant));
            let eye = Pos {
                file: if mv.to.file > mv.from.file {
                    (mv.from.file + 1) as u8
                } else {
                    (mv.from.file - 1) as u8
                },
                rank: if mv.to.rank > mv.from.rank {
                    (mv.from.rank + 1) as u8
                } else {
                    (mv.from.rank - 1) as u8
                },
            };
            let stays_home = match side {
                Side::Red => mv.to.rank <= 4,
                Side::Black => mv.to.rank >= 5,
            };
            spec_legality(board, mv) == if dist(mv.from.file, mv.to.file) == 2 && dist(
                mv.from.rank,
                mv.to.rank,
            ) == 2 && stays_home && board.cell(eye) is None {
                unblocked
            } else {
                blocked
            }
        }),
{
}

/// King, advisor and pawn of the side to move, stated on files and ranks
/// (files 0..8 from a, ranks 0..9 from Red's side): the king takes one
/// orthogonal step and the advisor one diagonal step, both staying in their
/// palace (files 3 to 5, ranks 0 to 2 for Red, 7 to 9 for Black); a pawn steps
/// one rank forward (up for Red, down for Black), or one file sideways once
/// it stands across the river (rank 5 or more for Red, 4 or less for Black).
/// When the rule is met the move is legal unless it leaves the kings facing.
pub proof fn lemma_king_advisor_pawn_steps(board: Board, mv: Move)
    requires
        mv.from.spec_in_bounds(),
        mv.to.spec_in_bounds(),
        board.cell(mv.from) matches Some(p) && (p.kind == PieceKind::King || p.kind == PieceKind::Advisor
            || p.kind == PieceKind::Pawn) && p.side == board.side_to_move,
        !(board.cell(mv.to) matches Some(q) && q.side == board.side_to_move),
    ensures
        ({
            let kind = board.cell(mv.from).unwrap().kind;
            let red = board.side_to_move == Side::Red;
            let unblocked = if kings_facing(board.after_move(mv)) {
                MoveLegality::Illegal(LegalMoveError::KingsFaceEachOther)
            } else {
                MoveLegality::Legal
            };
            let blocked = MoveLegality::Illegal(LegalMoveError::InvalidPieceRule(kind));
            let df = mv.to.file - mv.from.file;
            let dr = mv.to.rank - mv.from.rank;
            let to_in_palace = 3 <= mv.to.file <= 5 && if red {
                mv.to.rank <= 2
            } else {
                mv.to.rank >= 7
            };
            let rule = if kind == PieceKind::King {
                ((df == 0 && (dr == 1 || dr == -1)) || (dr == 0 && (df == 1 || df == -1))) && to_in_palace
            } else if kind == PieceKind::Advisor {
                (df == 1 || df == -1) && (dr == 1 || dr == -1) && to_in_palace
            } else {
                (df == 0 && dr == (if red { 1int } else { -1int })) || (dr == 0 && (df == 1 || df == -1) && if red {
                    mv.from.rank >= 5
                } else {
                    mv.from.rank <= 4
                })
            };
            spec_legality(board, mv) == if rule {
                unblocked
            } else {
                blocked
            }
        }),
{
}

/// The two kings face each other exactly when they stand on one file with
/// every square between them empty.
pub proof fn lemma_kings_facing_clear_file(board: Board, red: Pos, black: Pos)
    requires
        board.spec_find_king(Side::Red) == Some(red),
        board.spec_find_king(Side::Black) == Some(black),
    ensures
        kings_facing(board) == (red.file == black.file && line_clear(board, red, black)),
{
    if red.file == black.file {
        lemma_pieces_between(board, red, black);
    }
}

} // verus!
