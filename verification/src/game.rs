//! Game-level helpers of the assistant: play modes, labels shown to the user,
//! and the list of legal moves used when no engine is available.
use vstd::prelude::*;
use crate::diff::{lemma_with_cell_at, pos_of_index};
use crate::legality::{
    check_move_legality, lemma_legal_move_shape, spec_legality, spec_validate, MoveLegality,
};
use crate::link::sync::ExternalUpdate;
use crate::link::LinkWindowInfo;
use crate::text::{dec, push_dec, push_str};
use crate::types::{Board, BoardCell, GameRecord, Move, MoveOutcome, Piece, PieceKind, Pos, Side};

verus! {

/// Tabs of the side panel.
#[derive(Debug, Clone, Copy, PartialEq, Eq, Structural)]
pub enum SidebarTab {
    Analysis,
    Record,
    Tips,
}

impl SidebarTab {
    pub open spec fn spec_label(self) -> Seq<char> {
        match self {
            SidebarTab::Analysis => "分析"@,
            SidebarTab::Record => "棋谱"@,
            SidebarTab::Tips => "提示"@,
        }
    }

    /// The tab's caption.
    pub fn label(self) -> (s: &'static str)
        ensures
            s@ == self.spec_label(),
    {
        match self {
            SidebarTab::Analysis => "分析",
            SidebarTab::Record => "棋谱",
            SidebarTab::Tips => "提示",
        }
    }
}

/// The modes offered in the mode picker.
#[derive(Debug, Clone, Copy, PartialEq, Eq, Structural)]
pub enum ModeOption {
    LinkAnalysis,
    LinkBattle,
    HumanRed,
    HumanBlack,
    AiVsAi,
}

/// How the game is played.
#[derive(Debug, Clone, Copy, PartialEq, Eq, Structural)]
pub enum Mode {
    /// Follow and analyse a game in another window.
    LinkAnalysis,
    /// Play in another window.
    LinkBattle,
    /// Play against the engine.
    HumanVsAi { human_side: Side },
    /// The engine plays both sides.
    AiVsAi,
}

impl ModeOption {
    pub open spec fn spec_to_mode(self) -> Mode {
        match self {
            ModeOption::LinkAnalysis => Mode::LinkAnalysis,
            ModeOption::LinkBattle => Mode::LinkBattle,
            ModeOption::HumanRed => Mode::HumanVsAi { human_side: Side::Red },
            ModeOption::HumanBlack => Mode::HumanVsAi { human_side: Side::Black },
            ModeOption::AiVsAi => Mode::AiVsAi,
        }
    }

    pub open spec fn spec_from_mode(mode: Mode) -> ModeOption {
        match mode {
            Mode::LinkAnalysis => ModeOption::LinkAnalysis,
            Mode::LinkBattle => ModeOption::LinkBattle,
            Mode::HumanVsAi { human_side: Side::Red } => ModeOption::HumanRed,
            Mode::HumanVsAi { human_side: Side::Black } => ModeOption::HumanBlack,
            Mode::AiVsAi => ModeOption::AiVsAi,
        }
    }

    /// The mode this option selects.
    pub fn to_mode(self) -> (m: Mode)
        ensures
            m == self.spec_to_mode(),
    {
        match self {
            ModeOption::LinkAnalysis => Mode::LinkAnalysis,
            ModeOption::LinkBattle => Mode::LinkBattle,
            ModeOption::HumanRed => Mode::HumanVsAi { human_side: Side::Red },
            ModeOption::HumanBlack => Mode::HumanVsAi { human_side: Side::Black },
            ModeOption::AiVsAi => Mode::AiVsAi,
        }
    }

    /// The option that selects `mode`.
    pub fn from_mode(mode: Mode) -> (o: ModeOption)
        ensures
            o == Self::spec_from_mode(mode),
    {
        match mode {
            Mode::LinkAnalysis => ModeOption::LinkAnalysis,
            Mode::LinkBattle => ModeOption::LinkBattle,
            Mode::HumanVsAi { human_side } => match human_side {
                Side::Red => ModeOption::HumanRed,
                Side::Black => ModeOption::HumanBlack,
            },
            Mode::AiVsAi => ModeOption::AiVsAi,
        }
    }

    pub open spec fn spec_label(self) -> Seq<char> {
        match self {
            ModeOption::LinkAnalysis => "连线分析"@,
            ModeOption::LinkBattle => "连线对战"@,
            ModeOption::HumanRed => "人机对弈（我方红）"@,
            ModeOption::HumanBlack => "人机对弈（我方黑）"@,
            ModeOption::AiVsAi => "AI vs AI"@,
        }
    }

    /// The option's caption in the mode picker.
    pub fn label(self) -> (s: &'static str)
        ensures
            s@ == self.spec_label(),
    {
        match self {
            ModeOption::LinkAnalysis => "连线分析",
            ModeOption::LinkBattle => "连线对战",
            ModeOption::HumanRed => "人机对弈（我方红）",
            ModeOption::HumanBlack => "人机对弈（我方黑）",
            ModeOption::AiVsAi => "AI vs AI",
        }
    }
}

/// Every option of the mode picker, in display order.
pub fn mode_options() -> (v: Vec<ModeOption>)
    ensures
        v@ == seq![
            ModeOption::LinkAnalysis,
            ModeOption::LinkBattle,
            ModeOption::HumanRed,
            ModeOption::HumanBlack,
            ModeOption::AiVsAi,
        ],
{
    vec![
        ModeOption::LinkAnalysis,
        ModeOption::LinkBattle,
        ModeOption::HumanRed,
        ModeOption::HumanBlack,
        ModeOption::AiVsAi,
    ]
}

impl Mode {
    pub open spec fn spec_label(self) -> Seq<char> {
        match self {
            Mode::LinkAnalysis => "连线分析"@,
            Mode::LinkBattle => "连线对战"@,
            Mode::HumanVsAi { .. } => "人机对弈"@,
            Mode::AiVsAi => "AI vs AI"@,
        }
    }

    /// The mode's name (shown in the window title).
    pub fn label(self) -> (s: &'static str)
        ensures
            s@ == self.spec_label(),
    {
        match self {
            Mode::LinkAnalysis => "连线分析",
            Mode::LinkBattle => "连线对战",
            Mode::HumanVsAi { .. } => "人机对弈",
            Mode::AiVsAi => "AI vs AI",
        }
    }

    /// Whether the board may be turned round (not while linked, where the
    /// other window decides the orientation).
    pub fn allows_flip(self) -> (b: bool)
        ensures
            b == self.spec_allows_flip(),
    {
        match self {
            Mode::LinkAnalysis | Mode::LinkBattle => false,
            _ => true,
        }
    }

    /// Whether the user may move a piece when `side_to_move` is to move.
    pub fn allows_manual_move(self, side_to_move: Side) -> (b: bool)
        ensures
            b == spec_allows_manual_move(self, side_to_move),
    {
        match self {
            Mode::LinkAnalysis => false,
            Mode::LinkBattle => true,
            Mode::HumanVsAi { human_side } => human_side == side_to_move,
            Mode::AiVsAi => false,
        }
    }

    pub open spec fn spec_ai_side(self) -> Option<Side> {
        match self {
            Mode::HumanVsAi { human_side } => Some(human_side.spec_opposite()),
            _ => None,
        }
    }

    pub open spec fn spec_allows_flip(self) -> bool {
        !(self is LinkAnalysis || self is LinkBattle)
    }

    /// The side the engine plays against a human, if any.
    pub fn ai_side(self) -> (s: Option<Side>)
        ensures
            s == self.spec_ai_side(),
    {
        match self {
            Mode::HumanVsAi { human_side } => Some(human_side.opposite()),
            _ => None,
        }
    }
}

/// A window offered in the link picker.
#[derive(Debug, Clone, PartialEq, Eq)]
pub struct WindowOption {
    info: LinkWindowInfo,
}

impl View for WindowOption {
    type V = crate::link::LinkWindowView;

    closed spec fn view(&self) -> crate::link::LinkWindowView {
        self.info@
    }
}

impl WindowOption {
    pub closed spec fn spec_info(&self) -> LinkWindowInfo {
        self.info
    }

    pub fn new(info: LinkWindowInfo) -> (w: Self)
        ensures
            w.spec_info() == info,
            w@ == info@,
    {
        WindowOption { info }
    }

    /// A copy of the option.
    pub fn copy(&self) -> (w: Self)
        ensures
            w@ == self@,
    {
        WindowOption { info: self.info.copy() }
    }

    pub fn info(&self) -> (i: &LinkWindowInfo)
        ensures
            *i == self.spec_info(),
    {
        &self.info
    }

    /// The caption in the picker: `title · app (width x height)`.
    pub fn label(&self) -> (s: String)
        ensures
            s@ == self.spec_info().title@ + " · "@ + self.spec_info().app_name@ + " ("@ + dec(
                self.spec_info().width as nat,
            ) + "x"@ + dec(self.spec_info().height as nat) + ")"@,
    {
        let mut s = self.info.title.clone();
        push_str(&mut s, " · ");
        push_str(&mut s, self.info.app_name.as_str());
        push_str(&mut s, " (");
        push_dec(&mut s, self.info.width as u64);
        push_str(&mut s, "x");
        push_dec(&mut s, self.info.height as u64);
        push_str(&mut s, ")");
        s
    }
}

pub open spec fn spec_piece_label(piece: Piece) -> Seq<char> {
    match (piece.side, piece.kind) {
        (Side::Red, PieceKind::King) => "帅"@,
        (Side::Red, PieceKind::Advisor) => "仕"@,
        (Side::Red, PieceKind::Elephant) => "相"@,
        (Side::Red, PieceKind::Horse) => "马"@,
        (Side::Red, PieceKind::Rook) => "车"@,
        (Side::Red, PieceKind::Cannon) => "炮"@,
        (Side::Red, PieceKind::Pawn) => "兵"@,
        (Side::Black, PieceKind::King) => "将"@,
        (Side::Black, PieceKind::Advisor) => "士"@,
        (Side::Black, PieceKind::Elephant) => "象"@,
        (Side::Black, PieceKind::Horse) => "马"@,
        (Side::Black, PieceKind::Rook) => "车"@,
        (Side::Black, PieceKind::Cannon) => "砲"@,
        (Side::Black, PieceKind::Pawn) => "卒"@,
    }
}

/// The Chinese character drawn on a piece.
pub fn piece_label(piece: Piece) -> (s: &'static str)
    ensures
        s@ == spec_piece_label(piece),
{
    match (piece.side, piece.kind) {
        (Side::Red, PieceKind::King) => "帅",
        (Side::Red, PieceKind::Advisor) => "仕",
        (Side::Red, PieceKind::Elephant) => "相",
        (Side::Red, PieceKind::Horse) => "马",
        (Side::Red, PieceKind::Rook) => "车",
        (Side::Red, PieceKind::Cannon) => "炮",
        (Side::Red, PieceKind::Pawn) => "兵",
        (Side::Black, PieceKind::King) => "将",
        (Side::Black, PieceKind::Advisor) => "士",
        (Side::Black, PieceKind::Elephant) => "象",
        (Side::Black, PieceKind::Horse) => "马",
        (Side::Black, PieceKind::Rook) => "车",
        (Side::Black, PieceKind::Cannon) => "砲",
        (Side::Black, PieceKind::Pawn) => "卒",
    }
}

/// The name of a side.
pub fn side_label(side: Side) -> (s: &'static str)
    ensures
        s@ == match side {
            Side::Red => "红方"@,
            Side::Black => "黑方"@,
        },
{
    match side {
        Side::Red => "红方",
        Side::Black => "黑方",
    }
}

/// The move with flat index `k` in the scan order of `generate_legal_moves`:
/// origins in row-major order, and for each origin the targets in row-major order.
pub open spec fn move_at(k: int) -> Move {
    Move { from: pos_of_index(k / 90), to: pos_of_index(k % 90) }
}

/// The legal moves among the first `n` moves of the scan, in scan order.
pub open spec fn legal_moves_upto(b: Board, n: int) -> Seq<Move>
    decreases n,
{
    if n <= 0 {
        Seq::empty()
    } else {
        let prev = legal_moves_upto(b, n - 1);
        if spec_legality(b, move_at(n - 1)) == MoveLegality::Legal {
            prev.push(move_at(n - 1))
        } else {
            prev
        }
    }
}

/// Every legal move of `b`, origins and then targets in row-major order.
pub open spec fn spec_legal_moves(b: Board) -> Seq<Move> {
    legal_moves_upto(b, 8100)
}

proof fn lemma_move_at(r: int, c: int, tr: int, tc: int)
    requires
        0 <= r < 10,
        0 <= c < 9,
        0 <= tr < 10,
        0 <= tc < 9,
    ensures
        move_at((r * 9 + c) * 90 + tr * 9 + tc) == (Move {
            from: Pos { file: c as u8, rank: (9 - r) as u8 },
            to: Pos { file: tc as u8, rank: (9 - tr) as u8 },
        }),
{
    let f = r * 9 + c;
    let t = tr * 9 + tc;
    let k = f * 90 + t;
    assert(k / 90 == f && k % 90 == t) by (nonlinear_arith)
        requires
            k == f * 90 + t,
            0 <= t < 90,
            0 <= f,
    ;
    assert(f / 9 == r && f % 9 == c) by (nonlinear_arith)
        requires
            f == r * 9 + c,
            0 <= c < 9,
            0 <= r,
    ;
    assert(t / 9 == tr && t % 9 == tc) by (nonlinear_arith)
        requires
            t == tr * 9 + tc,
            0 <= tc < 9,
            0 <= tr,
    ;
}

/// When no move from the origin at flat index `f` is legal, the 90 moves
/// from it add nothing to the list.
proof fn lemma_skip_origin(b: Board, f: int, j: int)
    requires
        0 <= f < 90,
        0 <= j <= 90,
        forall|t: int| 0 <= t < 90 ==> spec_legality(b, #[trigger] move_at(f * 90 + t)) != MoveLegality::Legal,
    ensures
        legal_moves_upto(b, f * 90 + j) == legal_moves_upto(b, f * 90),
    decreases j,
{
    if j > 0 {
        lemma_skip_origin(b, f, j - 1);
        assert(spec_legality(b, move_at(f * 90 + (j - 1))) != MoveLegality::Legal);
    }
}

/// No move from a square that is empty or holds a piece of the side not to
/// move is legal, so that square adds nothing to the list.
proof fn lemma_origin_blocked(b: Board, r: int, c: int)
    requires
        0 <= r < 10,
        0 <= c < 9,
        b.at(r, c) is None || b.at(r, c)->Some_0.side != b.side_to_move,
    ensures
        legal_moves_upto(b, (r * 9 + c) * 90 + 90) == legal_moves_upto(b, (r * 9 + c) * 90),
{
    let f = r * 9 + c;
    assert forall|t: int| 0 <= t < 90 implies spec_legality(b, #[trigger] move_at(f * 90 + t))
        != MoveLegality::Legal by {
        lemma_move_at(r, c, t / 9, t % 9);
    }
    lemma_skip_origin(b, f, 90);
}

/// Appends the legal moves from the square at row `row`, column `col`.
fn push_moves_from(board: &Board, row: usize, col: usize, moves: &mut Vec<Move>)
    requires
        row < 10,
        col < 9,
        old(moves)@ == legal_moves_upto(*board, (row * 9 + col) * 90),
    ensures
        final(moves)@ == legal_moves_upto(*board, (row * 9 + col) * 90 + 90),
{
    let ghost f: int = row * 9 + col;
    let from = Pos { file: col as u8, rank: (9 - row) as u8 };
    let mut to_row: usize = 0;
    while to_row < 10
        invariant
            row < 10,
            col < 9,
            to_row <= 10,
            f == row * 9 + col,
            from == (Pos { file: col as u8, rank: (9 - row) as u8 }),
            moves@ == legal_moves_upto(*board, f * 90 + to_row * 9),
        decreases 10 - to_row,
    {
        let mut to_col: usize = 0;
        while to_col < 9
            invariant
                row < 10,
                col < 9,
                to_row < 10,
                to_col <= 9,
                f == row * 9 + col,
                from == (Pos { file: col as u8, rank: (9 - row) as u8 }),
                moves@ == legal_moves_upto(*board, f * 90 + to_row * 9 + to_col),
            decreases 9 - to_col,
        {
            let to = Pos { file: to_col as u8, rank: (9 - to_row) as u8 };
            let mv = Move::new(from, to);
            proof {
                lemma_move_at(row as int, col as int, to_row as int, to_col as int);
            }
            if let MoveLegality::Legal = check_move_legality(board, mv) {
                moves.push(mv);
            }
            to_col += 1;
        }
        to_row += 1;
    }
}

/// Every legal move of the side to move, origins and then targets in
/// row-major order (rank 9 first, file a first).
pub fn generate_legal_moves(board: &Board) -> (moves: Vec<Move>)
    ensures
        moves@ == spec_legal_moves(*board),
{
    let mut moves: Vec<Move> = Vec::new();
    let mut row: usize = 0;
    while row < 10
        invariant
            row <= 10,
            moves@ == legal_moves_upto(*board, row * 810),
        decreases 10 - row,
    {
        let mut col: usize = 0;
        while col < 9
            invariant
                row < 10,
                col <= 9,
                moves@ == legal_moves_upto(*board, (row * 9 + col) * 90),
            decreases 9 - col,
        {
            let from = match Pos::from_index(row, col) {
                Some(p) => p,
                None => {
                    col += 1;
                    continue;
                },
            };
            let piece = match board.get(from) {
                Some(p) => p,
                None => {
                    proof {
                        lemma_origin_blocked(*board, row as int, col as int);
                    }
                    col += 1;
                    continue;
                },
            };
            if piece.side != board.side_to_move {
                proof {
                    lemma_origin_blocked(*board, row as int, col as int);
                }
                col += 1;
                continue;
            }
            push_moves_from(board, row, col, &mut moves);
            col += 1;
        }
        row += 1;
    }
    moves
}

/// The first legal move in scan order, if any.
pub fn pick_first_legal_move(board: &Board) -> (m: Option<Move>)
    ensures
        m == if spec_legal_moves(*board).len() > 0 {
            Some(spec_legal_moves(*board)[0])
        } else {
            None::<Move>
        },
{
    let moves = generate_legal_moves(board);
    if moves.len() > 0 {
        Some(moves[0])
    } else {
        None
    }
}

/// The first legal move for `side`, as if it were that side's turn.
pub fn pick_move_for_side(board: &Board, side: Side) -> (m: Option<Move>)
    ensures
        ({
            let b = Board { grid: board.grid, side_to_move: side };
            m == if spec_legal_moves(b).len() > 0 {
                Some(spec_legal_moves(b)[0])
            } else {
                None::<Move>
            }
        }),
{
    let mut cloned = *board;
    cloned.side_to_move = side;
    pick_first_legal_move(&cloned)
}

proof fn lemma_upto_sound(b: Board, n: int)
    ensures
        forall|i: int|
            0 <= i < legal_moves_upto(b, n).len() ==> spec_legality(b, #[trigger] legal_moves_upto(b, n)[i])
                == MoveLegality::Legal,
    decreases n,
{
    if n > 0 {
        lemma_upto_sound(b, n - 1);
    }
}

proof fn lemma_upto_complete(b: Board, n: int, k: int)
    requires
        0 <= k < n,
        spec_legality(b, move_at(k)) == MoveLegality::Legal,
    ensures
        legal_moves_upto(b, n).contains(move_at(k)),
    decreases n,
{
    if k < n - 1 {
        lemma_upto_complete(b, n - 1, k);
        let prev = legal_moves_upto(b, n - 1);
        let i = choose|i: int| 0 <= i < prev.len() && prev[i] == move_at(k);
        if spec_legality(b, move_at(n - 1)) == MoveLegality::Legal {
            assert(prev.push(move_at(n - 1))[i] == move_at(k));
        }
    } else {
        let prev = legal_moves_upto(b, n - 1);
        assert(prev.push(move_at(k))[prev.len() as int] == move_at(k));
    }
}

/// The move list holds exactly the legal moves: each move in it is legal,
/// and each legal move is in it.
pub proof fn lemma_legal_moves_exact(b: Board, m: Move)
    ensures
        spec_legal_moves(b).contains(m) <==> spec_legality(b, m) == MoveLegality::Legal,
{
    lemma_upto_sound(b, 8100);
    if spec_legality(b, m) == MoveLegality::Legal {
        lemma_legal_move_shape(b, m);
        let r = 9 - m.from.rank;
        let c = m.from.file as int;
        let tr = 9 - m.to.rank;
        let tc = m.to.file as int;
        lemma_move_at(r, c, tr, tc);
        let k = (r * 9 + c) * 90 + tr * 9 + tc;
        assert(move_at(k) == m);
        lemma_upto_complete(b, 8100, k);
    }
}

/// Two boards with the same side to move and the same piece on every square are equal.
pub proof fn lemma_board_ext(x: Board, y: Board)
    requires
        x.side_to_move == y.side_to_move,
        forall|r: int, c: int| 0 <= r < 10 && 0 <= c < 9 ==> #[trigger] x.at(r, c) == y.at(r, c),
    ensures
        x == y,
{
    assert forall|r: int| 0 <= r < 10 implies x.grid@[r] == y.grid@[r] by {
        assert forall|c: int| 0 <= c < 9 implies x.grid@[r]@[c] == y.grid@[r]@[c] by {
            assert(x.at(r, c) == y.at(r, c));
        }
        assert(x.grid@[r]@ =~= y.grid@[r]@);
    }
    assert(x.grid@ =~= y.grid@);
    assert(x.grid == y.grid);
}

/// Whether both squares of a recorded move lie on the board.
pub open spec fn outcome_on_board(o: MoveOutcome) -> bool {
    o.mv.from.spec_in_bounds() && o.mv.to.spec_in_bounds()
}

/// The board with a recorded move taken back: the mover's side is to move
/// again, the moved piece is back on the origin and the captured piece (or
/// nothing) back on the target.
pub open spec fn taken_back(b: Board, o: MoveOutcome) -> Board {
    let g = b.with_cell(o.mv.from, Some(o.moved)).with_cell(o.mv.to, o.captured);
    Board { grid: g.grid, side_to_move: o.moved.side }
}

/// What playing `mv` on `b` records.
pub open spec fn outcome_of(b: Board, mv: Move) -> MoveOutcome {
    MoveOutcome {
        mv,
        moved: b.cell(mv.from).unwrap(),
        captured: b.cell(mv.to),
        next_side_to_move: b.side_to_move.spec_opposite(),
    }
}

/// Takes back the last move of the record and keeps it for redoing; `false`
/// (and no change) when there is nothing to take back.
pub fn undo_move(record: &mut GameRecord, redo: &mut Vec<MoveOutcome>) -> (undone: bool)
    requires
        old(record).history@.len() > 0 ==> outcome_on_board(old(record).history@.last()),
    ensures
        undone == (old(record).history@.len() > 0),
        !undone ==> final(record).board == old(record).board && final(record).history@ == old(
            record,
        ).history@ && final(redo)@ == old(redo)@,
        undone ==> {
            let o = old(record).history@.last();
            &&& final(record).history@ == old(record).history@.drop_last()
            &&& final(record).board == taken_back(old(record).board, o)
            &&& final(redo)@ == old(redo)@.push(o)
        },
{
    let outcome = match record.history.pop() {
        Some(o) => o,
        None => return false,
    };
    record.board.side_to_move = outcome.moved.side;
    record.board.set(outcome.mv.from, Some(outcome.moved));
    record.board.set(outcome.mv.to, outcome.captured);
    redo.push(outcome);
    true
}

/// Replays the last taken-back move. `None` when there is nothing to redo;
/// otherwise the move is played again without rule check and the answer says
/// whether its origin still held a piece.
pub fn redo_move(record: &mut GameRecord, redo: &mut Vec<MoveOutcome>) -> (r: Option<bool>)
    requires
        old(redo)@.len() > 0 ==> outcome_on_board(old(redo)@.last()),
    ensures
        old(redo)@.len() == 0 ==> r is None && *final(record) == *old(record) && final(redo)@ == old(redo)@,
        old(redo)@.len() > 0 ==> {
            let mv = old(redo)@.last().mv;
            let applied = old(record).board.cell(mv.from) is Some;
            &&& r == Some(applied)
            &&& final(redo)@ == old(redo)@.drop_last()
            &&& applied ==> final(record).board == old(record).board.after_move(mv)
                && final(record).history@ == old(record).history@.push(outcome_of(old(record).board, mv))
            &&& !applied ==> *final(record) == *old(record)
        },
{
    let outcome = match redo.pop() {
        Some(o) => o,
        None => return None,
    };
    match record.board.apply_move_unchecked(outcome.mv) {
        Some(next) => {
            record.history.push(next);
            Some(true)
        },
        None => Some(false),
    }
}

/// Taking back a legal move gives back the board it was played on.
pub proof fn lemma_undo_restores(b: Board, mv: Move)
    requires
        spec_validate(b, mv) is Ok,
    ensures
        taken_back(b.after_move(mv), outcome_of(b, mv)) == b,
{
    lemma_legal_move_shape(b, mv);
    let a = b.after_move(mv);
    let o = outcome_of(b, mv);
    let mid = b.with_cell(mv.to, b.cell(mv.from));
    let back1 = a.with_cell(mv.from, Some(o.moved));
    let t = taken_back(a, o);
    assert forall|r: int, c: int| 0 <= r < 10 && 0 <= c < 9 implies #[trigger] t.at(r, c) == b.at(r, c) by {
        lemma_with_cell_at(b, mv.to, b.cell(mv.from), r, c);
        lemma_with_cell_at(mid, mv.from, None, r, c);
        lemma_with_cell_at(a, mv.from, Some(o.moved), r, c);
        lemma_with_cell_at(back1, mv.to, o.captured, r, c);
    }
    lemma_board_ext(t, b);
}

/// Taking back a legal move and redoing it gives back the board and the
/// record entry of the move.
pub proof fn lemma_redo_after_undo(b: Board, mv: Move)
    requires
        spec_validate(b, mv) is Ok,
    ensures
        ({
            let back = taken_back(b.after_move(mv), outcome_of(b, mv));
            &&& back.cell(mv.from) is Some
            &&& back.after_move(mv) == b.after_move(mv)
            &&& outcome_of(back, mv) == outcome_of(b, mv)
        }),
{
    lemma_undo_restores(b, mv);
    lemma_legal_move_shape(b, mv);
}

/// Whether the moves an update carries lie on the board.
pub open spec fn update_on_board(u: ExternalUpdate) -> bool {
    match u {
        ExternalUpdate::CandidateMove { diff, applied_to_local } => applied_to_local
            ==> (diff.candidate matches Some(c) ==> c.mv.from.spec_in_bounds()
            && c.mv.to.spec_in_bounds()),
        ExternalUpdate::PendingConfirmed { mv } => mv.from.spec_in_bounds() && mv.to.spec_in_bounds(),
        _ => true,
    }
}

/// The move of an update that the game record can follow, if any: a move
/// replayed on the local board, or a confirmed injected move.
pub open spec fn followed_move(u: ExternalUpdate) -> Option<Move> {
    match u {
        ExternalUpdate::CandidateMove { diff, applied_to_local } => if applied_to_local
            && diff.candidate is Some {
            Some(diff.candidate->Some_0.mv)
        } else {
            None
        },
        ExternalUpdate::PendingConfirmed { mv } => Some(mv),
        _ => None,
    }
}

/// Brings the game record in line with an update of the linked window.
/// Nothing happens for an unchanged window (`false`). A move that the record
/// can follow is played on it (dropping the redo list); any other update, or
/// a move whose origin is empty on the record's board, replaces the board by
/// `board` (the synchronised local board) and clears both lists. Returns
/// whether the record changed.
pub fn apply_external_update(
    record: &mut GameRecord,
    redo: &mut Vec<MoveOutcome>,
    update: ExternalUpdate,
    board: Board,
) -> (changed: bool)
    requires
        update_on_board(update),
    ensures
        update is NoChange ==> !changed && *final(record) == *old(record) && final(redo)@ == old(redo)@,
        !(update is NoChange) ==> {
            &&& changed
            &&& final(redo)@.len() == 0
            &&& match followed_move(update) {
                Some(mv) => if old(record).board.cell(mv.from) is Some {
                    &&& final(record).board == old(record).board.after_move(mv)
                    &&& final(record).history@ == old(record).history@.push(
                        outcome_of(old(record).board, mv),
                    )
                } else {
                    final(record).board == board && final(record).history@.len() == 0
                },
                None => final(record).board == board && final(record).history@.len() == 0,
            }
        },
{
    let mv = match &update {
        ExternalUpdate::NoChange => return false,
        ExternalUpdate::CandidateMove { diff, applied_to_local } => {
            if *applied_to_local {
                match diff.candidate {
                    Some(c) => Some(c.mv),
                    None => None,
                }
            } else {
                None
            }
        },
        ExternalUpdate::PendingConfirmed { mv } => Some(*mv),
        _ => None,
    };
    if let Some(mv) = mv {
        if let Some(outcome) = record.board.apply_move_unchecked(mv) {
            record.history.push(outcome);
            redo.clear();
            return true;
        }
    }
    record.board = board;
    record.history.clear();
    redo.clear();
    true
}

/// What a click on a square asks for.
#[derive(Debug, Clone, Copy, PartialEq, Eq, Structural)]
pub enum CellPress {
    /// The mode does not let the user move now.
    NotAllowed,
    /// The selected square was clicked again: drop the selection.
    Deselect,
    /// Send this move to the linked window.
    Inject(Move),
    /// Play this move on the local board (if legal).
    Play(Move),
    /// Select this square.
    Select(Pos),
    /// The square holds a piece of the side not to move.
    NotOwnPiece,
    /// The square is empty.
    EmptySquare,
}

/// Whether the user may move when `side_to_move` is to move in `mode`.
pub open spec fn spec_allows_manual_move(mode: Mode, side_to_move: Side) -> bool {
    match mode {
        Mode::LinkAnalysis => false,
        Mode::LinkBattle => true,
        Mode::HumanVsAi { human_side } => human_side == side_to_move,
        Mode::AiVsAi => false,
    }
}

/// What a click on `pos` asks for.
pub open spec fn spec_press_cell(mode: Mode, board: Board, selection: Option<Pos>, pos: Pos, link_running: bool) -> CellPress {
    if !spec_allows_manual_move(mode, board.side_to_move) {
        CellPress::NotAllowed
    } else if selection is Some {
        let sel = selection->Some_0;
        if sel == pos {
            CellPress::Deselect
        } else if mode is LinkBattle && link_running {
            CellPress::Inject(Move { from: sel, to: pos })
        } else {
            CellPress::Play(Move { from: sel, to: pos })
        }
    } else if board.cell(pos) is Some {
        if board.cell(pos)->Some_0.side == board.side_to_move {
            CellPress::Select(pos)
        } else {
            CellPress::NotOwnPiece
        }
    } else {
        CellPress::EmptySquare
    }
}

/// Decides what a click on `pos` asks for, given the mode, the board, the
/// current selection and whether the link with the other window is running.
pub fn press_cell(mode: Mode, board: &Board, selection: Option<Pos>, pos: Pos, link_running: bool) -> (p: CellPress)
    requires
        pos.spec_in_bounds(),
    ensures
        p == spec_press_cell(mode, *board, selection, pos, link_running),
{
    if !mode.allows_manual_move(board.side_to_move) {
        return CellPress::NotAllowed;
    }
    if let Some(selected) = selection {
        if selected == pos {
            return CellPress::Deselect;
        }
        let mv = Move::new(selected, pos);
        if let Mode::LinkBattle = mode {
            if link_running {
                return CellPress::Inject(mv);
            }
        }
        return CellPress::Play(mv);
    }
    match board.get(pos) {
        Some(piece) => if piece.side == board.side_to_move {
            CellPress::Select(pos)
        } else {
            CellPress::NotOwnPiece
        },
        None => CellPress::EmptySquare,
    }
}

} // verus!
