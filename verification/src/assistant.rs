//! The assistant's state behind its user interface: the game and its
//! history, the play mode, hints, the engine and link switches, the window
//! list and the status line. Each user action or outside report is a method
//! that updates the state and names the outside work the caller does next.
use vstd::prelude::*;
use crate::analysis::{
    clamp_interval, faster_interval, slower_interval, EngineAnalysis, EnginePurpose, EngineResult,
    EngineSource, AI_DEFAULT_INTERVAL_MS,
};
use crate::engine::event::InfoView;
use crate::game::{
    apply_external_update, followed_move, lemma_board_ext, lemma_legal_moves_exact,
    lemma_redo_after_undo, lemma_undo_restores, outcome_of,
    outcome_on_board, pick_first_legal_move, pick_move_for_side, press_cell, redo_move,
    spec_legal_moves, spec_press_cell, taken_back, undo_move, update_on_board, CellPress, Mode,
    ModeOption, SidebarTab, WindowOption,
};
use crate::legality::{
    check_move_legality, lemma_legal_move_shape, spec_legality, spec_validate, LegalMoveError,
    MoveLegality,
};
use crate::link::sync::ExternalUpdate;
use crate::link::{InjectResult, LinkWindowInfo, LinkWindowView};
use crate::text::{dec, push_dec, push_str};
use crate::types::{Board, GameRecord, Move, MoveOutcome, Pos, Side};

pub mod dispatch;

verus! {

/// The first legal move of each side, shown as tips.
#[derive(Debug, Clone, Copy, PartialEq, Eq, Structural)]
pub struct Tips {
    pub red: Option<Move>,
    pub black: Option<Move>,
}

/// Layout switches of the window.
#[derive(Debug, Clone, Copy, PartialEq, Eq, Structural)]
pub struct Panel {
    pub tab: SidebarTab,
    pub sidebar_collapsed: bool,
    pub flip_board: bool,
    /// Keep the game when the mode changes (otherwise start a new one).
    pub preserve_on_mode_switch: bool,
}

/// Pace of engine-against-engine play.
#[derive(Debug, Clone, Copy, PartialEq, Eq, Structural)]
pub struct AiPace {
    pub paused: bool,
    pub interval_ms: u64,
    /// When the engine last moved on a clock tick, in milliseconds of a
    /// monotonic clock.
    pub last_tick_ms: Option<u64>,
}

/// Engine switches.
#[derive(Debug, Clone, Copy, PartialEq, Eq, Structural)]
pub struct EngineSwitches {
    /// A request is running.
    pub busy: bool,
    /// The local engine may be used.
    pub enabled: bool,
    /// The cloud book may be asked first.
    pub cloud: bool,
}

/// Outside work an action asks for.
#[derive(Debug, Clone, Copy, PartialEq, Eq, Structural)]
pub enum Effect {
    /// Nothing to do.
    Idle,
    /// Ask for analysis with this purpose; report with `engine_started` or
    /// `engine_unavailable`, and later with `engine_finished`.
    Engine(EnginePurpose),
    /// Send this move to the linked window; report with `injected`.
    Inject(Move),
    /// Open the selected window and start linking; report with
    /// `link_started` or `link_failed`.
    StartLink,
    /// Enumerate the windows; report with `windows_loaded`.
    ListWindows,
    /// Capture the linked window; report with `link_tick` or `link_tick_failed`.
    CaptureLink,
}

/// Why linking with a window could not start.
#[derive(Debug, Clone, PartialEq, Eq)]
pub enum LinkFailure {
    /// The model files were not found.
    NoResources,
    /// The window could not be opened (with the reason).
    OpenWindow(String),
    /// The recognition model could not be loaded (with the reason).
    LoadModel(String),
}

/// The status line for a failed link start.
pub open spec fn link_failure_text(f: LinkFailure) -> Seq<char> {
    match f {
        LinkFailure::NoResources => "模型资源不可用，无法连线"@,
        LinkFailure::OpenWindow(d) => "打开窗口失败："@ + d@,
        LinkFailure::LoadModel(d) => "加载模型失败："@ + d@,
    }
}

/// The assistant's state.
#[derive(Debug)]
pub struct Assistant {
    pub mode: Mode,
    pub record: GameRecord,
    /// Moves taken back, the last one first to be redone.
    pub redo_stack: Vec<MoveOutcome>,
    pub selection: Option<Pos>,
    pub suggested_move: Option<Move>,
    pub learning_enabled: bool,
    pub tips: Tips,
    pub panel: Panel,
    pub pace: AiPace,
    pub engine: EngineSwitches,
    pub last_analysis: Option<EngineAnalysis>,
    pub link_windows: Vec<WindowOption>,
    pub selected_window: Option<WindowOption>,
    pub link_running: bool,
    pub link_last_error: Option<String>,
    pub status: String,
}

/// `EngineAnalysis` with its texts as character sequences.
pub struct AnalysisView {
    pub source: EngineSource,
    pub bestmove: Option<Move>,
    pub info: Option<InfoView>,
    pub error: Option<Seq<char>>,
}

impl View for EngineAnalysis {
    type V = AnalysisView;

    open spec fn view(&self) -> AnalysisView {
        AnalysisView {
            source: self.source,
            bestmove: self.bestmove,
            info: match self.info {
                Some(i) => Some(i@),
                None => None,
            },
            error: match self.error {
                Some(e) => Some(e@),
                None => None,
            },
        }
    }
}

/// The abstract content of an [`Assistant`].
pub struct AView {
    pub mode: Mode,
    pub board: Board,
    pub history: Seq<MoveOutcome>,
    pub redo: Seq<MoveOutcome>,
    pub selection: Option<Pos>,
    pub suggested: Option<Move>,
    pub learning: bool,
    pub tips: Tips,
    pub panel: Panel,
    pub pace: AiPace,
    pub engine: EngineSwitches,
    pub last_analysis: Option<AnalysisView>,
    pub windows: Seq<LinkWindowView>,
    pub selected: Option<LinkWindowView>,
    pub link_running: bool,
    pub link_error: Option<Seq<char>>,
    pub status: Seq<char>,
}

impl View for Assistant {
    type V = AView;

    open spec fn view(&self) -> AView {
        AView {
            mode: self.mode,
            board: self.record.board,
            history: self.record.history@,
            redo: self.redo_stack@,
            selection: self.selection,
            suggested: self.suggested_move,
            learning: self.learning_enabled,
            tips: self.tips,
            panel: self.panel,
            pace: self.pace,
            engine: self.engine,
            last_analysis: match self.last_analysis {
                Some(a) => Some(a@),
                None => None,
            },
            windows: self.link_windows@.map_values(|w: WindowOption| w@),
            selected: match self.selected_window {
                Some(w) => Some(w@),
                None => None,
            },
            link_running: self.link_running,
            link_error: match self.link_last_error {
                Some(e) => Some(e@),
                None => None,
            },
            status: self.status@,
        }
    }
}

/// The first legal move of `b` in scan order.
#[verifier::opaque]
pub open spec fn first_legal(b: Board) -> Option<Move> {
    if spec_legal_moves(b).len() > 0 {
        Some(spec_legal_moves(b)[0])
    } else {
        None
    }
}

/// `b` with `s` to move.
pub open spec fn with_side(b: Board, s: Side) -> Board {
    Board { grid: b.grid, side_to_move: s }
}

/// Whether a move's squares can be written in ICCS.
pub open spec fn printable(mv: Move) -> bool {
    mv.from.file <= 158 && mv.from.rank <= 207 && mv.to.file <= 158 && mv.to.rank <= 207
}

/// The standard opening.
pub open spec fn opening() -> Board {
    choose|b: Board| b.is_startpos()
}

impl AView {
    /// What every reachable state satisfies: the selected square and the
    /// squares of every recorded or taken-back move lie on the board.
    pub open spec fn wf(self) -> bool {
        &&& (self.selection matches Some(p) ==> p.spec_in_bounds())
        &&& forall|i: int| 0 <= i < self.history.len() ==> outcome_on_board(#[trigger] self.history[i])
        &&& forall|i: int| 0 <= i < self.redo.len() ==> outcome_on_board(#[trigger] self.redo[i])
    }

    /// The hint and the tips recomputed for the current board.
    pub open spec fn refreshed(self) -> AView {
        AView {
            suggested: if self.learning {
                first_legal(self.board)
            } else {
                None
            },
            tips: Tips {
                red: first_legal(with_side(self.board, Side::Red)),
                black: first_legal(with_side(self.board, Side::Black)),
            },
            ..self
        }
    }

    /// The state with a new status line.
    pub open spec fn said(self, s: Seq<char>) -> AView {
        AView { status: s, ..self }
    }

    /// The state after a legal move `mv` was played on the board.
    pub open spec fn played(self, mv: Move) -> AView {
        AView {
            board: self.board.after_move(mv),
            history: self.history.push(outcome_of(self.board, mv)),
            redo: Seq::empty(),
            suggested: None,
            ..self
        }.refreshed()
    }

    pub open spec fn request_engine(self, p: EnginePurpose) -> (AView, Effect) {
        (self, if self.engine.busy { Effect::Idle } else { Effect::Engine(p) })
    }

    /// The engine side plays the first legal move.
    pub open spec fn fallback_ai(self) -> AView {
        match first_legal(self.board) {
            None => self.said("AI 无合法走法"@),
            Some(mv) => self.played(mv).said("AI 落子："@ + mv.spec_iccs()),
        }
    }

    pub closed spec fn request_ai(self) -> (AView, Effect) {
        if self.engine.enabled {
            self.request_engine(EnginePurpose::AiMove)
        } else {
            (self.fallback_ai(), Effect::Idle)
        }
    }

    /// The engine side moves when it is its turn.
    pub open spec fn ai_turn(self) -> (AView, Effect) {
        if self.mode.spec_ai_side() == Some(self.board.side_to_move) {
            self.request_ai()
        } else {
            (self, Effect::Idle)
        }
    }

    pub open spec fn stop_link(self) -> AView {
        if self.link_running {
            AView { link_running: false, link_error: None, status: "连线已停止"@, ..self }
        } else {
            self
        }
    }

    pub closed spec fn reset(self) -> (AView, Effect) {
        AView {
            board: opening(),
            history: Seq::empty(),
            redo: Seq::empty(),
            selection: None,
            suggested: None,
            pace: AiPace { last_tick_ms: None, ..self.pace },
            status: "已开新局"@,
            ..self
        }.refreshed().ai_turn()
    }

    pub closed spec fn undo(self) -> AView {
        if self.history.len() == 0 {
            self.said("无可悔棋"@)
        } else {
            let o = self.history.last();
            AView {
                board: taken_back(self.board, o),
                history: self.history.drop_last(),
                redo: self.redo.push(o),
                selection: None,
                suggested: None,
                status: "已悔棋"@,
                ..self
            }.refreshed()
        }
    }

    pub closed spec fn redo_step(self) -> AView {
        if self.redo.len() == 0 {
            self.said("无可前进"@)
        } else {
            let mv = self.redo.last().mv;
            let v = AView { redo: self.redo.drop_last(), selection: None, suggested: None, ..self };
            if self.board.cell(mv.from) is Some {
                AView {
                    board: self.board.after_move(mv),
                    history: self.history.push(outcome_of(self.board, mv)),
                    status: "已前进"@,
                    ..v
                }.refreshed()
            } else {
                v.said("前进失败"@).refreshed()
            }
        }
    }

    pub closed spec fn hint(self) -> (AView, Effect) {
        if self.engine.enabled {
            self.request_engine(EnginePurpose::Hint)
        } else {
            let v = AView { suggested: first_legal(self.board), ..self };
            (
                match first_legal(self.board) {
                    Some(mv) => v.said("提示走法："@ + mv.spec_iccs()),
                    None => v.said("暂无可用走法"@),
                },
                Effect::Idle,
            )
        }
    }

    pub closed spec fn press(self, pos: Pos) -> (AView, Effect) {
        match spec_press_cell(self.mode, self.board, self.selection, pos, self.link_running) {
            CellPress::NotAllowed => (self.said("当前模式不允许手动落子"@), Effect::Idle),
            CellPress::Deselect => (AView { selection: None, ..self }, Effect::Idle),
            CellPress::Inject(mv) => (
                AView { selection: None, status: "正在注入外部落子..."@, ..self },
                Effect::Inject(mv),
            ),
            CellPress::Play(mv) => match spec_validate(self.board, mv) {
                Ok(()) => {
                    let v = AView { selection: None, ..self.played(mv) }.said(
                        "已落子："@ + mv.spec_iccs(),
                    );
                    if self.mode.spec_ai_side() == Some(v.board.side_to_move) {
                        v.request_ai()
                    } else {
                        (v, Effect::Idle)
                    }
                },
                Err(e) => (self.said("非法走子："@ + e.spec_message()), Effect::Idle),
            },
            CellPress::Select(p) => (
                AView { selection: Some(p), status: "已选择 "@ + p.spec_iccs(), ..self },
                Effect::Idle,
            ),
            CellPress::NotOwnPiece => (self.said("请选择己方棋子"@), Effect::Idle),
            CellPress::EmptySquare => (self.said("该位置无棋子"@), Effect::Idle),
        }
    }

    pub closed spec fn finished(self, purpose: EnginePurpose, a: AnalysisView) -> AView {
        let v0 = AView {
            engine: EngineSwitches { busy: false, ..self.engine },
            last_analysis: Some(a),
            ..self
        };
        let v1 = match a.error {
            Some(e) => v0.said("引擎错误："@ + e),
            None => v0,
        };
        match purpose {
            EnginePurpose::Hint => {
                let v2 = AView { suggested: a.bestmove, ..v1 };
                match a.bestmove {
                    Some(mv) => v2.said("提示走法："@ + mv.spec_iccs()),
                    None => v2,
                }
            },
            EnginePurpose::AiMove => match a.bestmove {
                Some(mv) => match spec_validate(v1.board, mv) {
                    Ok(()) => v1.played(mv).said("AI 落子："@ + mv.spec_iccs()),
                    Err(e) => v1.said("AI 落子失败："@ + e.spec_message()).fallback_ai(),
                },
                None => v1.fallback_ai(),
            },
            EnginePurpose::Analysis => match a.bestmove {
                Some(mv) => AView { suggested: Some(mv), ..v1 },
                None => v1,
            },
        }
    }

    /// The state on entering `mode`: no selection or hint, play resumed,
    /// the link stopped outside the linked modes, the board turned back
    /// where the mode does not allow turning it.
    pub open spec fn entered(self, mode: Mode) -> AView {
        let v1 = AView {
            mode,
            selection: None,
            suggested: None,
            pace: AiPace { paused: false, last_tick_ms: None, ..self.pace },
            ..self
        };
        let v2 = if !(mode is LinkAnalysis || mode is LinkBattle) {
            v1.stop_link()
        } else {
            v1
        };
        if !mode.spec_allows_flip() {
            AView { panel: Panel { flip_board: false, ..v2.panel }, ..v2 }
        } else {
            v2
        }
    }

    pub closed spec fn switch_mode(self, mode: Mode) -> (AView, Effect) {
        if mode == self.mode {
            (self, Effect::Idle)
        } else {
            let v3 = self.entered(mode);
            let r = if !v3.panel.preserve_on_mode_switch {
                v3.reset()
            } else {
                v3.refreshed().ai_turn()
            };
            (r.0.said("已切换模式："@ + mode.spec_label()), r.1)
        }
    }

    /// The state after an update of the linked window changed the record.
    pub open spec fn followed(self, u: ExternalUpdate, board: Board) -> AView {
        match followed_move(u) {
            Some(mv) => if self.board.cell(mv.from) is Some {
                AView {
                    board: self.board.after_move(mv),
                    history: self.history.push(outcome_of(self.board, mv)),
                    redo: Seq::empty(),
                    ..self
                }.refreshed()
            } else {
                AView { board, history: Seq::empty(), redo: Seq::empty(), ..self }.refreshed()
            },
            None => AView { board, history: Seq::empty(), redo: Seq::empty(), ..self }.refreshed(),
        }
    }

    /// The state after an update of the linked window (nothing for no change).
    pub open spec fn external(self, u: ExternalUpdate, board: Board) -> AView {
        if u is NoChange {
            self
        } else {
            self.followed(u, board)
        }
    }
}

impl AView {
    pub open spec fn is_linked_mode(self) -> bool {
        self.mode is LinkAnalysis || self.mode is LinkBattle
    }

    pub closed spec fn toggle_flip(self) -> AView {
        if self.mode.spec_allows_flip() {
            let f = !self.panel.flip_board;
            AView { panel: Panel { flip_board: f, ..self.panel }, ..self }.said(
                if f { "棋盘已反转"@ } else { "棋盘已恢复"@ },
            )
        } else {
            self
        }
    }

    pub closed spec fn set_learning(self, enabled: bool) -> AView {
        AView { learning: enabled, ..self }.refreshed().said(
            if enabled { "学习提示已开启"@ } else { "学习提示已关闭"@ },
        )
    }

    pub closed spec fn toggle_pause(self) -> AView {
        if self.mode is AiVsAi {
            let p = !self.pace.paused;
            AView { pace: AiPace { paused: p, ..self.pace }, ..self }.said(
                if p { "AI 已暂停"@ } else { "AI 已继续"@ },
            )
        } else {
            self
        }
    }

    pub closed spec fn paced(self, ms: u64) -> AView {
        AView { pace: AiPace { interval_ms: ms, ..self.pace }, ..self }.said(
            "AI 速度："@ + dec(ms as nat) + "ms/步"@,
        )
    }

    /// A clock tick at `now_ms`: in engine-against-engine play, unless
    /// paused, the engine moves when the pace has elapsed since its last
    /// move on a tick (or at the first tick).
    pub closed spec fn tick(self, now_ms: u64) -> (AView, Effect) {
        if self.mode is AiVsAi && !self.pace.paused && (self.pace.last_tick_ms matches Some(last) ==> (
        if now_ms >= last { now_ms - last } else { 0 }) >= self.pace.interval_ms) {
            AView { pace: AiPace { last_tick_ms: Some(now_ms), ..self.pace }, ..self }.request_ai()
        } else {
            (self, Effect::Idle)
        }
    }

    pub closed spec fn set_engine(self, enabled: bool) -> AView {
        AView { engine: EngineSwitches { enabled, ..self.engine }, ..self }.said(
            if enabled { "引擎已启用"@ } else { "引擎已关闭"@ },
        )
    }

    pub closed spec fn set_cloud(self, enabled: bool) -> AView {
        AView { engine: EngineSwitches { cloud: enabled, ..self.engine }, ..self }.said(
            if enabled { "云库已启用"@ } else { "云库已关闭"@ },
        )
    }

    pub closed spec fn windows_loaded(self, r: Result<Seq<LinkWindowView>, Seq<char>>) -> AView {
        match r {
            Ok(list) => AView {
                windows: list,
                selected: if self.selected is None {
                    if list.len() > 0 { Some(list[0]) } else { None }
                } else {
                    self.selected
                },
                status: "已加载 "@ + dec(list.len()) + " 个窗口"@,
                ..self
            },
            Err(e) => AView { windows: Seq::empty(), selected: None, status: "窗口枚举失败："@ + e, ..self },
        }
    }

    pub closed spec fn toggle_link(self) -> (AView, Effect) {
        if self.link_running {
            (self.stop_link(), Effect::Idle)
        } else if self.selected is None {
            (self.said("未选择外部窗口"@), Effect::Idle)
        } else {
            (self, Effect::StartLink)
        }
    }

    pub open spec fn link_tick(self, flipped: Option<bool>, update: Option<ExternalUpdate>, board: Board) -> (AView, Effect) {
        let v1 = AView { link_error: None, ..self };
        let v2 = match flipped {
            Some(f) => if self.is_linked_mode() {
                AView { panel: Panel { flip_board: f, ..v1.panel }, ..v1 }
            } else {
                v1
            },
            None => v1,
        };
        match update {
            Some(u) => {
                let v3 = v2.external(u, board);
                if !(u is NoChange) && v3.engine.enabled {
                    v3.request_engine(EnginePurpose::Analysis)
                } else {
                    (v3, Effect::Idle)
                }
            },
            None => (v2, Effect::Idle),
        }
    }

    pub open spec fn injected(self, mv: Move, r: Result<(Option<bool>, Option<ExternalUpdate>), Seq<char>>, board: Board) -> AView {
        match r {
            Ok((confirmed, update)) => {
                let v = match update {
                    Some(u) => self.external(u, board),
                    None => self,
                };
                v.said(
                    match confirmed {
                        Some(true) => "已注入走法："@ + mv.spec_iccs(),
                        Some(false) => "注入确认失败，请检查外部棋盘"@,
                        None => "注入完成，等待外部确认"@,
                    },
                )
            },
            Err(e) => self.said("注入失败："@ + e),
        }
    }
}

/// Builds a status line from a literal and a tail.
fn status_with(head: &str, tail: &str) -> (s: String)
    ensures
        s@ == head@ + tail@,
{
    let mut s = String::new();
    push_str(&mut s, head);
    push_str(&mut s, tail);
    s
}

fn text(s: &str) -> (t: String)
    ensures
        t@ == s@,
{
    let mut t = String::new();
    push_str(&mut t, s);
    t
}

impl Assistant {
    /// The state at start-up: a new game against the engine with the user
    /// playing Red, hints on, the engine and the cloud book on.
    pub fn new() -> (a: Self)
        ensures
            a@.wf(),
            a@ == (AView {
                mode: Mode::HumanVsAi { human_side: Side::Red },
                board: opening(),
                history: Seq::empty(),
                redo: Seq::empty(),
                selection: None,
                suggested: None,
                learning: true,
                tips: Tips { red: None, black: None },
                panel: Panel {
                    tab: SidebarTab::Analysis,
                    sidebar_collapsed: false,
                    flip_board: false,
                    preserve_on_mode_switch: true,
                },
                pace: AiPace { paused: false, interval_ms: AI_DEFAULT_INTERVAL_MS, last_tick_ms: None },
                engine: EngineSwitches { busy: false, enabled: true, cloud: true },
                last_analysis: None,
                windows: Seq::empty(),
                selected: None,
                link_running: false,
                link_error: None,
                status: "准备就绪"@,
            }).refreshed(),
    {
        let record = GameRecord::startpos();
        proof {
            lemma_opening(record.board);
        }
        let mut a = Assistant {
            mode: Mode::HumanVsAi { human_side: Side::Red },
            record,
            redo_stack: Vec::new(),
            selection: None,
            suggested_move: None,
            learning_enabled: true,
            tips: Tips { red: None, black: None },
            panel: Panel {
                tab: SidebarTab::Analysis,
                sidebar_collapsed: false,
                flip_board: false,
                preserve_on_mode_switch: true,
            },
            pace: AiPace { paused: false, interval_ms: AI_DEFAULT_INTERVAL_MS, last_tick_ms: None },
            engine: EngineSwitches { busy: false, enabled: true, cloud: true },
            last_analysis: None,
            link_windows: Vec::new(),
            selected_window: None,
            link_running: false,
            link_last_error: None,
            status: text("准备就绪"),
        };
        proof {
            assert(a@.windows =~= Seq::<LinkWindowView>::empty());
            assert(a@.history =~= Seq::<MoveOutcome>::empty());
            assert(a@.redo =~= Seq::<MoveOutcome>::empty());
        }
        a.refresh_tips();
        a
    }

    /// The window title: the program name and the mode.
    pub fn title(&self) -> (s: String)
        ensures
            s@ == "中国象棋助手 · "@ + self.mode.spec_label(),
    {
        status_with("中国象棋助手 · ", self.mode.label())
    }

    /// Recomputes the hint (when enabled) and the tips for both sides.
    pub fn refresh_tips(&mut self)
        requires
            old(self)@.wf(),
        ensures
            final(self)@ == old(self)@.refreshed(),
    {
        proof {
            reveal(first_legal);
        }
        self.suggested_move = if self.learning_enabled {
            pick_first_legal_move(&self.record.board)
        } else {
            None
        };
        self.tips.red = pick_move_for_side(&self.record.board, Side::Red);
        self.tips.black = pick_move_for_side(&self.record.board, Side::Black);
    }
}

impl Assistant {
    /// Records a legal move played on the board and refreshes the hints.
    fn play_legal(&mut self, mv: Move)
        requires
            old(self)@.wf(),
            spec_validate(old(self).record.board, mv) is Ok,
        ensures
            final(self)@ == old(self)@.played(mv),
            final(self)@.wf(),
    {
        proof {
            lemma_legal_move_shape(self.record.board, mv);
        }
        match self.record.board.apply_move_if_legal(mv) {
            Ok(outcome) => {
                self.record.history.push(outcome);
                self.redo_stack.clear();
                self.suggested_move = None;
                self.refresh_tips();
            },
            Err(_) => {},
        }
    }

    /// Asks for analysis unless a request is already running.
    pub fn request_engine(&self, purpose: EnginePurpose) -> (e: Effect)
        ensures
            e == self@.request_engine(purpose).1,
    {
        if self.engine.busy {
            Effect::Idle
        } else {
            Effect::Engine(purpose)
        }
    }

    /// The engine side plays the first legal move (used when no engine
    /// answer can be had).
    pub fn apply_fallback_ai_move(&mut self)
        requires
            old(self)@.wf(),
        ensures
            final(self)@ == old(self)@.fallback_ai(),
            final(self)@.wf(),
    {
        proof {
            reveal(first_legal);
        }
        let mv = match pick_first_legal_move(&self.record.board) {
            Some(mv) => mv,
            None => {
                self.status = text("AI 无合法走法");
                return;
            },
        };
        proof {
            lemma_legal_moves_exact(self.record.board, mv);
            lemma_legal_move_shape(self.record.board, mv);
        }
        self.play_legal(mv);
        self.status = status_with("AI 落子：", mv.to_iccs().as_str());
    }

    /// Lets the engine side move: through the engine when it is enabled,
    /// otherwise with the first legal move.
    pub fn request_ai_move(&mut self) -> (e: Effect)
        requires
            old(self)@.wf(),
        ensures
            (final(self)@, e) == old(self)@.request_ai(),
            final(self)@.wf(),
    {
        if self.engine.enabled {
            return self.request_engine(EnginePurpose::AiMove);
        }
        self.apply_fallback_ai_move();
        Effect::Idle
    }

    /// Lets the engine side move when it is its turn.
    pub fn maybe_trigger_ai_turn(&mut self) -> (e: Effect)
        requires
            old(self)@.wf(),
        ensures
            (final(self)@, e) == old(self)@.ai_turn(),
            final(self)@.wf(),
    {
        match self.mode.ai_side() {
            Some(side) => if side == self.record.board.side_to_move {
                self.request_ai_move()
            } else {
                Effect::Idle
            },
            None => Effect::Idle,
        }
    }

    /// A hint: from the engine when it is enabled, otherwise the first legal move.
    pub fn request_hint(&mut self) -> (e: Effect)
        requires
            old(self)@.wf(),
        ensures
            (final(self)@, e) == old(self)@.hint(),
            final(self)@.wf(),
    {
        if self.engine.enabled {
            return self.request_engine(EnginePurpose::Hint);
        }
        proof {
            reveal(first_legal);
        }
        let first = pick_first_legal_move(&self.record.board);
        self.suggested_move = first;
        match first {
            Some(mv) => {
                proof {
                    lemma_legal_moves_exact(self.record.board, mv);
                    lemma_legal_move_shape(self.record.board, mv);
                }
                self.status = status_with("提示走法：", mv.to_iccs().as_str());
            },
            None => {
                self.status = text("暂无可用走法");
            },
        }
        Effect::Idle
    }

    /// Starts a new game from the opening.
    pub fn reset_game(&mut self) -> (e: Effect)
        requires
            old(self)@.wf(),
        ensures
            (final(self)@, e) == old(self)@.reset(),
            final(self)@.wf(),
    {
        self.record = GameRecord::startpos();
        proof {
            lemma_opening(self.record.board);
            assert(self.record.history@ =~= Seq::<MoveOutcome>::empty());
        }
        self.redo_stack.clear();
        self.selection = None;
        self.suggested_move = None;
        self.pace.last_tick_ms = None;
        self.status = text("已开新局");
        self.refresh_tips();
        self.maybe_trigger_ai_turn()
    }

    /// Takes back the last move.
    pub fn undo(&mut self)
        requires
            old(self)@.wf(),
        ensures
            final(self)@ == old(self)@.undo(),
            final(self)@.wf(),
    {
        if !undo_move(&mut self.record, &mut self.redo_stack) {
            self.status = text("无可悔棋");
            return;
        }
        self.selection = None;
        self.suggested_move = None;
        self.status = text("已悔棋");
        self.refresh_tips();
    }

    /// Replays the last move taken back.
    pub fn redo(&mut self)
        requires
            old(self)@.wf(),
        ensures
            final(self)@ == old(self)@.redo_step(),
            final(self)@.wf(),
    {
        match redo_move(&mut self.record, &mut self.redo_stack) {
            None => {
                self.status = text("无可前进");
                return;
            },
            Some(true) => {
                self.status = text("已前进");
            },
            Some(false) => {
                self.status = text("前进失败");
            },
        }
        self.selection = None;
        self.suggested_move = None;
        self.refresh_tips();
    }
}

impl Assistant {
    /// A click on a square of the board.
    pub fn handle_cell_press(&mut self, pos: Pos) -> (e: Effect)
        requires
            old(self)@.wf(),
            pos.spec_in_bounds(),
        ensures
            (final(self)@, e) == old(self)@.press(pos),
            final(self)@.wf(),
    {
        match press_cell(self.mode, &self.record.board, self.selection, pos, self.link_running) {
            CellPress::NotAllowed => {
                self.status = text("当前模式不允许手动落子");
                Effect::Idle
            },
            CellPress::Deselect => {
                self.selection = None;
                Effect::Idle
            },
            CellPress::Inject(mv) => {
                self.selection = None;
                self.status = text("正在注入外部落子...");
                Effect::Inject(mv)
            },
            CellPress::Play(mv) => match check_move_legality(&self.record.board, mv) {
                MoveLegality::Legal => {
                    self.play_legal(mv);
                    self.selection = None;
                    self.status = status_with("已落子：", mv.to_iccs().as_str());
                    match self.mode.ai_side() {
                        Some(side) => if side == self.record.board.side_to_move {
                            self.request_ai_move()
                        } else {
                            Effect::Idle
                        },
                        None => Effect::Idle,
                    }
                },
                MoveLegality::Illegal(err) => {
                    self.status = status_with("非法走子：", err.message().as_str());
                    Effect::Idle
                },
            },
            CellPress::Select(p) => {
                self.selection = Some(p);
                self.status = status_with("已选择 ", p.to_iccs_square().as_str());
                Effect::Idle
            },
            CellPress::NotOwnPiece => {
                self.status = text("请选择己方棋子");
                Effect::Idle
            },
            CellPress::EmptySquare => {
                self.status = text("该位置无棋子");
                Effect::Idle
            },
        }
    }

    /// A finished analysis: the hint, the engine side's move, or the
    /// analysed best move, and the error (if any) on the status line.
    pub fn engine_finished(&mut self, result: EngineResult)
        requires
            old(self)@.wf(),
            result.analysis.bestmove matches Some(m) ==> printable(m),
        ensures
            final(self)@ == old(self)@.finished(result.purpose, result.analysis@),
            final(self)@.wf(),
    {
        self.engine.busy = false;
        let purpose = result.purpose;
        let analysis = result.analysis;
        let bestmove = analysis.bestmove;
        let error_line: Option<String> = match &analysis.error {
            Some(e) => Some(status_with("引擎错误：", e.as_str())),
            None => None,
        };
        self.last_analysis = Some(analysis);
        if let Some(line) = error_line {
            self.status = line;
        }
        match purpose {
            EnginePurpose::Hint => {
                self.suggested_move = bestmove;
                if let Some(mv) = bestmove {
                    self.status = status_with("提示走法：", mv.to_iccs().as_str());
                }
            },
            EnginePurpose::AiMove => match bestmove {
                Some(mv) => match check_move_legality(&self.record.board, mv) {
                    MoveLegality::Legal => {
                        self.play_legal(mv);
                        self.status = status_with("AI 落子：", mv.to_iccs().as_str());
                    },
                    MoveLegality::Illegal(err) => {
                        self.status = status_with("AI 落子失败：", err.message().as_str());
                        self.apply_fallback_ai_move();
                    },
                },
                None => self.apply_fallback_ai_move(),
            },
            EnginePurpose::Analysis => {
                if let Some(mv) = bestmove {
                    self.suggested_move = Some(mv);
                }
            },
        }
    }

    /// Stops linking (when running).
    pub fn stop_link(&mut self)
        requires
            old(self)@.wf(),
        ensures
            final(self)@ == old(self)@.stop_link(),
            final(self)@.wf(),
    {
        if self.link_running {
            self.link_running = false;
            self.link_last_error = None;
            self.status = text("连线已停止");
        }
    }

    fn enter_mode(&mut self, mode: Mode)
        requires
            old(self)@.wf(),
        ensures
            final(self)@ == old(self)@.entered(mode),
            final(self)@.wf(),
    {
        self.mode = mode;
        self.selection = None;
        self.suggested_move = None;
        self.pace.paused = false;
        self.pace.last_tick_ms = None;
        proof {
            assert(self@.history == old(self)@.history);
            assert(self@.redo == old(self)@.redo);
        }
        match mode {
            Mode::LinkAnalysis | Mode::LinkBattle => {},
            _ => self.stop_link(),
        }
        if !mode.allows_flip() {
            self.panel.flip_board = false;
        }
    }

    /// Changes the play mode.
    pub fn switch_mode(&mut self, mode: Mode) -> (e: Effect)
        requires
            old(self)@.wf(),
        ensures
            (final(self)@, e) == old(self)@.switch_mode(mode),
            final(self)@.wf(),
    {
        if self.mode == mode {
            return Effect::Idle;
        }
        self.enter_mode(mode);
        let e = if !self.panel.preserve_on_mode_switch {
            self.reset_game()
        } else {
            self.refresh_tips();
            self.maybe_trigger_ai_turn()
        };
        self.status = status_with("已切换模式：", mode.label());
        e
    }

    /// Turns the board round (where the mode allows it).
    pub fn toggle_flip(&mut self)
        requires
            old(self)@.wf(),
        ensures
            final(self)@ == old(self)@.toggle_flip(),
            final(self)@.wf(),
    {
        if self.mode.allows_flip() {
            self.panel.flip_board = !self.panel.flip_board;
            self.status = if self.panel.flip_board {
                text("棋盘已反转")
            } else {
                text("棋盘已恢复")
            };
        }
    }

    /// Shows or hides the side panel.
    pub fn toggle_sidebar(&mut self)
        ensures
            final(self)@ == (AView {
                panel: Panel { sidebar_collapsed: !old(self)@.panel.sidebar_collapsed, ..old(self)@.panel },
                ..old(self)@
            }),
    {
        self.panel.sidebar_collapsed = !self.panel.sidebar_collapsed;
    }

    /// Shows a tab of the side panel.
    pub fn select_tab(&mut self, tab: SidebarTab)
        ensures
            final(self)@ == (AView { panel: Panel { tab, ..old(self)@.panel }, ..old(self)@ }),
    {
        self.panel.tab = tab;
    }

    /// Turns the move hints on or off.
    pub fn set_learning(&mut self, enabled: bool)
        requires
            old(self)@.wf(),
        ensures
            final(self)@ == old(self)@.set_learning(enabled),
            final(self)@.wf(),
    {
        self.learning_enabled = enabled;
        self.refresh_tips();
        self.status = if enabled {
            text("学习提示已开启")
        } else {
            text("学习提示已关闭")
        };
    }

    /// Pauses or resumes engine-against-engine play.
    pub fn toggle_ai_pause(&mut self)
        requires
            old(self)@.wf(),
        ensures
            final(self)@ == old(self)@.toggle_pause(),
            final(self)@.wf(),
    {
        if let Mode::AiVsAi = self.mode {
            self.pace.paused = !self.pace.paused;
            self.status = if self.pace.paused {
                text("AI 已暂停")
            } else {
                text("AI 已继续")
            };
        }
    }

    /// Plays one engine move in engine-against-engine play.
    pub fn ai_step(&mut self) -> (e: Effect)
        requires
            old(self)@.wf(),
        ensures
            (final(self)@, e) == if old(self)@.mode is AiVsAi {
                old(self)@.request_ai()
            } else {
                (old(self)@, Effect::Idle)
            },
            final(self)@.wf(),
    {
        if let Mode::AiVsAi = self.mode {
            return self.request_ai_move();
        }
        Effect::Idle
    }

    fn set_pace(&mut self, ms: u64)
        ensures
            final(self)@ == old(self)@.paced(ms),
    {
        self.pace.interval_ms = ms;
        let mut line = String::new();
        push_str(&mut line, "AI 速度：");
        push_dec(&mut line, ms);
        push_str(&mut line, "ms/步");
        self.status = line;
    }

    /// Engine-against-engine play 80 ms per move faster.
    pub fn ai_speed_up(&mut self)
        requires
            old(self)@.wf(),
        ensures
            final(self)@ == if old(self)@.mode is AiVsAi {
                old(self)@.paced(clamp_interval(
                    if old(self)@.pace.interval_ms >= 80 { old(self)@.pace.interval_ms - 80 } else { 0 },
                ) as u64)
            } else {
                old(self)@
            },
            final(self)@.wf(),
    {
        if let Mode::AiVsAi = self.mode {
            let ms = faster_interval(self.pace.interval_ms);
            self.set_pace(ms);
        }
    }

    /// Engine-against-engine play 120 ms per move slower.
    pub fn ai_speed_down(&mut self)
        requires
            old(self)@.wf(),
        ensures
            final(self)@ == if old(self)@.mode is AiVsAi {
                old(self)@.paced(clamp_interval(
                    if old(self)@.pace.interval_ms + 120 <= u64::MAX {
                        old(self)@.pace.interval_ms + 120
                    } else {
                        old(self)@.pace.interval_ms + 120 - 0x1_0000_0000_0000_0000
                    },
                ) as u64)
            } else {
                old(self)@
            },
            final(self)@.wf(),
    {
        if let Mode::AiVsAi = self.mode {
            let ms = slower_interval(self.pace.interval_ms);
            self.set_pace(ms);
        }
    }

    /// A clock tick at `now_ms` (milliseconds of a monotonic clock).
    pub fn tick(&mut self, now_ms: u64) -> (e: Effect)
        requires
            old(self)@.wf(),
        ensures
            (final(self)@, e) == old(self)@.tick(now_ms),
            final(self)@.wf(),
    {
        if let Mode::AiVsAi = self.mode {
            if !self.pace.paused {
                let due = match self.pace.last_tick_ms {
                    Some(last) => now_ms.saturating_sub(last) >= self.pace.interval_ms,
                    None => true,
                };
                if due {
                    self.pace.last_tick_ms = Some(now_ms);
                    proof {
                        assert(self@.history == old(self)@.history);
                        assert(self@.redo == old(self)@.redo);
                    }
                    return self.request_ai_move();
                }
            }
        }
        Effect::Idle
    }

    /// Turns the local engine on or off.
    pub fn set_engine_enabled(&mut self, enabled: bool)
        ensures
            final(self)@ == old(self)@.set_engine(enabled),
    {
        self.engine.enabled = enabled;
        self.status = if enabled {
            text("引擎已启用")
        } else {
            text("引擎已关闭")
        };
    }

    /// Turns the cloud book on or off.
    pub fn set_cloud_enabled(&mut self, enabled: bool)
        ensures
            final(self)@ == old(self)@.set_cloud(enabled),
    {
        self.engine.cloud = enabled;
        self.status = if enabled {
            text("云库已启用")
        } else {
            text("云库已关闭")
        };
    }

    /// The caller started an analysis request.
    pub fn engine_started(&mut self)
        ensures
            final(self)@ == (AView { engine: EngineSwitches { busy: true, ..old(self)@.engine }, ..old(self)@ }),
    {
        self.engine.busy = true;
    }

    /// The caller could not start the engine (its files are missing).
    pub fn engine_unavailable(&mut self)
        ensures
            final(self)@ == old(self)@.said("引擎资源不可用"@),
    {
        self.status = text("引擎资源不可用");
    }

    /// The list of windows (or why it could not be read).
    pub fn windows_loaded(&mut self, result: Result<Vec<LinkWindowInfo>, String>)
        ensures
            final(self)@ == old(self)@.windows_loaded(
                match result {
                    Ok(list) => Ok(list@.map_values(|i: LinkWindowInfo| i@)),
                    Err(e) => Err(e@),
                },
            ),
    {
        match result {
            Ok(list) => {
                let mut windows: Vec<WindowOption> = Vec::new();
                let n = list.len();
                let mut i: usize = 0;
                while i < n
                    invariant
                        n == list@.len(),
                        i <= n,
                        windows@.map_values(|w: WindowOption| w@) =~= list@.map_values(
                            |x: LinkWindowInfo| x@,
                        ).take(i as int),
                    decreases n - i,
                {
                    let w = WindowOption::new(list[i].copy());
                    let ghost before = windows@;
                    windows.push(w);
                    proof {
                        assert(windows@.map_values(|w: WindowOption| w@) =~= before.map_values(
                            |w: WindowOption| w@,
                        ).push(w@));
                        assert(list@.map_values(|x: LinkWindowInfo| x@).take(i + 1) =~= list@.map_values(
                            |x: LinkWindowInfo| x@,
                        ).take(i as int).push(list@[i as int]@));
                    }
                    i += 1;
                }
                proof {
                    assert(list@.map_values(|x: LinkWindowInfo| x@).take(n as int) =~= list@.map_values(
                        |x: LinkWindowInfo| x@,
                    ));
                }
                if self.selected_window.is_none() {
                    self.selected_window = if windows.len() > 0 {
                        Some(windows[0].copy())
                    } else {
                        None
                    };
                }
                let mut line = String::new();
                push_str(&mut line, "已加载 ");
                push_dec(&mut line, windows.len() as u64);
                push_str(&mut line, " 个窗口");
                self.link_windows = windows;
                self.status = line;
            },
            Err(e) => {
                self.link_windows = Vec::new();
                self.selected_window = None;
                self.status = status_with("窗口枚举失败：", e.as_str());
                proof {
                    assert(self@.windows =~= Seq::<LinkWindowView>::empty());
                }
            },
        }
    }

    /// Picks the window to link with.
    pub fn select_window(&mut self, option: WindowOption)
        ensures
            final(self)@ == (AView { selected: Some(option@), ..old(self)@ }),
    {
        self.selected_window = Some(option);
    }

    /// Starts or stops linking; starting needs a selected window.
    pub fn toggle_link(&mut self) -> (e: Effect)
        requires
            old(self)@.wf(),
        ensures
            (final(self)@, e) == old(self)@.toggle_link(),
            final(self)@.wf(),
    {
        if self.link_running {
            self.stop_link();
            return Effect::Idle;
        }
        if self.selected_window.is_none() {
            self.status = text("未选择外部窗口");
            return Effect::Idle;
        }
        Effect::StartLink
    }

    /// The caller started linking.
    pub fn link_started(&mut self)
        ensures
            final(self)@ == (AView { link_running: true, link_error: None, status: "连线已启动"@, ..old(self)@ }),
    {
        self.link_running = true;
        self.link_last_error = None;
        self.status = text("连线已启动");
    }

    /// The caller could not start linking.
    pub fn link_failed(&mut self, failure: LinkFailure)
        ensures
            final(self)@ == old(self)@.said(link_failure_text(failure)),
    {
        self.status = match &failure {
            LinkFailure::NoResources => text("模型资源不可用，无法连线"),
            LinkFailure::OpenWindow(d) => status_with("打开窗口失败：", d.as_str()),
            LinkFailure::LoadModel(d) => status_with("加载模型失败：", d.as_str()),
        };
    }

    /// The link runtime is gone.
    pub fn link_lost(&mut self)
        ensures
            final(self)@ == (AView { link_running: false, ..old(self)@ }),
    {
        self.link_running = false;
    }

    /// A capture of the linked window failed.
    pub fn link_tick_failed(&mut self, err: String)
        ensures
            final(self)@ == (AView {
                link_error: Some(err@),
                status: "连线失败："@ + err@,
                ..old(self)@
            }),
    {
        self.status = status_with("连线失败：", err.as_str());
        self.link_last_error = Some(err);
    }

    /// Follows an update of the linked window in the game record; `true`
    /// when the record changed.
    fn follow_external(&mut self, update: ExternalUpdate, board: Board) -> (changed: bool)
        requires
            old(self)@.wf(),
            update_on_board(update),
        ensures
            changed == !(update is NoChange),
            final(self)@ == old(self)@.external(update, board),
            final(self)@.wf(),
    {
        let no_change = match &update {
            ExternalUpdate::NoChange => true,
            _ => false,
        };
        let changed = apply_external_update(&mut self.record, &mut self.redo_stack, update, board);
        if changed {
            proof {
                assert(self.record.history@.len() == 0 ==> self.record.history@ =~= Seq::<MoveOutcome>::empty());
                assert(self.redo_stack@ =~= Seq::<MoveOutcome>::empty());
            }
            self.refresh_tips();
        }
        changed
    }

    /// A capture of the linked window went through: the orientation it
    /// showed (when recognised) and the synchronisation update with the
    /// synchronised local board (when confirmed).
    pub fn link_tick(&mut self, flipped: Option<bool>, update: Option<ExternalUpdate>, board: Board) -> (e: Effect)
        requires
            old(self)@.wf(),
            update matches Some(u) ==> update_on_board(u),
        ensures
            (final(self)@, e) == old(self)@.link_tick(flipped, update, board),
            final(self)@.wf(),
    {
        self.link_last_error = None;
        if let Some(f) = flipped {
            match self.mode {
                Mode::LinkAnalysis | Mode::LinkBattle => {
                    self.panel.flip_board = f;
                },
                _ => {},
            }
        }
        if let Some(u) = update {
            let changed = self.follow_external(u, board);
            if changed && self.engine.enabled {
                return self.request_engine(EnginePurpose::Analysis);
            }
        }
        Effect::Idle
    }

    /// What injecting `mv` into the linked window gave, with the
    /// synchronised local board.
    pub fn injected(&mut self, mv: Move, result: Result<InjectResult, String>, board: Board)
        requires
            old(self)@.wf(),
            printable(mv),
            result matches Ok(r) ==> (r.update matches Some(u) ==> update_on_board(u)),
        ensures
            final(self)@ == old(self)@.injected(
                mv,
                match result {
                    Ok(r) => Ok((r.confirmed, r.update)),
                    Err(e) => Err(e@),
                },
                board,
            ),
            final(self)@.wf(),
    {
        match result {
            Ok(r) => {
                if let Some(u) = r.update {
                    self.follow_external(u, board);
                }
                self.status = match r.confirmed {
                    Some(true) => status_with("已注入走法：", mv.to_iccs().as_str()),
                    Some(false) => text("注入确认失败，请检查外部棋盘"),
                    None => text("注入完成，等待外部确认"),
                };
            },
            Err(e) => {
                self.status = status_with("注入失败：", e.as_str());
            },
        }
    }

    /// A move was to be injected while no link is running.
    pub fn inject_unavailable(&mut self)
        ensures
            final(self)@ == old(self)@.said("连线未启动"@),
    {
        self.status = text("连线未启动");
    }
}

/// Any board that is the standard opening is `opening()`.
proof fn lemma_opening(b: Board)
    requires
        b.is_startpos(),
    ensures
        b == opening(),
{
    let o = opening();
    assert(o.is_startpos());
    assert forall|r: int, c: int| 0 <= r < 10 && 0 <= c < 9 implies #[trigger] o.at(r, c) == b.at(r, c) by {
        assert(o.at(r, c) == crate::types::startpos_cell(r, c));
        assert(b.at(r, c) == crate::types::startpos_cell(r, c));
    }
    lemma_board_ext(o, b);
}

/// Taking back a move just played gives back the board and the record from
/// before it, with the move kept for redoing; redoing it then gives back the
/// board and the record after it.
pub proof fn lemma_undo_then_redo(v: AView, mv: Move)
    requires
        v.wf(),
        spec_validate(v.board, mv) is Ok,
    ensures
        v.played(mv).undo().board == v.board,
        v.played(mv).undo().history == v.history,
        v.played(mv).undo().redo == seq![outcome_of(v.board, mv)],
        v.played(mv).undo().redo_step().board == v.played(mv).board,
        v.played(mv).undo().redo_step().history == v.played(mv).history,
        v.played(mv).undo().redo_step().redo.len() == 0,
{
    lemma_undo_restores(v.board, mv);
    lemma_redo_after_undo(v.board, mv);
    let p = v.played(mv);
    assert(p.history.drop_last() =~= v.history);
    assert(Seq::<MoveOutcome>::empty().push(outcome_of(v.board, mv)) =~= seq![outcome_of(v.board, mv)]);
    assert(p.undo().redo.drop_last() =~= Seq::<MoveOutcome>::empty());
}

} // verus!
