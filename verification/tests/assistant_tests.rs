use xiangqi_assistant::analysis::{EngineAnalysis, EnginePurpose, EngineResult, EngineSource};
use xiangqi_assistant::assistant::dispatch::Message;
use xiangqi_assistant::assistant::{Assistant, Effect, LinkFailure};
use xiangqi_assistant::game::{Mode, ModeOption, SidebarTab, WindowOption};
use xiangqi_assistant::link::{InjectResult, InputPlan, LinkWindowInfo, ScreenPoint};
use xiangqi_assistant::{diff_boards, Board, ExternalUpdate, Move, Pos, Side};

fn sq(s: &str) -> Pos {
    Pos::from_iccs_square(s).unwrap()
}

fn offline() -> Assistant {
    let mut a = Assistant::new();
    a.set_engine_enabled(false);
    a
}

#[test]
fn starts_ready() {
    let a = Assistant::new();
    assert_eq!(a.status, "准备就绪");
    assert_eq!(a.mode, Mode::HumanVsAi { human_side: Side::Red });
    assert!(a.suggested_move.is_some());
    assert!(a.tips.red.is_some() && a.tips.black.is_some());
    assert_eq!(a.title(), "中国象棋助手 · 人机对弈");
    assert!(a.record.board == Board::startpos());
}

#[test]
fn select_then_play_lets_fallback_ai_answer() {
    let mut a = offline();
    assert_eq!(a.handle_cell_press(sq("h2")), Effect::Idle);
    assert_eq!(a.status, "已选择 h2");
    assert_eq!(a.handle_cell_press(sq("e2")), Effect::Idle);
    // The engine side answered at once with the first legal move.
    assert_eq!(a.record.history.len(), 2);
    assert!(a.status.starts_with("AI 落子："));
    assert_eq!(a.record.board.side_to_move, Side::Red);
}

#[test]
fn play_with_engine_asks_engine() {
    let mut a = Assistant::new();
    a.handle_cell_press(sq("h2"));
    assert_eq!(a.handle_cell_press(sq("e2")), Effect::Engine(EnginePurpose::AiMove));
    assert_eq!(a.status, "已落子：h2e2");
    a.engine_started();
    assert_eq!(a.request_hint(), Effect::Idle);
    a.engine_finished(EngineResult {
        purpose: EnginePurpose::AiMove,
        analysis: EngineAnalysis {
            source: EngineSource::Engine,
            bestmove: Some(Move::from_iccs("h9g7").unwrap()),
            info: None,
            error: None,
        },
    });
    assert_eq!(a.status, "AI 落子：h9g7");
    assert_eq!(a.record.history.len(), 2);
    assert!(!a.engine.busy);
}

#[test]
fn illegal_and_refused_clicks() {
    let mut a = offline();
    a.handle_cell_press(sq("h2"));
    a.handle_cell_press(sq("h8"));
    assert_eq!(a.status, "非法走子：不符合该棋子的移动规则：Cannon");
    assert_eq!(a.selection, Some(sq("h2")));
    a.handle_cell_press(sq("h2"));
    assert!(a.selection.is_none());
    a.handle_cell_press(sq("e4"));
    assert_eq!(a.status, "该位置无棋子");
    a.handle_cell_press(sq("e9"));
    assert_eq!(a.status, "请选择己方棋子");
    a.switch_mode(Mode::LinkAnalysis);
    a.handle_cell_press(sq("h2"));
    assert_eq!(a.status, "当前模式不允许手动落子");
}

#[test]
fn undo_redo_and_reset() {
    let mut a = Assistant::new();
    a.undo();
    assert_eq!(a.status, "无可悔棋");
    a.redo();
    assert_eq!(a.status, "无可前进");
    a.handle_cell_press(sq("h2"));
    a.handle_cell_press(sq("e2"));
    let after = a.record.board;
    a.undo();
    assert_eq!(a.status, "已悔棋");
    assert!(a.record.board == Board::startpos());
    a.redo();
    assert_eq!(a.status, "已前进");
    assert!(a.record.board == after);
    a.reset_game();
    assert_eq!(a.status, "已开新局");
    assert!(a.record.history.is_empty());
}

#[test]
fn mode_switches() {
    let mut a = Assistant::new();
    assert_eq!(a.switch_mode(Mode::HumanVsAi { human_side: Side::Red }), Effect::Idle);
    let e = a.switch_mode(Mode::HumanVsAi { human_side: Side::Black });
    assert_eq!(e, Effect::Engine(EnginePurpose::AiMove));
    assert_eq!(a.status, "已切换模式：人机对弈");
    a.toggle_flip();
    assert!(a.panel.flip_board);
    assert_eq!(a.status, "棋盘已反转");
    a.switch_mode(Mode::LinkBattle);
    assert!(!a.panel.flip_board);
    a.toggle_flip();
    assert!(!a.panel.flip_board);
}

#[test]
fn ai_vs_ai_controls() {
    let mut a = offline();
    a.switch_mode(Mode::AiVsAi);
    a.ai_speed_up();
    assert_eq!(a.pace.interval_ms, 340);
    assert_eq!(a.status, "AI 速度：340ms/步");
    a.ai_speed_down();
    assert_eq!(a.pace.interval_ms, 460);
    assert_eq!(a.tick(5), Effect::Idle);
    assert_eq!(a.record.history.len(), 1);
    assert_eq!(a.pace.last_tick_ms, Some(5));
    a.tick(100);
    assert_eq!(a.record.history.len(), 1);
    a.tick(465);
    assert_eq!(a.record.history.len(), 2);
    a.toggle_ai_pause();
    assert_eq!(a.status, "AI 已暂停");
    a.tick(10_000);
    assert_eq!(a.record.history.len(), 2);
}

#[test]
fn switches_and_windows() {
    let mut a = Assistant::new();
    a.set_learning(false);
    assert!(a.suggested_move.is_none());
    assert_eq!(a.status, "学习提示已关闭");
    a.set_cloud_enabled(false);
    assert_eq!(a.status, "云库已关闭");
    a.select_tab(SidebarTab::Tips);
    assert_eq!(a.panel.tab, SidebarTab::Tips);
    a.toggle_sidebar();
    assert!(a.panel.sidebar_collapsed);
    assert_eq!(a.toggle_link(), Effect::Idle);
    assert_eq!(a.status, "未选择外部窗口");
    let info = LinkWindowInfo { id: 1, title: "棋".to_string(), app_name: "x".to_string(), width: 10, height: 20 };
    a.windows_loaded(Ok(vec![info.clone()]));
    assert_eq!(a.status, "已加载 1 个窗口");
    assert_eq!(a.selected_window.as_ref().unwrap().info(), &info);
    a.select_window(WindowOption::new(info));
    assert_eq!(a.toggle_link(), Effect::StartLink);
    a.link_failed(LinkFailure::OpenWindow("gone".to_string()));
    assert_eq!(a.status, "打开窗口失败：gone");
    a.link_started();
    assert!(a.link_running);
    a.link_tick_failed("timeout".to_string());
    assert_eq!(a.status, "连线失败：timeout");
    assert_eq!(a.toggle_link(), Effect::Idle);
    assert_eq!(a.status, "连线已停止");
    a.windows_loaded(Err("denied".to_string()));
    assert!(a.link_windows.is_empty() && a.selected_window.is_none());
}

#[test]
fn link_updates_follow_the_game() {
    let mut a = Assistant::new();
    a.switch_mode(Mode::LinkAnalysis);
    let start = Board::startpos();
    let mut after = start;
    after.apply_move_unchecked(Move::from_iccs("h2e2").unwrap()).unwrap();
    let update = ExternalUpdate::CandidateMove { diff: diff_boards(&start, &after), applied_to_local: true };
    let e = a.link_tick(Some(true), Some(update), after);
    assert_eq!(e, Effect::Engine(EnginePurpose::Analysis));
    assert!(a.panel.flip_board);
    assert!(a.record.board == after);
    assert_eq!(a.record.history.len(), 1);
    assert_eq!(a.link_tick(None, Some(ExternalUpdate::NoChange), after), Effect::Idle);
}

#[test]
fn injection_reports() {
    let mut a = Assistant::new();
    let mv = Move::from_iccs("h2e2").unwrap();
    let plan = InputPlan { from: ScreenPoint { x: 1, y: 2 }, to: ScreenPoint { x: 3, y: 4 }, delay: std::time::Duration::from_millis(0) };
    a.injected(mv, Ok(InjectResult { plan, confirmed: Some(true), update: None }), Board::startpos());
    assert_eq!(a.status, "已注入走法：h2e2");
    a.injected(mv, Ok(InjectResult { plan, confirmed: Some(false), update: None }), Board::startpos());
    assert_eq!(a.status, "注入确认失败，请检查外部棋盘");
    a.injected(mv, Err("no window".to_string()), Board::startpos());
    assert_eq!(a.status, "注入失败：no window");
    a.inject_unavailable();
    assert_eq!(a.status, "连线未启动");
}

#[test]
fn messages_are_dispatched() {
    let mut a = Assistant::new();
    assert_eq!(a.update(Message::RequestWindowList), Effect::ListWindows);
    assert_eq!(a.update(Message::LinkTick), Effect::CaptureLink);
    assert_eq!(a.update(Message::CellPressed(sq("h2"))), Effect::Idle);
    assert_eq!(a.update(Message::CellPressed(sq("e2"))), Effect::Engine(EnginePurpose::AiMove));
    assert_eq!(a.update(Message::Undo), Effect::Idle);
    assert_eq!(a.status, "已悔棋");
    assert_eq!(a.update(Message::ToggleEngine(false)), Effect::Idle);
    assert_eq!(a.update(Message::Hint), Effect::Idle);
    assert!(a.status.starts_with("提示走法："));
    assert_eq!(a.update(Message::ModeSelected(ModeOption::AiVsAi)), Effect::Idle);
    assert_eq!(a.mode, Mode::AiVsAi);
}
