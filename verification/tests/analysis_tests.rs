use xiangqi_assistant::analysis::{
    choose_ai_move, cloud_analysis, faster_interval, link_policy, purpose_movetime, slower_interval,
    EnginePurpose, EngineSource, SearchWatch, AI_DEFAULT_INTERVAL_MS,
};
use xiangqi_assistant::engine::chessdb::parse_body;
use xiangqi_assistant::game::{pick_first_legal_move, Mode};
use xiangqi_assistant::link::sync::SyncPolicy;
use xiangqi_assistant::{parse_engine_line, Board, ChessDbResponse, EngineProtocol, Move, Side};

#[test]
fn cloud_answers() {
    assert!(cloud_analysis(ChessDbResponse::NotResult).is_none());
    let refused = cloud_analysis(ChessDbResponse::InvalidBoard("checkmate".to_string())).unwrap();
    assert_eq!(refused.source, EngineSource::Cloud);
    assert_eq!(refused.error.as_deref(), Some("checkmate"));
    assert!(refused.bestmove.is_none());
    let hit = cloud_analysis(parse_body("score:12,depth:20,pv:h2e2|h9g7")).unwrap();
    assert_eq!(hit.bestmove, Some(Move::from_iccs("h2e2").unwrap()));
    assert_eq!(hit.info.unwrap().depth, Some(20));
    assert!(hit.error.is_none());
}

#[test]
fn search_watch_follows_events() {
    let mut w = SearchWatch::new();
    let info = parse_engine_line(EngineProtocol::Uci, "info depth 3 score cp 10 pv b2e2 h9g7").unwrap();
    assert!(!w.on_event(info));
    assert!(!w.on_event(parse_engine_line(EngineProtocol::Uci, "readyok").unwrap()));
    assert!(w.on_event(parse_engine_line(EngineProtocol::Uci, "bestmove (none)").unwrap()));
    assert_eq!(w.bestmove, Some(Move::from_iccs("b2e2").unwrap()));
    let mut w2 = SearchWatch::new();
    assert!(w2.on_event(parse_engine_line(EngineProtocol::Uci, "bestmove h2e2").unwrap()));
    assert_eq!(w2.bestmove, Some(Move::from_iccs("h2e2").unwrap()));
}

#[test]
fn ai_move_choice() {
    let board = Board::startpos();
    let good = Move::from_iccs("h2e2").unwrap();
    assert_eq!(choose_ai_move(&board, Some(good)), Some(good));
    let bad = Move::from_iccs("h2h8").unwrap();
    assert_eq!(choose_ai_move(&board, Some(bad)), pick_first_legal_move(&board));
    assert_eq!(choose_ai_move(&board, None), pick_first_legal_move(&board));
    assert_eq!(choose_ai_move(&Board::empty(Side::Red), None), None);
}

#[test]
fn pacing_and_policy() {
    assert_eq!(faster_interval(AI_DEFAULT_INTERVAL_MS), 340);
    assert_eq!(faster_interval(150), 120);
    assert_eq!(slower_interval(AI_DEFAULT_INTERVAL_MS), 540);
    assert_eq!(slower_interval(1450), 1500);
    assert_eq!(slower_interval(u64::MAX), 120);
    assert_eq!(purpose_movetime(EnginePurpose::Hint), 300);
    assert_eq!(purpose_movetime(EnginePurpose::AiMove), 500);
    assert_eq!(purpose_movetime(EnginePurpose::Analysis), 400);
    assert_eq!(link_policy(Mode::LinkAnalysis), SyncPolicy::ExternalDriven);
    assert_eq!(link_policy(Mode::LinkBattle), SyncPolicy::Bidirectional);
}
