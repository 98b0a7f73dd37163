use xiangqi_assistant::engine::chessdb::{build_request, parse_body, url_encode};
use xiangqi_assistant::engine::session::{is_handshake_ack, is_ready_ack};
use xiangqi_assistant::{
    engine_healthcheck, parse_engine_line, ChessDbResponse, EngineEvent, EngineProfile,
    EngineProtocol, EngineScore, Move, SearchParams,
};

#[test]
fn raw_line_accessor_is_stable() {
    let evt = EngineEvent::RawLine("readyok".to_string());
    assert_eq!(evt.raw_line(), "readyok");
}

#[test]
fn url_encode_preserves_safe_chars() {
    assert_eq!(url_encode("abcXYZ-_.~"), "abcXYZ-_.~");
}

#[test]
fn url_encode_encodes_spaces() {
    assert_eq!(url_encode("a b"), "a%20b");
}

#[test]
fn url_encode_encodes_slashes_and_utf8_bytes() {
    assert_eq!(url_encode("9/9 w"), "9%2F9%20w");
    assert_eq!(url_encode("é"), "%C3%A9");
}

#[test]
fn engine_healthcheck_returns_ok() {
    assert_eq!(engine_healthcheck(), "xq-engine/ok");
}

#[test]
fn parse_info_extracts_score_and_pv() {
    let line = "info depth 12 score cp 34 time 120 nodes 4096 pv h2e2 h9e9";
    let event = parse_engine_line(EngineProtocol::Uci, line).expect("parses");

    match event {
        EngineEvent::Info(info) => {
            assert_eq!(info.depth, Some(12));
            assert_eq!(info.time_ms, Some(120));
            assert_eq!(info.nodes, Some(4096));
            assert_eq!(info.score, Some(EngineScore::Cp(34)));
            assert_eq!(info.pv_raw.len(), 2);
            assert_eq!(info.pv.len(), 2);
        }
        _ => panic!("expected an info event"),
    }
}

#[test]
fn parse_bestmove_handles_none() {
    let event = parse_engine_line(EngineProtocol::Uci, "bestmove 0000").expect("parses");
    match event {
        EngineEvent::BestMove(bm) => {
            assert!(bm.bestmove.is_none());
            assert_eq!(bm.bestmove_raw, "0000");
        }
        _ => panic!("expected a bestmove event"),
    }
}

#[test]
fn parse_bestmove_with_ponder() {
    let event = parse_engine_line(EngineProtocol::Uci, "bestmove h2e2 ponder h9g7").expect("parses");
    match event {
        EngineEvent::BestMove(bm) => {
            assert_eq!(bm.bestmove, Some(Move::from_iccs("h2e2").unwrap()));
            assert_eq!(bm.ponder, Some(Move::from_iccs("h9g7").unwrap()));
        }
        _ => panic!("expected a bestmove event"),
    }
}

#[test]
fn parse_mate_score_and_other_lines() {
    match parse_engine_line(EngineProtocol::Uci, "info depth 3 score mate -2").unwrap() {
        EngineEvent::Info(info) => assert_eq!(info.score, Some(EngineScore::Mate(-2))),
        _ => panic!("expected an info event"),
    }
    assert!(parse_engine_line(EngineProtocol::Uci, "   ").is_none());
    match parse_engine_line(EngineProtocol::Uci, "readyok").unwrap() {
        EngineEvent::RawLine(l) => assert_eq!(l, "readyok"),
        _ => panic!("expected a raw line"),
    }
}

#[test]
fn go_command_maps_movetime_by_protocol() {
    let params = SearchParams::with_movetime(1500);
    assert_eq!(params.to_go_command(EngineProtocol::Uci), "go movetime 1500");
    assert_eq!(params.to_go_command(EngineProtocol::Ucci), "go time 1500");
}

#[test]
fn go_command_with_depth() {
    assert_eq!(SearchParams::with_depth(12).to_go_command(EngineProtocol::Uci), "go depth 12");
}

#[test]
fn profile_generates_setoption_commands() {
    let profile = EngineProfile::new("test", EngineProtocol::Uci, "/bin/true")
        .with_threads(4)
        .with_hash_mb(256)
        .with_extra_option("MultiPV", "3");

    let cmds = profile.to_setoption_commands();
    assert!(cmds.iter().any(|c| c == "setoption name Threads value 4"));
    assert!(cmds.iter().any(|c| c == "setoption name Hash value 256"));
    assert!(cmds.iter().any(|c| c == "setoption name MultiPV value 3"));
}

#[test]
fn protocol_as_str_is_stable() {
    assert_eq!(EngineProtocol::Uci.as_str(), "uci");
    assert_eq!(EngineProtocol::Ucci.as_str(), "ucci");
}

#[test]
fn handshake_acks() {
    assert!(is_handshake_ack(EngineProtocol::Uci, "uciok"));
    assert!(is_handshake_ack(EngineProtocol::Ucci, "ucciok"));
    assert!(!is_handshake_ack(EngineProtocol::Uci, "ucciok"));
    assert!(is_ready_ack("readyok"));
    assert!(!is_ready_ack("ready"));
}

#[test]
fn chessdb_body_is_parsed() {
    assert_eq!(parse_body("  "), ChessDbResponse::NotResult);
    assert_eq!(parse_body("Unknown"), ChessDbResponse::NotResult);
    assert_eq!(parse_body("checkmate"), ChessDbResponse::InvalidBoard("checkmate".to_string()));
    match parse_body("score:35,depth:22,pv:h2e2|h9g7| |zz") {
        ChessDbResponse::Hit(hit) => {
            assert_eq!(hit.score, Some(35));
            assert_eq!(hit.depth, Some(22));
            assert_eq!(hit.pv_raw, vec!["h2e2".to_string(), "h9g7".to_string(), "zz".to_string()]);
            assert_eq!(hit.pv.len(), 2);
            let info = hit.to_engine_info();
            assert_eq!(info.score, Some(EngineScore::Cp(35)));
            assert_eq!(info.depth, Some(22));
        }
        other => panic!("expected a hit, got {other:?}"),
    }
}

#[test]
fn chessdb_request_is_built() {
    let req = build_request("www.chessdb.cn", "9/9 w");
    assert!(req.starts_with("GET /chessdb.php?action=querypv&board=9%2F9%20w HTTP/1.1\r\nHost: www.chessdb.cn\r\n"));
    assert!(req.ends_with("Connection: close\r\n\r\n"));
}
