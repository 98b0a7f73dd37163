use xiangqi_assistant::engine::query::{parse_line, EngineConfig, QueryResult, QueryState};
use xiangqi_assistant::resources::{missing_entry, platform_pikafish_bin_name, ResourceCheckReport};

#[test]
fn platform_bin_name_is_defined() {
    for os in ["macos", "linux", "windows", "freebsd", ""] {
        assert!(!platform_pikafish_bin_name(os).is_empty());
    }
}

#[test]
fn platform_bin_names() {
    assert_eq!(platform_pikafish_bin_name("linux"), "pikafish-linux");
    assert_eq!(platform_pikafish_bin_name("windows"), "pikafish-windows.exe");
    assert_eq!(platform_pikafish_bin_name("macos"), "pikafish-macos");
    assert_eq!(platform_pikafish_bin_name("haiku"), "pikafish-unknown");
}

#[test]
fn resource_report() {
    let report = ResourceCheckReport::from_error("no root".to_string());
    assert!(!report.has_missing());
    assert_eq!(report.error.as_deref(), Some("no root"));
    assert_eq!(missing_entry("large.onnx", "/x/large.onnx"), "large.onnx (/x/large.onnx)");
}

#[test]
fn query_line_is_read() {
    let mut r = QueryResult::default();
    assert_eq!(r.state, QueryState::NotResult);
    parse_line(
        "info depth 18 seldepth 25 multipv 1 score cp -35 nodes 1000 nps 2000 time 500 wdl 100 800 100 pv h2e2 h9g7",
        &mut r,
    );
    assert_eq!(r.depth, 18);
    assert_eq!(r.score, -35);
    assert_eq!(r.time, 500);
    assert_eq!(r.nodes, 1000);
    assert_eq!(r.nps, 2000);
    assert_eq!(r.wdl, Some([100, 800, 100]));
    assert_eq!(r.pvs, vec!["h2e2".to_string(), "h9g7".to_string()]);
    assert_eq!(r.source, "引擎");
}

#[test]
fn query_mate_scores() {
    let mut r = QueryResult::default();
    parse_line("info depth 5 score mate 3", &mut r);
    assert_eq!(r.score, 29997);
    parse_line("info depth 5 score mate -2", &mut r);
    assert_eq!(r.score, -29998);
    parse_line("info nodes x nps", &mut r);
    assert_eq!(r.nodes, 0);
    assert_eq!(r.nps, 0);
}

#[test]
fn engine_config_defaults() {
    let c = EngineConfig::default();
    assert_eq!((c.depth, c.time, c.threads, c.hash), (20, 5000, 4, 64));
    assert!(!c.show_wdl);
    assert!(c.chessdb_enabled);
    assert_eq!(c.chessdb_timeout, 5);
}
