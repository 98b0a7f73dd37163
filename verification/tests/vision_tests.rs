use xiangqi_assistant::vision::crop::CropRegion;
use xiangqi_assistant::vision::observation::{
    grid_from_detections, observation_from_grid, BoardObservation, Camp, GridDetection, RawGrid,
    VisionError,
};
use xiangqi_assistant::vision::stability::{
    RejectReason, StabilityDecision, StabilityFilter, StabilitySettings,
};
use xiangqi_assistant::vision::{vision_healthcheck, ImageFile, ModelKind};
use xiangqi_assistant::{Board, Move, Piece, PieceKind, Pos, Side};

fn pos(file: u8, rank: u8) -> Pos {
    Pos::new(file, rank).unwrap()
}

fn base_board() -> Board {
    let mut board = Board::empty(Side::Red);
    board.set(pos(4, 0), Some(Piece { side: Side::Red, kind: PieceKind::King }));
    board.set(pos(4, 9), Some(Piece { side: Side::Black, kind: PieceKind::King }));
    board.set(pos(0, 0), Some(Piece { side: Side::Red, kind: PieceKind::Rook }));
    board
}

fn obs_from_board(board: Board) -> BoardObservation {
    BoardObservation { camp: Camp::Unknown, flipped: false, raw_grid: [[None; 9]; 10], board }
}

#[test]
fn vision_healthcheck_returns_ok() {
    assert_eq!(vision_healthcheck(), "xq-vision/ok");
}

#[test]
fn first_observation_is_accepted() {
    let mut filter = StabilityFilter::new(StabilitySettings { one_changed_limit: 2 });
    let decision = filter.process(obs_from_board(base_board()));
    assert!(matches!(decision, StabilityDecision::Accepted(_)));
}

#[test]
fn move_candidate_is_accepted() {
    let mut filter = StabilityFilter::new(StabilitySettings::default());
    let first = obs_from_board(base_board());
    assert!(matches!(filter.process(first), StabilityDecision::Accepted(_)));

    let mut next_board = base_board();
    let mv = Move::new(pos(0, 0), pos(0, 1));
    next_board.apply_move_unchecked(mv).expect("move applies");
    next_board.side_to_move = Side::Red;

    let decision = filter.process(obs_from_board(next_board));
    assert!(matches!(decision, StabilityDecision::Accepted(_)));
}

#[test]
fn one_changed_triggers_reset_after_limit() {
    let mut filter = StabilityFilter::new(StabilitySettings { one_changed_limit: 2 });
    let base = base_board();
    let _ = filter.process(obs_from_board(base.clone()));

    let mut glitch = base.clone();
    glitch.set(pos(0, 0), Some(Piece { side: Side::Red, kind: PieceKind::Horse }));
    glitch.side_to_move = Side::Red;

    let first = filter.process(obs_from_board(glitch.clone()));
    assert!(matches!(first, StabilityDecision::Rejected(RejectReason::OneChanged { .. })));

    let second = filter.process(obs_from_board(glitch));
    assert!(matches!(second, StabilityDecision::Reset(RejectReason::OneChanged { .. })));
    assert!(filter.last_stable().is_none());
}

#[test]
fn stability_unchanged_and_invalid_diffs() {
    let mut filter = StabilityFilter::new(StabilitySettings::default());
    let base = base_board();
    filter.process(obs_from_board(base));
    let mut turned = base;
    turned.side_to_move = Side::Black;
    assert!(matches!(filter.process(obs_from_board(turned)), StabilityDecision::Unchanged(_)));
    assert_eq!(filter.last_stable().unwrap().board, turned);
    let empty = Board::empty(Side::Red);
    assert_eq!(
        filter.process(obs_from_board(empty)),
        StabilityDecision::Rejected(RejectReason::InvalidDiff {
            kind: xiangqi_assistant::BoardDiffKind::LessPieces
        })
    );
    assert_eq!(filter.last_stable().unwrap().board, turned);
    filter.reset();
    assert!(filter.last_stable().is_none());
    assert!(matches!(filter.process(obs_from_board(empty)), StabilityDecision::Accepted(_)));
}

#[test]
fn glitch_count_reported() {
    let mut filter = StabilityFilter::new(StabilitySettings::default());
    let base = base_board();
    filter.process(obs_from_board(base));
    let mut glitch = base;
    glitch.set(pos(0, 0), Some(Piece { side: Side::Red, kind: PieceKind::Cannon }));
    assert_eq!(
        filter.process(obs_from_board(glitch)),
        StabilityDecision::Rejected(RejectReason::OneChanged { count: 1, limit: 3 })
    );
    assert_eq!(
        filter.process(obs_from_board(glitch)),
        StabilityDecision::Rejected(RejectReason::OneChanged { count: 2, limit: 3 })
    );
    assert_eq!(
        filter.process(obs_from_board(glitch)),
        StabilityDecision::Reset(RejectReason::OneChanged { count: 3, limit: 3 })
    );
}

fn det(label: char, row: usize, col: usize) -> GridDetection {
    GridDetection { label, row, col }
}

#[test]
fn detections_require_board() {
    let err = grid_from_detections(&[det('K', 9, 4)]).expect_err("no board label");
    assert_eq!(err, VisionError::BoardNotFound);
}

#[test]
fn detections_off_grid_are_refused() {
    let err = grid_from_detections(&[det('0', 5, 4), det('K', 10, 4)]).unwrap_err();
    assert_eq!(err, VisionError::OutOfBounds { row: 10, col: 4 });
}

#[test]
fn red_bottom_maps_directly() {
    let (camp, grid) = grid_from_detections(&[det('0', 5, 4), det('K', 9, 4)]).unwrap();
    assert_eq!(camp, Camp::Red);
    let obs = observation_from_grid(camp, grid, Side::Red);
    assert!(!obs.flipped);
    let king = obs.board.get(pos(4, 0)).expect("red king on e0");
    assert_eq!(king.side, Side::Red);
}

#[test]
fn black_bottom_is_flipped() {
    let (camp, grid) = grid_from_detections(&[det('0', 5, 4), det('k', 9, 4)]).unwrap();
    assert_eq!(camp, Camp::Black);
    let obs = observation_from_grid(camp, grid, Side::Red);
    assert!(obs.flipped);
    let king = obs.board.get(pos(4, 9)).expect("black king moved to e9");
    assert_eq!(king.side, Side::Black);
    assert_eq!(obs.raw_grid[9][4], Some('k'));
}

#[test]
fn unknown_labels_are_ignored() {
    let mut grid: RawGrid = [[None; 9]; 10];
    grid[0][0] = Some('x');
    grid[0][1] = Some('r');
    let obs = observation_from_grid(Camp::Unknown, grid, Side::Black);
    assert_eq!(obs.board.get(pos(0, 9)), None);
    assert_eq!(obs.board.get(pos(1, 9)), Some(Piece { side: Side::Black, kind: PieceKind::Rook }));
    assert_eq!(obs.board.side_to_move, Side::Black);
    assert_eq!(obs.board.piece_count(), 1);
}

#[test]
fn crop_region_is_clamped() {
    let r = CropRegion { x: 50, y: 20, width: 100, height: 100 }.clamp_to(120, 60);
    assert_eq!(r, CropRegion { x: 50, y: 20, width: 70, height: 40 });
    let r = CropRegion { x: 500, y: 500, width: 0, height: 0 }.clamp_to(100, 80);
    assert_eq!(r, CropRegion { x: 99, y: 79, width: 1, height: 1 });
    let r = CropRegion { x: 5, y: 5, width: 10, height: 10 }.clamp_to(0, 0);
    assert_eq!(r, CropRegion { x: 0, y: 0, width: 1, height: 1 });
}

#[test]
fn model_kind_and_image_file() {
    assert_eq!(ModelKind::default(), ModelKind::Large);
    let f = ImageFile::new("board.png".to_string());
    assert_eq!(f.path(), "board.png");
    assert!(Camp::Black.is_black_bottom());
    assert!(!Camp::Red.is_black_bottom());
}
