use xiangqi_assistant::game::{
    apply_external_update, generate_legal_moves, mode_options, pick_first_legal_move,
    pick_move_for_side, piece_label, press_cell, redo_move, side_label, undo_move, CellPress, Mode,
    ModeOption, SidebarTab, WindowOption,
};
use xiangqi_assistant::link::sync::ExternalUpdate;
use xiangqi_assistant::link::LinkWindowInfo;
use xiangqi_assistant::{
    check_move_legality, diff_boards, Board, GameRecord, Move, MoveLegality, Piece, PieceKind, Pos,
    Side,
};

#[test]
fn startpos_has_44_legal_moves() {
    let board = Board::startpos();
    let moves = generate_legal_moves(&board);
    assert_eq!(moves.len(), 44);
    for mv in &moves {
        assert_eq!(check_move_legality(&board, *mv), MoveLegality::Legal);
    }
    assert!(moves.contains(&Move::from_iccs("h2e2").unwrap()));
    // Scan order: rank 9 first, so Red's first move comes from its back rank pieces... row-major.
    assert_eq!(pick_first_legal_move(&board), Some(moves[0]));
}

#[test]
fn pick_move_for_side_uses_given_side() {
    let board = Board::startpos();
    let mv = pick_move_for_side(&board, Side::Black).expect("black has moves");
    let piece = board.get(mv.from).unwrap();
    assert_eq!(piece.side, Side::Black);
    assert_eq!(pick_first_legal_move(&Board::empty(Side::Red)), None);
}

#[test]
fn mode_round_trip_and_rules() {
    for opt in mode_options() {
        assert_eq!(ModeOption::from_mode(opt.to_mode()), opt);
    }
    assert_eq!(mode_options().len(), 5);
    let human_red = ModeOption::HumanRed.to_mode();
    assert_eq!(human_red, Mode::HumanVsAi { human_side: Side::Red });
    assert!(human_red.allows_manual_move(Side::Red));
    assert!(!human_red.allows_manual_move(Side::Black));
    assert_eq!(human_red.ai_side(), Some(Side::Black));
    assert!(human_red.allows_flip());
    assert!(!Mode::LinkAnalysis.allows_flip());
    assert!(Mode::LinkBattle.allows_manual_move(Side::Black));
    assert!(!Mode::AiVsAi.allows_manual_move(Side::Red));
    assert_eq!(Mode::AiVsAi.ai_side(), None);
    assert_eq!(human_red.label(), "人机对弈");
    assert_eq!(ModeOption::HumanBlack.label(), "人机对弈（我方黑）");
}

#[test]
fn labels() {
    assert_eq!(SidebarTab::Record.label(), "棋谱");
    assert_eq!(piece_label(Piece { side: Side::Black, kind: PieceKind::Cannon }), "砲");
    assert_eq!(piece_label(Piece { side: Side::Red, kind: PieceKind::King }), "帅");
    assert_eq!(side_label(Side::Black), "黑方");
    let info = LinkWindowInfo {
        id: 7,
        title: "象棋".to_string(),
        app_name: "Chess".to_string(),
        width: 800,
        height: 600,
    };
    let opt = WindowOption::new(info.clone());
    assert_eq!(opt.info(), &info);
    assert_eq!(opt.label(), "象棋 · Chess (800x600)");
}

#[test]
fn legal_moves_of_lone_kings() {
    let mut board = Board::empty(Side::Red);
    board.set(Pos::new(4, 0).unwrap(), Some(Piece { side: Side::Red, kind: PieceKind::King }));
    board.set(Pos::new(3, 9).unwrap(), Some(Piece { side: Side::Black, kind: PieceKind::King }));
    let moves = generate_legal_moves(&board);
    // e0d0 would face the black king on the d file.
    let expected: Vec<Move> = ["e0e1", "e0f0"].iter().map(|s| Move::from_iccs(s).unwrap()).collect();
    let mut sorted = moves.clone();
    sorted.sort_by_key(|m| (m.to.rank, m.to.file));
    let mut exp_sorted = expected.clone();
    exp_sorted.sort_by_key(|m| (m.to.rank, m.to.file));
    assert_eq!(sorted, exp_sorted);
    assert_eq!(moves, vec![Move::from_iccs("e0e1").unwrap(), Move::from_iccs("e0f0").unwrap()]);
}

#[test]
fn undo_and_redo_round_trip() {
    let mut record = GameRecord::startpos();
    let mut redo = Vec::new();
    assert!(!undo_move(&mut record, &mut redo));
    assert_eq!(redo_move(&mut record, &mut redo), None);

    let start = record.board;
    let mv = Move::from_iccs("h2e2").unwrap();
    record.board.apply_move_if_legal(mv).map(|o| record.history.push(o)).unwrap();
    let mv2 = Move::from_iccs("b9c7").unwrap();
    record.board.apply_move_if_legal(mv2).map(|o| record.history.push(o)).unwrap();
    let after_two = record.board;

    assert!(undo_move(&mut record, &mut redo));
    assert!(undo_move(&mut record, &mut redo));
    assert_eq!(record.board, start);
    assert!(record.history.is_empty());
    assert_eq!(redo.len(), 2);

    assert_eq!(redo_move(&mut record, &mut redo), Some(true));
    assert_eq!(redo_move(&mut record, &mut redo), Some(true));
    assert_eq!(record.board, after_two);
    assert_eq!(record.history.len(), 2);
    assert!(redo.is_empty());
}

#[test]
fn undo_restores_captured_piece() {
    let mut board = Board::empty(Side::Red);
    board.set(Pos::new(0, 0).unwrap(), Some(Piece { side: Side::Red, kind: PieceKind::Rook }));
    board.set(Pos::new(0, 5).unwrap(), Some(Piece { side: Side::Black, kind: PieceKind::Pawn }));
    board.set(Pos::new(4, 0).unwrap(), Some(Piece { side: Side::Red, kind: PieceKind::King }));
    board.set(Pos::new(3, 9).unwrap(), Some(Piece { side: Side::Black, kind: PieceKind::King }));
    let mut record = GameRecord::new(board);
    record.apply_move_unchecked(Move::from_iccs("a0a5").unwrap()).unwrap();
    let mut redo = Vec::new();
    assert!(undo_move(&mut record, &mut redo));
    assert_eq!(record.board, board);
}

#[test]
fn external_updates_follow_or_replace() {
    let start = Board::startpos();
    let mv = Move::from_iccs("h2e2").unwrap();
    let mut after = start;
    after.apply_move_unchecked(mv).unwrap();

    let mut record = GameRecord::startpos();
    let mut redo = vec![];
    assert!(!apply_external_update(&mut record, &mut redo, ExternalUpdate::NoChange, after));
    assert_eq!(record.board, start);

    let update = ExternalUpdate::CandidateMove { diff: diff_boards(&start, &after), applied_to_local: true };
    assert!(apply_external_update(&mut record, &mut redo, update, after));
    assert_eq!(record.board, after);
    assert_eq!(record.history.len(), 1);

    let other = Board::empty(Side::Black);
    assert!(apply_external_update(&mut record, &mut redo, ExternalUpdate::FirstSeen { aligned: false }, other));
    assert_eq!(record.board, other);
    assert!(record.history.is_empty());
}

#[test]
fn cell_press_decisions() {
    let board = Board::startpos();
    let h2 = Pos::new(7, 2).unwrap();
    let e2 = Pos::new(4, 2).unwrap();
    let human = Mode::HumanVsAi { human_side: Side::Red };
    assert_eq!(press_cell(Mode::LinkAnalysis, &board, None, h2, false), CellPress::NotAllowed);
    assert_eq!(press_cell(human, &board, None, h2, false), CellPress::Select(h2));
    assert_eq!(press_cell(human, &board, Some(h2), h2, false), CellPress::Deselect);
    assert_eq!(press_cell(human, &board, Some(h2), e2, false), CellPress::Play(Move::new(h2, e2)));
    assert_eq!(press_cell(Mode::LinkBattle, &board, Some(h2), e2, true), CellPress::Inject(Move::new(h2, e2)));
    assert_eq!(press_cell(human, &board, None, e2, false), CellPress::EmptySquare);
    assert_eq!(press_cell(human, &board, None, Pos::new(0, 9).unwrap(), false), CellPress::NotOwnPiece);
}
