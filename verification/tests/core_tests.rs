use xiangqi_assistant::{
    check_move_legality, diff_boards, flip_move, flip_pos, map_pos_with_flip, Board, BoardDiffKind,
    FenError, GameRecord, LegalMoveError, Move, MoveLegality, Piece, PieceKind, Pos, Side,
    STARTPOS_FEN,
};

fn must_pos(s: &str) -> Pos {
    Pos::from_iccs_square(s).expect("valid square")
}

fn piece(side: Side, kind: PieceKind) -> Piece {
    Piece { side, kind }
}

// ---------------------------------------------------------------- types

#[test]
fn core_version_is_stable() {
    assert_eq!(xiangqi_assistant::core_version(), "xq-core/0.2.0-step2");
}

#[test]
fn startpos_has_32_pieces() {
    let board = Board::startpos();
    assert_eq!(board.piece_count(), 32);
    assert_eq!(board.side_to_move, Side::Red);
}

#[test]
fn apply_move_changes_board_state() {
    let mut board = Board::startpos();
    let mv = Move::from_iccs("h2e2").expect("valid ICCS");

    let from_piece = board.get(mv.from);
    assert!(from_piece.is_some(), "origin must hold a piece");

    let outcome = board.apply_move_unchecked(mv).expect("move applies");
    assert_eq!(outcome.mv, mv);
    assert_eq!(board.get(mv.from), None);
    assert_eq!(board.get(mv.to), from_piece);
    assert_eq!(board.side_to_move, Side::Black);
}

#[test]
fn apply_move_from_empty_square_does_nothing() {
    let mut board = Board::startpos();
    let before = board;
    assert!(board.apply_move_unchecked(Move::from_iccs("e4e5").unwrap()).is_none());
    assert_eq!(board, before);
}

#[test]
fn game_record_keeps_history() {
    let mut record = GameRecord::startpos();
    let outcome = record.apply_move_unchecked(Move::from_iccs("h2e2").unwrap()).unwrap();
    assert_eq!(record.history, vec![outcome]);
    assert_eq!(outcome.captured, None);
    assert_eq!(outcome.moved, piece(Side::Red, PieceKind::Cannon));
    assert_eq!(outcome.next_side_to_move, Side::Black);
}

#[test]
fn iccs_round_trips() {
    assert_eq!(must_pos("h2").to_iccs_square(), "h2");
    assert_eq!(Move::from_iccs("b0c2").unwrap().to_iccs(), "b0c2");
    assert!(Pos::from_iccs_square("j0").is_err());
    assert!(Pos::from_iccs_square("a").is_err());
    assert_eq!(Pos::from_index(0, 0), Some(must_pos("a9")));
    assert_eq!(must_pos("a9").to_index(), (0, 0));
    assert_eq!(Pos::from_index(10, 0), None);
}

#[test]
fn find_king_locates_both_kings() {
    let board = Board::startpos();
    assert_eq!(board.find_king(Side::Red), Some(must_pos("e0")));
    assert_eq!(board.find_king(Side::Black), Some(must_pos("e9")));
    assert_eq!(Board::empty(Side::Red).find_king(Side::Red), None);
}

// ---------------------------------------------------------------- diff

#[test]
fn diff_detects_simple_move_candidate() {
    let old = Board::startpos();
    let mv = Move::from_iccs("h2e2").expect("valid ICCS");

    let mut new = old.clone();
    new.apply_move_unchecked(mv).expect("move applies");

    let diff = diff_boards(&old, &new);
    assert!(diff.is_move_candidate());
    assert_eq!(diff.kind, BoardDiffKind::MoveCandidate);
    assert_eq!(diff.candidate.expect("candidate").mv, mv);
    assert_eq!(diff.piece_count_delta, 0);
}

#[test]
fn diff_detects_capture_move_candidate() {
    let mut old = Board::empty(Side::Red);

    let red_rook = piece(Side::Red, PieceKind::Rook);
    let black_pawn = piece(Side::Black, PieceKind::Pawn);

    old.set(must_pos("a0"), Some(red_rook));
    old.set(must_pos("a3"), Some(black_pawn));

    let mv = Move::from_iccs("a0a3").expect("ICCS");
    let mut new = old.clone();
    new.apply_move_unchecked(mv).expect("move applies");

    let diff = diff_boards(&old, &new);
    assert_eq!(diff.kind, BoardDiffKind::MoveCandidate);
    assert_eq!(diff.piece_count_delta, -1);
    let candidate = diff.candidate.expect("candidate");
    assert_eq!(candidate.mv, mv);
    assert_eq!(candidate.captured, Some(black_pawn));
}

#[test]
fn diff_one_changed_is_classified() {
    let old = Board::startpos();
    let mut new = old.clone();

    new.set(must_pos("a0"), None);

    let diff = diff_boards(&old, &new);
    assert_eq!(diff.kind, BoardDiffKind::LessPieces);
    assert_eq!(diff.changed.len(), 1);
    assert!(diff.candidate.is_none());

    assert!(old.get(must_pos("a0")).is_some());
}

#[test]
fn diff_more_pieces_is_classified() {
    let old = Board::empty(Side::Red);
    let mut new = old.clone();

    let red_pawn = piece(Side::Red, PieceKind::Pawn);
    new.set(must_pos("e4"), Some(red_pawn));
    new.set(must_pos("e5"), Some(red_pawn));

    let diff = diff_boards(&old, &new);
    assert_eq!(diff.kind, BoardDiffKind::MorePieces);
    assert_eq!(diff.piece_count_delta, 2);
}

#[test]
fn diff_less_pieces_is_classified() {
    let mut old = Board::empty(Side::Red);
    let mut new = old.clone();

    let red_pawn = piece(Side::Red, PieceKind::Pawn);
    old.set(must_pos("e4"), Some(red_pawn));
    old.set(must_pos("e5"), Some(red_pawn));
    new.set(must_pos("e4"), Some(red_pawn));
    new.set(must_pos("e5"), None);

    let diff = diff_boards(&old, &new);
    assert_eq!(diff.kind, BoardDiffKind::LessPieces);
    assert_eq!(diff.piece_count_delta, -1);
}

#[test]
fn diff_multi_changed_is_classified() {
    let mut old = Board::empty(Side::Red);
    let mut new = old.clone();

    let red_rook = piece(Side::Red, PieceKind::Rook);
    old.set(must_pos("a0"), Some(red_rook));
    old.set(must_pos("b0"), Some(red_rook));
    new.set(must_pos("a1"), Some(red_rook));
    new.set(must_pos("b1"), Some(red_rook));

    let diff = diff_boards(&old, &new);
    assert_eq!(diff.kind, BoardDiffKind::MultiChanged);
    assert_eq!(diff.changed.len(), 4);
}

#[test]
fn diff_indeterminate_when_two_changes_but_not_move() {
    let mut old = Board::empty(Side::Red);
    let mut new = old.clone();

    let red_rook = piece(Side::Red, PieceKind::Rook);
    let red_horse = piece(Side::Red, PieceKind::Horse);

    old.set(must_pos("a0"), Some(red_rook));
    old.set(must_pos("b0"), Some(red_horse));
    new.set(must_pos("a0"), Some(red_horse));
    new.set(must_pos("b0"), Some(red_rook));

    let diff = diff_boards(&old, &new);
    assert_eq!(diff.kind, BoardDiffKind::Indeterminate);
    assert!(diff.candidate.is_none());
}

#[test]
fn diff_handles_no_change() {
    let board = Board::startpos();
    let diff = diff_boards(&board, &board);
    assert_eq!(diff.kind, BoardDiffKind::NoChange);
    assert_eq!(diff.changed.len(), 0);
}

#[test]
fn diff_one_square_replaced_is_one_changed() {
    let old = Board::startpos();
    let mut new = old;
    new.set(must_pos("a0"), Some(piece(Side::Red, PieceKind::Horse)));
    let diff = diff_boards(&old, &new);
    assert_eq!(diff.kind, BoardDiffKind::OneChanged);
    assert_eq!(diff.changed, vec![must_pos("a0")]);
    assert_eq!(diff.piece_count_delta, 0);
}

// ---------------------------------------------------------------- fen

fn round_trip(fen: &str) {
    let board = Board::from_fen(fen).expect("FEN parses");
    let fen_back = board.to_fen();
    let normalized = Board::from_fen(&fen_back).expect("normalised FEN parses").to_fen();
    assert_eq!(fen_back, normalized);
}

#[test]
fn startpos_round_trip() {
    round_trip(STARTPOS_FEN);
}

#[test]
fn fen_round_trip_examples() {
    let samples = [
        STARTPOS_FEN,
        "rnbakabnr/9/1c5c1/p1p1p1p1p/9/9/P1P1P1P1P/1C5C1/9/RNBAKABNR b",
        "r1bakab1r/4n4/1c5c1/p1p1p1p1p/9/4P4/P1P3P1P/1C5C1/4N4/RNBAKAB1R w",
        "2bakab2/9/4c4/9/9/9/4C4/9/9/2BAKAB2 w",
        "4k4/9/9/9/9/9/9/9/9/4K4 b",
        "9/9/9/9/9/9/9/9/9/9 w",
        "r8/9/9/9/9/9/9/9/9/R8 w",
        "3ak4/4a4/9/9/9/9/9/9/4A4/3AK4 b",
        "2b1k1b2/9/9/9/9/9/9/9/9/2B1K1B2 w",
        "4k4/9/9/9/4r4/9/9/9/9/4K4 w",
        "4k4/9/9/9/9/9/9/9/9/4K4 w - - 0 1",
    ];

    for fen in samples {
        round_trip(fen);
    }
}

#[test]
fn fen_piece_count_matches_startpos() {
    let board = Board::from_fen(STARTPOS_FEN).expect("startpos FEN");
    assert_eq!(board.piece_count(), 32);
}

#[test]
fn invalid_row_count_is_rejected() {
    let err = Board::from_fen("9/9/9/9/9/9/9/9/9 w").expect_err("nine rows are refused");
    assert!(matches!(err, FenError::InvalidRowCount(9)));
}

#[test]
fn startpos_to_fen_is_the_standard_text() {
    assert_eq!(Board::startpos().to_fen(), STARTPOS_FEN);
    assert_eq!(Board::from_fen(STARTPOS_FEN).unwrap(), Board::startpos());
}

#[test]
fn fen_errors_are_reported() {
    assert!(matches!(Board::from_fen(""), Err(FenError::Empty)));
    assert!(matches!(
        Board::from_fen("8/9/9/9/9/9/9/9/9/9 w"),
        Err(FenError::InvalidColCount { row: 0, cols: 8 })
    ));
    assert!(matches!(
        Board::from_fen("x8/9/9/9/9/9/9/9/9/9 w"),
        Err(FenError::InvalidChar { row: 0, ch: 'x' })
    ));
    assert!(matches!(Board::from_fen("9/9/9/9/9/9/9/9/9/9"), Err(FenError::MissingSide)));
    assert!(matches!(Board::from_fen("9/9/9/9/9/9/9/9/9/9 x"), Err(FenError::InvalidSide(_))));
}

// ---------------------------------------------------------------- flip

#[test]
fn double_flip_pos_is_identity() {
    let samples = [
        "a0", "e0", "i0", "a4", "e4", "i4", "a5", "e5", "i5", "a9", "e9", "i9", "b2", "c3", "d6",
        "f7", "g1", "h8", "c8", "h1",
    ];

    for s in samples {
        let pos = must_pos(s);
        assert_eq!(flip_pos(flip_pos(pos)), pos, "square {s} flipped twice");
    }
}

#[test]
fn double_flip_move_is_identity() {
    let samples = [
        "a0a1", "a0a9", "e2e7", "b2c4", "h2e2", "c0e2", "i9i8", "d0e1", "e1e2", "g3g4",
    ];

    for s in samples {
        let mv = Move::from_iccs(s).expect("valid move");
        assert_eq!(flip_move(flip_move(mv)), mv, "move {s} flipped twice");
    }
}

#[test]
fn board_flip_twice_is_identity() {
    let board = Board::startpos();
    let flipped_twice = board.flipped().flipped();
    assert_eq!(board, flipped_twice);
}

#[test]
fn map_pos_with_flip_respects_flag() {
    let pos = must_pos("b2");
    assert_eq!(map_pos_with_flip(pos, false), pos);
    assert_eq!(map_pos_with_flip(pos, true), flip_pos(pos));
}

#[test]
fn flip_preserves_side_to_move() {
    let board = Board::empty(Side::Black);
    assert_eq!(board.flipped().side_to_move, Side::Black);
}

#[test]
fn flip_pos_maps_corners() {
    assert_eq!(flip_pos(must_pos("a0")), must_pos("i9"));
    assert_eq!(flip_pos(must_pos("b2")), must_pos("h7"));
    let flipped = Board::startpos().flipped();
    assert_eq!(flipped.get(must_pos("e9")), Some(piece(Side::Red, PieceKind::King)));
}

// ---------------------------------------------------------------- legality

fn base_board(side_to_move: Side) -> Board {
    let mut board = Board::empty(side_to_move);
    board.set(must_pos("e0"), Some(piece(Side::Red, PieceKind::King)));
    board.set(must_pos("e9"), Some(piece(Side::Black, PieceKind::King)));
    board.set(must_pos("e7"), Some(piece(Side::Black, PieceKind::Pawn)));
    board
}

fn assert_legal(board: &Board, mv: &str) {
    let mv = Move::from_iccs(mv).expect("valid ICCS");
    match check_move_legality(board, mv) {
        MoveLegality::Legal => {}
        MoveLegality::Illegal(err) => {
            panic!("expected legal, judged illegal: {mv:?} => {err:?}");
        }
    }
}

fn assert_illegal(board: &Board, mv: &str) {
    let mv = Move::from_iccs(mv).expect("valid ICCS");
    if matches!(check_move_legality(board, mv), MoveLegality::Legal) {
        panic!("expected illegal, judged legal: {mv:?}");
    }
}

#[test]
fn king_rules_examples() {
    let mut board = base_board(Side::Red);
    board.set(must_pos("e1"), Some(piece(Side::Red, PieceKind::King)));
    board.set(must_pos("e0"), None);

    for mv in ["e1e0", "e1e2", "e1d1", "e1f1", "e1e0"] {
        assert_legal(&board, mv);
    }

    for mv in ["e1e3", "e1c1", "e1e4", "e1d2", "e1f2"] {
        assert_illegal(&board, mv);
    }
}

#[test]
fn advisor_rules_examples() {
    let mut board = base_board(Side::Red);
    board.set(must_pos("e1"), Some(piece(Side::Red, PieceKind::Advisor)));

    for mv in ["e1d2", "e1f2", "e1d0", "e1f0", "e1d2"] {
        assert_legal(&board, mv);
    }

    for mv in ["e1e2", "e1g3", "e1c3", "e1e0", "e1d1"] {
        assert_illegal(&board, mv);
    }
}

#[test]
fn elephant_rules_examples() {
    let mut board = base_board(Side::Red);
    board.set(must_pos("c2"), Some(piece(Side::Red, PieceKind::Elephant)));

    for mv in ["c2a4", "c2e4", "c2a0", "c2a4", "c2e4"] {
        assert_legal(&board, mv);
    }

    board.set(must_pos("d3"), Some(piece(Side::Red, PieceKind::Pawn)));
    assert_illegal(&board, "c2e4");
    board.set(must_pos("d3"), None);

    for mv in ["c2e6", "c2b3", "c2c4", "c2g6", "c2a6"] {
        assert_illegal(&board, mv);
    }
}

#[test]
fn horse_rules_examples() {
    let mut board = base_board(Side::Red);
    board.set(must_pos("e4"), Some(piece(Side::Red, PieceKind::Horse)));

    for mv in ["e4c5", "e4c3", "e4d6", "e4f6", "e4g5"] {
        assert_legal(&board, mv);
    }

    assert_illegal(&board, "e4e6");

    board.set(must_pos("f4"), Some(piece(Side::Red, PieceKind::Pawn)));
    assert_illegal(&board, "e4g5");
    board.set(must_pos("f4"), None);

    for mv in ["e4e5", "e4e2", "e4g4", "e4h4", "e4d4"] {
        assert_illegal(&board, mv);
    }
}

#[test]
fn rook_rules_examples() {
    let mut board = base_board(Side::Red);
    board.set(must_pos("a0"), Some(piece(Side::Red, PieceKind::Rook)));

    for mv in ["a0a1", "a0a5", "a0a9", "a0b0", "a0d0"] {
        assert_legal(&board, mv);
    }

    board.set(must_pos("a3"), Some(piece(Side::Red, PieceKind::Pawn)));
    assert_illegal(&board, "a0a5");
    board.set(must_pos("a3"), None);

    for mv in ["a0b1", "a0c2", "a0b2", "a0c1", "a0d3"] {
        assert_illegal(&board, mv);
    }
}

#[test]
fn cannon_rules_examples() {
    let mut board = base_board(Side::Red);
    board.set(must_pos("b2"), Some(piece(Side::Red, PieceKind::Cannon)));
    board.set(must_pos("b6"), Some(piece(Side::Black, PieceKind::Pawn)));

    assert_legal(&board, "b2b5");

    board.set(must_pos("b4"), Some(piece(Side::Red, PieceKind::Pawn)));
    assert_legal(&board, "b2b6");

    board.set(must_pos("b3"), Some(piece(Side::Red, PieceKind::Pawn)));
    assert_illegal(&board, "b2b6");
    board.set(must_pos("b3"), None);
    board.set(must_pos("b4"), None);

    for mv in ["b2c3", "b2d4", "b2a3", "b2c1", "b2e5"] {
        assert_illegal(&board, mv);
    }
}

#[test]
fn pawn_rules_examples() {
    let mut board = base_board(Side::Red);
    board.set(must_pos("e4"), Some(piece(Side::Red, PieceKind::Pawn)));

    assert_legal(&board, "e4e5");
    assert_illegal(&board, "e4d4");
    assert_illegal(&board, "e4e3");

    board.set(must_pos("e5"), Some(piece(Side::Red, PieceKind::Pawn)));
    board.set(must_pos("e4"), None);
    assert_legal(&board, "e5d5");
    assert_legal(&board, "e5f5");

    for mv in ["e5e4", "e5e3", "e5d4", "e5f4", "e5c5"] {
        assert_illegal(&board, mv);
    }
}

#[test]
fn kings_face_each_other_is_rejected() {
    let mut board = Board::empty(Side::Red);
    board.set(must_pos("e0"), Some(piece(Side::Red, PieceKind::King)));
    board.set(must_pos("e9"), Some(piece(Side::Black, PieceKind::King)));
    board.set(must_pos("e1"), Some(piece(Side::Red, PieceKind::Rook)));

    assert_illegal(&board, "e1f1");
}

#[test]
fn wrong_side_to_move_is_rejected() {
    let mut board = base_board(Side::Black);
    board.set(must_pos("a0"), Some(piece(Side::Red, PieceKind::Rook)));
    assert_illegal(&board, "a0a1");
}

#[test]
fn legality_errors_name_the_rule() {
    let board = base_board(Side::Red);
    let check = |s: &str| check_move_legality(&board, Move::from_iccs(s).unwrap());
    assert_eq!(check("a0a1"), MoveLegality::Illegal(LegalMoveError::NoPieceAtFrom));
    assert_eq!(
        check("e9e8"),
        MoveLegality::Illegal(LegalMoveError::WrongSideToMove { expected: Side::Red, found: Side::Black })
    );
    assert_eq!(check("e0e2"), MoveLegality::Illegal(LegalMoveError::InvalidPieceRule(PieceKind::King)));
    let mut b2 = board;
    b2.set(must_pos("e1"), Some(piece(Side::Red, PieceKind::Pawn)));
    assert_eq!(
        check_move_legality(&b2, Move::from_iccs("e0e1").unwrap()),
        MoveLegality::Illegal(LegalMoveError::FriendlyFire)
    );
    let off = Move { from: Pos { file: 9, rank: 0 }, to: must_pos("a0") };
    assert_eq!(check_move_legality(&board, off), MoveLegality::Illegal(LegalMoveError::OutOfBounds));
}

#[test]
fn apply_move_if_legal_applies_or_refuses() {
    let mut board = Board::startpos();
    let out = board.apply_move_if_legal(Move::from_iccs("h2e2").unwrap()).expect("legal");
    assert_eq!(out.next_side_to_move, Side::Black);
    let before = board;
    let err = board.apply_move_if_legal(Move::from_iccs("h0h1").unwrap()).unwrap_err();
    assert_eq!(err, LegalMoveError::WrongSideToMove { expected: Side::Black, found: Side::Red });
    assert_eq!(board, before);
}

#[test]
fn fen_chars_round_trip() {
    for side in [Side::Red, Side::Black] {
        assert_eq!(Side::from_fen_char(side.to_fen_char()), Some(side));
        assert_eq!(side.opposite().opposite(), side);
    }
    for c in ['K', 'A', 'B', 'N', 'R', 'C', 'P', 'k', 'a', 'b', 'n', 'r', 'c', 'p'] {
        assert_eq!(Piece::from_fen_char(c).unwrap().to_fen_char(), c);
    }
    assert_eq!(Piece::from_fen_char('x'), None);
    assert_eq!(Side::from_fen_char('r'), Some(Side::Red));
}
