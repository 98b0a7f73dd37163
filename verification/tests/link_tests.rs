use xiangqi_assistant::link::sync::{
    AlignmentStatus, DesyncReason, ExternalUpdate, SyncConfig, SyncError, SyncPolicy, SyncState,
};
use xiangqi_assistant::link::{
    check_input_permission, injection_confirmed, link_healthcheck, InputPermissionStatus,
};
use xiangqi_assistant::{Board, LegalMoveError, Move};

fn must_move(value: &str) -> Move {
    Move::from_iccs(value).expect("valid iccs")
}

#[test]
fn link_healthcheck_returns_ok() {
    assert_eq!(link_healthcheck(), "xq-link/ok");
}

#[test]
fn sync_first_external_aligned() {
    let board = Board::startpos();
    let mut sync = SyncState::new(board.clone(), SyncConfig::default());
    let update = sync.ingest_external(board.clone());
    assert_eq!(sync.status(), AlignmentStatus::Aligned);
    assert!(matches!(update, ExternalUpdate::FirstSeen { aligned: true }));
}

#[test]
fn sync_external_move_applies_to_local() {
    let board = Board::startpos();
    let mut sync = SyncState::new(board.clone(), SyncConfig::default());
    sync.ingest_external(board.clone());

    let mv = must_move("h2e2");
    let mut external = board.clone();
    external.apply_move_unchecked(mv).expect("apply");

    let update = sync.ingest_external(external.clone());
    assert!(matches!(update, ExternalUpdate::CandidateMove { applied_to_local: true, .. }));
    assert_eq!(sync.local(), &external);
    assert_eq!(sync.status(), AlignmentStatus::Aligned);
}

#[test]
fn sync_pending_confirmed_updates_local() {
    let board = Board::startpos();
    let mut sync = SyncState::new(board.clone(), SyncConfig::default());
    sync.ingest_external(board.clone());

    let mv = must_move("h2e2");
    let pending = sync.prepare_injection(mv).expect("prepare");
    let update = sync.ingest_external(pending.expected.clone());
    assert!(matches!(update, ExternalUpdate::PendingConfirmed { .. }));
    assert_eq!(sync.local(), &pending.expected);
    assert_eq!(sync.status(), AlignmentStatus::Aligned);
}

#[test]
fn sync_pending_rejected_desyncs() {
    let board = Board::startpos();
    let mut sync = SyncState::new(board.clone(), SyncConfig::default());
    sync.ingest_external(board.clone());

    let mv = must_move("h2e2");
    let _pending = sync.prepare_injection(mv).expect("prepare");
    let mut external = board.clone();
    external.apply_move_unchecked(must_move("a0a1")).expect("apply");

    let update = sync.ingest_external(external);
    assert!(matches!(
        sync.status(),
        AlignmentStatus::Desynced(DesyncReason::InjectConfirmFailed)
    ));
    assert!(matches!(update, ExternalUpdate::PendingRejected { .. }));
}

#[test]
fn sync_first_external_mismatch_desyncs() {
    let mut sync = SyncState::new(Board::startpos(), SyncConfig::default());
    let update = sync.ingest_external(Board::empty(xiangqi_assistant::Side::Red));
    assert!(matches!(update, ExternalUpdate::FirstSeen { aligned: false }));
    assert_eq!(sync.status(), AlignmentStatus::Desynced(DesyncReason::ExternalMismatch));
    assert!(matches!(sync.prepare_injection(must_move("h2e2")), Err(SyncError::Desynced)));
    sync.align_to_external().expect("external known");
    assert_eq!(sync.status(), AlignmentStatus::Aligned);
    assert_eq!(sync.local(), sync.external().unwrap());
}

#[test]
fn sync_refusals() {
    let board = Board::startpos();
    let mut sync = SyncState::new(board, SyncConfig { policy: SyncPolicy::ExternalDriven, verify_legality: true });
    assert_eq!(sync.align_to_external(), Err(SyncError::ExternalNotReady));
    assert_eq!(sync.prepare_injection(must_move("h2e2")), Err(SyncError::LocalDrivenNotAllowed));

    let mut sync = SyncState::new(board, SyncConfig::default());
    sync.ingest_external(board);
    assert_eq!(
        sync.prepare_injection(must_move("h2h8")),
        Err(SyncError::IllegalMove(LegalMoveError::InvalidPieceRule(xiangqi_assistant::PieceKind::Cannon)))
    );
    sync.prepare_injection(must_move("h2e2")).unwrap();
    assert_eq!(sync.prepare_injection(must_move("b2e2")), Err(SyncError::PendingExists));
    sync.set_verify_legality(false);
    sync.set_local(board);
    assert!(sync.pending().is_none());
    assert_eq!(sync.status(), AlignmentStatus::Aligned);
    assert_eq!(sync.prepare_injection(must_move("e4e5")), Err(SyncError::CannotApply));
}

#[test]
fn sync_unexpected_change_and_no_change() {
    let board = Board::startpos();
    let mut sync = SyncState::new(board, SyncConfig::default());
    sync.ingest_external(board);
    assert_eq!(sync.ingest_external(board), ExternalUpdate::NoChange);
    assert_eq!(sync.status(), AlignmentStatus::Aligned);
    let empty = Board::empty(xiangqi_assistant::Side::Red);
    assert!(matches!(sync.ingest_external(empty), ExternalUpdate::Changed { .. }));
    assert_eq!(sync.status(), AlignmentStatus::Desynced(DesyncReason::UnexpectedExternalChange));
    assert_eq!(sync.local(), &board);
}

#[test]
fn sync_local_driven_does_not_replay() {
    let board = Board::startpos();
    let mut sync = SyncState::new(board, SyncConfig { policy: SyncPolicy::LocalDriven, verify_legality: true });
    sync.ingest_external(board);
    let mut external = board;
    external.apply_move_unchecked(must_move("h2e2")).unwrap();
    let update = sync.ingest_external(external);
    assert!(matches!(update, ExternalUpdate::CandidateMove { applied_to_local: false, .. }));
    assert_eq!(sync.local(), &board);
    assert_eq!(sync.status(), AlignmentStatus::Desynced(DesyncReason::ExternalMismatch));
}

#[test]
fn permission_check_by_probe() {
    assert_eq!(check_input_permission(None).status, InputPermissionStatus::NotSupported);
    assert_eq!(check_input_permission(Some(true)).status, InputPermissionStatus::Granted);
    let denied = check_input_permission(Some(false));
    assert_eq!(denied.status, InputPermissionStatus::Denied);
    assert!(denied.guidance.unwrap().contains("辅助功能"));
}

#[test]
fn injection_confirmation() {
    let b = Board::startpos();
    assert!(injection_confirmed(true, Some(&b), &b));
    assert!(!injection_confirmed(false, Some(&b), &b));
    assert!(!injection_confirmed(true, None, &b));
}
