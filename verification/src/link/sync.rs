//! Keeping the local board and the board seen in the linked window in step.
//!
//! The local board is what the assistant believes; the external board is the
//! last board recognised in the other window. Moves flow either way: a move
//! seen outside is replayed locally, and a move made locally is injected into
//! the other window and confirmed once it shows up there.
use vstd::prelude::*;
use crate::diff::{
    diff_boards, lemma_candidate_in_bounds, lemma_diff_finds_played_move,
    lemma_no_change_same_grid, spec_candidate, spec_diff_kind, BoardDiff, BoardDiffKind,
};
use crate::legality::{
    check_move_legality, lemma_legal_move_shape, spec_legality, spec_validate, LegalMoveError,
    MoveLegality,
};
use crate::types::{Board, Move};

verus! {

/// Which side may drive the game.
#[derive(Debug, Clone, Copy, PartialEq, Eq, Structural)]
pub enum SyncPolicy {
    ExternalDriven,
    LocalDriven,
    Bidirectional,
}

impl SyncPolicy {
    pub open spec fn spec_allows_external(self) -> bool {
        self is ExternalDriven || self is Bidirectional
    }

    pub open spec fn spec_allows_local(self) -> bool {
        self is LocalDriven || self is Bidirectional
    }

    /// Whether moves seen in the other window are replayed locally.
    pub fn allows_external(self) -> (b: bool)
        ensures
            b == self.spec_allows_external(),
    {
        match self {
            SyncPolicy::ExternalDriven | SyncPolicy::Bidirectional => true,
            SyncPolicy::LocalDriven => false,
        }
    }

    /// Whether local moves may be injected into the other window.
    pub fn allows_local(self) -> (b: bool)
        ensures
            b == self.spec_allows_local(),
    {
        match self {
            SyncPolicy::LocalDriven | SyncPolicy::Bidirectional => true,
            SyncPolicy::ExternalDriven => false,
        }
    }
}

/// Why the two boards are out of step.
#[derive(Debug, Clone, Copy, PartialEq, Eq, Structural)]
pub enum DesyncReason {
    ExternalMismatch,
    InjectConfirmFailed,
    UnexpectedExternalChange,
}

/// Where the synchronisation stands.
#[derive(Debug, Clone, Copy, PartialEq, Eq, Structural)]
pub enum AlignmentStatus {
    AwaitingExternal,
    Aligned,
    Aligning,
    Desynced(DesyncReason),
}

/// A local move sent to the other window and waiting to show up there.
#[derive(Debug, Clone, Copy, PartialEq, Eq)]
pub struct PendingInjection {
    pub mv: Move,
    /// The board expected once the move has been played.
    pub expected: Board,
    pub attempts: u32,
}

/// What one recognised external board meant.
#[derive(Debug, Clone, PartialEq, Eq)]
pub enum ExternalUpdate {
    /// The first external board; `aligned` when it equals the local board.
    FirstSeen { aligned: bool },
    /// Same squares as before.
    NoChange,
    /// A single move explains the change.
    CandidateMove { diff: BoardDiff, applied_to_local: bool },
    /// Some other change.
    Changed { diff: BoardDiff },
    /// The pending injected move showed up.
    PendingConfirmed { mv: Move },
    /// Something else showed up while a move was pending.
    PendingRejected { diff: BoardDiff },
}

/// Synchronisation settings.
#[derive(Debug, Clone, Copy, PartialEq, Eq, Structural)]
pub struct SyncConfig {
    pub policy: SyncPolicy,
    /// Check local moves against the rules before injecting them.
    pub verify_legality: bool,
}

impl Default for SyncConfig {
    fn default() -> (c: Self)
        ensures
            c == (SyncConfig { policy: SyncPolicy::Bidirectional, verify_legality: true }),
    {
        SyncConfig { policy: SyncPolicy::Bidirectional, verify_legality: true }
    }
}

/// Why a synchronisation request was refused.
#[derive(Debug, Clone, Copy, PartialEq, Eq, Structural)]
pub enum SyncError {
    /// No external board has been seen yet.
    ExternalNotReady,
    /// The policy does not let local moves drive the game.
    LocalDrivenNotAllowed,
    /// The boards are out of step.
    Desynced,
    /// Another injected move is still waiting for confirmation.
    PendingExists,
    /// The move breaks the rules.
    IllegalMove(LegalMoveError),
    /// No piece stands on the origin of the move.
    CannotApply,
}

/// The synchronisation state machine.
#[derive(Debug, Clone)]
pub struct SyncState {
    config: SyncConfig,
    status: AlignmentStatus,
    local: Board,
    external: Option<Board>,
    pending: Option<PendingInjection>,
}

/// The abstract content of a [`SyncState`].
pub struct SyncView {
    pub config: SyncConfig,
    pub status: AlignmentStatus,
    pub local: Board,
    pub external: Option<Board>,
    pub pending: Option<PendingInjection>,
}

impl SyncView {
    /// What every reachable state satisfies: "aligned" means the two boards
    /// show the same squares, "awaiting" means no external board yet, and
    /// "aligning" means a move is pending.
    pub open spec fn wf(self) -> bool {
        &&& (self.status == AlignmentStatus::Aligned ==> (self.external matches Some(e)
            && e.grid == self.local.grid))
        &&& (self.status == AlignmentStatus::AwaitingExternal ==> self.external is None)
        &&& (self.external is None ==> self.status == AlignmentStatus::AwaitingExternal
            || self.status == AlignmentStatus::Aligning)
        &&& (self.status == AlignmentStatus::Aligning ==> self.pending is Some)
    }

    /// Status after the local board is replaced by `board`.
    pub open spec fn status_for_local(self, board: Board) -> AlignmentStatus {
        match self.external {
            Some(e) => if e == board {
                AlignmentStatus::Aligned
            } else {
                AlignmentStatus::Desynced(DesyncReason::ExternalMismatch)
            },
            None => AlignmentStatus::AwaitingExternal,
        }
    }

    /// Whether `prepare_injection` gets as far as touching the board without
    /// a rule check (where a square off the board would be out of range).
    pub open spec fn injects_unchecked(self) -> bool {
        &&& self.config.policy.spec_allows_local()
        &&& !(self.status is Desynced)
        &&& self.pending is None
        &&& !self.config.verify_legality
    }

    /// The outcome of `prepare_injection(mv)` in this state.
    pub open spec fn prepare(self, mv: Move) -> Result<PendingInjection, SyncError> {
        if !self.config.policy.spec_allows_local() {
            Err(SyncError::LocalDrivenNotAllowed)
        } else if self.status is Desynced {
            Err(SyncError::Desynced)
        } else if self.pending is Some {
            Err(SyncError::PendingExists)
        } else if self.config.verify_legality && spec_validate(self.local, mv) is Err {
            Err(SyncError::IllegalMove(spec_validate(self.local, mv)->Err_0))
        } else if self.local.cell(mv.from) is None {
            Err(SyncError::CannotApply)
        } else {
            Ok(PendingInjection { mv, expected: self.local.after_move(mv), attempts: 0 })
        }
    }

    /// The state after `prepare_injection(mv)`: the move is pending when accepted.
    pub open spec fn after_prepare(self, mv: Move) -> SyncView {
        match self.prepare(mv) {
            Ok(p) => SyncView { pending: Some(p), status: AlignmentStatus::Aligning, ..self },
            Err(_) => self,
        }
    }

    /// The state after `ingest_external(board)`.
    pub open spec fn after_ingest(self, board: Board) -> SyncView {
        match self.external {
            None => SyncView {
                external: Some(board),
                status: if board == self.local {
                    AlignmentStatus::Aligned
                } else {
                    AlignmentStatus::Desynced(DesyncReason::ExternalMismatch)
                },
                ..self
            },
            Some(prev) => match self.pending {
                Some(p) => if board == p.expected {
                    SyncView {
                        local: p.expected,
                        external: Some(board),
                        status: AlignmentStatus::Aligned,
                        pending: None,
                        ..self
                    }
                } else {
                    SyncView {
                        external: Some(board),
                        status: AlignmentStatus::Desynced(DesyncReason::InjectConfirmFailed),
                        pending: None,
                        ..self
                    }
                },
                None => {
                    let kind = spec_diff_kind(prev, board);
                    if kind == BoardDiffKind::NoChange {
                        SyncView { external: Some(board), ..self }
                    } else if kind == BoardDiffKind::MoveCandidate && spec_candidate(prev, board) is Some {
                        let local = if self.replays(prev, board) {
                            self.local.after_move(spec_candidate(prev, board)->Some_0.mv)
                        } else {
                            self.local
                        };
                        SyncView {
                            local,
                            external: Some(board),
                            status: if local == board {
                                AlignmentStatus::Aligned
                            } else {
                                AlignmentStatus::Desynced(DesyncReason::ExternalMismatch)
                            },
                            ..self
                        }
                    } else {
                        SyncView {
                            external: Some(board),
                            status: AlignmentStatus::Desynced(DesyncReason::UnexpectedExternalChange),
                            ..self
                        }
                    }
                },
            },
        }
    }

    /// Whether a move seen outside is replayed on the local board.
    pub open spec fn replays(self, prev: Board, board: Board) -> bool {
        &&& self.config.policy.spec_allows_external()
        &&& self.status == AlignmentStatus::Aligned
        &&& self.local == prev
        &&& spec_candidate(prev, board) matches Some(c) && self.local.cell(c.mv.from) is Some
    }
}

impl ExternalUpdate {
    /// Whether this is what `ingest_external(board)` reports in state `s`.
    pub open spec fn reports_ingest(self, s: SyncView, board: Board) -> bool {
        match s.external {
            None => self == ExternalUpdate::FirstSeen { aligned: board == s.local },
            Some(prev) => match s.pending {
                Some(p) => if board == p.expected {
                    self == ExternalUpdate::PendingConfirmed { mv: p.mv }
                } else {
                    self matches ExternalUpdate::PendingRejected { diff } && diff.describes(prev, board)
                },
                None => {
                    let kind = spec_diff_kind(prev, board);
                    if kind == BoardDiffKind::NoChange {
                        self == ExternalUpdate::NoChange
                    } else if kind == BoardDiffKind::MoveCandidate && spec_candidate(prev, board) is Some {
                        self matches ExternalUpdate::CandidateMove { diff, applied_to_local }
                            && diff.describes(prev, board)
                            && applied_to_local == s.replays(prev, board)
                    } else {
                        self matches ExternalUpdate::Changed { diff } && diff.describes(prev, board)
                    }
                },
            },
        }
    }
}

impl View for SyncState {
    type V = SyncView;

    closed spec fn view(&self) -> SyncView {
        SyncView {
            config: self.config,
            status: self.status,
            local: self.local,
            external: self.external,
            pending: self.pending,
        }
    }
}

impl SyncState {
    /// A state holding `local`, waiting for the first external board.
    pub fn new(local: Board, config: SyncConfig) -> (s: Self)
        ensures
            s@.wf(),
            s@.config == config,
            s@.status == AlignmentStatus::AwaitingExternal,
            s@.local == local,
            s@.external is None,
            s@.pending is None,
    {
        SyncState { config, status: AlignmentStatus::AwaitingExternal, local, external: None, pending: None }
    }

    pub fn status(&self) -> (s: AlignmentStatus)
        ensures
            s == self@.status,
    {
        self.status
    }

    pub fn local(&self) -> (b: &Board)
        ensures
            *b == self@.local,
    {
        &self.local
    }

    pub fn external(&self) -> (b: Option<&Board>)
        ensures
            b is None <==> self@.external is None,
            b matches Some(x) ==> self@.external == Some(*x),
    {
        match &self.external {
            Some(x) => Some(x),
            None => None,
        }
    }

    pub fn pending(&self) -> (p: Option<&PendingInjection>)
        ensures
            p is None <==> self@.pending is None,
            p matches Some(x) ==> self@.pending == Some(*x),
    {
        match &self.pending {
            Some(x) => Some(x),
            None => None,
        }
    }

    /// Turns the rule check on local moves on or off.
    pub fn set_verify_legality(&mut self, value: bool)
        requires
            old(self)@.wf(),
        ensures
            final(self)@.wf(),
            final(self)@.config == (SyncConfig { policy: old(self)@.config.policy, verify_legality: value }),
            final(self)@.status == old(self)@.status,
            final(self)@.local == old(self)@.local,
            final(self)@.external == old(self)@.external,
            final(self)@.pending == old(self)@.pending,
    {
        self.config.verify_legality = value;
    }

    /// Replaces the local board (dropping any pending move) and recomputes the status.
    pub fn set_local(&mut self, board: Board)
        requires
            old(self)@.wf(),
        ensures
            final(self)@.wf(),
            final(self)@.config == old(self)@.config,
            final(self)@.status == old(self)@.status_for_local(board),
            final(self)@.local == board,
            final(self)@.external == old(self)@.external,
            final(self)@.pending is None,
    {
        self.local = board;
        self.pending = None;
        self.status = match &self.external {
            Some(e) => if *e == self.local {
                AlignmentStatus::Aligned
            } else {
                AlignmentStatus::Desynced(DesyncReason::ExternalMismatch)
            },
            None => AlignmentStatus::AwaitingExternal,
        };
    }

    /// Takes the external board as the local one; refused while no external board was seen.
    pub fn align_to_external(&mut self) -> (r: Result<(), SyncError>)
        requires
            old(self)@.wf(),
        ensures
            final(self)@.wf(),
            old(self)@.external is None ==> r == Err::<(), SyncError>(SyncError::ExternalNotReady)
                && final(self)@ == old(self)@,
            old(self)@.external matches Some(e) ==> {
                &&& r is Ok
                &&& final(self)@.local == e
                &&& final(self)@.status == AlignmentStatus::Aligned
                &&& final(self)@.pending is None
                &&& final(self)@.external == old(self)@.external
                &&& final(self)@.config == old(self)@.config
            },
    {
        let external = match &self.external {
            Some(e) => *e,
            None => return Err(SyncError::ExternalNotReady),
        };
        self.local = external;
        self.pending = None;
        self.status = AlignmentStatus::Aligned;
        Ok(())
    }

    /// Registers a local move to be injected into the other window and returns
    /// what is then expected there; refused by the policy, while out of step,
    /// while another move is pending, for an illegal move (when checking) and
    /// when the origin is empty.
    pub fn prepare_injection(&mut self, mv: Move) -> (r: Result<PendingInjection, SyncError>)
        requires
            old(self)@.wf(),
            old(self)@.injects_unchecked() ==> mv.from.spec_in_bounds() && mv.to.spec_in_bounds(),
        ensures
            final(self)@.wf(),
            r == old(self)@.prepare(mv),
            final(self)@ == old(self)@.after_prepare(mv),
    {
        if !self.config.policy.allows_local() {
            return Err(SyncError::LocalDrivenNotAllowed);
        }
        if let AlignmentStatus::Desynced(_) = self.status {
            return Err(SyncError::Desynced);
        }
        if self.pending.is_some() {
            return Err(SyncError::PendingExists);
        }
        if self.config.verify_legality {
            match check_move_legality(&self.local, mv) {
                MoveLegality::Legal => {},
                MoveLegality::Illegal(err) => {
                    return Err(SyncError::IllegalMove(err));
                },
            }
        }
        let expected = match self.local.clone_with_move_unchecked(mv) {
            Some(b) => b,
            None => return Err(SyncError::CannotApply),
        };
        let pending = PendingInjection { mv, expected, attempts: 0 };
        self.pending = Some(pending);
        self.status = AlignmentStatus::Aligning;
        Ok(pending)
    }

    /// Takes in a newly recognised external board and says what it meant.
    ///
    /// The first board is compared with the local one. While a move is
    /// pending, the board either confirms it (the local board becomes the
    /// expected one) or puts the state out of step. Otherwise the board is
    /// diffed against the previous external board: no change keeps the
    /// status, a single move is replayed locally when the policy allows it and
    /// both boards were aligned and equal, and anything else puts the state
    /// out of step.
    pub fn ingest_external(&mut self, board: Board) -> (r: ExternalUpdate)
        requires
            old(self)@.wf(),
        ensures
            final(self)@.wf(),
            final(self)@ == old(self)@.after_ingest(board),
            r.reports_ingest(old(self)@, board),
    {
        let prev = match &self.external {
            None => {
                let aligned = board == self.local;
                self.external = Some(board);
                self.status = if aligned {
                    AlignmentStatus::Aligned
                } else {
                    AlignmentStatus::Desynced(DesyncReason::ExternalMismatch)
                };
                return ExternalUpdate::FirstSeen { aligned };
            },
            Some(p) => *p,
        };

        if let Some(pending) = self.pending {
            self.pending = None;
            if board == pending.expected {
                self.local = pending.expected;
                self.external = Some(board);
                self.status = AlignmentStatus::Aligned;
                return ExternalUpdate::PendingConfirmed { mv: pending.mv };
            }
            let diff = diff_boards(&prev, &board);
            self.external = Some(board);
            self.status = AlignmentStatus::Desynced(DesyncReason::InjectConfirmFailed);
            return ExternalUpdate::PendingRejected { diff };
        }

        let diff = diff_boards(&prev, &board);
        self.external = Some(board);

        if diff.kind == BoardDiffKind::NoChange {
            proof {
                lemma_no_change_same_grid(prev, board);
            }
            return ExternalUpdate::NoChange;
        }

        if diff.kind == BoardDiffKind::MoveCandidate && diff.candidate.is_some() {
            let mut applied = false;
            if self.config.policy.allows_external() && self.status == AlignmentStatus::Aligned
                && self.local == prev {
                if let Some(c) = diff.candidate {
                    proof {
                        lemma_candidate_in_bounds(prev, board);
                    }
                    if self.local.apply_move_unchecked(c.mv).is_some() {
                        applied = true;
                    }
                }
            }
            self.status = if self.local == board {
                AlignmentStatus::Aligned
            } else {
                AlignmentStatus::Desynced(DesyncReason::ExternalMismatch)
            };
            return ExternalUpdate::CandidateMove { diff, applied_to_local: applied };
        }

        self.status = AlignmentStatus::Desynced(DesyncReason::UnexpectedExternalChange);
        ExternalUpdate::Changed { diff }
    }
}

/// A move accepted for injection is confirmed by the board it was expected to
/// produce: that board is the local board after the move, the update reports
/// the move as confirmed, the local board becomes that board, nothing stays
/// pending and both sides are aligned.
pub proof fn lemma_injection_confirmed(s: SyncView, mv: Move)
    requires
        s.wf(),
        s.external is Some,
        s.prepare(mv) is Ok,
    ensures
        ({
            let p = s.prepare(mv)->Ok_0;
            let mid = s.after_prepare(mv);
            let end = mid.after_ingest(p.expected);
            &&& p.mv == mv
            &&& p.expected == s.local.after_move(mv)
            &&& forall|r: ExternalUpdate|
                #[trigger] r.reports_ingest(mid, p.expected) <==> r
                    == ExternalUpdate::PendingConfirmed { mv }
            &&& end.local == p.expected
            &&& end.external == Some(p.expected)
            &&& end.status == AlignmentStatus::Aligned
            &&& end.pending is None
            &&& end.wf()
        }),
{
}

/// With both boards aligned and equal, nothing pending and a policy that lets
/// the other window drive, the board after a legal move seen there is
/// replayed locally: the update reports the move as applied, the local board
/// becomes the new external board and both stay aligned.
pub proof fn lemma_external_move_replayed(s: SyncView, mv: Move)
    requires
        s.wf(),
        s.config.policy.spec_allows_external(),
        s.status == AlignmentStatus::Aligned,
        s.external == Some(s.local),
        s.pending is None,
        spec_legality(s.local, mv) == MoveLegality::Legal,
    ensures
        ({
            let board = s.local.after_move(mv);
            let end = s.after_ingest(board);
            &&& forall|r: ExternalUpdate| #[trigger] r.reports_ingest(s, board) ==> (r matches
                ExternalUpdate::CandidateMove { applied_to_local, .. } && applied_to_local)
            &&& end.local == board
            &&& end.external == Some(board)
            &&& end.status == AlignmentStatus::Aligned
        }),
{
    lemma_legal_move_shape(s.local, mv);
    lemma_diff_finds_played_move(s.local, mv);
}

} // verus!
