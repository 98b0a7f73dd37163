//! Xiangqi (Chinese chess) board model, rules and the logic around recognising,
//! analysing and synchronising a game shown in another window.
use vstd::prelude::*;

pub mod analysis;
pub mod assistant;
pub mod diff;
pub mod engine;
pub mod fen;
pub mod flip;
pub mod game;
pub mod legality;
pub mod link;
pub mod resources;
pub mod text;
pub mod types;
pub mod vision;

pub use diff::{diff_boards, BoardDiff, BoardDiffKind, DiffedMove};
pub use engine::chessdb::{ChessDbHit, ChessDbResponse};
pub use engine::engine_healthcheck;
pub use engine::event::{EngineBestMove, EngineEvent, EngineInfo, EngineScore};
pub use engine::parser::parse_engine_line;
pub use engine::profile::{EngineOption, EngineOptions, EngineProfile, SearchParams};
pub use engine::protocol::EngineProtocol;
pub use fen::{parse_fen, FenError, FenParseOptions};
pub use flip::{flip_move, flip_pos, map_pos_with_flip};
pub use legality::{check_move_legality, LegalMoveError, MoveLegality};
pub use link::sync::{
    AlignmentStatus, DesyncReason, ExternalUpdate, PendingInjection, SyncConfig, SyncPolicy,
    SyncState,
};
pub use link::{link_healthcheck, InjectResult, InputPlan, LinkWindowInfo, ScreenPoint};
pub use types::{
    Board, BoardCell, GameRecord, Move, MoveOutcome, MoveParseError, Piece, PieceKind, Pos,
    PosParseError, Side, BOARD_COLS, BOARD_ROWS, STARTPOS_FEN,
};
pub use vision::crop::CropRegion;
pub use vision::observation::{BoardObservation, Camp, VisionError};
pub use vision::stability::{RejectReason, StabilityDecision, StabilityFilter, StabilitySettings};
pub use vision::{vision_healthcheck, ModelKind};

verus! {

/// Version string of the board model.
pub fn core_version() -> (s: &'static str)
    ensures
        s@ == "xq-core/0.2.0-step2"@,
{
    "xq-core/0.2.0-step2"
}

} // verus!
