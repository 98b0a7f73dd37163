//! Decisions around asking for analysis: the cloud book first, the local
//! engine otherwise; what a finished search reports; which move the engine
//! side plays; and the pace of engine-against-engine games. The network, the
//! engine process and the clock are driven by the caller.
use vstd::prelude::*;
use crate::engine::chessdb::{ChessDbResponse, HitView};
use crate::engine::event::{EngineEvent, EngineInfo, InfoView};
use crate::game::{
    lemma_legal_moves_exact, pick_first_legal_move, spec_legal_moves, Mode,
};
use crate::legality::{check_move_legality, spec_legality, MoveLegality};
use crate::link::sync::SyncPolicy;
use crate::types::{Board, Move};

verus! {

/// Why analysis is asked for.
#[derive(Debug, Clone, Copy, PartialEq, Eq, Structural)]
pub enum EnginePurpose {
    /// Suggest a move to the user.
    Hint,
    /// Find the move the engine side plays.
    AiMove,
    /// Analyse the current position.
    Analysis,
}

/// Where an analysis came from.
#[derive(Debug, Clone, Copy, PartialEq, Eq, Structural)]
pub enum EngineSource {
    Cloud,
    Engine,
}

/// The outcome of one analysis request.
#[derive(Debug, Clone)]
pub struct EngineAnalysis {
    pub source: EngineSource,
    pub bestmove: Option<Move>,
    pub info: Option<EngineInfo>,
    pub error: Option<String>,
}

/// An analysis together with what it was asked for.
#[derive(Debug, Clone)]
pub struct EngineResult {
    pub purpose: EnginePurpose,
    pub analysis: EngineAnalysis,
}

/// Search time given to the engine for each purpose, in milliseconds.
pub fn purpose_movetime(purpose: EnginePurpose) -> (ms: u64)
    ensures
        ms == match purpose {
            EnginePurpose::Hint => 300u64,
            EnginePurpose::AiMove => 500u64,
            EnginePurpose::Analysis => 400u64,
        },
{
    match purpose {
        EnginePurpose::Hint => 300,
        EnginePurpose::AiMove => 500,
        EnginePurpose::Analysis => 400,
    }
}

/// What the cloud book's answer settles: a book move (the first move of its
/// line, with the line as engine information), or the book's refusal of the
/// position as the error; `None` when the position is not in the book and
/// the local engine has to be asked.
pub fn cloud_analysis(response: ChessDbResponse) -> (a: Option<EngineAnalysis>)
    ensures
        match response@ {
            crate::engine::chessdb::ResponseView::NotResult => a is None,
            crate::engine::chessdb::ResponseView::InvalidBoard(reason) => a matches Some(x) && x.source
                == EngineSource::Cloud && x.bestmove is None && x.info is None && (x.error matches Some(
                e,
            ) && e@ == reason),
            crate::engine::chessdb::ResponseView::Hit(h) => a matches Some(x) && x.source
                == EngineSource::Cloud && x.error is None && (x.info matches Some(i) && i@ == hit_info(
                h,
            )) && x.bestmove == (if h.pv.len() > 0 {
                Some(h.pv[0])
            } else {
                None::<Move>
            }),
        },
{
    match response {
        ChessDbResponse::NotResult => None,
        ChessDbResponse::InvalidBoard(reason) => Some(
            EngineAnalysis { source: EngineSource::Cloud, bestmove: None, info: None, error: Some(reason) },
        ),
        ChessDbResponse::Hit(hit) => {
            let info = hit.to_engine_info();
            let bestmove = if info.pv.len() > 0 {
                Some(info.pv[0])
            } else {
                None
            };
            Some(EngineAnalysis { source: EngineSource::Cloud, bestmove, info: Some(info), error: None })
        },
    }
}

/// A book entry as engine information.
pub open spec fn hit_info(h: HitView) -> InfoView {
    InfoView {
        depth: h.depth,
        seldepth: None,
        time_ms: None,
        nodes: None,
        nps: None,
        multipv: None,
        score: match h.score {
            Some(cp) => Some(crate::engine::event::EngineScore::Cp(cp)),
            None => None,
        },
        pv: h.pv,
        pv_raw: h.pv_raw,
        raw: h.raw,
    }
}

/// What a running search has reported so far.
#[derive(Debug, Clone)]
pub struct SearchWatch {
    /// The last `info` line.
    pub last_info: Option<EngineInfo>,
    /// The move reported as best, once the search ended.
    pub bestmove: Option<Move>,
}

impl SearchWatch {
    pub fn new() -> (w: Self)
        ensures
            w.last_info is None,
            w.bestmove is None,
    {
        SearchWatch { last_info: None, bestmove: None }
    }

    /// Takes one engine event; `true` when the search has ended. An `info`
    /// line is kept as the last one; a `bestmove` line ends the search with
    /// its move, or, when it names none, with the first move of the last
    /// principal variation.
    pub fn on_event(&mut self, event: EngineEvent) -> (done: bool)
        ensures
            match event {
                EngineEvent::Info(i) => !done && final(self).last_info == Some(i)
                    && final(self).bestmove == old(self).bestmove,
                EngineEvent::BestMove(bm) => done && final(self).last_info == old(self).last_info
                    && final(self).bestmove == match bm.bestmove {
                    Some(m) => Some(m),
                    None => match old(self).last_info {
                        Some(i) => if i.pv@.len() > 0 {
                            Some(i.pv@[0])
                        } else {
                            None::<Move>
                        },
                        None => None::<Move>,
                    },
                },
                EngineEvent::RawLine(_) => !done && final(self).last_info == old(self).last_info
                    && final(self).bestmove == old(self).bestmove,
            },
    {
        match event {
            EngineEvent::Info(info) => {
                self.last_info = Some(info);
                false
            },
            EngineEvent::BestMove(bm) => {
                self.bestmove = match bm.bestmove {
                    Some(m) => Some(m),
                    None => match &self.last_info {
                        Some(info) => if info.pv.len() > 0 {
                            Some(info.pv[0])
                        } else {
                            None
                        },
                        None => None,
                    },
                };
                true
            },
            EngineEvent::RawLine(_) => false,
        }
    }
}

/// The move the engine side plays: the engine's move when it is legal,
/// otherwise the first legal move in scan order (if any).
pub open spec fn spec_ai_move(board: Board, bestmove: Option<Move>) -> Option<Move> {
    if bestmove matches Some(b) && spec_legality(board, b) == MoveLegality::Legal {
        bestmove
    } else if spec_legal_moves(board).len() > 0 {
        Some(spec_legal_moves(board)[0])
    } else {
        None
    }
}

/// Picks the move the engine side plays.
pub fn choose_ai_move(board: &Board, bestmove: Option<Move>) -> (m: Option<Move>)
    ensures
        m == spec_ai_move(*board, bestmove),
{
    if let Some(b) = bestmove {
        if let MoveLegality::Legal = check_move_legality(board, b) {
            return Some(b);
        }
    }
    pick_first_legal_move(board)
}

/// The engine side never plays an illegal move, and it passes only when the
/// position has no legal move at all.
pub proof fn lemma_ai_move_legal(board: Board, bestmove: Option<Move>, other: Move)
    ensures
        spec_ai_move(board, bestmove) matches Some(m) ==> spec_legality(board, m) == MoveLegality::Legal,
        spec_ai_move(board, bestmove) is None ==> spec_legality(board, other) != MoveLegality::Legal,
{
    lemma_legal_moves_exact(board, other);
    if spec_legal_moves(board).len() > 0 {
        lemma_legal_moves_exact(board, spec_legal_moves(board)[0]);
    }
}

/// Fastest pace of engine-against-engine play, in milliseconds per move.
pub const AI_MIN_INTERVAL_MS: u64 = 120;
/// Slowest pace of engine-against-engine play, in milliseconds per move.
pub const AI_MAX_INTERVAL_MS: u64 = 1500;
/// Initial pace of engine-against-engine play, in milliseconds per move.
pub const AI_DEFAULT_INTERVAL_MS: u64 = 420;

pub open spec fn clamp_interval(ms: int) -> int {
    if ms < AI_MIN_INTERVAL_MS {
        AI_MIN_INTERVAL_MS as int
    } else if ms > AI_MAX_INTERVAL_MS {
        AI_MAX_INTERVAL_MS as int
    } else {
        ms
    }
}

/// The pace after "faster": 80 ms less per move, within the allowed range.
pub fn faster_interval(ms: u64) -> (r: u64)
    ensures
        r == clamp_interval(if ms >= 80 { ms - 80 } else { 0 }),
{
    let next = ms.saturating_sub(80);
    if next < AI_MIN_INTERVAL_MS {
        AI_MIN_INTERVAL_MS
    } else if next > AI_MAX_INTERVAL_MS {
        AI_MAX_INTERVAL_MS
    } else {
        next
    }
}

/// The pace after "slower": 120 ms more per move, within the allowed range
/// (the sum is taken in 128 bits and kept to its low 64 bits).
pub fn slower_interval(ms: u64) -> (r: u64)
    ensures
        r == clamp_interval(if ms + 120 <= u64::MAX { ms + 120 } else { ms + 120 - 0x1_0000_0000_0000_0000 }),
{
    let wide: u128 = ms as u128 + 120;
    let next: u64 = if wide > u64::MAX as u128 {
        (wide - 0x1_0000_0000_0000_0000) as u64
    } else {
        wide as u64
    };
    if next < AI_MIN_INTERVAL_MS {
        AI_MIN_INTERVAL_MS
    } else if next > AI_MAX_INTERVAL_MS {
        AI_MAX_INTERVAL_MS
    } else {
        next
    }
}

/// The synchronisation policy a linked mode uses: following a game lets only
/// the other window drive; playing lets both sides drive.
pub fn link_policy(mode: Mode) -> (p: SyncPolicy)
    ensures
        p == if mode is LinkAnalysis {
            SyncPolicy::ExternalDriven
        } else {
            SyncPolicy::Bidirectional
        },
{
    match mode {
        Mode::LinkAnalysis => SyncPolicy::ExternalDriven,
        _ => SyncPolicy::Bidirectional,
    }
}

} // verus!
