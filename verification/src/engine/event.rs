//! What an engine reports: search information, best moves and other lines.
use vstd::prelude::*;
use crate::types::Move;

verus! {

/// Engine evaluation.
#[derive(Debug, Clone, Copy, PartialEq, Eq, Structural)]
pub enum EngineScore {
    /// Centipawns.
    Cp(i32),
    /// Moves to mate (negative: being mated).
    Mate(i32),
}

/// A parsed `info` line.
#[derive(Debug, Clone, PartialEq, Eq)]
pub struct EngineInfo {
    pub depth: Option<u32>,
    pub seldepth: Option<u32>,
    pub time_ms: Option<u64>,
    pub nodes: Option<u64>,
    pub nps: Option<u64>,
    pub multipv: Option<u32>,
    pub score: Option<EngineScore>,
    /// Principal variation, the tokens that are ICCS moves.
    pub pv: Vec<Move>,
    /// Principal variation as written by the engine.
    pub pv_raw: Vec<String>,
    /// The whole line.
    pub raw: String,
}

/// `EngineInfo` with its texts as character sequences.
pub struct InfoView {
    pub depth: Option<u32>,
    pub seldepth: Option<u32>,
    pub time_ms: Option<u64>,
    pub nodes: Option<u64>,
    pub nps: Option<u64>,
    pub multipv: Option<u32>,
    pub score: Option<EngineScore>,
    pub pv: Seq<Move>,
    pub pv_raw: Seq<Seq<char>>,
    pub raw: Seq<char>,
}

pub open spec fn strings_view(v: Seq<String>) -> Seq<Seq<char>> {
    v.map_values(|s: String| s@)
}

impl View for EngineInfo {
    type V = InfoView;

    open spec fn view(&self) -> InfoView {
        InfoView {
            depth: self.depth,
            seldepth: self.seldepth,
            time_ms: self.time_ms,
            nodes: self.nodes,
            nps: self.nps,
            multipv: self.multipv,
            score: self.score,
            pv: self.pv@,
            pv_raw: strings_view(self.pv_raw@),
            raw: self.raw@,
        }
    }
}

/// An `InfoView` with nothing filled in but the raw text.
pub open spec fn empty_info(raw: Seq<char>) -> InfoView {
    InfoView {
        depth: None,
        seldepth: None,
        time_ms: None,
        nodes: None,
        nps: None,
        multipv: None,
        score: None,
        pv: Seq::empty(),
        pv_raw: Seq::empty(),
        raw,
    }
}

impl Default for EngineInfo {
    fn default() -> (i: Self)
        ensures
            i@ == empty_info(Seq::empty()),
    {
        let i = EngineInfo {
            depth: None,
            seldepth: None,
            time_ms: None,
            nodes: None,
            nps: None,
            multipv: None,
            score: None,
            pv: Vec::new(),
            pv_raw: Vec::new(),
            raw: String::new(),
        };
        proof {
            assert(strings_view(i.pv_raw@) =~= Seq::<Seq<char>>::empty());
        }
        i
    }
}

/// A parsed `bestmove` line.
#[derive(Debug, Clone, PartialEq, Eq)]
pub struct EngineBestMove {
    pub bestmove: Option<Move>,
    /// The move token as written (`(none)` when the line has none).
    pub bestmove_raw: String,
    pub ponder: Option<Move>,
    /// The whole line.
    pub raw: String,
}

/// `EngineBestMove` with its texts as character sequences.
pub struct BestMoveView {
    pub bestmove: Option<Move>,
    pub bestmove_raw: Seq<char>,
    pub ponder: Option<Move>,
    pub raw: Seq<char>,
}

impl View for EngineBestMove {
    type V = BestMoveView;

    open spec fn view(&self) -> BestMoveView {
        BestMoveView {
            bestmove: self.bestmove,
            bestmove_raw: self.bestmove_raw@,
            ponder: self.ponder,
            raw: self.raw@,
        }
    }
}

impl Default for EngineBestMove {
    fn default() -> (b: Self)
        ensures
            b@ == (BestMoveView { bestmove: None, bestmove_raw: Seq::empty(), ponder: None, raw: Seq::empty() }),
    {
        EngineBestMove { bestmove: None, bestmove_raw: String::new(), ponder: None, raw: String::new() }
    }
}

/// One line of engine output.
#[derive(Debug, Clone, PartialEq, Eq)]
pub enum EngineEvent {
    Info(EngineInfo),
    BestMove(EngineBestMove),
    RawLine(String),
}

/// `EngineEvent` with its texts as character sequences.
pub enum EventView {
    Info(InfoView),
    BestMove(BestMoveView),
    RawLine(Seq<char>),
}

impl View for EngineEvent {
    type V = EventView;

    open spec fn view(&self) -> EventView {
        match self {
            EngineEvent::Info(i) => EventView::Info(i@),
            EngineEvent::BestMove(b) => EventView::BestMove(b@),
            EngineEvent::RawLine(l) => EventView::RawLine(l@),
        }
    }
}

impl EventView {
    pub open spec fn raw(self) -> Seq<char> {
        match self {
            EventView::Info(i) => i.raw,
            EventView::BestMove(b) => b.raw,
            EventView::RawLine(l) => l,
        }
    }
}

impl EngineEvent {
    /// The original text of the line.
    pub fn raw_line(&self) -> (s: &str)
        ensures
            s@ == self@.raw(),
    {
        match self {
            EngineEvent::Info(info) => info.raw.as_str(),
            EngineEvent::BestMove(bm) => bm.raw.as_str(),
            EngineEvent::RawLine(line) => line.as_str(),
        }
    }
}

} // verus!
