//! The analysis record of the analysis server: what one engine `info` line
//! (or a cloud-book answer) tells about a position, and the server's engine
//! settings.
use vstd::prelude::*;
use crate::engine::event::strings_view;
use crate::text::{
    parse_signed, parse_signed_chars, parse_unsigned, parse_unsigned_chars, push_str,
    split_whitespace, str_chars, string_from_chars, ws_tokens, seqs_view,
};

verus! {

/// Where a record's analysis came from when it came from the engine.
pub open spec fn engine_source() -> Seq<char> {
    "引擎"@
}

/// Outcome of a query.
#[derive(Debug, Clone, Copy, PartialEq, Eq, Structural)]
pub enum QueryState {
    Success,
    NotResult,
    InvalidBoard,
    ServerInternalError,
}

impl Default for QueryState {
    fn default() -> (s: Self)
        ensures
            s == QueryState::NotResult,
    {
        QueryState::NotResult
    }
}

/// One analysis of a position.
#[derive(Debug, Clone)]
pub struct QueryResult {
    /// Search depth.
    pub depth: usize,
    /// Score in centipawns; a mate in `n` is `30000 - n` (being mated: `-(30000 - n)`).
    pub score: isize,
    /// Search time in milliseconds.
    pub time: usize,
    pub nodes: u64,
    /// Nodes per second.
    pub nps: u64,
    /// Win / draw / loss, per mille.
    pub wdl: Option<[u16; 3]>,
    /// Principal variation in ICCS.
    pub pvs: Vec<String>,
    /// Principal variation in Chinese notation.
    pub moves: Vec<String>,
    pub state: QueryState,
    pub source: String,
}

/// `QueryResult` with its texts as character sequences.
pub struct QueryView {
    pub depth: usize,
    pub score: isize,
    pub time: usize,
    pub nodes: u64,
    pub nps: u64,
    pub wdl: Option<(u16, u16, u16)>,
    pub pvs: Seq<Seq<char>>,
    pub moves: Seq<Seq<char>>,
    pub state: QueryState,
    pub source: Seq<char>,
}

impl View for QueryResult {
    type V = QueryView;

    open spec fn view(&self) -> QueryView {
        QueryView {
            depth: self.depth,
            score: self.score,
            time: self.time,
            nodes: self.nodes,
            nps: self.nps,
            wdl: match self.wdl {
                Some(a) => Some((a[0], a[1], a[2])),
                None => None,
            },
            pvs: strings_view(self.pvs@),
            moves: strings_view(self.moves@),
            state: self.state,
            source: self.source@,
        }
    }
}

impl Default for QueryResult {
    fn default() -> (r: Self)
        ensures
            r@ == (QueryView {
                depth: 0,
                score: 0,
                time: 0,
                nodes: 0,
                nps: 0,
                wdl: None,
                pvs: Seq::empty(),
                moves: Seq::empty(),
                state: QueryState::NotResult,
                source: Seq::empty(),
            }),
    {
        let r = QueryResult {
            depth: 0,
            score: 0,
            time: 0,
            nodes: 0,
            nps: 0,
            wdl: None,
            pvs: Vec::new(),
            moves: Vec::new(),
            state: QueryState::NotResult,
            source: String::new(),
        };
        proof {
            assert(strings_view(r.pvs@) =~= Seq::empty());
            assert(strings_view(r.moves@) =~= Seq::empty());
        }
        r
    }
}

/// The server's engine settings.
#[derive(Debug, Clone, Copy, PartialEq, Eq, Structural)]
pub struct EngineConfig {
    pub depth: usize,
    /// Search time in milliseconds.
    pub time: usize,
    pub threads: usize,
    /// Hash size in MB.
    pub hash: usize,
    pub show_wdl: bool,
    pub chessdb_enabled: bool,
    /// Cloud-book timeout in seconds.
    pub chessdb_timeout: u64,
}

impl Default for EngineConfig {
    fn default() -> (c: Self)
        ensures
            c == (EngineConfig {
                depth: 20,
                time: 5000,
                threads: 4,
                hash: 64,
                show_wdl: false,
                chessdb_enabled: true,
                chessdb_timeout: 5,
            }),
    {
        EngineConfig {
            depth: 20,
            time: 5000,
            threads: 4,
            hash: 64,
            show_wdl: false,
            chessdb_enabled: true,
            chessdb_timeout: 5,
        }
    }
}

/// The value of an optional count token: its value, or 0 when it is absent
/// or not a number.
pub open spec fn count_or_zero(ts: Seq<Seq<char>>, i: int, max: int) -> int {
    if 0 <= i < ts.len() {
        match parse_unsigned(ts[i], max) {
            Some(v) => v,
            None => 0,
        }
    } else {
        0
    }
}

/// The score for a mate in `round` moves.
pub open spec fn mate_score(round: int) -> int {
    if round > 0 {
        30000 - round
    } else {
        -(30000 + round)
    }
}

pub open spec fn next_index(ts: Seq<Seq<char>>, j: int) -> int {
    if j <= ts.len() { j } else { ts.len() as int }
}

/// Whether reading the tokens from index `i` on finds what it needs: a
/// number after `depth` and `time`, a kind after `score`, and a number after
/// `score cp` and `score mate`.
pub open spec fn line_ok_from(ts: Seq<Seq<char>>, i: int) -> bool
    decreases ts.len() - i,
{
    if i < 0 || i >= ts.len() {
        true
    } else {
        let key = ts[i];
        if key == "depth"@ || key == "time"@ {
            i + 1 < ts.len() && parse_unsigned(ts[i + 1], usize::MAX as int) is Some && line_ok_from(
                ts,
                i + 2,
            )
        } else if key == "nodes"@ || key == "nps"@ {
            line_ok_from(ts, next_index(ts, i + 2))
        } else if key == "score"@ {
            i + 1 < ts.len() && if ts[i + 1] == "cp"@ || ts[i + 1] == "mate"@ {
                i + 2 < ts.len() && parse_signed(ts[i + 2], isize::MIN as int, isize::MAX as int)
                    is Some && line_ok_from(ts, i + 3)
            } else {
                line_ok_from(ts, i + 2)
            }
        } else if key == "wdl"@ {
            line_ok_from(ts, next_index(ts, i + 4))
        } else if key == "pv"@ {
            true
        } else {
            line_ok_from(ts, i + 1)
        }
    }
}

/// The record after reading the tokens from index `i` on into `v`.
pub open spec fn read_from(ts: Seq<Seq<char>>, i: int, v: QueryView) -> QueryView
    decreases ts.len() - i,
{
    if i < 0 || i >= ts.len() {
        v
    } else {
        let key = ts[i];
        if key == "depth"@ {
            read_from(
                ts,
                next_index(ts, i + 2),
                QueryView { depth: count_or_zero(ts, i + 1, usize::MAX as int) as usize, ..v },
            )
        } else if key == "time"@ {
            read_from(
                ts,
                next_index(ts, i + 2),
                QueryView { time: count_or_zero(ts, i + 1, usize::MAX as int) as usize, ..v },
            )
        } else if key == "nodes"@ {
            read_from(
                ts,
                next_index(ts, i + 2),
                QueryView { nodes: count_or_zero(ts, i + 1, u64::MAX as int) as u64, ..v },
            )
        } else if key == "nps"@ {
            read_from(
                ts,
                next_index(ts, i + 2),
                QueryView { nps: count_or_zero(ts, i + 1, u64::MAX as int) as u64, ..v },
            )
        } else if key == "score"@ {
            if i + 2 < ts.len() && ts[i + 1] == "cp"@ {
                let s = parse_signed(ts[i + 2], isize::MIN as int, isize::MAX as int);
                read_from(ts, i + 3, QueryView { score: s->Some_0 as isize, ..v })
            } else if i + 2 < ts.len() && ts[i + 1] == "mate"@ {
                let s = parse_signed(ts[i + 2], isize::MIN as int, isize::MAX as int);
                read_from(ts, i + 3, QueryView { score: mate_score(s->Some_0) as isize, ..v })
            } else {
                read_from(ts, next_index(ts, i + 2), v)
            }
        } else if key == "wdl"@ {
            let w = count_or_zero(ts, i + 1, u16::MAX as int) as u16;
            let d = count_or_zero(ts, i + 2, u16::MAX as int) as u16;
            let l = count_or_zero(ts, i + 3, u16::MAX as int) as u16;
            read_from(ts, next_index(ts, i + 4), QueryView { wdl: Some((w, d, l)), ..v })
        } else if key == "pv"@ {
            QueryView { pvs: v.pvs + ts.subrange(i + 1, ts.len() as int), ..v }
        } else {
            read_from(ts, i + 1, v)
        }
    }
}

/// The optional count at token `i + off` (0 when absent or not a number).
fn count_at(toks: &Vec<Vec<char>>, i: usize, off: usize, max: u64) -> (n: u64)
    requires
        max >= 9,
        i < toks@.len(),
    ensures
        n as int == count_or_zero(seqs_view(toks@), i + off, max as int),
{
    if off < toks.len() - i {
        match parse_unsigned_chars(toks[i + off].as_slice(), max) {
            Some(v) => v,
            None => 0,
        }
    } else {
        0
    }
}

/// `i + step`, or the number of tokens when that is past the end.
fn advance(len: usize, i: usize, step: usize) -> (j: usize)
    requires
        i < len,
    ensures
        j as int == if i + step <= len { i + step } else { len as int },
{
    if step <= len - i {
        i + step
    } else {
        len
    }
}

/// Reads one engine `info` line into `result`: the record is marked as coming
/// from the engine, and each `key value` pair it knows (`depth`, `time`,
/// `nodes`, `nps`, `score cp|mate`, `wdl`) sets its field; `pv` takes every
/// remaining token as the principal variation. A missing or malformed value
/// after `depth`, `time` or `score` is a caller error and is excluded.
pub fn parse_line(line: &str, result: &mut QueryResult)
    requires
        line_ok_from(ws_tokens(line@), 0),
    ensures
        final(result)@ == read_from(
            ws_tokens(line@),
            0,
            QueryView { source: engine_source(), ..old(result)@ },
        ),
{
    let chars = str_chars(line);
    let toks = split_whitespace(&chars);
    let ghost ts = seqs_view(toks@);
    let mut source = String::new();
    push_str(&mut source, "引擎");
    result.source = source;
    let ghost start = result@;
    let mut i: usize = 0;
    while i < toks.len()
        invariant
            ts == seqs_view(toks@),
            ts == ws_tokens(line@),
            i <= ts.len(),
            line_ok_from(ts, i as int),
            read_from(ts, i as int, result@) == read_from(ts, 0, start),
        decreases ts.len() - i,
    {
        let key = toks[i].as_slice();
        if crate::text::chars_eq_str(key, "depth") {
            let v = count_at(&toks, i, 1, usize::MAX as u64);
            result.depth = v as usize;
            i = advance(toks.len(), i, 2);
        } else if crate::text::chars_eq_str(key, "time") {
            let v = count_at(&toks, i, 1, usize::MAX as u64);
            result.time = v as usize;
            i = advance(toks.len(), i, 2);
        } else if crate::text::chars_eq_str(key, "nodes") {
            result.nodes = count_at(&toks, i, 1, u64::MAX);
            i = advance(toks.len(), i, 2);
        } else if crate::text::chars_eq_str(key, "nps") {
            result.nps = count_at(&toks, i, 1, u64::MAX);
            i = advance(toks.len(), i, 2);
        } else if crate::text::chars_eq_str(key, "score") {
            let kind = toks[i + 1].as_slice();
            if crate::text::chars_eq_str(kind, "cp") {
                let s = parse_signed_chars(toks[i + 2].as_slice(), isize::MIN as i128, isize::MAX as i128);
                match s {
                    Some(v) => {
                        result.score = v as isize;
                    },
                    None => {},
                }
                i = i + 3;
            } else if crate::text::chars_eq_str(kind, "mate") {
                let s = parse_signed_chars(toks[i + 2].as_slice(), isize::MIN as i128, isize::MAX as i128);
                match s {
                    Some(round) => {
                        result.score = if round > 0 {
                            (30000 - round) as isize
                        } else {
                            (-(30000 + round)) as isize
                        };
                    },
                    None => {},
                }
                i = i + 3;
            } else {
                i = advance(toks.len(), i, 2);
            }
        } else if crate::text::chars_eq_str(key, "wdl") {
            let w = count_at(&toks, i, 1, u16::MAX as u64);
            let d = count_at(&toks, i, 2, u16::MAX as u64);
            let l = count_at(&toks, i, 3, u16::MAX as u64);
            result.wdl = Some([w as u16, d as u16, l as u16]);
            i = advance(toks.len(), i, 4);
        } else if crate::text::chars_eq_str(key, "pv") {
            let ghost before = result@;
            let mut j: usize = i + 1;
            while j < toks.len()
                invariant
                    ts == seqs_view(toks@),
                    i < j <= ts.len(),
                    result@ == (QueryView { pvs: before.pvs + ts.subrange(i + 1, j as int), ..before }),
                decreases ts.len() - j,
            {
                let pv = string_from_chars(toks[j].as_slice());
                let ghost old_pvs = result.pvs@;
                result.pvs.push(pv);
                proof {
                    assert(strings_view(result.pvs@) =~= strings_view(old_pvs).push(pv@));
                    assert(ts.subrange(i + 1, j + 1) =~= ts.subrange(i + 1, j as int).push(ts[j as int]));
                    assert(strings_view(result.pvs@) =~= before.pvs + ts.subrange(i + 1, j + 1));
                }
                j += 1;
            }
            i = toks.len();
        } else {
            i = i + 1;
        }
    }
}

} // verus!
