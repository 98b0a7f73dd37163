//! Reading engine output lines (`info`, `bestmove`, anything else).
use vstd::prelude::*;
use vstd::utf8::encode_utf8;
use vstd::string::StringSliceAdditionalSpecFns;
use crate::engine::event::{
    empty_info, strings_view, BestMoveView, EngineBestMove, EngineEvent, EngineInfo, EngineScore,
    EventView, InfoView,
};
use crate::engine::protocol::EngineProtocol;
use crate::text::{
    chars_eq_str, chars_start_with, parse_signed, parse_signed_chars, parse_unsigned,
    parse_unsigned_chars, seqs_view, split_whitespace, starts_with, str_chars, string_from_chars,
    trim, trim_chars, ws_tokens,
};
use crate::types::{ascii_lower, iccs_move_sliceable, Move};

verus! {

/// Whether `a` equals `b` ignoring ASCII case (`str::eq_ignore_ascii_case`;
/// for an ASCII `b` comparing characters is the same as comparing bytes).
pub open spec fn eq_ignore_case(a: Seq<char>, b: Seq<char>) -> bool {
    &&& a.len() == b.len()
    &&& forall|i: int| 0 <= i < a.len() ==> ascii_lower(#[trigger] a[i]) == ascii_lower(b[i])
}

/// ASCII lower case of a character.
pub fn to_ascii_lower(c: char) -> (d: char)
    ensures
        d == ascii_lower(c),
{
    if 'A' <= c && c <= 'Z' {
        ((c as u32) + 32) as u8 as char
    } else {
        c
    }
}

/// Whether the characters of `t` equal the literal `lit` ignoring ASCII case.
pub fn chars_eq_ignore_case(t: &[char], lit: &str) -> (b: bool)
    ensures
        b == eq_ignore_case(t@, lit@),
{
    let l = str_chars(lit);
    if t.len() != l.len() {
        return false;
    }
    let mut i: usize = 0;
    while i < t.len()
        invariant
            i <= t@.len(),
            t@.len() == l@.len(),
            l@ == lit@,
            forall|j: int| 0 <= j < i ==> ascii_lower(#[trigger] t@[j]) == ascii_lower(l@[j]),
        decreases t@.len() - i,
    {
        if to_ascii_lower(t[i]) != to_ascii_lower(l[i]) {
            return false;
        }
        i += 1;
    }
    true
}

/// The move a token names: none for the placeholders `0000` and `(none)`
/// (any case), otherwise the ICCS move if the token is one.
pub open spec fn move_token(t: Seq<char>) -> Option<Move> {
    if t == "0000"@ || eq_ignore_case(t, "(none)"@) {
        None
    } else {
        match Move::spec_from_bytes(encode_utf8(t)) {
            Ok(m) => Some(m),
            Err(_) => None,
        }
    }
}

/// Whether reading a token as a move is well defined (a placeholder, or text
/// that can be sliced as an ICCS move).
pub open spec fn move_token_safe(t: Seq<char>) -> bool {
    t == "0000"@ || eq_ignore_case(t, "(none)"@) || iccs_move_sliceable(encode_utf8(t))
}

/// The moves among a list of tokens, in order.
pub open spec fn pv_moves(ts: Seq<Seq<char>>) -> Seq<Move>
    decreases ts.len(),
{
    if ts.len() == 0 {
        Seq::empty()
    } else {
        pv_moves(ts.drop_last()) + match move_token(ts.last()) {
            Some(m) => seq![m],
            None => Seq::empty(),
        }
    }
}

/// Reads a move token.
pub fn parse_move_token(t: &[char]) -> (m: Option<Move>)
    requires
        move_token_safe(t@),
    ensures
        m == move_token(t@),
{
    if chars_eq_str(t, "0000") || chars_eq_ignore_case(t, "(none)") {
        return None;
    }
    let s = string_from_chars(t);
    let st = s.as_str();
    match Move::from_iccs(st) {
        Ok(m) => Some(m),
        Err(_) => None,
    }
}

/// The token at `k`, if any.
pub open spec fn tok_at(toks: Seq<Seq<char>>, k: int) -> Option<Seq<char>> {
    if 0 <= k < toks.len() {
        Some(toks[k])
    } else {
        None
    }
}

/// A `u32` field read from the token at `k`; unchanged when absent or unreadable.
pub open spec fn u32_at(toks: Seq<Seq<char>>, k: int, old: Option<u32>) -> Option<u32> {
    match tok_at(toks, k) {
        Some(t) => match parse_unsigned(t, u32::MAX as int) {
            Some(v) => Some(v as u32),
            None => old,
        },
        None => old,
    }
}

/// A `u64` field read from the token at `k`; unchanged when absent or unreadable.
pub open spec fn u64_at(toks: Seq<Seq<char>>, k: int, old: Option<u64>) -> Option<u64> {
    match tok_at(toks, k) {
        Some(t) => match parse_unsigned(t, u64::MAX as int) {
            Some(v) => Some(v as u64),
            None => old,
        },
        None => old,
    }
}

/// The score read after a `score` token at `i`: `cp <n>` or `mate <n>`;
/// unchanged otherwise.
pub open spec fn score_at(toks: Seq<Seq<char>>, i: int, old: Option<EngineScore>) -> Option<EngineScore> {
    match (tok_at(toks, i + 1), tok_at(toks, i + 2)) {
        (Some(kind), Some(v)) => match parse_signed(v, i32::MIN as int, i32::MAX as int) {
            Some(n) => if kind == "cp"@ {
                Some(EngineScore::Cp(n as i32))
            } else if kind == "mate"@ {
                Some(EngineScore::Mate(n as i32))
            } else {
                old
            },
            None => old,
        },
        _ => old,
    }
}

/// Reads an `info` line's tokens from index `i` on: each key takes the value
/// after it (a score takes two), unknown tokens are skipped one at a time,
/// and `pv` takes every remaining token.
pub open spec fn info_scan(toks: Seq<Seq<char>>, i: int, acc: InfoView) -> InfoView
    decreases toks.len() + 3 - i,
{
    if i < 0 || i >= toks.len() {
        acc
    } else if toks[i] == "depth"@ {
        info_scan(toks, i + 2, InfoView { depth: u32_at(toks, i + 1, acc.depth), ..acc })
    } else if toks[i] == "seldepth"@ {
        info_scan(toks, i + 2, InfoView { seldepth: u32_at(toks, i + 1, acc.seldepth), ..acc })
    } else if toks[i] == "time"@ {
        info_scan(toks, i + 2, InfoView { time_ms: u64_at(toks, i + 1, acc.time_ms), ..acc })
    } else if toks[i] == "nodes"@ {
        info_scan(toks, i + 2, InfoView { nodes: u64_at(toks, i + 1, acc.nodes), ..acc })
    } else if toks[i] == "nps"@ {
        info_scan(toks, i + 2, InfoView { nps: u64_at(toks, i + 1, acc.nps), ..acc })
    } else if toks[i] == "multipv"@ {
        info_scan(toks, i + 2, InfoView { multipv: u32_at(toks, i + 1, acc.multipv), ..acc })
    } else if toks[i] == "score"@ {
        info_scan(toks, i + 3, InfoView { score: score_at(toks, i, acc.score), ..acc })
    } else if toks[i] == "pv"@ {
        InfoView { pv_raw: toks.skip(i + 1), pv: pv_moves(toks.skip(i + 1)), ..acc }
    } else {
        info_scan(toks, i + 1, acc)
    }
}

/// Index of the `pv` token the reader stops at, if it reaches one.
pub open spec fn pv_index(toks: Seq<Seq<char>>, i: int) -> Option<int>
    decreases toks.len() + 3 - i,
{
    if i < 0 || i >= toks.len() {
        None
    } else if toks[i] == "depth"@ || toks[i] == "seldepth"@ || toks[i] == "time"@ || toks[i]
        == "nodes"@ || toks[i] == "nps"@ || toks[i] == "multipv"@ {
        pv_index(toks, i + 2)
    } else if toks[i] == "score"@ {
        pv_index(toks, i + 3)
    } else if toks[i] == "pv"@ {
        Some(i)
    } else {
        pv_index(toks, i + 1)
    }
}

pub open spec fn parse_info_spec(line: Seq<char>) -> InfoView {
    info_scan(ws_tokens(line), 1, empty_info(line))
}

pub open spec fn info_safe(line: Seq<char>) -> bool {
    let toks = ws_tokens(line);
    match pv_index(toks, 1) {
        Some(j) => forall|k: int| j < k < toks.len() ==> move_token_safe(#[trigger] toks[k]),
        None => true,
    }
}

/// The ponder move: the token after the first `ponder` at index 2 or later
/// that has a token after it.
pub open spec fn ponder_scan(toks: Seq<Seq<char>>, idx: int) -> Option<Move>
    decreases toks.len() - idx,
{
    if idx < 0 || idx + 1 >= toks.len() {
        None
    } else if toks[idx] == "ponder"@ {
        move_token(toks[idx + 1])
    } else {
        ponder_scan(toks, idx + 1)
    }
}

pub open spec fn ponder_index(toks: Seq<Seq<char>>, idx: int) -> Option<int>
    decreases toks.len() - idx,
{
    if idx < 0 || idx + 1 >= toks.len() {
        None
    } else if toks[idx] == "ponder"@ {
        Some(idx)
    } else {
        ponder_index(toks, idx + 1)
    }
}

pub open spec fn bestmove_spec(line: Seq<char>) -> BestMoveView {
    let toks = ws_tokens(line);
    let raw_tok = if toks.len() > 1 { toks[1] } else { "(none)"@ };
    BestMoveView { bestmove: move_token(raw_tok), bestmove_raw: raw_tok, ponder: ponder_scan(toks, 2), raw: line }
}

pub open spec fn bestmove_safe(line: Seq<char>) -> bool {
    let toks = ws_tokens(line);
    &&& toks.len() > 1 ==> move_token_safe(toks[1])
    &&& match ponder_index(toks, 2) {
        Some(j) => move_token_safe(toks[j + 1]),
        None => true,
    }
}

/// What one output line means: nothing for a blank line, otherwise (after
/// trimming) an `info` line, a `bestmove` line, or a raw line.
pub open spec fn spec_parse_line(line: Seq<char>) -> Option<EventView> {
    let t = trim(line);
    if t.len() == 0 {
        None
    } else if starts_with(t, "info"@) {
        Some(EventView::Info(parse_info_spec(t)))
    } else if starts_with(t, "bestmove"@) {
        Some(EventView::BestMove(bestmove_spec(t)))
    } else {
        Some(EventView::RawLine(t))
    }
}

/// Whether every token the reader takes as a move can be read as one.
pub open spec fn line_safe(line: Seq<char>) -> bool {
    let t = trim(line);
    if starts_with(t, "info"@) {
        info_safe(t)
    } else if starts_with(t, "bestmove"@) {
        bestmove_safe(t)
    } else {
        true
    }
}

/// Parses one line of engine output.
pub fn parse_engine_line(protocol: EngineProtocol, line: &str) -> (r: Option<EngineEvent>)
    requires
        line_safe(line@),
    ensures
        match spec_parse_line(line@) {
            Some(v) => r matches Some(e) && e@ == v,
            None => r is None,
        },
{
    let chars = str_chars(line);
    let trimmed = trim_chars(&chars);
    if trimmed.len() == 0 {
        return None;
    }
    if chars_start_with(trimmed.as_slice(), "info") {
        return Some(EngineEvent::Info(parse_info_line(protocol, &trimmed)));
    }
    if chars_start_with(trimmed.as_slice(), "bestmove") {
        return Some(EngineEvent::BestMove(parse_bestmove_line(&trimmed)));
    }
    Some(EngineEvent::RawLine(string_from_chars(trimmed.as_slice())))
}

fn u32_from(toks: &Vec<Vec<char>>, k: usize, old: Option<u32>) -> (r: Option<u32>)
    ensures
        r == u32_at(seqs_view(toks@), k as int, old),
{
    if k < toks.len() {
        proof {
            assert(seqs_view(toks@)[k as int] == toks@[k as int]@);
        }
        match parse_unsigned_chars(toks[k].as_slice(), 0xffff_ffff) {
            Some(v) => Some(v as u32),
            None => old,
        }
    } else {
        old
    }
}

fn u64_from(toks: &Vec<Vec<char>>, k: usize, old: Option<u64>) -> (r: Option<u64>)
    ensures
        r == u64_at(seqs_view(toks@), k as int, old),
{
    if k < toks.len() {
        proof {
            assert(seqs_view(toks@)[k as int] == toks@[k as int]@);
        }
        match parse_unsigned_chars(toks[k].as_slice(), 0xffff_ffff_ffff_ffff) {
            Some(v) => Some(v),
            None => old,
        }
    } else {
        old
    }
}

fn score_from(toks: &Vec<Vec<char>>, i: usize, old: Option<EngineScore>) -> (r: Option<EngineScore>)
    requires
        i < toks@.len(),
    ensures
        r == score_at(seqs_view(toks@), i as int, old),
{
    if toks.len() - i > 2 {
        proof {
            assert(seqs_view(toks@)[i + 1] == toks@[i + 1]@);
            assert(seqs_view(toks@)[i + 2] == toks@[i + 2]@);
        }
        let kind = &toks[i + 1];
        let value = &toks[i + 2];
        let n = match parse_signed_chars(value.as_slice(), -0x8000_0000, 0x7fff_ffff) {
            Some(n) => n,
            None => return old,
        };
        if chars_eq_str(kind.as_slice(), "cp") {
            Some(EngineScore::Cp(n as i32))
        } else if chars_eq_str(kind.as_slice(), "mate") {
            Some(EngineScore::Mate(n as i32))
        } else {
            old
        }
    } else {
        old
    }
}


/// `i + n`, or `len` when that would reach past `len`.
fn advance(i: usize, n: usize, len: usize) -> (r: usize)
    requires
        i < len,
        n >= 1,
    ensures
        r == if i + n < len { (i + n) as usize } else { len },
        r > i,
{
    if len - i > n {
        i + n
    } else {
        len
    }
}

fn parse_info_line(_protocol: EngineProtocol, line: &Vec<char>) -> (info: EngineInfo)
    requires
        info_safe(line@),
    ensures
        info@ == parse_info_spec(line@),
{
    let tokens = split_whitespace(line);
    let ghost toks = seqs_view(tokens@);
    let mut info = EngineInfo::default();
    info.raw = string_from_chars(line.as_slice());
    let mut i: usize = 1;
    while i < tokens.len()
        invariant
            toks == seqs_view(tokens@),
            toks == ws_tokens(line@),
            info_safe(line@),
            i >= 1,
            pv_index(toks, 1) == pv_index(toks, i as int),
            info_scan(toks, 1, empty_info(line@)) == info_scan(toks, i as int, info@),
        decreases tokens@.len() - i,
    {
        let t = tokens[i].as_slice();
        proof {
            assert(toks[i as int] == tokens@[i as int]@);
        }
        if chars_eq_str(t, "depth") {
            let ghost old_info = info@;
            info.depth = u32_from(&tokens, i + 1, info.depth);
            assert(toks[i as int] == "depth"@);
            assert(info@ == InfoView { depth: u32_at(toks, i + 1, old_info.depth), ..old_info });
            assert(info_scan(toks, i as int, old_info) == info_scan(toks, i + 2, info@));
            let ni = advance(i, 2, tokens.len());
            assert(info_scan(toks, ni as int, info@) == info_scan(toks, i + 2, info@));
            assert(pv_index(toks, ni as int) == pv_index(toks, i + 2));
            i = ni;
        } else if chars_eq_str(t, "seldepth") {
            let ghost old_info = info@;
            info.seldepth = u32_from(&tokens, i + 1, info.seldepth);
            assert(info_scan(toks, i as int, old_info) == info_scan(toks, i + 2, info@));
            let ni = advance(i, 2, tokens.len());
            assert(info_scan(toks, ni as int, info@) == info_scan(toks, i + 2, info@));
            assert(pv_index(toks, ni as int) == pv_index(toks, i + 2));
            i = ni;
        } else if chars_eq_str(t, "time") {
            let ghost old_info = info@;
            info.time_ms = u64_from(&tokens, i + 1, info.time_ms);
            assert(info_scan(toks, i as int, old_info) == info_scan(toks, i + 2, info@));
            let ni = advance(i, 2, tokens.len());
            assert(info_scan(toks, ni as int, info@) == info_scan(toks, i + 2, info@));
            assert(pv_index(toks, ni as int) == pv_index(toks, i + 2));
            i = ni;
        } else if chars_eq_str(t, "nodes") {
            let ghost old_info = info@;
            info.nodes = u64_from(&tokens, i + 1, info.nodes);
            assert(info_scan(toks, i as int, old_info) == info_scan(toks, i + 2, info@));
            let ni = advance(i, 2, tokens.len());
            assert(info_scan(toks, ni as int, info@) == info_scan(toks, i + 2, info@));
            assert(pv_index(toks, ni as int) == pv_index(toks, i + 2));
            i = ni;
        } else if chars_eq_str(t, "nps") {
            let ghost old_info = info@;
            info.nps = u64_from(&tokens, i + 1, info.nps);
            assert(info_scan(toks, i as int, old_info) == info_scan(toks, i + 2, info@));
            let ni = advance(i, 2, tokens.len());
            assert(info_scan(toks, ni as int, info@) == info_scan(toks, i + 2, info@));
            assert(pv_index(toks, ni as int) == pv_index(toks, i + 2));
            i = ni;
        } else if chars_eq_str(t, "multipv") {
            let ghost old_info = info@;
            info.multipv = u32_from(&tokens, i + 1, info.multipv);
            assert(info_scan(toks, i as int, old_info) == info_scan(toks, i + 2, info@));
            let ni = advance(i, 2, tokens.len());
            assert(info_scan(toks, ni as int, info@) == info_scan(toks, i + 2, info@));
            assert(pv_index(toks, ni as int) == pv_index(toks, i + 2));
            i = ni;
        } else if chars_eq_str(t, "score") {
            let ghost old_info = info@;
            info.score = score_from(&tokens, i, info.score);
            assert(info_scan(toks, i as int, old_info) == info_scan(toks, i + 3, info@));
            let ni = advance(i, 3, tokens.len());
            assert(info_scan(toks, ni as int, info@) == info_scan(toks, i + 3, info@));
            assert(pv_index(toks, ni as int) == pv_index(toks, i + 3));
            i = ni;
        } else if chars_eq_str(t, "pv") {
            let mut pv_raw: Vec<String> = Vec::new();
            let mut pv: Vec<Move> = Vec::new();
            let mut k: usize = i + 1;
            while k < tokens.len()
                invariant
                    i < k <= tokens@.len(),
                    toks == seqs_view(tokens@),
                    pv_index(toks, 1) == Some(i as int),
                    forall|m: int| i < m < toks.len() ==> move_token_safe(#[trigger] toks[m]),
                    strings_view(pv_raw@) == toks.subrange(i + 1, k as int),
                    pv@ == pv_moves(toks.subrange(i + 1, k as int)),
                decreases tokens@.len() - k,
            {
                proof {
                    assert(toks[k as int] == tokens@[k as int]@);
                    assert(move_token_safe(toks[k as int]));
                }
                let tk = tokens[k].as_slice();
                let ghost before_raw = strings_view(pv_raw@);
                let ghost before_pv = pv@;
                let s = string_from_chars(tk);
                pv_raw.push(s);
                let m = parse_move_token(tk);
                match m {
                    Some(mv) => pv.push(mv),
                    None => {},
                }
                proof {
                    let sub = toks.subrange(i + 1, k + 1);
                    assert(sub.drop_last() =~= toks.subrange(i + 1, k as int));
                    assert(sub.last() == toks[k as int]);
                    assert(strings_view(pv_raw@) =~= before_raw.push(toks[k as int]));
                    assert(strings_view(pv_raw@) =~= sub);
                    assert(pv@ =~= pv_moves(sub));
                }
                k += 1;
            }
            proof {
                assert(toks.subrange(i + 1, toks.len() as int) =~= toks.skip(i + 1));
            }
            info.pv_raw = pv_raw;
            info.pv = pv;
            return info;
        } else {
            assert(info_scan(toks, i as int, info@) == info_scan(toks, i + 1, info@));
            assert(pv_index(toks, i as int) == pv_index(toks, i + 1));
            i += 1;
        }
    }
    info
}


fn find_ponder(tokens: &Vec<Vec<char>>, line: &Vec<char>) -> (ponder: Option<Move>)
    requires
        seqs_view(tokens@) == ws_tokens(line@),
        bestmove_safe(line@),
    ensures
        ponder == ponder_scan(seqs_view(tokens@), 2),
{
    let ghost toks = seqs_view(tokens@);
    let mut idx: usize = 2;
    while idx < tokens.len() && tokens.len() - idx > 1
        invariant
            toks == seqs_view(tokens@),
            toks == ws_tokens(line@),
            bestmove_safe(line@),
            idx >= 2,
            ponder_scan(toks, 2) == ponder_scan(toks, idx as int),
            ponder_index(toks, 2) == ponder_index(toks, idx as int),
        decreases tokens@.len() - idx,
    {
        proof {
            assert(toks[idx as int] == tokens@[idx as int]@);
            assert(toks[idx + 1] == tokens@[idx + 1]@);
        }
        if chars_eq_str(tokens[idx].as_slice(), "ponder") {
            return parse_move_token(tokens[idx + 1].as_slice());
        }
        idx += 1;
    }
    None
}

fn parse_bestmove_line(line: &Vec<char>) -> (bm: EngineBestMove)
    requires
        bestmove_safe(line@),
    ensures
        bm@ == bestmove_spec(line@),
{
    let tokens = split_whitespace(line);
    let ghost toks = seqs_view(tokens@);
    let bestmove_raw: Vec<char> = if tokens.len() > 1 {
        proof {
            assert(toks[1] == tokens@[1]@);
        }
        let mut v: Vec<char> = Vec::new();
        let t = &tokens[1];
        let mut j: usize = 0;
        while j < t.len()
            invariant
                j <= t@.len(),
                v@ == t@.take(j as int),
            decreases t@.len() - j,
        {
            v.push(t[j]);
            proof {
                assert(t@.take(j + 1) =~= t@.take(j as int).push(t@[j as int]));
            }
            j += 1;
        }
        proof {
            assert(t@.take(t@.len() as int) =~= t@);
        }
        v
    } else {
        str_chars("(none)")
    };
    proof {
        if toks.len() <= 1 {
            assert(move_token_safe(bestmove_raw@)) by {
                assert(eq_ignore_case(bestmove_raw@, "(none)"@));
            }
        }
    }
    let bestmove = parse_move_token(bestmove_raw.as_slice());
    let ponder = find_ponder(&tokens, line);
    EngineBestMove {
        bestmove,
        bestmove_raw: string_from_chars(bestmove_raw.as_slice()),
        ponder,
        raw: string_from_chars(line.as_slice()),
    }
}

/// Reading on from `i`, a line with no further `depth` or `seldepth`
/// token keeps both depths as they were.
pub proof fn lemma_depths_kept_without_keys(toks: Seq<Seq<char>>, i: int, acc: InfoView)
    requires
        forall|k: int| i <= k < toks.len() ==> #[trigger] toks[k] != "depth"@ && toks[k] != "seldepth"@,
    ensures
        info_scan(toks, i, acc).depth == acc.depth,
        info_scan(toks, i, acc).seldepth == acc.seldepth,
    decreases toks.len() + 3 - i,
{
    if i < 0 || i >= toks.len() {
    } else if toks[i] == "depth"@ {
    } else if toks[i] == "seldepth"@ {
    } else if toks[i] == "time"@ {
        lemma_depths_kept_without_keys(toks, i + 2, InfoView { time_ms: u64_at(toks, i + 1, acc.time_ms), ..acc });
    } else if toks[i] == "nodes"@ {
        lemma_depths_kept_without_keys(toks, i + 2, InfoView { nodes: u64_at(toks, i + 1, acc.nodes), ..acc });
    } else if toks[i] == "nps"@ {
        lemma_depths_kept_without_keys(toks, i + 2, InfoView { nps: u64_at(toks, i + 1, acc.nps), ..acc });
    } else if toks[i] == "multipv"@ {
        lemma_depths_kept_without_keys(toks, i + 2, InfoView { multipv: u32_at(toks, i + 1, acc.multipv), ..acc });
    } else if toks[i] == "score"@ {
        lemma_depths_kept_without_keys(toks, i + 3, InfoView { score: score_at(toks, i, acc.score), ..acc });
    } else if toks[i] == "pv"@ {
    } else {
        lemma_depths_kept_without_keys(toks, i + 1, acc);
    }
}

/// A `seldepth <n>` pair sets the selective depth to `n` and leaves the depth
/// (and every other field) as it was; a `depth <n>` pair sets the depth to
/// `n` and leaves the selective depth as it was. Reading goes on after the pair.
pub proof fn lemma_depth_pairs(toks: Seq<Seq<char>>, i: int, acc: InfoView, n: u32)
    requires
        0 <= i,
        i + 1 < toks.len(),
        parse_unsigned(toks[i + 1], u32::MAX as int) == Some(n as int),
    ensures
        toks[i] == "seldepth"@ ==> info_scan(toks, i, acc) == info_scan(
            toks,
            i + 2,
            InfoView { seldepth: Some(n), ..acc },
        ),
        toks[i] == "depth"@ ==> info_scan(toks, i, acc) == info_scan(
            toks,
            i + 2,
            InfoView { depth: Some(n), ..acc },
        ),
{
    reveal_strlit("depth");
    reveal_strlit("seldepth");
    if toks[i] == "seldepth"@ {
        assert(toks[i] != "depth"@) by {
            assert(toks[i].len() != "depth"@.len());
        }
    }
}

/// An `info` line that begins `info depth <a> seldepth <b>` (and names
/// neither depth again) is read with depth `a` and selective depth `b`.
pub proof fn lemma_info_depth_then_seldepth(line: Seq<char>, a: u32, b: u32)
    requires
        starts_with(trim(line), "info"@),
        ws_tokens(trim(line)).len() >= 5,
        ws_tokens(trim(line))[1] == "depth"@,
        parse_unsigned(ws_tokens(trim(line))[2], u32::MAX as int) == Some(a as int),
        ws_tokens(trim(line))[3] == "seldepth"@,
        parse_unsigned(ws_tokens(trim(line))[4], u32::MAX as int) == Some(b as int),
        forall|k: int|
            5 <= k < ws_tokens(trim(line)).len() ==> #[trigger] ws_tokens(trim(line))[k] != "depth"@
                && ws_tokens(trim(line))[k] != "seldepth"@,
    ensures
        spec_parse_line(line) matches Some(EventView::Info(v)) && v.depth == Some(a) && v.seldepth
            == Some(b),
{
    reveal_strlit("info");
    let t = trim(line);
    let toks = ws_tokens(t);
    assert(t.len() > 0);
    let e = empty_info(t);
    lemma_depth_pairs(toks, 1, e, a);
    let e1 = InfoView { depth: Some(a), ..e };
    lemma_depth_pairs(toks, 3, e1, b);
    let e2 = InfoView { seldepth: Some(b), ..e1 };
    lemma_depths_kept_without_keys(toks, 5, e2);
}

/// A `time`, `nodes` or `nps` pair sets that count to the value after it
/// and leaves every other field as it was; a `multipv <n>` pair sets the
/// line number. Reading goes on after the pair.
pub proof fn lemma_count_pairs(toks: Seq<Seq<char>>, i: int, acc: InfoView, n: u64)
    requires
        0 <= i,
        i + 1 < toks.len(),
        parse_unsigned(toks[i + 1], u64::MAX as int) == Some(n as int),
    ensures
        toks[i] == "time"@ ==> info_scan(toks, i, acc) == info_scan(
            toks,
            i + 2,
            InfoView { time_ms: Some(n), ..acc },
        ),
        toks[i] == "nodes"@ ==> info_scan(toks, i, acc) == info_scan(
            toks,
            i + 2,
            InfoView { nodes: Some(n), ..acc },
        ),
        toks[i] == "nps"@ ==> info_scan(toks, i, acc) == info_scan(
            toks,
            i + 2,
            InfoView { nps: Some(n), ..acc },
        ),
        toks[i] == "multipv"@ && n <= u32::MAX ==> info_scan(toks, i, acc) == info_scan(
            toks,
            i + 2,
            InfoView { multipv: Some(n as u32), ..acc },
        ),
{
    reveal_strlit("depth");
    reveal_strlit("seldepth");
    reveal_strlit("time");
    reveal_strlit("nodes");
    reveal_strlit("nps");
    reveal_strlit("multipv");
    let t = toks[i];
    if t == "time"@ || t == "nodes"@ || t == "nps"@ || t == "multipv"@ {
        assert(t != "depth"@ && t != "seldepth"@) by {
            if t == "time"@ || t == "nodes"@ || t == "multipv"@ {
                assert(t[0] != 'd' && t[0] != 's');
            } else {
                assert(t.len() != "depth"@.len() && t.len() != "seldepth"@.len());
            }
        }
        assert(t == "time"@ ==> t != "nodes"@ && t != "nps"@ && t != "multipv"@);
        assert(t == "nodes"@ ==> t != "time"@ && t != "nps"@ && t != "multipv"@) by {
            if t == "nodes"@ {
                assert(t.len() != "nps"@.len());
            }
        }
        assert(t == "nps"@ ==> t != "time"@ && t != "nodes"@ && t != "multipv"@) by {
            if t == "nps"@ {
                assert(t.len() != "nodes"@.len());
            }
        }
        if toks[i] == "multipv"@ && n <= u32::MAX {
            assert(parse_unsigned(toks[i + 1], u32::MAX as int) == Some(n as int));
        }
    }
}

/// A `score cp <n>` or `score mate <n>` triple sets the score to that signed
/// number, in centipawns or moves to mate, and leaves every other field as
/// it was; reading goes on after the triple.
pub proof fn lemma_score_triple(toks: Seq<Seq<char>>, i: int, acc: InfoView, n: i32)
    requires
        0 <= i,
        i + 2 < toks.len(),
        toks[i] == "score"@,
        parse_signed(toks[i + 2], i32::MIN as int, i32::MAX as int) == Some(n as int),
    ensures
        toks[i + 1] == "cp"@ ==> info_scan(toks, i, acc) == info_scan(
            toks,
            i + 3,
            InfoView { score: Some(EngineScore::Cp(n)), ..acc },
        ),
        toks[i + 1] == "mate"@ ==> info_scan(toks, i, acc) == info_scan(
            toks,
            i + 3,
            InfoView { score: Some(EngineScore::Mate(n)), ..acc },
        ),
{
    reveal_strlit("depth");
    reveal_strlit("seldepth");
    reveal_strlit("time");
    reveal_strlit("nodes");
    reveal_strlit("nps");
    reveal_strlit("multipv");
    reveal_strlit("score");
    reveal_strlit("cp");
    reveal_strlit("mate");
    let t = toks[i];
    assert(t != "depth"@ && t != "seldepth"@ && t != "time"@ && t != "nodes"@ && t != "nps"@ && t
        != "multipv"@) by {
        assert(t[0] == 's');
        assert(t.len() != "seldepth"@.len());
    }
    assert(toks[i + 1] == "mate"@ ==> toks[i + 1] != "cp"@) by {
        if toks[i + 1] == "mate"@ {
            assert(toks[i + 1].len() != "cp"@.len());
        }
    }
}

} // verus!
