//! The chessdb.cn cloud book: building the query and reading its answer.
//! Sending the request over the network is left to the caller.
use vstd::prelude::*;
use vstd::utf8::encode_utf8;
use vstd::string::StringSliceAdditionalSpecFns;
use crate::engine::event::{strings_view, EngineInfo, EngineScore, InfoView};
use crate::engine::parser::{chars_eq_ignore_case, eq_ignore_case};
use crate::text::{
    all_digits, chars_start_with, digits_value, is_ws, lemma_trim_no_ws_ends, parse_signed, parse_signed_chars, parse_unsigned, parse_unsigned_chars,
    push_char, push_str, seqs_view, split_chars, split_on, starts_with, str_chars,
    string_from_chars, trim, trim_chars,
};
use crate::types::{iccs_move_sliceable, Move};

verus! {

/// Answer of the cloud book.
#[derive(Debug, Clone, PartialEq, Eq)]
pub enum ChessDbResponse {
    /// The position is not in the book.
    NotResult,
    /// The book rejects the position (invalid, checkmate or stalemate).
    InvalidBoard(String),
    Hit(ChessDbHit),
}

/// A book entry: score, depth and principal variation.
#[derive(Debug, Clone, PartialEq, Eq)]
pub struct ChessDbHit {
    pub score: Option<i32>,
    pub depth: Option<u32>,
    pub pv: Vec<Move>,
    pub pv_raw: Vec<String>,
    pub raw: String,
}

/// `ChessDbHit` with its texts as character sequences.
pub struct HitView {
    pub score: Option<i32>,
    pub depth: Option<u32>,
    pub pv: Seq<Move>,
    pub pv_raw: Seq<Seq<char>>,
    pub raw: Seq<char>,
}

impl View for ChessDbHit {
    type V = HitView;

    open spec fn view(&self) -> HitView {
        HitView {
            score: self.score,
            depth: self.depth,
            pv: self.pv@,
            pv_raw: strings_view(self.pv_raw@),
            raw: self.raw@,
        }
    }
}

/// `ChessDbResponse` with its texts as character sequences.
pub enum ResponseView {
    NotResult,
    InvalidBoard(Seq<char>),
    Hit(HitView),
}

impl View for ChessDbResponse {
    type V = ResponseView;

    open spec fn view(&self) -> ResponseView {
        match self {
            ChessDbResponse::NotResult => ResponseView::NotResult,
            ChessDbResponse::InvalidBoard(s) => ResponseView::InvalidBoard(s@),
            ChessDbResponse::Hit(h) => ResponseView::Hit(h@),
        }
    }
}

fn copy_moves(v: &Vec<Move>) -> (r: Vec<Move>)
    ensures
        r@ == v@,
{
    let mut r: Vec<Move> = Vec::new();
    let mut i: usize = 0;
    while i < v.len()
        invariant
            i <= v@.len(),
            r@ == v@.take(i as int),
        decreases v@.len() - i,
    {
        r.push(v[i]);
        proof {
            assert(v@.take(i + 1) =~= v@.take(i as int).push(v@[i as int]));
        }
        i += 1;
    }
    proof {
        assert(v@.take(v@.len() as int) =~= v@);
    }
    r
}

fn copy_strings(v: &Vec<String>) -> (r: Vec<String>)
    ensures
        strings_view(r@) == strings_view(v@),
{
    let mut r: Vec<String> = Vec::new();
    let mut i: usize = 0;
    while i < v.len()
        invariant
            i <= v@.len(),
            strings_view(r@) == strings_view(v@.take(i as int)),
        decreases v@.len() - i,
    {
        let s = v[i].clone();
        let ghost before = strings_view(r@);
        r.push(s);
        proof {
            assert(v@.take(i + 1) =~= v@.take(i as int).push(v@[i as int]));
            assert(strings_view(r@) =~= before.push(s@));
            assert(strings_view(v@.take(i + 1)) =~= strings_view(v@.take(i as int)).push(v@[i as int]@));
        }
        i += 1;
    }
    proof {
        assert(v@.take(v@.len() as int) =~= v@);
    }
    r
}

impl ChessDbHit {
    /// The entry as engine information: depth, centipawn score, PV and raw text.
    pub fn to_engine_info(&self) -> (info: EngineInfo)
        ensures
            info@ == (InfoView {
                depth: self.depth,
                seldepth: None,
                time_ms: None,
                nodes: None,
                nps: None,
                multipv: None,
                score: match self.score {
                    Some(cp) => Some(EngineScore::Cp(cp)),
                    None => None,
                },
                pv: self@.pv,
                pv_raw: self@.pv_raw,
                raw: self@.raw,
            }),
    {
        let score = match self.score {
            Some(cp) => Some(EngineScore::Cp(cp)),
            None => None,
        };
        EngineInfo {
            depth: self.depth,
            seldepth: None,
            time_ms: None,
            nodes: None,
            nps: None,
            multipv: None,
            score,
            pv: copy_moves(&self.pv),
            pv_raw: copy_strings(&self.pv_raw),
            raw: self.raw.clone(),
        }
    }
}

/// Bytes that stay unescaped in a URL query: ASCII letters, digits, `-_.~`.
pub open spec fn url_safe(b: u8) -> bool {
    ||| 48 <= b <= 57
    ||| 65 <= b <= 90
    ||| 97 <= b <= 122
    ||| b == 45 || b == 95 || b == 46 || b == 126
}

/// Upper-case hexadecimal digit of a value below 16.
pub open spec fn hex_digit(d: int) -> char {
    if d < 10 {
        (48 + d) as char
    } else {
        (55 + d) as char
    }
}

/// Percent-encoding of the given bytes.
pub open spec fn url_encode_spec(bs: Seq<u8>) -> Seq<char>
    decreases bs.len(),
{
    if bs.len() == 0 {
        Seq::empty()
    } else {
        url_encode_spec(bs.drop_last()) + if url_safe(bs.last()) {
            seq![bs.last() as char]
        } else {
            seq!['%', hex_digit((bs.last() / 16) as int), hex_digit((bs.last() % 16) as int)]
        }
    }
}

fn hex_char(d: u8) -> (c: char)
    requires
        d < 16,
    ensures
        c == hex_digit(d as int),
{
    if d < 10 {
        (48 + d) as char
    } else {
        (55 + d) as char
    }
}

/// Percent-encodes the UTF-8 bytes of `input` for a URL query.
pub fn url_encode(input: &str) -> (s: String)
    ensures
        s@ == url_encode_spec(input.spec_bytes()),
{
    let bytes = input.as_bytes();
    let mut out = String::new();
    let mut i: usize = 0;
    while i < bytes.len()
        invariant
            i <= bytes@.len(),
            bytes@ == input.spec_bytes(),
            out@ == url_encode_spec(bytes@.take(i as int)),
        decreases bytes@.len() - i,
    {
        let b = bytes[i];
        let safe = (48 <= b && b <= 57) || (65 <= b && b <= 90) || (97 <= b && b <= 122) || b == 45
            || b == 95 || b == 46 || b == 126;
        let ghost before = out@;
        if safe {
            push_char(&mut out, b as char);
        } else {
            push_char(&mut out, '%');
            push_char(&mut out, hex_char(b / 16));
            push_char(&mut out, hex_char(b % 16));
        }
        proof {
            assert(bytes@.take(i + 1).drop_last() =~= bytes@.take(i as int));
            assert(bytes@.take(i + 1).last() == b);
            if safe {
                assert(out@ =~= before + seq![b as char]);
            } else {
                assert(out@ =~= before + seq!['%', hex_digit((b / 16) as int), hex_digit((b % 16) as int)]);
            }
        }
        i += 1;
    }
    proof {
        assert(bytes@.take(bytes@.len() as int) =~= bytes@);
    }
    out
}

/// Percent-encoding leaves bytes that are all URL-safe as they are, one
/// character per byte.
pub proof fn lemma_url_encode_safe(bs: Seq<u8>)
    requires
        forall|i: int| 0 <= i < bs.len() ==> url_safe(#[trigger] bs[i]),
    ensures
        url_encode_spec(bs) == bs.map_values(|b: u8| b as char),
    decreases bs.len(),
{
    if bs.len() > 0 {
        let init = bs.drop_last();
        assert forall|i: int| 0 <= i < init.len() implies url_safe(#[trigger] init[i]) by {
            assert(init[i] == bs[i]);
        }
        lemma_url_encode_safe(init);
        assert(url_safe(bs[bs.len() - 1]));
        assert(bs.map_values(|b: u8| b as char) =~= init.map_values(|b: u8| b as char) + seq![bs.last() as char]);
    }
}

/// The HTTP request asking the book for the principal variation of `fen`.
pub open spec fn spec_request(host: Seq<char>, fen: &str) -> Seq<char> {
    "GET /chessdb.php?action=querypv&board="@ + url_encode_spec(fen.spec_bytes()) + " HTTP/1.1\r\nHost: "@
        + host + "\r\nUser-Agent: xq-app/0.1\r\nReferer: https://www.chessdb.cn/query/\r\nConnection: close\r\n\r\n"@
}

/// Builds the HTTP request for `fen` to `host`.
pub fn build_request(host: &str, fen: &str) -> (s: String)
    ensures
        s@ == spec_request(host@, fen),
{
    let encoded = url_encode(fen);
    let mut out = String::new();
    push_str(&mut out, "GET /chessdb.php?action=querypv&board=");
    push_str(&mut out, encoded.as_str());
    push_str(&mut out, " HTTP/1.1\r\nHost: ");
    push_str(&mut out, host);
    push_str(&mut out, "\r\nUser-Agent: xq-app/0.1\r\nReferer: https://www.chessdb.cn/query/\r\nConnection: close\r\n\r\n");
    out
}

/// The non-empty trimmed items of a list.
pub open spec fn nonempty_trimmed(ps: Seq<Seq<char>>) -> Seq<Seq<char>>
    decreases ps.len(),
{
    if ps.len() == 0 {
        Seq::empty()
    } else {
        nonempty_trimmed(ps.drop_last()) + if trim(ps.last()).len() > 0 {
            seq![trim(ps.last())]
        } else {
            Seq::empty()
        }
    }
}

/// The items that are ICCS moves, in order.
pub open spec fn iccs_moves(ts: Seq<Seq<char>>) -> Seq<Move>
    decreases ts.len(),
{
    if ts.len() == 0 {
        Seq::empty()
    } else {
        iccs_moves(ts.drop_last()) + match Move::spec_from_bytes(encode_utf8(ts.last())) {
            Ok(m) => seq![m],
            Err(_) => Seq::empty(),
        }
    }
}

/// One comma-separated field of a hit: `score:<n>`, `depth:<n>`, `pv:<m>|<m>|...`;
/// other fields are ignored, later fields replace earlier ones.
pub open spec fn apply_field(acc: HitView, part: Seq<char>) -> HitView {
    let p = trim(part);
    if starts_with(p, "score:"@) {
        HitView {
            score: match parse_signed(trim(p.skip("score:"@.len() as int)), i32::MIN as int, i32::MAX as int) {
                Some(v) => Some(v as i32),
                None => None,
            },
            ..acc
        }
    } else if starts_with(p, "depth:"@) {
        HitView {
            depth: match parse_unsigned(trim(p.skip("depth:"@.len() as int)), u32::MAX as int) {
                Some(v) => Some(v as u32),
                None => None,
            },
            ..acc
        }
    } else if starts_with(p, "pv:"@) {
        let items = nonempty_trimmed(split_on(p.skip("pv:"@.len() as int), '|'));
        HitView { pv_raw: items, pv: iccs_moves(items), ..acc }
    } else {
        acc
    }
}

pub open spec fn hit_scan(parts: Seq<Seq<char>>, n: int, acc: HitView) -> HitView
    decreases n,
{
    if n <= 0 {
        acc
    } else {
        apply_field(hit_scan(parts, n - 1, acc), parts[n - 1])
    }
}

/// Whether the book's text says "not in the book".
pub open spec fn is_not_result(content: Seq<char>) -> bool {
    content.len() == 0 || eq_ignore_case(content, "unknown"@)
}

/// Whether the book's text says the position is rejected.
pub open spec fn is_invalid_board(content: Seq<char>) -> bool {
    eq_ignore_case(content, "invalid board"@) || eq_ignore_case(content, "checkmate"@) || eq_ignore_case(
        content,
        "stalemate"@,
    )
}

/// What a response body means (after trimming).
pub open spec fn spec_parse_body(body: Seq<char>) -> ResponseView {
    let content = trim(body);
    if is_not_result(content) {
        ResponseView::NotResult
    } else if is_invalid_board(content) {
        ResponseView::InvalidBoard(content)
    } else {
        let parts = split_on(content, ',');
        ResponseView::Hit(hit_scan(parts, parts.len() as int, HitView {
            score: None,
            depth: None,
            pv: Seq::empty(),
            pv_raw: Seq::empty(),
            raw: content,
        }))
    }
}

/// Whether every PV item of a hit can be sliced as an ICCS move.
pub open spec fn body_safe(body: Seq<char>) -> bool {
    let content = trim(body);
    let parts = split_on(content, ',');
    (!is_not_result(content) && !is_invalid_board(content)) ==> forall|k: int, j: int|
        0 <= k < parts.len() && starts_with(trim(#[trigger] parts[k]), "pv:"@) && 0 <= j < nonempty_trimmed(
            split_on(trim(parts[k]).skip("pv:"@.len() as int), '|'),
        ).len() ==> iccs_move_sliceable(encode_utf8(
            #[trigger] nonempty_trimmed(split_on(trim(parts[k]).skip("pv:"@.len() as int), '|'))[j],
        ))
}

/// `t` without the literal prefix `lit`, if it starts with it.
fn strip_prefix(t: &Vec<char>, lit: &str) -> (r: Option<Vec<char>>)
    ensures
        match r {
            Some(v) => starts_with(t@, lit@) && v@ == t@.skip(lit@.len() as int),
            None => !starts_with(t@, lit@),
        },
{
    if !chars_start_with(t.as_slice(), lit) {
        return None;
    }
    let n = str_chars(lit).len();
    let mut v: Vec<char> = Vec::new();
    let mut i: usize = n;
    while i < t.len()
        invariant
            n <= i <= t@.len(),
            v@ == t@.subrange(n as int, i as int),
        decreases t@.len() - i,
    {
        v.push(t[i]);
        proof {
            assert(t@.subrange(n as int, i + 1) =~= t@.subrange(n as int, i as int).push(t@[i as int]));
        }
        i += 1;
    }
    proof {
        assert(t@.subrange(n as int, t@.len() as int) =~= t@.skip(n as int));
    }
    Some(v)
}

fn read_pv(rest: &Vec<char>) -> (r: (Vec<String>, Vec<Move>))
    requires
        forall|j: int| 0 <= j < nonempty_trimmed(split_on(rest@, '|')).len() ==> iccs_move_sliceable(
            encode_utf8(#[trigger] nonempty_trimmed(split_on(rest@, '|'))[j]),
        ),
    ensures
        strings_view(r.0@) == nonempty_trimmed(split_on(rest@, '|')),
        r.1@ == iccs_moves(nonempty_trimmed(split_on(rest@, '|'))),
{
    let items = split_chars(rest, '|');
    let ghost iv = seqs_view(items@);
    let ghost all = nonempty_trimmed(iv);
    let mut pv_raw: Vec<String> = Vec::new();
    let mut pv: Vec<Move> = Vec::new();
    let mut i: usize = 0;
    while i < items.len()
        invariant
            i <= items@.len(),
            iv == seqs_view(items@),
            iv == split_on(rest@, '|'),
            all == nonempty_trimmed(iv),
            forall|j: int| 0 <= j < all.len() ==> iccs_move_sliceable(encode_utf8(#[trigger] all[j])),
            strings_view(pv_raw@) == nonempty_trimmed(iv.take(i as int)),
            pv@ == iccs_moves(nonempty_trimmed(iv.take(i as int))),
        decreases items@.len() - i,
    {
        proof {
            assert(iv[i as int] == items@[i as int]@);
            assert(iv.take(i + 1).drop_last() =~= iv.take(i as int));
            assert(iv.take(i + 1).last() == iv[i as int]);
            lemma_nonempty_trimmed_prefix(iv, i + 1);
        }
        let t = trim_chars(&items[i]);
        if t.len() > 0 {
            let s = string_from_chars(t.as_slice());
            let ghost before_raw = strings_view(pv_raw@);
            let ghost prefix = nonempty_trimmed(iv.take(i + 1));
            proof {
                assert(prefix =~= nonempty_trimmed(iv.take(i as int)).push(t@));
                assert(prefix.last() == t@);
                assert(all[prefix.len() - 1] == t@);
                assert(iccs_move_sliceable(encode_utf8(t@)));
            }
            pv_raw.push(s);
            let st = s_ref(&pv_raw, pv_raw.len() - 1);
            match Move::from_iccs(st) {
                Ok(m) => pv.push(m),
                Err(_) => {},
            }
            proof {
                assert(strings_view(pv_raw@) =~= before_raw.push(t@));
                assert(prefix.drop_last() =~= nonempty_trimmed(iv.take(i as int)));
                assert(st@ == t@);
                assert(pv@ =~= iccs_moves(prefix));
            }
        } else {
            proof {
                assert(nonempty_trimmed(iv.take(i + 1)) =~= nonempty_trimmed(iv.take(i as int)));
            }
        }
        i += 1;
    }
    proof {
        assert(iv.take(items@.len() as int) =~= iv);
    }
    (pv_raw, pv)
}

fn s_ref(v: &Vec<String>, k: usize) -> (s: &str)
    requires
        k < v@.len(),
    ensures
        s@ == v@[k as int]@,
{
    v[k].as_str()
}

proof fn lemma_nonempty_trimmed_prefix(ps: Seq<Seq<char>>, n: int)
    requires
        0 <= n <= ps.len(),
    ensures
        nonempty_trimmed(ps.take(n)).len() <= nonempty_trimmed(ps).len(),
        forall|j: int| 0 <= j < nonempty_trimmed(ps.take(n)).len() ==> #[trigger] nonempty_trimmed(ps.take(n))[j]
            == nonempty_trimmed(ps)[j],
    decreases ps.len() - n,
{
    if n < ps.len() {
        lemma_nonempty_trimmed_prefix(ps, n + 1);
        assert(ps.take(n + 1).drop_last() =~= ps.take(n));
        let a = nonempty_trimmed(ps.take(n));
        let b = nonempty_trimmed(ps.take(n + 1));
        assert(b == a + if trim(ps.take(n + 1).last()).len() > 0 {
            seq![trim(ps.take(n + 1).last())]
        } else {
            Seq::<Seq<char>>::empty()
        });
        assert forall|j: int| 0 <= j < a.len() implies #[trigger] a[j] == nonempty_trimmed(ps)[j] by {
            assert(a[j] == b[j]);
        }
    } else {
        assert(ps.take(n) =~= ps);
    }
}

/// Reads a response body of the cloud book.
pub fn parse_body(body: &str) -> (r: ChessDbResponse)
    requires
        body_safe(body@),
    ensures
        r@ == spec_parse_body(body@),
{
    let chars = str_chars(body);
    let content = trim_chars(&chars);
    if content.len() == 0 || chars_eq_ignore_case(content.as_slice(), "unknown") {
        return ChessDbResponse::NotResult;
    }
    if chars_eq_ignore_case(content.as_slice(), "invalid board") || chars_eq_ignore_case(
        content.as_slice(),
        "checkmate",
    ) || chars_eq_ignore_case(content.as_slice(), "stalemate") {
        return ChessDbResponse::InvalidBoard(string_from_chars(content.as_slice()));
    }
    let mut hit = ChessDbHit {
        score: None,
        depth: None,
        pv: Vec::new(),
        pv_raw: Vec::new(),
        raw: string_from_chars(content.as_slice()),
    };
    let ghost init = hit@;
    proof {
        assert(strings_view(hit.pv_raw@) =~= Seq::<Seq<char>>::empty());
        assert(hit@.pv =~= Seq::<Move>::empty());
    }
    let parts = split_chars(&content, ',');
    let ghost pv = seqs_view(parts@);
    let mut i: usize = 0;
    while i < parts.len()
        invariant
            i <= parts@.len(),
            pv == seqs_view(parts@),
            pv == split_on(content@, ','),
            content@ == trim(body@),
            !is_not_result(content@) && !is_invalid_board(content@),
            body_safe(body@),
            init == (HitView { score: None, depth: None, pv: Seq::empty(), pv_raw: Seq::empty(), raw: content@ }),
            hit@ == hit_scan(pv, i as int, init),
        decreases parts@.len() - i,
    {
        proof {
            assert(pv[i as int] == parts@[i as int]@);
        }
        let part = trim_chars(&parts[i]);
        if let Some(value) = strip_prefix(&part, "score:") {
            let v = trim_chars(&value);
            hit.score = match parse_signed_chars(v.as_slice(), -0x8000_0000, 0x7fff_ffff) {
                Some(n) => Some(n as i32),
                None => None,
            };
        } else if let Some(value) = strip_prefix(&part, "depth:") {
            let v = trim_chars(&value);
            hit.depth = match parse_unsigned_chars(v.as_slice(), 0xffff_ffff) {
                Some(n) => Some(n as u32),
                None => None,
            };
        } else if let Some(value) = strip_prefix(&part, "pv:") {
            proof {
                assert(starts_with(trim(pv[i as int]), "pv:"@));
                assert forall|j: int| 0 <= j < nonempty_trimmed(split_on(value@, '|')).len() implies iccs_move_sliceable(
                    encode_utf8(#[trigger] nonempty_trimmed(split_on(value@, '|'))[j]),
                ) by {
                    assert(nonempty_trimmed(split_on(trim(pv[i as int]).skip("pv:"@.len() as int), '|'))[j]
                        == nonempty_trimmed(split_on(value@, '|'))[j]);
                }
            }
            let (pv_raw, moves) = read_pv(&value);
            hit.pv_raw = pv_raw;
            hit.pv = moves;
        }
        i += 1;
    }
    ChessDbResponse::Hit(hit)
}

/// Whether the blank line that ends the HTTP headers starts at index `i`.
pub open spec fn header_end_at(raw: Seq<char>, i: int) -> bool {
    0 <= i && i + 4 <= raw.len() && raw[i] == '\r' && raw[i + 1] == '\n' && raw[i + 2] == '\r'
        && raw[i + 3] == '\n'
}

/// The body of an HTTP response: the trimmed text after the first blank line,
/// or the whole trimmed text when there is none.
pub open spec fn spec_response_body(raw: Seq<char>) -> Seq<char> {
    if exists|i: int| header_end_at(raw, i) {
        let i = choose|i: int| header_end_at(raw, i) && forall|j: int| 0 <= j < i ==> !header_end_at(raw, j);
        trim(raw.subrange(i + 4, raw.len() as int))
    } else {
        trim(raw)
    }
}

/// Extracts the body from the text of an HTTP response.
pub fn response_body(raw: &str) -> (body: String)
    ensures
        body@ == spec_response_body(raw@),
{
    let chars = str_chars(raw);
    let n = chars.len();
    let mut i: usize = 0;
    while i < n && n - i >= 4
        invariant
            i <= n,
            n == chars@.len(),
            chars@ == raw@,
            forall|j: int| 0 <= j < i ==> !header_end_at(raw@, j),
        decreases n - i,
    {
        if chars[i] == '\r' && chars[i + 1] == '\n' && chars[i + 2] == '\r' && chars[i + 3] == '\n' {
            let ghost k = choose|k: int| header_end_at(raw@, k) && forall|j: int| 0 <= j < k ==> !header_end_at(raw@, j);
            proof {
                assert(header_end_at(raw@, i as int));
                if k < i {
                    assert(!header_end_at(raw@, k));
                }
                if k > i {
                    assert(!header_end_at(raw@, i as int));
                }
                assert(k == i);
            }
            let mut rest: Vec<char> = Vec::new();
            let mut j: usize = i + 4;
            while j < n
                invariant
                    i + 4 <= j <= n,
                    n == chars@.len(),
                    rest@ == chars@.subrange(i + 4, j as int),
                decreases n - j,
            {
                rest.push(chars[j]);
                proof {
                    assert(chars@.subrange(i + 4, j + 1) =~= chars@.subrange(i + 4, j as int).push(chars@[j as int]));
                }
                j += 1;
            }
            let t = trim_chars(&rest);
            return string_from_chars(t.as_slice());
        }
        i += 1;
    }
    proof {
        assert forall|j: int| !header_end_at(raw@, j) by {
            if 0 <= j < i {
            } else if header_end_at(raw@, j) {
                assert(j + 4 <= n);
            }
        }
    }
    let t = trim_chars(&chars);
    string_from_chars(t.as_slice())
}

/// A `score:` field whose value is decimal digits, with or without a minus
/// sign in front, within the range of `i32`, sets the hit's score to that
/// signed number and leaves the other fields as they were.
pub proof fn lemma_score_field(acc: HitView, part: Seq<char>, negative: bool, digits: Seq<char>)
    requires
        digits.len() > 0,
        all_digits(digits),
        negative ==> digits_value(digits) <= 0x8000_0000,
        !negative ==> digits_value(digits) <= 0x7fff_ffff,
        trim(part) == "score:"@ + (if negative { seq!['-'] } else { Seq::<char>::empty() }) + digits,
    ensures
        apply_field(acc, part).score matches Some(n) && n as int == if negative {
            -digits_value(digits)
        } else {
            digits_value(digits) as int
        },
        apply_field(acc, part).depth == acc.depth,
        apply_field(acc, part).pv == acc.pv,
        apply_field(acc, part).pv_raw == acc.pv_raw,
        apply_field(acc, part).raw == acc.raw,
{
    reveal_strlit("score:");
    let sign: Seq<char> = if negative { seq!['-'] } else { Seq::<char>::empty() };
    let v = sign + digits;
    let p = trim(part);
    assert(p.take(6) =~= "score:"@);
    assert(starts_with(p, "score:"@));
    assert(p.skip(6) =~= v);
    assert('0' <= digits[0] <= '9');
    assert('0' <= digits.last() <= '9');
    assert(v.last() == digits.last());
    assert(!is_ws(v[0]));
    assert(!is_ws(v.last()));
    lemma_trim_no_ws_ends(v);
    if negative {
        assert(v[0] == '-');
        assert(v.drop_first() =~= digits);
    } else {
        assert(v =~= digits);
        assert(v[0] != '-' && v[0] != '+');
    }
}

/// A field that is not a `score:` field leaves the hit's score alone.
proof fn lemma_other_field_keeps_score(acc: HitView, part: Seq<char>)
    requires
        !starts_with(trim(part), "score:"@),
    ensures
        apply_field(acc, part).score == acc.score,
{
}

/// After the `k`-th part, parts that are not `score:` fields leave the score alone.
proof fn lemma_score_after(parts: Seq<Seq<char>>, k: int, n: int, acc: HitView)
    requires
        0 <= k < n <= parts.len(),
        forall|i: int| k < i < parts.len() ==> !starts_with(trim(#[trigger] parts[i]), "score:"@),
    ensures
        hit_scan(parts, n, acc).score == hit_scan(parts, k + 1, acc).score,
    decreases n,
{
    if n > k + 1 {
        lemma_score_after(parts, k, n - 1, acc);
        lemma_other_field_keeps_score(hit_scan(parts, n - 1, acc), parts[n - 1]);
    }
}

/// The score of a hit is the signed number of its last `score:` field: for a
/// body that the book answered with an entry, whose last `score:` field holds
/// decimal digits (with or without a minus sign) within the range of `i32`,
/// the hit's score is that number, negative values included.
pub proof fn lemma_hit_score_is_last_score_field(
    body: Seq<char>,
    k: int,
    negative: bool,
    digits: Seq<char>,
)
    requires
        !is_not_result(trim(body)),
        !is_invalid_board(trim(body)),
        0 <= k < split_on(trim(body), ',').len(),
        forall|i: int|
            k < i < split_on(trim(body), ',').len() ==> !starts_with(
                trim(#[trigger] split_on(trim(body), ',')[i]),
                "score:"@,
            ),
        digits.len() > 0,
        all_digits(digits),
        negative ==> digits_value(digits) <= 0x8000_0000,
        !negative ==> digits_value(digits) <= 0x7fff_ffff,
        trim(split_on(trim(body), ',')[k]) == "score:"@ + (if negative {
            seq!['-']
        } else {
            Seq::<char>::empty()
        }) + digits,
    ensures
        spec_parse_body(body) matches ResponseView::Hit(h) && h.score matches Some(n) && n as int == if negative {
            -digits_value(digits)
        } else {
            digits_value(digits) as int
        },
{
    let content = trim(body);
    let parts = split_on(content, ',');
    let init = HitView { score: None, depth: None, pv: Seq::empty(), pv_raw: Seq::empty(), raw: content };
    lemma_score_after(parts, k, parts.len() as int, init);
    lemma_score_field(hit_scan(parts, k, init), parts[k], negative, digits);
}

/// A `depth:` field whose value is decimal digits within the range of `u32`
/// sets the hit's depth to that number and leaves the other fields as they were.
pub proof fn lemma_depth_field(acc: HitView, part: Seq<char>, digits: Seq<char>)
    requires
        digits.len() > 0,
        all_digits(digits),
        digits_value(digits) <= 0xffff_ffff,
        trim(part) == "depth:"@ + digits,
    ensures
        apply_field(acc, part).depth matches Some(n) && n as int == digits_value(digits),
        apply_field(acc, part).score == acc.score,
        apply_field(acc, part).pv == acc.pv,
        apply_field(acc, part).pv_raw == acc.pv_raw,
        apply_field(acc, part).raw == acc.raw,
{
    reveal_strlit("score:");
    reveal_strlit("depth:");
    let p = trim(part);
    assert(p.take(6) =~= "depth:"@);
    assert(starts_with(p, "depth:"@));
    assert(!starts_with(p, "score:"@)) by {
        assert(p.take(6)[0] != "score:"@[0]);
    }
    assert(p.skip(6) =~= digits);
    assert('0' <= digits[0] <= '9');
    assert('0' <= digits.last() <= '9');
    lemma_trim_no_ws_ends(digits);
    assert(digits[0] != '+');
}

} // verus!
