//! Character-level helpers shared by the FEN, ICCS and engine-protocol code.
use vstd::prelude::*;

verus! {

/// Appends one character to a string (`String::push`): the string's characters
/// afterwards are the old characters followed by `c`.
#[verifier::external_body]
pub fn push_char(s: &mut String, c: char)
    ensures
        final(s)@ == old(s)@.push(c),
{
    s.push(c);
}

/// The characters of a string slice, in order.
pub fn str_chars(s: &str) -> (v: Vec<char>)
    ensures
        v@ == s@,
{
    let mut v: Vec<char> = Vec::new();
    for c in it: s.chars()
        invariant
            v@ == it.seq().take(it.index() as int),
    {
        v.push(c);
    }
    v
}

/// A string holding exactly the given characters.
pub fn string_from_chars(chars: &[char]) -> (s: String)
    ensures
        s@ == chars@,
{
    let mut s = String::new();
    let mut i: usize = 0;
    while i < chars.len()
        invariant
            i <= chars@.len(),
            s@ == chars@.take(i as int),
        decreases chars@.len() - i,
    {
        push_char(&mut s, chars[i]);
        proof {
            assert(chars@.take(i + 1) =~= chars@.take(i as int).push(chars@[i as int]));
        }
        i += 1;
    }
    proof {
        assert(chars@.take(chars@.len() as int) =~= chars@);
    }
    s
}

/// Appends every character of `t` to `s`.
pub fn push_str(s: &mut String, t: &str)
    ensures
        final(s)@ == old(s)@ + t@,
{
    let chars = str_chars(t);
    let ghost start = s@;
    let mut i: usize = 0;
    while i < chars.len()
        invariant
            i <= chars@.len(),
            chars@ == t@,
            s@ == start + chars@.take(i as int),
        decreases chars@.len() - i,
    {
        push_char(s, chars[i]);
        proof {
            assert(chars@.take(i + 1) =~= chars@.take(i as int).push(chars@[i as int]));
        }
        i += 1;
    }
    proof {
        assert(chars@.take(chars@.len() as int) =~= chars@);
    }
}

/// Unicode `White_Space` characters (what `char::is_whitespace` accepts).
pub open spec fn is_ws(c: char) -> bool {
    ||| '\t' <= c <= '\r'
    ||| c == ' '
    ||| c == '\u{85}'
    ||| c == '\u{a0}'
    ||| c == '\u{1680}'
    ||| '\u{2000}' <= c <= '\u{200a}'
    ||| c == '\u{2028}'
    ||| c == '\u{2029}'
    ||| c == '\u{202f}'
    ||| c == '\u{205f}'
    ||| c == '\u{3000}'
}

/// Whether `c` is a Unicode white-space character.
pub fn is_whitespace(c: char) -> (b: bool)
    ensures
        b == is_ws(c),
{
    ('\t' <= c && c <= '\r') || c == ' ' || c == '\u{85}' || c == '\u{a0}' || c == '\u{1680}'
        || ('\u{2000}' <= c && c <= '\u{200a}') || c == '\u{2028}' || c == '\u{2029}'
        || c == '\u{202f}' || c == '\u{205f}' || c == '\u{3000}'
}

/// The maximal runs of non-white-space characters, in order (what
/// `str::split_whitespace` yields).
pub open spec fn ws_tokens(s: Seq<char>) -> Seq<Seq<char>>
    decreases s.len(),
{
    if s.len() == 0 {
        Seq::empty()
    } else {
        let prev = ws_tokens(s.drop_last());
        let c = s.last();
        if is_ws(c) {
            prev
        } else if s.len() >= 2 && !is_ws(s[s.len() - 2]) {
            prev.update(prev.len() - 1, prev.last().push(c))
        } else {
            prev.push(seq![c])
        }
    }
}

/// A non-empty text that ends in a non-white-space character has at least one token.
pub proof fn lemma_ws_tokens_nonempty(s: Seq<char>)
    requires
        s.len() > 0,
        !is_ws(s.last()),
    ensures
        ws_tokens(s).len() > 0,
    decreases s.len(),
{
    if s.len() >= 2 && !is_ws(s[s.len() - 2]) {
        assert(s.drop_last().last() == s[s.len() - 2]);
        lemma_ws_tokens_nonempty(s.drop_last());
    }
}

/// Every token is non-empty.
pub proof fn lemma_ws_tokens_nonempty_tokens(s: Seq<char>)
    ensures
        forall|i: int| 0 <= i < ws_tokens(s).len() ==> #[trigger] ws_tokens(s)[i].len() > 0,
    decreases s.len(),
{
    if s.len() > 0 {
        lemma_ws_tokens_nonempty_tokens(s.drop_last());
        if s.len() >= 2 && !is_ws(s[s.len() - 2]) && !is_ws(s.last()) {
            lemma_ws_tokens_nonempty(s.drop_last());
        }
    }
}

pub open spec fn seqs_view(v: Seq<Vec<char>>) -> Seq<Seq<char>> {
    v.map_values(|t: Vec<char>| t@)
}

/// Splits a character sequence at white space, dropping the white space.
pub fn split_whitespace(s: &Vec<char>) -> (toks: Vec<Vec<char>>)
    ensures
        seqs_view(toks@) == ws_tokens(s@),
{
    let mut toks: Vec<Vec<char>> = Vec::new();
    let mut cur: Vec<char> = Vec::new();
    let mut i: usize = 0;
    while i < s.len()
        invariant
            i <= s@.len(),
            cur@.len() > 0 <==> (i > 0 && !is_ws(s@[i - 1])),
            ws_tokens(s@.take(i as int)) == if cur@.len() > 0 {
                seqs_view(toks@).push(cur@)
            } else {
                seqs_view(toks@)
            },
        decreases s@.len() - i,
    {
        let c = s[i];
        proof {
            assert(s@.take(i + 1).drop_last() =~= s@.take(i as int));
            assert(s@.take(i + 1).last() == c);
        }
        if is_whitespace(c) {
            if cur.len() > 0 {
                let ghost tv = seqs_view(toks@);
                let t = cur;
                cur = Vec::new();
                toks.push(t);
                proof {
                    assert(seqs_view(toks@) =~= tv.push(t@));
                }
            }
        } else {
            let ghost tv = seqs_view(toks@);
            let ghost before = cur@;
            cur.push(c);
            proof {
                if before.len() > 0 {
                    assert(s@.take(i + 1)[i - 1] == s@[i - 1]);
                    assert(tv.push(before).update(tv.len() as int, before.push(c)) =~= tv.push(cur@));
                } else {
                    if i > 0 {
                        assert(s@.take(i + 1)[i - 1] == s@[i - 1]);
                    }
                    assert(before =~= Seq::<char>::empty());
                    assert(cur@ =~= seq![c]);
                }
            }
        }
        i += 1;
    }
    if cur.len() > 0 {
        toks.push(cur);
    }
    proof {
        assert(s@.take(s@.len() as int) =~= s@);
        assert(seqs_view(toks@) =~= ws_tokens(s@));
    }
    toks
}

/// The pieces of `s` between occurrences of `sep` (what `str::split(sep)` yields;
/// `k` separators give `k + 1` pieces, empty ones included).
pub open spec fn split_on(s: Seq<char>, sep: char) -> Seq<Seq<char>>
    decreases s.len(),
{
    if s.len() == 0 {
        seq![Seq::empty()]
    } else {
        let prev = split_on(s.drop_last(), sep);
        if s.last() == sep {
            prev.push(Seq::empty())
        } else {
            prev.update(prev.len() - 1, prev.last().push(s.last()))
        }
    }
}

pub proof fn lemma_split_on_nonempty(s: Seq<char>, sep: char)
    ensures
        split_on(s, sep).len() >= 1,
    decreases s.len(),
{
    if s.len() > 0 {
        lemma_split_on_nonempty(s.drop_last(), sep);
    }
}

/// Splits a character sequence at every `sep`.
pub fn split_chars(s: &Vec<char>, sep: char) -> (parts: Vec<Vec<char>>)
    ensures
        seqs_view(parts@) == split_on(s@, sep),
{
    let mut parts: Vec<Vec<char>> = Vec::new();
    let mut cur: Vec<char> = Vec::new();
    let mut i: usize = 0;
    while i < s.len()
        invariant
            i <= s@.len(),
            split_on(s@.take(i as int), sep) == seqs_view(parts@).push(cur@),
        decreases s@.len() - i,
    {
        let c = s[i];
        proof {
            assert(s@.take(i + 1).drop_last() =~= s@.take(i as int));
            assert(s@.take(i + 1).last() == c);
        }
        let ghost pv = seqs_view(parts@);
        let ghost before = cur@;
        if c == sep {
            let t = cur;
            cur = Vec::new();
            parts.push(t);
            proof {
                assert(seqs_view(parts@) =~= pv.push(before));
                assert(seqs_view(parts@).push(cur@) =~= pv.push(before).push(Seq::<char>::empty()));
            }
        } else {
            cur.push(c);
            proof {
                assert(pv.push(before).update(pv.len() as int, before.push(c)) =~= pv.push(cur@));
            }
        }
        i += 1;
    }
    parts.push(cur);
    proof {
        assert(s@.take(s@.len() as int) =~= s@);
    }
    parts
}

/// The pieces joined with `sep` between neighbours.
pub open spec fn join_with(parts: Seq<Seq<char>>, sep: char) -> Seq<char>
    decreases parts.len(),
{
    if parts.len() == 0 {
        Seq::empty()
    } else if parts.len() == 1 {
        parts[0]
    } else {
        join_with(parts.drop_last(), sep).push(sep) + parts.last()
    }
}

/// Joins the pieces from index `start` on with `sep` between neighbours.
pub fn join_chars_from(parts: &Vec<Vec<char>>, start: usize, sep: char) -> (s: String)
    requires
        start <= parts@.len(),
    ensures
        s@ == join_with(seqs_view(parts@).skip(start as int), sep),
{
    let mut s = String::new();
    let mut i: usize = start;
    while i < parts.len()
        invariant
            start <= i <= parts@.len(),
            s@ == join_with(seqs_view(parts@).subrange(start as int, i as int), sep),
        decreases parts@.len() - i,
    {
        let ghost before = s@;
        if i > start {
            push_char(&mut s, sep);
        }
        let piece = &parts[i];
        let mut j: usize = 0;
        let ghost mid = s@;
        while j < piece.len()
            invariant
                j <= piece@.len(),
                s@ == mid + piece@.take(j as int),
            decreases piece@.len() - j,
        {
            push_char(&mut s, piece[j]);
            proof {
                assert(piece@.take(j + 1) =~= piece@.take(j as int).push(piece@[j as int]));
            }
            j += 1;
        }
        proof {
            assert(piece@.take(piece@.len() as int) =~= piece@);
            let sub = seqs_view(parts@).subrange(start as int, i + 1);
            assert(sub.drop_last() =~= seqs_view(parts@).subrange(start as int, i as int));
            assert(sub.last() == piece@);
            if i == start {
                assert(sub.len() == 1);
                assert(mid =~= Seq::<char>::empty());
                assert(s@ =~= sub[0]);
            } else {
                assert(s@ =~= before.push(sep) + piece@);
            }
        }
        i += 1;
    }
    proof {
        assert(seqs_view(parts@).subrange(start as int, parts@.len() as int) =~= seqs_view(parts@).skip(start as int));
    }
    s
}

/// Decimal digits of a natural number, most significant first, no leading zeros.
pub open spec fn dec(n: nat) -> Seq<char>
    decreases n,
{
    if n < 10 {
        seq![(48 + n) as char]
    } else {
        dec(n / 10).push((48 + n % 10) as char)
    }
}

/// Appends the decimal text of `n` (what `n.to_string()` gives).
pub fn push_dec(s: &mut String, n: u64)
    ensures
        final(s)@ == old(s)@ + dec(n as nat),
    decreases n,
{
    if n >= 10 {
        push_dec(s, n / 10);
    }
    let d = ((n % 10) as u8 + 48) as char;
    push_char(s, d);
    proof {
        if n >= 10 {
            assert(old(s)@ + dec(n as nat) =~= old(s)@ + dec((n / 10) as nat) + seq![d]);
        } else {
            assert(old(s)@ + dec(n as nat) =~= old(s)@.push(d));
        }
    }
}

/// The characters of `t` equal those of the literal `lit`.
pub fn chars_eq_str(t: &[char], lit: &str) -> (b: bool)
    ensures
        b == (t@ == lit@),
{
    let l = str_chars(lit);
    if t.len() != l.len() {
        return false;
    }
    let mut i: usize = 0;
    while i < t.len()
        invariant
            i <= t@.len(),
            t@.len() == l@.len(),
            l@ == lit@,
            forall|j: int| 0 <= j < i ==> t@[j] == l@[j],
        decreases t@.len() - i,
    {
        if t[i] != l[i] {
            return false;
        }
        i += 1;
    }
    proof {
        assert(t@ =~= l@);
    }
    true
}

/// Whether two string slices hold the same characters.
pub fn str_eq(a: &str, b: &str) -> (r: bool)
    ensures
        r == (a@ == b@),
{
    let chars = str_chars(a);
    chars_eq_str(chars.as_slice(), b)
}

/// Whether `t` begins with the characters of `lit`.
pub open spec fn starts_with(t: Seq<char>, p: Seq<char>) -> bool {
    t.len() >= p.len() && t.take(p.len() as int) == p
}

/// Whether the characters of `t` begin with the literal `lit`.
pub fn chars_start_with(t: &[char], lit: &str) -> (b: bool)
    ensures
        b == starts_with(t@, lit@),
{
    let l = str_chars(lit);
    if t.len() < l.len() {
        return false;
    }
    let mut i: usize = 0;
    while i < l.len()
        invariant
            i <= l@.len(),
            t@.len() >= l@.len(),
            l@ == lit@,
            forall|j: int| 0 <= j < i ==> t@[j] == l@[j],
        decreases l@.len() - i,
    {
        if t[i] != l[i] {
            proof {
                assert(t@.take(l@.len() as int)[i as int] != l@[i as int]);
            }
            return false;
        }
        i += 1;
    }
    proof {
        assert(t@.take(l@.len() as int) =~= l@);
    }
    true
}

/// `s` with leading and trailing white space removed (what `str::trim` gives).
pub open spec fn trim(s: Seq<char>) -> Seq<char> {
    s.subrange(trim_start_index(s, 0), trim_end_index(s, s.len() as int))
}

/// Trimming leaves a text alone when it neither begins nor ends with white space.
pub proof fn lemma_trim_no_ws_ends(s: Seq<char>)
    requires
        s.len() > 0,
        !is_ws(s[0]),
        !is_ws(s.last()),
    ensures
        trim(s) == s,
{
    assert(trim_start_index(s, 0) == 0);
    assert(trim_end_index(s, s.len() as int) == s.len());
    assert(s.subrange(0, s.len() as int) =~= s);
}

/// Index of the first non-white-space character at or after `i` (or the length).
pub open spec fn trim_start_index(s: Seq<char>, i: int) -> int
    decreases s.len() - i,
{
    if i >= s.len() || i < 0 {
        s.len() as int
    } else if !is_ws(s[i]) {
        i
    } else {
        trim_start_index(s, i + 1)
    }
}

/// One past the last non-white-space character before `j`, or the start index when none.
pub open spec fn trim_end_index(s: Seq<char>, j: int) -> int
    decreases j,
{
    if j <= 0 || j <= trim_start_index(s, 0) || j > s.len() {
        trim_start_index(s, 0)
    } else if !is_ws(s[j - 1]) {
        j
    } else {
        trim_end_index(s, j - 1)
    }
}

proof fn lemma_trim_start_bounds(s: Seq<char>, i: int)
    requires
        0 <= i <= s.len(),
    ensures
        i <= trim_start_index(s, i) <= s.len(),
        forall|k: int| i <= k < trim_start_index(s, i) ==> is_ws(#[trigger] s[k]),
        trim_start_index(s, i) < s.len() ==> !is_ws(s[trim_start_index(s, i)]),
    decreases s.len() - i,
{
    if i < s.len() && is_ws(s[i]) {
        lemma_trim_start_bounds(s, i + 1);
    }
}

proof fn lemma_trim_end_bounds(s: Seq<char>, j: int)
    requires
        trim_start_index(s, 0) <= j <= s.len(),
    ensures
        trim_start_index(s, 0) <= trim_end_index(s, j) <= j,
        forall|k: int| trim_end_index(s, j) <= k < j ==> is_ws(#[trigger] s[k]),
    decreases j,
{
    lemma_trim_start_bounds(s, 0);
    if j > trim_start_index(s, 0) && is_ws(s[j - 1]) {
        lemma_trim_end_bounds(s, j - 1);
    }
}

/// Removes leading and trailing white space.
pub fn trim_chars(s: &Vec<char>) -> (t: Vec<char>)
    ensures
        t@ == trim(s@),
{
    let mut start: usize = 0;
    proof {
        lemma_trim_start_bounds(s@, 0);
    }
    while start < s.len() && is_whitespace(s[start])
        invariant
            start <= s@.len(),
            trim_start_index(s@, start as int) == trim_start_index(s@, 0),
        decreases s@.len() - start,
    {
        start += 1;
    }
    let mut end: usize = s.len();
    while end > start && is_whitespace(s[end - 1])
        invariant
            start <= end <= s@.len(),
            start as int == trim_start_index(s@, 0),
            trim_end_index(s@, end as int) == trim_end_index(s@, s@.len() as int),
        decreases end,
    {
        end -= 1;
    }
    let mut t: Vec<char> = Vec::new();
    let mut i: usize = start;
    while i < end
        invariant
            start <= i <= end,
            end <= s@.len(),
            t@ == s@.subrange(start as int, i as int),
        decreases end - i,
    {
        t.push(s[i]);
        proof {
            assert(s@.subrange(start as int, i + 1) =~= s@.subrange(start as int, i as int).push(s@[i as int]));
        }
        i += 1;
    }
    t
}

/// Whether every character is an ASCII digit.
pub open spec fn all_digits(s: Seq<char>) -> bool {
    forall|i: int| 0 <= i < s.len() ==> '0' <= #[trigger] s[i] <= '9'
}

/// Value of a string of decimal digits.
pub open spec fn digits_value(s: Seq<char>) -> nat
    decreases s.len(),
{
    if s.len() == 0 {
        0
    } else {
        digits_value(s.drop_last()) * 10 + ((s.last() as int - 48) as nat)
    }
}

/// What `str::parse` gives for an unsigned integer type whose largest value is
/// `max`: an optional `+`, then one or more ASCII digits, the value at most `max`.
pub open spec fn parse_unsigned(s: Seq<char>, max: int) -> Option<int> {
    let d = if s.len() > 0 && s[0] == '+' { s.drop_first() } else { s };
    if d.len() == 0 || !all_digits(d) || digits_value(d) > max {
        None
    } else {
        Some(digits_value(d) as int)
    }
}

/// What `str::parse` gives for a signed integer type with range `[min, max]`:
/// an optional `+` or `-`, then one or more ASCII digits, the value in range.
pub open spec fn parse_signed(s: Seq<char>, min: int, max: int) -> Option<int> {
    if s.len() > 0 && s[0] == '-' {
        let d = s.drop_first();
        if d.len() == 0 || !all_digits(d) || -digits_value(d) < min {
            None
        } else {
            Some(-digits_value(d))
        }
    } else {
        parse_unsigned(s, max)
    }
}

proof fn lemma_digits_value_grows(s: Seq<char>, i: int)
    requires
        0 <= i <= s.len(),
        all_digits(s),
    ensures
        digits_value(s.take(i)) <= digits_value(s),
    decreases s.len() - i,
{
    if i < s.len() {
        lemma_digits_value_grows(s, i + 1);
        assert(s.take(i + 1).drop_last() =~= s.take(i));
    } else {
        assert(s.take(i) =~= s);
    }
}

/// Value of the digits from index `start` on, when they are all digits and the
/// value is at most `max`.
fn digits_at_most(s: &[char], start: usize, max: u64) -> (r: Option<u64>)
    requires
        start <= s@.len(),
        max >= 9,
    ensures
        match r {
            Some(v) => s@.len() > start && all_digits(s@.skip(start as int))
                && v as nat == digits_value(s@.skip(start as int)) && v <= max,
            None => s@.len() == start || !all_digits(s@.skip(start as int))
                || digits_value(s@.skip(start as int)) > max,
        },
{
    if s.len() == start {
        return None;
    }
    let ghost d = s@.skip(start as int);
    let mut v: u64 = 0;
    let mut i: usize = start;
    while i < s.len()
        invariant
            start <= i <= s@.len(),
            max >= 9,
            d == s@.skip(start as int),
            all_digits(d.take(i - start)),
            v as nat == digits_value(d.take(i - start)),
            v <= max,
        decreases s@.len() - i,
    {
        let c = s[i];
        proof {
            assert(d[i - start] == c);
        }
        if !('0' <= c && c <= '9') {
            return None;
        }
        let digit = ((c as u32) - 48) as u64;
        assert(digit <= 9);
        proof {
            assert(d.take(i - start + 1).drop_last() =~= d.take(i - start));
            assert(all_digits(d.take(i - start + 1)));
        }
        if v > (max - digit) / 10 {
            proof {
                assert(v * 10 + digit > max) by (nonlinear_arith)
                    requires v > (max - digit) / 10, digit <= max, max >= 0, digit >= 0, digit <= 9;
                if all_digits(d) {
                    lemma_digits_value_grows(d, i - start + 1);
                }
            }
            return None;
        }
        proof {
            assert(v * 10 + digit <= max) by (nonlinear_arith)
                requires v <= (max - digit) / 10, digit <= max, max >= 0;
        }
        v = v * 10 + digit;
        i += 1;
    }
    proof {
        assert(d.take(d.len() as int) =~= d);
    }
    Some(v)
}

/// Parses an unsigned decimal (optional `+`) whose value is at most `max`.
pub fn parse_unsigned_chars(s: &[char], max: u64) -> (r: Option<u64>)
    requires
        max >= 9,
    ensures
        match parse_unsigned(s@, max as int) {
            Some(v) => r == Some(v as u64),
            None => r.is_none(),
        },
{
    let start: usize = if s.len() > 0 && s[0] == '+' { 1 } else { 0 };
    proof {
        if start == 1 {
            assert(s@.drop_first() =~= s@.skip(1));
        } else {
            assert(s@ =~= s@.skip(0));
        }
    }
    digits_at_most(s, start, max)
}

/// Parses a signed decimal (optional `+` or `-`) whose value lies in `[min, max]`.
pub fn parse_signed_chars(s: &[char], min: i128, max: i128) -> (r: Option<i128>)
    requires
        -0x8000_0000_0000_0000 <= min <= -9,
        9 <= max <= 0x7fff_ffff_ffff_ffff,
    ensures
        match parse_signed(s@, min as int, max as int) {
            Some(v) => r == Some(v as i128),
            None => r.is_none(),
        },
{
    if s.len() > 0 && s[0] == '-' {
        proof {
            assert(s@.drop_first() =~= s@.skip(1));
        }
        match digits_at_most(s, 1, (-min) as u64) {
            Some(v) => Some(-(v as i128)),
            None => None,
        }
    } else {
        match parse_unsigned_chars(s, max as u64) {
            Some(v) => Some(v as i128),
            None => None,
        }
    }
}

} // verus!
