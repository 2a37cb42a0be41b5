//! A character scanner: source locations, white space and comments, names,
//! quoted strings and integers.
use vstd::prelude::*;

verus! {

/// A place in the source text: line counted from 0, column counted from 1.
#[derive(Clone, Copy, Debug, PartialEq, Eq, Structural)]
pub struct SourceLocation {
    pub line: usize,
    pub column: usize,
}

/// The line and column of position `p` in `s`.
pub open spec fn location(s: Seq<char>, p: int) -> (int, int)
    decreases p,
{
    if p <= 0 {
        (0, 1)
    } else {
        let prev = location(s, p - 1);
        if s[p - 1] == '\n' {
            (prev.0 + 1, 1)
        } else {
            (prev.0, prev.1 + 1)
        }
    }
}

proof fn lemma_location_bounds(s: Seq<char>, p: int)
    requires
        0 <= p,
    ensures
        0 <= location(s, p).0 <= p,
        1 <= location(s, p).1 <= p + 1,
    decreases p,
{
    if p > 0 {
        lemma_location_bounds(s, p - 1);
    }
}

/// The location of position `p`.
pub fn location_at(s: &[char], p: usize) -> (r: SourceLocation)
    requires
        p <= s@.len(),
        p < usize::MAX,
    ensures
        (r.line as int, r.column as int) == location(s@, p as int),
{
    let mut line: usize = 0;
    let mut column: usize = 1;
    let mut i: usize = 0;
    while i < p
        invariant
            p <= s@.len(),
            p < usize::MAX,
            i <= p,
            (line as int, column as int) == location(s@, i as int),
        decreases p - i,
    {
        proof {
            lemma_location_bounds(s@, i as int);
        }
        if s[i] == '\n' {
            line = line + 1;
            column = 1;
        } else {
            column = column + 1;
        }
        i = i + 1;
    }
    SourceLocation { line, column }
}

pub open spec fn is_ws(c: char) -> bool {
    c == ' ' || c == '\t' || c == '\n' || c == '\r' || c == '\x0C'
}

pub fn is_white(c: char) -> (r: bool)
    ensures
        r == is_ws(c),
{
    c == ' ' || c == '\t' || c == '\n' || c == '\r' || c == '\x0C'
}

/// Whether a comment opens at position `p`.
pub open spec fn comment_at(s: Seq<char>, p: int) -> bool {
    0 <= p && p + 1 < s.len() && s[p] == '/' && s[p + 1] == '*'
}

/// Where white space and comments that start at `p` end; `in_comment` says
/// that `p` is inside a comment. An unclosed comment runs to the end.
pub open spec fn ws_scan(s: Seq<char>, p: int, in_comment: bool) -> int
    decreases s.len() - p,
{
    if p < 0 || p >= s.len() {
        p
    } else if in_comment {
        if p + 1 < s.len() && s[p] == '*' && s[p + 1] == '/' {
            ws_scan(s, p + 2, false)
        } else {
            ws_scan(s, p + 1, true)
        }
    } else if is_ws(s[p]) {
        ws_scan(s, p + 1, false)
    } else if comment_at(s, p) {
        ws_scan(s, p + 2, true)
    } else {
        p
    }
}

/// Where white space and comments that start at `p` end.
pub open spec fn ws_end(s: Seq<char>, p: int) -> int {
    ws_scan(s, p, false)
}

/// Skips white space and comments; an unclosed comment runs to the end.
pub fn skip_ws(s: &[char], p: usize) -> (r: usize)
    requires
        p <= s@.len(),
    ensures
        p <= r <= s@.len(),
        r == s@.len() || (!is_ws(s@[r as int]) && !comment_at(s@, r as int)),
        r == ws_end(s@, p as int),
{
    let mut i = p;
    while i < s.len()
        invariant
            p <= i <= s@.len(),
            ws_scan(s@, p as int, false) == ws_scan(s@, i as int, false),
        decreases s@.len() - i,
    {
        if is_white(s[i]) {
            i = i + 1;
        } else if i + 1 < s.len() && s[i] == '/' && s[i + 1] == '*' {
            let mut j = i + 2;
            let mut closed = false;
            while j < s.len() && !closed
                invariant
                    i + 2 <= j <= s@.len(),
                    ws_scan(s@, p as int, false) == ws_scan(s@, j as int, !closed),
                decreases s@.len() - j, (if closed { 0int } else { 1int }),
            {
                if j + 1 < s.len() && s[j] == '*' && s[j + 1] == '/' {
                    j = j + 2;
                    closed = true;
                } else {
                    j = j + 1;
                }
            }
            i = j;
        } else {
            return i;
        }
    }
    i
}

/// Characters that may stand inside a name.
pub open spec fn is_name_char(c: char) -> bool {
    ('a' <= c && c <= 'z') || ('A' <= c && c <= 'Z') || ('0' <= c && c <= '9') || c == '-'
        || c == '_' || (c as u32) >= 0x80
}

pub fn name_char(c: char) -> (r: bool)
    ensures
        r == is_name_char(c),
{
    ('a' <= c && c <= 'z') || ('A' <= c && c <= 'Z') || ('0' <= c && c <= '9') || c == '-'
        || c == '_' || (c as u32) >= 0x80
}

/// Characters that may open a name (after any leading hyphens).
pub open spec fn is_name_start(c: char) -> bool {
    ('a' <= c && c <= 'z') || ('A' <= c && c <= 'Z') || c == '_' || (c as u32) >= 0x80
}

/// Whether an identifier begins at position `p`.
pub open spec fn ident_starts(s: Seq<char>, p: int) -> bool {
    0 <= p < s.len() && (is_name_start(s[p]) || (s[p] == '-' && p + 1 < s.len() && (
    is_name_start(s[p + 1]) || s[p + 1] == '-')))
}

/// The end of the run of name characters that starts at `p`.
pub open spec fn name_run(s: Seq<char>, p: int) -> int
    decreases s.len() - p,
{
    if p < 0 || p >= s.len() || !is_name_char(s[p]) {
        p
    } else {
        name_run(s, p + 1)
    }
}

/// The end of the run of name characters that starts at `p`.
pub fn name_end(s: &[char], p: usize) -> (r: usize)
    requires
        p <= s@.len(),
    ensures
        r == name_run(s@, p as int),
        p <= r <= s@.len(),
        forall|k: int| p <= k < r ==> is_name_char(#[trigger] s@[k]),
        r == s@.len() || !is_name_char(s@[r as int]),
{
    let mut i = p;
    while i < s.len() && name_char(s[i])
        invariant
            p <= i <= s@.len(),
            name_run(s@, p as int) == name_run(s@, i as int),
            forall|k: int| p <= k < i ==> is_name_char(#[trigger] s@[k]),
        decreases s@.len() - i,
    {
        i = i + 1;
    }
    i
}

/// Reads an identifier at `p`: its end, or `None` where none begins there.
pub fn read_ident(s: &[char], p: usize) -> (r: Option<usize>)
    requires
        p <= s@.len(),
    ensures
        r is Some <==> ident_starts(s@, p as int),
        r matches Some(e) ==> e == name_run(s@, p as int),
        r matches Some(e) ==> p < e <= s@.len() && (forall|k: int|
            p <= k < e ==> is_name_char(#[trigger] s@[k])) && (e == s@.len() || !is_name_char(
            s@[e as int])),
{
    if p >= s.len() {
        return None;
    }
    let c = s[p];
    let starts = if ('a' <= c && c <= 'z') || ('A' <= c && c <= 'Z') || c == '_' || (c as u32)
        >= 0x80 {
        true
    } else if c == '-' && p + 1 < s.len() {
        let d = s[p + 1];
        ('a' <= d && d <= 'z') || ('A' <= d && d <= 'Z') || d == '_' || (d as u32) >= 0x80 || d
            == '-'
    } else {
        false
    };
    if starts {
        Some(name_end(s, p))
    } else {
        None
    }
}

pub open spec fn is_hex(c: char) -> bool {
    ('0' <= c && c <= '9') || ('a' <= c && c <= 'f') || ('A' <= c && c <= 'F')
}

pub open spec fn hex_value(c: char) -> int {
    if '0' <= c && c <= '9' {
        c as int - '0' as int
    } else if 'a' <= c && c <= 'f' {
        c as int - 'a' as int + 10
    } else {
        c as int - 'A' as int + 10
    }
}

fn hex_digit(c: char) -> (r: Option<u32>)
    ensures
        r is Some <==> is_hex(c),
        r matches Some(v) ==> v as int == hex_value(c) && v < 16,
{
    if '0' <= c && c <= '9' {
        Some((c as u32) - ('0' as u32))
    } else if 'a' <= c && c <= 'f' {
        Some((c as u32) - ('a' as u32) + 10)
    } else if 'A' <= c && c <= 'F' {
        Some((c as u32) - ('A' as u32) + 10)
    } else {
        None
    }
}

/// Relies on char::from_u32: a char exists for exactly the scalar values, and
/// has that code.
#[verifier::external_body]
fn char_from_code(u: u32) -> (r: Option<char>)
    ensures
        r is Some <==> (u < 0xD800 || (0xDFFF < u && u <= 0x10FFFF)),
        r matches Some(c) ==> c as u32 == u && c as int == u as int,
{
    char::from_u32(u)
}

/// The character that a hexadecimal escape with code `u` stands for: the
/// replacement character for zero, surrogates and codes past the last one.
pub open spec fn code_char(u: int) -> char {
    if u == 0 || !(u < 0xD800 || (0xDFFF < u && u <= 0x10FFFF)) {
        '\u{FFFD}'
    } else {
        choose|c: char| #[trigger] char_code(c) == u
    }
}

/// The code of a character.
pub open spec fn char_code(c: char) -> int {
    c as int
}

/// Reads the rest of a string whose closing quote is `q`, from `i`: the
/// characters read so far are `acc`. `esc` says a backslash was just read;
/// `hexn > 0` says `hexn` hexadecimal digits of an escape with value `code`
/// were read. A hexadecimal escape ends after six digits or at another
/// character, and takes one white space after it. A bare line break is an
/// error; a string left open runs to the end.
pub open spec fn str_scan(
    s: Seq<char>,
    q: char,
    i: int,
    esc: bool,
    hexn: int,
    code: int,
    acc: Seq<char>,
) -> Option<(Seq<char>, int)>
    decreases s.len() - i, (if hexn > 0 { 1int } else { 0int }),
{
    if i < 0 || i >= s.len() {
        if hexn > 0 {
            Some((acc.push(code_char(code)), i))
        } else {
            Some((acc, i))
        }
    } else if hexn > 0 {
        if hexn < 6 && is_hex(s[i]) {
            str_scan(s, q, i + 1, false, hexn + 1, code * 16 + hex_value(s[i]), acc)
        } else if is_ws(s[i]) {
            str_scan(s, q, i + 1, false, 0, 0, acc.push(code_char(code)))
        } else {
            str_scan(s, q, i, false, 0, 0, acc.push(code_char(code)))
        }
    } else if esc {
        if s[i] == '\n' {
            str_scan(s, q, i + 1, false, 0, 0, acc)
        } else if is_hex(s[i]) {
            str_scan(s, q, i + 1, false, 1, hex_value(s[i]), acc)
        } else {
            str_scan(s, q, i + 1, false, 0, 0, acc.push(s[i]))
        }
    } else if s[i] == q {
        Some((acc, i + 1))
    } else if s[i] == '\n' {
        None
    } else if s[i] == '\\' {
        str_scan(s, q, i + 1, true, 0, 0, acc)
    } else {
        str_scan(s, q, i + 1, false, 0, 0, acc.push(s[i]))
    }
}

/// The content and end of the quoted string whose opening quote is at `p`.
pub open spec fn string_at(s: Seq<char>, p: int) -> Option<(Seq<char>, int)> {
    str_scan(s, s[p], p + 1, false, 0, 0, Seq::empty())
}

pub open spec fn pow16(n: nat) -> int
    decreases n,
{
    if n == 0 {
        1
    } else {
        16 * pow16((n - 1) as nat)
    }
}

proof fn lemma_pow16_bound(n: nat)
    requires
        n <= 5,
    ensures
        pow16(n + 1) == 16 * pow16(n),
        pow16(n) <= 0x100000,
{
    reveal_with_fuel(pow16, 7);
}

/// The character for an escape's code.
fn escape_char(code: u32) -> (r: char)
    ensures
        r == code_char(code as int),
{
    if code == 0 {
        return '\u{FFFD}';
    }
    match char_from_code(code) {
        Some(x) => {
            proof {
                assert(char_code(x) == code as int);
                let c = choose|c: char| #[trigger] char_code(c) == code as int;
                assert(char_code(c) == char_code(x));
            }
            x
        },
        None => '\u{FFFD}',
    }
}

/// Reads a quoted string whose opening quote stands at `p`; returns its
/// content and the position after the closing quote. A string left open runs
/// to the end; a bare line break inside it is an error.
pub fn read_string(s: &[char], p: usize) -> (r: Option<(Vec<char>, usize)>)
    requires
        p < s@.len(),
        s@[p as int] == '"' || s@[p as int] == '\'',
    ensures
        r matches Some((v, e)) ==> p < e <= s@.len(),
        match string_at(s@, p as int) {
            Some((t, e)) => r matches Some((v, e2)) && v@ == t && e2 == e,
            None => r is None,
        },
{
    let quote = s[p];
    let mut out: Vec<char> = Vec::new();
    let mut i = p + 1;
    let mut esc = false;
    let mut hexn: u32 = 0;
    let mut code: u32 = 0;
    while i < s.len()
        invariant
            p < i <= s@.len(),
            quote == s@[p as int],
            hexn <= 6,
            hexn > 0 ==> !esc,
            code < pow16(hexn as nat),
            pow16(hexn as nat) <= 0x1000000,
            string_at(s@, p as int) == str_scan(s@, quote, i as int, esc, hexn as int, code as int, out@),
        decreases s@.len() - i, (if hexn > 0 { 1int } else { 0int }),
    {
        let c = s[i];
        if hexn > 0 {
            let h = hex_digit(c);
            if hexn < 6 && h.is_some() {
                let v = h.unwrap();
                proof {
                    lemma_pow16_bound((hexn - 1) as nat);
                    lemma_pow16_bound(hexn as nat);
                }
                assert(code * 16 + v < pow16((hexn + 1) as nat)) by (nonlinear_arith)
                    requires
                        code < pow16(hexn as nat),
                        v < 16,
                        pow16((hexn + 1) as nat) == 16 * pow16(hexn as nat),
                ;
                code = code * 16 + v;
                hexn = hexn + 1;
                i = i + 1;
            } else {
                out.push(escape_char(code));
                hexn = 0;
                code = 0;
                if is_white(c) {
                    i = i + 1;
                }
            }
        } else if esc {
            esc = false;
            if c == '\n' {
                i = i + 1;
            } else {
                match hex_digit(c) {
                    Some(v) => {
                        hexn = 1;
                        code = v;
                        proof {
                            reveal_with_fuel(pow16, 2);
                        }
                    },
                    None => {
                        out.push(c);
                    },
                }
                i = i + 1;
            }
        } else if c == quote {
            return Some((out, i + 1));
        } else if c == '\n' {
            return None;
        } else if c == '\\' {
            esc = true;
            i = i + 1;
        } else {
            out.push(c);
            i = i + 1;
        }
    }
    if hexn > 0 {
        out.push(escape_char(code));
    }
    Some((out, i))
}

pub open spec fn is_digit(c: char) -> bool {
    '0' <= c && c <= '9'
}

/// The value of a run of decimal digits.
pub open spec fn digits_value(s: Seq<char>) -> int
    decreases s.len(),
{
    if s.len() == 0 {
        0
    } else {
        digits_value(s.drop_last()) * 10 + (s.last() as int - '0' as int)
    }
}

/// The signed integer written in `t`, if `t` is an optional sign and one or
/// more digits.
pub open spec fn integer_value(t: Seq<char>) -> Option<int> {
    let neg = t.len() > 0 && t[0] == '-';
    let start: int = if t.len() > 0 && (t[0] == '-' || t[0] == '+') { 1 } else { 0 };
    let d = t.subrange(start, t.len() as int);
    if d.len() > 0 && forall|k: int| 0 <= k < d.len() ==> is_digit(#[trigger] d[k]) {
        Some(if neg { -digits_value(d) } else { digits_value(d) })
    } else {
        None
    }
}

/// The end of the run of digits that starts at `p`.
pub open spec fn digit_run(s: Seq<char>, p: int) -> int
    decreases s.len() - p,
{
    if p < 0 || p >= s.len() || !is_digit(s[p]) {
        p
    } else {
        digit_run(s, p + 1)
    }
}

/// The integer written at `p` (an optional sign, then one or more digits),
/// with its end, where it fits in an `i32`.
pub open spec fn integer_at(s: Seq<char>, p: int) -> Option<(int, int)> {
    let signed = 0 <= p < s.len() && (s[p] == '-' || s[p] == '+');
    let st = if signed { p + 1 } else { p };
    let e = digit_run(s, st);
    let v = digits_value(s.subrange(st, e));
    if e == st {
        None
    } else if signed && s[p] == '-' {
        if v <= 0x80000000 { Some((-v, e)) } else { None }
    } else if v <= 0x7fffffff {
        Some((v, e))
    } else {
        None
    }
}

proof fn lemma_digit_run(s: Seq<char>, p: int, i: int)
    requires
        0 <= p <= i <= s.len(),
        forall|k: int| p <= k < i ==> is_digit(#[trigger] s[k]),
    ensures
        digit_run(s, p) == digit_run(s, i),
        i <= digit_run(s, i) <= s.len(),
        forall|k: int| p <= k < digit_run(s, i) ==> is_digit(#[trigger] s[k]),
    decreases s.len() - p, s.len() - i,
{
    if p < i {
        lemma_digit_run(s, p + 1, i);
    } else if i < s.len() && is_digit(s[i]) {
        lemma_digit_run(s, p, i + 1);
        lemma_digit_run(s, i + 1, i + 1);
    }
}

/// A longer run of digits is worth no less.
proof fn lemma_digits_grow(s: Seq<char>, st: int, i: int, e: int)
    requires
        0 <= st <= i <= e <= s.len(),
        forall|k: int| st <= k < e ==> is_digit(#[trigger] s[k]),
    ensures
        digits_value(s.subrange(st, i)) <= digits_value(s.subrange(st, e)),
        digits_value(s.subrange(st, e)) >= 0,
    decreases e - st,
{
    if e > st {
        assert(s.subrange(st, e).drop_last() =~= s.subrange(st, e - 1));
        if i < e {
            lemma_digits_grow(s, st, i, e - 1);
        } else {
            lemma_digits_grow(s, st, st, e - 1);
        }
    } else {
        assert(s.subrange(st, e).len() == 0);
    }
}

/// Reads an integer at `p` (an optional sign, then digits) that fits in an
/// `i32`; returns its value and its end.
pub fn read_integer(s: &[char], p: usize) -> (r: Option<(i32, usize)>)
    requires
        p <= s@.len(),
    ensures
        r matches Some((v, e)) ==> p < e <= s@.len() && integer_value(s@.subrange(p as int, e as int))
            == Some(v as int) && (e == s@.len() || !is_digit(s@[e as int])),
        match integer_at(s@, p as int) {
            Some((v, e)) => r == Some((v as i32, e as usize)),
            None => r is None,
        },
        integer_at(s@, p as int) matches Some((v, e)) ==> p < e <= s@.len() && i32::MIN <= v
            <= i32::MAX,
{
    proof {
        lemma_digit_run(s@, p as int, p as int);
        if p < s@.len() {
            lemma_digit_run(s@, p + 1, p + 1);
        }
    }
    let mut i = p;
    let mut neg = false;
    let mut signed = false;
    if i < s.len() && (s[i] == '-' || s[i] == '+') {
        neg = s[i] == '-';
        signed = true;
        i = i + 1;
    }
    let start = i;
    let mut value: i64 = 0;
    while i < s.len() && '0' <= s[i] && s[i] <= '9'
        invariant
            p <= start <= i <= s@.len(),
            start == (if signed { p + 1 } else { p as int }),
            signed == (p < s@.len() && (s@[p as int] == '-' || s@[p as int] == '+')),
            neg == (signed && s@[p as int] == '-'),
            0 <= value <= 0x80000000,
            forall|k: int| start <= k < i ==> is_digit(#[trigger] s@[k]),
            value == digits_value(s@.subrange(start as int, i as int)),
        decreases s@.len() - i,
    {
        let d = (s[i] as u32 - '0' as u32) as i64;
        let next = value * 10 + d;
        assert(s@.subrange(start as int, i + 1).drop_last() =~= s@.subrange(start as int, i as int));
        if next > 0x80000000 {
            proof {
                lemma_digit_run(s@, start as int, i + 1);
                let e = digit_run(s@, i + 1);
                lemma_digits_grow(s@, start as int, i + 1, e);
            }
            return None;
        }
        value = next;
        i = i + 1;
    }
    proof {
        lemma_digit_run(s@, start as int, i as int);
    }
    if i == start {
        return None;
    }
    let ghost t = s@.subrange(p as int, i as int);
    let ghost d = s@.subrange(start as int, i as int);
    proof {
        let st: int = if t.len() > 0 && (t[0] == '-' || t[0] == '+') { 1 } else { 0 };
        assert(st == start - p);
        assert(t.subrange(st, t.len() as int) =~= d);
        assert(neg == (t.len() > 0 && t[0] == '-'));
    }
    if neg {
        Some(((0 - value) as i32, i))
    } else if value > 0x7fffffff {
        None
    } else {
        Some((value as i32, i))
    }
}

} // verus!
