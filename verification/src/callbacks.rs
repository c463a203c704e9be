//! Scanners for the tokens whose extent depends on their contents:
//! comments, string literals and text macro names.
//!
//! Each takes the source bytes and the position just after the token's
//! opening delimiter.

use vstd::prelude::*;

verus! {

/// The kinds of delimited literal
#[derive(Clone, Copy, Debug, PartialEq, Eq, Structural)]
pub enum LiteralKind {
    /// `"..."`: ends at an unescaped `"`, may not hold a raw line break
    String,
    /// `"""..."""`: may span lines
    TripleQuote,
    /// `` `"...`" ``: may not hold a raw line break
    Preprocessor,
    /// `` `"""...`""" ``: may not hold a raw line break
    PreprocessorTripleQuote,
}

pub open spec fn is_printable(b: u8) -> bool {
    0x20 <= b <= 0x7e
}

pub open spec fn byte_at(s: Seq<u8>, i: int, b: u8) -> bool {
    0 <= i < s.len() && s[i] == b
}

/// The length of the line break starting at `i` (`\n`, `\r`, `\r\n`, or
/// the UTF-8 encodings of U+0085, U+2028 and U+2029), or 0 if there is none
pub open spec fn newline_len(s: Seq<u8>, i: int) -> int {
    if byte_at(s, i, '\r' as u8) {
        if byte_at(s, i + 1, '\n' as u8) {
            2
        } else {
            1
        }
    } else if byte_at(s, i, '\n' as u8) {
        1
    } else if byte_at(s, i, 0xc2) && byte_at(s, i + 1, 0x85) {
        2
    } else if byte_at(s, i, 0xe2) && byte_at(s, i + 1, 0x80) && (byte_at(s, i + 2, 0xa8)
        || byte_at(s, i + 2, 0xa9)) {
        3
    } else {
        0
    }
}

/// The length of the closing delimiter of a literal
pub open spec fn delim_len(kind: LiteralKind) -> int {
    match kind {
        LiteralKind::String => 1,
        LiteralKind::TripleQuote => 3,
        LiteralKind::Preprocessor => 2,
        LiteralKind::PreprocessorTripleQuote => 4,
    }
}

/// Whether the closing delimiter of a literal starts at `i`
pub open spec fn delim_at(kind: LiteralKind, s: Seq<u8>, i: int) -> bool {
    let q = '"' as u8;
    let g = '`' as u8;
    match kind {
        LiteralKind::String => byte_at(s, i, q),
        LiteralKind::TripleQuote => byte_at(s, i, q) && byte_at(s, i + 1, q) && byte_at(s, i + 2, q),
        LiteralKind::Preprocessor => byte_at(s, i, g) && byte_at(s, i + 1, q),
        LiteralKind::PreprocessorTripleQuote => byte_at(s, i, g) && byte_at(s, i + 1, q) && byte_at(
            s,
            i + 2,
            q,
        ) && byte_at(s, i + 3, q),
    }
}

/// Whether an escaped preprocessor delimiter `` `\`" `` starts at `i`
pub open spec fn escaped_delim_at(s: Seq<u8>, i: int) -> bool {
    byte_at(s, i, '`' as u8) && byte_at(s, i + 1, '\\' as u8) && byte_at(s, i + 2, '`' as u8)
        && byte_at(s, i + 3, '"' as u8)
}

/// The length of the piece of literal text starting at `i` (an escape
/// sequence, or a single byte), or 0 if the text there ends the literal
/// in error (a raw line break where none is allowed, or an invalid escape)
pub open spec fn unit_len(kind: LiteralKind, s: Seq<u8>, i: int) -> int {
    let lines_allowed = kind == LiteralKind::TripleQuote;
    let preprocessor = kind == LiteralKind::Preprocessor || kind
        == LiteralKind::PreprocessorTripleQuote;
    if preprocessor && escaped_delim_at(s, i) {
        4
    } else if byte_at(s, i, '\\' as u8) {
        if !lines_allowed && newline_len(s, i + 1) > 0 {
            1 + newline_len(s, i + 1)
        } else if i + 1 < s.len() && is_printable(s[i + 1]) {
            2
        } else {
            0
        }
    } else if !lines_allowed && newline_len(s, i) > 0 {
        0
    } else {
        1
    }
}

/// Where the text of a literal starting at `i` stops, and whether it stops
/// at its closing delimiter (rather than at an error or the end of input)
pub open spec fn scan_literal(kind: LiteralKind, s: Seq<u8>, i: int) -> (int, bool)
    decreases s.len() - i,
{
    if i < 0 || i >= s.len() {
        (i, false)
    } else if delim_at(kind, s, i) {
        (i, true)
    } else if unit_len(kind, s, i) == 0 {
        (i, false)
    } else {
        scan_literal(kind, s, i + unit_len(kind, s, i))
    }
}

/// A literal's text stops within the input, and where it stops at its
/// closing delimiter, that delimiter is there
pub proof fn lemma_scan_bounds(kind: LiteralKind, s: Seq<u8>, i: int)
    requires
        0 <= i <= s.len(),
    ensures
        i <= scan_literal(kind, s, i).0 <= s.len(),
        scan_literal(kind, s, i).1 ==> delim_at(kind, s, scan_literal(kind, s, i).0)
            && scan_literal(kind, s, i).0 + delim_len(kind) <= s.len(),
    decreases s.len() - i,
{
    if i < s.len() && !delim_at(kind, s, i) && unit_len(kind, s, i) != 0 {
        lemma_unit_len_bound(kind, s, i);
        lemma_scan_bounds(kind, s, i + unit_len(kind, s, i));
    }
}

proof fn lemma_unit_len_bound(kind: LiteralKind, s: Seq<u8>, i: int)
    requires
        0 <= i < s.len(),
    ensures
        i + unit_len(kind, s, i) <= s.len(),
{
}

fn at(s: &[u8], i: usize, b: u8) -> (r: bool)
    ensures
        r == byte_at(s@, i as int, b),
{
    i < s.len() && s[i] == b
}

fn newline_len_exec(s: &[u8], i: usize) -> (r: usize)
    requires
        i <= s.len(),
    ensures
        r == newline_len(s@, i as int),
{
    if i == s.len() {
        return 0;
    }
    if at(s, i, '\r' as u8) {
        if at(s, i + 1, '\n' as u8) {
            2
        } else {
            1
        }
    } else if at(s, i, '\n' as u8) {
        1
    } else if at(s, i, 0xc2) && at(s, i + 1, 0x85) {
        2
    } else if i + 1 < s.len() && at(s, i, 0xe2) && at(s, i + 1, 0x80) && (at(s, i + 2, 0xa8)
        || at(s, i + 2, 0xa9)) {
        3
    } else {
        0
    }
}

fn delim_at_exec(kind: LiteralKind, s: &[u8], i: usize) -> (r: bool)
    requires
        i < s.len(),
    ensures
        r == delim_at(kind, s@, i as int),
{
    let q = '"' as u8;
    let g = '`' as u8;
    match kind {
        LiteralKind::String => at(s, i, q),
        LiteralKind::TripleQuote => at(s, i, q) && at(s, i + 1, q) && at(s, i + 2, q),
        LiteralKind::Preprocessor => at(s, i, g) && at(s, i + 1, q),
        LiteralKind::PreprocessorTripleQuote => at(s, i, g) && at(s, i + 1, q) && at(s, i + 2, q)
            && at(s, i + 3, q),
    }
}

fn unit_len_exec(kind: LiteralKind, s: &[u8], i: usize) -> (r: usize)
    requires
        i < s.len(),
    ensures
        r == unit_len(kind, s@, i as int),
{
    let lines_allowed = kind == LiteralKind::TripleQuote;
    let preprocessor = kind == LiteralKind::Preprocessor || kind
        == LiteralKind::PreprocessorTripleQuote;
    if preprocessor && at(s, i, '`' as u8) && at(s, i + 1, '\\' as u8) && at(s, i + 2, '`' as u8)
        && at(s, i + 3, '"' as u8) {
        4
    } else if at(s, i, '\\' as u8) {
        let nl = newline_len_exec(s, i + 1);
        if !lines_allowed && nl > 0 {
            1 + nl
        } else if i + 1 < s.len() && 0x20 <= s[i + 1] && s[i + 1] <= 0x7e {
            2
        } else {
            0
        }
    } else if !lines_allowed && newline_len_exec(s, i) > 0 {
        0
    } else {
        1
    }
}

/// Scan the text of a literal from `start`: `Ok(end)` when the closing
/// delimiter starts at `end`, `Err(pos)` when the literal stops in error at
/// `pos` (the end of input if it is never closed)
pub fn scan_literal_exec(kind: LiteralKind, src: &[u8], start: usize) -> (r: Result<usize, usize>)
    requires
        start <= src.len(),
    ensures
        match r {
            Ok(e) => scan_literal(kind, src@, start as int) == (e as int, true),
            Err(p) => scan_literal(kind, src@, start as int) == (p as int, false),
        },
{
    let mut i = start;
    while i < src.len()
        invariant
            start <= i <= src.len(),
            scan_literal(kind, src@, i as int) == scan_literal(kind, src@, start as int),
        decreases src.len() - i,
    {
        if delim_at_exec(kind, src, i) {
            return Ok(i);
        }
        let u = unit_len_exec(kind, src, i);
        if u == 0 {
            return Err(i);
        }
        assert(u <= src.len() - i);
        i = i + u;
    }
    Err(i)
}

/// The body of a `` "..." `` string literal starting at `start`
pub fn string_literal(src: &[u8], start: usize) -> (r: Result<usize, (usize, &'static str)>)
    requires
        start <= src.len(),
    ensures
        match r {
            Ok(e) => scan_literal(LiteralKind::String, src@, start as int) == (e as int, true),
            Err((p, m)) => scan_literal(LiteralKind::String, src@, start as int) == (p as int, false)
                && m@ == "Unterminated string literal"@,
        },
{
    match scan_literal_exec(LiteralKind::String, src, start) {
        Ok(e) => Ok(e),
        Err(p) => Err((p, "Unterminated string literal")),
    }
}

/// The body of a `"""..."""` string literal starting at `start`
pub fn multiline_string_literal(src: &[u8], start: usize) -> (r: Result<usize, (usize, &'static str)>)
    requires
        start <= src.len(),
    ensures
        match r {
            Ok(e) => scan_literal(LiteralKind::TripleQuote, src@, start as int) == (e as int, true),
            Err((p, m)) => scan_literal(LiteralKind::TripleQuote, src@, start as int) == (p as int, false)
                && m@ == "Unterminated multiline string literal"@,
        },
{
    match scan_literal_exec(LiteralKind::TripleQuote, src, start) {
        Ok(e) => Ok(e),
        Err(p) => Err((p, "Unterminated multiline string literal")),
    }
}

/// The body of a `` `"...`" `` preprocessor string literal starting at `start`
pub fn preprocessor_string_literal(src: &[u8], start: usize) -> (r: Result<usize, (usize, &'static str)>)
    requires
        start <= src.len(),
    ensures
        match r {
            Ok(e) => scan_literal(LiteralKind::Preprocessor, src@, start as int) == (e as int, true),
            Err((p, m)) => scan_literal(LiteralKind::Preprocessor, src@, start as int) == (p as int, false)
                && m@ == "Unterminated preprocessor string literal"@,
        },
{
    match scan_literal_exec(LiteralKind::Preprocessor, src, start) {
        Ok(e) => Ok(e),
        Err(p) => Err((p, "Unterminated preprocessor string literal")),
    }
}

/// The body of a `` `"""...`""" `` preprocessor string literal starting at
/// `start`
pub fn preprocessor_multiline_string_literal(src: &[u8], start: usize) -> (r: Result<usize, (usize, &'static str)>)
    requires
        start <= src.len(),
    ensures
        match r {
            Ok(e) => scan_literal(LiteralKind::PreprocessorTripleQuote, src@, start as int) == (e as int, true),
            Err((p, m)) => scan_literal(LiteralKind::PreprocessorTripleQuote, src@, start as int) == (p as int, false)
                && m@ == "Unterminated preprocessor multiline string literal"@,
        },
{
    match scan_literal_exec(LiteralKind::PreprocessorTripleQuote, src, start) {
        Ok(e) => Ok(e),
        Err(p) => Err((p, "Unterminated preprocessor multiline string literal")),
    }
}

/// Whether a block comment's `*/` starts at `i`
pub open spec fn comment_end_at(s: Seq<u8>, i: int) -> bool {
    byte_at(s, i, '*' as u8) && byte_at(s, i + 1, '/' as u8)
}

/// The body of a `/* ... */` comment starting at `start`: `Ok(end)` where
/// the first `*/` at or after `start` begins, or `Err(len)` if there is none
pub fn block_comment(src: &[u8], start: usize) -> (r: Result<usize, (usize, &'static str)>)
    requires
        start <= src.len(),
    ensures
        match r {
            Ok(e) => start <= e && comment_end_at(src@, e as int) && forall|j: int|
                start <= j < e ==> !comment_end_at(src@, j),
            Err((p, m)) => p == src.len() && (forall|j: int|
                start <= j < src.len() ==> !comment_end_at(src@, j)) && m@ == "Unterminated block comment"@,
        },
{
    let mut i = start;
    while i < src.len()
        invariant
            start <= i <= src.len(),
            forall|j: int| start <= j < i ==> !comment_end_at(src@, j),
        decreases src.len() - i,
    {
        if at(src, i, '*' as u8) && i + 1 < src.len() && src[i + 1] == '/' as u8 {
            return Ok(i);
        }
        i = i + 1;
    }
    Err((i, "Unterminated block comment"))
}

pub open spec fn is_line_break_byte(b: u8) -> bool {
    b == '\n' as u8 || b == '\r' as u8
}

/// The body of a `// ...` comment starting at `start`: it ends at the first
/// `\r` or `\n`, or at the end of input
pub fn oneline_comment(src: &[u8], start: usize) -> (e: usize)
    requires
        start <= src.len(),
    ensures
        start <= e <= src.len(),
        e == src.len() || is_line_break_byte(src@[e as int]),
        forall|j: int| start <= j < e ==> !is_line_break_byte(#[trigger] src@[j]),
{
    let mut i = start;
    while i < src.len() && src[i] != '\n' as u8 && src[i] != '\r' as u8
        invariant
            start <= i <= src.len(),
            forall|j: int| start <= j < i ==> !is_line_break_byte(#[trigger] src@[j]),
        decreases src.len() - i,
    {
        i = i + 1;
    }
    i
}

pub open spec fn is_ident_start(b: u8) -> bool {
    ('a' as u8 <= b <= 'z' as u8) || ('A' as u8 <= b <= 'Z' as u8) || b == '_' as u8
}

pub open spec fn is_ident_char(b: u8) -> bool {
    is_ident_start(b) || ('0' as u8 <= b <= '9' as u8) || b == '$' as u8
}

/// The end of the run of identifier characters (`[a-zA-Z0-9_$]`) starting
/// at `start`
pub fn ident_run(src: &[u8], start: usize) -> (e: usize)
    requires
        start <= src.len(),
    ensures
        start <= e <= src.len(),
        e == src.len() || !is_ident_char(src@[e as int]),
        forall|j: int| start <= j < e ==> is_ident_char(#[trigger] src@[j]),
{
    let mut i = start;
    while i < src.len() && is_ident_char_exec(src[i])
        invariant
            start <= i <= src.len(),
            forall|j: int| start <= j < i ==> is_ident_char(#[trigger] src@[j]),
        decreases src.len() - i,
    {
        i = i + 1;
    }
    i
}

pub fn is_ident_start_exec(b: u8) -> (r: bool)
    ensures
        r == is_ident_start(b),
{
    ('a' as u8 <= b && b <= 'z' as u8) || ('A' as u8 <= b && b <= 'Z' as u8) || b == '_' as u8
}

pub fn is_ident_char_exec(b: u8) -> (r: bool)
    ensures
        r == is_ident_char(b),
{
    is_ident_start_exec(b) || ('0' as u8 <= b && b <= '9' as u8) || b == '$' as u8
}

/// The name of a text macro whose grave accent ends at `start`: the run of
/// identifier characters that follows
pub fn text_macro(src: &[u8], start: usize) -> (e: usize)
    requires
        start <= src.len(),
    ensures
        start <= e <= src.len(),
        e == src.len() || !is_ident_char(src@[e as int]),
        forall|j: int| start <= j < e ==> is_ident_char(#[trigger] src@[j]),
{
    ident_run(src, start)
}

} // verus!
