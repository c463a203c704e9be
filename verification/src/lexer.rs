//! Lexing (System)Verilog source text into tokens

use crate::callbacks::{
    block_comment, comment_end_at, ident_run, is_ident_char, is_ident_char_exec,
    is_ident_start, is_ident_start_exec, is_line_break_byte, multiline_string_literal,
    oneline_comment, preprocessor_multiline_string_literal, preprocessor_string_literal,
    scan_literal, string_literal, text_macro, LiteralKind, delim_len, delim_at, byte_at,
};
use crate::keywords::{Keyword, KEYWORD_COUNT};
use crate::number_syntax::{complete_match, is_blank, is_digit, match_complete, number_kind,
    number_token, number_token_v, NumberMatch};
use crate::span::Span;
use crate::spanned_token::{display, triple_quote, SpannedToken};
use crate::token::{punct_byte, punct_token, Directive, Token, TokenV, DIRECTIVE_COUNT};
use crate::util::{bytes_eq, slice_bytes};
use vstd::prelude::*;

verus! {

pub open spec fn is_ident(s: Seq<u8>) -> bool {
    s.len() > 0 && is_ident_start(s[0]) && forall|i: int| 0 <= i < s.len() ==> is_ident_char(#[trigger] s[i])
}

pub open spec fn is_escaped_char(b: u8) -> bool {
    0x21 <= b <= 0x7e
}

/// Whether a word ends at `b`: no identifier character follows
pub open spec fn word_ends(src: Seq<u8>, b: int) -> bool {
    b == src.len() || !is_ident_char(src[b])
}

/// Whether the number `s`, read from `src[a..b]`, is the longest number
/// that starts at `a`
pub open spec fn longest_number_at(src: Seq<u8>, a: int, b: int, s: Seq<u8>) -> bool {
    complete_match(src.skip(a)) == NumberMatch::Matched(number_kind(s).unwrap(), (b - a) as usize)
}

/// Whether no keyword before this one in the list is written the same
pub open spec fn first_keyword(k: Keyword) -> bool {
    forall|j: int|
        0 <= j < k.index() ==> (#[trigger] Keyword::at(j) matches Some(k2) ==> k2.bytes() != k.bytes())
}

/// Whether no directive before this one in the list is written the same
pub open spec fn first_directive(d: Directive) -> bool {
    forall|j: int|
        0 <= j < d.index() ==> (#[trigger] Directive::at(j) matches Some(d2) ==> d2.bytes()
            != d.bytes())
}

/// Further conditions on a token's text, beyond it being the source text:
/// among them, that words, names and runs of digits are as long as they
/// can be
pub open spec fn kind_ok(src: Seq<u8>, t: TokenV, a: int, b: int) -> bool {
    match t {
        TokenV::Keyword(k) => first_keyword(k) && is_ident(k.bytes()) && word_ends(src, b),
        TokenV::Directive(d) => first_directive(d) && is_ident(d.bytes()) && word_ends(src, b),
        TokenV::SimpleIdentifier(s) => is_ident(s) && (forall|k: Keyword| k.bytes() != s)
            && word_ends(src, b),
        TokenV::TextMacro(s) => is_ident(s) && (forall|d: Directive| d.bytes() != s) && word_ends(
            src,
            b,
        ),
        TokenV::EscapedIdentifier(s) => s.len() > 0 && (forall|i: int|
            0 <= i < s.len() ==> is_escaped_char(#[trigger] s[i])) && (b == src.len()
            || !is_escaped_char(src[b])),
        TokenV::SystemIdentifier(s) => s.len() > 0 && (forall|i: int|
            0 <= i < s.len() ==> is_ident_char(#[trigger] s[i])) && word_ends(src, b),
        TokenV::UnsignedNumber(s) => s.len() > 0 && is_digit(s[0]) && (forall|i: int|
            0 <= i < s.len() ==> (is_digit(#[trigger] s[i]) || s[i] == '_' as u8)) && (b
            == src.len() || !(is_digit(src[b]) || src[b] == '_' as u8)) && complete_match(
            src.skip(a),
        ) == NumberMatch::NoMatch,
        TokenV::FixedPointNumber(s) => number_kind(s) is Some && number_token_v(
            number_kind(s).unwrap(),
            s,
        ) == t && longest_number_at(src, a, b, s),
        TokenV::BinaryNumber(s) => number_kind(s) is Some && number_token_v(
            number_kind(s).unwrap(),
            s,
        ) == t && longest_number_at(src, a, b, s),
        TokenV::OctalNumber(s) => number_kind(s) is Some && number_token_v(
            number_kind(s).unwrap(),
            s,
        ) == t && longest_number_at(src, a, b, s),
        TokenV::DecimalNumber(s) => number_kind(s) is Some && number_token_v(
            number_kind(s).unwrap(),
            s,
        ) == t && longest_number_at(src, a, b, s),
        TokenV::HexNumber(s) => number_kind(s) is Some && number_token_v(
            number_kind(s).unwrap(),
            s,
        ) == t && longest_number_at(src, a, b, s),
        TokenV::ScientificNumber(s) => number_kind(s) is Some && number_token_v(
            number_kind(s).unwrap(),
            s,
        ) == t && longest_number_at(src, a, b, s),
        TokenV::StringLiteral(_) => scan_literal(LiteralKind::String, src, a + 1) == (b - 1, true),
        TokenV::TripleQuoteStringLiteral(_) => scan_literal(LiteralKind::TripleQuote, src, a + 3)
            == (b - 3, true),
        TokenV::PreprocessorStringLiteral(_) => scan_literal(LiteralKind::Preprocessor, src, a + 2)
            == (b - 2, true),
        TokenV::PreprocessorTripleQuoteStringLiteral(_) => scan_literal(
            LiteralKind::PreprocessorTripleQuote,
            src,
            a + 4,
        ) == (b - 4, true),
        TokenV::BlockComment(_) => forall|j: int| a + 2 <= j < b - 2 ==> !comment_end_at(src, j),
        TokenV::Apost => complete_match(src.skip(a)) == NumberMatch::NoMatch,
        TokenV::OnelineComment(s) => (forall|i: int|
            0 <= i < s.len() ==> !is_line_break_byte(#[trigger] s[i])) && (b == src.len()
            || is_line_break_byte(src[b])),
        _ => true,
    }
}

/// What the bytes at `a` start: the kind of token read there
pub enum LexStart {
    Newline,
    LineComment,
    BlockComment,
    Literal(LiteralKind),
    Macro,
    Escaped,
    System,
    Word,
    Number,
    Other,
}

/// What the bytes at `a` start, by the first bytes there
pub open spec fn lex_start(src: Seq<u8>, a: int) -> LexStart {
    let b = src[a];
    if b == '\n' as u8 || b == '\r' as u8 {
        LexStart::Newline
    } else if b == '/' as u8 && byte_at(src, a + 1, '/' as u8) {
        LexStart::LineComment
    } else if b == '/' as u8 && byte_at(src, a + 1, '*' as u8) {
        LexStart::BlockComment
    } else if b == '"' as u8 {
        if byte_at(src, a + 1, '"' as u8) && byte_at(src, a + 2, '"' as u8) {
            LexStart::Literal(LiteralKind::TripleQuote)
        } else {
            LexStart::Literal(LiteralKind::String)
        }
    } else if b == '`' as u8 {
        if byte_at(src, a + 1, '"' as u8) {
            if byte_at(src, a + 2, '"' as u8) && byte_at(src, a + 3, '"' as u8) {
                LexStart::Literal(LiteralKind::PreprocessorTripleQuote)
            } else {
                LexStart::Literal(LiteralKind::Preprocessor)
            }
        } else if a + 1 < src.len() && is_ident_start(src[a + 1]) {
            LexStart::Macro
        } else {
            LexStart::Other
        }
    } else if b == '\\' as u8 && a + 1 < src.len() && is_escaped_char(src[a + 1]) {
        LexStart::Escaped
    } else if b == '$' as u8 && a + 1 < src.len() && is_ident_char(src[a + 1]) {
        LexStart::System
    } else if is_ident_start(b) {
        LexStart::Word
    } else if is_digit(b) || b == '\'' as u8 {
        LexStart::Number
    } else {
        LexStart::Other
    }
}

/// Whether a token is a literal of the given kind
pub open spec fn literal_token(t: TokenV, kind: LiteralKind) -> bool {
    match kind {
        LiteralKind::String => t is StringLiteral,
        LiteralKind::TripleQuote => t is TripleQuoteStringLiteral,
        LiteralKind::Preprocessor => t is PreprocessorStringLiteral,
        LiteralKind::PreprocessorTripleQuote => t is PreprocessorTripleQuoteStringLiteral,
    }
}

/// Whether a token read from `src[a..b]` is of the kind its first bytes
/// start (an unclosed comment or literal, or a byte that starts no
/// token, is an error)
pub open spec fn fits_start(src: Seq<u8>, t: TokenV, a: int, b: int) -> bool {
    match lex_start(src, a) {
        LexStart::Newline => t is Newline,
        LexStart::LineComment => t is OnelineComment,
        LexStart::BlockComment => t is BlockComment || (t is Error && b == src.len() && forall|j: int|
            a + 2 <= j < src.len() ==> !comment_end_at(src, j)),
        LexStart::Literal(kind) => literal_token(t, kind) || (t is Error && scan_literal(
            kind,
            src,
            a + delim_len(kind),
        ) == (b, false)),
        LexStart::Macro => t is Directive || t is TextMacro,
        LexStart::Escaped => t is EscapedIdentifier,
        LexStart::System => t is SystemIdentifier,
        LexStart::Word => t is Keyword || t is SimpleIdentifier,
        LexStart::Number => t is Apost || t is UnsignedNumber || t is FixedPointNumber
            || t is BinaryNumber || t is OctalNumber || t is DecimalNumber || t is HexNumber
            || t is ScientificNumber,
        LexStart::Other => punct_byte(t) == Some(src[a]) || (t is Error && b == a + 1 && forall|
            u: TokenV,
        | punct_byte(u) != Some(src[a])),
    }
}

/// A token read from the bytes `src[a..b]`
#[verifier::opaque]
pub open spec fn token_ok(src: Seq<u8>, t: TokenV, a: int, b: int) -> bool {
    &&& 0 <= a < b <= src.len()
    &&& !is_blank(src[a])
    &&& fits_start(src, t, a, b)
    &&& match t {
        TokenV::Newline => src.subrange(a, b) == seq!['\n' as u8] || (src.subrange(a, b) == seq![
            '\r' as u8,
        ] && !(b < src.len() && src[b] == '\n' as u8)) || src.subrange(a, b) == seq![
            '\r' as u8,
            '\n' as u8,
        ],
        TokenV::Error(e) => src.subrange(a, b) == e,
        _ => src.subrange(a, b) == display(t) && kind_ok(src, t, a, b),
    }
}

/// Whether a byte is covered by one of the tokens
pub open spec fn covered(toks: Seq<SpannedToken>, p: int) -> bool {
    exists|k: int| 0 <= k < toks.len() && toks[k].1.start <= p < #[trigger] toks[k].1.end
}

/// The tokens read from `src[..upto]`, of a file with the given index and
/// inclusion history
#[verifier::opaque]
pub open spec fn lexed_upto(
    src: Seq<u8>,
    file: usize,
    inc: Option<Box<Span>>,
    toks: Seq<SpannedToken>,
    upto: int,
) -> bool {
    &&& forall|k: int|
        0 <= k < toks.len() ==> {
            let sp = #[trigger] toks[k].1;
            &&& sp.file == file
            &&& sp.expanded_from is None
            &&& sp.included_from == inc
            &&& sp.end <= upto
            &&& token_ok(src, toks[k].0@, sp.start as int, sp.end as int)
        }
    &&& forall|k: int| 0 <= k < toks.len() - 1 ==> #[trigger] toks[k].1.end <= toks[k + 1].1.start
    &&& forall|p: int| 0 <= p < upto ==> covered(toks, p) || is_blank(#[trigger] src[p])
}

/// The tokens read from all of `src`: each is a token written in `src`
/// (its span is where), they come in order without overlapping, and the
/// bytes between them are blanks
pub open spec fn lexed(src: Seq<u8>, file: usize, inc: Option<Box<Span>>, toks: Seq<SpannedToken>) -> bool {
    lexed_upto(src, file, inc, toks, src.len() as int)
}

/// The keyword written as the given bytes, if any
pub fn lookup_keyword(t: &[u8]) -> (r: Option<Keyword>)
    ensures
        match r {
            Some(k) => k.bytes() == t@ && first_keyword(k),
            None => forall|k: Keyword| k.bytes() != t@,
        },
{
    let mut i: usize = 0;
    while i < KEYWORD_COUNT
        invariant
            forall|j: int|
                0 <= j < i ==> (#[trigger] Keyword::at(j) matches Some(k) ==> k.bytes() != t@),
        decreases KEYWORD_COUNT - i,
    {
        match Keyword::from_index(i) {
            Some(k) => {
                if bytes_eq(k.as_str().as_bytes(), t) {
                    proof {
                        Keyword::lemma_at(i as int);
                    }
                    return Some(k);
                }
            },
            None => {},
        }
        i = i + 1;
    }
    proof {
        assert forall|k: Keyword| k.bytes() != t@ by {
            k.lemma_index();
        }
    }
    None
}

/// The directive named by the given bytes, if any
pub fn lookup_directive(t: &[u8]) -> (r: Option<Directive>)
    ensures
        match r {
            Some(d) => d.bytes() == t@ && first_directive(d),
            None => forall|d: Directive| d.bytes() != t@,
        },
{
    let mut i: usize = 0;
    while i < DIRECTIVE_COUNT
        invariant
            forall|j: int|
                0 <= j < i ==> (#[trigger] Directive::at(j) matches Some(d) ==> d.bytes() != t@),
        decreases DIRECTIVE_COUNT - i,
    {
        match Directive::from_index(i) {
            Some(d) => {
                if bytes_eq(d.as_str().as_bytes(), t) {
                    proof {
                        Directive::lemma_at(i as int);
                    }
                    return Some(d);
                }
            },
            None => {},
        }
        i = i + 1;
    }
    proof {
        assert forall|d: Directive| d.bytes() != t@ by {
            d.lemma_index();
        }
    }
    None
}

fn byte_is(src: &[u8], i: usize, b: u8) -> (r: bool)
    ensures
        r == (i < src.len() && src@[i as int] == b),
{
    i < src.len() && src[i] == b
}

/// The bytes that open (and close) a delimited literal
pub open spec fn literal_delim(kind: LiteralKind) -> Seq<u8> {
    let q = '"' as u8;
    let g = '`' as u8;
    match kind {
        LiteralKind::String => seq![q],
        LiteralKind::TripleQuote => seq![q, q, q],
        LiteralKind::Preprocessor => seq![g, q],
        LiteralKind::PreprocessorTripleQuote => seq![g, q, q, q],
    }
}

/// A delimited literal starting at `i`
fn lex_literal(src: &[u8], i: usize, kind: LiteralKind) -> (r: (Token, usize))
    requires
        i + delim_len(kind) <= src.len(),
        src@.subrange(i as int, i + delim_len(kind)) == literal_delim(kind),
        lex_start(src@, i as int) == LexStart::Literal(kind),
    ensures
        token_ok(src@, r.0@, i as int, r.1 as int),
{
    proof {
        reveal(token_ok);
    }

    let open: usize = match kind {
        LiteralKind::String => 1,
        LiteralKind::TripleQuote => 3,
        LiteralKind::Preprocessor => 2,
        LiteralKind::PreprocessorTripleQuote => 4,
    };
    let res = match kind {
        LiteralKind::String => string_literal(src, i + open),
        LiteralKind::TripleQuote => multiline_string_literal(src, i + open),
        LiteralKind::Preprocessor => preprocessor_string_literal(src, i + open),
        LiteralKind::PreprocessorTripleQuote => preprocessor_multiline_string_literal(src, i + open),
    };
    proof {
        crate::callbacks::lemma_scan_bounds(kind, src@, (i + open) as int);
    }
    match res {
        Ok(e) => {
            let body = slice_bytes(src, i + open, e);
            let tok = match kind {
                LiteralKind::String => Token::StringLiteral(body),
                LiteralKind::TripleQuote => Token::TripleQuoteStringLiteral(body),
                LiteralKind::Preprocessor => Token::PreprocessorStringLiteral(body),
                LiteralKind::PreprocessorTripleQuote => Token::PreprocessorTripleQuoteStringLiteral(
                    body,
                ),
            };
            let end = e + open;
            proof {
                assert(src@.subrange(i as int, end as int) =~= display(tok@));
            }
            (tok, end)
        },
        Err((p, _message)) => {
            let body = slice_bytes(src, i, p);
            (Token::Error(body), p)
        },
    }
}

} // verus!

verus! {

fn is_blank_exec(b: u8) -> (r: bool)
    ensures
        r == is_blank(b),
{
    b == ' ' as u8 || b == '\t' as u8 || b == 0x0b || b == 0x0c
}

/// The end of the run of bytes in `[!-~]` starting at `start`
fn escaped_run(src: &[u8], start: usize) -> (e: usize)
    requires
        start <= src.len(),
    ensures
        start <= e <= src.len(),
        e == src.len() || !is_escaped_char(src@[e as int]),
        forall|j: int| start <= j < e ==> is_escaped_char(#[trigger] src@[j]),
{
    let mut i = start;
    while i < src.len() && 0x21 <= src[i] && src[i] <= 0x7e
        invariant
            start <= i <= src.len(),
            forall|j: int| start <= j < i ==> is_escaped_char(#[trigger] src@[j]),
        decreases src.len() - i,
    {
        i = i + 1;
    }
    i
}

/// The end of the run of `[0-9_]` starting at `start`
fn digit_run(src: &[u8], start: usize) -> (e: usize)
    requires
        start <= src.len(),
    ensures
        start <= e <= src.len(),
        e == src.len() || !(is_digit(src@[e as int]) || src@[e as int] == '_' as u8),
        forall|j: int| start <= j < e ==> (is_digit(#[trigger] src@[j]) || src@[j] == '_' as u8),
{
    let mut i = start;
    while i < src.len() && (('0' as u8 <= src[i] && src[i] <= '9' as u8) || src[i] == '_' as u8)
        invariant
            start <= i <= src.len(),
            forall|j: int| start <= j < i ==> (is_digit(#[trigger] src@[j]) || src@[j] == '_' as u8),
        decreases src.len() - i,
    {
        i = i + 1;
    }
    i
}

/// An identifier, keyword or text macro name: `src[start..e]`
fn lex_word(src: &[u8], i: usize) -> (r: (Token, usize))
    requires
        i < src.len(),
        is_ident_start(src@[i as int]),
    ensures
        token_ok(src@, r.0@, i as int, r.1 as int),
{
    proof {
        reveal(token_ok);
    }

    let e = ident_run(src, i);
    let text = slice_bytes(src, i, e);
    match lookup_keyword(text.as_slice()) {
        Some(k) => (Token::Keyword(k), e),
        None => {
            let tok = Token::SimpleIdentifier(text);
            proof {
                assert(src@.subrange(i as int, e as int) =~= display(tok@));
            }
            (tok, e)
        },
    }
}

/// A directive or text macro: a grave accent followed by a name
fn lex_macro(src: &[u8], i: usize) -> (r: (Token, usize))
    requires
        i + 1 < src.len(),
        src@[i as int] == '`' as u8,
        is_ident_start(src@[i + 1]),
    ensures
        token_ok(src@, r.0@, i as int, r.1 as int),
{
    proof {
        reveal(token_ok);
    }

    let e = text_macro(src, i + 1);
    let name = slice_bytes(src, i + 1, e);
    match lookup_directive(name.as_slice()) {
        Some(d) => {
            let tok = Token::Directive(d);
            proof {
                assert(src@.subrange(i as int, e as int) =~= display(tok@));
            }
            (tok, e)
        },
        None => {
            let tok = Token::TextMacro(name);
            proof {
                assert(src@.subrange(i as int, e as int) =~= display(tok@));
            }
            (tok, e)
        },
    }
}

/// A number, or an apostrophe that does not start one
fn lex_number(src: &[u8], i: usize) -> (r: (Token, usize))
    requires
        i < src.len(),
        is_digit(src@[i as int]) || src@[i as int] == '\'' as u8,
    ensures
        token_ok(src@, r.0@, i as int, r.1 as int),
{
    proof {
        reveal(token_ok);
    }

    match match_complete(src, i) {
        NumberMatch::Matched(kind, n) => {
            let ghost t = src@.skip(i as int);
            proof {
                crate::number_syntax::lemma_longest_is_number(t, t.len() as int);
                assert(t.take(n as int) =~= src@.subrange(i as int, i + n));
            }
            let text = slice_bytes(src, i, i + n);
            let tok = number_token(kind, text);
            (tok, i + n)
        },
        _ => {
            if src[i] == '\'' as u8 {
                proof {
                    assert(src@.subrange(i as int, i + 1) =~= seq!['\'' as u8]);
                }
                (Token::Apost, i + 1)
            } else {
                let e = digit_run(src, i);
                let text = slice_bytes(src, i, e);
                let tok = Token::UnsignedNumber(text);
                proof {
                    assert(src@.subrange(i as int, e as int) =~= display(tok@));
                }
                (tok, e)
            }
        },
    }
}

/// The token starting at `i`, and where it ends
fn lex_one(src: &[u8], i: usize) -> (r: (Token, usize))
    requires
        i < src.len(),
        !is_blank(src@[i as int]),
    ensures
        token_ok(src@, r.0@, i as int, r.1 as int),
{
    proof {
        reveal(token_ok);
    }

    let b = src[i];
    if b == '\n' as u8 {
        assert(src@.subrange(i as int, i + 1) =~= seq!['\n' as u8]);
        (Token::Newline, i + 1)
    } else if b == '\r' as u8 {
        if byte_is(src, i + 1, '\n' as u8) {
            assert(src@.subrange(i as int, i + 2) =~= seq!['\r' as u8, '\n' as u8]);
            (Token::Newline, i + 2)
        } else {
            assert(src@.subrange(i as int, i + 1) =~= seq!['\r' as u8]);
            (Token::Newline, i + 1)
        }
    } else if b == '/' as u8 && byte_is(src, i + 1, '/' as u8) {
        let e = oneline_comment(src, i + 2);
        let body = slice_bytes(src, i + 2, e);
        let tok = Token::OnelineComment(body);
        assert(src@.subrange(i as int, e as int) =~= display(tok@));
        (tok, e)
    } else if b == '/' as u8 && byte_is(src, i + 1, '*' as u8) {
        match block_comment(src, i + 2) {
            Ok(e) => {
                let body = slice_bytes(src, i + 2, e);
                let tok = Token::BlockComment(body);
                assert(src@.subrange(i as int, e + 2) =~= display(tok@));
                (tok, e + 2)
            },
            Err((p, _message)) => (Token::Error(slice_bytes(src, i, p)), p),
        }
    } else if b == '"' as u8 {
        if byte_is(src, i + 1, '"' as u8) && byte_is(src, i + 2, '"' as u8) {
            assert(src@.subrange(i as int, i + 3) =~= literal_delim(LiteralKind::TripleQuote));
            lex_literal(src, i, LiteralKind::TripleQuote)
        } else {
            assert(src@.subrange(i as int, i + 1) =~= literal_delim(LiteralKind::String));
            lex_literal(src, i, LiteralKind::String)
        }
    } else if b == '`' as u8 {
        if byte_is(src, i + 1, '"' as u8) {
            if byte_is(src, i + 2, '"' as u8) && byte_is(src, i + 3, '"' as u8) {
                assert(src@.subrange(i as int, i + 4) =~= literal_delim(
                    LiteralKind::PreprocessorTripleQuote,
                ));
                lex_literal(src, i, LiteralKind::PreprocessorTripleQuote)
            } else {
                assert(src@.subrange(i as int, i + 2) =~= literal_delim(LiteralKind::Preprocessor));
                lex_literal(src, i, LiteralKind::Preprocessor)
            }
        } else if i + 1 < src.len() && is_ident_start_exec(src[i + 1]) {
            lex_macro(src, i)
        } else {
            (Token::Error(slice_bytes(src, i, i + 1)), i + 1)
        }
    } else if b == '\\' as u8 && i + 1 < src.len() && 0x21 <= src[i + 1] && src[i + 1] <= 0x7e {
        let e = escaped_run(src, i + 1);
        let tok = Token::EscapedIdentifier(slice_bytes(src, i + 1, e));
        assert(src@.subrange(i as int, e as int) =~= display(tok@));
        (tok, e)
    } else if b == '$' as u8 && i + 1 < src.len() && is_ident_char_exec(src[i + 1]) {
        let e = ident_run(src, i + 1);
        let tok = Token::SystemIdentifier(slice_bytes(src, i + 1, e));
        assert(src@.subrange(i as int, e as int) =~= display(tok@));
        (tok, e)
    } else if is_ident_start_exec(b) {
        lex_word(src, i)
    } else if ('0' as u8 <= b && b <= '9' as u8) || b == '\'' as u8 {
        lex_number(src, i)
    } else {
        match punct_token(b) {
            Some(t) => {
                assert(src@.subrange(i as int, i + 1) =~= display(t@));
                (t, i + 1)
            },
            None => (Token::Error(slice_bytes(src, i, i + 1)), i + 1),
        }
    }
}

/// A copy of an inclusion history
pub fn clone_opt_span(o: &Option<Box<Span>>) -> (r: Option<Box<Span>>)
    ensures
        r == *o,
{
    match o {
        Some(b) => Some(Box::new((**b).clone())),
        None => None,
    }
}

/// Lex the source text of the file with index `file`, included from the
/// given `` `include `` directive (if any)
pub fn lex(src: &[u8], file: usize, included_from: &Option<Box<Span>>) -> (r: Vec<SpannedToken>)
    ensures
        lexed(src@, file, *included_from, r@),
{
    proof {
        reveal(lexed_upto);
    }
    let mut toks: Vec<SpannedToken> = Vec::new();
    let mut i: usize = 0;
    while i < src.len()
        invariant
            i <= src.len(),
            lexed_upto(src@, file, *included_from, toks@, i as int),
        decreases src.len() - i,
    {
        proof {
            reveal(lexed_upto);
        }
        if is_blank_exec(src[i]) {
            i = i + 1;
            continue;
        }
        let (tok, e) = lex_one(src, i);
        proof {
            lemma_token_ok_bounds(src@, tok@, i as int, e as int);
        }
        let sp = Span {
            file,
            start: i,
            end: e,
            expanded_from: None,
            included_from: clone_opt_span(included_from),
        };
        let ghost old_toks = toks@;
        toks.push(SpannedToken(tok, sp));
        proof {
            let n = old_toks.len();
            assert(toks@[n as int].1 == sp);
            assert forall|k: int| 0 <= k < toks@.len() - 1 implies #[trigger] toks@[k].1.end
                <= toks@[k + 1].1.start by {
                if k + 1 < n {
                    assert(toks@[k] == old_toks[k]);
                    assert(toks@[k + 1] == old_toks[k + 1]);
                } else {
                    assert(toks@[k] == old_toks[k]);
                }
            }
            assert forall|p: int| 0 <= p < e implies covered(toks@, p) || is_blank(
                #[trigger] src@[p],
            ) by {
                if p < i {
                    if covered(old_toks, p) {
                        let k = choose|k: int|
                            0 <= k < old_toks.len() && old_toks[k].1.start <= p
                                < #[trigger] old_toks[k].1.end;
                        assert(toks@[k] == old_toks[k]);
                    }
                } else {
                    assert(toks@[n as int].1.start <= p < toks@[n as int].1.end);
                }
            }
        }
        i = e;
    }
    toks
}

} // verus!

verus! {

/// A run of bytes meeting `p` from `a`, that stops at the end or before a
/// byte that does not, stops at one place
proof fn lemma_run_end(src: Seq<u8>, p: spec_fn(u8) -> bool, a: int, b1: int, b2: int)
    requires
        a <= b1 <= src.len(),
        a <= b2 <= src.len(),
        forall|j: int| a <= j < b1 ==> p(#[trigger] src[j]),
        forall|j: int| a <= j < b2 ==> p(#[trigger] src[j]),
        b1 == src.len() || !p(src[b1]),
        b2 == src.len() || !p(src[b2]),
    ensures
        b1 == b2,
{
    if b1 < b2 {
        assert(p(src[b1]));
    }
    if b2 < b1 {
        assert(p(src[b2]));
    }
}

/// The bytes of the body of a token's text, in the source
proof fn lemma_body_bytes(
    src: Seq<u8>,
    a: int,
    b: int,
    head: Seq<u8>,
    body: Seq<u8>,
    tail: Seq<u8>,
    p: spec_fn(u8) -> bool,
)
    requires
        0 <= a <= b <= src.len(),
        src.subrange(a, b) == head + body + tail,
        forall|i: int| 0 <= i < body.len() ==> p(#[trigger] body[i]),
    ensures
        b == a + head.len() + body.len() + tail.len(),
        forall|j: int| a + head.len() <= j < a + head.len() + body.len() ==> p(#[trigger] src[j]),
        src.subrange(a + head.len(), a + head.len() + body.len()) == body,
{
    assert(src.subrange(a, b).len() == b - a);
    assert((head + body + tail).len() == head.len() + body.len() + tail.len());
    assert forall|j: int| a + head.len() <= j < a + head.len() + body.len() implies p(
        #[trigger] src[j],
    ) by {
        assert(src[j] == src.subrange(a, b)[j - a]);
        assert((head + body + tail)[j - a] == body[j - a - head.len()]);
    }
    assert forall|i: int| 0 <= i < body.len() implies #[trigger] src.subrange(
        a + head.len(),
        a + head.len() + body.len(),
    )[i] == body[i] by {
        let j = a + head.len() + i;
        assert(src.subrange(a + head.len(), a + head.len() + body.len())[i] == src[j]);
        assert(src[j] == src.subrange(a, b)[j - a]);
        assert((head + body + tail)[j - a] == body[i]);
    }
    assert(src.subrange(a + head.len(), a + head.len() + body.len()) =~= body);
}

/// Two tokens read where a word starts are the same word
proof fn lemma_word_unique(src: Seq<u8>, a: int, t1: TokenV, b1: int, t2: TokenV, b2: int)
    requires
        token_ok(src, t1, a, b1),
        token_ok(src, t2, a, b2),
        lex_start(src, a) == LexStart::Word,
    ensures
        t1 == t2 && b1 == b2,
{
    reveal(token_ok);

    assert forall|j: int| a <= j < b1 implies is_ident_char(#[trigger] src[j]) by {
        assert(src[j] == src.subrange(a, b1)[j - a]);
    }
    assert forall|j: int| a <= j < b2 implies is_ident_char(#[trigger] src[j]) by {
        assert(src[j] == src.subrange(a, b2)[j - a]);
    }
    lemma_run_end(src, |c: u8| is_ident_char(c), a, b1, b2);
    match (t1, t2) {
        (TokenV::Keyword(k1), TokenV::Keyword(k2)) => {
            k1.lemma_index();
            k2.lemma_index();
            if k1.index() < k2.index() {
                assert(Keyword::at(k1.index()) == Some(k1));
            } else if k2.index() < k1.index() {
                assert(Keyword::at(k2.index()) == Some(k2));
            }
        },
        _ => {},
    }
}


/// Two tokens read where a directive or macro name starts are the same
proof fn lemma_macro_unique(src: Seq<u8>, a: int, t1: TokenV, b1: int, t2: TokenV, b2: int)
    requires
        token_ok(src, t1, a, b1),
        token_ok(src, t2, a, b2),
        lex_start(src, a) == LexStart::Macro,
    ensures
        t1 == t2 && b1 == b2,
{
    reveal(token_ok);

    let g = seq!['`' as u8];
    let e = Seq::<u8>::empty();
    let p = |c: u8| is_ident_char(c);
    match t1 {
        TokenV::Directive(d) => {
            assert(display(t1) =~= g + d.bytes() + e);
            lemma_body_bytes(src, a, b1, g, d.bytes(), e, p);
        },
        TokenV::TextMacro(s) => {
            assert(display(t1) =~= g + s + e);
            lemma_body_bytes(src, a, b1, g, s, e, p);
        },
        _ => {},
    }
    match t2 {
        TokenV::Directive(d) => {
            assert(display(t2) =~= g + d.bytes() + e);
            lemma_body_bytes(src, a, b2, g, d.bytes(), e, p);
        },
        TokenV::TextMacro(s) => {
            assert(display(t2) =~= g + s + e);
            lemma_body_bytes(src, a, b2, g, s, e, p);
        },
        _ => {},
    }
    lemma_run_end(src, p, a + 1, b1, b2);
    match (t1, t2) {
        (TokenV::Directive(d1), TokenV::Directive(d2)) => {
            assert(d1.bytes() =~= display(t1).skip(1));
            assert(d2.bytes() =~= display(t2).skip(1));
            d1.lemma_index();
            d2.lemma_index();
            if d1.index() < d2.index() {
                assert(Directive::at(d1.index()) == Some(d1));
            } else if d2.index() < d1.index() {
                assert(Directive::at(d2.index()) == Some(d2));
            }
        },
        (TokenV::Directive(d1), TokenV::TextMacro(s2)) => {
            assert(d1.bytes() =~= display(t1).skip(1));
            assert(s2 =~= display(t2).skip(1));
        },
        (TokenV::TextMacro(s1), TokenV::Directive(d2)) => {
            assert(s1 =~= display(t1).skip(1));
            assert(d2.bytes() =~= display(t2).skip(1));
        },
        (TokenV::TextMacro(s1), TokenV::TextMacro(s2)) => {
            assert(s1 =~= display(t1).skip(1));
            assert(s2 =~= display(t2).skip(1));
        },
        _ => {},
    }
}

/// Two tokens read where an escaped or system name starts are the same
proof fn lemma_name_unique(src: Seq<u8>, a: int, t1: TokenV, b1: int, t2: TokenV, b2: int)
    requires
        token_ok(src, t1, a, b1),
        token_ok(src, t2, a, b2),
        lex_start(src, a) == LexStart::Escaped || lex_start(src, a) == LexStart::System,
    ensures
        t1 == t2 && b1 == b2,
{
    reveal(token_ok);

    let e = Seq::<u8>::empty();
    if lex_start(src, a) == LexStart::Escaped {
        let p = |c: u8| is_escaped_char(c);
        let g = seq!['\\' as u8];
        match t1 {
            TokenV::EscapedIdentifier(s) => {
                assert(display(t1) =~= g + s + e);
                lemma_body_bytes(src, a, b1, g, s, e, p);
            },
            _ => {},
        }
        match t2 {
            TokenV::EscapedIdentifier(s) => {
                assert(display(t2) =~= g + s + e);
                lemma_body_bytes(src, a, b2, g, s, e, p);
            },
            _ => {},
        }
        lemma_run_end(src, p, a + 1, b1, b2);
        match (t1, t2) {
            (TokenV::EscapedIdentifier(s1), TokenV::EscapedIdentifier(s2)) => {
                assert(s1 =~= display(t1).skip(1));
                assert(s2 =~= display(t2).skip(1));
            },
            _ => {},
        }
    } else {
        let p = |c: u8| is_ident_char(c);
        let g = seq!['$' as u8];
        match t1 {
            TokenV::SystemIdentifier(s) => {
                assert(display(t1) =~= g + s + e);
                lemma_body_bytes(src, a, b1, g, s, e, p);
            },
            _ => {},
        }
        match t2 {
            TokenV::SystemIdentifier(s) => {
                assert(display(t2) =~= g + s + e);
                lemma_body_bytes(src, a, b2, g, s, e, p);
            },
            _ => {},
        }
        lemma_run_end(src, p, a + 1, b1, b2);
        match (t1, t2) {
            (TokenV::SystemIdentifier(s1), TokenV::SystemIdentifier(s2)) => {
                assert(s1 =~= display(t1).skip(1));
                assert(s2 =~= display(t2).skip(1));
            },
            _ => {},
        }
    }
}

/// Two tokens read where a one-line comment starts are the same
proof fn lemma_line_comment_unique(src: Seq<u8>, a: int, t1: TokenV, b1: int, t2: TokenV, b2: int)
    requires
        token_ok(src, t1, a, b1),
        token_ok(src, t2, a, b2),
        lex_start(src, a) == LexStart::LineComment,
    ensures
        t1 == t2 && b1 == b2,
{
    reveal(token_ok);

    match (t1, t2) {
        (TokenV::OnelineComment(s1), TokenV::OnelineComment(s2)) => {
            let g = seq!['/' as u8, '/' as u8];
            let e = Seq::<u8>::empty();
            let p = |c: u8| !is_line_break_byte(c);
            assert(display(t1) =~= g + s1 + e);
            assert(display(t2) =~= g + s2 + e);
            lemma_body_bytes(src, a, b1, g, s1, e, p);
            lemma_body_bytes(src, a, b2, g, s2, e, p);
            lemma_run_end(src, p, a + 2, b1, b2);
            assert(s1 =~= display(t1).skip(2));
            assert(s2 =~= display(t2).skip(2));
        },
        _ => {},
    }
}

/// Two tokens read where a line break starts are the same
proof fn lemma_newline_unique(src: Seq<u8>, a: int, t1: TokenV, b1: int, t2: TokenV, b2: int)
    requires
        token_ok(src, t1, a, b1),
        token_ok(src, t2, a, b2),
        lex_start(src, a) == LexStart::Newline,
    ensures
        t1 == t2 && b1 == b2,
{
    reveal(token_ok);

    let n = seq!['\n' as u8];
    let r = seq!['\r' as u8];
    let rn = seq!['\r' as u8, '\n' as u8];
    assert(n.len() == 1 && r.len() == 1 && rn.len() == 2);
    assert(n[0] == '\n' as u8 && r[0] == '\r' as u8 && rn[0] == '\r' as u8 && rn[1] == '\n' as u8);
    let s1 = src.subrange(a, b1);
    let s2 = src.subrange(a, b2);
    assert(s1.len() == b1 - a && s2.len() == b2 - a);
    assert(s1[0] == src[a]);
    assert(s2[0] == src[a]);
    if b1 > a + 1 {
        assert(s1[1] == src[a + 1]);
    }
    if b2 > a + 1 {
        assert(s2[1] == src[a + 1]);
    }
    assert(t1 is Newline && t2 is Newline);
    if s1 == n {
        assert(src[a] == '\n' as u8);
    }
    if s2 == n {
        assert(src[a] == '\n' as u8);
    }
}


/// The text of a token of one of the kinds of number a number match gives
pub open spec fn matched_number_text(t: TokenV) -> Option<Seq<u8>> {
    match t {
        TokenV::FixedPointNumber(s) => Some(s),
        TokenV::BinaryNumber(s) => Some(s),
        TokenV::OctalNumber(s) => Some(s),
        TokenV::DecimalNumber(s) => Some(s),
        TokenV::HexNumber(s) => Some(s),
        TokenV::ScientificNumber(s) => Some(s),
        _ => None,
    }
}

/// Two tokens read where a number or an apostrophe starts are the same
proof fn lemma_number_unique(src: Seq<u8>, a: int, t1: TokenV, b1: int, t2: TokenV, b2: int)
    requires
        token_ok(src, t1, a, b1),
        token_ok(src, t2, a, b2),
        lex_start(src, a) == LexStart::Number,
        src.len() <= usize::MAX,
    ensures
        t1 == t2 && b1 == b2,
{
    reveal(token_ok);

    assert(src.subrange(a, b1)[0] == src[a]);
    assert(src.subrange(a, b2)[0] == src[a]);
    if t1 is UnsignedNumber && t2 is UnsignedNumber {
        let s1 = t1->UnsignedNumber_0;
        let s2 = t2->UnsignedNumber_0;
        let p = |c: u8| is_digit(c) || c == '_' as u8;
        let e = Seq::<u8>::empty();
        assert(display(t1) =~= e + s1 + e);
        assert(display(t2) =~= e + s2 + e);
        lemma_body_bytes(src, a, b1, e, s1, e, p);
        lemma_body_bytes(src, a, b2, e, s2, e, p);
        lemma_run_end(src, p, a, b1, b2);
    } else if matched_number_text(t1) is Some && matched_number_text(t2) is Some {
        let s1 = matched_number_text(t1)->0;
        let s2 = matched_number_text(t2)->0;
        assert(display(t1) == s1);
        assert(display(t2) == s2);
        assert(s1 =~= src.subrange(a, b2));
    } else if t1 is UnsignedNumber {
        assert(display(t1) == t1->UnsignedNumber_0);
    } else if t2 is UnsignedNumber {
        assert(display(t2) == t2->UnsignedNumber_0);
    }
}

/// Two tokens read where a literal starts are the same
proof fn lemma_literal_unique(
    src: Seq<u8>,
    a: int,
    t1: TokenV,
    b1: int,
    t2: TokenV,
    b2: int,
    kind: LiteralKind,
)
    requires
        token_ok(src, t1, a, b1),
        token_ok(src, t2, a, b2),
        lex_start(src, a) == LexStart::Literal(kind),
    ensures
        t1 == t2 && b1 == b2,
{
    reveal(token_ok);

    let q = seq!['"' as u8];
    let g = seq!['`' as u8];
    let head = match kind {
        LiteralKind::String => q,
        LiteralKind::TripleQuote => triple_quote(),
        LiteralKind::Preprocessor => g + q,
        LiteralKind::PreprocessorTripleQuote => g + triple_quote(),
    };
    let yes = |c: u8| true;
    if literal_token(t1, kind) && literal_token(t2, kind) {
        let s1 = literal_text(t1);
        let s2 = literal_text(t2);
        assert(display(t1) =~= head + s1 + head);
        assert(display(t2) =~= head + s2 + head);
        lemma_body_bytes(src, a, b1, head, s1, head, yes);
        lemma_body_bytes(src, a, b2, head, s2, head, yes);
    }
}

/// The text held by a literal token
pub open spec fn literal_text(t: TokenV) -> Seq<u8> {
    match t {
        TokenV::StringLiteral(s) => s,
        TokenV::TripleQuoteStringLiteral(s) => s,
        TokenV::PreprocessorStringLiteral(s) => s,
        TokenV::PreprocessorTripleQuoteStringLiteral(s) => s,
        _ => Seq::empty(),
    }
}

/// Two tokens read where a block comment starts are the same
proof fn lemma_block_comment_unique(src: Seq<u8>, a: int, t1: TokenV, b1: int, t2: TokenV, b2: int)
    requires
        token_ok(src, t1, a, b1),
        token_ok(src, t2, a, b2),
        lex_start(src, a) == LexStart::BlockComment,
    ensures
        t1 == t2 && b1 == b2,
{
    reveal(token_ok);

    let open = seq!['/' as u8, '*' as u8];
    let close = seq!['*' as u8, '/' as u8];
    let yes = |c: u8| true;
    if t1 is BlockComment {
        let s1 = t1->BlockComment_0;
        assert(display(t1) =~= open + s1 + close);
        lemma_body_bytes(src, a, b1, open, s1, close, yes);
        assert(src[b1 - 2] == src.subrange(a, b1)[b1 - 2 - a]);
        assert(src[b1 - 1] == src.subrange(a, b1)[b1 - 1 - a]);
        assert(comment_end_at(src, b1 - 2));
    }
    if t2 is BlockComment {
        let s2 = t2->BlockComment_0;
        assert(display(t2) =~= open + s2 + close);
        lemma_body_bytes(src, a, b2, open, s2, close, yes);
        assert(src[b2 - 2] == src.subrange(a, b2)[b2 - 2 - a]);
        assert(src[b2 - 1] == src.subrange(a, b2)[b2 - 1 - a]);
        assert(comment_end_at(src, b2 - 2));
    }
}

/// The punctuation token that a byte stands for
pub open spec fn punct_of(b: u8) -> Option<TokenV> {
    if b == '+' as u8 { Some(TokenV::Plus) }
    else if b == '-' as u8 { Some(TokenV::Minus) }
    else if b == '*' as u8 { Some(TokenV::Star) }
    else if b == '/' as u8 { Some(TokenV::Slash) }
    else if b == '%' as u8 { Some(TokenV::Percent) }
    else if b == '=' as u8 { Some(TokenV::Eq) }
    else if b == '<' as u8 { Some(TokenV::Lt) }
    else if b == '>' as u8 { Some(TokenV::Gt) }
    else if b == '!' as u8 { Some(TokenV::Excl) }
    else if b == '~' as u8 { Some(TokenV::Tilde) }
    else if b == '&' as u8 { Some(TokenV::Amp) }
    else if b == '|' as u8 { Some(TokenV::Pipe) }
    else if b == '^' as u8 { Some(TokenV::Caret) }
    else if b == '?' as u8 { Some(TokenV::Quest) }
    else if b == ':' as u8 { Some(TokenV::Colon) }
    else if b == ';' as u8 { Some(TokenV::SColon) }
    else if b == ',' as u8 { Some(TokenV::Comma) }
    else if b == '.' as u8 { Some(TokenV::Dot) }
    else if b == '#' as u8 { Some(TokenV::Hash) }
    else if b == '@' as u8 { Some(TokenV::At) }
    else if b == '$' as u8 { Some(TokenV::Dollar) }
    else if b == '(' as u8 { Some(TokenV::Paren) }
    else if b == ')' as u8 { Some(TokenV::EParen) }
    else if b == '[' as u8 { Some(TokenV::Bracket) }
    else if b == ']' as u8 { Some(TokenV::EBracket) }
    else if b == '{' as u8 { Some(TokenV::Brace) }
    else if b == '}' as u8 { Some(TokenV::EBrace) }
    else if b == '\'' as u8 { Some(TokenV::Apost) }
    else if b == '\\' as u8 { Some(TokenV::Bslash) }
    else { None }
}

/// A punctuation token is the one its byte stands for
proof fn lemma_punct_of(t: TokenV)
    ensures
        punct_byte(t) matches Some(b) ==> punct_of(b) == Some(t),
{
}

/// Two tokens read where no other kind of token starts are the same
proof fn lemma_other_unique(src: Seq<u8>, a: int, t1: TokenV, b1: int, t2: TokenV, b2: int)
    requires
        token_ok(src, t1, a, b1),
        token_ok(src, t2, a, b2),
        lex_start(src, a) == LexStart::Other,
    ensures
        t1 == t2 && b1 == b2,
{
    reveal(token_ok);

    lemma_punct_of(t1);
    lemma_punct_of(t2);
    if punct_byte(t1) is Some {
        assert(display(t1) == seq![punct_byte(t1)->0]);
    }
    if punct_byte(t2) is Some {
        assert(display(t2) == seq![punct_byte(t2)->0]);
    }
}

/// A token read at a place is the only one that can be read there: of
/// the kind its first bytes start, and as long as it can be
pub proof fn lemma_token_unique(src: Seq<u8>, a: int, t1: TokenV, b1: int, t2: TokenV, b2: int)
    requires
        token_ok(src, t1, a, b1),
        token_ok(src, t2, a, b2),
        src.len() <= usize::MAX,
    ensures
        t1 == t2 && b1 == b2,
{
    reveal(token_ok);

    match lex_start(src, a) {
        LexStart::Newline => lemma_newline_unique(src, a, t1, b1, t2, b2),
        LexStart::LineComment => lemma_line_comment_unique(src, a, t1, b1, t2, b2),
        LexStart::BlockComment => lemma_block_comment_unique(src, a, t1, b1, t2, b2),
        LexStart::Literal(kind) => lemma_literal_unique(src, a, t1, b1, t2, b2, kind),
        LexStart::Macro => lemma_macro_unique(src, a, t1, b1, t2, b2),
        LexStart::Escaped => lemma_name_unique(src, a, t1, b1, t2, b2),
        LexStart::System => lemma_name_unique(src, a, t1, b1, t2, b2),
        LexStart::Word => lemma_word_unique(src, a, t1, b1, t2, b2),
        LexStart::Number => lemma_number_unique(src, a, t1, b1, t2, b2),
        LexStart::Other => lemma_other_unique(src, a, t1, b1, t2, b2),
    }
}


/// The first byte at or after `i` that is not a blank (the end, if none)
pub open spec fn first_nonblank(src: Seq<u8>, i: int) -> int
    decreases src.len() - i,
{
    if i < 0 || i >= src.len() {
        src.len() as int
    } else if is_blank(src[i]) {
        first_nonblank(src, i + 1)
    } else {
        i
    }
}

/// Where the bytes from `i` up to a place are blanks and the byte there
/// is not (or it is the end), that place is the first byte not a blank
proof fn lemma_first_nonblank(src: Seq<u8>, i: int, s: int)
    requires
        0 <= i <= s <= src.len(),
        forall|p: int| i <= p < s ==> is_blank(#[trigger] src[p]),
        s < src.len() ==> !is_blank(src[s]),
    ensures
        first_nonblank(src, i) == s,
    decreases s - i,
{
    if i < s {
        lemma_first_nonblank(src, i + 1, s);
    }
}

/// The layout of tokens read from a text: each starts at a byte that is
/// not a blank, they come in order without overlapping, and the bytes
/// they leave out are blanks
#[verifier::opaque]
pub open spec fn spaced(src: Seq<u8>, toks: Seq<SpannedToken>) -> bool {
    &&& ordered(toks)
    &&& forall|k: int|
        0 <= k < toks.len() ==> (#[trigger] toks[k]).1.end <= src.len() && !is_blank(
            src[toks[k].1.start as int],
        )
    &&& forall|p: int| 0 <= p < src.len() ==> covered(toks, p) || is_blank(#[trigger] src[p])
}

/// Tokens that are not empty and come in order without overlapping
pub open spec fn ordered(toks: Seq<SpannedToken>) -> bool {
    &&& forall|k: int| 0 <= k < toks.len() ==> (#[trigger] toks[k]).1.start < toks[k].1.end
    &&& forall|k: int| 0 <= k < toks.len() - 1 ==> #[trigger] toks[k].1.end <= toks[k + 1].1.start
}

proof fn lemma_token_ok_bounds(src: Seq<u8>, t: TokenV, a: int, b: int)
    requires
        token_ok(src, t, a, b),
    ensures
        0 <= a < b <= src.len(),
        !is_blank(src[a]),
{
    reveal(token_ok);

}

/// Tokens read from all of a text are laid out in it
pub proof fn lemma_lexed_spaced(src: Seq<u8>, file: usize, inc: Option<Box<Span>>, toks: Seq<SpannedToken>)
    requires
        lexed(src, file, inc, toks),
    ensures
        spaced(src, toks),
{
    reveal(lexed_upto);
    reveal(spaced);
    assert forall|k: int| 0 <= k < toks.len() implies (#[trigger] toks[k]).1.start < toks[k].1.end
        <= src.len() && !is_blank(src[toks[k].1.start as int]) by {
        lemma_token_ok_bounds(src, toks[k].0@, toks[k].1.start as int, toks[k].1.end as int);
    }
    assert(ordered(toks));
}

/// The tokens come in order: each ends before any later one starts
proof fn lemma_spaced_order(toks: Seq<SpannedToken>, j: int, k: int)
    requires
        ordered(toks),
        0 <= j < k < toks.len(),
    ensures
        toks[j].1.end <= toks[k].1.start,
    decreases k - j,
{
    if j + 1 < k {
        lemma_spaced_order(toks, j + 1, k);
        assert(toks[j + 1].1.start < toks[j + 1].1.end);
        assert(toks[j].1.end <= toks[j + 1].1.start);
    }
}

/// Where the token after the first `k` starts (the end of the last of
/// them, or the start of the text)
pub open spec fn end_of_first(toks: Seq<SpannedToken>, k: int) -> int {
    if k == 0 {
        0
    } else {
        toks[k - 1].1.end as int
    }
}

/// Each token starts at the first byte after the one before that is not a
/// blank; after the last, only blanks are left
#[verifier::rlimit(30)]
pub proof fn lemma_spaced_starts(src: Seq<u8>, toks: Seq<SpannedToken>, k: int)
    requires
        spaced(src, toks),
        0 <= k <= toks.len(),
    ensures
        k < toks.len() ==> toks[k].1.start == first_nonblank(src, end_of_first(toks, k)),
        k == toks.len() ==> first_nonblank(src, end_of_first(toks, k)) == src.len(),
        0 <= end_of_first(toks, k) <= src.len(),
        k < toks.len() ==> toks[k].1.start < toks[k].1.end <= src.len(),
{
    reveal(spaced);
    let e = end_of_first(toks, k);
    if k > 0 {
        assert(toks[k - 1].1.start < toks[k - 1].1.end <= src.len());
    }
    let s = if k < toks.len() {
        toks[k].1.start as int
    } else {
        src.len() as int
    };
    if k < toks.len() {
        assert(toks[k].1.start < toks[k].1.end <= src.len());
        if k > 0 {
            lemma_spaced_order(toks, k - 1, k);
        }
    }
    assert forall|p: int| e <= p < s implies is_blank(#[trigger] src[p]) by {
        if covered(toks, p) {
            let j = choose|j: int| 0 <= j < toks.len() && toks[j].1.start <= p < #[trigger] toks[j].1.end;
            lemma_not_covering(toks, k, j, p);
        }
    }
    lemma_first_nonblank(src, e, s);
}

/// No token covers a byte between the end of the first `k` tokens and the
/// start of the next
proof fn lemma_not_covering(toks: Seq<SpannedToken>, k: int, j: int, p: int)
    requires
        ordered(toks),
        0 <= k <= toks.len(),
        0 <= j < toks.len(),
        end_of_first(toks, k) <= p,
        k < toks.len() ==> p < toks[k].1.start,
    ensures
        !(toks[j].1.start <= p < toks[j].1.end),
{
    if j < k - 1 {
        lemma_spaced_order(toks, j, k - 1);
        assert(toks[k - 1].1.start < toks[k - 1].1.end);
    } else if j > k {
        lemma_spaced_order(toks, k, j);
        assert(toks[k].1.start < toks[k].1.end);
    }
}


/// A token of a reading of all of a text: a token read where it starts,
/// with a span in the file, neither expanded nor included otherwise
pub proof fn lemma_lexed_token(src: Seq<u8>, file: usize, inc: Option<Box<Span>>, toks: Seq<SpannedToken>, k: int)
    requires
        lexed(src, file, inc, toks),
        0 <= k < toks.len(),
    ensures
        token_ok(src, toks[k].0@, toks[k].1.start as int, toks[k].1.end as int),
        toks[k].1.file == file,
        toks[k].1.expanded_from is None,
        toks[k].1.included_from == inc,
{
    reveal(lexed_upto);
    let sp = toks[k].1;
    assert(sp.file == file);
}

/// Two readings of all of a text agree on their first `k` tokens
#[verifier::rlimit(30)]
pub proof fn lemma_lexed_prefix(
    src: Seq<u8>,
    file: usize,
    inc: Option<Box<Span>>,
    t1: Seq<SpannedToken>,
    t2: Seq<SpannedToken>,
    k: int,
)
    requires
        lexed(src, file, inc, t1),
        lexed(src, file, inc, t2),
        spaced(src, t1),
        spaced(src, t2),
        src.len() <= usize::MAX,
        0 <= k <= t1.len(),
        k <= t2.len(),
    ensures
        forall|i: int| 0 <= i < k ==> #[trigger] t1[i]@ == t2[i]@,
    decreases k,
{
    if k > 0 {
        lemma_lexed_prefix(src, file, inc, t1, t2, k - 1);
        let i = k - 1;
        if i > 0 {
            assert(t1[i - 1]@ == t2[i - 1]@);
        }
        assert(end_of_first(t1, i) == end_of_first(t2, i));
        lemma_spaced_starts(src, t1, i);
        lemma_spaced_starts(src, t2, i);
        let a = t1[i].1.start as int;
        lemma_lexed_token(src, file, inc, t1, i);
        lemma_lexed_token(src, file, inc, t2, i);
        lemma_token_unique(src, a, t1[i].0@, t1[i].1.end as int, t2[i].0@, t2[i].1.end as int);
        assert(t1[i].1 == t2[i].1);
    }
}

} // verus!
