//! Tokens paired with the span of source text they came from

use crate::span::Span;
use crate::token::{punct_byte, Token, TokenV};
use crate::util::{append_bytes, copy_bytes};
use vstd::prelude::*;
use vstd::string::StringSliceAdditionalSpecFns;

verus! {

/// A token together with where it was found
#[derive(Debug)]
pub struct SpannedToken(pub Token, pub Span);

impl View for SpannedToken {
    type V = (TokenV, Span);

    open spec fn view(&self) -> (TokenV, Span) {
        (self.0@, self.1)
    }
}

impl Clone for SpannedToken {
    fn clone(&self) -> (r: Self)
        ensures
            r@ == self@,
    {
        SpannedToken(self.0.clone(), self.1.clone())
    }
}

/// The values of a sequence of spanned tokens
pub open spec fn view_tokens(s: Seq<SpannedToken>) -> Seq<(TokenV, Span)> {
    s.map_values(|t: SpannedToken| t@)
}

/// The kinds of a sequence of spanned tokens
pub open spec fn kinds(s: Seq<(TokenV, Span)>) -> Seq<TokenV> {
    s.map_values(|t: (TokenV, Span)| t.0)
}

/// The source text that a token is written as (a line break as a single
/// `\n`)
pub open spec fn display(t: TokenV) -> Seq<u8> {
    match t {
        TokenV::Keyword(k) => k.bytes(),
        TokenV::Directive(d) => seq!['`' as u8] + d.bytes(),
        TokenV::SimpleIdentifier(s) => s,
        TokenV::EscapedIdentifier(s) => seq!['\\' as u8] + s,
        TokenV::SystemIdentifier(s) => seq!['$' as u8] + s,
        TokenV::UnsignedNumber(s) => s,
        TokenV::FixedPointNumber(s) => s,
        TokenV::BinaryNumber(s) => s,
        TokenV::OctalNumber(s) => s,
        TokenV::DecimalNumber(s) => s,
        TokenV::HexNumber(s) => s,
        TokenV::ScientificNumber(s) => s,
        TokenV::StringLiteral(s) => seq!['"' as u8] + s + seq!['"' as u8],
        TokenV::TripleQuoteStringLiteral(s) => triple_quote() + s + triple_quote(),
        TokenV::PreprocessorStringLiteral(s) => seq!['`' as u8, '"' as u8] + s + seq![
            '`' as u8,
            '"' as u8,
        ],
        TokenV::PreprocessorTripleQuoteStringLiteral(s) => seq!['`' as u8] + triple_quote() + s
            + seq!['`' as u8] + triple_quote(),
        TokenV::OnelineComment(s) => seq!['/' as u8, '/' as u8] + s,
        TokenV::BlockComment(s) => seq!['/' as u8, '*' as u8] + s + seq!['*' as u8, '/' as u8],
        TokenV::TextMacro(s) => seq!['`' as u8] + s,
        TokenV::Error(s) => s,
        TokenV::Newline => seq!['\n' as u8],
        _ => seq![punct_byte(t).unwrap()],
    }
}

pub open spec fn triple_quote() -> Seq<u8> {
    seq!['"' as u8, '"' as u8, '"' as u8]
}

fn push_triple_quote(v: &mut Vec<u8>)
    ensures
        final(v)@ == old(v)@ + triple_quote(),
{
    v.push('"' as u8);
    v.push('"' as u8);
    v.push('"' as u8);
    assert(final(v)@ =~= old(v)@ + triple_quote());
}

impl Token {
    /// The source text that the token is written as
    pub fn display_bytes(&self) -> (r: Vec<u8>)
        ensures
            r@ == display(self@),
    {
        let mut r: Vec<u8> = Vec::new();
        match self {
            Token::Keyword(k) => {
                append_bytes(&mut r, k.as_str().as_bytes());
            },
            Token::Directive(d) => {
                r.push('`' as u8);
                append_bytes(&mut r, d.as_str().as_bytes());
            },
            Token::SimpleIdentifier(s) => {
                r = copy_bytes(s.as_slice());
            },
            Token::EscapedIdentifier(s) => {
                r.push('\\' as u8);
                append_bytes(&mut r, s.as_slice());
            },
            Token::SystemIdentifier(s) => {
                r.push('$' as u8);
                append_bytes(&mut r, s.as_slice());
            },
            Token::UnsignedNumber(s) => {
                r = copy_bytes(s.as_slice());
            },
            Token::FixedPointNumber(s) => {
                r = copy_bytes(s.as_slice());
            },
            Token::BinaryNumber(s) => {
                r = copy_bytes(s.as_slice());
            },
            Token::OctalNumber(s) => {
                r = copy_bytes(s.as_slice());
            },
            Token::DecimalNumber(s) => {
                r = copy_bytes(s.as_slice());
            },
            Token::HexNumber(s) => {
                r = copy_bytes(s.as_slice());
            },
            Token::ScientificNumber(s) => {
                r = copy_bytes(s.as_slice());
            },
            Token::StringLiteral(s) => {
                r.push('"' as u8);
                append_bytes(&mut r, s.as_slice());
                r.push('"' as u8);
            },
            Token::TripleQuoteStringLiteral(s) => {
                push_triple_quote(&mut r);
                append_bytes(&mut r, s.as_slice());
                push_triple_quote(&mut r);
            },
            Token::PreprocessorStringLiteral(s) => {
                r.push('`' as u8);
                r.push('"' as u8);
                append_bytes(&mut r, s.as_slice());
                r.push('`' as u8);
                r.push('"' as u8);
            },
            Token::PreprocessorTripleQuoteStringLiteral(s) => {
                r.push('`' as u8);
                push_triple_quote(&mut r);
                append_bytes(&mut r, s.as_slice());
                r.push('`' as u8);
                push_triple_quote(&mut r);
            },
            Token::OnelineComment(s) => {
                r.push('/' as u8);
                r.push('/' as u8);
                append_bytes(&mut r, s.as_slice());
            },
            Token::BlockComment(s) => {
                r.push('/' as u8);
                r.push('*' as u8);
                append_bytes(&mut r, s.as_slice());
                r.push('*' as u8);
                r.push('/' as u8);
            },
            Token::TextMacro(s) => {
                r.push('`' as u8);
                append_bytes(&mut r, s.as_slice());
            },
            Token::Error(s) => {
                r = copy_bytes(s.as_slice());
            },
            Token::Newline => {
                r.push('\n' as u8);
            },
            _ => {
                let b = self.punct();
                r.push(b);
            },
        }
        assert(r@ =~= display(self@));
        r
    }
}

} // verus!
