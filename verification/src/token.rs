//! Lexed tokens

use crate::keywords::{Keyword, KeywordStandard};
use crate::span::Span;
use crate::util::{bytes_eq, copy_bytes};
use vstd::prelude::*;
use vstd::string::StringSliceAdditionalSpecFns;

verus! {

/// A compiler directive recognised by the preprocessor
#[derive(Clone, Copy, Debug, PartialEq, Eq, Hash, Structural)]
pub enum Directive {
    Define,
    Undef,
    Undefineall,
    Ifdef,
    Ifndef,
    Else,
    Elsif,
    Endif,
    Include,
    Line,
    Pragma,
    BeginKeywords,
    EndKeywords,
    Resetall,
    Celldefine,
    Endcelldefine,
    Timescale,
    DefaultNettype,
    UnconnectedDrive,
    NounconnectedDrive,
    UnderscoreFile,
    UnderscoreLine,
}

/// The number of compiler directives
pub const DIRECTIVE_COUNT: usize = 22;

impl Directive {
    /// The name of the directive, without its grave accent
    pub open spec fn text(self) -> &'static str {
        match self {
            Directive::Define => "define",
            Directive::Undef => "undef",
            Directive::Undefineall => "undefineall",
            Directive::Ifdef => "ifdef",
            Directive::Ifndef => "ifndef",
            Directive::Else => "else",
            Directive::Elsif => "elsif",
            Directive::Endif => "endif",
            Directive::Include => "include",
            Directive::Line => "line",
            Directive::Pragma => "pragma",
            Directive::BeginKeywords => "begin_keywords",
            Directive::EndKeywords => "end_keywords",
            Directive::Resetall => "resetall",
            Directive::Celldefine => "celldefine",
            Directive::Endcelldefine => "endcelldefine",
            Directive::Timescale => "timescale",
            Directive::DefaultNettype => "default_nettype",
            Directive::UnconnectedDrive => "unconnected_drive",
            Directive::NounconnectedDrive => "nounconnected_drive",
            Directive::UnderscoreFile => "__FILE__",
            Directive::UnderscoreLine => "__LINE__",
        }
    }

    pub open spec fn bytes(self) -> Seq<u8> {
        self.text().spec_bytes()
    }

    pub fn as_str(&self) -> (r: &'static str)
        ensures
            r == self.text(),
    {
        match self {
            Directive::Define => "define",
            Directive::Undef => "undef",
            Directive::Undefineall => "undefineall",
            Directive::Ifdef => "ifdef",
            Directive::Ifndef => "ifndef",
            Directive::Else => "else",
            Directive::Elsif => "elsif",
            Directive::Endif => "endif",
            Directive::Include => "include",
            Directive::Line => "line",
            Directive::Pragma => "pragma",
            Directive::BeginKeywords => "begin_keywords",
            Directive::EndKeywords => "end_keywords",
            Directive::Resetall => "resetall",
            Directive::Celldefine => "celldefine",
            Directive::Endcelldefine => "endcelldefine",
            Directive::Timescale => "timescale",
            Directive::DefaultNettype => "default_nettype",
            Directive::UnconnectedDrive => "unconnected_drive",
            Directive::NounconnectedDrive => "nounconnected_drive",
            Directive::UnderscoreFile => "__FILE__",
            Directive::UnderscoreLine => "__LINE__",
        }
    }

    pub open spec fn index(self) -> int {
        match self {
            Directive::Define => 0,
            Directive::Undef => 1,
            Directive::Undefineall => 2,
            Directive::Ifdef => 3,
            Directive::Ifndef => 4,
            Directive::Else => 5,
            Directive::Elsif => 6,
            Directive::Endif => 7,
            Directive::Include => 8,
            Directive::Line => 9,
            Directive::Pragma => 10,
            Directive::BeginKeywords => 11,
            Directive::EndKeywords => 12,
            Directive::Resetall => 13,
            Directive::Celldefine => 14,
            Directive::Endcelldefine => 15,
            Directive::Timescale => 16,
            Directive::DefaultNettype => 17,
            Directive::UnconnectedDrive => 18,
            Directive::NounconnectedDrive => 19,
            Directive::UnderscoreFile => 20,
            Directive::UnderscoreLine => 21,
        }
    }

    #[verifier::opaque]
    pub open spec fn at(i: int) -> Option<Directive> {
        if i == 0 { Some(Directive::Define) }
        else if i == 1 { Some(Directive::Undef) }
        else if i == 2 { Some(Directive::Undefineall) }
        else if i == 3 { Some(Directive::Ifdef) }
        else if i == 4 { Some(Directive::Ifndef) }
        else if i == 5 { Some(Directive::Else) }
        else if i == 6 { Some(Directive::Elsif) }
        else if i == 7 { Some(Directive::Endif) }
        else if i == 8 { Some(Directive::Include) }
        else if i == 9 { Some(Directive::Line) }
        else if i == 10 { Some(Directive::Pragma) }
        else if i == 11 { Some(Directive::BeginKeywords) }
        else if i == 12 { Some(Directive::EndKeywords) }
        else if i == 13 { Some(Directive::Resetall) }
        else if i == 14 { Some(Directive::Celldefine) }
        else if i == 15 { Some(Directive::Endcelldefine) }
        else if i == 16 { Some(Directive::Timescale) }
        else if i == 17 { Some(Directive::DefaultNettype) }
        else if i == 18 { Some(Directive::UnconnectedDrive) }
        else if i == 19 { Some(Directive::NounconnectedDrive) }
        else if i == 20 { Some(Directive::UnderscoreFile) }
        else if i == 21 { Some(Directive::UnderscoreLine) }
        else { None }
    }

    pub fn from_index(i: usize) -> (r: Option<Directive>)
        ensures
            r == Directive::at(i as int),
    {
        reveal(Directive::at);
        match i {
            0 => Some(Directive::Define),
            1 => Some(Directive::Undef),
            2 => Some(Directive::Undefineall),
            3 => Some(Directive::Ifdef),
            4 => Some(Directive::Ifndef),
            5 => Some(Directive::Else),
            6 => Some(Directive::Elsif),
            7 => Some(Directive::Endif),
            8 => Some(Directive::Include),
            9 => Some(Directive::Line),
            10 => Some(Directive::Pragma),
            11 => Some(Directive::BeginKeywords),
            12 => Some(Directive::EndKeywords),
            13 => Some(Directive::Resetall),
            14 => Some(Directive::Celldefine),
            15 => Some(Directive::Endcelldefine),
            16 => Some(Directive::Timescale),
            17 => Some(Directive::DefaultNettype),
            18 => Some(Directive::UnconnectedDrive),
            19 => Some(Directive::NounconnectedDrive),
            20 => Some(Directive::UnderscoreFile),
            21 => Some(Directive::UnderscoreLine),
            _ => None,
        }
    }

    /// The directive found at a position has that position
    pub proof fn lemma_at(i: int)
        ensures
            Directive::at(i) matches Some(d) ==> d.index() == i,
    {
        reveal(Directive::at);
    }

    pub proof fn lemma_index(self)
        ensures
            0 <= self.index() < DIRECTIVE_COUNT,
            Directive::at(self.index()) == Some(self),
    {
        reveal(Directive::at);
    }
}

/// A lexed token of (System)Verilog source text
#[derive(Debug, PartialEq, Eq)]
pub enum Token {
    /// A reserved keyword
    Keyword(Keyword),
    /// A compiler directive, such as `` `define ``
    Directive(Directive),
    SimpleIdentifier(Vec<u8>),
    EscapedIdentifier(Vec<u8>),
    SystemIdentifier(Vec<u8>),
    UnsignedNumber(Vec<u8>),
    FixedPointNumber(Vec<u8>),
    BinaryNumber(Vec<u8>),
    OctalNumber(Vec<u8>),
    DecimalNumber(Vec<u8>),
    HexNumber(Vec<u8>),
    ScientificNumber(Vec<u8>),
    StringLiteral(Vec<u8>),
    TripleQuoteStringLiteral(Vec<u8>),
    PreprocessorStringLiteral(Vec<u8>),
    PreprocessorTripleQuoteStringLiteral(Vec<u8>),
    OnelineComment(Vec<u8>),
    BlockComment(Vec<u8>),
    TextMacro(Vec<u8>),
    Error(Vec<u8>),
    /// A line break
    Newline,
    Plus,
    Minus,
    Star,
    Slash,
    Percent,
    Eq,
    Lt,
    Gt,
    Excl,
    Tilde,
    Amp,
    Pipe,
    Caret,
    Quest,
    Colon,
    SColon,
    Comma,
    Dot,
    Hash,
    At,
    Dollar,
    Paren,
    EParen,
    Bracket,
    EBracket,
    Brace,
    EBrace,
    Apost,
    Bslash,
}

/// The mathematical value of a [`Token`]: its kind and, for the kinds
/// that carry text, the bytes of that text
pub enum TokenV {
    Keyword(Keyword),
    Directive(Directive),
    SimpleIdentifier(Seq<u8>),
    EscapedIdentifier(Seq<u8>),
    SystemIdentifier(Seq<u8>),
    UnsignedNumber(Seq<u8>),
    FixedPointNumber(Seq<u8>),
    BinaryNumber(Seq<u8>),
    OctalNumber(Seq<u8>),
    DecimalNumber(Seq<u8>),
    HexNumber(Seq<u8>),
    ScientificNumber(Seq<u8>),
    StringLiteral(Seq<u8>),
    TripleQuoteStringLiteral(Seq<u8>),
    PreprocessorStringLiteral(Seq<u8>),
    PreprocessorTripleQuoteStringLiteral(Seq<u8>),
    OnelineComment(Seq<u8>),
    BlockComment(Seq<u8>),
    TextMacro(Seq<u8>),
    Error(Seq<u8>),
    Newline,
    Plus,
    Minus,
    Star,
    Slash,
    Percent,
    Eq,
    Lt,
    Gt,
    Excl,
    Tilde,
    Amp,
    Pipe,
    Caret,
    Quest,
    Colon,
    SColon,
    Comma,
    Dot,
    Hash,
    At,
    Dollar,
    Paren,
    EParen,
    Bracket,
    EBracket,
    Brace,
    EBrace,
    Apost,
    Bslash,
}

impl View for Token {
    type V = TokenV;

    open spec fn view(&self) -> TokenV {
        match self {
            Token::Keyword(k) => TokenV::Keyword(*k),
            Token::Directive(d) => TokenV::Directive(*d),
            Token::SimpleIdentifier(v) => TokenV::SimpleIdentifier(v@),
            Token::EscapedIdentifier(v) => TokenV::EscapedIdentifier(v@),
            Token::SystemIdentifier(v) => TokenV::SystemIdentifier(v@),
            Token::UnsignedNumber(v) => TokenV::UnsignedNumber(v@),
            Token::FixedPointNumber(v) => TokenV::FixedPointNumber(v@),
            Token::BinaryNumber(v) => TokenV::BinaryNumber(v@),
            Token::OctalNumber(v) => TokenV::OctalNumber(v@),
            Token::DecimalNumber(v) => TokenV::DecimalNumber(v@),
            Token::HexNumber(v) => TokenV::HexNumber(v@),
            Token::ScientificNumber(v) => TokenV::ScientificNumber(v@),
            Token::StringLiteral(v) => TokenV::StringLiteral(v@),
            Token::TripleQuoteStringLiteral(v) => TokenV::TripleQuoteStringLiteral(v@),
            Token::PreprocessorStringLiteral(v) => TokenV::PreprocessorStringLiteral(v@),
            Token::PreprocessorTripleQuoteStringLiteral(v) => TokenV::PreprocessorTripleQuoteStringLiteral(v@),
            Token::OnelineComment(v) => TokenV::OnelineComment(v@),
            Token::BlockComment(v) => TokenV::BlockComment(v@),
            Token::TextMacro(v) => TokenV::TextMacro(v@),
            Token::Error(v) => TokenV::Error(v@),
            Token::Newline => TokenV::Newline,
            Token::Plus => TokenV::Plus,
            Token::Minus => TokenV::Minus,
            Token::Star => TokenV::Star,
            Token::Slash => TokenV::Slash,
            Token::Percent => TokenV::Percent,
            Token::Eq => TokenV::Eq,
            Token::Lt => TokenV::Lt,
            Token::Gt => TokenV::Gt,
            Token::Excl => TokenV::Excl,
            Token::Tilde => TokenV::Tilde,
            Token::Amp => TokenV::Amp,
            Token::Pipe => TokenV::Pipe,
            Token::Caret => TokenV::Caret,
            Token::Quest => TokenV::Quest,
            Token::Colon => TokenV::Colon,
            Token::SColon => TokenV::SColon,
            Token::Comma => TokenV::Comma,
            Token::Dot => TokenV::Dot,
            Token::Hash => TokenV::Hash,
            Token::At => TokenV::At,
            Token::Dollar => TokenV::Dollar,
            Token::Paren => TokenV::Paren,
            Token::EParen => TokenV::EParen,
            Token::Bracket => TokenV::Bracket,
            Token::EBracket => TokenV::EBracket,
            Token::Brace => TokenV::Brace,
            Token::EBrace => TokenV::EBrace,
            Token::Apost => TokenV::Apost,
            Token::Bslash => TokenV::Bslash,
        }
    }
}

/// The single-byte punctuation tokens, with the byte each stands for
pub open spec fn punct_byte(t: TokenV) -> Option<u8> {
    match t {
        TokenV::Plus => Some('+' as u8),
        TokenV::Minus => Some('-' as u8),
        TokenV::Star => Some('*' as u8),
        TokenV::Slash => Some('/' as u8),
        TokenV::Percent => Some('%' as u8),
        TokenV::Eq => Some('=' as u8),
        TokenV::Lt => Some('<' as u8),
        TokenV::Gt => Some('>' as u8),
        TokenV::Excl => Some('!' as u8),
        TokenV::Tilde => Some('~' as u8),
        TokenV::Amp => Some('&' as u8),
        TokenV::Pipe => Some('|' as u8),
        TokenV::Caret => Some('^' as u8),
        TokenV::Quest => Some('?' as u8),
        TokenV::Colon => Some(':' as u8),
        TokenV::SColon => Some(';' as u8),
        TokenV::Comma => Some(',' as u8),
        TokenV::Dot => Some('.' as u8),
        TokenV::Hash => Some('#' as u8),
        TokenV::At => Some('@' as u8),
        TokenV::Dollar => Some('$' as u8),
        TokenV::Paren => Some('(' as u8),
        TokenV::EParen => Some(')' as u8),
        TokenV::Bracket => Some('[' as u8),
        TokenV::EBracket => Some(']' as u8),
        TokenV::Brace => Some('{' as u8),
        TokenV::EBrace => Some('}' as u8),
        TokenV::Apost => Some('\'' as u8),
        TokenV::Bslash => Some('\\' as u8),
        _ => None,
    }
}

/// The punctuation token that a byte stands for
pub fn punct_token(b: u8) -> (r: Option<Token>)
    ensures
        match r {
            Some(t) => punct_byte(t@) == Some(b),
            None => forall|t: TokenV| punct_byte(t) != Some(b),
        },
{
    if b == '+' as u8 { Some(Token::Plus) }
    else if b == '-' as u8 { Some(Token::Minus) }
    else if b == '*' as u8 { Some(Token::Star) }
    else if b == '/' as u8 { Some(Token::Slash) }
    else if b == '%' as u8 { Some(Token::Percent) }
    else if b == '=' as u8 { Some(Token::Eq) }
    else if b == '<' as u8 { Some(Token::Lt) }
    else if b == '>' as u8 { Some(Token::Gt) }
    else if b == '!' as u8 { Some(Token::Excl) }
    else if b == '~' as u8 { Some(Token::Tilde) }
    else if b == '&' as u8 { Some(Token::Amp) }
    else if b == '|' as u8 { Some(Token::Pipe) }
    else if b == '^' as u8 { Some(Token::Caret) }
    else if b == '?' as u8 { Some(Token::Quest) }
    else if b == ':' as u8 { Some(Token::Colon) }
    else if b == ';' as u8 { Some(Token::SColon) }
    else if b == ',' as u8 { Some(Token::Comma) }
    else if b == '.' as u8 { Some(Token::Dot) }
    else if b == '#' as u8 { Some(Token::Hash) }
    else if b == '@' as u8 { Some(Token::At) }
    else if b == '$' as u8 { Some(Token::Dollar) }
    else if b == '(' as u8 { Some(Token::Paren) }
    else if b == ')' as u8 { Some(Token::EParen) }
    else if b == '[' as u8 { Some(Token::Bracket) }
    else if b == ']' as u8 { Some(Token::EBracket) }
    else if b == '{' as u8 { Some(Token::Brace) }
    else if b == '}' as u8 { Some(Token::EBrace) }
    else if b == '\'' as u8 { Some(Token::Apost) }
    else if b == '\\' as u8 { Some(Token::Bslash) }
    else { None }
}

impl Token {
    /// The byte a punctuation token stands for
    pub fn punct(&self) -> (r: u8)
        requires
            punct_byte(self@) is Some,
        ensures
            punct_byte(self@) == Some(r),
    {
        match self {
            Token::Plus => '+' as u8,
            Token::Minus => '-' as u8,
            Token::Star => '*' as u8,
            Token::Slash => '/' as u8,
            Token::Percent => '%' as u8,
            Token::Eq => '=' as u8,
            Token::Lt => '<' as u8,
            Token::Gt => '>' as u8,
            Token::Excl => '!' as u8,
            Token::Tilde => '~' as u8,
            Token::Amp => '&' as u8,
            Token::Pipe => '|' as u8,
            Token::Caret => '^' as u8,
            Token::Quest => '?' as u8,
            Token::Colon => ':' as u8,
            Token::SColon => ';' as u8,
            Token::Comma => ',' as u8,
            Token::Dot => '.' as u8,
            Token::Hash => '#' as u8,
            Token::At => '@' as u8,
            Token::Dollar => '$' as u8,
            Token::Paren => '(' as u8,
            Token::EParen => ')' as u8,
            Token::Bracket => '[' as u8,
            Token::EBracket => ']' as u8,
            Token::Brace => '{' as u8,
            Token::EBrace => '}' as u8,
            Token::Apost => '\'' as u8,
            Token::Bslash => '\\' as u8,
            _ => 0,
        }
    }
}

impl Token {
    /// Whether two tokens are the same token
    pub fn same(&self, other: &Token) -> (r: bool)
        ensures
            r == (self@ == other@),
    {
        match (self, other) {
            (Token::Keyword(a), Token::Keyword(b)) => *a == *b,
            (Token::Directive(a), Token::Directive(b)) => *a == *b,
            (Token::SimpleIdentifier(a), Token::SimpleIdentifier(b)) => bytes_eq(a.as_slice(), b.as_slice()),
            (Token::EscapedIdentifier(a), Token::EscapedIdentifier(b)) => bytes_eq(a.as_slice(), b.as_slice()),
            (Token::SystemIdentifier(a), Token::SystemIdentifier(b)) => bytes_eq(a.as_slice(), b.as_slice()),
            (Token::UnsignedNumber(a), Token::UnsignedNumber(b)) => bytes_eq(a.as_slice(), b.as_slice()),
            (Token::FixedPointNumber(a), Token::FixedPointNumber(b)) => bytes_eq(a.as_slice(), b.as_slice()),
            (Token::BinaryNumber(a), Token::BinaryNumber(b)) => bytes_eq(a.as_slice(), b.as_slice()),
            (Token::OctalNumber(a), Token::OctalNumber(b)) => bytes_eq(a.as_slice(), b.as_slice()),
            (Token::DecimalNumber(a), Token::DecimalNumber(b)) => bytes_eq(a.as_slice(), b.as_slice()),
            (Token::HexNumber(a), Token::HexNumber(b)) => bytes_eq(a.as_slice(), b.as_slice()),
            (Token::ScientificNumber(a), Token::ScientificNumber(b)) => bytes_eq(a.as_slice(), b.as_slice()),
            (Token::StringLiteral(a), Token::StringLiteral(b)) => bytes_eq(a.as_slice(), b.as_slice()),
            (Token::TripleQuoteStringLiteral(a), Token::TripleQuoteStringLiteral(b)) => bytes_eq(a.as_slice(), b.as_slice()),
            (Token::PreprocessorStringLiteral(a), Token::PreprocessorStringLiteral(b)) => bytes_eq(a.as_slice(), b.as_slice()),
            (Token::PreprocessorTripleQuoteStringLiteral(a), Token::PreprocessorTripleQuoteStringLiteral(b)) => bytes_eq(a.as_slice(), b.as_slice()),
            (Token::OnelineComment(a), Token::OnelineComment(b)) => bytes_eq(a.as_slice(), b.as_slice()),
            (Token::BlockComment(a), Token::BlockComment(b)) => bytes_eq(a.as_slice(), b.as_slice()),
            (Token::TextMacro(a), Token::TextMacro(b)) => bytes_eq(a.as_slice(), b.as_slice()),
            (Token::Error(a), Token::Error(b)) => bytes_eq(a.as_slice(), b.as_slice()),
            (Token::Newline, Token::Newline) => true,
            (Token::Plus, Token::Plus) => true,
            (Token::Minus, Token::Minus) => true,
            (Token::Star, Token::Star) => true,
            (Token::Slash, Token::Slash) => true,
            (Token::Percent, Token::Percent) => true,
            (Token::Eq, Token::Eq) => true,
            (Token::Lt, Token::Lt) => true,
            (Token::Gt, Token::Gt) => true,
            (Token::Excl, Token::Excl) => true,
            (Token::Tilde, Token::Tilde) => true,
            (Token::Amp, Token::Amp) => true,
            (Token::Pipe, Token::Pipe) => true,
            (Token::Caret, Token::Caret) => true,
            (Token::Quest, Token::Quest) => true,
            (Token::Colon, Token::Colon) => true,
            (Token::SColon, Token::SColon) => true,
            (Token::Comma, Token::Comma) => true,
            (Token::Dot, Token::Dot) => true,
            (Token::Hash, Token::Hash) => true,
            (Token::At, Token::At) => true,
            (Token::Dollar, Token::Dollar) => true,
            (Token::Paren, Token::Paren) => true,
            (Token::EParen, Token::EParen) => true,
            (Token::Bracket, Token::Bracket) => true,
            (Token::EBracket, Token::EBracket) => true,
            (Token::Brace, Token::Brace) => true,
            (Token::EBrace, Token::EBrace) => true,
            (Token::Apost, Token::Apost) => true,
            (Token::Bslash, Token::Bslash) => true,
            _ => false,
        }
    }
}

impl Clone for Token {
    fn clone(&self) -> (r: Self)
        ensures
            r@ == self@,
    {
        match self {
            Token::Keyword(k) => Token::Keyword(*k),
            Token::Directive(d) => Token::Directive(*d),
            Token::SimpleIdentifier(v) => Token::SimpleIdentifier(copy_bytes(v.as_slice())),
            Token::EscapedIdentifier(v) => Token::EscapedIdentifier(copy_bytes(v.as_slice())),
            Token::SystemIdentifier(v) => Token::SystemIdentifier(copy_bytes(v.as_slice())),
            Token::UnsignedNumber(v) => Token::UnsignedNumber(copy_bytes(v.as_slice())),
            Token::FixedPointNumber(v) => Token::FixedPointNumber(copy_bytes(v.as_slice())),
            Token::BinaryNumber(v) => Token::BinaryNumber(copy_bytes(v.as_slice())),
            Token::OctalNumber(v) => Token::OctalNumber(copy_bytes(v.as_slice())),
            Token::DecimalNumber(v) => Token::DecimalNumber(copy_bytes(v.as_slice())),
            Token::HexNumber(v) => Token::HexNumber(copy_bytes(v.as_slice())),
            Token::ScientificNumber(v) => Token::ScientificNumber(copy_bytes(v.as_slice())),
            Token::StringLiteral(v) => Token::StringLiteral(copy_bytes(v.as_slice())),
            Token::TripleQuoteStringLiteral(v) => Token::TripleQuoteStringLiteral(copy_bytes(v.as_slice())),
            Token::PreprocessorStringLiteral(v) => Token::PreprocessorStringLiteral(copy_bytes(v.as_slice())),
            Token::PreprocessorTripleQuoteStringLiteral(v) => Token::PreprocessorTripleQuoteStringLiteral(copy_bytes(v.as_slice())),
            Token::OnelineComment(v) => Token::OnelineComment(copy_bytes(v.as_slice())),
            Token::BlockComment(v) => Token::BlockComment(copy_bytes(v.as_slice())),
            Token::TextMacro(v) => Token::TextMacro(copy_bytes(v.as_slice())),
            Token::Error(v) => Token::Error(copy_bytes(v.as_slice())),
            Token::Newline => Token::Newline,
            Token::Plus => Token::Plus,
            Token::Minus => Token::Minus,
            Token::Star => Token::Star,
            Token::Slash => Token::Slash,
            Token::Percent => Token::Percent,
            Token::Eq => Token::Eq,
            Token::Lt => Token::Lt,
            Token::Gt => Token::Gt,
            Token::Excl => Token::Excl,
            Token::Tilde => Token::Tilde,
            Token::Amp => Token::Amp,
            Token::Pipe => Token::Pipe,
            Token::Caret => Token::Caret,
            Token::Quest => Token::Quest,
            Token::Colon => Token::Colon,
            Token::SColon => Token::SColon,
            Token::Comma => Token::Comma,
            Token::Dot => Token::Dot,
            Token::Hash => Token::Hash,
            Token::At => Token::At,
            Token::Dollar => Token::Dollar,
            Token::Paren => Token::Paren,
            Token::EParen => Token::EParen,
            Token::Bracket => Token::Bracket,
            Token::EBracket => Token::EBracket,
            Token::Brace => Token::Brace,
            Token::EBrace => Token::EBrace,
            Token::Apost => Token::Apost,
            Token::Bslash => Token::Bslash,
        }
    }
}

} // verus!
