//! The syntax of based, fixed-point and scientific numbers, as a finite
//! automaton over bytes.
//!
//! The recognised forms are
//! - fixed point: `[0-9][0-9_]*\.[0-9][0-9_]*`
//! - binary: `([0-9][0-9_]*)?[ \t]*'[sS|]?[bB][ \t]*[01xXzZ?][01xXzZ?_]*`
//! - octal: `([0-9][0-9_]*)?[ \t]*'[sS|]?[oO][ \t]*[0-7xXzZ?][0-7xXzZ?_]*`
//! - decimal: `([0-9][0-9_]*)?[ \t]*'[sS|]?[dD][ \t]*[0-9][0-9_]*`, or with
//!   a value of `[xXzZ?]_*`
//! - hexadecimal: `([0-9][0-9_]*)?[ \t]*'[sS|]?[hH][ \t]*[0-9a-fA-FxXzZ?][0-9a-fA-FxXzZ?_]*`
//! - scientific: `[0-9][0-9_]*(\.[0-9][0-9_]*)?[eE][+-]?[0-9][0-9_]*`
//!
//! where the blanks stand for any whitespace other than a line break
//! (space, tab, vertical tab, form feed).

use crate::token::{Token, TokenV};
use vstd::prelude::*;

verus! {

/// The kinds of number recognised
#[derive(Clone, Copy, Debug, PartialEq, Eq, Structural)]
pub enum NumberKind {
    FixedPoint,
    Binary,
    Octal,
    Decimal,
    Hex,
    Scientific,
}

/// The states of the recognising automaton
#[derive(Clone, Copy, Debug, PartialEq, Eq, Structural)]
pub enum NumState {
    Start,
    /// In the leading run of decimal digits
    Size,
    /// In blanks before the apostrophe
    SizeBlank,
    /// After the apostrophe
    Quote,
    /// After the signedness mark
    Signed,
    /// After the base letter, or blanks following it
    BaseBin,
    BaseOct,
    BaseDec,
    BaseHex,
    /// In the value of a based number
    ValBin,
    ValOct,
    ValDec,
    ValDecUnknown,
    ValHex,
    /// After the point of a fixed-point number
    Point,
    /// In the fraction of a fixed-point number
    Fraction,
    /// After the exponent letter
    ExpMark,
    /// After the sign of the exponent
    ExpSign,
    /// In the exponent
    Exponent,
    /// No extension of the input read so far is a number
    Dead,
}

pub open spec fn is_digit(b: u8) -> bool {
    '0' as u8 <= b <= '9' as u8
}

pub open spec fn is_blank(b: u8) -> bool {
    b == ' ' as u8 || b == '\t' as u8 || b == 0x0bu8 || b == 0x0cu8
}

pub open spec fn is_unknown(b: u8) -> bool {
    b == 'x' as u8 || b == 'X' as u8 || b == 'z' as u8 || b == 'Z' as u8 || b == '?' as u8
}

pub open spec fn is_bin_digit(b: u8) -> bool {
    b == '0' as u8 || b == '1' as u8 || is_unknown(b)
}

pub open spec fn is_oct_digit(b: u8) -> bool {
    ('0' as u8 <= b <= '7' as u8) || is_unknown(b)
}

pub open spec fn is_hex_digit(b: u8) -> bool {
    is_digit(b) || ('a' as u8 <= b <= 'f' as u8) || ('A' as u8 <= b <= 'F' as u8) || is_unknown(b)
}

pub open spec fn is_sign_mark(b: u8) -> bool {
    b == 's' as u8 || b == 'S' as u8 || b == '|' as u8
}

/// The state after the one given when reading a byte
pub open spec fn step(st: NumState, b: u8) -> NumState {
    let us = b == '_' as u8;
    match st {
        NumState::Start => if is_digit(b) {
            NumState::Size
        } else if is_blank(b) {
            NumState::SizeBlank
        } else if b == '\'' as u8 {
            NumState::Quote
        } else {
            NumState::Dead
        },
        NumState::Size => if is_digit(b) || us {
            NumState::Size
        } else if is_blank(b) {
            NumState::SizeBlank
        } else if b == '\'' as u8 {
            NumState::Quote
        } else if b == '.' as u8 {
            NumState::Point
        } else if b == 'e' as u8 || b == 'E' as u8 {
            NumState::ExpMark
        } else {
            NumState::Dead
        },
        NumState::SizeBlank => if is_blank(b) {
            NumState::SizeBlank
        } else if b == '\'' as u8 {
            NumState::Quote
        } else {
            NumState::Dead
        },
        NumState::Quote => if is_sign_mark(b) {
            NumState::Signed
        } else {
            base_state(b)
        },
        NumState::Signed => base_state(b),
        NumState::BaseBin => if is_blank(b) {
            NumState::BaseBin
        } else if is_bin_digit(b) {
            NumState::ValBin
        } else {
            NumState::Dead
        },
        NumState::BaseOct => if is_blank(b) {
            NumState::BaseOct
        } else if is_oct_digit(b) {
            NumState::ValOct
        } else {
            NumState::Dead
        },
        NumState::BaseDec => if is_blank(b) {
            NumState::BaseDec
        } else if is_digit(b) {
            NumState::ValDec
        } else if is_unknown(b) {
            NumState::ValDecUnknown
        } else {
            NumState::Dead
        },
        NumState::BaseHex => if is_blank(b) {
            NumState::BaseHex
        } else if is_hex_digit(b) {
            NumState::ValHex
        } else {
            NumState::Dead
        },
        NumState::ValBin => if is_bin_digit(b) || us {
            NumState::ValBin
        } else {
            NumState::Dead
        },
        NumState::ValOct => if is_oct_digit(b) || us {
            NumState::ValOct
        } else {
            NumState::Dead
        },
        NumState::ValDec => if is_digit(b) || us {
            NumState::ValDec
        } else {
            NumState::Dead
        },
        NumState::ValDecUnknown => if us {
            NumState::ValDecUnknown
        } else {
            NumState::Dead
        },
        NumState::ValHex => if is_hex_digit(b) || us {
            NumState::ValHex
        } else {
            NumState::Dead
        },
        NumState::Point => if is_digit(b) {
            NumState::Fraction
        } else {
            NumState::Dead
        },
        NumState::Fraction => if is_digit(b) || us {
            NumState::Fraction
        } else if b == 'e' as u8 || b == 'E' as u8 {
            NumState::ExpMark
        } else {
            NumState::Dead
        },
        NumState::ExpMark => if b == '+' as u8 || b == '-' as u8 {
            NumState::ExpSign
        } else if is_digit(b) {
            NumState::Exponent
        } else {
            NumState::Dead
        },
        NumState::ExpSign => if is_digit(b) {
            NumState::Exponent
        } else {
            NumState::Dead
        },
        NumState::Exponent => if is_digit(b) || us {
            NumState::Exponent
        } else {
            NumState::Dead
        },
        NumState::Dead => NumState::Dead,
    }
}

/// The state after a base letter
pub open spec fn base_state(b: u8) -> NumState {
    if b == 'b' as u8 || b == 'B' as u8 {
        NumState::BaseBin
    } else if b == 'o' as u8 || b == 'O' as u8 {
        NumState::BaseOct
    } else if b == 'd' as u8 || b == 'D' as u8 {
        NumState::BaseDec
    } else if b == 'h' as u8 || b == 'H' as u8 {
        NumState::BaseHex
    } else {
        NumState::Dead
    }
}

/// The kind of number that ends in a state, if any does
pub open spec fn accepting(st: NumState) -> Option<NumberKind> {
    match st {
        NumState::ValBin => Some(NumberKind::Binary),
        NumState::ValOct => Some(NumberKind::Octal),
        NumState::ValDec => Some(NumberKind::Decimal),
        NumState::ValDecUnknown => Some(NumberKind::Decimal),
        NumState::ValHex => Some(NumberKind::Hex),
        NumState::Fraction => Some(NumberKind::FixedPoint),
        NumState::Exponent => Some(NumberKind::Scientific),
        _ => None,
    }
}

/// The state after reading a byte string from the start state
pub open spec fn run(s: Seq<u8>) -> NumState
    decreases s.len(),
{
    if s.len() == 0 {
        NumState::Start
    } else {
        step(run(s.drop_last()), s.last())
    }
}

/// The kind of number a byte string is, if it is one
pub open spec fn number_kind(s: Seq<u8>) -> Option<NumberKind> {
    accepting(run(s))
}

/// Whether a byte string is a proper prefix of some number
pub open spec fn can_grow(s: Seq<u8>) -> bool {
    exists|t: Seq<u8>| t.len() > s.len() && t.take(s.len() as int) == s && #[trigger] number_kind(t) is Some
}

/// The length of the longest prefix of `s`, no longer than `n`, that is a
/// number (or -1 if none is)
pub open spec fn longest_number(s: Seq<u8>, n: int) -> int
    decreases n,
{
    if n <= 0 || n > s.len() {
        -1
    } else if number_kind(s.take(n)) is Some {
        n
    } else {
        longest_number(s, n - 1)
    }
}

/// The outcome of matching a number against the start of a byte string
/// that may still be continued
#[derive(Clone, Copy, Debug, PartialEq, Eq, Structural)]
pub enum NumberMatch {
    /// The string can still grow into a (longer) number
    Incomplete,
    /// The longest prefix that is a number: its kind and length
    Matched(NumberKind, usize),
    /// No prefix is a number, and the string cannot grow into one
    NoMatch,
}

/// How a string that may still be continued matches a number
pub open spec fn partial_match(s: Seq<u8>) -> NumberMatch {
    if can_grow(s) {
        NumberMatch::Incomplete
    } else {
        complete_match(s)
    }
}

/// How the start of a finished string matches a number: the longest prefix
/// that is one
pub open spec fn complete_match(s: Seq<u8>) -> NumberMatch {
    let n = longest_number(s, s.len() as int);
    if n > 0 {
        NumberMatch::Matched(number_kind(s.take(n)).unwrap(), n as usize)
    } else {
        NumberMatch::NoMatch
    }
}

/// The dead state is never left
proof fn lemma_dead_stays(s: Seq<u8>, m: int)
    requires
        0 <= m <= s.len(),
        run(s.take(m)) == NumState::Dead,
    ensures
        run(s) == NumState::Dead,
    decreases s.len() - m,
{
    if m < s.len() {
        let t = s.take(m + 1);
        assert(t.drop_last() =~= s.take(m));
        lemma_dead_stays(s, m + 1);
    } else {
        assert(s.take(m) =~= s);
    }
}

proof fn lemma_run_push(s: Seq<u8>, b: u8)
    ensures
        run(s.push(b)) == step(run(s), b),
{
    assert(s.push(b).drop_last() =~= s);
}

/// A string can grow into a number exactly when the automaton has not
/// died on it
pub proof fn lemma_can_grow(s: Seq<u8>)
    ensures
        can_grow(s) <==> run(s) != NumState::Dead,
{
    let st = run(s);
    if st != NumState::Dead {
        // a completion of one to three bytes reaches an accepting state
        let z = '0' as u8;
        let t = if st == NumState::Start || st == NumState::Size || st == NumState::SizeBlank {
            s.push('\'' as u8).push('b' as u8).push(z)
        } else if st == NumState::Quote || st == NumState::Signed {
            s.push('b' as u8).push(z)
        } else if st == NumState::ValDecUnknown {
            s.push('_' as u8)
        } else {
            s.push(z)
        };
        lemma_run_push(s, '\'' as u8);
        lemma_run_push(s.push('\'' as u8), 'b' as u8);
        lemma_run_push(s.push('\'' as u8).push('b' as u8), z);
        lemma_run_push(s, 'b' as u8);
        lemma_run_push(s.push('b' as u8), z);
        lemma_run_push(s, '_' as u8);
        lemma_run_push(s, z);
        assert(t.take(s.len() as int) =~= s);
        assert(number_kind(t) is Some);
    } else {
        assert forall|t: Seq<u8>|
            t.len() > s.len() && t.take(s.len() as int) == s implies !(#[trigger] number_kind(t) is Some) by {
            lemma_dead_stays(t, s.len() as int);
        }
    }
}

/// Past the point where the automaton dies, no longer prefix is a number
proof fn lemma_longest_after_dead(s: Seq<u8>, m: int, n: int)
    requires
        0 <= m <= n <= s.len(),
        run(s.take(m)) == NumState::Dead,
    ensures
        longest_number(s, n) == longest_number(s, m),
    decreases n - m,
{
    if n > m {
        assert(s.take(n).take(m) =~= s.take(m));
        lemma_dead_stays(s.take(n), m);
        lemma_longest_after_dead(s, m, n - 1);
    }
}

/// A number ends at the last byte of the longest match
pub proof fn lemma_longest_is_number(s: Seq<u8>, n: int)
    requires
        longest_number(s, n) > 0,
    ensures
        longest_number(s, n) <= n,
        longest_number(s, n) <= s.len(),
        number_kind(s.take(longest_number(s, n))) is Some,
        forall|m: int| longest_number(s, n) < m <= n && m <= s.len() ==> number_kind(#[trigger] s.take(m)) is None,
    decreases n,
{
    if number_kind(s.take(n)) is None {
        lemma_longest_is_number(s, n - 1);
    }
}

/// The state of the automaton after each byte
pub fn step_exec(st: NumState, b: u8) -> (r: NumState)
    ensures
        r == step(st, b),
{
    let digit = '0' as u8 <= b && b <= '9' as u8;
    let blank = b == ' ' as u8 || b == '\t' as u8 || b == 0x0b || b == 0x0c;
    let unknown = b == 'x' as u8 || b == 'X' as u8 || b == 'z' as u8 || b == 'Z' as u8 || b == '?' as u8;
    let us = b == '_' as u8;
    let bin = b == '0' as u8 || b == '1' as u8 || unknown;
    let oct = ('0' as u8 <= b && b <= '7' as u8) || unknown;
    let hex = digit || ('a' as u8 <= b && b <= 'f' as u8) || ('A' as u8 <= b && b <= 'F' as u8) || unknown;
    let base = if b == 'b' as u8 || b == 'B' as u8 {
        NumState::BaseBin
    } else if b == 'o' as u8 || b == 'O' as u8 {
        NumState::BaseOct
    } else if b == 'd' as u8 || b == 'D' as u8 {
        NumState::BaseDec
    } else if b == 'h' as u8 || b == 'H' as u8 {
        NumState::BaseHex
    } else {
        NumState::Dead
    };
    match st {
        NumState::Start => if digit {
            NumState::Size
        } else if blank {
            NumState::SizeBlank
        } else if b == '\'' as u8 {
            NumState::Quote
        } else {
            NumState::Dead
        },
        NumState::Size => if digit || us {
            NumState::Size
        } else if blank {
            NumState::SizeBlank
        } else if b == '\'' as u8 {
            NumState::Quote
        } else if b == '.' as u8 {
            NumState::Point
        } else if b == 'e' as u8 || b == 'E' as u8 {
            NumState::ExpMark
        } else {
            NumState::Dead
        },
        NumState::SizeBlank => if blank {
            NumState::SizeBlank
        } else if b == '\'' as u8 {
            NumState::Quote
        } else {
            NumState::Dead
        },
        NumState::Quote => if b == 's' as u8 || b == 'S' as u8 || b == '|' as u8 {
            NumState::Signed
        } else {
            base
        },
        NumState::Signed => base,
        NumState::BaseBin => if blank {
            NumState::BaseBin
        } else if bin {
            NumState::ValBin
        } else {
            NumState::Dead
        },
        NumState::BaseOct => if blank {
            NumState::BaseOct
        } else if oct {
            NumState::ValOct
        } else {
            NumState::Dead
        },
        NumState::BaseDec => if blank {
            NumState::BaseDec
        } else if digit {
            NumState::ValDec
        } else if unknown {
            NumState::ValDecUnknown
        } else {
            NumState::Dead
        },
        NumState::BaseHex => if blank {
            NumState::BaseHex
        } else if hex {
            NumState::ValHex
        } else {
            NumState::Dead
        },
        NumState::ValBin => if bin || us {
            NumState::ValBin
        } else {
            NumState::Dead
        },
        NumState::ValOct => if oct || us {
            NumState::ValOct
        } else {
            NumState::Dead
        },
        NumState::ValDec => if digit || us {
            NumState::ValDec
        } else {
            NumState::Dead
        },
        NumState::ValDecUnknown => if us {
            NumState::ValDecUnknown
        } else {
            NumState::Dead
        },
        NumState::ValHex => if hex || us {
            NumState::ValHex
        } else {
            NumState::Dead
        },
        NumState::Point => if digit {
            NumState::Fraction
        } else {
            NumState::Dead
        },
        NumState::Fraction => if digit || us {
            NumState::Fraction
        } else if b == 'e' as u8 || b == 'E' as u8 {
            NumState::ExpMark
        } else {
            NumState::Dead
        },
        NumState::ExpMark => if b == '+' as u8 || b == '-' as u8 {
            NumState::ExpSign
        } else if digit {
            NumState::Exponent
        } else {
            NumState::Dead
        },
        NumState::ExpSign => if digit {
            NumState::Exponent
        } else {
            NumState::Dead
        },
        NumState::Exponent => if digit || us {
            NumState::Exponent
        } else {
            NumState::Dead
        },
        NumState::Dead => NumState::Dead,
    }
}

fn accepting_exec(st: NumState) -> (r: Option<NumberKind>)
    ensures
        r == accepting(st),
{
    match st {
        NumState::ValBin => Some(NumberKind::Binary),
        NumState::ValOct => Some(NumberKind::Octal),
        NumState::ValDec => Some(NumberKind::Decimal),
        NumState::ValDecUnknown => Some(NumberKind::Decimal),
        NumState::ValHex => Some(NumberKind::Hex),
        NumState::Fraction => Some(NumberKind::FixedPoint),
        NumState::Exponent => Some(NumberKind::Scientific),
        _ => None,
    }
}

/// Run the automaton over `s[start..]`: whether it is still alive at the
/// end, and the longest number found (kind and length)
fn scan_number(s: &[u8], start: usize) -> (r: (bool, Option<(NumberKind, usize)>))
    requires
        start <= s.len(),
    ensures
        ({
            let t = s@.skip(start as int);
            let n = longest_number(t, t.len() as int);
            &&& r.0 == (run(t) != NumState::Dead)
            &&& match r.1 {
                Some((k, len)) => n > 0 && len == n && number_kind(t.take(n)) == Some(k),
                None => n <= 0,
            }
        }),
{
    let ghost t = s@.skip(start as int);
    let mut st = NumState::Start;
    let mut best: Option<(NumberKind, usize)> = None;
    let mut i: usize = start;
    while i < s.len()
        invariant
            start <= i <= s.len(),
            t == s@.skip(start as int),
            st == run(t.take(i - start)),
            st != NumState::Dead,
            match best {
                Some((k, len)) => longest_number(t, i - start) == len && len > 0 && number_kind(
                    t.take(len as int),
                ) == Some(k),
                None => longest_number(t, i - start) <= 0,
            },
        decreases s.len() - i,
    {
        proof {
            assert(t.take(i - start + 1).drop_last() =~= t.take(i - start));
            assert(t.take(i - start + 1).last() == s@[i as int]);
        }
        st = step_exec(st, s[i]);
        i = i + 1;
        match accepting_exec(st) {
            Some(k) => {
                best = Some((k, i - start));
            },
            None => {},
        }
        if st == NumState::Dead {
            proof {
                lemma_longest_after_dead(t, i - start, t.len() as int);
                assert(t.take(t.len() as int) =~= t);
                lemma_dead_stays(t, i - start);
            }
            return (false, best);
        }
    }
    proof {
        assert(t.take(i - start) =~= t);
    }
    (true, best)
}

/// How a string that may still be continued matches a number
pub fn match_partial(s: &[u8]) -> (r: NumberMatch)
    ensures
        r == partial_match(s@),
{
    let (alive, best) = scan_number(s, 0);
    proof {
        assert(s@.skip(0) =~= s@);
        lemma_can_grow(s@);
    }
    if alive {
        NumberMatch::Incomplete
    } else {
        match best {
            Some((k, len)) => NumberMatch::Matched(k, len),
            None => NumberMatch::NoMatch,
        }
    }
}

/// The longest number at the start of `s[start..]`
pub fn match_complete(s: &[u8], start: usize) -> (r: NumberMatch)
    requires
        start <= s.len(),
    ensures
        r == complete_match(s@.skip(start as int)),
{
    let (_, best) = scan_number(s, start);
    match best {
        Some((k, len)) => NumberMatch::Matched(k, len),
        None => NumberMatch::NoMatch,
    }
}

} // verus!

verus! {

/// The token kind of a number of the given kind, holding its text
pub open spec fn number_token_v(kind: NumberKind, text: Seq<u8>) -> TokenV {
    match kind {
        NumberKind::FixedPoint => TokenV::FixedPointNumber(text),
        NumberKind::Binary => TokenV::BinaryNumber(text),
        NumberKind::Octal => TokenV::OctalNumber(text),
        NumberKind::Decimal => TokenV::DecimalNumber(text),
        NumberKind::Hex => TokenV::HexNumber(text),
        NumberKind::Scientific => TokenV::ScientificNumber(text),
    }
}

/// The token for a number of the given kind, holding its text
pub fn number_token(kind: NumberKind, text: Vec<u8>) -> (r: Token)
    ensures
        r@ == number_token_v(kind, text@),
{
    match kind {
        NumberKind::FixedPoint => Token::FixedPointNumber(text),
        NumberKind::Binary => Token::BinaryNumber(text),
        NumberKind::Octal => Token::OctalNumber(text),
        NumberKind::Decimal => Token::DecimalNumber(text),
        NumberKind::Hex => Token::HexNumber(text),
        NumberKind::Scientific => Token::ScientificNumber(text),
    }
}

} // verus!
