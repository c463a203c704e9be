//! `` `timescale ``, `` `default_nettype ``, `` `unconnected_drive `` and
//! `` `nounconnected_drive ``: settings that hold until they are changed

use crate::error::{expected, expected_error, PreprocessorError};
use crate::keywords::Keyword;
use crate::pragma::PragmaHandler;
use crate::preprocess::{
    lemma_skip_block_comments, next_plain_token, plain_next, preprocess_single, skip_block_comments,
    under_standard,
};
use crate::pragma::{kinds_under, plain_upto};
use crate::span::Span;
use crate::spanned_token::SpannedToken;
use crate::state::{evolves, keyword_standard, lemma_evolves_trans, PreprocessorState};
use crate::token::{Token, TokenV};
use crate::token_iter::TokenIterator;
use crate::util::bytes_eq;
use vstd::prelude::*;
use vstd::string::StringSliceAdditionalSpecFns;

verus! {

/// A unit of time
#[derive(Clone, Copy, Debug, PartialEq, Eq, Structural)]
pub enum TimeUnit {
    S,
    Ms,
    Us,
    Ns,
    Ps,
    Fs,
}

/// The order of magnitude of an amount of time: 1, 10 or 100 units
#[derive(Clone, Copy, Debug, PartialEq, Eq, Structural)]
pub enum TimeMagnitude {
    One,
    Ten,
    Hundred,
}

/// An amount of time: 1, 10 or 100 of a unit
#[derive(Clone, Copy, Debug, PartialEq, Eq, Structural)]
pub struct TimeValue {
    pub magnitude: TimeMagnitude,
    pub unit: TimeUnit,
}

/// The unit of time and the precision of delays set by `` `timescale ``
#[derive(Clone, Copy, Debug, PartialEq, Eq, Structural)]
pub struct Timescale {
    pub unit: TimeValue,
    pub precision: TimeValue,
}

/// The type of nets declared implicitly, set by `` `default_nettype ``
#[derive(Clone, Copy, Debug, PartialEq, Eq, Structural)]
pub enum DefaultNettype {
    Wire,
    Tri,
    Tri0,
    Tri1,
    Wand,
    Triand,
    Wor,
    Trior,
    Trireg,
    Uwire,
    /// `none`: nets must be declared
    NoNet,
}

/// The value unconnected input ports are pulled to, set by
/// `` `unconnected_drive ``
#[derive(Clone, Copy, Debug, PartialEq, Eq, Structural)]
pub enum UnconnectedDrive {
    Pull0,
    Pull1,
}

/// The settings of `` `timescale ``, `` `default_nettype `` and
/// `` `unconnected_drive `` in effect
#[derive(Debug)]
pub struct Settings {
    /// The `` `timescale `` in effect, if any, and where it was given
    pub timescale: Option<(Timescale, Span)>,
    /// The type of nets declared implicitly
    pub default_nettype: DefaultNettype,
    /// What unconnected input ports are pulled to, if anything
    pub unconnected_drive: Option<UnconnectedDrive>,
}

impl Settings {
    /// The settings before any directive: no timescale, `wire` nets, no
    /// pull
    pub open spec fn default_spec() -> Settings {
        Settings { timescale: None, default_nettype: DefaultNettype::Wire, unconnected_drive: None }
    }

    pub fn defaults() -> (r: Settings)
        ensures
            r == Settings::default_spec(),
    {
        Settings { timescale: None, default_nettype: DefaultNettype::Wire, unconnected_drive: None }
    }
}

impl TimeValue {
    /// The power of ten that the amount of time is, in seconds
    pub open spec fn exponent(self) -> int {
        let m: int = match self.magnitude {
            TimeMagnitude::One => 0,
            TimeMagnitude::Ten => 1,
            TimeMagnitude::Hundred => 2,
        };
        let u: int = match self.unit {
            TimeUnit::S => 0,
            TimeUnit::Ms => -3,
            TimeUnit::Us => -6,
            TimeUnit::Ns => -9,
            TimeUnit::Ps => -12,
            TimeUnit::Fs => -15,
        };
        m + u
    }

    fn exponent_exec(&self) -> (r: i8)
        ensures
            r == self.exponent(),
    {
        let m: i8 = match self.magnitude {
            TimeMagnitude::One => 0,
            TimeMagnitude::Ten => 1,
            TimeMagnitude::Hundred => 2,
        };
        let u: i8 = match self.unit {
            TimeUnit::S => 0,
            TimeUnit::Ms => -3,
            TimeUnit::Us => -6,
            TimeUnit::Ns => -9,
            TimeUnit::Ps => -12,
            TimeUnit::Fs => -15,
        };
        m + u
    }
}

/// The magnitude an unsized number gives: 1, 10 or 100
pub open spec fn magnitude_of(t: TokenV) -> Option<TimeMagnitude> {
    match t {
        TokenV::UnsignedNumber(n) => if n == "1".spec_bytes() {
            Some(TimeMagnitude::One)
        } else if n == "10".spec_bytes() {
            Some(TimeMagnitude::Ten)
        } else if n == "100".spec_bytes() {
            Some(TimeMagnitude::Hundred)
        } else {
            None
        },
        _ => None,
    }
}

/// The unit of time an identifier names
pub open spec fn unit_of(t: TokenV) -> Option<TimeUnit> {
    match t {
        TokenV::SimpleIdentifier(n) => if n == "s".spec_bytes() {
            Some(TimeUnit::S)
        } else if n == "ms".spec_bytes() {
            Some(TimeUnit::Ms)
        } else if n == "us".spec_bytes() {
            Some(TimeUnit::Us)
        } else if n == "ns".spec_bytes() {
            Some(TimeUnit::Ns)
        } else if n == "ps".spec_bytes() {
            Some(TimeUnit::Ps)
        } else if n == "fs".spec_bytes() {
            Some(TimeUnit::Fs)
        } else {
            None
        },
        _ => None,
    }
}

/// The text of a word: a keyword or an identifier
pub open spec fn word_text(t: TokenV) -> Option<Seq<u8>> {
    match t {
        TokenV::Keyword(k) => Some(k.bytes()),
        TokenV::SimpleIdentifier(n) => Some(n),
        _ => None,
    }
}

/// The net type a word names
pub open spec fn nettype_of(t: TokenV) -> Option<DefaultNettype> {
    match word_text(t) {
        Some(w) => if w == "wire".spec_bytes() {
            Some(DefaultNettype::Wire)
        } else if w == "tri".spec_bytes() {
            Some(DefaultNettype::Tri)
        } else if w == "tri0".spec_bytes() {
            Some(DefaultNettype::Tri0)
        } else if w == "tri1".spec_bytes() {
            Some(DefaultNettype::Tri1)
        } else if w == "wand".spec_bytes() {
            Some(DefaultNettype::Wand)
        } else if w == "triand".spec_bytes() {
            Some(DefaultNettype::Triand)
        } else if w == "wor".spec_bytes() {
            Some(DefaultNettype::Wor)
        } else if w == "trior".spec_bytes() {
            Some(DefaultNettype::Trior)
        } else if w == "trireg".spec_bytes() {
            Some(DefaultNettype::Trireg)
        } else if w == "uwire".spec_bytes() {
            Some(DefaultNettype::Uwire)
        } else if w == "none".spec_bytes() {
            Some(DefaultNettype::NoNet)
        } else {
            None
        },
        None => None,
    }
}

/// The drive a word names
pub open spec fn drive_of(t: TokenV) -> Option<UnconnectedDrive> {
    match word_text(t) {
        Some(w) => if w == "pull0".spec_bytes() {
            Some(UnconnectedDrive::Pull0)
        } else if w == "pull1".spec_bytes() {
            Some(UnconnectedDrive::Pull1)
        } else {
            None
        },
        None => None,
    }
}

fn magnitude_exec(t: &Token) -> (r: Option<TimeMagnitude>)
    ensures
        r == magnitude_of(t@),
{
    match t {
        Token::UnsignedNumber(n) => {
            if bytes_eq(n.as_slice(), "1".as_bytes()) {
                Some(TimeMagnitude::One)
            } else if bytes_eq(n.as_slice(), "10".as_bytes()) {
                Some(TimeMagnitude::Ten)
            } else if bytes_eq(n.as_slice(), "100".as_bytes()) {
                Some(TimeMagnitude::Hundred)
            } else {
                None
            }
        },
        _ => None,
    }
}

fn unit_exec(t: &Token) -> (r: Option<TimeUnit>)
    ensures
        r == unit_of(t@),
{
    match t {
        Token::SimpleIdentifier(n) => {
            if bytes_eq(n.as_slice(), "s".as_bytes()) {
                Some(TimeUnit::S)
            } else if bytes_eq(n.as_slice(), "ms".as_bytes()) {
                Some(TimeUnit::Ms)
            } else if bytes_eq(n.as_slice(), "us".as_bytes()) {
                Some(TimeUnit::Us)
            } else if bytes_eq(n.as_slice(), "ns".as_bytes()) {
                Some(TimeUnit::Ns)
            } else if bytes_eq(n.as_slice(), "ps".as_bytes()) {
                Some(TimeUnit::Ps)
            } else if bytes_eq(n.as_slice(), "fs".as_bytes()) {
                Some(TimeUnit::Fs)
            } else {
                None
            }
        },
        _ => None,
    }
}

fn word_exec(t: &Token) -> (r: Option<&[u8]>)
    ensures
        match r {
            Some(w) => word_text(t@) == Some(w@),
            None => word_text(t@) is None,
        },
{
    match t {
        Token::Keyword(k) => Some(k.as_str().as_bytes()),
        Token::SimpleIdentifier(n) => Some(n.as_slice()),
        _ => None,
    }
}

fn nettype_exec(t: &Token) -> (r: Option<DefaultNettype>)
    ensures
        r == nettype_of(t@),
{
    match word_exec(t) {
        Some(w) => {
            if bytes_eq(w, "wire".as_bytes()) {
                Some(DefaultNettype::Wire)
            } else if bytes_eq(w, "tri".as_bytes()) {
                Some(DefaultNettype::Tri)
            } else if bytes_eq(w, "tri0".as_bytes()) {
                Some(DefaultNettype::Tri0)
            } else if bytes_eq(w, "tri1".as_bytes()) {
                Some(DefaultNettype::Tri1)
            } else if bytes_eq(w, "wand".as_bytes()) {
                Some(DefaultNettype::Wand)
            } else if bytes_eq(w, "triand".as_bytes()) {
                Some(DefaultNettype::Triand)
            } else if bytes_eq(w, "wor".as_bytes()) {
                Some(DefaultNettype::Wor)
            } else if bytes_eq(w, "trior".as_bytes()) {
                Some(DefaultNettype::Trior)
            } else if bytes_eq(w, "trireg".as_bytes()) {
                Some(DefaultNettype::Trireg)
            } else if bytes_eq(w, "uwire".as_bytes()) {
                Some(DefaultNettype::Uwire)
            } else if bytes_eq(w, "none".as_bytes()) {
                Some(DefaultNettype::NoNet)
            } else {
                None
            }
        },
        None => None,
    }
}

fn drive_exec(t: &Token) -> (r: Option<UnconnectedDrive>)
    ensures
        r == drive_of(t@),
{
    match word_exec(t) {
        Some(w) => {
            if bytes_eq(w, "pull0".as_bytes()) {
                Some(UnconnectedDrive::Pull0)
            } else if bytes_eq(w, "pull1".as_bytes()) {
                Some(UnconnectedDrive::Pull1)
            } else {
                None
            }
        },
        None => None,
    }
}

/// Read the next token of ordinary text, which `directive_span`'s
/// directive needs
fn read_setting_token<H: PragmaHandler>(
    src: &mut TokenIterator,
    state: &mut PreprocessorState<H>,
    directive_span: &Span,
) -> (r: Result<SpannedToken, PreprocessorError>)
    ensures
        evolves(*old(state), *final(state)),
        final(state).curr_standard == old(state).curr_standard,
        final(state).settings == old(state).settings,
        r matches Err(e) ==> e.reportable(),
        plain_next(old(src)@, old(state).budget as int) ==> match next_plain_token(
            old(src)@,
            keyword_standard(old(state).curr_standard@),
        ) {
            None => r matches Err(PreprocessorError::IncompleteDirective { directive_span: s })
                && s == *directive_span,
            Some(t) => r matches Ok(x) && x@ == t && final(state).errors == old(state).errors
                && final(src)@ == old(src)@.skip(skip_block_comments(old(src)@, 0) + 1)
                && final(state).budget == old(state).budget - (skip_block_comments(old(src)@, 0)
                + 1),
        },
    decreases old(state).budget, 1nat,
{
    proof {
        lemma_skip_block_comments(src@, 0);
    }
    let t = preprocess_single(src, state);
    match t {
        Err(e) => Err(e),
        Ok(None) => Err(PreprocessorError::IncompleteDirective { directive_span: directive_span.clone() }),
        Ok(Some(t)) => Ok(t),
    }
}

fn read_time_value<H: PragmaHandler>(
    src: &mut TokenIterator,
    state: &mut PreprocessorState<H>,
    directive_span: &Span,
) -> (r: Result<TimeValue, PreprocessorError>)
    ensures
        evolves(*old(state), *final(state)),
        final(state).curr_standard == old(state).curr_standard,
        final(state).settings == old(state).settings,
        r matches Err(e) ==> e.reportable(),
        // the amount: 1, 10 or 100
        plain_next(old(src)@, old(state).budget - 1) ==> match next_plain_token(
            old(src)@,
            keyword_standard(old(state).curr_standard@),
        ) {
            None => r matches Err(PreprocessorError::IncompleteDirective { directive_span: s })
                && s == *directive_span,
            Some((t, sp)) => magnitude_of(t) is None ==> (r matches Err(e) && expected_error(
                e,
                sp,
                Some(t),
                "a time magnitude (1, 10, or 100)",
            )),
        },
        // on two tokens read one by one, as they are: an amount and a unit
        ({
            let s = old(src)@;
            let k = kinds_under(s, keyword_standard(old(state).curr_standard@));
            plain_upto(s, 2) && old(state).budget > 4 && s.len() > 0 && magnitude_of(k[0]) is Some ==> {
                &&& s.len() == 1 ==> (r matches Err(PreprocessorError::IncompleteDirective { directive_span: d })
                    && d == *directive_span)
                &&& s.len() > 1 && unit_of(k[1]) is None ==> (r matches Err(e) && expected_error(
                    e,
                    s[1].1,
                    Some(k[1]),
                    "a time unit",
                ))
                &&& s.len() > 1 && unit_of(k[1]) is Some ==> {
                    &&& r == Ok::<TimeValue, PreprocessorError>(
                        TimeValue { magnitude: magnitude_of(k[0])->0, unit: unit_of(k[1])->0 },
                    )
                    &&& final(src)@ == s.skip(2)
                    &&& final(state).errors == old(state).errors
                    &&& final(state).budget == old(state).budget - 3
                }
            }
        }),
    decreases old(state).budget, 0nat,
{
    let ghost s = src@;
    let ghost std = keyword_standard(state.curr_standard@);
    let ghost k = kinds_under(s, std);
    proof {
        lemma_skip_block_comments(src@, 0);
        if s.len() > 0 {
            assert(k[0] == under_standard(s[0].0@, std));
        }
    }
    if !state.spend() {
        return Err(PreprocessorError::StepLimit);
    }
    let ghost s0 = *state;
    let amount = read_setting_token(src, state, directive_span);
    let ghost s1 = *state;
    proof {
        lemma_evolves_trans(*old(state), s0, s1);
        if plain_upto(s, 2) && old(state).budget > 4 && s.len() > 0 {
            assert(src@ =~= s.skip(1));
            lemma_skip_block_comments(src@, 0);
            if s.len() > 1 {
                assert(src@[0] == s[1]);
                assert(k[1] == under_standard(s[1].0@, std));
            }
        }
    }
    let amount = match amount {
        Ok(t) => t,
        Err(e) => {
            return Err(e);
        },
    };
    let magnitude = match magnitude_exec(&amount.0) {
        Some(m) => m,
        None => {
            let SpannedToken(tok, span) = amount;
            return Err(expected(span, Some(tok), "a time magnitude (1, 10, or 100)"));
        },
    };
    let unit_token = read_setting_token(src, state, directive_span);
    proof {
        lemma_evolves_trans(*old(state), s1, *state);
    }
    let unit_token = match unit_token {
        Ok(t) => t,
        Err(e) => {
            return Err(e);
        },
    };
    match unit_exec(&unit_token.0) {
        Some(unit) => Ok(TimeValue { magnitude, unit }),
        None => {
            let SpannedToken(tok, span) = unit_token;
            Err(expected(span, Some(tok), "a time unit"))
        },
    }
}

/// Whether the first `n` of the tokens of a `` `timescale `` are what it
/// needs: an amount, a unit, `/`, an amount, a unit
pub open spec fn time_args_ok(k: Seq<TokenV>, n: int) -> bool {
    &&& n > 0 ==> magnitude_of(k[0]) is Some
    &&& n > 1 ==> unit_of(k[1]) is Some
    &&& n > 2 ==> k[2] is Slash
    &&& n > 3 ==> magnitude_of(k[3]) is Some
    &&& n > 4 ==> unit_of(k[4]) is Some
}

/// What the error says was expected at each place of a `` `timescale ``
pub open spec fn time_arg_label(place: int) -> &'static str {
    if place == 0 || place == 3 {
        "a time magnitude (1, 10, or 100)"
    } else if place == 2 {
        "a `/`"
    } else {
        "a time unit"
    }
}

/// `` `timescale unit / precision ``: the unit of time and the precision
/// of delays from here on; the precision may not be coarser than the unit
pub fn preprocess_timescale<H: PragmaHandler>(
    src: &mut TokenIterator,
    state: &mut PreprocessorState<H>,
    directive_span: &Span,
) -> (r: Result<(), PreprocessorError>)
    ensures
        evolves(*old(state), *final(state)),
        final(state).curr_standard == old(state).curr_standard,
        final(state).settings.default_nettype == old(state).settings.default_nettype,
        final(state).settings.unconnected_drive == old(state).settings.unconnected_drive,
        r matches Err(e) ==> e.reportable(),
        r is Ok ==> (final(state).settings.timescale matches Some((ts, sp)) && sp == *directive_span
            && ts.precision.exponent() <= ts.unit.exponent()),
        r is Err ==> final(state).settings == old(state).settings,
        // the unit's amount: 1, 10 or 100
        plain_next(old(src)@, old(state).budget - 2) ==> match next_plain_token(
            old(src)@,
            keyword_standard(old(state).curr_standard@),
        ) {
            None => r matches Err(PreprocessorError::IncompleteDirective { directive_span: s })
                && s == *directive_span,
            Some((t, sp)) => magnitude_of(t) is None ==> (r matches Err(e) && expected_error(
                e,
                sp,
                Some(t),
                "a time magnitude (1, 10, or 100)",
            )),
        },
        // on tokens read one by one, as they are: the first one missing or
        // wrong decides the error; else the unit and precision are set,
        // unless the precision is coarser than the unit
        ({
            let s = old(src)@;
            let k = kinds_under(s, keyword_standard(old(state).curr_standard@));
            plain_upto(s, 5) && old(state).budget > 10 ==> {
                &&& forall|j: int|
                    0 <= j < 5 && j < s.len() && time_args_ok(k, j) && !#[trigger] time_args_ok(k, j + 1)
                        ==> (r matches Err(e) && expected_error(e, s[j].1, Some(k[j]), time_arg_label(j)))
                &&& s.len() < 5 && time_args_ok(k, s.len() as int) ==> (r matches Err(
                    PreprocessorError::IncompleteDirective { directive_span: d },
                ) && d == *directive_span)
                &&& s.len() >= 5 && time_args_ok(k, 5) ==> {
                    let unit = TimeValue { magnitude: magnitude_of(k[0])->0, unit: unit_of(k[1])->0 };
                    let precision = TimeValue {
                        magnitude: magnitude_of(k[3])->0,
                        unit: unit_of(k[4])->0,
                    };
                    if precision.exponent() > unit.exponent() {
                        r == Err::<(), PreprocessorError>(
                            PreprocessorError::InvalidRelativeTimescales { span: *directive_span },
                        )
                    } else {
                        &&& r is Ok
                        &&& final(state).settings.timescale == Some(
                            (Timescale { unit, precision }, *directive_span),
                        )
                        &&& final(src)@ == s.skip(5)
                        &&& final(state).errors == old(state).errors
                    }
                }
            }
        }),
    decreases old(state).budget, 0nat,
{
    let ghost s = src@;
    let ghost std = keyword_standard(state.curr_standard@);
    let ghost k = kinds_under(s, std);
    let ghost simple = plain_upto(s, 5) && old(state).budget > 10;
    proof {
        lemma_skip_block_comments(src@, 0);
        if s.len() > 0 {
            assert(k[0] == under_standard(s[0].0@, std));
        }
    }
    if !state.spend() {
        return Err(PreprocessorError::StepLimit);
    }
    let ghost s0 = *state;
    let unit = read_time_value(src, state, directive_span);
    let ghost s1 = *state;
    proof {
        lemma_evolves_trans(*old(state), s0, s1);
        if simple && s.len() > 1 && time_args_ok(k, 2) {
            assert(src@ =~= s.skip(2));
            lemma_skip_block_comments(src@, 0);
            if s.len() > 2 {
                assert(src@[0] == s[2]);
                assert(k[2] == under_standard(s[2].0@, std));
            }
        }
    }
    let unit = match unit {
        Ok(u) => u,
        Err(e) => {
            return Err(e);
        },
    };
    let slash = read_setting_token(src, state, directive_span);
    let ghost s2 = *state;
    proof {
        lemma_evolves_trans(*old(state), s1, s2);
    }
    let slash = match slash {
        Ok(t) => t,
        Err(e) => {
            return Err(e);
        },
    };
    if !matches!(slash.0, Token::Slash) {
        let SpannedToken(tok, span) = slash;
        return Err(expected(span, Some(tok), "a `/`"));
    }
    proof {
        if simple && s.len() > 2 && time_args_ok(k, 3) {
            assert(src@ =~= s.skip(3));
            lemma_skip_block_comments(src@, 0);
            if s.len() > 3 {
                assert(src@[0] == s[3]);
                assert(k[3] == under_standard(s[3].0@, std));
            }
            if s.len() > 4 {
                assert(src@[1] == s[4]);
                assert(k[4] == under_standard(s[4].0@, std));
            }
        }
    }
    let precision = read_time_value(src, state, directive_span);
    proof {
        lemma_evolves_trans(*old(state), s2, *state);
        if simple && s.len() > 4 && time_args_ok(k, 5) {
            assert(s.skip(3).skip(2) =~= s.skip(5));
        }
    }
    let precision = match precision {
        Ok(p) => p,
        Err(e) => {
            return Err(e);
        },
    };
    if precision.exponent_exec() > unit.exponent_exec() {
        return Err(PreprocessorError::InvalidRelativeTimescales { span: directive_span.clone() });
    }
    state.settings.timescale = Some((Timescale { unit, precision }, directive_span.clone()));
    Ok(())
}

/// `` `default_nettype type ``: the type of nets declared implicitly from
/// here on
pub fn preprocess_default_nettype<H: PragmaHandler>(
    src: &mut TokenIterator,
    state: &mut PreprocessorState<H>,
    directive_span: &Span,
) -> (r: Result<(), PreprocessorError>)
    ensures
        evolves(*old(state), *final(state)),
        final(state).curr_standard == old(state).curr_standard,
        final(state).settings.timescale == old(state).settings.timescale,
        final(state).settings.unconnected_drive == old(state).settings.unconnected_drive,
        r matches Err(e) ==> e.reportable(),
        r is Err ==> final(state).settings == old(state).settings,
        plain_next(old(src)@, old(state).budget - 1) ==> match next_plain_token(
            old(src)@,
            keyword_standard(old(state).curr_standard@),
        ) {
            None => r matches Err(PreprocessorError::IncompleteDirective { directive_span: s })
                && s == *directive_span,
            Some((t, sp)) => match nettype_of(t) {
                Some(n) => r is Ok && final(state).settings.default_nettype == n && final(state).errors
                    == old(state).errors,
                None => r matches Err(e) && expected_error(e, sp, Some(t), "a net type"),
            },
        },
    decreases old(state).budget, 0nat,
{
    proof {
        lemma_skip_block_comments(src@, 0);
    }
    if !state.spend() {
        return Err(PreprocessorError::StepLimit);
    }
    let ghost s0 = *state;
    let t = read_setting_token(src, state, directive_span);
    proof {
        lemma_evolves_trans(*old(state), s0, *state);
    }
    let t = match t {
        Ok(t) => t,
        Err(e) => {
            return Err(e);
        },
    };
    match nettype_exec(&t.0) {
        Some(n) => {
            state.settings.default_nettype = n;
            Ok(())
        },
        None => {
            let SpannedToken(tok, span) = t;
            Err(expected(span, Some(tok), "a net type"))
        },
    }
}

/// `` `unconnected_drive pull0 `` or `` pull1 ``: what unconnected input
/// ports are pulled to from here on
pub fn preprocess_unconnected_drive<H: PragmaHandler>(
    src: &mut TokenIterator,
    state: &mut PreprocessorState<H>,
    directive_span: &Span,
) -> (r: Result<(), PreprocessorError>)
    ensures
        evolves(*old(state), *final(state)),
        final(state).curr_standard == old(state).curr_standard,
        final(state).settings.timescale == old(state).settings.timescale,
        final(state).settings.default_nettype == old(state).settings.default_nettype,
        r matches Err(e) ==> e.reportable(),
        r is Err ==> final(state).settings == old(state).settings,
        plain_next(old(src)@, old(state).budget - 1) ==> match next_plain_token(
            old(src)@,
            keyword_standard(old(state).curr_standard@),
        ) {
            None => r matches Err(PreprocessorError::IncompleteDirective { directive_span: s })
                && s == *directive_span,
            Some((t, sp)) => match drive_of(t) {
                Some(d) => r is Ok && final(state).settings.unconnected_drive == Some(d)
                    && final(state).errors == old(state).errors,
                None => r matches Err(e) && expected_error(e, sp, Some(t), "pull0 or pull1"),
            },
        },
    decreases old(state).budget, 0nat,
{
    proof {
        lemma_skip_block_comments(src@, 0);
    }
    if !state.spend() {
        return Err(PreprocessorError::StepLimit);
    }
    let ghost s0 = *state;
    let t = read_setting_token(src, state, directive_span);
    proof {
        lemma_evolves_trans(*old(state), s0, *state);
    }
    let t = match t {
        Ok(t) => t,
        Err(e) => {
            return Err(e);
        },
    };
    match drive_exec(&t.0) {
        Some(d) => {
            state.settings.unconnected_drive = Some(d);
            Ok(())
        },
        None => {
            let SpannedToken(tok, span) = t;
            Err(expected(span, Some(tok), "pull0 or pull1"))
        },
    }
}

/// `` `nounconnected_drive ``: unconnected input ports are no longer pulled
pub fn preprocess_nounconnected_drive<H>(state: &mut PreprocessorState<H>)
    ensures
        final(state).settings.unconnected_drive is None,
        final(state).files == old(state).files,
        final(state).defines == old(state).defines,
        final(state).errors == old(state).errors,
        final(state).curr_standard == old(state).curr_standard,
        final(state).budget == old(state).budget,
        final(state).mode == old(state).mode,
        final(state).settings.timescale == old(state).settings.timescale,
        final(state).settings.default_nettype == old(state).settings.default_nettype,
        evolves(*old(state), *final(state)),
{
    state.settings.unconnected_drive = None;
}

} // verus!
