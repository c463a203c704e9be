//! `` `pragma ``: directives handed to handlers registered by name

use crate::error::{
    expected, expected_error, view_expectations, Expectation, ExpectationV, PreprocessorError,
    VerboseError, VerboseErrorReason, VerboseErrorReasonV,
};
use crate::preprocess::{
    into_identifier, lemma_skip_block_comments, next_plain_token, plain_next, preprocess_single,
    skip_block_comments, under_standard,
};
use crate::state::keyword_standard;
use crate::keywords::KeywordStandard;
use crate::span::Span;
use crate::spanned_token::SpannedToken;
use crate::state::{evolves, handler_names, lemma_evolves_trans, PreprocessorState};
use crate::token::{Token, TokenV};
use crate::token_iter::TokenIterator;
use crate::util::{append_bytes, bytes_eq, copy_bytes};
use vstd::prelude::*;
use vstd::string::StringSliceAdditionalSpecFns;

verus! {

/// A value in a `` `pragma `` directive
#[derive(Debug)]
pub enum PragmaValue {
    Number(Vec<u8>),
    Identifier(Vec<u8>),
    String(Vec<u8>),
    Expressions(Box<Vec<PragmaExpression>>),
}

/// An expression in a `` `pragma `` directive
#[derive(Debug)]
pub enum PragmaExpression {
    Keyword(Vec<u8>),
    Value(PragmaValue),
    KeywordValue(Vec<u8>, PragmaValue),
}

/// What a pragma value holds
pub enum PragmaValueV {
    Number(Seq<u8>),
    Identifier(Seq<u8>),
    String(Seq<u8>),
    Expressions(Seq<PragmaExpressionV>),
}

/// What a pragma expression holds
pub enum PragmaExpressionV {
    Keyword(Seq<u8>),
    Value(PragmaValueV),
    KeywordValue(Seq<u8>, PragmaValueV),
}

/// What a pragma value holds
pub open spec fn value_view(v: PragmaValue) -> PragmaValueV
    decreases v, 0nat,
{
    match v {
        PragmaValue::Number(t) => PragmaValueV::Number(t@),
        PragmaValue::Identifier(t) => PragmaValueV::Identifier(t@),
        PragmaValue::String(t) => PragmaValueV::String(t@),
        PragmaValue::Expressions(b) => PragmaValueV::Expressions(expressions_view((*b)@)),
    }
}

/// What a pragma expression holds
pub open spec fn expression_view(e: PragmaExpression) -> PragmaExpressionV
    decreases e, 0nat,
{
    match e {
        PragmaExpression::Keyword(k) => PragmaExpressionV::Keyword(k@),
        PragmaExpression::Value(v) => PragmaExpressionV::Value(value_view(v)),
        PragmaExpression::KeywordValue(k, v) => PragmaExpressionV::KeywordValue(k@, value_view(v)),
    }
}

/// What a sequence of pragma expressions holds
pub open spec fn expressions_view(s: Seq<PragmaExpression>) -> Seq<PragmaExpressionV>
    decreases s, 1nat,
{
    if s.len() == 0 {
        Seq::empty()
    } else {
        expressions_view(s.drop_last()).push(expression_view(s.last()))
    }
}

/// An object called when a `` `pragma `` with its name is found
pub trait PragmaHandler: Sized {
    /// What a reset makes of a handler: `after` is `before` reset, as the
    /// handler defines it (a handler that does not define it claims
    /// nothing of its reset)
    closed spec fn reset_from(before: Self, after: Self) -> bool {
        true
    }

    /// A `` `pragma resetall ``, or a `` `pragma reset `` naming this
    /// handler, was found
    fn reset(&mut self)
        ensures
            Self::reset_from(*old(self), *final(self)),
    ;

    /// What handling a pragma makes of a handler: `after` is `before`
    /// having handled the pragma `name`, written at `name_span`, with the
    /// expressions `args`, as the handler defines it (a handler that does
    /// not define it claims nothing of it)
    closed spec fn callback_from(
        before: Self,
        after: Self,
        name: Seq<u8>,
        name_span: Span,
        args: Seq<PragmaExpressionV>,
    ) -> bool {
        true
    }

    /// A `` `pragma `` for this handler was found, with the given
    /// expressions; tokens pushed on `dest` become part of the output
    fn callback(
        &mut self,
        name: &[u8],
        name_span: &Span,
        args: Vec<PragmaExpression>,
        dest: &mut Vec<SpannedToken>,
    )
        ensures
            Self::callback_from(*old(self), *final(self), name@, *name_span, expressions_view(args@)),
    ;
}

/// A handler that does nothing
pub struct NoHandler;

impl PragmaHandler for NoHandler {
    fn reset(&mut self) {
    }

    fn callback(
        &mut self,
        _name: &[u8],
        _name_span: &Span,
        _args: Vec<PragmaExpression>,
        _dest: &mut Vec<SpannedToken>,
    ) {
    }
}

/// The name of `` `pragma reset ``, in bytes
pub open spec fn reset_name() -> Seq<u8> {
    seq![114u8, 101u8, 115u8, 101u8, 116u8]
}

/// The name of `` `pragma resetall ``, in bytes
pub open spec fn resetall_name() -> Seq<u8> {
    seq![114u8, 101u8, 115u8, 101u8, 116u8, 97u8, 108u8, 108u8]
}

fn is_reset_name(n: &[u8]) -> (r: bool)
    ensures
        r == (n@ == reset_name()),
{
    let r = n.len() == 5 && n[0] == 114u8 && n[1] == 101u8 && n[2] == 115u8 && n[3] == 101u8 && n[4] == 116u8;
    proof {
        if r {
            assert(n@ =~= reset_name());
        }
    }
    r
}

fn is_resetall_name(n: &[u8]) -> (r: bool)
    ensures
        r == (n@ == resetall_name()),
{
    let r = n.len() == 8 && n[0] == 114u8 && n[1] == 101u8 && n[2] == 115u8 && n[3] == 101u8 && n[4] == 116u8
        && n[5] == 97u8 && n[6] == 108u8 && n[7] == 108u8;
    proof {
        if r {
            assert(n@ =~= resetall_name());
        }
    }
    r
}

/// The first handler, from `i` on, registered under the name `n`
pub open spec fn handler_from<H>(hs: Seq<(Vec<u8>, H)>, n: Seq<u8>, i: int) -> Option<int>
    decreases hs.len() - i,
{
    if i < 0 || i >= hs.len() {
        None
    } else if hs[i].0@ == n {
        Some(i)
    } else {
        handler_from(hs, n, i + 1)
    }
}

proof fn lemma_handler_from<H>(hs: Seq<(Vec<u8>, H)>, n: Seq<u8>, i: int)
    requires
        0 <= i,
    ensures
        handler_from(hs, n, i) matches Some(j) ==> i <= j < hs.len() && hs[j].0@ == n,
    decreases hs.len() - i,
{
    if i < hs.len() && hs[i].0@ != n {
        lemma_handler_from(hs, n, i + 1);
    }
}

/// Whether a list of expressions names a handler by a keyword expression
pub open spec fn names_handler_v(es: Seq<PragmaExpressionV>, name: Seq<u8>) -> bool {
    exists|i: int| 0 <= i < es.len() && (#[trigger] es[i] matches PragmaExpressionV::Keyword(k) && k == name)
}

/// What a pragma `n`, named at `span`, with the expressions `es`, does to
/// the handlers: `reset` resets those named, `resetall` every one, and any
/// other name is handled by the first handler registered under it; the
/// other handlers are left as they were
pub open spec fn pragma_done<H: PragmaHandler>(
    n: Seq<u8>,
    span: Span,
    es: Seq<PragmaExpressionV>,
    before: Seq<(Vec<u8>, H)>,
    after: Seq<(Vec<u8>, H)>,
) -> bool {
    &&& after.len() == before.len()
    &&& forall|i: int| 0 <= i < before.len() ==> (#[trigger] after[i]).0 == before[i].0
    &&& if n == reset_name() {
        forall|i: int|
            0 <= i < before.len() ==> if names_handler_v(es, before[i].0@) {
                H::reset_from(before[i].1, #[trigger] after[i].1)
            } else {
                after[i] == before[i]
            }
    } else if n == resetall_name() {
        forall|i: int| 0 <= i < before.len() ==> H::reset_from(before[i].1, #[trigger] after[i].1)
    } else {
        match handler_from(before, n, 0) {
            Some(j) => H::callback_from(before[j].1, after[j].1, n, span, es) && forall|i: int|
                0 <= i < before.len() && i != j ==> #[trigger] after[i] == before[i],
            None => after == before,
        }
    }
}

/// The expressions of a pragma whose name is followed by `rest`: none
/// unless the next token starts a value, else those read from there
/// (`None` where they do not parse)
pub open spec fn pragma_args(rest: Seq<SpannedToken>, std: KeywordStandard) -> Option<Seq<PragmaExpressionV>> {
    if rest.len() > 0 && starts_value(under_standard(rest[0].0@, std)) {
        parse_expressions(kinds_under(rest, std)).0
    } else {
        Some(Seq::empty())
    }
}

/// How many tokens after the name the expressions of a pragma take
pub open spec fn pragma_end(rest: Seq<SpannedToken>, std: KeywordStandard) -> int {
    if rest.len() > 0 && starts_value(under_standard(rest[0].0@, std)) {
        parse_expressions(kinds_under(rest, std)).1
    } else {
        0
    }
}

proof fn lemma_expressions_view(s: Seq<PragmaExpression>)
    ensures
        expressions_view(s).len() == s.len(),
        forall|i: int| 0 <= i < s.len() ==> #[trigger] expressions_view(s)[i] == expression_view(s[i]),
    decreases s.len(),
{
    if s.len() > 0 {
        lemma_expressions_view(s.drop_last());
        assert forall|i: int| 0 <= i < s.len() implies #[trigger] expressions_view(s)[i] == expression_view(s[i]) by {
            if i < s.len() - 1 {
                assert(s.drop_last()[i] == s[i]);
            }
        }
    }
}

proof fn lemma_names_handler(s: Seq<PragmaExpression>, name: Seq<u8>)
    ensures
        names_handler(s, name) == names_handler_v(expressions_view(s), name),
{
    lemma_expressions_view(s);
    let es = expressions_view(s);
    if names_handler(s, name) {
        let i = choose|i: int| 0 <= i < s.len() && (#[trigger] s[i] matches PragmaExpression::Keyword(k) && k@ == name);
        assert(es[i] == expression_view(s[i]));
    }
    if names_handler_v(es, name) {
        let i = choose|i: int| 0 <= i < es.len() && (#[trigger] es[i] matches PragmaExpressionV::Keyword(k) && k == name);
        assert(es[i] == expression_view(s[i]));
        assert(s[i] matches PragmaExpression::Keyword(k) && k@ == name);
    }
}

/// Reading a token under a standard twice reads it as once
proof fn lemma_kinds_resumed(f: Seq<SpannedToken>, s: Seq<SpannedToken>, std: KeywordStandard)
    requires
        resumes_at(f, s, 0, std),
    ensures
        kinds_under(f, std) == kinds_under(s, std),
{
    if s.len() > 0 {
        assert forall|i: int| 0 <= i < s.len() implies #[trigger] kinds_under(f, std)[i] == kinds_under(s, std)[i] by {
            if i > 0 {
                assert(f.skip(1)[i - 1] == s.skip(1)[i - 1]);
            }
        }
        assert(kinds_under(f, std) =~= kinds_under(s, std));
    } else {
        assert(kinds_under(f, std) =~= kinds_under(s, std));
    }
}



/// Whether a token can start a pragma value
pub open spec fn starts_value(t: TokenV) -> bool {
    ||| t is Paren
    ||| t is UnsignedNumber
    ||| t is FixedPointNumber
    ||| t is BinaryNumber
    ||| t is OctalNumber
    ||| t is DecimalNumber
    ||| t is HexNumber
    ||| t is ScientificNumber
    ||| t is SimpleIdentifier
    ||| t is EscapedIdentifier
    ||| t is StringLiteral
    ||| t is Keyword
}

/// The number text a token holds, if it is a number
pub open spec fn number_text(t: TokenV) -> Option<Seq<u8>> {
    match t {
        TokenV::UnsignedNumber(s) => Some(s),
        TokenV::FixedPointNumber(s) => Some(s),
        TokenV::BinaryNumber(s) => Some(s),
        TokenV::OctalNumber(s) => Some(s),
        TokenV::DecimalNumber(s) => Some(s),
        TokenV::HexNumber(s) => Some(s),
        TokenV::ScientificNumber(s) => Some(s),
        _ => None,
    }
}

/// The tokens of a stream as ordinary text reads them under the given
/// standard
pub open spec fn kinds_under(s: Seq<SpannedToken>, standard: KeywordStandard) -> Seq<TokenV> {
    s.map_values(|t: SpannedToken| under_standard(t.0@, standard))
}

/// Whether the first `n` tokens of a stream have no block comment and no
/// text macro (so that ordinary text reads them one by one, as they are)
pub open spec fn plain_upto(s: Seq<SpannedToken>, n: int) -> bool {
    forall|i: int|
        0 <= i < n && i < s.len() ==> !((#[trigger] s[i]).0 is BlockComment) && !(s[i].0 is TextMacro)
}

/// The value a single token gives: a number, an identifier, a string, or
/// a keyword's text as a string
pub open spec fn simple_value(t: TokenV) -> Option<PragmaValueV> {
    match t {
        TokenV::SimpleIdentifier(n) => Some(PragmaValueV::Identifier(n)),
        TokenV::EscapedIdentifier(n) => Some(PragmaValueV::Identifier(n)),
        TokenV::StringLiteral(n) => Some(PragmaValueV::String(n)),
        TokenV::Keyword(k) => Some(PragmaValueV::String(k.bytes())),
        _ => match number_text(t) {
            Some(n) => Some(PragmaValueV::Number(n)),
            None => None,
        },
    }
}

/// The comma-separated pragma expressions at the start of `ts`, and how
/// many tokens they take (where they are malformed, `None`, with a bound
/// on the tokens read before that is found)
pub open spec fn parse_expressions(ts: Seq<TokenV>) -> (Option<Seq<PragmaExpressionV>>, int)
    decreases ts.len(), 2nat,
{
    if ts.len() == 0 {
        (None, 0)
    } else {
        let (e, q) = parse_expression(ts);
        match e {
            None => (None, q),
            Some(x) => if 0 <= q < ts.len() && ts[q] is Comma {
                let (rest, r) = parse_expressions(ts.skip(q + 1));
                match rest {
                    Some(xs) => (Some(seq![x] + xs), q + 1 + r),
                    None => (None, q + 1 + r),
                }
            } else {
                (Some(seq![x]), q)
            },
        }
    }
}

/// The pragma expression at the start of `ts` (a keyword, a keyword `=`
/// value, or a value), and how many tokens it takes
pub open spec fn parse_expression(ts: Seq<TokenV>) -> (Option<PragmaExpressionV>, int)
    decreases ts.len(), 1nat,
{
    if ts.len() == 0 {
        (None, 0)
    } else {
        match ts[0] {
            TokenV::SimpleIdentifier(n) => if ts.len() > 1 && ts[1] is Eq {
                if ts.len() <= 2 {
                    (None, ts.len() as int)
                } else {
                    let (v, q) = parse_value(ts.skip(2));
                    match v {
                        Some(v) => (Some(PragmaExpressionV::KeywordValue(n, v)), q + 2),
                        None => (None, q + 2),
                    }
                }
            } else {
                (Some(PragmaExpressionV::Keyword(n)), 1)
            },
            _ => {
                let (v, q) = parse_value(ts);
                match v {
                    Some(v) => (Some(PragmaExpressionV::Value(v)), q),
                    None => (None, q),
                }
            },
        }
    }
}

/// The pragma value at the start of `ts` (a parenthesised list of
/// expressions, or a single token's value), and how many tokens it takes
pub open spec fn parse_value(ts: Seq<TokenV>) -> (Option<PragmaValueV>, int)
    decreases ts.len(), 0nat,
{
    if ts.len() == 0 {
        (None, 0)
    } else if ts[0] is Paren {
        let (es, q) = parse_expressions(ts.skip(1));
        match es {
            None => (None, q + 1),
            Some(xs) => if q + 1 < ts.len() && ts[q + 1] is EParen {
                (Some(PragmaValueV::Expressions(xs)), q + 2)
            } else {
                (None, q + 2)
            },
        }
    } else {
        (simple_value(ts[0]), 1)
    }
}

/// The tokens a pragma expression list, expression or value takes are no
/// fewer than one and, where it is well formed, no more than there are
pub proof fn lemma_parse_bounds(ts: Seq<TokenV>)
    ensures
        0 <= parse_expressions(ts).1,
        parse_expressions(ts).0 is Some ==> 1 <= parse_expressions(ts).1 <= ts.len(),
        0 <= parse_expression(ts).1,
        parse_expression(ts).0 is Some ==> 1 <= parse_expression(ts).1 <= ts.len(),
        0 <= parse_value(ts).1,
        parse_value(ts).0 is Some ==> 1 <= parse_value(ts).1 <= ts.len(),
    decreases ts.len(),
{
    if ts.len() > 0 {
        if ts.len() > 2 {
            lemma_parse_bounds(ts.skip(2));
        }
        lemma_parse_bounds(ts.skip(1));
        let q = parse_expression(ts).1;
        if 0 <= q < ts.len() {
            lemma_parse_bounds(ts.skip(q + 1));
        }
    }
}

/// Read the name of a `` `pragma ``: an identifier
pub fn get_pragma_name<H: PragmaHandler>(
    src: &mut TokenIterator,
    state: &mut PreprocessorState<H>,
    pragma_span: &Span,
) -> (r: Result<(Vec<u8>, Span), PreprocessorError>)
    ensures
        evolves(*old(state), *final(state)),
        final(state).curr_standard == old(state).curr_standard,
        final(state).settings == old(state).settings,
        r matches Err(e) ==> e.reportable(),
        plain_next(old(src)@, old(state).budget - 1) ==> match next_plain_token(
            old(src)@,
            keyword_standard(old(state).curr_standard@),
        ) {
            None => r matches Err(PreprocessorError::IncompleteDirective { directive_span: s })
                && s == *pragma_span,
            Some((TokenV::SimpleIdentifier(n), sp)) => r matches Ok((v, vs)) && v@ == n && vs == sp,
            Some((t, sp)) => r matches Err(e) && expected_error(e, sp, Some(t), "a pragma name"),
        },
        // the name is taken from the stream, with nothing else changed
        ({
            let s = old(src)@;
            let k = skip_block_comments(s, 0);
            plain_next(s, old(state).budget - 1) ==> {
                &&& final(state).errors == old(state).errors
                &&& final(state).pragma_handlers == old(state).pragma_handlers
                &&& final(state).budget == old(state).budget - (k + 2)
                &&& (k < s.len() ==> final(src)@ == s.skip(k + 1))
            }
        }),
    decreases old(state).budget, 0nat,
{
    proof {
        lemma_skip_block_comments(src@, 0);
    }
    if !state.spend() {
        return Err(PreprocessorError::StepLimit);
    }
    let ghost s0 = *state;
    let t = preprocess_single(src, state);
    proof {
        lemma_evolves_trans(*old(state), s0, *state);
    }
    match t {
        Err(e) => Err(e),
        Ok(None) => Err(PreprocessorError::IncompleteDirective { directive_span: pragma_span.clone() }),
        Ok(Some(SpannedToken(Token::SimpleIdentifier(text), span))) => Ok((text, span)),
        Ok(Some(SpannedToken(tok, span))) => Err(expected(span, Some(tok), "a pragma name")),
    }
}

/// One step of reading expressions: the first expression, then either
/// the end of the list or a comma and the rest
pub proof fn lemma_parse_step(u: Seq<TokenV>)
    requires
        u.len() > 0,
    ensures
        parse_expressions(u).1 >= parse_expression(u).1,
        parse_expression(u).0 is None ==> parse_expressions(u) == (
            None::<Seq<PragmaExpressionV>>,
            parse_expression(u).1,
        ),
        parse_expression(u).0 matches Some(x) ==> {
            let q = parse_expression(u).1;
            if 0 <= q < u.len() && u[q] is Comma {
                parse_expressions(u) == after(seq![x], q + 1, parse_expressions(u.skip(q + 1)))
            } else {
                parse_expressions(u) == (Some(seq![x]), q)
            }
        },
{
    lemma_parse_bounds(u);
    let q = parse_expression(u).1;
    if 0 <= q < u.len() {
        lemma_parse_bounds(u.skip(q + 1));
    }
}

/// The stream `f` goes on where `s` does after its first `k` tokens, its
/// first token (one that was read and put back) as the standard reads it
pub open spec fn resumes_at(
    f: Seq<SpannedToken>,
    s: Seq<SpannedToken>,
    k: int,
    standard: KeywordStandard,
) -> bool {
    if 0 <= k < s.len() {
        &&& f.len() == s.len() - k
        &&& f[0]@ == (under_standard(s[k].0@, standard), s[k].1)
        &&& f.skip(1) == s.skip(k + 1)
    } else {
        f.len() == 0
    }
}

/// Whether `s[..n]` has no block comment and no text macro, where `s`
/// is what follows the first `k` tokens of a stream with none in its first
/// `k + n`
pub proof fn lemma_plain_skip(s: Seq<SpannedToken>, k: int, n: int)
    requires
        0 <= k <= s.len(),
        plain_upto(s, k + n),
    ensures
        plain_upto(s.skip(k), n),
{
    assert forall|i: int| 0 <= i < n && i < s.skip(k).len() implies !((#[trigger] s.skip(k)[i]).0 is BlockComment)
        && !(s.skip(k)[i].0 is TextMacro) by {
        assert(s.skip(k)[i] == s[k + i]);
    }
}

/// The rest of a parenthesised list of pragma expressions, after its `(`:
/// the expressions, then `)`
#[verifier::rlimit(40)]
fn get_pragma_list<H: PragmaHandler>(
    src: &mut TokenIterator,
    state: &mut PreprocessorState<H>,
    open_span: Span,
    pragma_span: &Span,
) -> (r: Result<PragmaValue, PreprocessorError>)
    ensures
        evolves(*old(state), *final(state)),
        final(state).curr_standard == old(state).curr_standard,
        final(state).settings == old(state).settings,
        r matches Err(e) ==> e.reportable(),
        ({
            let ts = kinds_under(old(src)@, keyword_standard(old(state).curr_standard@));
            let q = parse_expressions(ts).1;
            plain_upto(old(src)@, q + 1) && old(state).budget > 3 * q + 6 ==> match parse_expressions(
                ts,
            ).0 {
                Some(xs) => if q < ts.len() && ts[q] is EParen {
                    &&& r matches Ok(x) && value_view(x) == PragmaValueV::Expressions(xs)
                    &&& final(src)@ == old(src)@.skip(q + 1)
                    &&& final(state).errors == old(state).errors
                    &&& final(state).pragma_handlers == old(state).pragma_handlers
                    &&& old(state).budget - final(state).budget <= 3 * q + 3
                } else {
                    r is Err && final(state).pragma_handlers == old(state).pragma_handlers
                },
                None => r is Err && final(state).pragma_handlers == old(state).pragma_handlers,
            }
        }),
    decreases old(state).budget, 1nat,
{
    let ghost s = src@;
    let ghost std = keyword_standard(state.curr_standard@);
    let ghost ts = kinds_under(s, std);
    let ghost q = parse_expressions(ts).1;
    let ghost simple = plain_upto(s, q + 1) && old(state).budget > 3 * q + 6;
    proof {
        lemma_parse_bounds(ts);
    }
    let ghost s0 = *state;
    let exprs = get_pragma_expressions(src, state, pragma_span);
    proof {
        lemma_evolves_trans(*old(state), s0, *state);
    }
    let expressions = match exprs {
        Ok(e) => e,
        Err(e) => {
            return Err(e);
        },
    };
    proof {
        if simple {
            assert(resumes_at(src@, s, q, std));
            lemma_skip_block_comments(src@, 0);
            if q < s.len() {
                assert(src@[0]@ == (under_standard(s[q].0@, std), s[q].1));
                assert(ts[q] == under_standard(s[q].0@, std));
            }
        }
    }
    let ghost s1 = *state;
    let close = preprocess_single(src, state);
    proof {
        lemma_evolves_trans(*old(state), s1, *state);
    }
    let close = match close {
        Ok(c) => c,
        Err(e) => {
            return Err(e);
        },
    };
    proof {
        if simple && q < s.len() {
            assert(src@ =~= s.skip(q + 1));
        }
    }
    match close {
        None => {
            let mut v = Vec::new();
            v.push(Expectation::Label("a corresponding )"));
            Err(
                PreprocessorError::VerboseError {
                    err: VerboseError {
                        span: open_span,
                        found: None,
                        reason: VerboseErrorReason::Expected(v),
                    },
                },
            )
        },
        Some(SpannedToken(Token::EParen, _)) => {
            let r = PragmaValue::Expressions(Box::new(expressions));
            assert(value_view(r) == PragmaValueV::Expressions(expressions_view(expressions@)));
            Ok(r)
        },
        Some(SpannedToken(tok, span)) => {
            let mut v = Vec::new();
            v.push(Expectation::Token(Token::EParen));
            Err(
                PreprocessorError::VerboseError {
                    err: VerboseError { span, found: Some(tok), reason: VerboseErrorReason::Expected(v) },
                },
            )
        },
    }
}

/// Read a pragma value that starts with the given token (a parenthesised
/// list of expressions, a number, an identifier or a string); where the
/// token starts no value, the error expects a value, or (where a keyword
/// could stand) an expression
#[verifier::rlimit(80)]
pub fn get_pragma_value<H: PragmaHandler>(
    src: &mut TokenIterator,
    state: &mut PreprocessorState<H>,
    curr_token: SpannedToken,
    keyword_possible: bool,
    pragma_span: &Span,
) -> (r: Result<PragmaValue, PreprocessorError>)
    ensures
        evolves(*old(state), *final(state)),
        final(state).curr_standard == old(state).curr_standard,
        final(state).settings == old(state).settings,
        r matches Err(e) ==> e.reportable(),
        old(state).budget > 0 && !(curr_token.0 is Paren) ==> final(src)@ == old(src)@
            && match curr_token.0@ {
            TokenV::SimpleIdentifier(s) => r matches Ok(PragmaValue::Identifier(t)) && t@ == s,
            TokenV::EscapedIdentifier(s) => r matches Ok(PragmaValue::Identifier(t)) && t@ == s,
            TokenV::StringLiteral(s) => r matches Ok(PragmaValue::String(t)) && t@ == s,
            TokenV::Keyword(k) => r matches Ok(PragmaValue::String(t)) && t@ == k.bytes(),
            _ => match number_text(curr_token.0@) {
                Some(s) => r matches Ok(PragmaValue::Number(t)) && t@ == s,
                None => r matches Err(e) && expected_error(
                    e,
                    curr_token.1,
                    Some(curr_token.0@),
                    if keyword_possible {
                        "a pragma expression"
                    } else {
                        "a pragma value"
                    },
                ),
            },
        },
        // a value on tokens read one by one, as they are
        ({
            let ts = seq![curr_token.0@] + kinds_under(
                old(src)@,
                keyword_standard(old(state).curr_standard@),
            );
            let end = parse_value(ts).1;
            plain_upto(old(src)@, end) && old(state).budget > 3 * end + 4 ==> match parse_value(
                ts,
            ).0 {
                Some(v) => {
                    &&& r matches Ok(x) && value_view(x) == v
                    &&& final(src)@ == old(src)@.skip(end - 1)
                    &&& final(state).errors == old(state).errors
                    &&& final(state).pragma_handlers == old(state).pragma_handlers
                    &&& old(state).budget - final(state).budget <= 3 * (end - 1) + 1
                },
                None => r is Err && final(state).pragma_handlers == old(state).pragma_handlers,
            }
        }),
    decreases old(state).budget, 0nat,
{
    let ghost s = src@;
    let ghost std = keyword_standard(state.curr_standard@);
    let ghost ts = seq![curr_token.0@] + kinds_under(s, std);
    proof {
        assert(ts.skip(1) =~= kinds_under(s, std));
        lemma_parse_bounds(ts.skip(1));
    }
    if !state.spend() {
        return Err(PreprocessorError::StepLimit);
    }
    match curr_token.0 {
        Token::Paren => {
            let ghost s0 = *state;
            let r = get_pragma_list(src, state, curr_token.1, pragma_span);
            proof {
                lemma_evolves_trans(*old(state), s0, *state);
            }
            r
        },
        Token::UnsignedNumber(text) | Token::FixedPointNumber(text) | Token::BinaryNumber(text)
        | Token::OctalNumber(text) | Token::DecimalNumber(text) | Token::HexNumber(text)
        | Token::ScientificNumber(text) => Ok(PragmaValue::Number(text)),
        Token::SimpleIdentifier(text) | Token::EscapedIdentifier(text) => Ok(
            PragmaValue::Identifier(text),
        ),
        Token::StringLiteral(text) => Ok(PragmaValue::String(text)),
        Token::Keyword(k) => {
            let mut text = Vec::new();
            append_bytes(&mut text, k.as_str().as_bytes());
            Ok(PragmaValue::String(text))
        },
        tok => {
            let label = if keyword_possible {
                "a pragma expression"
            } else {
                "a pragma value"
            };
            Err(expected(curr_token.1, Some(tok), label))
        },
    }
}

fn starts_value_exec(t: &Token) -> (r: bool)
    ensures
        r == starts_value(t@),
{
    match t {
        Token::Paren | Token::UnsignedNumber(_) | Token::FixedPointNumber(_)
        | Token::BinaryNumber(_) | Token::OctalNumber(_) | Token::DecimalNumber(_)
        | Token::HexNumber(_) | Token::ScientificNumber(_) | Token::SimpleIdentifier(_)
        | Token::EscapedIdentifier(_) | Token::StringLiteral(_) => true,
        _ => into_identifier(t).is_some(),
    }
}

/// Whether a pragma's name is followed by expressions (the next token,
/// which is put back, starts a value)
pub fn check_for_expressions<H: PragmaHandler>(
    src: &mut TokenIterator,
    state: &mut PreprocessorState<H>,
) -> (r: Result<bool, PreprocessorError>)
    ensures
        evolves(*old(state), *final(state)),
        final(state).curr_standard == old(state).curr_standard,
        final(state).settings == old(state).settings,
        r matches Err(e) ==> e.reportable(),
        r matches Ok(b) ==> (final(src)@.len() == 0 ==> !b) && (final(src)@.len() > 0 ==> b
            == starts_value(final(src)@[0].0@)),
        // the next token is looked at and put back, as the standard reads it
        ({
            let s = old(src)@;
            let k = skip_block_comments(s, 0);
            let std = keyword_standard(old(state).curr_standard@);
            plain_next(s, old(state).budget - 1) ==> {
                &&& r == Ok::<bool, PreprocessorError>(
                    k < s.len() && starts_value(under_standard(s[k].0@, std)),
                )
                &&& resumes_at(final(src)@, s, k, std)
                &&& final(state).errors == old(state).errors
                &&& final(state).pragma_handlers == old(state).pragma_handlers
                &&& final(state).budget == old(state).budget - (k + 2)
            }
        }),
    decreases old(state).budget, 0nat,
{
    let ghost s = src@;
    proof {
        lemma_skip_block_comments(s, 0);
    }
    if !state.spend() {
        return Err(PreprocessorError::StepLimit);
    }
    let ghost s0 = *state;
    let t = preprocess_single(src, state);
    proof {
        lemma_evolves_trans(*old(state), s0, *state);
    }
    match t? {
        None => Ok(false),
        Some(spanned_token) => {
            let use_expressions = starts_value_exec(&spanned_token.0);
            let ghost rest = src@;
            src.prepend_token(spanned_token);
            proof {
                assert((seq![spanned_token] + rest).skip(1) =~= rest);
            }
            Ok(use_expressions)
        },
    }
}

fn missing(span: Span, label: &'static str) -> (r: PreprocessorError)
    ensures
        expected_error(r, span, None, label),
{
    expected(span, None, label)
}

/// The expressions read so far, followed by the rest of a parse that
/// starts `i` tokens in
pub open spec fn after(
    done: Seq<PragmaExpressionV>,
    i: int,
    rest: (Option<Seq<PragmaExpressionV>>, int),
) -> (Option<Seq<PragmaExpressionV>>, int) {
    match rest.0 {
        Some(xs) => (Some(done + xs), i + rest.1),
        None => (None, i + rest.1),
    }
}

/// Read one pragma expression whose first token has been taken: a
/// keyword, a keyword `=` value, or a value
#[verifier::rlimit(80)]
fn get_pragma_expression<H: PragmaHandler>(
    src: &mut TokenIterator,
    state: &mut PreprocessorState<H>,
    first: SpannedToken,
    pragma_span: &Span,
) -> (r: Result<PragmaExpression, PreprocessorError>)
    ensures
        evolves(*old(state), *final(state)),
        final(state).curr_standard == old(state).curr_standard,
        final(state).settings == old(state).settings,
        r matches Err(e) ==> e.reportable(),
        ({
            let ts = seq![first.0@] + kinds_under(
                old(src)@,
                keyword_standard(old(state).curr_standard@),
            );
            let end = parse_expression(ts).1;
            plain_upto(old(src)@, end) && old(state).budget > 3 * end + 4 ==> match parse_expression(
                ts,
            ).0 {
                Some(x) => {
                    &&& r matches Ok(e) && expression_view(e) == x
                    &&& final(src)@ == old(src)@.skip(end - 1)
                    &&& final(state).errors == old(state).errors
                    &&& final(state).pragma_handlers == old(state).pragma_handlers
                    &&& old(state).budget - final(state).budget <= 3 * end - 2
                },
                None => r is Err && final(state).pragma_handlers == old(state).pragma_handlers,
            }
        }),
    decreases old(state).budget, 1nat,
{
    let ghost s = src@;
    let ghost std = keyword_standard(state.curr_standard@);
    let ghost u = seq![first.0@] + kinds_under(s, std);
    let ghost end = parse_expression(u).1;
    let ghost simple = plain_upto(s, end) && old(state).budget > 3 * end + 4;
    proof {
        assert(u.skip(1) =~= kinds_under(s, std));
        lemma_parse_bounds(u);
        lemma_parse_bounds(u.skip(1));
        lemma_skip_block_comments(s, 0);
        if s.len() > 0 {
            assert(u[1] == under_standard(s[0].0@, std));
        }
    }
    match first.0 {
        Token::SimpleIdentifier(text) => {
            let assigned = match src.peek() {
                Some(next) => matches!(next.0, Token::Eq),
                None => false,
            };
            if assigned {
                let _eq = src.next();
                let ghost e2: int = parse_value(u.skip(2)).1;
                proof {
                    assert(src@ =~= s.skip(1));
                    lemma_skip_block_comments(src@, 0);
                    if 1 < s.len() {
                        assert(src@[0] == s[1]);
                        assert(u[2] == under_standard(s[1].0@, std));
                    }
                    lemma_parse_bounds(u.skip(2));
                }
                let ghost s1 = *state;
                let v = preprocess_single(src, state);
                proof {
                    lemma_evolves_trans(*old(state), s1, *state);
                }
                let v = match v {
                    Ok(v) => v,
                    Err(e) => {
                        return Err(e);
                    },
                };
                let value_token = match v {
                    None => {
                        return Err(missing(pragma_span.clone(), "a pragma value"));
                    },
                    Some(t) => t,
                };
                proof {
                    if simple {
                        assert(src@ =~= s.skip(2));
                        assert(seq![value_token.0@] + kinds_under(src@, std) =~= u.skip(2));
                        assert(end == e2 + 2);
                        lemma_plain_skip(s, 2, e2);
                    }
                }
                let ghost s2 = *state;
                let value = get_pragma_value(src, state, value_token, false, pragma_span);
                proof {
                    lemma_evolves_trans(*old(state), s2, *state);
                }
                let value = match value {
                    Ok(v) => v,
                    Err(e) => {
                        return Err(e);
                    },
                };
                proof {
                    if simple {
                        assert(s.skip(2).skip(e2 - 1) =~= s.skip(end - 1));
                    }
                }
                Ok(PragmaExpression::KeywordValue(text, value))
            } else {
                proof {
                    assert(s.skip(0) =~= s);
                }
                Ok(PragmaExpression::Keyword(text))
            }
        },
        tok => {
            let ghost s1 = *state;
            let value = get_pragma_value(src, state, SpannedToken(tok, first.1), true, pragma_span);
            proof {
                lemma_evolves_trans(*old(state), s1, *state);
            }
            match value {
                Ok(v) => Ok(PragmaExpression::Value(v)),
                Err(e) => Err(e),
            }
        },
    }
}

/// Read a comma-separated list of pragma expressions: a keyword, a
/// keyword `=` value, or a value
#[verifier::rlimit(80)]
pub fn get_pragma_expressions<H: PragmaHandler>(
    src: &mut TokenIterator,
    state: &mut PreprocessorState<H>,
    pragma_span: &Span,
) -> (r: Result<Vec<PragmaExpression>, PreprocessorError>)
    ensures
        evolves(*old(state), *final(state)),
        final(state).curr_standard == old(state).curr_standard,
        final(state).settings == old(state).settings,
        r matches Err(e) ==> e.reportable(),
        r matches Ok(v) ==> v@.len() > 0,
        // at the end of the stream, an expression is missing
        old(src)@.len() == 0 && old(state).budget > 2 ==> (r matches Err(e) && expected_error(
            e,
            *pragma_span,
            None,
            "a pragma expression",
        )),
        // expressions on tokens read one by one, as they are
        ({
            let ts = kinds_under(old(src)@, keyword_standard(old(state).curr_standard@));
            let end = parse_expressions(ts).1;
            plain_upto(old(src)@, end + 1) && old(state).budget > 3 * end + 6 ==> match parse_expressions(
                ts,
            ).0 {
                Some(es) => {
                    &&& r matches Ok(v) && expressions_view(v@) == es
                    &&& resumes_at(final(src)@, old(src)@, end, keyword_standard(old(state).curr_standard@))
                    &&& final(state).errors == old(state).errors
                    &&& final(state).pragma_handlers == old(state).pragma_handlers
                    &&& old(state).budget - final(state).budget <= 3 * end + 2
                },
                None => r is Err && final(state).pragma_handlers == old(state).pragma_handlers,
            }
        }),
    decreases old(state).budget, 0nat,
{
    let ghost s = src@;
    let ghost std = keyword_standard(state.curr_standard@);
    let ghost ts = kinds_under(s, std);
    let ghost whole = parse_expressions(ts);
    let ghost simple = plain_upto(s, whole.1 + 1) && old(state).budget > 3 * whole.1 + 6;
    proof {
        lemma_parse_bounds(ts);
        assert(ts.skip(0) =~= ts);
        assert(s.skip(0) =~= s);
        assert(whole =~= after(Seq::empty(), 0, parse_expressions(ts.skip(0))));
    }
    if !state.spend() {
        return Err(PreprocessorError::StepLimit);
    }
    let mut expressions: Vec<PragmaExpression> = Vec::new();
    let ghost mut i: int = 0;
    let ghost empty = s.len() == 0 && old(state).budget > 2;
    loop
        invariant
            empty == (s.len() == 0 && old(state).budget > 2),
            empty ==> src@.len() == 0 && state.budget == old(state).budget - 1,
            evolves(*old(state), *state),
            state.budget < old(state).budget,
            state.curr_standard == old(state).curr_standard,
            state.settings == old(state).settings,
            s == old(src)@,
            std == keyword_standard(old(state).curr_standard@),
            ts == kinds_under(s, std),
            whole == parse_expressions(ts),
            simple == (plain_upto(s, whole.1 + 1) && old(state).budget > 3 * whole.1 + 6),
            simple ==> {
                &&& 0 <= i <= s.len()
                &&& src@ == s.skip(i)
                &&& state.errors == old(state).errors
                &&& state.pragma_handlers == old(state).pragma_handlers
                &&& old(state).budget - state.budget <= 3 * i + 1
                &&& whole == after(expressions_view(expressions@), i, parse_expressions(ts.skip(i)))
            },
        decreases state.budget,
    {
        let ghost u = ts.skip(i);
        proof {
            if simple {
                lemma_parse_bounds(u);
                if u.len() > 0 {
                    lemma_parse_step(u);
                }
                lemma_skip_block_comments(src@, 0);
                assert(u.len() == s.len() - i);
                if i < s.len() {
                    assert(src@[0] == s[i]);
                    assert(u[0] == under_standard(s[i].0@, std));
                }
            }
        }
        let ghost s0 = *state;
        let t = preprocess_single(src, state);
        proof {
            lemma_evolves_trans(*old(state), s0, *state);
        }
        let t = match t {
            Ok(t) => t,
            Err(e) => {
                return Err(e);
            },
        };
        let spanned_token = match t {
            None => {
                return Err(missing(pragma_span.clone(), "a pragma expression"));
            },
            Some(t) => t,
        };
        proof {
            if simple {
                assert(src@ =~= s.skip(i + 1));
            }
        }
        let ghost q: int = parse_expression(u).1;
        proof {
            if simple {
                assert(seq![spanned_token.0@] + kinds_under(src@, std) =~= u);
                assert(whole.1 == i + parse_expressions(u).1);
                lemma_plain_skip(s, i + 1, q);
            }
        }
        let ghost s1 = *state;
        let next_expression = get_pragma_expression(src, state, spanned_token, pragma_span);
        proof {
            lemma_evolves_trans(*old(state), s1, *state);
        }
        let next_expression = match next_expression {
            Ok(x) => x,
            Err(e) => {
                return Err(e);
            },
        };
        proof {
            if simple {
                assert(s.skip(i + 1).skip(q - 1) =~= s.skip(i + q));
            }
        }
        let ghost before = expressions@;
        expressions.push(next_expression);
        proof {
            assert(expressions@.drop_last() =~= before);
            if simple {
                lemma_skip_block_comments(src@, 0);
                if i + q < s.len() {
                    assert(src@[0] == s[i + q]);
                    assert(u[q] == under_standard(s[i + q].0@, std));
                }
            }
        }
        let ghost s3 = *state;
        let n = preprocess_single(src, state);
        proof {
            lemma_evolves_trans(*old(state), s3, *state);
        }
        let n = match n {
            Ok(n) => n,
            Err(e) => {
                return Err(e);
            },
        };
        match n {
            Some(SpannedToken(Token::Comma, _)) => {
                proof {
                    if simple {
                        assert(src@ =~= s.skip(i + q + 1));
                        assert(u.skip(q + 1) =~= ts.skip(i + q + 1));
                        i = i + q + 1;
                    }
                }
            },
            Some(token) => {
                src.prepend_token(token);
                proof {
                    if simple {
                        assert(src@.skip(1) =~= s.skip(i + q + 1));
                    }
                }
                return Ok(expressions);
            },
            None => {
                proof {
                    if simple {
                        assert(i + q >= s.len());
                    }
                }
                return Ok(expressions);
            },
        }
    }
}

/// The names of handlers that a `` `pragma reset `` names: its keyword
/// expressions
pub open spec fn names_handler(args: Seq<PragmaExpression>, name: Seq<u8>) -> bool {
    exists|i: int| 0 <= i < args.len() && (#[trigger] args[i] matches PragmaExpression::Keyword(k) && k@ == name)
}

fn named_in(args: &Vec<PragmaExpression>, name: &Vec<u8>) -> (r: bool)
    ensures
        r == names_handler(args@, name@),
{
    let mut i: usize = 0;
    while i < args.len()
        invariant
            i <= args@.len(),
            forall|j: int| 0 <= j < i ==> !(#[trigger] args@[j] matches PragmaExpression::Keyword(k) && k@ == name@),
        decreases args.len() - i,
    {
        match &args[i] {
            PragmaExpression::Keyword(k) => {
                if bytes_eq(k.as_slice(), name.as_slice()) {
                    return true;
                }
            },
            _ => {},
        }
        i = i + 1;
    }
    false
}

/// `` `pragma reset ``: reset the handlers whose names are given
pub fn pragma_reset<H: PragmaHandler>(state: &mut PreprocessorState<H>, args: Vec<PragmaExpression>)
    ensures
        final(state).files == old(state).files,
        final(state).defines == old(state).defines,
        final(state).errors == old(state).errors,
        final(state).curr_standard == old(state).curr_standard,
        final(state).settings == old(state).settings,
        final(state).budget == old(state).budget,
        final(state).mode == old(state).mode,
        final(state).pragma_handlers@.len() == old(state).pragma_handlers@.len(),
        forall|i: int|
            0 <= i < old(state).pragma_handlers@.len() ==> (#[trigger] final(state).pragma_handlers@[i]).0 == old(state).pragma_handlers@[i].0,
        // only the handlers reset are touched
        forall|i: int|
            0 <= i < old(state).pragma_handlers@.len() && !(names_handler(args@, old(state).pragma_handlers@[i].0@)) ==> #[trigger] final(state).pragma_handlers@[i] == old(state).pragma_handlers@[i],
        // the handlers named are reset
        forall|i: int|
            0 <= i < old(state).pragma_handlers@.len() && names_handler(args@, old(state).pragma_handlers@[i].0@) ==> H::reset_from(old(state).pragma_handlers@[i].1, #[trigger] final(state).pragma_handlers@[i].1),
{
    reset_handlers(state, &args, false)
}

/// `` `pragma resetall ``: reset every handler
pub fn pragma_resetall<H: PragmaHandler>(state: &mut PreprocessorState<H>, args: Vec<PragmaExpression>)
    ensures
        final(state).files == old(state).files,
        final(state).defines == old(state).defines,
        final(state).errors == old(state).errors,
        final(state).curr_standard == old(state).curr_standard,
        final(state).settings == old(state).settings,
        final(state).budget == old(state).budget,
        final(state).mode == old(state).mode,
        final(state).pragma_handlers@.len() == old(state).pragma_handlers@.len(),
        forall|i: int|
            0 <= i < old(state).pragma_handlers@.len() ==> (#[trigger] final(state).pragma_handlers@[i]).0 == old(state).pragma_handlers@[i].0,
        // every handler is reset
        forall|i: int|
            0 <= i < old(state).pragma_handlers@.len() ==> H::reset_from(old(state).pragma_handlers@[i].1, #[trigger] final(state).pragma_handlers@[i].1),
{
    reset_handlers(state, &args, true)
}

fn reset_handlers<H: PragmaHandler>(
    state: &mut PreprocessorState<H>,
    args: &Vec<PragmaExpression>,
    all: bool,
)
    ensures
        final(state).files == old(state).files,
        final(state).defines == old(state).defines,
        final(state).errors == old(state).errors,
        final(state).curr_standard == old(state).curr_standard,
        final(state).settings == old(state).settings,
        final(state).budget == old(state).budget,
        final(state).mode == old(state).mode,
        final(state).pragma_handlers@.len() == old(state).pragma_handlers@.len(),
        forall|i: int|
            0 <= i < old(state).pragma_handlers@.len() ==> (#[trigger] final(state).pragma_handlers@[i]).0 == old(state).pragma_handlers@[i].0,
        // only the handlers reset are touched
        forall|i: int|
            0 <= i < old(state).pragma_handlers@.len() && !(all || names_handler(args@, old(state).pragma_handlers@[i].0@)) ==> #[trigger] final(state).pragma_handlers@[i] == old(state).pragma_handlers@[i],
        // every handler chosen is reset
        forall|i: int|
            0 <= i < old(state).pragma_handlers@.len() && (all || names_handler(args@, old(state).pragma_handlers@[i].0@)) ==> H::reset_from(old(state).pragma_handlers@[i].1, #[trigger] final(state).pragma_handlers@[i].1),
{
    let mut i: usize = 0;
    while i < state.pragma_handlers.len()
        invariant
            i <= state.pragma_handlers@.len(),
            state.files == old(state).files,
            state.defines == old(state).defines,
            state.errors == old(state).errors,
            state.curr_standard == old(state).curr_standard,
            state.settings == old(state).settings,
            state.budget == old(state).budget,
            state.mode == old(state).mode,
            state.pragma_handlers@.len() == old(state).pragma_handlers@.len(),
            forall|j: int|
                0 <= j < old(state).pragma_handlers@.len() ==> (#[trigger] state.pragma_handlers@[j]).0
                    == old(state).pragma_handlers@[j].0,
            forall|j: int|
                0 <= j < old(state).pragma_handlers@.len() && !(all || names_handler(
                    args@,
                    old(state).pragma_handlers@[j].0@,
                )) ==> #[trigger] state.pragma_handlers@[j] == old(state).pragma_handlers@[j],
            forall|j: int|
                i <= j < old(state).pragma_handlers@.len() ==> #[trigger] state.pragma_handlers@[j]
                    == old(state).pragma_handlers@[j],
            forall|j: int|
                0 <= j < i && (all || names_handler(args@, old(state).pragma_handlers@[j].0@)) ==> H::reset_from(
                    old(state).pragma_handlers@[j].1,
                    #[trigger] state.pragma_handlers@[j].1,
                ),
        decreases state.pragma_handlers.len() - i,
    {
        let chosen = all || named_in(args, &state.pragma_handlers[i].0);
        if chosen {
            let ghost before = state.pragma_handlers@;
            let (name, mut handler) = state.pragma_handlers.remove(i);
            let ghost h0 = handler;
            handler.reset();
            state.pragma_handlers.insert(i, (name, handler));
            proof {
                assert(h0 == before[i as int].1);
                assert(state.pragma_handlers@[i as int].1 == handler);
                assert forall|j: int| 0 <= j < before.len() && j != i implies #[trigger] state.pragma_handlers@[j]
                    == before[j] by {
                    if j < i {
                    } else {
                    }
                }
            }
        }
        i = i + 1;
    }
}

/// `` `pragma name expressions ``: `reset` and `resetall` reset handlers;
/// any other name calls the handler registered for it, if any
pub fn preprocess_pragma<H: PragmaHandler>(
    src: &mut TokenIterator,
    dest: &mut Vec<SpannedToken>,
    state: &mut PreprocessorState<H>,
    pragma_span: &Span,
) -> (r: Result<(), PreprocessorError>)
    ensures
        evolves(*old(state), *final(state)),
        final(state).curr_standard == old(state).curr_standard,
        final(state).settings == old(state).settings,
        r matches Err(e) ==> e.reportable(),
        // a pragma is named by an identifier
        old(state).budget > 0 && plain_next(old(src)@, old(state).budget - 2) ==> match next_plain_token(
            old(src)@,
            keyword_standard(old(state).curr_standard@),
        ) {
            None => r matches Err(PreprocessorError::IncompleteDirective { directive_span: s })
                && s == *pragma_span,
            // only a handler registered under the pragma's name writes output
            Some((TokenV::SimpleIdentifier(n), _)) => !handler_names(old(state).pragma_handlers@).contains(n)
                ==> final(dest)@ == old(dest)@,
            Some((t, sp)) => r matches Err(e) && expected_error(e, sp, Some(t), "a pragma name"),
        },
        // a pragma named by an identifier, in plain text up to the end of
        // its expressions: it succeeds exactly when these are well formed,
        // and then resets or calls the handlers as `pragma_done` says; the
        // stream goes on after the expressions
        ({
            let s = old(src)@;
            let std = keyword_standard(old(state).curr_standard@);
            let rest = s.skip(1);
            let e = pragma_end(rest, std);
            s.len() > 0 && s[0].0@ is SimpleIdentifier && plain_upto(s, e + 2) && old(state).budget > 3 * e
                + 12 ==> match pragma_args(rest, std) {
                Some(es) => {
                    let n = s[0].0@->SimpleIdentifier_0;
                    &&& r is Ok
                    &&& final(state).errors == old(state).errors
                    &&& resumes_at(final(src)@, rest, e, std)
                    &&& pragma_done(n, s[0].1, es, old(state).pragma_handlers@, final(state).pragma_handlers@)
                    &&& (n == reset_name() || n == resetall_name() || handler_from(
                        old(state).pragma_handlers@,
                        n,
                        0,
                    ) is None) ==> final(dest)@ == old(dest)@
                },
                None => r is Err && final(state).pragma_handlers == old(state).pragma_handlers && final(dest)@
                    == old(dest)@,
            }
        }),
    decreases old(state).budget, 0nat,
{
    let ghost s = src@;
    let ghost std = keyword_standard(state.curr_standard@);
    let ghost rest = s.skip(1);
    let ghost pe = pragma_end(rest, std);
    let ghost plain = s.len() > 0 && s[0].0@ is SimpleIdentifier && plain_upto(s, pe + 2) && old(state).budget > 3
        * pe + 12;
    let ghost hs0 = state.pragma_handlers@;
    proof {
        lemma_skip_block_comments(s, 0);
        lemma_parse_bounds(kinds_under(rest, std));
        if plain {
            assert(s[0] == s[0]);
            assert(!(s[0].0 is BlockComment));
            if rest.len() > 0 {
                assert(rest[0] == s[1]);
                assert(!(s[1].0 is BlockComment) && !(s[1].0 is TextMacro));
                lemma_skip_block_comments(rest, 0);
            }
            lemma_plain_skip(s, 1, pe + 1);
        }
    }
    if !state.spend() {
        return Err(PreprocessorError::StepLimit);
    }
    let ghost s0 = *state;
    let n = get_pragma_name(src, state, pragma_span);
    proof {
        lemma_evolves_trans(*old(state), s0, *state);
    }
    let (pragma_name, name_span) = match n {
        Ok(x) => x,
        Err(e) => {
            return Err(e);
        },
    };
    let ghost s1 = *state;
    proof {
        if plain {
            assert(src@ == rest);
        }
    }
    let c = check_for_expressions(src, state);
    proof {
        lemma_evolves_trans(*old(state), s1, *state);
    }
    let ghost f = src@;
    let pragma_args = if c? {
        let ghost s2 = *state;
        proof {
            if plain {
                lemma_kinds_resumed(f, rest, std);
                assert forall|i: int| 0 <= i < pe + 1 && i < f.len() implies !((#[trigger] f[i]).0 is BlockComment)
                    && !(f[i].0 is TextMacro) by {
                    if i > 0 {
                        assert(f.skip(1)[i - 1] == rest.skip(1)[i - 1]);
                        assert(rest[i] == rest.skip(1)[i - 1]);
                    } else {
                        assert(f[0].0@ == under_standard(rest[0].0@, std));
                    }
                }
            }
        }
        let e = get_pragma_expressions(src, state, pragma_span);
        proof {
            lemma_evolves_trans(*old(state), s2, *state);
            if plain && e is Ok {
                let fin = src@;
                if pe < rest.len() {
                    assert(f.skip(1)[pe - 1] == rest.skip(1)[pe - 1]);
                    assert(fin.skip(1) =~= rest.skip(pe + 1)) by {
                        assert(f.skip(pe + 1) =~= rest.skip(pe + 1)) by {
                            assert forall|i: int| 0 <= i < f.skip(pe + 1).len() implies #[trigger] f.skip(pe + 1)[i] == rest.skip(pe + 1)[i] by {
                                assert(f.skip(1)[pe + i] == rest.skip(1)[pe + i]);
                            }
                        }
                    }
                }
            }
        }
        e?
    } else {
        Vec::new()
    };
    proof {
        if plain {
            lemma_expressions_view(pragma_args@);
        }
    }
    let ghost s3 = *state;
    let ghost es = expressions_view(pragma_args@);
    let ghost n = pragma_name@;
    proof {
        if plain {
            assert(state.pragma_handlers@ == hs0);
            assert(n == s[0].0@->SimpleIdentifier_0);
            assert forall|nm: Seq<u8>| names_handler(pragma_args@, nm) == names_handler_v(es, nm) by {
                lemma_names_handler(pragma_args@, nm);
            }
        }
    }
    if is_reset_name(pragma_name.as_slice()) {
        pragma_reset(state, pragma_args);
        proof {
            assert(handler_names(state.pragma_handlers@) =~= handler_names(s3.pragma_handlers@));
        }
    } else if is_resetall_name(pragma_name.as_slice()) {
        pragma_resetall(state, pragma_args);
        proof {
            assert(handler_names(state.pragma_handlers@) =~= handler_names(s3.pragma_handlers@));
        }
    } else {
        let mut found: Option<usize> = None;
        let mut i: usize = 0;
        while i < state.pragma_handlers.len()
            invariant
                i <= state.pragma_handlers@.len(),
                state.pragma_handlers@ == s3.pragma_handlers@,
                found matches Some(j) ==> j < state.pragma_handlers@.len() && handler_from(
                    state.pragma_handlers@,
                    pragma_name@,
                    0,
                ) == Some(j as int),
                found is None ==> handler_from(state.pragma_handlers@, pragma_name@, 0) == handler_from(
                    state.pragma_handlers@,
                    pragma_name@,
                    i as int,
                ),
            decreases state.pragma_handlers.len() - i,
        {
            if found.is_none() && bytes_eq(state.pragma_handlers[i].0.as_slice(), pragma_name.as_slice()) {
                found = Some(i);
            }
            i = i + 1;
        }
        match found {
            Some(j) => {
                let ghost before = state.pragma_handlers@;
                proof {
                    lemma_handler_from(before, pragma_name@, 0);
                    assert(handler_names(before)[j as int] == pragma_name@);
                }
                let (name, mut handler) = state.pragma_handlers.remove(j);
                let ghost h0 = handler;
                handler.callback(pragma_name.as_slice(), &name_span, pragma_args, dest);
                state.pragma_handlers.insert(j, (name, handler));
                proof {
                    assert(h0 == before[j as int].1);
                    assert(state.pragma_handlers@[j as int].1 == handler);
                    assert(state.pragma_handlers@[j as int].0 == before[j as int].0);
                    assert forall|k: int| 0 <= k < before.len() && k != j implies #[trigger] state.pragma_handlers@[k]
                        == before[k] by {
                        if k < j {
                        } else {
                        }
                    }
                    assert(handler_names(state.pragma_handlers@) =~= handler_names(before));
                }
            },
            None => {},
        }
    }
    proof {
        assert(state.errors@.take(s3.errors@.len() as int) =~= s3.errors@);
        lemma_evolves_trans(*old(state), s3, *state);
    }
    Ok(())
}

} // verus!
