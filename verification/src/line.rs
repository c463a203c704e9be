//! `` `line ``, `` `__FILE__ `` and `` `__LINE__ ``

use crate::error::{expected, expected_error, PreprocessorError};
use crate::pragma::PragmaHandler;
use crate::preprocess::{
    lemma_skip_block_comments, next_plain_token, plain_next, preprocess_single, skip_block_comments,
    under_standard,
};
use crate::pragma::{kinds_under, plain_upto};
use crate::state::keyword_standard;
use crate::span::Span;
use crate::spanned_token::SpannedToken;
use crate::state::{evolves, lemma_evolves_trans, LineDirective, PreprocessorState};
use crate::token::{Token, TokenV};
use crate::token_iter::TokenIterator;
use crate::util::copy_bytes;
use vstd::prelude::*;

verus! {

/// The level of a `` `line `` directive
#[derive(Clone, Copy, Debug, PartialEq, Eq, Structural)]
pub enum LineDirectiveLevel {
    /// 1: the line begins an included file
    EnterInclude,
    /// 2: the line follows the end of an included file
    ExitInclude,
    /// 0: neither
    Other,
}

/// Read the line number of a `` `line ``
fn get_line_number<H: PragmaHandler>(
    src: &mut TokenIterator,
    state: &mut PreprocessorState<H>,
    directive_span: &Span,
) -> (r: Result<(Vec<u8>, Span), PreprocessorError>)
    ensures
        evolves(*old(state), *final(state)),
        final(state).curr_standard == old(state).curr_standard,
        final(state).settings == old(state).settings,
        r matches Err(e) ==> e.reportable(),
        plain_next(old(src)@, old(state).budget - 1) ==> match next_plain_token(
            old(src)@,
            keyword_standard(old(state).curr_standard@),
        ) {
            None => r matches Err(PreprocessorError::IncompleteDirective { directive_span: s })
                && s == *directive_span,
            Some((TokenV::UnsignedNumber(n), sp)) => r matches Ok((v, vs)) && v@ == n && vs == sp,
            Some((t, sp)) => r matches Err(e) && expected_error(e, sp, Some(t), "a line number"),
        },
        // the next token is taken, and nothing else changes
        plain_next(old(src)@, old(state).budget - 1) ==> {
            &&& skip_block_comments(old(src)@, 0) < old(src)@.len() ==> final(src)@ == old(src)@.skip(
                skip_block_comments(old(src)@, 0) + 1,
            )
            &&& final(state).budget == old(state).budget - (skip_block_comments(old(src)@, 0) + 2)
            &&& final(state).errors == old(state).errors
            &&& final(state).line_directives == old(state).line_directives
            &&& final(state).pragma_handlers == old(state).pragma_handlers
            &&& final(state).design_depth == old(state).design_depth
            &&& final(state).cell_define == old(state).cell_define
        },
    decreases old(state).budget, 0nat,
{
    proof {
        lemma_skip_block_comments(src@, 0);
    }
    if !state.spend() {
        return Err(PreprocessorError::StepLimit);
    }
    let ghost s0 = *state;
    let t = preprocess_single(src, state);
    proof {
        lemma_evolves_trans(*old(state), s0, *state);
    }
    match t {
        Err(e) => Err(e),
        Ok(None) => Err(PreprocessorError::IncompleteDirective { directive_span: directive_span.clone() }),
        Ok(Some(SpannedToken(Token::UnsignedNumber(num), num_span))) => Ok((num, num_span)),
        Ok(Some(SpannedToken(tok, span))) => Err(expected(span, Some(tok), "a line number")),
    }
}

/// Read the file name of a `` `line ``
fn get_line_file<H: PragmaHandler>(
    src: &mut TokenIterator,
    state: &mut PreprocessorState<H>,
    directive_span: &Span,
) -> (r: Result<(Vec<u8>, Span), PreprocessorError>)
    ensures
        evolves(*old(state), *final(state)),
        final(state).curr_standard == old(state).curr_standard,
        final(state).settings == old(state).settings,
        r matches Err(e) ==> e.reportable(),
        plain_next(old(src)@, old(state).budget - 1) ==> match next_plain_token(
            old(src)@,
            keyword_standard(old(state).curr_standard@),
        ) {
            None => r matches Err(PreprocessorError::IncompleteDirective { directive_span: s })
                && s == *directive_span,
            Some((TokenV::StringLiteral(n), sp)) => r matches Ok((v, vs)) && v@ == n && vs == sp,
            Some((t, sp)) => r matches Err(e) && expected_error(
                e,
                sp,
                Some(t),
                "a file name (as a string)",
            ),
        },
        // the next token is taken, and nothing else changes
        plain_next(old(src)@, old(state).budget - 1) ==> {
            &&& skip_block_comments(old(src)@, 0) < old(src)@.len() ==> final(src)@ == old(src)@.skip(
                skip_block_comments(old(src)@, 0) + 1,
            )
            &&& final(state).budget == old(state).budget - (skip_block_comments(old(src)@, 0) + 2)
            &&& final(state).errors == old(state).errors
            &&& final(state).line_directives == old(state).line_directives
            &&& final(state).pragma_handlers == old(state).pragma_handlers
            &&& final(state).design_depth == old(state).design_depth
            &&& final(state).cell_define == old(state).cell_define
        },
    decreases old(state).budget, 0nat,
{
    proof {
        lemma_skip_block_comments(src@, 0);
    }
    if !state.spend() {
        return Err(PreprocessorError::StepLimit);
    }
    let ghost s0 = *state;
    let t = preprocess_single(src, state);
    proof {
        lemma_evolves_trans(*old(state), s0, *state);
    }
    match t {
        Err(e) => Err(e),
        Ok(None) => Err(PreprocessorError::IncompleteDirective { directive_span: directive_span.clone() }),
        Ok(Some(SpannedToken(Token::StringLiteral(name), name_span))) => Ok((name, name_span)),
        Ok(Some(SpannedToken(tok, span))) => Err(expected(span, Some(tok), "a file name (as a string)")),
    }
}

/// The level a line-level number stands for
pub open spec fn line_level(num: Seq<u8>) -> Option<LineDirectiveLevel> {
    if num == seq!['0' as u8] {
        Some(LineDirectiveLevel::Other)
    } else if num == seq!['1' as u8] {
        Some(LineDirectiveLevel::EnterInclude)
    } else if num == seq!['2' as u8] {
        Some(LineDirectiveLevel::ExitInclude)
    } else {
        None
    }
}

/// Read the level of a `` `line ``: 0, 1 or 2
fn get_line_level<H: PragmaHandler>(
    src: &mut TokenIterator,
    state: &mut PreprocessorState<H>,
    directive_span: &Span,
) -> (r: Result<(LineDirectiveLevel, Span), PreprocessorError>)
    ensures
        evolves(*old(state), *final(state)),
        final(state).curr_standard == old(state).curr_standard,
        final(state).settings == old(state).settings,
        r matches Err(e) ==> e.reportable(),
        plain_next(old(src)@, old(state).budget - 1) ==> match next_plain_token(
            old(src)@,
            keyword_standard(old(state).curr_standard@),
        ) {
            None => r matches Err(PreprocessorError::IncompleteDirective { directive_span: s })
                && s == *directive_span,
            Some((TokenV::UnsignedNumber(n), sp)) => match line_level(n) {
                Some(l) => r == Ok::<(LineDirectiveLevel, Span), PreprocessorError>((l, sp)),
                None => r matches Err(e) && expected_error(
                    e,
                    sp,
                    Some(TokenV::UnsignedNumber(n)),
                    "a line level (0, 1, or 2)",
                ),
            },
            Some((t, sp)) => r matches Err(e) && expected_error(
                e,
                sp,
                Some(t),
                "a line level (0, 1, or 2)",
            ),
        },
        // the next token is taken, and nothing else changes
        plain_next(old(src)@, old(state).budget - 1) ==> {
            &&& skip_block_comments(old(src)@, 0) < old(src)@.len() ==> final(src)@ == old(src)@.skip(
                skip_block_comments(old(src)@, 0) + 1,
            )
            &&& final(state).budget == old(state).budget - (skip_block_comments(old(src)@, 0) + 2)
            &&& final(state).errors == old(state).errors
            &&& final(state).line_directives == old(state).line_directives
            &&& final(state).pragma_handlers == old(state).pragma_handlers
            &&& final(state).design_depth == old(state).design_depth
            &&& final(state).cell_define == old(state).cell_define
        },
    decreases old(state).budget, 0nat,
{
    proof {
        lemma_skip_block_comments(src@, 0);
    }
    if !state.spend() {
        return Err(PreprocessorError::StepLimit);
    }
    let ghost s0 = *state;
    let t = preprocess_single(src, state);
    proof {
        lemma_evolves_trans(*old(state), s0, *state);
    }
    match t {
        Err(e) => Err(e),
        Ok(None) => Err(PreprocessorError::IncompleteDirective { directive_span: directive_span.clone() }),
        Ok(Some(SpannedToken(Token::UnsignedNumber(num), num_span))) => {
            let level = if num.len() == 1 && num[0] == '0' as u8 {
                Some(LineDirectiveLevel::Other)
            } else if num.len() == 1 && num[0] == '1' as u8 {
                Some(LineDirectiveLevel::EnterInclude)
            } else if num.len() == 1 && num[0] == '2' as u8 {
                Some(LineDirectiveLevel::ExitInclude)
            } else {
                None
            };
            proof {
                if num@.len() == 1 {
                    assert(seq!['0' as u8][0] == '0' as u8);
                    assert(seq!['1' as u8][0] == '1' as u8);
                    assert(seq!['2' as u8][0] == '2' as u8);
                    if num@[0] == '0' as u8 {
                        assert(num@ =~= seq!['0' as u8]);
                    } else if num@[0] == '1' as u8 {
                        assert(num@ =~= seq!['1' as u8]);
                    } else if num@[0] == '2' as u8 {
                        assert(num@ =~= seq!['2' as u8]);
                    }
                }
                assert(level == line_level(num@));
            }
            match level {
                Some(l) => Ok((l, num_span)),
                None => Err(
                    expected(num_span, Some(Token::UnsignedNumber(num)), "a line level (0, 1, or 2)"),
                ),
            }
        },
        Ok(Some(SpannedToken(tok, span))) => Err(expected(span, Some(tok), "a line level (0, 1, or 2)")),
    }
}

/// `` `line number "file" level ``: from the next line on, lines are
/// counted from `number` in `file`
pub fn preprocess_line<H: PragmaHandler>(
    src: &mut TokenIterator,
    state: &mut PreprocessorState<H>,
    directive_span: &Span,
) -> (r: Result<(), PreprocessorError>)
    ensures
        evolves(*old(state), *final(state)),
        final(state).curr_standard == old(state).curr_standard,
        final(state).settings == old(state).settings,
        r matches Err(e) ==> e.reportable(),
        r is Ok ==> final(state).line_directives@.len() > 0
            && final(state).line_directives@.last().span == *directive_span,
        // on tokens read one by one, as they are: the first argument that
        // is missing or wrong decides the error; else the directive is
        // recorded
        ({
            let s = old(src)@;
            let k = kinds_under(s, keyword_standard(old(state).curr_standard@));
            plain_upto(s, 3) && old(state).budget > 8 ==> {
                &&& r is Err ==> final(state).line_directives == old(state).line_directives
                &&& final(state).pragma_handlers == old(state).pragma_handlers
                &&& final(state).design_depth == old(state).design_depth
                &&& final(state).cell_define == old(state).cell_define
                &&& (s.len() == 0 || (s.len() == 1 && line_arg_ok(0, k[0])) || (s.len() == 2
                    && line_arg_ok(0, k[0]) && line_arg_ok(1, k[1]))) ==> (r matches Err(
                    PreprocessorError::IncompleteDirective { directive_span: d },
                ) && d == *directive_span)
                &&& s.len() > 0 && !line_arg_ok(0, k[0]) ==> (r matches Err(e) && expected_error(
                    e,
                    s[0].1,
                    Some(k[0]),
                    "a line number",
                ))
                &&& s.len() > 1 && line_arg_ok(0, k[0]) && !line_arg_ok(1, k[1]) ==> (r matches Err(e)
                    && expected_error(e, s[1].1, Some(k[1]), "a file name (as a string)"))
                &&& s.len() > 2 && line_arg_ok(0, k[0]) && line_arg_ok(1, k[1]) && !line_arg_ok(
                    2,
                    k[2],
                ) ==> (r matches Err(e) && expected_error(
                    e,
                    s[2].1,
                    Some(k[2]),
                    "a line level (0, 1, or 2)",
                ))
                &&& s.len() > 2 && line_arg_ok(0, k[0]) && line_arg_ok(1, k[1]) && line_arg_ok(
                    2,
                    k[2],
                ) ==> {
                    &&& r is Ok
                    &&& final(src)@ == s.skip(3)
                    &&& final(state).errors == old(state).errors
                    &&& final(state).line_directives@.drop_last() == old(state).line_directives@
                    &&& k[0] matches TokenV::UnsignedNumber(n)
                        && final(state).line_directives@.last().line@ == n
                    &&& k[1] matches TokenV::StringLiteral(f)
                        && final(state).line_directives@.last().file_name@ == f
                }
            }
        }),
    decreases old(state).budget, 0nat,
{
    let ghost s = src@;
    let ghost std = keyword_standard(state.curr_standard@);
    let ghost k = kinds_under(s, std);
    let ghost simple = plain_upto(s, 3) && old(state).budget > 8;
    proof {
        lemma_skip_block_comments(s, 0);
        if s.len() > 0 {
            assert(k[0] == under_standard(s[0].0@, std));
        }
    }
    if !state.spend() {
        return Err(PreprocessorError::StepLimit);
    }
    let ghost s0 = *state;
    let num = get_line_number(src, state, directive_span);
    let ghost s1 = *state;
    proof {
        lemma_evolves_trans(*old(state), s0, s1);
        if simple && s.len() > 0 {
            assert(src@ =~= s.skip(1));
            lemma_skip_block_comments(src@, 0);
            if s.len() > 1 {
                assert(src@[0] == s[1]);
                assert(k[1] == under_standard(s[1].0@, std));
            }
        }
    }
    let (new_number, _) = num?;
    let file = get_line_file(src, state, directive_span);
    let ghost s2 = *state;
    proof {
        lemma_evolves_trans(*old(state), s1, s2);
        if simple && s.len() > 1 {
            assert(src@ =~= s.skip(2));
            lemma_skip_block_comments(src@, 0);
            if s.len() > 2 {
                assert(src@[0] == s[2]);
                assert(k[2] == under_standard(s[2].0@, std));
            }
        }
    }
    let (new_filename, _) = file?;
    let level = get_line_level(src, state, directive_span);
    proof {
        lemma_evolves_trans(*old(state), s2, *state);
        if simple && s.len() > 2 {
            assert(src@ =~= s.skip(3));
        }
    }
    let _ = level?;
    let ghost before = state.line_directives@;
    state.line_directives.push(
        LineDirective { span: directive_span.clone(), file_name: new_filename, line: new_number },
    );
    proof {
        assert(state.line_directives@.drop_last() =~= before);
    }
    Ok(())
}

/// Whether a token can stand as the argument at the given place of a
/// `` `line ``: a number, a file name, a level
pub open spec fn line_arg_ok(place: int, t: TokenV) -> bool {
    if place == 0 {
        t is UnsignedNumber
    } else if place == 1 {
        t is StringLiteral
    } else {
        t matches TokenV::UnsignedNumber(l) && line_level(l) is Some
    }
}

/// The decimal digits of a number
pub open spec fn decimal(n: nat) -> Seq<u8>
    decreases n,
{
    if n < 10 {
        seq![('0' as nat + n) as u8]
    } else {
        decimal(n / 10).push(('0' as nat + n % 10) as u8)
    }
}

pub fn decimal_exec(n: u128) -> (r: Vec<u8>)
    ensures
        r@ == decimal(n as nat),
    decreases n,
{
    if n < 10 {
        let mut v = Vec::new();
        v.push('0' as u8 + n as u8);
        assert(v@ =~= decimal(n as nat));
        v
    } else {
        let mut v = decimal_exec(n / 10);
        v.push('0' as u8 + (n % 10) as u8);
        v
    }
}

/// The number of line breaks in the first `n` bytes
pub open spec fn count_newlines(s: Seq<u8>, n: int) -> nat
    decreases n,
{
    if n <= 0 || n > s.len() {
        0
    } else {
        count_newlines(s, n - 1) + if s[n - 1] == '\n' as u8 {
            1nat
        } else {
            0nat
        }
    }
}

/// The value of the decimal digits of a number (its underscores are
/// skipped)
pub open spec fn digits_value(s: Seq<u8>) -> nat
    decreases s.len(),
{
    if s.len() == 0 {
        0
    } else if '0' as u8 <= s.last() <= '9' as u8 {
        digits_value(s.drop_last()) * 10 + (s.last() - '0' as u8) as nat
    } else {
        digits_value(s.drop_last())
    }
}

proof fn lemma_digits_value_prefix(s: Seq<u8>, j: int, k: int)
    requires
        0 <= j <= k <= s.len(),
    ensures
        digits_value(s.take(j)) <= digits_value(s.take(k)),
    decreases k - j,
{
    if j < k {
        lemma_digits_value_prefix(s, j, k - 1);
        assert(s.take(k).drop_last() =~= s.take(k - 1));
        let v = digits_value(s.take(k - 1));
        assert(v <= v * 10) by (nonlinear_arith);
    }
}

/// The value of a line number, if it is below 2^64
fn digits_value_exec(s: &[u8]) -> (r: Option<u64>)
    ensures
        match r {
            Some(v) => v == digits_value(s@),
            None => digits_value(s@) > u64::MAX,
        },
{
    let mut acc: u64 = 0;
    let mut i: usize = 0;
    while i < s.len()
        invariant
            i <= s.len(),
            acc == digits_value(s@.take(i as int)),
        decreases s.len() - i,
    {
        proof {
            assert(s@.take(i + 1).drop_last() =~= s@.take(i as int));
            assert(s@.take(i + 1).last() == s@[i as int]);
        }
        let b = s[i];
        if '0' as u8 <= b && b <= '9' as u8 {
            let d = (b - '0' as u8) as u64;
            if acc > (u64::MAX - d) / 10 {
                proof {
                    assert(acc * 10 + d > u64::MAX) by (nonlinear_arith)
                        requires
                            acc > (u64::MAX - d) / 10,
                            d <= 9,
                    ;
                    lemma_digits_value_prefix(s@, i + 1, s@.len() as int);
                    assert(s@.take(s@.len() as int) =~= s@);
                }
                return None;
            }
            proof {
                assert(acc * 10 + d <= u64::MAX) by (nonlinear_arith)
                    requires
                        acc <= (u64::MAX - d) / 10,
                        d <= 9,
                ;
            }
            acc = acc * 10 + d;
        }
        i = i + 1;
    }
    proof {
        assert(s@.take(s@.len() as int) =~= s@);
    }
    Some(acc)
}

/// The last `` `line `` directive, among the first `n`, in the same file as
/// `span` and before it
pub open spec fn last_directive(ds: Seq<LineDirective>, span: Span, n: int) -> Option<int>
    decreases n,
{
    if n <= 0 || n > ds.len() {
        None
    } else if ds[n - 1].span.file == span.file && ds[n - 1].span.end <= span.start {
        Some(n - 1)
    } else {
        last_directive(ds, span, n - 1)
    }
}

fn find_last_directive(ds: &Vec<LineDirective>, span: &Span) -> (r: Option<usize>)
    ensures
        match r {
            Some(i) => last_directive(ds@, *span, ds@.len() as int) == Some(i as int) && i
                < ds@.len() && ds@[i as int].span.end <= span.start,
            None => last_directive(ds@, *span, ds@.len() as int) is None,
        },
{
    let mut n: usize = ds.len();
    while n > 0
        invariant
            n <= ds@.len(),
            last_directive(ds@, *span, n as int) == last_directive(ds@, *span, ds@.len() as int),
        decreases n,
    {
        if ds[n - 1].span.file == span.file && ds[n - 1].span.end <= span.start {
            return Some(n - 1);
        }
        n = n - 1;
    }
    None
}

/// The line (counted from 1) on which a span starts in its file: after a
/// `` `line `` directive in that file, the line that follows the directive
/// has the number it gives, and lines are counted from there; else the
/// lines of the file are counted. As decimal digits (0 if the span is not
/// in a known file).
pub open spec fn line_of(
    files: Seq<crate::state::SourceFile>,
    ds: Seq<LineDirective>,
    span: Span,
) -> Seq<u8> {
    if span.file < files.len() && span.start <= files[span.file as int].contents@.len() {
        let c = files[span.file as int].contents@;
        match last_directive(ds, span, ds.len() as int) {
            Some(i) => if digits_value(ds[i].line@) <= u64::MAX {
                let total = digits_value(ds[i].line@) + count_newlines(c, span.start as int)
                    - count_newlines(c, ds[i].span.end as int);
                decimal(if total >= 1 {
                    (total - 1) as nat
                } else {
                    0
                })
            } else {
                decimal(count_newlines(c, span.start as int) + 1)
            },
            None => decimal(count_newlines(c, span.start as int) + 1),
        }
    } else {
        decimal(0)
    }
}

proof fn lemma_count_newlines_mono(s: Seq<u8>, j: int, k: int)
    requires
        0 <= j <= k <= s.len(),
    ensures
        count_newlines(s, j) <= count_newlines(s, k),
        count_newlines(s, k) <= k,
    decreases k,
{
    if k > 0 {
        if j < k {
            lemma_count_newlines_mono(s, j, k - 1);
        } else {
            lemma_count_newlines_mono(s, j - 1, k - 1);
        }
    }
}

fn count_newlines_exec(c: &Vec<u8>, n: usize) -> (r: u64)
    requires
        n <= c@.len(),
    ensures
        r == count_newlines(c@, n as int),
{
    let mut count: u64 = 0;
    let mut i: usize = 0;
    while i < n
        invariant
            i <= n <= c@.len(),
            count == count_newlines(c@, i as int),
            count <= i,
        decreases n - i,
    {
        if c[i] == '\n' as u8 {
            count = count + 1;
        }
        i = i + 1;
    }
    count
}

/// `` `__LINE__ ``: the line on which the span starts
pub fn line_text<H>(state: &PreprocessorState<H>, span: &Span) -> (r: Vec<u8>)
    ensures
        r@ == line_of(state.files@, state.line_directives@, *span),
{
    if span.file < state.files.len() && span.start <= state.files[span.file].contents.len() {
        let contents = &state.files[span.file].contents;
        let here = count_newlines_exec(contents, span.start);
        match find_last_directive(&state.line_directives, span) {
            Some(i) => {
                let d = &state.line_directives[i];
                match digits_value_exec(d.line.as_slice()) {
                    Some(v) => {
                        let there = count_newlines_exec(contents, d.span.end);
                        proof {
                            lemma_count_newlines_mono(contents@, d.span.end as int, span.start as int);
                        }
                        let total: u128 = v as u128 + here as u128 - there as u128;
                        if total >= 1 {
                            decimal_exec(total - 1)
                        } else {
                            decimal_exec(0)
                        }
                    },
                    None => decimal_exec(here as u128 + 1),
                }
            },
            None => decimal_exec(here as u128 + 1),
        }
    } else {
        decimal_exec(0)
    }
}

/// The name of the file a span is in, as the last `` `line `` directive
/// before it in its file gives it, or else as the file is known (empty if
/// it is not in a known file)
pub open spec fn file_name_of(
    files: Seq<crate::state::SourceFile>,
    ds: Seq<LineDirective>,
    span: Span,
) -> Seq<u8> {
    match last_directive(ds, span, ds.len() as int) {
        Some(i) => ds[i].file_name@,
        None => if span.file < files.len() {
            files[span.file as int].name@
        } else {
            Seq::empty()
        },
    }
}

/// `` `__FILE__ ``: the name of the file the span is in
pub fn file_name<H>(state: &PreprocessorState<H>, span: &Span) -> (r: Vec<u8>)
    ensures
        r@ == file_name_of(state.files@, state.line_directives@, *span),
{
    match find_last_directive(&state.line_directives, span) {
        Some(i) => copy_bytes(state.line_directives[i].file_name.as_slice()),
        None => if span.file < state.files.len() {
            copy_bytes(state.files[span.file].name.as_slice())
        } else {
            Vec::new()
        },
    }
}

} // verus!
