//! Conditional compilation: `` `ifdef ``, `` `ifndef ``, `` `elsif ``,
//! `` `else `` and `` `endif ``

use crate::error::{expected, expected_error, PreprocessorError};
use crate::pragma::PragmaHandler;
use crate::preprocess::{
    branch_signal, dropped, ends_branch, first_stop, kept, lemma_first_stop, passes_through,
    preprocess_helper,
};
use crate::state::keyword_standard;
use crate::keywords::KeywordStandard;
use crate::span::Span;
use crate::spanned_token::SpannedToken;
use crate::state::{define_index, evolves, lemma_evolves_trans, Define, Mode, PreprocessorState};
use crate::token::{Directive, Token, TokenV};
use crate::spanned_token::view_tokens;
use crate::token_iter::TokenIterator;
use vstd::prelude::*;

verus! {

/// The name a token gives a macro in a directive: an identifier, or a
/// keyword's text
pub open spec fn macro_name(t: TokenV) -> Option<Seq<u8>> {
    match t {
        TokenV::SimpleIdentifier(n) => Some(n),
        TokenV::Keyword(k) => Some(k.bytes()),
        _ => None,
    }
}

/// Read the macro name of `` `ifdef ``, `` `ifndef `` or `` `elsif ``, and
/// say whether that macro is defined
pub fn read_condition<H>(
    src: &mut TokenIterator,
    state: &PreprocessorState<H>,
    directive_span: &Span,
) -> (r: Result<bool, PreprocessorError>)
    ensures
        r matches Err(e) ==> e.reportable(),
        old(src)@.len() == 0 ==> (r matches Err(PreprocessorError::IncompleteDirective {
            directive_span: s,
        }) && s == *directive_span && final(src)@ == old(src)@),
        old(src)@.len() > 0 ==> final(src)@ == old(src)@.drop_first() && match macro_name(
            old(src)@[0].0@,
        ) {
            Some(n) => r == Ok::<bool, PreprocessorError>(define_index(state.defines@, n) is Some),
            None => r matches Err(e) && expected_error(
                e,
                old(src)@[0].1,
                Some(old(src)@[0].0@),
                "a macro name",
            ),
        },
{
    match src.next() {
        None => Err(PreprocessorError::IncompleteDirective { directive_span: directive_span.clone() }),
        Some(t) => match &t.0 {
            Token::SimpleIdentifier(n) => Ok(state.lookup_define(n.as_slice()).is_some()),
            Token::Keyword(k) => Ok(state.lookup_define(k.as_str().as_bytes()).is_some()),
            _ => {
                let SpannedToken(tok, span) = t;
                Err(expected(span, Some(tok), "a macro name"))
            },
        },
    }
}

pub open spec fn opens_conditional(t: TokenV) -> bool {
    t == TokenV::Directive(Directive::Ifdef) || t == TokenV::Directive(Directive::Ifndef)
}

/// The position of the `` `endif `` that closes the conditional `depth`
/// levels out, at or after `i`
pub open spec fn matching_endif(s: Seq<SpannedToken>, i: int, depth: nat) -> Option<int>
    decreases s.len() - i,
{
    if i < 0 || i >= s.len() {
        None
    } else if opens_conditional(s[i].0@) {
        matching_endif(s, i + 1, depth + 1)
    } else if s[i].0@ == TokenV::Directive(Directive::Endif) {
        if depth == 0 {
            Some(i)
        } else {
            matching_endif(s, i + 1, (depth - 1) as nat)
        }
    } else {
        matching_endif(s, i + 1, depth)
    }
}

fn conditional_edge(t: &Token) -> (r: u8)
    ensures
        r == 1 <==> opens_conditional(t@),
        r == 2 <==> t@ == TokenV::Directive(Directive::Endif),
        r == 3 <==> t@ == TokenV::Directive(Directive::Else),
        r == 4 <==> t@ == TokenV::Directive(Directive::Elsif),
        r <= 4,
{
    match t {
        Token::Directive(Directive::Ifdef) | Token::Directive(Directive::Ifndef) => 1,
        Token::Directive(Directive::Endif) => 2,
        Token::Directive(Directive::Else) => 3,
        Token::Directive(Directive::Elsif) => 4,
        _ => 0,
    }
}

/// Skip the tokens of a conditional up to and including its `` `endif ``
/// (nested conditionals are skipped whole)
pub fn skip_to_endif(src: &mut TokenIterator, ifdef_span: &Span) -> (r: Result<(), PreprocessorError>)
    ensures
        match matching_endif(old(src)@, 0, 0) {
            Some(j) => r is Ok && final(src)@ == old(src)@.skip(j + 1),
            None => r matches Err(PreprocessorError::NoEndif { ifdef_span: s }) && s == *ifdef_span
                && final(src)@.len() == 0,
        },
{
    let ghost orig = src@;
    let ghost mut pos: int = 0;
    let mut depth: usize = 0;
    let n = src.len();
    loop
        invariant
            0 <= pos <= orig.len(),
            orig == old(src)@,
            n == orig.len(),
            depth <= pos,
            src@ == orig.skip(pos),
            matching_endif(orig, pos, depth as nat) == matching_endif(orig, 0, 0),
        decreases src@.len(),
    {
        let t = match src.next() {
            Some(t) => t,
            None => {
                assert(pos == orig.len());
                assert(matching_endif(orig, pos, depth as nat) is None);
                return Err(PreprocessorError::NoEndif { ifdef_span: ifdef_span.clone() });
            },
        };
        proof {
            assert(t == orig[pos]);
            assert(src@ =~= orig.skip(pos + 1));
        }
        let edge = conditional_edge(&t.0);
        if edge == 1 {
            depth = depth + 1;
        } else if edge == 2 {
            if depth == 0 {
                assert(matching_endif(orig, pos, 0) == Some(pos));
                return Ok(());
            }
            depth = depth - 1;
        }
        proof {
            pos = pos + 1;
        }
    }
}

} // verus!

verus! {

/// Where a taken branch whose first `m` tokens pass through ends: at the
/// `` `endif ``, or past the `` `endif `` after its `` `else `` or
/// `` `elsif ``; without one, the conditional is unclosed
pub open spec fn taken_branch_end(
    s: Seq<SpannedToken>,
    m: int,
    ifdef_span: Span,
    r: Result<(), PreprocessorError>,
    rest: Seq<SpannedToken>,
) -> bool {
    if m >= s.len() {
        r matches Err(PreprocessorError::NoEndif { ifdef_span: x }) && x == ifdef_span
    } else if s[m].0@ == TokenV::Directive(Directive::Endif) {
        r is Ok && rest == s.skip(m + 1)
    } else {
        match matching_endif(s.skip(m + 1), 0, 0) {
            Some(j) => r is Ok && rest == s.skip(m + 1).skip(j + 1),
            None => r matches Err(PreprocessorError::NoEndif { ifdef_span: x }) && x == ifdef_span,
        }
    }
}

/// Preprocess the branch taken, up to its `` `else ``, `` `elsif `` or
/// `` `endif ``; the branches after it are skipped
fn take_branch<H: PragmaHandler>(
    src: &mut TokenIterator,
    dest: &mut Vec<SpannedToken>,
    state: &mut PreprocessorState<H>,
    ifdef_span: &Span,
) -> (r: Result<(), PreprocessorError>)
    requires
        old(state).mode == Mode::Normal,
    ensures
        evolves(*old(state), *final(state)),
        r matches Err(e) ==> e.reportable(),
        // a branch whose tokens pass through, up to its end
        ({
            let s = old(src)@;
            let m = first_stop(s, keyword_standard(old(state).curr_standard@), 0);
            old(state).budget > m + 3 && (m < s.len() ==> ends_branch(s[m].0@)) ==> {
                &&& final(dest)@ == old(dest)@ + kept(s.take(m))
                &&& final(state).errors == old(state).errors
                &&& final(state).defines == old(state).defines
                &&& final(state).curr_standard == old(state).curr_standard
                &&& final(state).settings == old(state).settings
                &&& old(state).budget - final(state).budget <= m + 4
                &&& taken_branch_end(s, m, *ifdef_span, r, final(src)@)
            }
        }),
    decreases old(state).budget, 0nat,
{
    proof {
        lemma_first_stop(src@, keyword_standard(state.curr_standard@), 0);
    }
    if !state.spend() {
        return Err(PreprocessorError::StepLimit);
    }
    let ghost mid = *state;
    let res = preprocess_helper(src, dest, state);
    proof {
        lemma_evolves_trans(*old(state), mid, *state);
    }
    match res {
        Ok(()) => Err(PreprocessorError::NoEndif { ifdef_span: ifdef_span.clone() }),
        Err(PreprocessorError::Endif { .. }) => Ok(()),
        Err(PreprocessorError::Else { .. }) | Err(PreprocessorError::Elsif { .. }) => skip_to_endif(
            src,
            ifdef_span,
        ),
        Err(e) => Err(e),
    }
}

/// The position of the `` `else ``, `` `elsif `` or `` `endif `` that ends
/// the branch `depth` levels out, at or after `i` (nested conditionals are
/// passed over whole)
pub open spec fn branch_end(s: Seq<SpannedToken>, i: int, depth: nat) -> Option<int>
    decreases s.len() - i,
{
    if i < 0 || i >= s.len() {
        None
    } else if opens_conditional(s[i].0@) {
        branch_end(s, i + 1, depth + 1)
    } else if s[i].0@ == TokenV::Directive(Directive::Endif) {
        if depth == 0 {
            Some(i)
        } else {
            branch_end(s, i + 1, (depth - 1) as nat)
        }
    } else if depth == 0 && (s[i].0@ == TokenV::Directive(Directive::Else) || s[i].0@
        == TokenV::Directive(Directive::Elsif)) {
        Some(i)
    } else {
        branch_end(s, i + 1, depth)
    }
}

/// Whether a branch not taken ends at its `` `endif ``, or not at all
pub open spec fn ends_at_endif(s: Seq<SpannedToken>) -> bool {
    match branch_end(s, 0, 0) {
        Some(j) => s[j].0@ == TokenV::Directive(Directive::Endif),
        None => true,
    }
}

/// Skip a branch not taken, up to the `` `else `` or `` `elsif `` whose
/// branch is taken, or the `` `endif ``
fn skip_branch<H: PragmaHandler>(
    src: &mut TokenIterator,
    dest: &mut Vec<SpannedToken>,
    state: &mut PreprocessorState<H>,
    ifdef_span: &Span,
) -> (r: Result<(), PreprocessorError>)
    requires
        old(state).mode == Mode::Normal,
    ensures
        evolves(*old(state), *final(state)),
        r matches Err(e) ==> e.reportable(),
        // a branch that runs to the `endif` is skipped whole
        old(state).budget > 0 && ends_at_endif(old(src)@) ==> match branch_end(old(src)@, 0, 0) {
            Some(j) => r is Ok && final(src)@ == old(src)@.skip(j + 1) && final(dest)@ == old(
                dest,
            )@ && final(state).errors == old(state).errors && final(state).defines == old(
                state,
            ).defines && final(state).curr_standard == old(state).curr_standard
                && final(state).settings == old(state).settings && old(state).budget
                - final(state).budget <= 1,
            None => r matches Err(PreprocessorError::NoEndif { ifdef_span: s }) && s == *ifdef_span
                && final(src)@.len() == 0 && final(dest)@ == old(dest)@,
        },
        // a branch that runs to an `else` is skipped, and the `else` branch
        // taken
        ({
            let s = old(src)@;
            match branch_end(s, 0, 0) {
                Some(j) => {
                    let rest = s.skip(j + 1);
                    let m = first_stop(rest, keyword_standard(old(state).curr_standard@), 0);
                    s[j].0@ == TokenV::Directive(Directive::Else) && old(state).budget > m + 4 && (m
                        < rest.len() ==> ends_branch(rest[m].0@)) ==> {
                        &&& final(dest)@ == old(dest)@ + kept(rest.take(m))
                        &&& final(state).errors == old(state).errors
                        &&& final(state).defines == old(state).defines
                        &&& final(state).curr_standard == old(state).curr_standard
                        &&& final(state).settings == old(state).settings
                        &&& old(state).budget - final(state).budget <= m + 5
                        &&& taken_branch_end(rest, m, *ifdef_span, r, final(src)@)
                    }
                },
                None => true,
            }
        }),
        // a branch that runs to an `elsif`: the rest is a conditional on
        // the macro the `elsif` names
        ({
            let s = old(src)@;
            match branch_end(s, 0, 0) {
                Some(j) => s[j].0@ == TokenV::Directive(Directive::Elsif) ==> match flat_conditional(
                    s.skip(j + 1),
                    true,
                    old(state).defines@,
                    keyword_standard(old(state).curr_standard@),
                ) {
                    Some((out, n)) => old(state).budget > n + 6 ==> {
                        &&& r is Ok
                        &&& final(src)@ == s.skip(j + 1 + n)
                        &&& final(dest)@ == old(dest)@ + out
                        &&& final(state).errors == old(state).errors
                        &&& final(state).defines == old(state).defines
                        &&& final(state).curr_standard == old(state).curr_standard
                        &&& final(state).settings == old(state).settings
                        &&& old(state).budget - final(state).budget <= n + 6
                    },
                    None => true,
                },
                None => true,
            }
        }),
    decreases old(state).budget, 0nat,
{
    let ghost orig = src@;
    proof {
        lemma_branch_end_range(orig, 0, 0);
        match branch_end(orig, 0, 0) {
            Some(j) => {
                lemma_first_stop(orig.skip(j + 1), keyword_standard(state.curr_standard@), 0);
                lemma_flat_conditional_size(orig.skip(j + 1), true, state.defines@, keyword_standard(
                    state.curr_standard@,
                ));
            },
            None => {},
        }
    }
    let ghost mut pos: int = 0;
    if !state.spend() {
        return Err(PreprocessorError::StepLimit);
    }
    proof {
        assert(orig.skip(0) =~= orig);
    }
    let mut depth: usize = 0;
    let n = src.len();
    loop
        invariant
            evolves(*old(state), *state),
            state.mode == Mode::Normal,
            state.budget < old(state).budget,
            depth as int + src@.len() <= n,
            orig == old(src)@,
            n == orig.len(),
            old(state).budget > 0 ==> state.budget == old(state).budget - 1,
            state.curr_standard == old(state).curr_standard,
            0 <= pos <= orig.len(),
            depth <= pos,
            src@ == orig.skip(pos),
            branch_end(orig, pos, depth as nat) == branch_end(orig, 0, 0),
            dest@ == old(dest)@,
            state.errors == old(state).errors,
            state.defines == old(state).defines,
            state.settings == old(state).settings,
        decreases src@.len(),
    {
        let t = match src.next() {
            Some(t) => t,
            None => {
                proof {
                    {
                        assert(pos == orig.len());
                    }
                }
                return Err(PreprocessorError::NoEndif { ifdef_span: ifdef_span.clone() });
            },
        };
        proof {
            {
                assert(t == orig[pos]);
                assert(src@ =~= orig.skip(pos + 1));
            }
        }
        let edge = conditional_edge(&t.0);
        if edge == 1 {
            depth = depth + 1;
        } else if edge == 2 {
            if depth == 0 {
                proof {
                    {
                        assert(branch_end(orig, pos, 0) == Some(pos));
                    }
                }
                return Ok(());
            }
            depth = depth - 1;
        } else if edge == 3 && depth == 0 {
            proof {
                {
                    assert(branch_end(orig, pos, 0) == Some(pos));
                    lemma_first_stop(orig.skip(pos + 1), keyword_standard(state.curr_standard@), 0);
                }
            }
            let ghost mid = *state;
            let r = take_branch(src, dest, state, ifdef_span);
            proof {
                lemma_evolves_trans(*old(state), mid, *state);
            }
            return r;
        } else if edge == 4 && depth == 0 {
            proof {
                assert(branch_end(orig, pos, 0) == Some(pos));
            }
            // the rest is a conditional on the macro the `elsif` names
            let ghost mid = *state;
            let r = preprocess_ifdef(src, dest, state, &t.1, ifdef_span, true);
            proof {
                lemma_evolves_trans(*old(state), mid, *state);
                lemma_flat_conditional_size(orig.skip(pos + 1), true, old(state).defines@, keyword_standard(
                    old(state).curr_standard@,
                ));
                match flat_conditional(orig.skip(pos + 1), true, old(state).defines@, keyword_standard(
                    old(state).curr_standard@,
                )) {
                    Some((out, n)) => {
                        assert(orig.skip(pos + 1).skip(n) =~= orig.skip(pos + 1 + n));
                    },
                    None => {},
                }
            }
            return r;
        }
        proof {
            pos = pos + 1;
        }
    }
}

/// Whether the condition of `` `ifdef `` (`is_ifdef`) or `` `ifndef ``
/// on the macro named by `t` holds
pub open spec fn condition_holds(defines: Seq<Define>, t: TokenV, is_ifdef: bool) -> bool {
    match macro_name(t) {
        Some(n) => (define_index(defines, n) is Some) == is_ifdef,
        None => true,
    }
}

/// How many tokens of `s` a taken branch whose first `m` tokens pass
/// through takes, with the rest of its conditional: up to its
/// `` `endif ``, or past the `` `endif `` after its `` `else `` or
/// `` `elsif `` (`None` where the branch does not end at `m`, or the
/// conditional is unclosed)
pub open spec fn branch_rest(s: Seq<SpannedToken>, m: int) -> Option<int> {
    if 0 <= m < s.len() && ends_branch(s[m].0@) {
        if s[m].0@ == TokenV::Directive(Directive::Endif) {
            Some(m + 1)
        } else {
            match matching_endif(s.skip(m + 1), 0, 0) {
                Some(j) => Some(m + 1 + j + 1),
                None => None,
            }
        }
    } else {
        None
    }
}

/// A conditional whose branches hold tokens that pass through, read
/// after its directive (`is_ifdef`: `` `ifdef ``, else `` `ifndef ``) from
/// its macro name on: the tokens it keeps (those of the branch whose
/// condition holds, the first of its `` `elsif `` branches whose macro is
/// defined, or its `` `else ``), and how many tokens it takes
#[verifier::opaque]
pub open spec fn flat_conditional(
    s: Seq<SpannedToken>,
    is_ifdef: bool,
    defines: Seq<Define>,
    standard: KeywordStandard,
) -> Option<(Seq<SpannedToken>, int)>
    decreases s.len(),
{
    if s.len() == 0 || macro_name(s[0].0@) is None {
        None
    } else {
        let body = s.skip(1);
        if condition_holds(defines, s[0].0@, is_ifdef) {
            let m = first_stop(body, standard, 0);
            match branch_rest(body, m) {
                Some(n) => Some((kept(body.take(m)), 1 + n)),
                None => None,
            }
        } else {
            match branch_end(body, 0, 0) {
                Some(j) => if body[j].0@ == TokenV::Directive(Directive::Endif) {
                    Some((Seq::empty(), j + 2))
                } else if body[j].0@ == TokenV::Directive(Directive::Else) {
                    let after = body.skip(j + 1);
                    let m = first_stop(after, standard, 0);
                    match branch_rest(after, m) {
                        Some(n) => Some((kept(after.take(m)), j + 2 + n)),
                        None => None,
                    }
                } else if body[j].0@ == TokenV::Directive(Directive::Elsif) && 0 <= j < body.len() {
                    // the rest is a conditional on the macro the `elsif` names
                    match flat_conditional(body.skip(j + 1), true, defines, standard) {
                        Some((out, n)) => Some((out, j + 2 + n)),
                        None => None,
                    }
                } else {
                    None
                },
                None => None,
            }
        }
    }
}

/// What ordinary text made of tokens that pass through and of
/// conditionals whose branches hold such tokens becomes: the tokens kept,
/// and of each conditional the branch kept (`None` for other text)
#[verifier::opaque]
pub open spec fn flat_text(
    s: Seq<SpannedToken>,
    defines: Seq<Define>,
    standard: KeywordStandard,
) -> Option<Seq<SpannedToken>>
    decreases s.len(),
{
    let m = first_stop(s, standard, 0);
    if m < 0 || m >= s.len() {
        Some(kept(s))
    } else if opens_conditional(s[m].0@) {
        match flat_conditional(
            s.skip(m + 1),
            s[m].0@ == TokenV::Directive(Directive::Ifdef),
            defines,
            standard,
        ) {
            Some((out, n)) => if 0 <= n && m + 1 + n <= s.len() {
                match flat_text(s.skip(m + 1 + n), defines, standard) {
                    Some(x) => Some(kept(s.take(m)) + out + x),
                    None => None,
                }
            } else {
                None
            },
            None => None,
        }
    } else {
        None
    }
}

/// The tokens kept of a sequence with one more token in front
pub proof fn lemma_kept_cons(a: SpannedToken, u: Seq<SpannedToken>)
    ensures
        kept(seq![a] + u) == if dropped(a.0@) {
            kept(u)
        } else {
            seq![a] + kept(u)
        },
    decreases u.len(),
{
    if u.len() == 0 {
        assert(seq![a] + u =~= seq![a]);
        assert(seq![a].drop_last() =~= Seq::<SpannedToken>::empty());
        assert(kept(Seq::<SpannedToken>::empty()) == Seq::<SpannedToken>::empty());
        assert(Seq::<SpannedToken>::empty().push(a) =~= seq![a]);
        assert(seq![a] + Seq::<SpannedToken>::empty() =~= seq![a]);
    } else {
        lemma_kept_cons(a, u.drop_last());
        assert((seq![a] + u).drop_last() =~= seq![a] + u.drop_last());
        assert((seq![a] + u).last() == u.last());
        if !dropped(a.0@) {
            assert((seq![a] + kept(u.drop_last())).push(u.last()) =~= seq![a] + kept(u.drop_last()).push(
                u.last(),
            ));
        }
    }
}

/// Looking for the first stop one token further in is looking in the
/// stream without its first token
pub proof fn lemma_first_stop_shift(s: Seq<SpannedToken>, standard: KeywordStandard, i: int)
    requires
        s.len() > 0,
        0 <= i,
    ensures
        first_stop(s, standard, i + 1) == 1 + first_stop(s.skip(1), standard, i),
    decreases s.len() - i,
{
    if i + 1 < s.len() {
        assert(s.skip(1)[i] == s[i + 1]);
        if passes_through(s[i + 1].0@, standard) {
            lemma_first_stop_shift(s, standard, i + 1);
        }
    }
}

/// A conditional takes at least its macro name and its `` `endif ``, and
/// no more tokens than there are
pub proof fn lemma_flat_conditional_size(
    s: Seq<SpannedToken>,
    is_ifdef: bool,
    defines: Seq<Define>,
    standard: KeywordStandard,
)
    ensures
        flat_conditional(s, is_ifdef, defines, standard) matches Some((out, n)) ==> 2 <= n <= s.len(),
    decreases s.len(),
{
    reveal(flat_conditional);
    if s.len() > 0 {
        let body = s.skip(1);
        lemma_first_stop(body, standard, 0);
        lemma_branch_rest(body, first_stop(body, standard, 0), Span::plain(0, 0, 0), Ok(()), body);
        lemma_branch_end_range(body, 0, 0);
        match branch_end(body, 0, 0) {
            Some(j) => {
                let after = body.skip(j + 1);
                lemma_first_stop(after, standard, 0);
                lemma_branch_rest(after, first_stop(after, standard, 0), Span::plain(0, 0, 0), Ok(()), after);
                if 0 <= j < body.len() {
                    lemma_flat_conditional_size(after, true, defines, standard);
                }
            },
            None => {},
        }
    }
}

/// Empty text gives nothing
pub proof fn lemma_flat_text_empty(defines: Seq<Define>, standard: KeywordStandard)
    ensures
        flat_text(Seq::<SpannedToken>::empty(), defines, standard) == Some(Seq::<SpannedToken>::empty()),
{
    reveal(flat_text);
    assert(kept(Seq::<SpannedToken>::empty()) == Seq::<SpannedToken>::empty());
}

/// Tokens that are no directives are passed over when looking for the
/// `` `endif `` of a conditional, or the end of a branch
pub proof fn lemma_ends_skip_plain(s: Seq<SpannedToken>, i: int, k: int, depth: nat)
    requires
        0 <= i <= k <= s.len(),
        forall|j: int| i <= j < k ==> !(#[trigger] s[j].0@ is Directive),
    ensures
        matching_endif(s, i, depth) == matching_endif(s, k, depth),
        branch_end(s, i, depth) == branch_end(s, k, depth),
    decreases k - i,
{
    if i < k {
        assert(!(s[i].0@ is Directive));
        lemma_ends_skip_plain(s, i + 1, k, depth);
    }
}

/// Where every token before position `k` passes through and the one at
/// `k` does not, `k` is the first stop
pub proof fn lemma_first_stop_at(s: Seq<SpannedToken>, standard: KeywordStandard, k: int)
    requires
        0 <= k <= s.len(),
        forall|j: int| 0 <= j < k ==> passes_through(#[trigger] s[j].0@, standard),
        k < s.len() ==> !passes_through(s[k].0@, standard),
    ensures
        first_stop(s, standard, 0) == k,
{
    lemma_first_stop(s, standard, 0);
    let f = first_stop(s, standard, 0);
    if f < k {
        assert(passes_through(s[f].0@, standard));
    } else if f > k {
        assert(passes_through(s[k].0@, standard));
    }
}

/// One step of reading such text: a token that passes through, or a
/// whole conditional
#[verifier::rlimit(40)]
pub proof fn lemma_flat_text_step(t: Seq<SpannedToken>, defines: Seq<Define>, standard: KeywordStandard)
    requires
        t.len() > 0,
        flat_text(t, defines, standard) is Some,
    ensures
        passes_through(t[0].0@, standard) ==> {
            &&& flat_text(t.skip(1), defines, standard) is Some
            &&& flat_text(t, defines, standard)->0 == if dropped(t[0].0@) {
                flat_text(t.skip(1), defines, standard)->0
            } else {
                seq![t[0]] + flat_text(t.skip(1), defines, standard)->0
            }
        },
        !passes_through(t[0].0@, standard) ==> {
            &&& opens_conditional(t[0].0@)
            &&& flat_conditional(
                t.skip(1),
                t[0].0@ == TokenV::Directive(Directive::Ifdef),
                defines,
                standard,
            ) matches Some((out, n)) && 2 <= n && 1 + n <= t.len() && flat_text(
                t.skip(1 + n),
                defines,
                standard,
            ) is Some && flat_text(t, defines, standard)->0 == out + flat_text(
                t.skip(1 + n),
                defines,
                standard,
            )->0
        },
{
    reveal(flat_text);
    let u = t.skip(1);
    let m = first_stop(t, standard, 0);
    lemma_first_stop(t, standard, 0);
    if passes_through(t[0].0@, standard) {
        lemma_first_stop_shift(t, standard, 0);
        lemma_first_stop(u, standard, 0);
        assert(t =~= seq![t[0]] + u);
        if m >= t.len() {
            lemma_kept_cons(t[0], u);
        } else {
            let m1 = m - 1;
            assert(u[m1] == t[m]);
            assert(u.skip(m1 + 1) =~= t.skip(m + 1));
            match flat_conditional(
                t.skip(m + 1),
                t[m].0@ == TokenV::Directive(Directive::Ifdef),
                defines,
                standard,
            ) {
                Some((out, n)) => {
                    assert(u.skip(m1 + 1 + n) =~= t.skip(m + 1 + n));
                    assert(t.take(m) =~= seq![t[0]] + u.take(m1));
                    lemma_kept_cons(t[0], u.take(m1));
                    let x = flat_text(t.skip(m + 1 + n), defines, standard)->0;
                    if !dropped(t[0].0@) {
                        assert(seq![t[0]] + kept(u.take(m1)) + out + x =~= seq![t[0]] + (kept(u.take(m1))
                            + out + x));
                    }
                },
                None => {},
            }
        }
    } else {
        assert(m == 0);
        lemma_flat_conditional_size(u, t[0].0@ == TokenV::Directive(Directive::Ifdef), defines, standard);
        assert(t.take(0) =~= Seq::<SpannedToken>::empty());
        assert(kept(Seq::<SpannedToken>::empty()) == Seq::<SpannedToken>::empty());
        match flat_conditional(u, t[0].0@ == TokenV::Directive(Directive::Ifdef), defines, standard) {
            Some((out, n)) => {
                let x = flat_text(t.skip(1 + n), defines, standard)->0;
                assert(Seq::<SpannedToken>::empty() + out + x =~= out + x);
            },
            None => {},
        }
    }
}

/// The `` `endif `` found closing a conditional lies at or after the
/// start, within the stream
pub proof fn lemma_matching_endif_range(s: Seq<SpannedToken>, i: int, depth: nat)
    requires
        0 <= i,
    ensures
        matching_endif(s, i, depth) matches Some(j) ==> i <= j < s.len(),
    decreases s.len() - i,
{
    if i < s.len() {
        if opens_conditional(s[i].0@) {
            lemma_matching_endif_range(s, i + 1, depth + 1);
        } else if s[i].0@ == TokenV::Directive(Directive::Endif) {
            if depth > 0 {
                lemma_matching_endif_range(s, i + 1, (depth - 1) as nat);
            }
        } else {
            lemma_matching_endif_range(s, i + 1, depth);
        }
    }
}

/// The end found of a branch lies at or after the start, within the
/// stream
pub proof fn lemma_branch_end_range(s: Seq<SpannedToken>, i: int, depth: nat)
    requires
        0 <= i,
    ensures
        branch_end(s, i, depth) matches Some(j) ==> i <= j < s.len(),
    decreases s.len() - i,
{
    if i < s.len() {
        if opens_conditional(s[i].0@) {
            lemma_branch_end_range(s, i + 1, depth + 1);
        } else if s[i].0@ == TokenV::Directive(Directive::Endif) {
            if depth > 0 {
                lemma_branch_end_range(s, i + 1, (depth - 1) as nat);
            }
        } else if depth == 0 && (s[i].0@ == TokenV::Directive(Directive::Else) || s[i].0@
            == TokenV::Directive(Directive::Elsif)) {
        } else {
            lemma_branch_end_range(s, i + 1, depth);
        }
    }
}

/// A taken branch that ends where `branch_rest` says takes that many
/// tokens, and leaves the rest of the stream
pub proof fn lemma_branch_rest(s: Seq<SpannedToken>, m: int, span: Span, r: Result<(), PreprocessorError>, rest: Seq<SpannedToken>)
    ensures
        branch_rest(s, m) matches Some(n) ==> {
            &&& m + 1 <= n <= s.len()
            &&& taken_branch_end(s, m, span, r, rest) <==> (r is Ok && rest == s.skip(n))
        },
{
    if 0 <= m < s.len() && ends_branch(s[m].0@) && s[m].0@ != TokenV::Directive(Directive::Endif) {
        lemma_matching_endif_range(s.skip(m + 1), 0, 0);
        match matching_endif(s.skip(m + 1), 0, 0) {
            Some(j) => {
                assert(s.skip(m + 1).skip(j + 1) =~= s.skip(m + 1 + j + 1));
            },
            None => {},
        }
    }
}

/// `` `ifdef `` (`is_ifdef`) or `` `ifndef `` (also what follows an
/// `` `elsif ``), written at `directive_span` in the conditional that
/// `ifdef_span` opens: preprocess the branch whose condition holds,
/// skipping the others
#[verifier::rlimit(40)]
pub(crate) fn preprocess_ifdef<H: PragmaHandler>(
    src: &mut TokenIterator,
    dest: &mut Vec<SpannedToken>,
    state: &mut PreprocessorState<H>,
    directive_span: &Span,
    ifdef_span: &Span,
    is_ifdef: bool,
) -> (r: Result<(), PreprocessorError>)
    requires
        old(state).mode == Mode::Normal,
    ensures
        evolves(*old(state), *final(state)),
        r matches Err(e) ==> e.reportable(),
        // the condition: the next token names a macro
        old(state).budget > 0 && old(src)@.len() == 0 ==> (r matches Err(
            PreprocessorError::IncompleteDirective { directive_span: s },
        ) && s == *directive_span),
        old(state).budget > 0 && old(src)@.len() > 0 && macro_name(old(src)@[0].0@) is None ==> (r matches Err(
            e,
        ) && expected_error(e, old(src)@[0].1, Some(old(src)@[0].0@), "a macro name")),
        // a conditional whose branches hold tokens that pass through keeps
        // the branch whose condition holds, or its `else`
        ({
            let s = old(src)@;
            match flat_conditional(s, is_ifdef, old(state).defines@, keyword_standard(old(state).curr_standard@)) {
                Some((out, n)) => old(state).budget > n + 5 ==> {
                    &&& r is Ok
                    &&& final(src)@ == s.skip(n)
                    &&& final(dest)@ == old(dest)@ + out
                    &&& final(state).errors == old(state).errors
                    &&& final(state).defines == old(state).defines
                    &&& final(state).curr_standard == old(state).curr_standard
                    &&& final(state).settings == old(state).settings
                    &&& old(state).budget - final(state).budget <= n + 5
                },
                None => true,
            }
        }),
        // a branch taken whose tokens pass through, up to its end
        ({
            let rest = old(src)@.skip(1);
            let m = first_stop(rest, keyword_standard(old(state).curr_standard@), 0);
            old(state).budget > m + 4 && old(src)@.len() > 0 && macro_name(old(src)@[0].0@) is Some
                && condition_holds(old(state).defines@, old(src)@[0].0@, is_ifdef) && (m < rest.len()
                ==> ends_branch(rest[m].0@)) ==> {
                &&& final(dest)@ == old(dest)@ + kept(rest.take(m))
                &&& final(state).errors == old(state).errors
                &&& taken_branch_end(rest, m, *ifdef_span, r, final(src)@)
            }
        }),
        // a branch not taken that runs to an `else`: the `else` branch is
        // taken
        ({
            let rest = old(src)@.skip(1);
            match branch_end(rest, 0, 0) {
                Some(j) => {
                    let after = rest.skip(j + 1);
                    let m = first_stop(after, keyword_standard(old(state).curr_standard@), 0);
                    old(state).budget > m + 5 && old(src)@.len() > 0 && macro_name(old(src)@[0].0@) is Some
                        && !condition_holds(old(state).defines@, old(src)@[0].0@, is_ifdef)
                        && rest[j].0@ == TokenV::Directive(Directive::Else) && (m < after.len()
                        ==> ends_branch(after[m].0@)) ==> {
                        &&& final(dest)@ == old(dest)@ + kept(after.take(m))
                        &&& final(state).errors == old(state).errors
                        &&& taken_branch_end(after, m, *ifdef_span, r, final(src)@)
                    }
                },
                None => true,
            }
        }),
        // a branch not taken that runs to the `endif` is skipped whole
        ({
            let rest = old(src)@.skip(1);
            old(state).budget > 1 && old(src)@.len() > 0 && !condition_holds(
                old(state).defines@,
                old(src)@[0].0@,
                is_ifdef,
            ) && ends_at_endif(rest) ==> match branch_end(rest, 0, 0) {
                Some(j) => r is Ok && final(src)@ == rest.skip(j + 1) && final(dest)@ == old(
                    dest,
                )@ && final(state).errors == old(state).errors,
                None => r matches Err(PreprocessorError::NoEndif { ifdef_span: s }) && s
                    == *ifdef_span,
            }
        }),
    decreases old(state).budget, 0nat,
{
    let ghost s = src@;
    let ghost std = keyword_standard(state.curr_standard@);
    proof {
        lemma_flat_conditional_size(s, is_ifdef, state.defines@, std);
        reveal(flat_conditional);
        if s.len() > 0 {
            let rest = s.skip(1);
            lemma_first_stop(rest, std, 0);
            lemma_branch_rest(rest, first_stop(rest, std, 0), *ifdef_span, Ok(()), rest);
            lemma_branch_end_range(rest, 0, 0);
            match branch_end(rest, 0, 0) {
                Some(j) => {
                    let after = rest.skip(j + 1);
                    lemma_first_stop(after, std, 0);
                    lemma_branch_rest(after, first_stop(after, std, 0), *ifdef_span, Ok(()), after);
                },
                None => {},
            }
        }
    }
    if !state.spend() {
        return Err(PreprocessorError::StepLimit);
    }
    let defined = match read_condition(src, state, directive_span) {
        Ok(b) => b,
        Err(e) => {
            return Err(e);
        },
    };
    let ghost mid = *state;
    let r = if defined == is_ifdef {
        take_branch(src, dest, state, ifdef_span)
    } else {
        skip_branch(src, dest, state, ifdef_span)
    };
    proof {
        lemma_evolves_trans(*old(state), mid, *state);
        let rest = s.skip(1);
        match flat_conditional(s, is_ifdef, old(state).defines@, std) {
            Some((out, n)) => {
                if old(state).budget > n + 5 {
                    if condition_holds(old(state).defines@, s[0].0@, is_ifdef) {
                        let m = first_stop(rest, std, 0);
                        lemma_branch_rest(rest, m, *ifdef_span, r, src@);
                        assert(rest.skip(branch_rest(rest, m)->0) =~= s.skip(1 + branch_rest(rest, m)->0));
                    } else {
                        let j = branch_end(rest, 0, 0)->0;
                        if rest[j].0@ == TokenV::Directive(Directive::Endif) {
                            assert(rest.skip(j + 1) =~= s.skip(j + 2));
                        } else if rest[j].0@ == TokenV::Directive(Directive::Elsif) {
                            let after = rest.skip(j + 1);
                            lemma_flat_conditional_size(after, true, old(state).defines@, std);
                            let found = flat_conditional(after, true, old(state).defines@, std)->0;
                            let n2 = found.1;
                            assert(rest.skip(j + 1 + n2) =~= s.skip(j + 2 + n2));
                        } else {
                            let after = rest.skip(j + 1);
                            let m = first_stop(after, std, 0);
                            lemma_branch_rest(after, m, *ifdef_span, r, src@);
                            assert(after.skip(branch_rest(after, m)->0) =~= s.skip(
                                j + 2 + branch_rest(after, m)->0,
                            ));
                        }
                    }
                }
            },
            None => {},
        }
    }
    r
}

} // verus!
