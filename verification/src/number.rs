//! Joining numbers split across text macros.
//!
//! A number may be written partly by text macros (`` `WIDTH'h`VALUE ``), so
//! that it only forms once the macros are expanded. Starting from an
//! unsized number or an apostrophe, the text of the tokens that follow is
//! gathered and read again as a number, for as long as it can still grow
//! into one.

use crate::error::PreprocessorError;
use crate::number_syntax::{
    complete_match, lemma_longest_is_number, longest_number, match_complete, match_partial,
    number_kind, number_token, number_token_v, partial_match, NumberKind, NumberMatch,
};
use crate::pragma::PragmaHandler;
use crate::preprocess::{lemma_skip_block_comments, preprocess_single, under_standard};
use crate::pragma::plain_upto;
use crate::state::keyword_standard;
use crate::keywords::KeywordStandard;
use crate::span::Span;
use crate::spanned_token::{display, view_tokens, SpannedToken};
use crate::state::{evolves, lemma_evolves_trans, span_text, PreprocessorState, SourceFile};
use crate::token::{Token, TokenV};
use crate::token_iter::TokenIterator;
use crate::util::{append_bytes, slice_bytes};
use vstd::prelude::*;

verus! {

/// The source text of the token a span was expanded from
pub fn get_expanded_slice<H>(span: &Span, state: &PreprocessorState<H>) -> (r: Option<Vec<u8>>)
    ensures
        match r {
            Some(v) => span_text(state.files@, span.expansion_root()) == Some(v@),
            None => span_text(state.files@, span.expansion_root()) is None,
        },
{
    state.get_slice(span.root())
}

/// The text a token adds to a number being gathered: the source text it
/// was expanded from, or its own text where that is not in a known file
pub open spec fn number_piece(files: Seq<SourceFile>, t: (TokenV, Span)) -> Seq<u8> {
    match span_text(files, t.1.expansion_root()) {
        Some(s) => s,
        None => display(t.0),
    }
}

fn piece<H>(t: &SpannedToken, state: &PreprocessorState<H>) -> (r: Vec<u8>)
    ensures
        r@ == number_piece(state.files@, t@),
{
    match get_expanded_slice(&t.1, state) {
        Some(v) => v,
        None => t.0.display_bytes(),
    }
}

/// `n` blanks
pub open spec fn blanks(n: int) -> Seq<u8> {
    Seq::new(n as nat, |i: int| ' ' as u8)
}

/// The number gathered so far, and the one before the latest token was
/// added (each with the span it covers)
pub struct NumberHistory {
    pub curr_num: (Vec<u8>, Span),
    pub prev_num: (Vec<u8>, Span),
}

/// A span with its expansion history left out
pub open spec fn unexpanded(s: Span) -> Span {
    Span { expanded_from: None, ..s }
}

impl NumberHistory {
    /// Start gathering from a token
    pub fn new<H>(start_token: &SpannedToken, state: &PreprocessorState<H>) -> (r: Self)
        ensures
            r.curr_num.0@ == number_piece(state.files@, start_token@),
            r.curr_num.1 == unexpanded(start_token.1),
            r.prev_num.0@ == r.curr_num.0@,
            r.prev_num.1 == r.curr_num.1,
    {
        let text = piece(start_token, state);
        let mut span = start_token.1.clone();
        span.expanded_from = None;
        let text2 = crate::util::copy_bytes(text.as_slice());
        NumberHistory { curr_num: (text, span.clone()), prev_num: (text2, span) }
    }

    /// Add a token to the number: its text, after as many blanks as lie
    /// between the number so far and the token
    pub fn push_token<H>(&mut self, new_token: &SpannedToken, state: &PreprocessorState<H>)
        ensures
            final(self).prev_num.0@ == old(self).curr_num.0@,
            final(self).prev_num.1 == old(self).curr_num.1,
            final(self).curr_num.0@ == old(self).curr_num.0@ + blanks(
                if new_token.1.start > old(self).curr_num.1.end {
                    new_token.1.start - old(self).curr_num.1.end
                } else {
                    0
                },
            ) + number_piece(state.files@, new_token@),
            final(self).curr_num.1 == (Span {
                start: old(self).curr_num.1.start,
                end: new_token.1.end,
                ..old(self).curr_num.1
            }),
    {
        let mut next = crate::util::copy_bytes(self.curr_num.0.as_slice());
        let ghost base = next@;
        if new_token.1.start > self.curr_num.1.end {
            let gap = new_token.1.start - self.curr_num.1.end;
            let mut i: usize = 0;
            while i < gap
                invariant
                    i <= gap,
                    next@ == base + blanks(i as int),
                decreases gap - i,
            {
                next.push(' ' as u8);
                assert(blanks(i + 1) =~= blanks(i as int).push(' ' as u8));
                i = i + 1;
            }
        } else {
            assert(blanks(0) =~= Seq::<u8>::empty());
            assert(next@ =~= base + blanks(0));
        }
        let p = piece(new_token, state);
        append_bytes(&mut next, p.as_slice());
        let mut span = self.curr_num.1.clone();
        span.end = new_token.1.end;
        let mut cur = (next, span);
        std::mem::swap(&mut cur, &mut self.curr_num);
        self.prev_num = cur;
    }
}

/// Whether a token is a number token whose text is a number of its kind
pub open spec fn well_formed_number(t: TokenV) -> bool {
    exists|k: NumberKind, text: Seq<u8>|
        t == #[trigger] number_token_v(k, text) && number_kind(text) == Some(k)
}

/// The tokens of a sequence that start at or after a position
pub open spec fn starting_from(s: Seq<SpannedToken>, pos: usize) -> Seq<SpannedToken> {
    s.filter(|t: SpannedToken| t.1.start >= pos)
}

/// The tokens (as values) of a sequence that start at or after a position
pub open spec fn values_starting_from(s: Seq<(TokenV, Span)>, pos: usize) -> Seq<(TokenV, Span)>
    decreases s.len(),
{
    if s.len() == 0 {
        s
    } else if s.last().1.start >= pos {
        values_starting_from(s.drop_last(), pos).push(s.last())
    } else {
        values_starting_from(s.drop_last(), pos)
    }
}

fn tokens_starting_from(v: Vec<SpannedToken>, pos: usize) -> (r: Vec<SpannedToken>)
    ensures
        r@ == starting_from(v@, pos),
        view_tokens(r@) == values_starting_from(view_tokens(v@), pos),
{
    let ghost all = v@;
    let mut rest = v;
    let mut kept: Vec<SpannedToken> = Vec::new();
    let ghost mut i: int = 0;
    while rest.len() > 0
        invariant
            0 <= i <= all.len(),
            rest@ == all.skip(i),
            kept@ == starting_from(all.take(i), pos),
            view_tokens(kept@) == values_starting_from(view_tokens(all.take(i)), pos),
        decreases rest.len(),
    {
        let t = rest.remove(0);
        let ghost before = kept@;
        proof {
            assert(t == all[i]);
            assert(all.take(i + 1).drop_last() =~= all.take(i));
            assert(view_tokens(all.take(i + 1)).drop_last() =~= view_tokens(all.take(i)));
            assert(view_tokens(all.take(i + 1)).last() == t@);
            reveal(Seq::filter);
            assert(rest@ =~= all.skip(i + 1));
        }
        if t.1.start >= pos {
            kept.push(t);
            proof {
                assert(view_tokens(kept@) =~= view_tokens(before).push(kept@.last()@));
            }
        }
        proof {
            i = i + 1;
        }
    }
    proof {
        assert(all.take(i) =~= all);
    }
    kept
}

/// The number token for the longest number at the start of `text`
fn number_prefix(text: &Vec<u8>, kind: NumberKind, n: usize) -> (r: Token)
    requires
        complete_match(text@) == NumberMatch::Matched(kind, n),
    ensures
        well_formed_number(r@),
        r@ == number_token_v(kind, text@.take(n as int)),
{
    let len = text.len();
    proof {
        lemma_longest_is_number(text@, text@.len() as int);
        assert(n as int == longest_number(text@, text@.len() as int));
    }
    let t = slice_bytes(text.as_slice(), 0, n);
    proof {
        assert(t@ =~= text@.take(n as int));
        assert(number_kind(t@) == Some(kind));
    }
    let r = number_token(kind, t);
    assert(r@ == number_token_v(kind, t@));
    r
}

/// The tokens of a stream read one by one, as the standard reads them
pub open spec fn reads(s: Seq<SpannedToken>, standard: KeywordStandard) -> Seq<(TokenV, Span)> {
    s.map_values(|t: SpannedToken| (under_standard(t.0@, standard), t.1))
}

/// The text and span of a number gathered from a start token and the
/// first `j` of the tokens after it: each token's text is added after as
/// many blanks as lie between it and the text so far
pub open spec fn gathered(
    files: Seq<SourceFile>,
    start: (TokenV, Span),
    toks: Seq<(TokenV, Span)>,
    j: int,
) -> (Seq<u8>, Span)
    decreases j,
{
    if j <= 0 {
        (number_piece(files, start), unexpanded(start.1))
    } else {
        let (text, sp) = gathered(files, start, toks, j - 1);
        let t = toks[j - 1];
        (
            text + blanks(
                if t.1.start > sp.end {
                    t.1.start - sp.end
                } else {
                    0
                },
            ) + number_piece(files, t),
            Span { start: sp.start, end: t.1.end, ..sp },
        )
    }
}

/// How many tokens are gathered: from `j` on, up to the first count at
/// which the text can no longer grow into a number (or all of them)
pub open spec fn gather_stop(
    files: Seq<SourceFile>,
    start: (TokenV, Span),
    toks: Seq<(TokenV, Span)>,
    j: int,
) -> int
    decreases toks.len() - j,
{
    if j < 0 || j >= toks.len() || partial_match(gathered(files, start, toks, j).0)
        != NumberMatch::Incomplete {
        j
    } else {
        gather_stop(files, start, toks, j + 1)
    }
}

/// What gathering a number from `start` over the tokens `toks` (read from
/// `s`) leaves: what was added to `dest` (the start token, or nothing) and
/// the stream that follows
pub open spec fn gather_outcome(
    files: Seq<SourceFile>,
    start: SpannedToken,
    toks: Seq<(TokenV, Span)>,
    s: Seq<SpannedToken>,
    dest0: Seq<SpannedToken>,
    dest1: Seq<SpannedToken>,
    src1: Seq<(TokenV, Span)>,
) -> bool {
    let j = gather_stop(files, start@, toks, 0);
    let g = gathered(files, start@, toks, j);
    match partial_match(g.0) {
        // no number: the start token is kept, and the tokens read put back
        NumberMatch::NoMatch => dest1 == dest0.push(start) && src1 == toks.take(j) + view_tokens(
            s.skip(j),
        ),
        // the longest number before the last token was added, then the
        // tokens read that it does not cover
        NumberMatch::Matched(kind, n) => {
            let prev = gathered(
                files,
                start@,
                toks,
                if j > 0 {
                    j - 1
                } else {
                    0
                },
            );
            &&& dest1 == dest0
            &&& src1 == seq![(number_token_v(kind, g.0.take(n as int)), prev.1)] + values_starting_from(
                toks.take(j),
                prev.1.end,
            ) + view_tokens(s.skip(j))
        },
        // the end of input: the longest number in all the text, if any
        NumberMatch::Incomplete => match complete_match(g.0) {
            NumberMatch::Matched(kind, n) => dest1 == dest0 && src1 == seq![
                (number_token_v(kind, g.0.take(n as int)), g.1),
            ],
            _ => dest1 == dest0.push(start) && src1 == toks,
        },
    }
}

/// Starting from an unsized number or an apostrophe, gather the text of
/// the tokens that follow for as long as it can still grow into a number.
/// When the gathered text stops being able to grow, the longest number
/// read before the last token was added is put back on the stream as one
/// token, with the tokens after it; at the end of input, the longest
/// number in all the text gathered is. Where no number forms, the start
/// token goes to `dest` and the tokens read are put back.
pub fn preprocess_possible_number<H: PragmaHandler>(
    src: &mut TokenIterator,
    dest: &mut Vec<SpannedToken>,
    state: &mut PreprocessorState<H>,
    start_token: SpannedToken,
) -> (r: Result<(), PreprocessorError>)
    ensures
        final(state).defines == old(state).defines,
        evolves(*old(state), *final(state)),
        final(state).curr_standard == old(state).curr_standard,
        final(state).settings == old(state).settings,
        r matches Err(e) ==> e.reportable(),
        // either the start token is kept, or a well-formed number is next
        final(dest)@ == old(dest)@.push(start_token) || (final(dest)@ == old(dest)@
            && final(src)@.len() > 0 && well_formed_number(final(src)@[0].0@)),
        // on an error, the start token is kept
        r is Err ==> final(dest)@ == old(dest)@.push(start_token),
        // an unsized number followed by what cannot continue a number is kept
        old(state).budget > 0 && start_token.0 is UnsignedNumber && partial_match(
            number_piece(old(state).files@, start_token@),
        ) == NumberMatch::NoMatch ==> r is Ok && final(dest)@ == old(dest)@.push(start_token)
            && final(src)@ == old(src)@,
        // on tokens read one by one, as they are
        plain_upto(old(src)@, old(src)@.len() as int) && old(state).budget > 2 * old(src)@.len() + 2
            ==> {
            &&& r is Ok
            &&& final(state).errors == old(state).errors
            &&& gather_outcome(
                old(state).files@,
                start_token,
                reads(old(src)@, keyword_standard(old(state).curr_standard@)),
                old(src)@,
                old(dest)@,
                final(dest)@,
                view_tokens(final(src)@),
            )
        },
    decreases old(state).budget, 0nat,
{
    let ghost s = src@;
    let ghost files = state.files@;
    let ghost toks = reads(s, keyword_standard(state.curr_standard@));
    let ghost st = start_token@;
    let ghost simple = plain_upto(s, s.len() as int) && old(state).budget > 2 * s.len() + 2;
    let mut number_hist = NumberHistory::new(&start_token, state);
    let mut popped_tokens: Vec<SpannedToken> = Vec::new();
    proof {
        assert(s.skip(0) =~= s);
        assert(view_tokens(popped_tokens@) =~= toks.take(0));
    }
    loop
        invariant
            state.defines == old(state).defines,
            evolves(*old(state), *state),
            state.curr_standard == old(state).curr_standard,
            state.settings == old(state).settings,
            state.files == old(state).files,
            dest@ == old(dest)@,
            popped_tokens@.len() > 0 ==> partial_match(number_piece(old(state).files@, start_token@))
                == NumberMatch::Incomplete,
            popped_tokens@.len() == 0 ==> src@ == old(src)@ && number_hist.curr_num.0@
                == number_piece(old(state).files@, start_token@) && state.budget == old(
                state,
            ).budget,
            s == old(src)@,
            files == old(state).files@,
            st == start_token@,
            toks == reads(s, keyword_standard(old(state).curr_standard@)),
            toks.len() == s.len(),
            simple == (plain_upto(s, s.len() as int) && old(state).budget > 2 * s.len() + 2),
            simple ==> {
                let j = popped_tokens@.len() as int;
                &&& j <= s.len()
                &&& src@ == s.skip(j)
                &&& view_tokens(popped_tokens@) == toks.take(j)
                &&& number_hist.curr_num.0@ == gathered(files, st, toks, j).0
                &&& number_hist.curr_num.1 == gathered(files, st, toks, j).1
                &&& number_hist.prev_num.0@ == gathered(files, st, toks, if j > 0 { j - 1 } else { 0 }).0
                &&& number_hist.prev_num.1 == gathered(files, st, toks, if j > 0 { j - 1 } else { 0 }).1
                &&& state.budget == old(state).budget - 2 * j
                &&& state.errors == old(state).errors
                &&& gather_stop(files, st, toks, 0) == gather_stop(files, st, toks, j)
            },
        decreases state.budget,
    {
        let ghost s0 = *state;
        if !state.spend() {
            src.prepend_tokens(popped_tokens);
            dest.push(start_token);
            return Err(PreprocessorError::StepLimit);
        }
        match match_partial(number_hist.curr_num.0.as_slice()) {
            NumberMatch::Matched(kind, n) => {
                // the number before the latest addition, since that addition
                // does not continue it
                proof {
                    crate::number_syntax::lemma_can_grow(number_hist.curr_num.0@);
                }
                let new_span = number_hist.prev_num.1.clone();
                let ghost before = src@;
                let rest = tokens_starting_from(popped_tokens, new_span.end);
                let ghost rest_v = rest@;
                src.prepend_tokens(rest);
                let tok = number_prefix(&number_hist.curr_num.0, kind, n);
                let ghost tok_v = tok@;
                src.prepend_token(SpannedToken(tok, new_span));
                proof {
                    lemma_evolves_trans(*old(state), s0, *state);
                    if simple {
                        assert(view_tokens(src@) =~= seq![(tok_v, new_span)] + view_tokens(rest_v)
                            + view_tokens(before));
                    }
                }
                return Ok(());
            },
            NumberMatch::NoMatch => {
                // not a number: go on as usual
                let ghost before = src@;
                let ghost popped = popped_tokens@;
                src.prepend_tokens(popped_tokens);
                proof {
                    if popped.len() == 0 {
                        assert(src@ =~= before);
                    }
                    if simple {
                        assert(view_tokens(src@) =~= view_tokens(popped) + view_tokens(before));
                    }
                }
                dest.push(start_token);
                proof {
                    lemma_evolves_trans(*old(state), s0, *state);
                }
                return Ok(());
            },
            NumberMatch::Incomplete => {
                let ghost s1 = *state;
                let ghost j = popped_tokens@.len() as int;
                proof {
                    if simple {
                        lemma_skip_block_comments(src@, 0);
                        if j < s.len() {
                            assert(src@[0] == s[j]);
                        }
                    }
                }
                let next = preprocess_single(src, state);
                proof {
                    lemma_evolves_trans(*old(state), s0, s1);
                    lemma_evolves_trans(*old(state), s1, *state);
                }
                match next {
                    Ok(Some(next_token)) => {
                        let ghost popped = popped_tokens@;
                        number_hist.push_token(&next_token, state);
                        popped_tokens.push(next_token);
                        proof {
                            if simple {
                                assert(next_token@ == toks[j]);
                                assert(src@ =~= s.skip(j + 1));
                                assert(view_tokens(popped_tokens@) =~= view_tokens(popped).push(toks[j]));
                                assert(toks.take(j + 1) =~= toks.take(j).push(toks[j]));
                            }
                        }
                    },
                    Ok(None) => {
                        // the end of input: the longest number gathered, if any
                        let ghost popped = popped_tokens@;
                        proof {
                            assert(number_hist.curr_num.0@.skip(0) =~= number_hist.curr_num.0@);
                        }
                        match match_complete(number_hist.curr_num.0.as_slice(), 0) {
                            NumberMatch::Matched(kind, n) => {
                                proof {
                                    assert(number_hist.curr_num.0@.skip(0) =~= number_hist.curr_num.0@);
                                }
                                let tok = number_prefix(&number_hist.curr_num.0, kind, n);
                                let span = number_hist.curr_num.1.clone();
                                let ghost tok_v = tok@;
                                src.prepend_token(SpannedToken(tok, span));
                                proof {
                                    if simple {
                                        assert(view_tokens(src@) =~= seq![(tok_v, span)]);
                                    }
                                }
                            },
                            _ => {
                                src.prepend_tokens(popped_tokens);
                                dest.push(start_token);
                                proof {
                                    if simple {
                                        assert(toks.take(j) =~= toks);
                                        assert(view_tokens(src@) =~= view_tokens(popped));
                                    }
                                }
                            },
                        }
                        return Ok(());
                    },
                    Err(err) => {
                        src.prepend_tokens(popped_tokens);
                        dest.push(start_token);
                        return Err(err);
                    },
                }
            },
        }
    }
}

} // verus!
