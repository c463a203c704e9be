//! `` `begin_keywords `` and `` `end_keywords ``: which words are reserved

use crate::error::{expected, expected_error, PreprocessorError};
use crate::keywords::KeywordStandard;
use crate::pragma::PragmaHandler;
use crate::preprocess::{lemma_skip_block_comments, next_plain_token, plain_next, preprocess_single};
use crate::span::Span;
use crate::spanned_token::SpannedToken;
use crate::state::{evolves, keyword_standard, lemma_evolves_trans, PreprocessorState};
use crate::token::{Token, TokenV};
use crate::token_iter::TokenIterator;
use crate::util::bytes_eq;
use vstd::prelude::*;
use vstd::string::StringSliceAdditionalSpecFns;

verus! {

/// The standard a version specifier names
pub open spec fn version_standard(v: Seq<u8>) -> Option<KeywordStandard> {
    if v == "1364-1995".spec_bytes() {
        Some(KeywordStandard::V1364_1995)
    } else if v == "1364-2001".spec_bytes() {
        Some(KeywordStandard::V1364_2001)
    } else if v == "1364-2001-noconfig".spec_bytes() {
        Some(KeywordStandard::V1364_2001Noconfig)
    } else if v == "1364-2005".spec_bytes() {
        Some(KeywordStandard::V1364_2005)
    } else if v == "1800-2005".spec_bytes() {
        Some(KeywordStandard::V1800_2005)
    } else if v == "1800-2009".spec_bytes() {
        Some(KeywordStandard::V1800_2009)
    } else if v == "1800-2012".spec_bytes() {
        Some(KeywordStandard::V1800_2012)
    } else if v == "1800-2017".spec_bytes() {
        Some(KeywordStandard::V1800_2017)
    } else if v == "1800-2023".spec_bytes() {
        Some(KeywordStandard::V1800_2023)
    } else {
        None
    }
}

pub fn lookup_version(v: &[u8]) -> (r: Option<KeywordStandard>)
    ensures
        r == version_standard(v@),
{
    if bytes_eq(v, "1364-1995".as_bytes()) {
        Some(KeywordStandard::V1364_1995)
    } else if bytes_eq(v, "1364-2001".as_bytes()) {
        Some(KeywordStandard::V1364_2001)
    } else if bytes_eq(v, "1364-2001-noconfig".as_bytes()) {
        Some(KeywordStandard::V1364_2001Noconfig)
    } else if bytes_eq(v, "1364-2005".as_bytes()) {
        Some(KeywordStandard::V1364_2005)
    } else if bytes_eq(v, "1800-2005".as_bytes()) {
        Some(KeywordStandard::V1800_2005)
    } else if bytes_eq(v, "1800-2009".as_bytes()) {
        Some(KeywordStandard::V1800_2009)
    } else if bytes_eq(v, "1800-2012".as_bytes()) {
        Some(KeywordStandard::V1800_2012)
    } else if bytes_eq(v, "1800-2017".as_bytes()) {
        Some(KeywordStandard::V1800_2017)
    } else if bytes_eq(v, "1800-2023".as_bytes()) {
        Some(KeywordStandard::V1800_2023)
    } else {
        None
    }
}

/// `` `begin_keywords "version" ``: from here on, the keywords reserved are
/// those of the standard named
pub fn preprocess_begin_keyword<H: PragmaHandler>(
    src: &mut TokenIterator,
    state: &mut PreprocessorState<H>,
    directive_span: &Span,
) -> (r: Result<(), PreprocessorError>)
    ensures
        evolves(*old(state), *final(state)),
        r matches Err(e) ==> e.reportable(),
        r is Err ==> final(state).curr_standard == old(state).curr_standard,
        final(state).settings == old(state).settings,
        r is Ok ==> exists|v: KeywordStandard|
            final(state).curr_standard@ == old(state).curr_standard@.push((v, *directive_span)),
        plain_next(old(src)@, old(state).budget - 1) ==> match next_plain_token(
            old(src)@,
            keyword_standard(old(state).curr_standard@),
        ) {
            None => r matches Err(PreprocessorError::IncompleteDirective { directive_span: s })
                && s == *directive_span,
            Some((TokenV::StringLiteral(v), sp)) => match version_standard(v) {
                Some(standard) => r is Ok && final(state).curr_standard@ == old(
                    state,
                ).curr_standard@.push((standard, *directive_span)),
                None => r matches Err(PreprocessorError::InvalidVersionSpecifier { version_span: s })
                    && s == sp,
            },
            Some((t, sp)) => r matches Err(e) && expected_error(
                e,
                sp,
                Some(t),
                "a version specifier",
            ),
        },
    decreases old(state).budget, 0nat,
{
    proof {
        lemma_skip_block_comments(src@, 0);
    }
    if !state.spend() {
        return Err(PreprocessorError::StepLimit);
    }
    let ghost s0 = *state;
    let t = preprocess_single(src, state);
    proof {
        lemma_evolves_trans(*old(state), s0, *state);
    }
    let t = match t {
        Err(e) => {
            return Err(e);
        },
        Ok(t) => t,
    };
    match t {
        None => Err(PreprocessorError::IncompleteDirective { directive_span: directive_span.clone() }),
        Some(SpannedToken(Token::StringLiteral(v), version_span)) => {
            match lookup_version(v.as_slice()) {
                Some(standard) => {
                    state.curr_standard.push((standard, directive_span.clone()));
                    Ok(())
                },
                None => Err(PreprocessorError::InvalidVersionSpecifier { version_span }),
            }
        },
        Some(SpannedToken(tok, span)) => Err(expected(span, Some(tok), "a version specifier")),
    }
}

/// `` `end_keywords ``: back to the keywords reserved before the matching
/// `` `begin_keywords ``
pub fn preprocess_end_keyword<H>(state: &mut PreprocessorState<H>, directive_span: &Span) -> (r:
    Result<(), PreprocessorError>)
    ensures
        evolves(*old(state), *final(state)),
        final(state).errors == old(state).errors,
        old(state).curr_standard@.len() == 0 ==> (r matches Err(
            PreprocessorError::EndKeywords { end_keywords_span: s },
        ) && s == *directive_span && final(state).curr_standard@ == old(state).curr_standard@),
        old(state).curr_standard@.len() > 0 ==> r is Ok && final(state).curr_standard@ == old(
            state,
        ).curr_standard@.drop_last(),
{
    match state.curr_standard.pop() {
        Some(_) => Ok(()),
        None => Err(PreprocessorError::EndKeywords { end_keywords_span: directive_span.clone() }),
    }
}

} // verus!
