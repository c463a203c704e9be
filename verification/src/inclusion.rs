//! `` `include ``: bringing in the tokens of another file

use crate::error::{expected, expected_error, PreprocessorError};
use crate::lexer::{lex, lexed};
use crate::pragma::PragmaHandler;
use crate::preprocess::{
    lemma_skip_block_comments, next_plain_token, plain_next, preprocess_single, skip_block_comments,
    under_standard,
};
use crate::span::Span;
use crate::spanned_token::SpannedToken;
use crate::state::{
    evolves, keyword_standard, lemma_evolves_trans, span_text, PreprocessorState, SourceFile,
};
use crate::keywords::KeywordStandard;
use crate::pragma::plain_upto;
use crate::token::{Token, TokenV};
use crate::token_iter::TokenIterator;
use crate::util::copy_bytes;
use vstd::prelude::*;

verus! {

/// How deeply `` `include `` directives may nest
pub const MAX_INCLUDE_DEPTH: usize = 50;

/// The path named by an `` `include ``
#[derive(Debug)]
pub enum IncludePath {
    /// `"path"`: relative to the project
    ProjectRelative(Vec<u8>),
    /// `<path>`: relative to the tool
    ToolRelative(Vec<u8>),
}

/// The position of the first `>` or line break at or after `i`, the
/// tokens read as the standard reads them (the end, if there is none)
pub open spec fn angle_end(s: Seq<SpannedToken>, standard: KeywordStandard, i: int) -> int
    decreases s.len() - i,
{
    if i < 0 || i >= s.len() {
        s.len() as int
    } else if under_standard(s[i].0@, standard) is Gt || under_standard(s[i].0@, standard) is Newline {
        i
    } else {
        angle_end(s, standard, i + 1)
    }
}

pub proof fn lemma_angle_end(s: Seq<SpannedToken>, standard: KeywordStandard, i: int)
    requires
        0 <= i <= s.len(),
    ensures
        i <= angle_end(s, standard, i) <= s.len(),
    decreases s.len() - i,
{
    if i < s.len() && !(under_standard(s[i].0@, standard) is Gt || under_standard(s[i].0@, standard) is Newline) {
        lemma_angle_end(s, standard, i + 1);
    }
}

/// The text between a `<` and a `>`, with the span of both and all
/// between
pub open spec fn angle_path(files: Seq<SourceFile>, lt: Span, gt: Span) -> Option<(Seq<u8>, Span)> {
    match span_text(files, Span { start: lt.end, end: gt.start, ..lt }) {
        Some(p) => Some((p, Span { start: lt.start, ..gt })),
        None => None,
    }
}

/// Read the path of an `` `include ``: a string literal, or the text
/// between `<` and `>` on one line
fn get_include_path<H: PragmaHandler>(
    src: &mut TokenIterator,
    state: &mut PreprocessorState<H>,
    include_span: &Span,
) -> (r: Result<(IncludePath, Span), PreprocessorError>)
    ensures
        evolves(*old(state), *final(state)),
        final(state).curr_standard == old(state).curr_standard,
        final(state).settings == old(state).settings,
        r matches Err(e) ==> e.reportable(),
        plain_next(old(src)@, old(state).budget - 1) ==> match next_plain_token(
            old(src)@,
            keyword_standard(old(state).curr_standard@),
        ) {
            None => r matches Err(PreprocessorError::IncompleteDirective { directive_span: s })
                && s == *include_span,
            Some((TokenV::StringLiteral(p), sp)) => r matches Ok((IncludePath::ProjectRelative(v), vs))
                && v@ == p && vs == sp && final(src)@ == old(src)@.skip(
                skip_block_comments(old(src)@, 0) + 1,
            ),
            Some((TokenV::Lt, _)) => true,
            Some((t, sp)) => r matches Err(e) && expected_error(e, sp, Some(t), "an include path"),
        },
        // `<path>` on one line, its tokens read one by one, as they are: the
        // text between `<` and `>`
        ({
            let s = old(src)@;
            let std = keyword_standard(old(state).curr_standard@);
            let e = angle_end(s, std, 1);
            s.len() > 0 && under_standard(s[0].0@, std) is Lt && plain_upto(s, e + 1) && old(state).budget
                > e + 3 ==> if e < s.len() && under_standard(s[e].0@, std) is Gt {
                match angle_path(old(state).files@, s[0].1, s[e].1) {
                    Some((p, sp)) => r matches Ok((IncludePath::ToolRelative(v), vs)) && v@ == p && vs == sp
                        && final(src)@ == s.skip(e + 1),
                    None => r matches Err(x) && expected_error(x, s[0].1, Some(TokenV::Lt), "an include path"),
                }
            } else {
                r matches Err(x) && expected_error(x, s[0].1, Some(TokenV::Lt), "an include path")
            }
        }),
    decreases old(state).budget, 0nat,
{
    let ghost s = src@;
    let ghost std = keyword_standard(state.curr_standard@);
    let ghost e = angle_end(s, std, 1);
    let ghost angled = s.len() > 0 && under_standard(s[0].0@, std) is Lt && plain_upto(s, e + 1)
        && old(state).budget > e + 3;
    proof {
        if s.len() > 0 {
            lemma_angle_end(s, std, 1);
        }
    }
    proof {
        lemma_skip_block_comments(src@, 0);
    }
    if !state.spend() {
        return Err(PreprocessorError::StepLimit);
    }
    let ghost s0 = *state;
    let first = preprocess_single(src, state);
    proof {
        lemma_evolves_trans(*old(state), s0, *state);
    }
    let first = match first {
        Err(e) => {
            return Err(e);
        },
        Ok(f) => f,
    };
    let t = match first {
        None => {
            return Err(
                PreprocessorError::IncompleteDirective { directive_span: include_span.clone() },
            );
        },
        Some(t) => t,
    };
    match &t.0 {
        Token::StringLiteral(text) => {
            let path = copy_bytes(text.as_slice());
            Ok((IncludePath::ProjectRelative(path), t.1))
        },
        Token::Lt => {
            let ghost mut i: int = 1;
            proof {
                if angled {
                    assert(src@ =~= s.skip(1));
                }
            }
            loop
                invariant
                    evolves(*old(state), *state),
                    state.curr_standard == old(state).curr_standard,
                    state.settings == old(state).settings,
                    state.budget < old(state).budget,
                    plain_next(old(src)@, old(state).budget - 1) ==> next_plain_token(
                        old(src)@,
                        keyword_standard(old(state).curr_standard@),
                    ) matches Some((TokenV::Lt, _)),
                    s == old(src)@,
                    std == keyword_standard(old(state).curr_standard@),
                    e == angle_end(s, std, 1),
                    angled == (s.len() > 0 && under_standard(s[0].0@, std) is Lt && plain_upto(s, e + 1)
                        && old(state).budget > e + 3),
                    angled ==> {
                        &&& 1 <= i <= e
                        &&& e <= s.len()
                        &&& angle_end(s, std, i) == e
                        &&& src@ == s.skip(i)
                        &&& state.budget == old(state).budget - 1 - i
                        &&& state.errors == old(state).errors
                        &&& t@ == (TokenV::Lt, s[0].1)
                    },
                decreases state.budget,
            {
                let ghost s1 = *state;
                proof {
                    if angled {
                        lemma_skip_block_comments(src@, 0);
                        if i < s.len() {
                            assert(src@[0] == s[i]);
                        }
                    }
                }
                let next = preprocess_single(src, state);
                proof {
                    lemma_evolves_trans(*old(state), s1, *state);
                }
                let next = match next? {
                    None => {
                        let SpannedToken(tok, span) = t;
                        return Err(expected(span, Some(tok), "an include path"));
                    },
                    Some(n) => n,
                };
                if matches!(next.0, Token::Newline) {
                    let SpannedToken(tok, span) = t;
                    return Err(expected(span, Some(tok), "an include path"));
                }
                if matches!(next.0, Token::Gt) {
                    let mut path_span = t.1.clone();
                    path_span.start = t.1.end;
                    path_span.end = next.1.start;
                    let path = match state.get_slice(&path_span) {
                        Some(p) => p,
                        None => {
                            let SpannedToken(tok, span) = t;
                            return Err(expected(span, Some(tok), "an include path"));
                        },
                    };
                    let mut overall = next.1.clone();
                    overall.start = t.1.start;
                    return Ok((IncludePath::ToolRelative(path), overall));
                }
                proof {
                    if angled {
                        lemma_angle_end(s, std, i + 1);
                        i = i + 1;
                        assert(src@ =~= s.skip(i));
                    }
                }
            }
        },
        _ => {
            let SpannedToken(tok, span) = t;
            Err(expected(span, Some(tok), "an include path"))
        },
    }
}

/// `` `include ``: the tokens of the file named (one known to the state)
/// are pushed on the front of the stream, their spans recording the
/// inclusion
pub fn preprocess_include<H: PragmaHandler>(
    src: &mut TokenIterator,
    state: &mut PreprocessorState<H>,
    include_span: &Span,
) -> (r: Result<(), PreprocessorError>)
    ensures
        evolves(*old(state), *final(state)),
        final(state).curr_standard == old(state).curr_standard,
        final(state).settings == old(state).settings,
        r matches Err(e) ==> e.reportable(),
        old(state).budget > 0 && include_span.depth() >= MAX_INCLUDE_DEPTH ==> (r matches Err(
            PreprocessorError::IncludeDepth { include_span: s },
        ) && s == *include_span && final(src)@ == old(src)@ && final(state).errors == old(state).errors
            && final(state).defines == old(state).defines && final(state).line_directives == old(
            state,
        ).line_directives && final(state).pragma_handlers == old(state).pragma_handlers
            && final(state).budget == old(state).budget - 1),
        r is Ok ==> include_span.depth() < MAX_INCLUDE_DEPTH,
        // a quoted name: the first file known under that name is read in
        // front of the rest of the stream; with none, the include fails
        ({
            let s = old(src)@;
            let files = old(state).files@;
            old(state).budget > 1 && plain_next(s, old(state).budget - 2) && include_span.depth()
                < MAX_INCLUDE_DEPTH ==> match next_plain_token(
                s,
                keyword_standard(old(state).curr_standard@),
            ) {
                Some((TokenV::StringLiteral(p), _)) => {
                    &&& (forall|i: int| 0 <= i < files.len() ==> #[trigger] files[i].name@ != p) ==> (r matches Err(
                        PreprocessorError::Include { include_span: x },
                    ) && x == *include_span)
                    &&& forall|i: int|
                        0 <= i < files.len() && #[trigger] files[i].name@ == p && (forall|j: int|
                            0 <= j < i ==> #[trigger] files[j].name@ != p) ==> {
                            &&& r is Ok
                            &&& exists|toks: Seq<SpannedToken>|
                                #[trigger] lexed(files[i].contents@, i as usize, Some(Box::new(*include_span)), toks)
                                    && final(src)@ == toks + s.skip(skip_block_comments(s, 0) + 1)
                        }
                },
                None => r matches Err(PreprocessorError::IncompleteDirective { directive_span: d })
                    && d == *include_span,
                // `<path>`: the clause below
                Some((TokenV::Lt, _)) => true,
                Some((t, sp)) => r matches Err(e) && expected_error(e, sp, Some(t), "an include path"),
            }
        }),
        // `<path>` on one line, its tokens read one by one, as they are: the
        // first file known under the text between `<` and `>` is read in
        // front of the rest of the stream; with none, the include fails; a
        // path cut off by a line break or the end is refused
        ({
            let s = old(src)@;
            let std = keyword_standard(old(state).curr_standard@);
            let e = angle_end(s, std, 1);
            let files = old(state).files@;
            s.len() > 0 && under_standard(s[0].0@, std) is Lt && plain_upto(s, e + 1) && old(state).budget
                > e + 4 && include_span.depth() < MAX_INCLUDE_DEPTH ==> if e < s.len() && under_standard(
                s[e].0@,
                std,
            ) is Gt {
                match angle_path(files, s[0].1, s[e].1) {
                    Some((p, _)) => {
                        &&& (forall|i: int| 0 <= i < files.len() ==> #[trigger] files[i].name@ != p) ==> (r matches Err(
                            PreprocessorError::Include { include_span: x },
                        ) && x == *include_span)
                        &&& forall|i: int|
                            0 <= i < files.len() && #[trigger] files[i].name@ == p && (forall|j: int|
                                0 <= j < i ==> #[trigger] files[j].name@ != p) ==> {
                                &&& r is Ok
                                &&& exists|toks: Seq<SpannedToken>|
                                    #[trigger] lexed(files[i].contents@, i as usize, Some(Box::new(*include_span)), toks)
                                        && final(src)@ == toks + s.skip(e + 1)
                            }
                    },
                    None => r matches Err(x) && expected_error(x, s[0].1, Some(TokenV::Lt), "an include path"),
                }
            } else {
                r matches Err(x) && expected_error(x, s[0].1, Some(TokenV::Lt), "an include path")
            }
        }),
        r is Ok ==> exists|i: usize, n: int|
            i < final(state).files@.len() && 0 <= n <= final(src)@.len() && #[trigger] lexed(
                final(state).files@[i as int].contents@,
                i,
                Some(Box::new(*include_span)),
                final(src)@.take(n),
            ),
    decreases old(state).budget, 0nat,
{
    proof {
        if src@.len() > 0 {
            lemma_angle_end(src@, keyword_standard(state.curr_standard@), 1);
        }
    }
    if !state.spend() {
        return Err(PreprocessorError::StepLimit);
    }
    if include_span.inclusion_depth() >= MAX_INCLUDE_DEPTH {
        return Err(PreprocessorError::IncludeDepth { include_span: include_span.clone() });
    }
    let ghost s0 = *state;
    let res = get_include_path(src, state, include_span);
    proof {
        lemma_evolves_trans(*old(state), s0, *state);
    }
    let (path, _path_span) = res?;
    let text = match path {
        IncludePath::ProjectRelative(t) => t,
        IncludePath::ToolRelative(t) => t,
    };
    let idx = match state.find_file(text.as_slice()) {
        Some(i) => i,
        None => {
            return Err(PreprocessorError::Include { include_span: include_span.clone() });
        },
    };
    let inc = Some(Box::new(include_span.clone()));
    let toks = lex(state.files[idx].contents.as_slice(), idx, &inc);
    assert(inc == Some(Box::new(*include_span)));
    let ghost n = toks@.len();
    let ghost before = src@;
    let ghost lexed_toks = toks@;
    src.prepend_tokens(toks);
    proof {
        assert(src@.take(n as int) =~= toks@);
        assert(lexed(state.files@[idx as int].contents@, idx, Some(Box::new(*include_span)), src@.take(n as int)));
        assert(src@ =~= lexed_toks + before);
        let files = old(state).files@;
        assert forall|i: int|
            0 <= i < files.len() && #[trigger] files[i].name@ == text@ && (forall|j: int|
                0 <= j < i ==> #[trigger] files[j].name@ != text@) implies i == idx by {
            if i < idx {
                assert(files[i].name@ != text@);
            } else if i > idx {
                assert(files[idx as int].name@ != text@);
            }
        }
        assert(files == state.files@);
        assert(lexed(files[idx as int].contents@, (idx as int) as usize, Some(Box::new(*include_span)), lexed_toks));
    }
    Ok(())
}

} // verus!
