//! Preprocessing a token stream: elaborating compiler directives and
//! expanding text macros

use crate::conditional::{
    flat_conditional, flat_text, lemma_flat_text_empty, lemma_flat_text_step, preprocess_ifdef,
};
use crate::define::{preprocess_define, preprocess_macro, preprocess_undefine};
use crate::error::PreprocessorError;
use crate::inclusion::preprocess_include;
use crate::keyword_directives::{preprocess_begin_keyword, preprocess_end_keyword};
use crate::keywords::{Keyword, KeywordStandard};
use crate::line::{file_name_of, line_of, line_text, preprocess_line};
use crate::number::preprocess_possible_number;
use crate::pragma::{preprocess_pragma, PragmaHandler};
use crate::settings::{
    preprocess_default_nettype, preprocess_nounconnected_drive, preprocess_timescale,
    preprocess_unconnected_drive,
};
use crate::span::Span;
use crate::define::{
    arg_views, args_complete, lemma_split_args_range, lemma_split_args_v, macro_values, split_args,
    split_args_v, substitution, text_expansion,
};
use crate::spanned_token::{view_tokens, SpannedToken};
use crate::state::{
    define_index, handler_names, MacroParameter, keyword_standard, evolves, lemma_evolves_trans, Define, DefineBody, Mode,
    PreprocessorState,
};
use crate::token::{Directive, Token, TokenV};
use crate::token_iter::TokenIterator;
use crate::util::{append_bytes, copy_bytes};
use vstd::prelude::*;
use vstd::string::StringSliceAdditionalSpecFns;

verus! {

/// The text of a keyword token, as an identifier
pub open spec fn identifier_text(t: TokenV) -> Option<&'static str> {
    match t {
        TokenV::Keyword(k) => Some(k.text()),
        _ => None,
    }
}

/// Convert a keyword token into an identifier (its text)
pub fn into_identifier(token: &Token) -> (r: Option<&'static str>)
    ensures
        r == identifier_text(token@),
{
    match token {
        Token::Keyword(k) => Some(k.as_str()),
        _ => None,
    }
}

/// Whether a token is a keyword that the given standard does not reserve
/// (and so reads as an identifier)
pub open spec fn replaced_by_identifier(t: TokenV, standard: KeywordStandard) -> bool {
    match t {
        TokenV::Keyword(k) => !k.reserved_in(standard),
        _ => false,
    }
}

/// A token as read under the given standard: a keyword that the standard
/// does not reserve is an identifier
pub open spec fn under_standard(t: TokenV, standard: KeywordStandard) -> TokenV {
    match t {
        TokenV::Keyword(k) => if k.reserved_in(standard) {
            t
        } else {
            TokenV::SimpleIdentifier(k.bytes())
        },
        _ => t,
    }
}

pub fn keyword_replace(token: &Token, standard: KeywordStandard) -> (r: bool)
    ensures
        r == replaced_by_identifier(token@, standard),
{
    match token {
        Token::Keyword(k) => !k.is_reserved_in(standard),
        _ => false,
    }
}

/// A token read under the given standard
pub fn apply_standard(t: SpannedToken, standard: KeywordStandard) -> (r: SpannedToken)
    ensures
        r@ == (under_standard(t.0@, standard), t.1),
{
    let SpannedToken(tok, span) = t;
    match tok {
        Token::Keyword(k) => {
            if k.is_reserved_in(standard) {
                SpannedToken(Token::Keyword(k), span)
            } else {
                let mut text = Vec::new();
                append_bytes(&mut text, k.as_str().as_bytes());
                assert(text@ =~= k.bytes());
                SpannedToken(Token::SimpleIdentifier(text), span)
            }
        },
        other => SpannedToken(other, span),
    }
}

/// The position of the first line break not escaped by a preceding
/// backslash, at or after `i`
pub open spec fn next_unescaped_newline(s: Seq<SpannedToken>, i: int) -> Option<int>
    decreases s.len() - i,
{
    if i < 0 || i >= s.len() {
        None
    } else if s[i].0 is Bslash && i + 1 < s.len() && s[i + 1].0 is Newline {
        next_unescaped_newline(s, i + 2)
    } else if s[i].0 is Newline {
        Some(i)
    } else {
        next_unescaped_newline(s, i + 1)
    }
}

/// Go past the next line break not escaped by a backslash, returning
/// whether there was one (if not, the stream is used up)
pub fn recover_newline(src: &mut TokenIterator) -> (r: bool)
    ensures
        match next_unescaped_newline(old(src)@, 0) {
            Some(j) => r && final(src)@ == old(src)@.skip(j + 1),
            None => !r && final(src)@.len() == 0,
        },
{
    let ghost orig = src@;
    let ghost mut pos: int = 0;
    loop
        invariant
            0 <= pos <= orig.len(),
            orig == old(src)@,
            src@ == orig.skip(pos),
            next_unescaped_newline(orig, pos) == next_unescaped_newline(orig, 0),
        decreases src@.len(),
    {
        let cur = match src.next() {
            Some(t) => t,
            None => {
                assert(pos == orig.len());
                return false;
            },
        };
        proof {
            assert(cur == orig[pos]);
            assert(src@ =~= orig.skip(pos + 1));
        }
        let escaped = match &cur.0 {
            Token::Bslash => match src.peek() {
                Some(next) => matches!(next.0, Token::Newline),
                None => false,
            },
            _ => false,
        };
        if escaped {
            let _newline = src.next();
            proof {
                assert(src@ =~= orig.skip(pos + 2));
                pos = pos + 2;
            }
        } else if matches!(cur.0, Token::Newline) {
            return true;
        } else {
            proof {
                pos = pos + 1;
            }
        }
    }
}

/// How the preprocessor goes on after an error
pub enum Recovery {
    /// The error is recorded and preprocessing goes on
    Recorded,
    /// The rest of the line is skipped, then as `Recorded`
    SkipLine,
    /// Preprocessing cannot go on
    Fatal,
}

pub open spec fn recovery(e: PreprocessorError) -> Recovery {
    match e {
        PreprocessorError::Endif { .. } => Recovery::Recorded,
        PreprocessorError::NoEndif { .. } => Recovery::Fatal,
        PreprocessorError::Elsif { .. } => Recovery::Recorded,
        PreprocessorError::Else { .. } => Recovery::Recorded,
        PreprocessorError::EndKeywords { .. } => Recovery::Recorded,
        PreprocessorError::NoEndKeywords { .. } => Recovery::Fatal,
        PreprocessorError::RedefinedDirective { .. } => Recovery::SkipLine,
        PreprocessorError::InvalidDefineParameter { .. } => Recovery::SkipLine,
        PreprocessorError::InvalidDefineArgument { .. } => Recovery::SkipLine,
        PreprocessorError::InvalidVersionSpecifier { .. } => Recovery::Recorded,
        PreprocessorError::IncompleteDirective { .. } => Recovery::SkipLine,
        PreprocessorError::IncompleteDefine { .. } => Recovery::SkipLine,
        PreprocessorError::UndefinedMacro { .. } => Recovery::Recorded,
        PreprocessorError::DuplicateMacroParameter { .. } => Recovery::SkipLine,
        PreprocessorError::NoMacroArguments { .. } => Recovery::Recorded,
        PreprocessorError::TooManyMacroArguments { .. } => Recovery::Recorded,
        PreprocessorError::MissingMacroArgument { .. } => Recovery::Recorded,
        PreprocessorError::InvalidIdentifierFormation { .. } => Recovery::Recorded,
        PreprocessorError::InvalidRelativeTimescales { .. } => Recovery::Recorded,
        PreprocessorError::IncompleteMacroWithToken { .. } => Recovery::SkipLine,
        PreprocessorError::Include { .. } => Recovery::Recorded,
        PreprocessorError::IncludeDepth { .. } => Recovery::Recorded,
        PreprocessorError::VerboseError { .. } => Recovery::SkipLine,
        PreprocessorError::IllegalInDesignUnit { .. } => Recovery::Recorded,
        _ => Recovery::Fatal,
    }
}

/// Go on after an error if possible: record it (skipping the rest of the
/// line for errors within a directive's line), or hand it back if
/// preprocessing cannot go on
pub fn recover<H>(
    src: &mut TokenIterator,
    state: &mut PreprocessorState<H>,
    err: PreprocessorError,
) -> (r: Result<(), PreprocessorError>)
    requires
        err.reportable(),
    ensures
        evolves(*old(state), *final(state)),
        final(state).defines == old(state).defines,
        final(state).curr_standard == old(state).curr_standard,
        final(state).settings == old(state).settings,
        final(state).design_depth == old(state).design_depth,
        final(state).budget == old(state).budget,
        final(state).line_directives == old(state).line_directives,
        final(state).cell_define == old(state).cell_define,
        final(state).pragma_handlers == old(state).pragma_handlers,
        final(state).mode == old(state).mode,
        match recovery(err) {
            Recovery::Recorded => r is Ok && final(state).errors@ == old(state).errors@.push(err)
                && final(src)@ == old(src)@,
            Recovery::SkipLine => match next_unescaped_newline(old(src)@, 0) {
                Some(j) => r is Ok && final(state).errors@ == old(state).errors@.push(err)
                    && final(src)@ == old(src)@.skip(j + 1),
                None => r == Err::<(), PreprocessorError>(err) && final(state).errors
                    == old(state).errors && final(src)@.len() == 0,
            },
            Recovery::Fatal => r == Err::<(), PreprocessorError>(err) && final(state).errors
                == old(state).errors && final(src)@ == old(src)@,
        },
{
    let recovered = match &err {
        PreprocessorError::Endif { .. } => true,
        PreprocessorError::NoEndif { .. } => false,
        PreprocessorError::Elsif { .. } => true,
        PreprocessorError::Else { .. } => true,
        PreprocessorError::EndKeywords { .. } => true,
        PreprocessorError::NoEndKeywords { .. } => false,
        PreprocessorError::RedefinedDirective { .. } => recover_newline(src),
        PreprocessorError::InvalidDefineParameter { .. } => recover_newline(src),
        PreprocessorError::InvalidDefineArgument { .. } => recover_newline(src),
        PreprocessorError::InvalidVersionSpecifier { .. } => true,
        PreprocessorError::IncompleteDirective { .. } => recover_newline(src),
        PreprocessorError::IncompleteDefine { .. } => recover_newline(src),
        PreprocessorError::UndefinedMacro { .. } => true,
        PreprocessorError::DuplicateMacroParameter { .. } => recover_newline(src),
        PreprocessorError::NoMacroArguments { .. } => true,
        PreprocessorError::TooManyMacroArguments { .. } => true,
        PreprocessorError::MissingMacroArgument { .. } => true,
        PreprocessorError::InvalidIdentifierFormation { .. } => true,
        PreprocessorError::InvalidRelativeTimescales { .. } => true,
        PreprocessorError::IncompleteMacroWithToken { .. } => recover_newline(src),
        PreprocessorError::Include { .. } => true,
        PreprocessorError::IncludeDepth { .. } => true,
        PreprocessorError::VerboseError { .. } => recover_newline(src),
        PreprocessorError::IllegalInDesignUnit { .. } => true,
        _ => false,
    };
    if recovered {
        state.err(err);
        Ok(())
    } else {
        Err(err)
    }
}

/// Whether a preprocessing error may come out of [`preprocess_helper`] in
/// the given mode: the line-end signal only while reading a define, the
/// argument-end signal only while reading an argument, and no warning
pub open spec fn helper_error(e: PreprocessorError, mode: Mode) -> bool {
    &&& !e.warning()
    &&& e is NewlineInDefine ==> (mode == Mode::Define || mode == Mode::DefineArg)
    &&& e is EndOfFunctionArgument ==> (mode == Mode::DefineArg || mode == Mode::TextMacroArg)
}

/// Tokens that the preprocessor leaves as they are in ordinary source text
/// (where the keyword standard is the one given)
pub open spec fn passes_through(t: TokenV, standard: KeywordStandard) -> bool {
    &&& !(t is Directive)
    &&& !(t is TextMacro)
    &&& !(t is Apost)
    &&& !(t is UnsignedNumber)
    &&& !replaced_by_identifier(t, standard)
}

/// Tokens that the preprocessor drops from ordinary source text
pub open spec fn dropped(t: TokenV) -> bool {
    t is Newline || t is BlockComment || t is OnelineComment
}

/// The tokens of a sequence that are not dropped
pub open spec fn kept(s: Seq<SpannedToken>) -> Seq<SpannedToken>
    decreases s.len(),
{
    if s.len() == 0 {
        s
    } else if dropped(s.last().0@) {
        kept(s.drop_last())
    } else {
        kept(s.drop_last()).push(s.last())
    }
}

/// Preprocess tokens until the stream ends, or until a signal that the
/// caller handles: the end of a conditional branch (`` `else ``,
/// `` `elsif ``, `` `endif ``), the end of a define's line, or the end of
/// a macro argument
pub fn preprocess_helper<H: PragmaHandler>(
    src: &mut TokenIterator,
    dest: &mut Vec<SpannedToken>,
    state: &mut PreprocessorState<H>,
) -> (r: Result<(), PreprocessorError>)
    ensures
        old(state).mode != Mode::Normal ==> final(state).defines == old(state).defines,
        evolves(*old(state), *final(state)),
        r matches Err(e) ==> helper_error(e, old(state).mode),
        r is Ok ==> final(src)@.len() == 0,
        old(state).mode != Mode::Normal ==> final(state).curr_standard == old(state).curr_standard,
        old(state).mode != Mode::Normal ==> final(state).settings == old(state).settings,
        old(state).budget == 0 ==> r matches Err(PreprocessorError::StepLimit),
        old(state).budget > 0 ==> final(state).budget < old(state).budget,
        // ordinary text without directives, macros or numbers to re-read
        // passes through, less line breaks and comments
        old(state).mode == Mode::Normal && old(state).budget > old(src)@.len() + 1 && (forall|i: int|
            0 <= i < old(src)@.len() ==> passes_through(
                #[trigger] old(src)@[i].0@,
                keyword_standard(old(state).curr_standard@),
            )) ==> r is Ok && final(dest)@ == old(dest)@ + kept(old(src)@)
                && final(state).errors == old(state).errors
                && final(state).curr_standard == old(state).curr_standard
                && final(state).settings == old(state).settings,
        // in ordinary text, the tokens that pass through do so up to the end
        // or to the end of a conditional branch, which is handed back
        ({
            let s = old(src)@;
            let m = first_stop(s, keyword_standard(old(state).curr_standard@), 0);
            old(state).mode == Mode::Normal && old(state).budget > m + 1 && (m < s.len() ==> old(
                state,
            ).budget > m + 2 && ends_branch(s[m].0@)) ==> {
                &&& final(dest)@ == old(dest)@ + kept(s.take(m))
                &&& final(state).errors == old(state).errors
                &&& final(state).defines == old(state).defines
                &&& old(state).budget - final(state).budget <= m + 3
                &&& final(state).curr_standard == old(state).curr_standard
                &&& final(state).settings == old(state).settings
                &&& if m < s.len() {
                    r == Err::<(), PreprocessorError>(branch_signal(s[m].0@, s[m].1)) && final(src)@
                        == s.skip(m + 1)
                } else {
                    r is Ok
                }
            }
        }),
        // text of tokens that pass through and of conditionals whose
        // branches hold such tokens: the tokens kept of the branches kept
        ({
            let s = old(src)@;
            old(state).mode == Mode::Normal && old(state).budget > 4 * s.len() + 3 ==> match flat_text(
                s,
                old(state).defines@,
                keyword_standard(old(state).curr_standard@),
            ) {
                Some(out) => {
                    &&& r is Ok
                    &&& final(dest)@ == old(dest)@ + out
                    &&& final(state).errors == old(state).errors
                    &&& final(state).defines == old(state).defines
                    &&& final(state).curr_standard == old(state).curr_standard
                    &&& final(state).settings == old(state).settings
                },
                None => true,
            }
        }),
        // text of tokens that pass through and of macro uses (as
        // `expanded_text` describes them): each use replaced by the tokens
        // kept of its expansion (for a macro with parameters, its body with
        // each parameter replaced by its argument), and each use of a macro
        // that is not defined recorded as an error
        ({
            let s = view_tokens(old(src)@);
            old(state).mode == Mode::Normal && old(state).budget > expanded_cost(s, old(state).defines@, keyword_standard(old(state).curr_standard@))
                + 1 ==> match expanded_text(
                s,
                old(state).defines@,
                keyword_standard(old(state).curr_standard@),
            ) {
                Some(out) => {
                    &&& r is Ok
                    &&& view_tokens(final(dest)@) == view_tokens(old(dest)@) + out
                    &&& final(state).errors@ == old(state).errors@ + expanded_errors(s, old(state).defines@, keyword_standard(old(state).curr_standard@))
                    &&& final(state).defines == old(state).defines
                    &&& final(state).curr_standard == old(state).curr_standard
                    &&& final(state).settings == old(state).settings
                },
                None => true,
            }
        }),
        // in a macro argument, plain tokens are kept up to the `,` or `)`
        // that ends it, which is handed back
        ({
            let s = old(src)@;
            old(state).mode == Mode::TextMacroArg || old(state).mode == Mode::DefineArg ==> match arg_end(
                s,
                0,
                Seq::empty(),
            ) {
                Some(j) => old(state).budget > j + 2 && (old(state).mode == Mode::DefineArg
                    ==> no_line_break(s, j)) ==> {
                    &&& r == Err::<(), PreprocessorError>(
                        PreprocessorError::EndOfFunctionArgument(s[j]),
                    )
                    &&& final(dest)@ == old(dest)@ + s.take(j)
                    &&& final(src)@ == s.skip(j + 1)
                    &&& final(state).errors == old(state).errors
                    &&& old(state).budget - final(state).budget == j + 2
                },
                None => true,
            }
        }),
        // the body of a define with nothing to elaborate is the tokens up to
        // the line break
        old(state).mode == Mode::Define && plain_define_line(old(src)@) && old(state).budget
            > first_newline(old(src)@, 0) + 2 ==> {
            let n = first_newline(old(src)@, 0);
            &&& final(dest)@ == old(dest)@ + old(src)@.take(n)
            &&& final(state).errors == old(state).errors
            &&& final(state).defines == old(state).defines
            &&& if n < old(src)@.len() {
                &&& r == Err::<(), PreprocessorError>(
                    PreprocessorError::NewlineInDefine(old(src)@[n].1),
                )
                &&& final(src)@ == old(src)@.skip(n + 1)
            } else {
                r is Ok
            }
        },
        // the body of a define: its line, an escaped line break kept as a
        // line break
        old(state).mode == Mode::Define ==> match define_line(old(src)@, 0) {
            Some((b, e)) => old(state).budget > e + 2 ==> {
                &&& final(dest)@ == old(dest)@ + b
                &&& final(state).errors == old(state).errors
                &&& final(state).defines == old(state).defines
                &&& if e < old(src)@.len() {
                    &&& r == Err::<(), PreprocessorError>(
                        PreprocessorError::NewlineInDefine(old(src)@[e].1),
                    )
                    &&& final(src)@ == old(src)@.skip(e + 1)
                } else {
                    r is Ok
                }
            },
            None => true,
        },
    decreases old(state).budget, 0nat,
{
    proof {
        lemma_define_line(src@, 0);
        lemma_first_newline(src@, 0);
        lemma_first_stop(src@, keyword_standard(state.curr_standard@), 0);
        lemma_arg_end_range(src@, 0, Seq::empty());
        assert(src@.take(src@.len() as int) =~= src@);
        lemma_expanded_cost(view_tokens(src@), state.defines@, keyword_standard(state.curr_standard@));
    }
    if !state.spend() {
        return Err(PreprocessorError::StepLimit);
    }
    if state.in_define() || state.in_define_arg() || state.in_text_macro_arg() {
        preprocess_macro_text(src, dest, state)
    } else {
        preprocess_source(src, dest, state)
    }
}

} // verus!

verus! {

pub open spec fn opens_design_element(t: TokenV) -> bool {
    t matches TokenV::Keyword(k) && (k == Keyword::Module || k == Keyword::Program || k
        == Keyword::Interface || k == Keyword::Checker || k == Keyword::Package || k
        == Keyword::Primitive || k == Keyword::Config)
}

pub open spec fn closes_design_element(t: TokenV) -> bool {
    t matches TokenV::Keyword(k) && (k == Keyword::Endmodule || k == Keyword::Endprogram || k
        == Keyword::Endinterface || k == Keyword::Endchecker || k == Keyword::Endpackage || k
        == Keyword::Endprimitive || k == Keyword::Endconfig)
}

fn design_element_edge(t: &Token) -> (r: u8)
    ensures
        r == 1 <==> opens_design_element(t@),
        r == 2 <==> closes_design_element(t@),
        r <= 2,
{
    match t {
        Token::Keyword(k) => match k {
            Keyword::Module | Keyword::Program | Keyword::Interface | Keyword::Checker
            | Keyword::Package | Keyword::Primitive | Keyword::Config => 1,
            Keyword::Endmodule | Keyword::Endprogram | Keyword::Endinterface | Keyword::Endchecker
            | Keyword::Endpackage | Keyword::Endprimitive | Keyword::Endconfig => 2,
            _ => 0,
        },
        _ => 0,
    }
}

proof fn lemma_kept_push(s: Seq<SpannedToken>, k: int)
    requires
        0 <= k < s.len(),
    ensures
        kept(s.take(k + 1)) == if dropped(s[k].0@) {
            kept(s.take(k))
        } else {
            kept(s.take(k)).push(s[k])
        },
{
    assert(s.take(k + 1).drop_last() =~= s.take(k));
}

/// Whether a step changed nothing of the state but its budget
pub open spec fn unchanged_but_budget<H>(a: PreprocessorState<H>, b: PreprocessorState<H>) -> bool {
    &&& b.files == a.files
    &&& b.defines == a.defines
    &&& b.errors == a.errors
    &&& b.curr_standard == a.curr_standard
    &&& b.line_directives == a.line_directives
    &&& b.settings == a.settings
    &&& b.design_depth == a.design_depth
    &&& b.cell_define == a.cell_define
    &&& b.pragma_handlers == a.pragma_handlers
    &&& b.mode == a.mode
}

/// Whether a token ends a conditional branch: `` `else ``, `` `elsif ``
/// or `` `endif ``
pub open spec fn ends_branch(t: TokenV) -> bool {
    ||| t == TokenV::Directive(Directive::Else)
    ||| t == TokenV::Directive(Directive::Elsif)
    ||| t == TokenV::Directive(Directive::Endif)
}

/// The signal handed to the caller at the end of a conditional branch
pub open spec fn branch_signal(t: TokenV, span: Span) -> PreprocessorError {
    if t == TokenV::Directive(Directive::Else) {
        PreprocessorError::Else { else_span: span }
    } else if t == TokenV::Directive(Directive::Elsif) {
        PreprocessorError::Elsif { elsif_span: span }
    } else {
        PreprocessorError::Endif { endif_span: span }
    }
}

/// The position of the first token at or after `i` that does not pass
/// through (`s.len()` when there is none)
pub open spec fn first_stop(s: Seq<SpannedToken>, standard: KeywordStandard, i: int) -> int
    decreases s.len() - i,
{
    if i < 0 || i >= s.len() {
        s.len() as int
    } else if passes_through(s[i].0@, standard) {
        first_stop(s, standard, i + 1)
    } else {
        i
    }
}

/// The first stop lies between `i` and the end, and every token before it
/// passes through
pub proof fn lemma_first_stop(s: Seq<SpannedToken>, standard: KeywordStandard, i: int)
    requires
        0 <= i <= s.len(),
    ensures
        i <= first_stop(s, standard, i) <= s.len(),
        forall|j: int| i <= j < first_stop(s, standard, i) ==> passes_through(#[trigger] s[j].0@, standard),
        first_stop(s, standard, i) < s.len() ==> !passes_through(s[first_stop(s, standard, i)].0@, standard),
        (forall|j: int| i <= j < s.len() ==> passes_through(#[trigger] s[j].0@, standard))
            ==> first_stop(s, standard, i) == s.len(),
    decreases s.len() - i,
{
    if i < s.len() && passes_through(s[i].0@, standard) {
        lemma_first_stop(s, standard, i + 1);
    }
}

/// Preprocess ordinary source text (see [`preprocess_helper`])
#[verifier::rlimit(80)]
fn preprocess_source<H: PragmaHandler>(
    src: &mut TokenIterator,
    dest: &mut Vec<SpannedToken>,
    state: &mut PreprocessorState<H>,
) -> (r: Result<(), PreprocessorError>)
    requires
        old(state).mode == Mode::Normal,
    ensures
        evolves(*old(state), *final(state)),
        r matches Err(e) ==> e.reportable(),
        r is Ok ==> final(src)@.len() == 0,
        // the tokens that pass through do so, less line breaks and
        // comments, up to the end or the end of a conditional branch
        ({
            let s = old(src)@;
            let m = first_stop(s, keyword_standard(old(state).curr_standard@), 0);
            old(state).budget > m && (m < s.len() ==> old(state).budget > m + 1 && ends_branch(
                s[m].0@,
            )) ==> {
                &&& final(dest)@ == old(dest)@ + kept(s.take(m))
                &&& final(state).errors == old(state).errors
                &&& final(state).defines == old(state).defines
                &&& old(state).budget - final(state).budget <= m + 2
                &&& final(state).curr_standard == old(state).curr_standard
                &&& final(state).settings == old(state).settings
                &&& if m < s.len() {
                    r == Err::<(), PreprocessorError>(branch_signal(s[m].0@, s[m].1)) && final(src)@
                        == s.skip(m + 1)
                } else {
                    r is Ok
                }
            }
        }),
        // text of tokens that pass through and of conditionals whose
        // branches hold such tokens: the tokens kept of the branches kept
        ({
            let s = old(src)@;
            old(state).budget > 4 * s.len() + 2 ==> match flat_text(
                s,
                old(state).defines@,
                keyword_standard(old(state).curr_standard@),
            ) {
                Some(out) => {
                &&& r is Ok
                &&& final(dest)@ == old(dest)@ + out
                &&& final(state).errors == old(state).errors
                &&& final(state).defines == old(state).defines
                &&& final(state).curr_standard == old(state).curr_standard
                &&& final(state).settings == old(state).settings
                },
                None => true,
            }
        }),
        // text of tokens that pass through and of macro uses (as
        // `expanded_text` describes them): each use replaced by the tokens
        // kept of its expansion (for a macro with parameters, its body with
        // each parameter replaced by its argument), and each use of a macro
        // that is not defined recorded as an error
        ({
            let s = view_tokens(old(src)@);
            old(state).budget > expanded_cost(s, old(state).defines@, keyword_standard(old(state).curr_standard@)) ==> match expanded_text(
                s,
                old(state).defines@,
                keyword_standard(old(state).curr_standard@),
            ) {
                Some(out) => {
                    &&& r is Ok
                    &&& view_tokens(final(dest)@) == view_tokens(old(dest)@) + out
                    &&& final(state).errors@ == old(state).errors@ + expanded_errors(s, old(state).defines@, keyword_standard(old(state).curr_standard@))
                    &&& final(state).defines == old(state).defines
                    &&& final(state).curr_standard == old(state).curr_standard
                    &&& final(state).settings == old(state).settings
                    &&& old(state).budget - final(state).budget <= expanded_cost(s, old(state).defines@, keyword_standard(old(state).curr_standard@)) + 1
                },
                None => true,
            }
        }),
    decreases old(state).budget, 0nat,
{
    let ghost orig = src@;
    let ghost vs0 = view_tokens(src@);
    let ghost exp = old(state).budget > expanded_cost(vs0, state.defines@, keyword_standard(state.curr_standard@)) && expanded_text(
        vs0,
        state.defines@,
        keyword_standard(state.curr_standard@),
    ) is Some;
    let ghost eout = expanded_text(vs0, state.defines@, keyword_standard(state.curr_standard@))->0;
    proof {
        assert(view_tokens(old(dest)@) + eout =~= view_tokens(dest@) + eout);
    }
    let ghost std0 = keyword_standard(state.curr_standard@);
    let ghost defs0 = state.defines@;
    let ghost flat = old(state).budget > 4 * orig.len() + 2 && flat_text(orig, defs0, std0) is Some;
    let ghost out0 = flat_text(orig, defs0, std0)->0;
    let ghost mut p: int = 0;
    proof {
        assert(orig.skip(0) =~= orig);
        assert(old(dest)@ + out0 =~= old(dest)@ + out0);
    }
    let ghost m = first_stop(orig, std0, 0);
    let ghost plain = old(state).budget > m && (m < orig.len() ==> old(state).budget > m + 1
        && ends_branch(orig[m].0@));
    proof {
        lemma_first_stop(orig, std0, 0);
    }
    let ghost mut k: int = 0;
    loop
        invariant
            evolves(*old(state), *state),
            state.mode == Mode::Normal,
            state.budget <= old(state).budget,
            orig == old(src)@,
            std0 == keyword_standard(old(state).curr_standard@),
            m == first_stop(orig, std0, 0),
            0 <= m <= orig.len(),
            forall|j: int| 0 <= j < m ==> passes_through(#[trigger] orig[j].0@, std0),
            m < orig.len() ==> !passes_through(orig[m].0@, std0),
            plain == (old(state).budget > m && (m < orig.len() ==> old(state).budget > m + 1
                && ends_branch(orig[m].0@))),
            plain ==> {
                &&& 0 <= k <= m
                &&& src@ == orig.skip(k)
                &&& dest@ == old(dest)@ + kept(orig.take(k))
                &&& state.budget == old(state).budget - k
                &&& keyword_standard(state.curr_standard@) == std0
                &&& state.curr_standard == old(state).curr_standard
                &&& state.settings == old(state).settings
                &&& state.errors == old(state).errors
                &&& state.defines == old(state).defines
            },
            defs0 == old(state).defines@,
            flat == (old(state).budget > 4 * orig.len() + 2 && flat_text(orig, defs0, std0) is Some),
            out0 == flat_text(orig, defs0, std0)->0,
            vs0 == view_tokens(orig),
            exp == (old(state).budget > expanded_cost(vs0, defs0, std0) && expanded_text(vs0, defs0, std0) is Some),
            eout == expanded_text(vs0, defs0, std0)->0,
            exp ==> {
                &&& expanded_text(view_tokens(src@), defs0, std0) is Some
                &&& view_tokens(old(dest)@) + eout == view_tokens(dest@) + expanded_text(
                    view_tokens(src@),
                    defs0,
                    std0,
                )->0
                &&& old(state).budget - state.budget + expanded_cost(view_tokens(src@), defs0, std0)
                    <= expanded_cost(vs0, defs0, std0)
                &&& old(state).errors@ + expanded_errors(vs0, defs0, std0) == state.errors@ + expanded_errors(
                    view_tokens(src@),
                    defs0,
                    std0,
                )
                &&& state.defines == old(state).defines
                &&& state.curr_standard == old(state).curr_standard
                &&& state.settings == old(state).settings
            },
            flat ==> {
                &&& 0 <= p <= orig.len()
                &&& src@ == orig.skip(p)
                &&& flat_text(orig.skip(p), defs0, std0) is Some
                &&& old(dest)@ + out0 == dest@ + flat_text(orig.skip(p), defs0, std0)->0
                &&& state.errors == old(state).errors
                &&& state.defines == old(state).defines
                &&& state.curr_standard == old(state).curr_standard
                &&& state.settings == old(state).settings
                &&& old(state).budget - state.budget <= 4 * p
            },
        decreases state.budget,
    {
        let ghost before = *state;
        let ghost vsrc = view_tokens(src@);
        proof {
            lemma_expanded_cost(vsrc, defs0, std0);
        }
        if !state.spend() {
            return Err(PreprocessorError::StepLimit);
        }
        proof {
            lemma_evolves_trans(*old(state), before, *state);
        }
        let t = match src.next() {
            Some(t) => t,
            None => {
                proof {
                    if plain {
                        assert(k == orig.len());
                        assert(orig.take(k) =~= orig.take(m));
                    }
                    if flat {
                        assert(p == orig.len());
                        assert(orig.skip(p) =~= Seq::<SpannedToken>::empty());
                        lemma_flat_text_empty(defs0, std0);
                        assert(dest@ + Seq::<SpannedToken>::empty() =~= dest@);
                    }
                    if exp {
                        assert(vsrc.len() == 0);
                        assert(view_tokens(dest@) + Seq::<(TokenV, Span)>::empty() =~= view_tokens(dest@));
                        assert(state.errors@ + Seq::<PreprocessorError>::empty() =~= state.errors@);
                    }
                }
                return Ok(());
            },
        };
        proof {
            if plain {
                assert(t == orig[k]);
                assert(src@ =~= orig.skip(k + 1));
                if k < m {
                    lemma_kept_push(orig, k);
                }
            }
            if flat {
                assert(t == orig[p]);
                assert(src@ =~= orig.skip(p + 1));
                assert(orig.skip(p).skip(1) =~= orig.skip(p + 1));
                assert(orig.skip(p)[0] == t);
                lemma_flat_text_step(orig.skip(p), defs0, std0);
            }
        }
        let ghost mid = *state;
        let ghost dest_mid = dest@;
        let ghost src_mid = src@;
        let ghost fo = function_output(vsrc, defs0, std0);
        proof {
            if exp {
                assert(vsrc[0] == t@);
                assert(vsrc.skip(1) =~= view_tokens(src@));
                lemma_expanded_cost(vsrc.skip(1), defs0, std0);
                if fo is None {
                    assert(use_output(t@, defs0, std0) is Some);
                    assert(expanded_text(vsrc.skip(1), defs0, std0) is Some);
                    assert(expanded_cost(vsrc, defs0, std0) == use_cost(t@, defs0) + expanded_cost(vsrc.skip(1), defs0, std0));
                    assert(state.budget + 1 > expanded_cost(vsrc, defs0, std0));
                } else {
                    let fres = fo->0;
                    let c = fres.1;
                    lemma_expanded_cost(vsrc.skip(c), defs0, std0);
                    lemma_split_args_v(src@, 1);
                    lemma_split_args_range(src@, 1);
                    assert(view_tokens(src@)[0] == src@[0]@);
                    assert(src@[0].0 is Paren);
                    assert(state.budget > 2 * src@.len() + 4);
                }
            }
        }
        let ghost errs_mid = state.errors@;
        let step = preprocess_source_token(src, dest, state, t);
        proof {
            if exp && fo is Some {
                let fres = fo->0;
                let sub = fres.0;
                let c = fres.1;
                let e = c - 1;
                let after = src_mid.skip(e);
                assert(vsrc.skip(c) =~= view_tokens(after));
                lemma_expanded_text_pass(sub, view_tokens(after), defs0, std0);
                let y = expanded_text(view_tokens(after), defs0, std0)->0;
                assert(view_tokens(dest_mid) + (kept_values(sub) + y) =~= view_tokens(dest@) + (kept_values(sub) + y));
                assert(errs_mid + expanded_errors(vsrc.skip(c), defs0, std0) =~= state.errors@ + expanded_errors(vsrc.skip(c), defs0, std0));
            }
            if exp && fo is None {
                let y = expanded_text(vsrc.skip(1), defs0, std0)->0;
                let z = expanded_errors(vsrc.skip(1), defs0, std0);
                assert(expanded_errors(vsrc, defs0, std0) == use_errors(t@, defs0) + z);
                if passes_through(t.0@, std0) {
                    assert(use_errors(t@, defs0) =~= Seq::<PreprocessorError>::empty());
                    assert(errs_mid + (use_errors(t@, defs0) + z) =~= state.errors@ + z);
                    assert(seq![t@].skip(1) =~= Seq::<(TokenV, Span)>::empty());
                    assert(kept_values(seq![t@].skip(1)).len() == 0);
                    if dropped(t.0@) {
                        assert(kept_values(seq![t@]) =~= Seq::<(TokenV, Span)>::empty());
                        assert(view_tokens(dest_mid) + (kept_values(seq![t@]) + y) =~= view_tokens(dest@) + y);
                    } else {
                        assert(kept_values(seq![t@]) =~= seq![t@]);
                        assert(view_tokens(dest@) =~= view_tokens(dest_mid).push(t@));
                        assert(view_tokens(dest_mid) + (kept_values(seq![t@]) + y) =~= view_tokens(dest@) + y);
                    }
                } else if replaced_by_identifier(t.0@, std0) {
                    assert(use_errors(t@, defs0) =~= Seq::<PreprocessorError>::empty());
                    assert(errs_mid + (use_errors(t@, defs0) + z) =~= state.errors@ + z);
                    assert(view_tokens(dest@) =~= view_tokens(dest_mid).push(dest@.last()@));
                    assert(view_tokens(dest_mid) + (seq![(under_standard(t.0@, std0), t.1)] + y) =~= view_tokens(dest@) + y);
                } else if define_index(defs0, t.0@->TextMacro_0) is None {
                    let x = use_errors(t@, defs0);
                    assert(x =~= seq![PreprocessorError::UndefinedMacro { macro_span: t.1 }]);
                    assert(errs_mid + (x + z) =~= state.errors@ + z);
                    assert(use_output(t@, defs0, std0) == Some(Seq::<(TokenV, Span)>::empty()));
                    assert(view_tokens(dest_mid) + (Seq::<(TokenV, Span)>::empty() + y) =~= view_tokens(dest@) + y);
                } else {
                    let n = t.0@->TextMacro_0;
                    let i = define_index(defs0, n)->0;
                    let x = text_expansion(defs0[i].body, t.1);
                    assert(use_errors(t@, defs0) =~= Seq::<PreprocessorError>::empty());
                    assert(errs_mid + (use_errors(t@, defs0) + z) =~= state.errors@ + z);
                    match defs0[i].body {
                        DefineBody::Text(b) => {
                            assert forall|j: int| 0 <= j < x.len() implies passes_through(
                                #[trigger] x[j].0,
                                std0,
                            ) by {
                                assert(x[j].0 == view_tokens(b@)[j].0);
                            }
                            lemma_expanded_text_pass(x, view_tokens(src_mid), defs0, std0);
                        },
                        _ => {
                            assert(x =~= Seq::<(TokenV, Span)>::empty());
                            assert(x + view_tokens(src_mid) =~= view_tokens(src_mid));
                            assert(kept_values(x) =~= Seq::<(TokenV, Span)>::empty());
                        },
                    }
                    assert(view_tokens(dest_mid) + (kept_values(x) + y) =~= view_tokens(dest@) + (kept_values(x) + y));
                }
            }
        }
        proof {
            lemma_evolves_trans(*old(state), mid, *state);
            if plain {
                k = k + 1;
            }
            if flat {
                let rest = orig.skip(p);
                if passes_through(rest[0].0@, std0) {
                    let y = flat_text(orig.skip(p + 1), defs0, std0)->0;
                    if !dropped(rest[0].0@) {
                        assert(dest_mid + (seq![rest[0]] + y) =~= dest@ + y);
                    }
                    p = p + 1;
                } else {
                    match flat_conditional(
                        orig.skip(p + 1),
                        rest[0].0@ == TokenV::Directive(Directive::Ifdef),
                        defs0,
                        std0,
                    ) {
                        Some((out, n)) => {
                            assert(orig.skip(p + 1).skip(n) =~= orig.skip(p + 1 + n));
                            assert(orig.skip(p).skip(1 + n) =~= orig.skip(p + 1 + n));
                            let y = flat_text(orig.skip(p + 1 + n), defs0, std0)->0;
                            assert(dest_mid + (out + y) =~= dest@ + y);
                            p = p + 1 + n;
                        },
                        None => {},
                    }
                }
            }
        }
        match step {
            Ok(()) => {},
            Err(e) => {
                return Err(e);
            },
        }
    }
}

/// Preprocess one token of ordinary source text
fn preprocess_source_token<H: PragmaHandler>(
    src: &mut TokenIterator,
    dest: &mut Vec<SpannedToken>,
    state: &mut PreprocessorState<H>,
    t: SpannedToken,
) -> (r: Result<(), PreprocessorError>)
    requires
        old(state).mode == Mode::Normal,
    ensures
        evolves(*old(state), *final(state)),
        r matches Err(e) ==> e.reportable(),
        passes_through(t.0@, keyword_standard(old(state).curr_standard@)) ==> {
            &&& r is Ok
            &&& final(src)@ == old(src)@
            &&& final(dest)@ == if dropped(t.0@) {
                old(dest)@
            } else {
                old(dest)@.push(t)
            }
            &&& final(state).budget == old(state).budget
            &&& final(state).curr_standard == old(state).curr_standard
            &&& final(state).settings == old(state).settings
            &&& final(state).errors == old(state).errors
            &&& final(state).defines == old(state).defines
            &&& final(state).design_depth == if opens_design_element(t.0@) {
                if old(state).design_depth < usize::MAX {
                    old(state).design_depth + 1
                } else {
                    old(state).design_depth as int
                }
            } else if closes_design_element(t.0@) {
                if old(state).design_depth > 0 {
                    old(state).design_depth - 1
                } else {
                    0
                }
            } else {
                old(state).design_depth as int
            }
        },
        // a keyword that the standard in effect does not reserve is an identifier
        replaced_by_identifier(t.0@, keyword_standard(old(state).curr_standard@)) ==> {
            &&& r is Ok
            &&& final(src)@ == old(src)@
            &&& final(state).errors == old(state).errors
            &&& final(dest)@.len() == old(dest)@.len() + 1
            &&& final(dest)@.drop_last() == old(dest)@
            &&& final(dest)@.last()@ == (
                under_standard(t.0@, keyword_standard(old(state).curr_standard@)),
                t.1,
            )
            &&& final(state).budget == old(state).budget
            &&& final(state).defines == old(state).defines
            &&& final(state).curr_standard == old(state).curr_standard
            &&& final(state).settings == old(state).settings
        },
        // the use of a macro without parameters: its expansion comes next
        // the use of a macro with parameters, with arguments of plain tokens
        // that fit it: the body, each parameter replaced by its text, comes
        // next
        match t.0@ {
            TokenV::TextMacro(n) => match define_index(old(state).defines@, n) {
                Some(i) => match old(state).defines@[i].body {
                    DefineBody::Function(p, b) => old(src)@.len() > 0 && old(src)@[0].0 is Paren && old(
                        state,
                    ).budget > 2 * old(src)@.len() + 4 ==> match split_args(old(src)@, 1) {
                        Some((args, e)) => fn_args_ok(p@, arg_views(args)) ==> {
                            &&& r is Ok
                            &&& view_tokens(final(src)@) == substitution(
                                b@,
                                p@,
                                macro_values(p@, arg_views(args)),
                                t.1,
                            ) + view_tokens(old(src)@.skip(e))
                            &&& final(dest)@ == old(dest)@
                            &&& final(state).errors == old(state).errors
                            &&& old(state).budget - final(state).budget <= 2 * e + 2
                            &&& final(state).defines == old(state).defines
                            &&& final(state).curr_standard == old(state).curr_standard
                            &&& final(state).settings == old(state).settings
                        },
                        None => true,
                    },
                    _ => true,
                },
                None => true,
            },
            _ => true,
        },
        old(state).budget > 0 ==> match t.0@ {
            TokenV::TextMacro(n) => match define_index(old(state).defines@, n) {
                Some(i) => !(old(state).defines@[i].body is Function) ==> {
                    &&& r is Ok
                    &&& view_tokens(final(src)@) == text_expansion(old(state).defines@[i].body, t.1)
                        + view_tokens(old(src)@)
                    &&& final(dest)@ == old(dest)@
                    &&& final(state).budget == old(state).budget - 1
                    &&& final(state).errors == old(state).errors
                    &&& final(state).defines == old(state).defines
                    &&& final(state).curr_standard == old(state).curr_standard
                    &&& final(state).settings == old(state).settings
                },
                // a macro that is not defined: the error is recorded
                None => {
                    &&& r is Ok
                    &&& final(src)@ == old(src)@
                    &&& final(dest)@ == old(dest)@
                    &&& final(state).budget == old(state).budget - 1
                    &&& final(state).errors@ == old(state).errors@.push(
                        PreprocessorError::UndefinedMacro { macro_span: t.1 },
                    )
                    &&& final(state).defines == old(state).defines
                    &&& final(state).curr_standard == old(state).curr_standard
                    &&& final(state).settings == old(state).settings
                },
            },
            _ => true,
        },
        // a directive
        old(state).budget > 0 ==> (t.0@ matches TokenV::Directive(d) ==> directive_effect(
            d,
            t.1,
            *old(state),
            *final(state),
            old(src)@,
            final(src)@,
            old(dest)@,
            final(dest)@,
            r,
        )),
    decreases old(state).budget, 1nat,
{
    let std = state.get_keyword_standard();
    match &t.0 {
        Token::Directive(d) => {
            let d = *d;
            let span = t.1;
            preprocess_directive(src, dest, state, d, span)
        },
        Token::TextMacro(name) => {
            match preprocess_macro(src, state, name.as_slice(), &t.1) {
                Ok(()) => Ok(()),
                Err(err) => recover(src, state, err),
            }
        },
        Token::Apost | Token::UnsignedNumber(_) => {
            match preprocess_possible_number(src, dest, state, t) {
                Ok(()) => Ok(()),
                Err(err) => recover(src, state, err),
            }
        },
        Token::BlockComment(_) | Token::OnelineComment(_) | Token::Newline => Ok(()),
        _ => {
            if keyword_replace(&t.0, std) {
                dest.push(apply_standard(t, std));
                assert(dest@.drop_last() =~= old(dest)@);
            } else {
                let edge = design_element_edge(&t.0);
                if edge == 1 {
                    state.enter_design_element();
                } else if edge == 2 {
                    state.exit_design_element();
                }
                dest.push(t);
            }
            Ok(())
        },
    }
}

} // verus!

verus! {

/// What the directives that take no argument do (other directives are
/// described by the functions that elaborate them): `d`, written at
/// `span`, is elaborated from `state0`, `src0` and `dest0` to `state1`,
/// `src1` and `dest1`, with the result `r`
pub open spec fn directive_effect<H>(
    d: Directive,
    span: Span,
    state0: PreprocessorState<H>,
    state1: PreprocessorState<H>,
    src0: Seq<SpannedToken>,
    src1: Seq<SpannedToken>,
    dest0: Seq<SpannedToken>,
    dest1: Seq<SpannedToken>,
    r: Result<(), PreprocessorError>,
) -> bool {
    match d {
        // the end of a conditional branch: handed to the caller
        Directive::Else => r == Err::<(), PreprocessorError>(PreprocessorError::Else { else_span: span })
            && unchanged_but_budget(state0, state1) && state0.budget - state1.budget <= 1 && src1 == src0
            && dest1 == dest0,
        Directive::Elsif => r == Err::<(), PreprocessorError>(
            PreprocessorError::Elsif { elsif_span: span },
        ) && unchanged_but_budget(state0, state1) && state0.budget - state1.budget <= 1 && src1 == src0
            && dest1 == dest0,
        Directive::Endif => r == Err::<(), PreprocessorError>(
            PreprocessorError::Endif { endif_span: span },
        ) && unchanged_but_budget(state0, state1) && state0.budget - state1.budget <= 1 && src1 == src0
            && dest1 == dest0,
        Directive::Undefineall => r is Ok && state1.defines@.len() == 0 && state1.errors
            == state0.errors && src1 == src0 && dest1 == dest0,
        Directive::Celldefine => r is Ok && state1.cell_define && state1.errors == state0.errors
            && src1 == src0 && dest1 == dest0,
        Directive::Endcelldefine => r is Ok && !state1.cell_define && state1.errors == state0.errors
            && src1 == src0 && dest1 == dest0,
        // not allowed inside a design element, where it is recorded as an error
        Directive::Resetall => r is Ok && src1 == src0 && dest1 == dest0 && if state0.design_depth > 0 {
            state1.errors@ == state0.errors@.push(
                PreprocessorError::IllegalInDesignUnit { directive: d, directive_span: span },
            )
        } else {
            !state1.cell_define && state1.errors == state0.errors
        },
        Directive::UnderscoreFile => r is Ok && src1 == src0 && state1.errors == state0.errors
            && dest1.len() == dest0.len() + 1 && dest1.drop_last() == dest0 && dest1.last()@ == (
            TokenV::StringLiteral(file_name_of(state0.files@, state0.line_directives@, span)),
            span,
        ),
        Directive::UnderscoreLine => r is Ok && src1 == src0 && state1.errors == state0.errors
            && dest1.len() == dest0.len() + 1 && dest1.drop_last() == dest0 && dest1.last()@ == (
            TokenV::UnsignedNumber(line_of(state0.files@, state0.line_directives@, span)),
            span,
        ),
        Directive::NounconnectedDrive => r is Ok && state1.settings.unconnected_drive is None
            && state1.errors == state0.errors && src1 == src0 && dest1 == dest0,
        // a conditional whose branches hold tokens that pass through
        Directive::Ifdef => conditional_effect(true, state0, state1, src0, src1, dest0, dest1, r),
        Directive::Ifndef => conditional_effect(false, state0, state1, src0, src1, dest0, dest1, r),
        _ => true,
    }
}

/// What `` `ifdef `` (`is_ifdef`) or `` `ifndef `` does to a conditional
/// whose branches hold tokens that pass through: the tokens of the branch
/// kept are added, and the stream goes on after the conditional
pub open spec fn conditional_effect<H>(
    is_ifdef: bool,
    state0: PreprocessorState<H>,
    state1: PreprocessorState<H>,
    src0: Seq<SpannedToken>,
    src1: Seq<SpannedToken>,
    dest0: Seq<SpannedToken>,
    dest1: Seq<SpannedToken>,
    r: Result<(), PreprocessorError>,
) -> bool {
    match flat_conditional(src0, is_ifdef, state0.defines@, keyword_standard(state0.curr_standard@)) {
        Some((out, n)) => state0.budget > n + 6 ==> {
            &&& r is Ok
            &&& src1 == src0.skip(n)
            &&& dest1 == dest0 + out
            &&& state1.errors == state0.errors
            &&& state1.defines == state0.defines
            &&& state1.curr_standard == state0.curr_standard
            &&& state1.settings == state0.settings
            &&& state0.budget - state1.budget <= n + 6
        },
        None => true,
    }
}

/// Elaborate a compiler directive found in ordinary source text
fn preprocess_directive<H: PragmaHandler>(
    src: &mut TokenIterator,
    dest: &mut Vec<SpannedToken>,
    state: &mut PreprocessorState<H>,
    d: Directive,
    span: Span,
) -> (r: Result<(), PreprocessorError>)
    requires
        old(state).mode == Mode::Normal,
    ensures
        evolves(*old(state), *final(state)),
        r matches Err(e) ==> e.reportable(),
        old(state).budget > 0 ==> directive_effect(
            d,
            span,
            *old(state),
            *final(state),
            old(src)@,
            final(src)@,
            old(dest)@,
            final(dest)@,
            r,
        ),
    decreases old(state).budget, 0nat,
{
    if !state.spend() {
        return Err(PreprocessorError::StepLimit);
    }
    let ghost mid = *state;
    let r = match d {
        Directive::Resetall => {
            if state.in_design_element() {
                recover(
                    src,
                    state,
                    PreprocessorError::IllegalInDesignUnit { directive: d, directive_span: span },
                )
            } else {
                state.reset_all();
                Ok(())
            }
        },
        Directive::Pragma => match preprocess_pragma(src, dest, state, &span) {
            Ok(()) => Ok(()),
            Err(e) => recover(src, state, e),
        },
        Directive::Include => match preprocess_include(src, state, &span) {
            Ok(()) => Ok(()),
            Err(e) => recover(src, state, e),
        },
        Directive::Undefineall => {
            state.undefineall();
            Ok(())
        },
        Directive::BeginKeywords => match preprocess_begin_keyword(src, state, &span) {
            Ok(()) => Ok(()),
            Err(e) => recover(src, state, e),
        },
        Directive::Define => match preprocess_define(src, state, &span) {
            Ok(()) => Ok(()),
            Err(e) => recover(src, state, e),
        },
        Directive::Else => Err(PreprocessorError::Else { else_span: span }),
        Directive::Elsif => Err(PreprocessorError::Elsif { elsif_span: span }),
        Directive::EndKeywords => match preprocess_end_keyword(state, &span) {
            Ok(()) => Ok(()),
            Err(e) => recover(src, state, e),
        },
        Directive::Endif => Err(PreprocessorError::Endif { endif_span: span }),
        Directive::Ifdef => match preprocess_ifdef(src, dest, state, &span, &span, true) {
            Ok(()) => Ok(()),
            Err(e) => recover(src, state, e),
        },
        Directive::Ifndef => match preprocess_ifdef(src, dest, state, &span, &span, false) {
            Ok(()) => Ok(()),
            Err(e) => recover(src, state, e),
        },
        Directive::Undef => match preprocess_undefine(src, state, &span) {
            Ok(()) => Ok(()),
            Err(e) => recover(src, state, e),
        },
        Directive::Timescale => match preprocess_timescale(src, state, &span) {
            Ok(()) => Ok(()),
            Err(e) => recover(src, state, e),
        },
        Directive::DefaultNettype => match preprocess_default_nettype(src, state, &span) {
            Ok(()) => Ok(()),
            Err(e) => recover(src, state, e),
        },
        Directive::UnconnectedDrive => match preprocess_unconnected_drive(src, state, &span) {
            Ok(()) => Ok(()),
            Err(e) => recover(src, state, e),
        },
        Directive::NounconnectedDrive => {
            preprocess_nounconnected_drive(state);
            Ok(())
        },
        Directive::Celldefine => {
            state.add_cell_define(true);
            Ok(())
        },
        Directive::Endcelldefine => {
            state.add_cell_define(false);
            Ok(())
        },
        Directive::Line => match preprocess_line(src, state, &span) {
            Ok(()) => Ok(()),
            Err(e) => recover(src, state, e),
        },
        Directive::UnderscoreFile => {
            let name = crate::line::file_name(state, &span);
            dest.push(SpannedToken(Token::StringLiteral(name), span));
            assert(dest@.drop_last() =~= old(dest)@);
            Ok(())
        },
        Directive::UnderscoreLine => {
            let line = line_text(state, &span);
            dest.push(SpannedToken(Token::UnsignedNumber(line), span));
            assert(dest@.drop_last() =~= old(dest)@);
            Ok(())
        },
    };
    proof {
        lemma_evolves_trans(*old(state), mid, *state);
    }
    r
}

/// Whether a comment's text ends in a backslash (escaping the line break
/// after it)
fn ends_with_backslash(text: &Vec<u8>) -> (r: bool)
    ensures
        r == (text@.len() > 0 && text@.last() == '\\' as u8),
{
    text.len() > 0 && text[text.len() - 1] == '\\' as u8
}

/// Tokens that the body of a define keeps as they are
pub open spec fn plain_body_token(t: TokenV) -> bool {
    !(t is Bslash) && !(t is Newline) && !(t is BlockComment) && !(t is OnelineComment)
}

/// The position of the first line break at or after `i` (the length of
/// `s` if there is none)
pub open spec fn first_newline(s: Seq<SpannedToken>, i: int) -> int
    decreases s.len() - i,
{
    if i < 0 || i >= s.len() {
        s.len() as int
    } else if s[i].0 is Newline {
        i
    } else {
        first_newline(s, i + 1)
    }
}

pub proof fn lemma_first_newline(s: Seq<SpannedToken>, i: int)
    requires
        0 <= i <= s.len(),
    ensures
        i <= first_newline(s, i) <= s.len(),
        first_newline(s, i) < s.len() ==> s[first_newline(s, i)].0 is Newline,
        forall|j: int| i <= j < first_newline(s, i) ==> !(#[trigger] s[j].0 is Newline),
    decreases s.len() - i,
{
    if i < s.len() && !(s[i].0 is Newline) {
        lemma_first_newline(s, i + 1);
    }
}

/// What the rest of a define's line, from `i`, gives the define's body:
/// its tokens as they are, a line break escaped by a backslash as a line
/// break (a backslash before another token is kept with it), up to the
/// line break that ends the line, whose position comes second (the length
/// of `s` where the stream ends first); `None` where a comment comes first
pub open spec fn define_line(s: Seq<SpannedToken>, i: int) -> Option<(Seq<SpannedToken>, int)>
    decreases s.len() - i,
{
    if i < 0 || i >= s.len() {
        Some((Seq::empty(), s.len() as int))
    } else if s[i].0@ is Newline {
        Some((Seq::empty(), i))
    } else if s[i].0@ is BlockComment || s[i].0@ is OnelineComment {
        None
    } else if s[i].0@ is Bslash {
        if i + 1 >= s.len() {
            Some((seq![s[i]], s.len() as int))
        } else {
            let head = if s[i + 1].0@ is Newline {
                seq![s[i + 1]]
            } else {
                seq![s[i], s[i + 1]]
            };
            match define_line(s, i + 2) {
                Some((b, e)) => Some((head + b, e)),
                None => None,
            }
        }
    } else {
        match define_line(s, i + 1) {
            Some((b, e)) => Some((seq![s[i]] + b, e)),
            None => None,
        }
    }
}

proof fn lemma_define_line(s: Seq<SpannedToken>, i: int)
    requires
        0 <= i,
    ensures
        define_line(s, i) matches Some((b, e)) ==> (i <= e <= s.len() || (i > s.len() && e == s.len()))
            && (e < s.len() ==> s[e].0@ is Newline),
    decreases s.len() - i,
{
    if 0 <= i < s.len() && !(s[i].0@ is Newline) {
        if s[i].0@ is Bslash {
            if i + 1 < s.len() {
                lemma_define_line(s, i + 2);
            }
        } else {
            lemma_define_line(s, i + 1);
        }
    }
}

/// Whether the tokens before the first line break are all kept as they
/// are in the body of a define
pub open spec fn plain_define_line(s: Seq<SpannedToken>) -> bool {
    forall|i: int| 0 <= i < first_newline(s, 0) ==> plain_body_token(#[trigger] s[i].0@)
}

/// Tokens of a macro argument that are kept as they are: no macro use, no
/// number to read again, no comment
pub open spec fn plain_arg_token(t: TokenV) -> bool {
    &&& !(t is TextMacro)
    &&& !(t is Apost)
    &&& !(t is UnsignedNumber)
    &&& !(t is BlockComment)
    &&& !(t is OnelineComment)
}

/// The token values of a sequence that are not dropped
pub open spec fn kept_values(s: Seq<(TokenV, Span)>) -> Seq<(TokenV, Span)>
    decreases s.len(),
{
    if s.len() == 0 {
        s
    } else {
        (if dropped(s[0].0) {
            Seq::empty()
        } else {
            seq![s[0]]
        }) + kept_values(s.skip(1))
    }
}

/// Whether every token value of a sequence passes through
pub open spec fn all_pass(s: Seq<(TokenV, Span)>, standard: KeywordStandard) -> bool {
    forall|i: int| 0 <= i < s.len() ==> passes_through(#[trigger] s[i].0, standard)
}

/// What one token of ordinary text becomes: itself if it passes through
/// (nothing if it is dropped), a keyword that the standard in effect does
/// not reserve as an identifier, and for the use of a macro without
/// parameters whose body holds tokens that pass through, the tokens kept
/// of its expansion; nothing for the use of a macro that is not defined
/// (`None` for other tokens)
pub open spec fn use_output(t: (TokenV, Span), defines: Seq<Define>, standard: KeywordStandard) -> Option<
    Seq<(TokenV, Span)>,
> {
    if passes_through(t.0, standard) {
        Some(kept_values(seq![t]))
    } else if replaced_by_identifier(t.0, standard) {
        Some(seq![(under_standard(t.0, standard), t.1)])
    } else {
        match t.0 {
            TokenV::TextMacro(n) => match define_index(defines, n) {
                Some(i) => match defines[i].body {
                    DefineBody::Empty => Some(Seq::empty()),
                    DefineBody::Text(b) => if all_pass(view_tokens(b@), standard) {
                        Some(kept_values(text_expansion(defines[i].body, t.1)))
                    } else {
                        None
                    },
                    DefineBody::Function(..) => None,
                },
                None => Some(Seq::empty()),
            },
            _ => None,
        }
    }
}

/// The errors that one token of such text records: the use of a macro
/// that is not defined
pub open spec fn use_errors(t: (TokenV, Span), defines: Seq<Define>) -> Seq<PreprocessorError> {
    match t.0 {
        TokenV::TextMacro(n) => if define_index(defines, n) is None {
            seq![PreprocessorError::UndefinedMacro { macro_span: t.1 }]
        } else {
            Seq::empty()
        },
        _ => Seq::empty(),
    }
}

/// The errors that such text records, in order
pub open spec fn expanded_errors(s: Seq<(TokenV, Span)>, defines: Seq<Define>, standard: KeywordStandard) -> Seq<PreprocessorError>
    decreases s.len(),
{
    if s.len() == 0 {
        Seq::empty()
    } else {
        match function_output(s, defines, standard) {
            Some((sub, c)) => expanded_errors(s.skip(c), defines, standard),
            None => use_errors(s[0], defines) + expanded_errors(s.skip(1), defines, standard),
        }
    }
}

/// Whether the arguments read for a macro with parameters fit it: not too
/// many (`F()` gives one empty argument, which a macro of no parameters
/// takes), and a text for each parameter
pub open spec fn fn_args_ok(params: Seq<MacroParameter>, a: Seq<Seq<(TokenV, Span)>>) -> bool {
    &&& !(a.len() > params.len() && !(params.len() == 0 && a.len() == 1 && a[0].len() == 0))
    &&& args_complete(params, a)
}

/// What the use of a macro with parameters at the head of text gives, its
/// arguments of plain tokens that fit it: the body with each parameter
/// replaced by its text (all of it tokens that pass through), how many
/// tokens the use takes, and the tokens kept of that body (`None` for
/// anything else)
pub open spec fn function_output(s: Seq<(TokenV, Span)>, defines: Seq<Define>, standard: KeywordStandard) -> Option<
    (Seq<(TokenV, Span)>, int),
> {
    if s.len() > 1 && s[1].0 is Paren {
        match s[0].0 {
            TokenV::TextMacro(n) => match define_index(defines, n) {
                Some(i) => match defines[i].body {
                    DefineBody::Function(p, b) => match split_args_v(s.skip(1), 1) {
                        Some((a, e)) => {
                            let sub = substitution(b@, p@, macro_values(p@, a), s[0].1);
                            if fn_args_ok(p@, a) && all_pass(sub, standard) && 1 <= e && 1 + e <= s.len() {
                                Some((sub, 1 + e))
                            } else {
                                None
                            }
                        },
                        None => None,
                    },
                    _ => None,
                },
                None => None,
            },
            _ => None,
        }
    } else {
        None
    }
}

/// What ordinary text of tokens that pass through, of uses of macros
/// without parameters whose bodies hold such tokens, and of uses of macros
/// with parameters as `function_output` describes, becomes: each use of a
/// macro with parameters as `function_output` says, each other token as
/// `use_output` says (`None` for other text)
pub open spec fn expanded_text(s: Seq<(TokenV, Span)>, defines: Seq<Define>, standard: KeywordStandard) -> Option<
    Seq<(TokenV, Span)>,
>
    decreases s.len(),
{
    if s.len() == 0 {
        Some(Seq::empty())
    } else {
        match function_output(s, defines, standard) {
            Some((sub, c)) => match expanded_text(s.skip(c), defines, standard) {
                Some(y) => Some(kept_values(sub) + y),
                None => None,
            },
            None => match (use_output(s[0], defines, standard), expanded_text(s.skip(1), defines, standard)) {
                (Some(x), Some(y)) => Some(x + y),
                _ => None,
            },
        }
    }
}

/// The steps that one token of such text takes: one to read it, one more
/// for a macro, and one for each token of its body
pub open spec fn use_cost(t: (TokenV, Span), defines: Seq<Define>) -> int {
    match t.0 {
        TokenV::TextMacro(n) => match define_index(defines, n) {
            Some(i) => match defines[i].body {
                DefineBody::Text(b) => 2 + b@.len() as int,
                _ => 2,
            },
            None => 2,
        },
        _ => 1,
    }
}

/// The steps that such text takes
pub open spec fn expanded_cost(s: Seq<(TokenV, Span)>, defines: Seq<Define>, standard: KeywordStandard) -> int
    decreases s.len(),
{
    if s.len() == 0 {
        0
    } else {
        match function_output(s, defines, standard) {
            Some((sub, c)) => 2 * s.len() + 6 + sub.len() + expanded_cost(s.skip(c), defines, standard),
            None => use_cost(s[0], defines) + expanded_cost(s.skip(1), defines, standard),
        }
    }
}

pub proof fn lemma_expanded_cost(s: Seq<(TokenV, Span)>, defines: Seq<Define>, standard: KeywordStandard)
    ensures
        expanded_cost(s, defines, standard) >= 0,
    decreases s.len(),
{
    if s.len() > 0 {
        lemma_expanded_cost(s.skip(1), defines, standard);
        if let Some((sub, c)) = function_output(s, defines, standard) {
            lemma_expanded_cost(s.skip(c), defines, standard);
        }
    }
}

/// Tokens that pass through, in front of such text, are kept as they are,
/// one step each
pub proof fn lemma_expanded_text_pass(
    a: Seq<(TokenV, Span)>,
    b: Seq<(TokenV, Span)>,
    defines: Seq<Define>,
    standard: KeywordStandard,
)
    requires
        all_pass(a, standard),
        expanded_text(b, defines, standard) is Some,
    ensures
        expanded_text(a + b, defines, standard) == Some(
            kept_values(a) + expanded_text(b, defines, standard)->0,
        ),
        expanded_cost(a + b, defines, standard) == a.len() + expanded_cost(b, defines, standard),
        expanded_errors(a + b, defines, standard) == expanded_errors(b, defines, standard),
    decreases a.len(),
{
    if a.len() == 0 {
        assert(a + b =~= b);
        assert(kept_values(a) + expanded_text(b, defines, standard)->0 =~= expanded_text(
            b,
            defines,
            standard,
        )->0);
    } else {
        let a1 = a.skip(1);
        assert forall|i: int| 0 <= i < a1.len() implies passes_through(#[trigger] a1[i].0, standard) by {
            assert(a1[i] == a[i + 1]);
        }
        lemma_expanded_text_pass(a1, b, defines, standard);
        assert((a + b).skip(1) =~= a1 + b);
        assert((a + b)[0] == a[0]);
        assert(passes_through(a[0].0, standard));
        assert(seq![a[0]].skip(1) =~= Seq::<(TokenV, Span)>::empty());
        assert(kept_values(seq![a[0]].skip(1)).len() == 0);
        assert(kept_values(seq![a[0]]) =~= (if dropped(a[0].0) {
            Seq::<(TokenV, Span)>::empty()
        } else {
            seq![a[0]]
        }));
        let x = kept_values(seq![a[0]]);
        let y = expanded_text(b, defines, standard)->0;
        assert(x + (kept_values(a1) + y) =~= kept_values(a) + y);
    }
}

/// No token before `j` escapes or breaks a line
pub open spec fn no_line_break(s: Seq<SpannedToken>, j: int) -> bool {
    forall|i: int| 0 <= i < j ==> !(#[trigger] s[i].0@ is Bslash) && !(s[i].0@ is Newline)
}

/// The bracket a token opens: 0 for `(`, 1 for `[`, 2 for `{`
pub open spec fn opens_bracket(t: TokenV) -> Option<u8> {
    match t {
        TokenV::Paren => Some(0u8),
        TokenV::Bracket => Some(1u8),
        TokenV::Brace => Some(2u8),
        _ => None,
    }
}

/// The bracket a token closes: 0 for `)`, 1 for `]`, 2 for `}`
pub open spec fn closes_bracket(t: TokenV) -> Option<u8> {
    match t {
        TokenV::EParen => Some(0u8),
        TokenV::EBracket => Some(1u8),
        TokenV::EBrace => Some(2u8),
        _ => None,
    }
}

/// Where a macro argument of plain tokens that goes on at `i`, with the
/// given brackets open, ends: at the `,` or `)` outside all brackets
/// (`None` where a token is not plain, a bracket is closed by the wrong
/// kind, or the stream ends first)
pub open spec fn arg_end(s: Seq<SpannedToken>, i: int, open: Seq<u8>) -> Option<int>
    decreases s.len() - i,
{
    if i < 0 || i >= s.len() {
        None
    } else {
        let t = s[i].0@;
        if !plain_arg_token(t) {
            None
        } else {
            match opens_bracket(t) {
                Some(b) => arg_end(s, i + 1, open.push(b)),
                None => match closes_bracket(t) {
                    Some(b) => if open.len() == 0 {
                        if b == 0 {
                            Some(i)
                        } else {
                            None
                        }
                    } else if open.last() == b {
                        arg_end(s, i + 1, open.drop_last())
                    } else {
                        None
                    },
                    None => if t is Comma && open.len() == 0 {
                        Some(i)
                    } else {
                        arg_end(s, i + 1, open)
                    },
                },
            }
        }
    }
}

/// The end of an argument lies at or after where it goes on
pub proof fn lemma_arg_end_range(s: Seq<SpannedToken>, i: int, open: Seq<u8>)
    requires
        0 <= i,
    ensures
        arg_end(s, i, open) matches Some(j) ==> i <= j < s.len(),
    decreases s.len() - i,
{
    if 0 <= i < s.len() {
        let t = s[i].0@;
        if plain_arg_token(t) {
            match opens_bracket(t) {
                Some(b) => lemma_arg_end_range(s, i + 1, open.push(b)),
                None => match closes_bracket(t) {
                    Some(b) => if open.len() > 0 && open.last() == b {
                        lemma_arg_end_range(s, i + 1, open.drop_last());
                    },
                    None => if !(t is Comma && open.len() == 0) {
                        lemma_arg_end_range(s, i + 1, open);
                    },
                },
            }
        }
    }
}

/// An argument ends at a `,` or a `)`
pub proof fn lemma_arg_end_token(s: Seq<SpannedToken>, i: int, open: Seq<u8>)
    requires
        0 <= i,
    ensures
        arg_end(s, i, open) matches Some(j) ==> s[j].0@ is Comma || s[j].0@ is EParen,
    decreases s.len() - i,
{
    if 0 <= i < s.len() {
        let t = s[i].0@;
        if plain_arg_token(t) {
            match opens_bracket(t) {
                Some(b) => lemma_arg_end_token(s, i + 1, open.push(b)),
                None => match closes_bracket(t) {
                    Some(b) => if open.len() > 0 && open.last() == b {
                        lemma_arg_end_token(s, i + 1, open.drop_last());
                    },
                    None => if !(t is Comma && open.len() == 0) {
                        lemma_arg_end_token(s, i + 1, open);
                    },
                },
            }
        }
    }
}

/// Preprocess the body of a define up to the end of its line, or an
/// argument up to the `,` or `)` that ends it (see [`preprocess_helper`])
fn preprocess_macro_text<H: PragmaHandler>(
    src: &mut TokenIterator,
    dest: &mut Vec<SpannedToken>,
    state: &mut PreprocessorState<H>,
) -> (r: Result<(), PreprocessorError>)
    requires
        old(state).mode != Mode::Normal,
    ensures
        final(state).defines == old(state).defines,
        evolves(*old(state), *final(state)),
        r matches Err(e) ==> helper_error(e, old(state).mode),
        r is Ok ==> final(src)@.len() == 0,
        final(state).curr_standard == old(state).curr_standard,
        final(state).settings == old(state).settings,
        // in a macro argument, plain tokens are kept up to the `,` or `)`
        // that ends it, which is handed back
        ({
            let s = old(src)@;
            old(state).mode == Mode::TextMacroArg || old(state).mode == Mode::DefineArg ==> match arg_end(
                s,
                0,
                Seq::empty(),
            ) {
                Some(j) => old(state).budget > j + 1 && (old(state).mode == Mode::DefineArg
                    ==> no_line_break(s, j)) ==> {
                    &&& r == Err::<(), PreprocessorError>(
                        PreprocessorError::EndOfFunctionArgument(s[j]),
                    )
                    &&& final(dest)@ == old(dest)@ + s.take(j)
                    &&& final(src)@ == s.skip(j + 1)
                    &&& final(state).errors == old(state).errors
                    &&& old(state).budget - final(state).budget == j + 1
                },
                None => true,
            }
        }),
        // the body of a define with nothing to elaborate is the tokens up to
        // the line break
        old(state).mode == Mode::Define && plain_define_line(old(src)@) && old(state).budget
            > first_newline(old(src)@, 0) + 1 ==> {
            let n = first_newline(old(src)@, 0);
            &&& final(dest)@ == old(dest)@ + old(src)@.take(n)
            &&& final(state).errors == old(state).errors
            &&& final(state).defines == old(state).defines
            &&& if n < old(src)@.len() {
                &&& r == Err::<(), PreprocessorError>(
                    PreprocessorError::NewlineInDefine(old(src)@[n].1),
                )
                &&& final(src)@ == old(src)@.skip(n + 1)
            } else {
                r is Ok
            }
        },
        // the body of a define: its line, an escaped line break kept as a
        // line break
        old(state).mode == Mode::Define ==> match define_line(old(src)@, 0) {
            Some((b, e)) => old(state).budget > e + 1 ==> {
                &&& final(dest)@ == old(dest)@ + b
                &&& final(state).errors == old(state).errors
                &&& final(state).defines == old(state).defines
                &&& if e < old(src)@.len() {
                    &&& r == Err::<(), PreprocessorError>(
                        PreprocessorError::NewlineInDefine(old(src)@[e].1),
                    )
                    &&& final(src)@ == old(src)@.skip(e + 1)
                } else {
                    r is Ok
                }
            },
            None => true,
        },
    decreases old(state).budget, 0nat,
{
    let ghost orig = src@;
    let ghost dl = define_line(orig, 0);
    let ghost dfound = dl->0;
    let ghost eb = dfound.0;
    let ghost de = dfound.1;
    let ghost esc = old(state).mode == Mode::Define && dl is Some && old(state).budget > de + 1;
    let ghost mut kk: int = 0;
    proof {
        lemma_define_line(orig, 0);
        assert(old(dest)@ + eb =~= dest@ + eb);
    }
    let ghost n = first_newline(orig, 0);
    let ghost plain = old(state).mode == Mode::Define && plain_define_line(orig) && old(state).budget
        > n + 1;
    proof {
        lemma_first_newline(orig, 0);
        assert(orig.skip(0) =~= orig);
        assert(orig.take(0) =~= Seq::<SpannedToken>::empty());
        assert(dest@ =~= old(dest)@ + orig.take(0));
    }
    let ghost mut k: int = 0;
    let ghost arg_plain = (old(state).mode == Mode::TextMacroArg || old(state).mode == Mode::DefineArg)
        && arg_end(orig, 0, Seq::empty()) is Some && old(state).budget > arg_end(orig, 0, Seq::empty())->0
        + 1 && (old(state).mode == Mode::DefineArg ==> no_line_break(
        orig,
        arg_end(orig, 0, Seq::empty())->0,
    ));
    proof {
        lemma_arg_end_range(orig, 0, Seq::empty());
    }
    // the open brackets: 0 for (, 1 for [, 2 for {
    let mut enclosures: Vec<u8> = Vec::new();
    proof {
        assert(enclosures@ =~= Seq::<u8>::empty());
    }
    loop
        invariant
            dl == define_line(orig, 0),
            dfound == dl->0,
            eb == dfound.0,
            de == dfound.1,
            esc == (old(state).mode == Mode::Define && dl is Some && old(state).budget > de + 1),
            esc ==> {
                &&& 0 <= kk <= de
                &&& de <= orig.len()
                &&& src@ == orig.skip(kk)
                &&& define_line(orig, kk) matches Some((b2, e2)) && e2 == de && old(dest)@ + eb == dest@ + b2
                &&& state.errors == old(state).errors
                &&& old(state).budget - state.budget <= kk
            },
            state.defines == old(state).defines,
            evolves(*old(state), *state),
            state.curr_standard == old(state).curr_standard,
            state.settings == old(state).settings,
            state.mode == old(state).mode,
            state.mode != Mode::Normal,
            orig == old(src)@,
            n == first_newline(orig, 0),
            0 <= n <= orig.len(),
            n < orig.len() ==> orig[n].0 is Newline,
            plain == (old(state).mode == Mode::Define && plain_define_line(orig) && old(state).budget
                > n + 1),
            plain ==> {
                &&& 0 <= k <= n
                &&& src@ == orig.skip(k)
                &&& dest@ == old(dest)@ + orig.take(k)
                &&& state.errors == old(state).errors
                &&& state.defines == old(state).defines
                &&& state.budget == old(state).budget - k
            },
            arg_plain == ((old(state).mode == Mode::TextMacroArg || old(state).mode == Mode::DefineArg)
                && arg_end(orig, 0, Seq::empty()) is Some && old(state).budget > arg_end(
                orig,
                0,
                Seq::empty(),
            )->0 + 1 && (old(state).mode == Mode::DefineArg ==> no_line_break(
                orig,
                arg_end(orig, 0, Seq::empty())->0,
            ))),
            arg_plain ==> {
                let j = arg_end(orig, 0, Seq::empty())->0;
                &&& 0 <= k <= j
                &&& src@ == orig.skip(k)
                &&& dest@ == old(dest)@ + orig.take(k)
                &&& state.errors == old(state).errors
                &&& state.budget == old(state).budget - k
                &&& arg_end(orig, k, enclosures@) == Some(j)
            },
        decreases state.budget,
    {
        let ghost before = *state;
        if !state.spend() {
            return Err(PreprocessorError::StepLimit);
        }
        proof {
            lemma_evolves_trans(*old(state), before, *state);
        }
        let t = match src.next() {
            Some(t) => t,
            None => {
                proof {
                    if plain {
                        assert(orig.take(k) =~= orig.take(n));
                    }
                    if esc {
                        assert(dest@ + Seq::<SpannedToken>::empty() =~= dest@);
                    }
                }
                return Ok(());
            },
        };
        let ghost mut advanced = false;
        proof {
            if esc {
                assert(t == orig[kk]);
                assert(src@ =~= orig.skip(kk + 1));
                lemma_define_line(orig, kk + 1);
                lemma_define_line(orig, kk + 2);
            }
        }
        proof {
            if plain {
                assert(t == orig[k]);
                assert(src@ =~= orig.skip(k + 1));
                if k < n {
                    assert(plain_body_token(orig[k].0@));
                }
            }
            if arg_plain {
                assert(t == orig[k]);
                assert(src@ =~= orig.skip(k + 1));
                if k == arg_end(orig, 0, Seq::empty())->0 {
                    lemma_arg_end_token(orig, k, enclosures@);
                } else if old(state).mode == Mode::DefineArg {
                    assert(!(orig[k].0@ is Bslash) && !(orig[k].0@ is Newline));
                }
            }
        }
        let text_arg = state.in_text_macro_arg();
        let arg = state.in_define_arg() || text_arg;
        let ghost mid = *state;
        let ghost mid_dest = dest@;
        match &t.0 {
            Token::Bslash if !text_arg => {
                let ghost d0 = dest@;
                match src.next() {
                    None => {
                        dest.push(t);
                        proof {
                            if esc {
                                assert(kk + 1 == orig.len());
                                assert(dest@ =~= d0 + seq![t]);
                                assert(dest@ + Seq::<SpannedToken>::empty() =~= dest@);
                                assert(src@ =~= orig.skip(orig.len() as int));
                                kk = orig.len() as int;
                                advanced = true;
                            }
                        }
                    },
                    Some(next) => {
                        proof {
                            if esc {
                                assert(next == orig[kk + 1]);
                                assert(src@ =~= orig.skip(kk + 2));
                            }
                        }
                        if matches!(next.0, Token::Newline) {
                            dest.push(next);
                            proof {
                                if esc {
                                    let rest = define_line(orig, kk + 2)->0;
                                    assert(d0 + (seq![next] + rest.0) =~= dest@ + rest.0);
                                }
                            }
                        } else {
                            dest.push(t);
                            dest.push(next);
                            proof {
                                if esc {
                                    let rest = define_line(orig, kk + 2)->0;
                                    assert(d0 + (seq![t, next] + rest.0) =~= dest@ + rest.0);
                                }
                            }
                        }
                        proof {
                            if esc {
                                kk = kk + 2;
                                advanced = true;
                            }
                        }
                    },
                }
            },
            Token::Newline if !text_arg => {
                proof {
                    if esc {
                        assert(dest@ + Seq::<SpannedToken>::empty() =~= dest@);
                    }
                }
                return Err(PreprocessorError::NewlineInDefine(t.1));
            },
            Token::Paren if arg => {
                enclosures.push(0);
                dest.push(t);
            },
            Token::Bracket if arg => {
                enclosures.push(1);
                dest.push(t);
            },
            Token::Brace if arg => {
                enclosures.push(2);
                dest.push(t);
            },
            Token::EParen | Token::EBracket | Token::EBrace => {
                if !arg {
                    dest.push(t);
                } else {
                    let want: u8 = match &t.0 {
                        Token::EParen => 0,
                        Token::EBracket => 1,
                        _ => 2,
                    };
                    match enclosures.pop() {
                        Some(open) => {
                            if open == want {
                                dest.push(t);
                            } else {
                                let SpannedToken(error_token, error_span) = t;
                                recover(
                                    src,
                                    state,
                                    PreprocessorError::IncompleteMacroWithToken {
                                        error_token,
                                        error_span,
                                    },
                                )?;
                            }
                        },
                        None => {
                            if want == 0 {
                                return Err(PreprocessorError::EndOfFunctionArgument(t));
                            } else {
                                let SpannedToken(error_token, error_span) = t;
                                recover(
                                    src,
                                    state,
                                    PreprocessorError::IncompleteMacroWithToken {
                                        error_token,
                                        error_span,
                                    },
                                )?;
                            }
                        },
                    }
                }
            },
            Token::Comma if arg => {
                if enclosures.len() == 0 {
                    return Err(PreprocessorError::EndOfFunctionArgument(t));
                } else {
                    dest.push(t);
                }
            },
            Token::BlockComment(_) => {},
            Token::OnelineComment(text) => {
                if ends_with_backslash(text) && !text_arg {
                    // counts as escaping the line break that follows
                    let _ = src.next();
                }
            },
            Token::TextMacro(name) if arg => {
                match preprocess_macro(src, state, name.as_slice(), &t.1) {
                    Ok(()) => {},
                    Err(e) => {
                        recover(src, state, e)?;
                    },
                }
            },
            Token::Apost if arg => {
                match preprocess_possible_number(src, dest, state, t) {
                    Ok(()) => {},
                    Err(e) => {
                        recover(src, state, e)?;
                    },
                }
            },
            Token::UnsignedNumber(_) if arg => {
                match preprocess_possible_number(src, dest, state, t) {
                    Ok(()) => {},
                    Err(e) => {
                        recover(src, state, e)?;
                    },
                }
            },
            _ => dest.push(t),
        }
        proof {
            lemma_evolves_trans(*old(state), mid, *state);
            if esc && !advanced {
                let rest = define_line(orig, kk + 1)->0;
                assert(mid_dest + (seq![t] + rest.0) =~= dest@ + rest.0);
                kk = kk + 1;
            }
            if plain {
                assert(dest@ =~= old(dest)@ + orig.take(k + 1));
                k = k + 1;
            }
            if arg_plain {
                assert(dest@ =~= old(dest)@ + orig.take(k + 1));
                k = k + 1;
                lemma_arg_end_range(orig, k, enclosures@);
            }
        }
    }
}

/// The position of the first token at or after `i` that is not a block
/// comment
pub open spec fn skip_block_comments(s: Seq<SpannedToken>, i: int) -> int
    decreases s.len() - i,
{
    if i < 0 || i >= s.len() {
        i
    } else if s[i].0 is BlockComment {
        skip_block_comments(s, i + 1)
    } else {
        i
    }
}

/// Whether the next token of ordinary text comes with no text macro before
/// it (block comments are skipped), within the given budget of steps
pub open spec fn plain_next(s: Seq<SpannedToken>, budget: int) -> bool {
    let k = skip_block_comments(s, 0);
    budget > k + 1 && (k < s.len() ==> !(s[k].0 is TextMacro))
}

/// The next token of ordinary text (block comments skipped), read under
/// the given standard; `None` at the end of the stream
pub open spec fn next_plain_token(s: Seq<SpannedToken>, standard: KeywordStandard) -> Option<
    (TokenV, Span),
> {
    let k = skip_block_comments(s, 0);
    if k < s.len() {
        Some((under_standard(s[k].0@, standard), s[k].1))
    } else {
        None
    }
}

pub proof fn lemma_skip_block_comments(s: Seq<SpannedToken>, i: int)
    requires
        0 <= i <= s.len(),
    ensures
        i <= skip_block_comments(s, i) <= s.len(),
        skip_block_comments(s, i) < s.len() ==> !(s[skip_block_comments(s, i)].0 is BlockComment),
        i < s.len() && s[i].0 is BlockComment ==> skip_block_comments(s, i) == skip_block_comments(s, i + 1),
        i < s.len() && !(s[i].0 is BlockComment) ==> skip_block_comments(s, i) == i,
    decreases s.len() - i,
{
    if i < s.len() && s[i].0 is BlockComment {
        lemma_skip_block_comments(s, i + 1);
    }
}

/// The next token of ordinary source text, skipping block comments and
/// expanding text macros; `None` at the end of the stream
pub fn preprocess_single<H: PragmaHandler>(
    src: &mut TokenIterator,
    state: &mut PreprocessorState<H>,
) -> (r: Result<Option<SpannedToken>, PreprocessorError>)
    ensures
        final(state).defines == old(state).defines,
        evolves(*old(state), *final(state)),
        final(state).curr_standard == old(state).curr_standard,
        final(state).settings == old(state).settings,
        r matches Err(e) ==> e.reportable(),
        r matches Ok(None) ==> final(src)@.len() == 0,
        r matches Ok(Some(_)) ==> final(state).budget < old(state).budget,
        r matches Ok(Some(t)) ==> !(t.0 is BlockComment) && !(t.0 is TextMacro)
            && !replaced_by_identifier(t.0@, keyword_standard(final(state).curr_standard@)),
        // without a text macro before the next token, that token is taken
        ({
            let s = old(src)@;
            let k = skip_block_comments(s, 0);
            old(state).budget > k + 1 && (k < s.len() ==> !(s[k].0 is TextMacro)) ==> {
                &&& final(state).errors == old(state).errors
                &&& final(state).pragma_handlers == old(state).pragma_handlers
                &&& final(state).design_depth == old(state).design_depth
                &&& final(state).cell_define == old(state).cell_define
                &&& final(state).line_directives == old(state).line_directives
                &&& final(state).budget == old(state).budget - (k + 1)
                &&& (k == s.len() ==> r matches Ok(None))
                &&& (k < s.len() ==> (r matches Ok(Some(t)) && t@ == (
                    under_standard(s[k].0@, keyword_standard(old(state).curr_standard@)),
                    s[k].1,
                ) && final(src)@ == s.skip(k + 1)))
            }
        }),
        // a use of a macro that is not defined comes before the next token:
        // the error is handed back
        ({
            let s = old(src)@;
            let k = skip_block_comments(s, 0);
            old(state).budget > k + 1 && k < s.len() && (s[k].0@ matches TokenV::TextMacro(n) && define_index(
                old(state).defines@,
                n,
            ) is None) ==> (r matches Err(PreprocessorError::UndefinedMacro { macro_span: m }) && m
                == s[k].1 && final(state).errors == old(state).errors)
        }),
        // a use of a macro defined as tokens, the first read as it is,
        // comes before the next token: that first token of its expansion
        // is taken
        ({
            let s = old(src)@;
            let k = skip_block_comments(s, 0);
            let std = keyword_standard(old(state).curr_standard@);
            old(state).budget > k + 3 && k < s.len() && text_first(old(state).defines@, s[k].0@) is Some
                ==> {
                let f = text_first(old(state).defines@, s[k].0@)->0;
                &&& r matches Ok(Some(t)) && t@ == (
                    under_standard(f.0, std),
                    crate::define::expanded_span(s[k].1, f.1),
                )
                &&& final(state).errors == old(state).errors
            }
        }),
    decreases old(state).budget, 0nat,
{
    let ghost s = src@;
    let ghost k = skip_block_comments(s, 0);
    let ghost mac = old(state).budget > k + 3 && k < s.len() && text_first(old(state).defines@, s[k].0@) is Some;
    let ghost mbody = if k < s.len() && s[k].0@ is TextMacro {
        old(state).defines@[define_index(old(state).defines@, s[k].0@->TextMacro_0)->0].body
    } else {
        DefineBody::Empty
    };
    let ghost mut phase = false;
    let ghost simple = old(state).budget > k + 1 && (k < s.len() ==> !(s[k].0 is TextMacro));
    let ghost undef = old(state).budget > k + 1 && k < s.len() && (s[k].0@ matches TokenV::TextMacro(n)
        && define_index(old(state).defines@, n) is None);
    proof {
        lemma_skip_block_comments(s, 0);
        assert(s.skip(0) =~= s);
    }
    let ghost mut i: int = 0;
    loop
        invariant
            state.defines == old(state).defines,
            evolves(*old(state), *state),
            state.curr_standard == old(state).curr_standard,
            state.settings == old(state).settings,
            s == old(src)@,
            k == skip_block_comments(s, 0),
            0 <= k <= s.len(),
            simple == (old(state).budget > k + 1 && (k < s.len() ==> !(s[k].0 is TextMacro))),
            simple ==> {
                &&& 0 <= i <= k
                &&& skip_block_comments(s, i) == k
                &&& src@ == s.skip(i)
                &&& state.errors == old(state).errors
                &&& state.pragma_handlers == old(state).pragma_handlers
                &&& state.design_depth == old(state).design_depth
                &&& state.cell_define == old(state).cell_define
                &&& state.line_directives == old(state).line_directives
                &&& state.budget == old(state).budget - i
            },
            undef == (old(state).budget > k + 1 && k < s.len() && (s[k].0@ matches TokenV::TextMacro(n)
                && define_index(old(state).defines@, n) is None)),
            mac == (old(state).budget > k + 3 && k < s.len() && text_first(old(state).defines@, s[k].0@) is Some),
            mac ==> mbody == old(state).defines@[define_index(old(state).defines@, s[k].0@->TextMacro_0)->0].body,
            mac && !phase ==> {
                &&& 0 <= i <= k
                &&& skip_block_comments(s, i) == k
                &&& src@ == s.skip(i)
                &&& state.errors == old(state).errors
                &&& state.budget == old(state).budget - i
            },
            mac && phase ==> {
                &&& view_tokens(src@) == text_expansion(mbody, s[k].1) + view_tokens(s.skip(k + 1))
                &&& state.errors == old(state).errors
                &&& state.budget == old(state).budget - k - 2
            },
            undef ==> {
                &&& 0 <= i <= k
                &&& skip_block_comments(s, i) == k
                &&& src@ == s.skip(i)
                &&& state.errors == old(state).errors
                &&& state.budget == old(state).budget - i
            },
        decreases state.budget,
    {
        let ghost before = *state;
        if !state.spend() {
            return Err(PreprocessorError::StepLimit);
        }
        proof {
            lemma_evolves_trans(*old(state), before, *state);
            if simple || undef || (mac && !phase) {
                lemma_skip_block_comments(s, i);
            }
        }
        let ghost src_before = src@;
        let t = match src.next() {
            None => {
                return Ok(None);
            },
            Some(t) => t,
        };
        proof {
            if mac && phase {
                let x = text_expansion(mbody, s[k].1);
                let b = mbody->Text_0;
                assert(b@.len() > 0);
                assert(x[0] == (b@[0].0@, crate::define::expanded_span(s[k].1, b@[0].1)));
                assert(view_tokens(src_before)[0] == t@);
                assert(view_tokens(src_before)[0] == x[0]);
            }
        }
        let ghost mid = *state;
        match &t.0 {
            Token::BlockComment(_) => {
                proof {
                    if simple || undef || (mac && !phase) {
                        assert(t == s[i]);
                        assert(src@ =~= s.skip(i + 1));
                    }
                    i = i + 1;
                }
            },
            Token::TextMacro(name) => {
                proof {
                    if simple || undef {
                        assert(t == s[i]);
                    }
                    if undef || (mac && !phase) {
                        assert(i == k);
                    }
                }
                let ghost before_mac = src@;
                preprocess_macro(src, state, name.as_slice(), &t.1)?;
                proof {
                    if mac && !phase {
                        assert(before_mac =~= s.skip(k + 1));
                        phase = true;
                    }
                }
                proof {
                    lemma_evolves_trans(*old(state), mid, *state);
                }
            },
            _ => {
                let std = state.get_keyword_standard();
                let r = apply_standard(t, std);
                proof {
                    if simple {
                        assert(t == s[i]);
                        assert(src@ =~= s.skip(i + 1));
                    }
                }
                return Ok(Some(r));
            },
        }
    }
}

/// The first token of the body of the macro that a token uses, where the
/// macro is defined as tokens and that first one is read as it is
pub open spec fn text_first(defines: Seq<Define>, t: TokenV) -> Option<(TokenV, Span)> {
    match t {
        TokenV::TextMacro(n) => match define_index(defines, n) {
            Some(i) => match defines[i].body {
                DefineBody::Text(b) => if b@.len() > 0 && !(b@[0].0@ is BlockComment) && !(b@[0].0@ is TextMacro) {
                    Some(b@[0]@)
                } else {
                    None
                },
                _ => None,
            },
            None => None,
        },
        _ => None,
    }
}

/// The errors for the `` `begin_keywords `` never closed
pub open spec fn unclosed_keywords(s: Seq<(KeywordStandard, Span)>) -> Seq<PreprocessorError> {
    s.map_values(|b: (KeywordStandard, Span)| PreprocessorError::NoEndKeywords { begin_keywords_span: b.1 })
}

/// Add the errors that only show at the end of input: a
/// `` `begin_keywords `` never closed
pub fn preprocess_cleanup<H>(state: &mut PreprocessorState<H>)
    ensures
        final(state).errors@ == old(state).errors@ + unclosed_keywords(old(state).curr_standard@),
        final(state).files == old(state).files,
        final(state).defines == old(state).defines,
        final(state).curr_standard == old(state).curr_standard,
        final(state).settings == old(state).settings,
        final(state).budget == old(state).budget,
        final(state).mode == old(state).mode,
        final(state).line_directives == old(state).line_directives,
        final(state).design_depth == old(state).design_depth,
        final(state).cell_define == old(state).cell_define,
        final(state).pragma_handlers == old(state).pragma_handlers,
        evolves(*old(state), *final(state)),
{
    let mut i: usize = 0;
    while i < state.curr_standard.len()
        invariant
            i <= state.curr_standard@.len(),
            state.curr_standard == old(state).curr_standard,
            state.settings == old(state).settings,
            state.files == old(state).files,
            state.defines == old(state).defines,
            state.budget == old(state).budget,
            state.mode == old(state).mode,
            state.pragma_handlers == old(state).pragma_handlers,
            state.line_directives == old(state).line_directives,
            state.design_depth == old(state).design_depth,
            state.cell_define == old(state).cell_define,
            state.errors@ == old(state).errors@ + unclosed_keywords(
                old(state).curr_standard@,
            ).take(i as int),
        decreases state.curr_standard@.len() - i,
    {
        let span = state.curr_standard[i].1.clone();
        state.errors.push(PreprocessorError::NoEndKeywords { begin_keywords_span: span });
        proof {
            let u = unclosed_keywords(old(state).curr_standard@);
            assert(u.take(i + 1) =~= u.take(i as int).push(u[i as int]));
        }
        i = i + 1;
    }
    proof {
        let u = unclosed_keywords(old(state).curr_standard@);
        assert(u.take(u.len() as int) =~= u);
        assert(state.errors@.take(old(state).errors@.len() as int) =~= old(state).errors@);
    }
}

/// Preprocess the given tokens, elaborating any compiler directives.
///
/// `state` is updated as preprocessing goes (and can be examined
/// afterwards, to see the errors found). The elaborated tokens come back
/// unless an error was met that preprocessing cannot go on after; then
/// `Err(())`, the errors being in `state`.
pub fn preprocess<H: PragmaHandler>(
    src: Vec<SpannedToken>,
    state: &mut PreprocessorState<H>,
) -> (r: Result<Vec<SpannedToken>, ()>)
    ensures
        final(state).files == old(state).files,
        old(state).errors@.is_prefix_of(final(state).errors@),
        final(state).budget <= old(state).budget,
        handler_names(final(state).pragma_handlers@) == handler_names(old(state).pragma_handlers@),
        final(state).mode == Mode::Normal,
        // the stream comes back unless an error is met that preprocessing
        // cannot go on after; that error is then the last one recorded
        r is Err ==> {
            let errs = final(state).errors@;
            &&& errs.len() > old(state).errors@.len()
            &&& !errs.last().warning()
            &&& !(recovery(errs.last()) is Recorded)
        },
        // ordinary text without directives, macros or numbers to re-read
        // passes through, less line breaks and comments
        old(state).errors@.len() == 0 && old(state).curr_standard@.len() == 0
            && old(state).budget > src@.len() + 2 && (forall|i: int|
            0 <= i < src@.len() ==> passes_through(
                #[trigger] src@[i].0@,
                keyword_standard(old(state).curr_standard@),
            )) ==> (r matches Ok(v) && v@ == kept(src@) && final(state).errors@ == old(state).errors@),
        // conditional compilation: text of tokens that pass through and of
        // conditionals whose branches hold such tokens keeps, of each
        // conditional, the branch whose condition holds (or its `else`)
        old(state).errors@.len() == 0 && old(state).curr_standard@.len() == 0 && old(state).budget
            > 4 * src@.len() + 3 ==> match flat_text(
            src@,
            old(state).defines@,
            keyword_standard(old(state).curr_standard@),
        ) {
            Some(out) => r matches Ok(v) && v@ == out && final(state).errors@ == old(state).errors@,
            None => true,
        },
        // macro expansion: text of tokens that pass through and of macro
        // uses (as `expanded_text` describes them) comes out with each use
        // replaced by the tokens kept of its expansion (for a macro with
        // parameters, its body with each parameter replaced by its
        // argument); each use of a macro that is not defined is recorded as
        // an error
        old(state).errors@.len() == 0 && old(state).curr_standard@.len() == 0 && old(state).budget
            > expanded_cost(view_tokens(src@), old(state).defines@, keyword_standard(old(state).curr_standard@)) + 1 ==> match expanded_text(
            view_tokens(src@),
            old(state).defines@,
            keyword_standard(old(state).curr_standard@),
        ) {
            Some(out) => r matches Ok(v) && view_tokens(v@) == out && final(state).errors@
                == old(state).errors@ + expanded_errors(view_tokens(src@), old(state).defines@, keyword_standard(old(state).curr_standard@)),
            None => true,
        },
{
    let ghost plain = old(state).errors@.len() == 0 && old(state).curr_standard@.len() == 0
        && old(state).budget > src@.len() + 2 && (forall|i: int|
        0 <= i < src@.len() ==> passes_through(
            #[trigger] src@[i].0@,
            keyword_standard(old(state).curr_standard@),
        ));
    let ghost input = src@;
    let ghost flat = old(state).errors@.len() == 0 && old(state).curr_standard@.len() == 0
        && old(state).budget > 4 * input.len() + 3 && flat_text(
        input,
        old(state).defines@,
        keyword_standard(old(state).curr_standard@),
    ) is Some;
    let ghost exp = old(state).errors@.len() == 0 && old(state).curr_standard@.len() == 0
        && old(state).budget > expanded_cost(view_tokens(input), old(state).defines@, keyword_standard(old(state).curr_standard@)) + 1
        && expanded_text(
        view_tokens(input),
        old(state).defines@,
        keyword_standard(old(state).curr_standard@),
    ) is Some;
    state.mode = Mode::Normal;
    let ghost start = *state;
    let mut token_iter = TokenIterator::new(src);
    let mut dest: Vec<SpannedToken> = Vec::new();
    loop
        invariant
            start.files == old(state).files,
            start.errors == old(state).errors,
            start.budget == old(state).budget,
            start.pragma_handlers == old(state).pragma_handlers,
            start.defines == old(state).defines,
            start.curr_standard == old(state).curr_standard,
            start.settings == old(state).settings,
            exp == (old(state).errors@.len() == 0 && old(state).curr_standard@.len() == 0
                && old(state).budget > expanded_cost(view_tokens(input), old(state).defines@, keyword_standard(old(state).curr_standard@)) + 1
                && expanded_text(
                view_tokens(input),
                old(state).defines@,
                keyword_standard(old(state).curr_standard@),
            ) is Some),
            exp ==> {
                &&& state.errors == old(state).errors
                &&& state.curr_standard == old(state).curr_standard
                &&& state.defines == old(state).defines
                &&& state.budget == old(state).budget
                &&& token_iter@ == input
                &&& dest@.len() == 0
            },
            evolves(start, *state),
            state.mode == Mode::Normal,
            input == src@,
            plain == (old(state).errors@.len() == 0 && old(state).curr_standard@.len() == 0
                && old(state).budget > input.len() + 2 && (forall|i: int|
                0 <= i < input.len() ==> passes_through(
                    #[trigger] input[i].0@,
                    keyword_standard(old(state).curr_standard@),
                ))),
            plain ==> {
                &&& state.errors == old(state).errors
                &&& state.curr_standard == old(state).curr_standard
                &&& state.settings == old(state).settings
                &&& state.budget == old(state).budget
                &&& token_iter@ == input
                &&& dest@.len() == 0
            },
            flat == (old(state).errors@.len() == 0 && old(state).curr_standard@.len() == 0
                && old(state).budget > 4 * input.len() + 3 && flat_text(
                input,
                old(state).defines@,
                keyword_standard(old(state).curr_standard@),
            ) is Some),
            flat ==> {
                &&& state.errors == old(state).errors
                &&& state.curr_standard == old(state).curr_standard
                &&& state.defines == old(state).defines
                &&& state.budget == old(state).budget
                &&& token_iter@ == input
                &&& dest@.len() == 0
            },
        decreases state.budget,
    {
        let ghost before = *state;
        let ghost before_dest = dest@;
        match preprocess_helper(&mut token_iter, &mut dest, state) {
            Ok(()) => {
                let ghost after = *state;
                preprocess_cleanup(state);
                proof {
                    lemma_evolves_trans(start, before, after);
                    lemma_evolves_trans(start, after, *state);
                    if plain {
                        assert(unclosed_keywords(after.curr_standard@) =~= Seq::<PreprocessorError>::empty());
                        assert(state.errors@ =~= old(state).errors@);
                        assert(dest@ =~= kept(input));
                    }
                    if exp {
                        assert(unclosed_keywords(after.curr_standard@) =~= Seq::<PreprocessorError>::empty());
                        assert(state.errors@ =~= old(state).errors@ + expanded_errors(
                            view_tokens(input),
                            old(state).defines@,
                            keyword_standard(old(state).curr_standard@),
                        ));
                        assert(view_tokens(before_dest) =~= Seq::<(TokenV, Span)>::empty());
                        assert(view_tokens(dest@) =~= expanded_text(
                            view_tokens(input),
                            old(state).defines@,
                            keyword_standard(old(state).curr_standard@),
                        )->0);
                    }
                    if flat {
                        assert(unclosed_keywords(after.curr_standard@) =~= Seq::<PreprocessorError>::empty());
                        assert(state.errors@ =~= old(state).errors@);
                        assert(dest@ =~= flat_text(
                            input,
                            old(state).defines@,
                            keyword_standard(old(state).curr_standard@),
                        )->0);
                    }
                }
                return Ok(dest);
            },
            Err(err) => {
                let ghost after = *state;
                match recover(&mut token_iter, state, err) {
                    Ok(()) => {
                        proof {
                            lemma_evolves_trans(start, before, after);
                            lemma_evolves_trans(start, after, *state);
                        }
                    },
                    Err(err) => {
                        let ghost after2 = *state;
                        preprocess_cleanup(state);
                        state.err(err);
                        proof {
                            lemma_evolves_trans(start, before, after);
                            lemma_evolves_trans(start, after, after2);
                            let last = state.errors@.len() - 1;
                            assert(!state.errors@[last].warning());
                            assert(state.errors@.last() == err);
                        }
                        return Err(());
                    },
                }
            },
        }
    }
}

} // verus!
