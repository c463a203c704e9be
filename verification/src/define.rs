//! Text macros: `` `define ``, `` `undef ``, and their expansion

use crate::error::{expected, PreprocessorError};
use crate::pragma::PragmaHandler;
use crate::preprocess::{arg_end, lemma_arg_end_range, preprocess_helper};
use crate::span::Span;
use crate::spanned_token::{view_tokens, SpannedToken};
use crate::state::{
    defined_as, define_index, evolves, lemma_defined_as_push, lemma_defined_as_remove,
    lemma_evolves_trans, lemma_find_define_range, Define, DefineBody, MacroParameter, Mode,
    PreprocessorState,
};
use crate::token::{Token, TokenV};
use crate::token_iter::TokenIterator;
use crate::util::{append_bytes, bytes_eq, copy_bytes};
use vstd::prelude::*;

verus! {

/// The span of a token expanded from a macro body: where the macro was
/// used, recording the body token's span
pub open spec fn expanded_span(use_span: Span, from: Span) -> Span {
    Span { expanded_from: Some(Box::new(from)), ..use_span }
}

/// The tokens a macro body expands to where the macro is used
pub open spec fn expansion(body: Seq<(TokenV, Span)>, use_span: Span) -> Seq<(TokenV, Span)> {
    body.map_values(|t: (TokenV, Span)| (t.0, expanded_span(use_span, t.1)))
}

/// The tokens a macro without parameters expands to where it is used
pub open spec fn text_expansion(body: DefineBody, use_span: Span) -> Seq<(TokenV, Span)> {
    match body {
        DefineBody::Text(b) => expansion(view_tokens(b@), use_span),
        _ => Seq::empty(),
    }
}

/// A copy of a sequence of tokens
pub fn clone_tokens(v: &Vec<SpannedToken>) -> (r: Vec<SpannedToken>)
    ensures
        view_tokens(r@) == view_tokens(v@),
{
    let mut r: Vec<SpannedToken> = Vec::new();
    let mut i: usize = 0;
    while i < v.len()
        invariant
            i <= v.len(),
            view_tokens(r@) == view_tokens(v@).take(i as int),
        decreases v.len() - i,
    {
        let ghost before = r@;
        r.push(v[i].clone());
        assert(view_tokens(r@) =~= view_tokens(before).push(v@[i as int]@));
        assert(view_tokens(v@).take(i + 1) =~= view_tokens(v@).take(i as int).push(v@[i as int]@));
        i = i + 1;
    }
    assert(view_tokens(v@).take(v.len() as int) =~= view_tokens(v@));
    r
}

fn expanded_token(t: &SpannedToken, use_span: &Span) -> (r: SpannedToken)
    ensures
        r@ == (t.0@, expanded_span(*use_span, t.1)),
{
    let mut span = use_span.clone();
    span.expanded_from = Some(Box::new(t.1.clone()));
    SpannedToken(t.0.clone(), span)
}

/// The expansion of a macro body where the macro is used
pub fn expand_body(body: &Vec<SpannedToken>, use_span: &Span) -> (r: Vec<SpannedToken>)
    ensures
        view_tokens(r@) == expansion(view_tokens(body@), *use_span),
{
    let mut r: Vec<SpannedToken> = Vec::new();
    let mut i: usize = 0;
    while i < body.len()
        invariant
            i <= body.len(),
            view_tokens(r@) == expansion(view_tokens(body@), *use_span).take(i as int),
        decreases body.len() - i,
    {
        let ghost before = r@;
        r.push(expanded_token(&body[i], use_span));
        let ghost e = expansion(view_tokens(body@), *use_span);
        assert(view_tokens(r@) =~= view_tokens(before).push(r@[i as int]@));
        assert(e.take(i + 1) =~= e.take(i as int).push(e[i as int]));
        i = i + 1;
    }
    assert(expansion(view_tokens(body@), *use_span).take(body.len() as int) =~= expansion(
        view_tokens(body@),
        *use_span,
    ));
    r
}

/// The tokens of a default argument, if there is one
pub open spec fn default_view(d: Option<Vec<SpannedToken>>) -> Option<Seq<(TokenV, Span)>> {
    match d {
        Some(v) => Some(view_tokens(v@)),
        None => None,
    }
}

/// Whether two lists of parameters have the same names and defaults
pub open spec fn same_params(a: Seq<MacroParameter>, b: Seq<MacroParameter>) -> bool {
    &&& a.len() == b.len()
    &&& forall|i: int|
        0 <= i < a.len() ==> (#[trigger] a[i]).name@ == b[i].name@ && default_view(a[i].default)
            == default_view(b[i].default)
}

fn clone_parameters(v: &Vec<MacroParameter>) -> (r: Vec<MacroParameter>)
    ensures
        same_params(r@, v@),
{
    let mut r: Vec<MacroParameter> = Vec::new();
    let mut i: usize = 0;
    while i < v.len()
        invariant
            i <= v.len(),
            r@.len() == i,
            forall|j: int|
                0 <= j < i ==> (#[trigger] r@[j]).name@ == v@[j].name@ && default_view(r@[j].default)
                    == default_view(v@[j].default),
        decreases v.len() - i,
    {
        let default = match &v[i].default {
            Some(d) => Some(clone_tokens(d)),
            None => None,
        };
        r.push(MacroParameter { name: copy_bytes(v[i].name.as_slice()), default });
        i = i + 1;
    }
    r
}

/// Expand the text macro of the given name, used at `macro_span`: its
/// expansion is pushed on the front of the stream
pub fn preprocess_macro<H: PragmaHandler>(
    src: &mut TokenIterator,
    state: &mut PreprocessorState<H>,
    name: &[u8],
    macro_span: &Span,
) -> (r: Result<(), PreprocessorError>)
    ensures
        final(state).defines == old(state).defines,
        evolves(*old(state), *final(state)),
        final(state).curr_standard == old(state).curr_standard,
        final(state).settings == old(state).settings,
        r matches Err(e) ==> e.reportable(),
        old(state).budget > 0 ==> match define_index(old(state).defines@, name@) {
            None => r matches Err(PreprocessorError::UndefinedMacro { macro_span: s })
                && s == *macro_span && final(src)@ == old(src)@ && final(state).errors == old(
                state,
            ).errors && final(state).budget == old(state).budget - 1,
            Some(i) => match old(state).defines@[i].body {
                DefineBody::Empty => r is Ok && final(src)@ == old(src)@,
                DefineBody::Text(body) => r is Ok && view_tokens(final(src)@) == text_expansion(
                    old(state).defines@[i].body,
                    *macro_span,
                ) + view_tokens(old(src)@),
                // a macro with parameters must be given its arguments; its body
                // comes next, each parameter replaced by the text it stands for
                DefineBody::Function(params, body) => (old(state).budget > 2 && (old(src)@.len() == 0
                    || !(old(src)@[0].0 is Paren)) ==> (r matches Err(
                    PreprocessorError::NoMacroArguments { macro_span: s },
                ) && s == *macro_span && final(src)@ == old(src)@)) && (r is Ok ==> exists|
                    args: Seq<Seq<(TokenV, Span)>>,
                |
                    #![trigger macro_values(params@, args)]
                    {
                        let sub = substitution(body@, params@, macro_values(params@, args), *macro_span);
                        &&& args_complete(params@, args)
                        &&& view_tokens(final(src)@).take(sub.len() as int) == sub
                    }),
            },
        },
        (old(state).budget > 0 && (define_index(old(state).defines@, name@) matches Some(i)
            && !(old(state).defines@[i].body is Function))) ==> final(state).errors == old(
            state,
        ).errors && final(state).budget == old(state).budget - 1,
        // a macro with parameters used with arguments of plain tokens: the
        // body, each parameter replaced by the text it stands for
        ({
            let s = old(src)@;
            match define_index(old(state).defines@, name@) {
                Some(i) => match old(state).defines@[i].body {
                    DefineBody::Function(params, body) => s.len() > 0 && s[0].0 is Paren && old(
                        state,
                    ).budget > 2 * s.len() + 4 ==> match split_args(s, 1) {
                        Some((args, e)) => function_use(
                            params@,
                            body@,
                            *macro_span,
                            s,
                            args,
                            e,
                            r,
                            final(src)@,
                        ) && final(state).errors == old(state).errors && old(state).budget
                            - final(state).budget <= 2 * e + 2,
                        None => true,
                    },
                    _ => true,
                },
                None => true,
            }
        }),
    decreases old(state).budget, 0nat,
{
    if !state.spend() {
        return Err(PreprocessorError::StepLimit);
    }
    let i = match state.lookup_define(name) {
        None => {
            return Err(PreprocessorError::UndefinedMacro { macro_span: macro_span.clone() });
        },
        Some(i) => i,
    };
    match &state.defines[i].body {
        DefineBody::Empty => Ok(()),
        DefineBody::Text(body) => {
            let toks = expand_body(body, macro_span);
            let ghost before = src@;
            src.prepend_tokens(toks);
            assert(view_tokens(src@) =~= view_tokens(toks@) + view_tokens(before));
            Ok(())
        },
        DefineBody::Function(params, body) => {
            let ghost p0 = params@;
            let ghost b0 = body@;
            let params = clone_parameters(params);
            let body = clone_tokens(body);
            let ghost mid = *state;
            let r = expand_function(src, state, &params, &body, macro_span);
            proof {
                lemma_evolves_trans(*old(state), mid, *state);
                if r is Ok {
                    let args = choose|args: Seq<Seq<(TokenV, Span)>>|
                        #![trigger macro_values(params@, args)]
                        {
                            let sub = substitution(body@, params@, macro_values(params@, args), *macro_span);
                            &&& args_complete(params@, args)
                            &&& view_tokens(src@).take(sub.len() as int) == sub
                        };
                    lemma_macro_values_same(params@, p0, args);
                    lemma_substitution_same(body@, b0, params@, p0, macro_values(params@, args), *macro_span);
                    assert(macro_values(p0, args) == macro_values(params@, args));
                }
                let s = old(src)@;
                match split_args(s, 1) {
                    Some((all, e)) => {
                        let a = arg_views(all);
                        lemma_macro_values_same(params@, p0, a);
                        lemma_substitution_same(body@, b0, params@, p0, macro_values(params@, a), *macro_span);
                    },
                    None => {},
                }
            }
            r
        },
    }
}

/// The position of the first parameter, at or after `i`, of the given name
pub open spec fn param_position(params: Seq<MacroParameter>, n: Seq<u8>, i: int) -> Option<int>
    decreases params.len() - i,
{
    if i < 0 || i >= params.len() {
        None
    } else if params[i].name@ == n {
        Some(i)
    } else {
        param_position(params, n, i + 1)
    }
}

/// The parameter that a token of a macro body names, if any
pub open spec fn named_parameter(params: Seq<MacroParameter>, t: TokenV) -> Option<int> {
    match t {
        TokenV::SimpleIdentifier(n) => param_position(params, n, 0),
        _ => None,
    }
}

proof fn lemma_param_position(params: Seq<MacroParameter>, n: Seq<u8>, i: int)
    requires
        0 <= i,
    ensures
        param_position(params, n, i) matches Some(j) ==> i <= j < params.len(),
    decreases params.len() - i,
{
    if i < params.len() && params[i].name@ != n {
        lemma_param_position(params, n, i + 1);
    }
}

/// The index of the first parameter with the given name
fn parameter_index(params: &Vec<MacroParameter>, name: &Vec<u8>) -> (r: Option<usize>)
    ensures
        match r {
            Some(j) => param_position(params@, name@, 0) == Some(j as int) && j < params@.len(),
            None => param_position(params@, name@, 0) is None,
        },
{
    let mut j: usize = 0;
    while j < params.len()
        invariant
            j <= params@.len(),
            param_position(params@, name@, j as int) == param_position(params@, name@, 0),
        decreases params.len() - j,
    {
        if bytes_eq(params[j].name.as_slice(), name.as_slice()) {
            return Some(j);
        }
        j = j + 1;
    }
    None
}

/// The tokens of each of a sequence of token vectors
pub open spec fn views_of(args: Seq<Vec<SpannedToken>>) -> Seq<Seq<(TokenV, Span)>> {
    args.map_values(|a: Vec<SpannedToken>| view_tokens(a@))
}

/// The text parameter `j` stands for in a macro use with the given
/// arguments: its argument if that is not empty, else its default, else
/// nothing where an (empty) argument was given; `None` where there is
/// neither argument nor default
pub open spec fn parameter_value(
    params: Seq<MacroParameter>,
    args: Seq<Seq<(TokenV, Span)>>,
    j: int,
) -> Option<Seq<(TokenV, Span)>> {
    if j < args.len() && args[j].len() > 0 {
        Some(args[j])
    } else {
        match params[j].default {
            Some(d) => Some(view_tokens(d@)),
            None => if j < args.len() {
                Some(Seq::empty())
            } else {
                None
            },
        }
    }
}

/// Whether every parameter stands for some text in a macro use with the
/// given arguments
pub open spec fn args_complete(params: Seq<MacroParameter>, args: Seq<Seq<(TokenV, Span)>>) -> bool {
    forall|j: int| 0 <= j < params.len() ==> #[trigger] parameter_value(params, args, j) is Some
}

/// The text each parameter stands for in a macro use with the given
/// arguments
pub open spec fn macro_values(params: Seq<MacroParameter>, args: Seq<Seq<(TokenV, Span)>>) -> Seq<
    Seq<(TokenV, Span)>,
> {
    Seq::new(params.len(), |j: int| parameter_value(params, args, j)->0)
}

/// The text each parameter stands for in a macro use with the given
/// arguments, or `None` if one has none
pub fn argument_values(params: &Vec<MacroParameter>, args: &Vec<Vec<SpannedToken>>) -> (r: Option<
    Vec<Vec<SpannedToken>>,
>)
    ensures
        match r {
            Some(v) => v@.len() == params@.len() && forall|j: int|
                0 <= j < params@.len() ==> parameter_value(params@, views_of(args@), j) == Some(
                    view_tokens(#[trigger] v@[j]@),
                ),
            None => exists|j: int|
                0 <= j < params@.len() && (#[trigger] parameter_value(params@, views_of(args@), j))
                    is None,
        },
{
    let ghost a = views_of(args@);
    let mut values: Vec<Vec<SpannedToken>> = Vec::new();
    let mut j: usize = 0;
    while j < params.len()
        invariant
            j <= params@.len(),
            values@.len() == j,
            a == views_of(args@),
            forall|i: int|
                0 <= i < j ==> parameter_value(params@, a, i) == Some(view_tokens(#[trigger] values@[i]@)),
        decreases params.len() - j,
    {
        let given = j < args.len() && args[j].len() > 0;
        proof {
            if j < args@.len() {
                assert(a[j as int] == view_tokens(args@[j as int]@));
            }
        }
        let ghost before = values@;
        if given {
            values.push(clone_tokens(&args[j]));
        } else {
            match &params[j].default {
                Some(d) => values.push(clone_tokens(d)),
                None => {
                    if j < args.len() {
                        values.push(Vec::new());
                        assert(view_tokens(values@[j as int]@) =~= Seq::<(TokenV, Span)>::empty());
                    } else {
                        assert(parameter_value(params@, a, j as int) is None);
                        return None;
                    }
                },
            }
        }
        assert forall|i: int| 0 <= i < j + 1 implies parameter_value(params@, a, i) == Some(
            view_tokens(#[trigger] values@[i]@),
        ) by {
            if i < j {
                assert(values@[i] == before[i]);
            }
        }
        j = j + 1;
    }
    Some(values)
}

/// The expansion of the body of a macro with parameters, where it is
/// used: each parameter is replaced by the text it stands for, and the
/// other tokens are placed at the use
pub open spec fn substitution(
    body: Seq<SpannedToken>,
    params: Seq<MacroParameter>,
    values: Seq<Seq<(TokenV, Span)>>,
    use_span: Span,
) -> Seq<(TokenV, Span)>
    decreases body.len(),
{
    if body.len() == 0 {
        Seq::empty()
    } else {
        let t = body.last();
        substitution(body.drop_last(), params, values, use_span) + match named_parameter(
            params,
            t.0@,
        ) {
            Some(j) => values[j],
            None => seq![(t.0@, expanded_span(use_span, t.1))],
        }
    }
}

proof fn lemma_param_position_same(a: Seq<MacroParameter>, b: Seq<MacroParameter>, n: Seq<u8>, i: int)
    requires
        same_params(a, b),
        0 <= i,
    ensures
        param_position(a, n, i) == param_position(b, n, i),
    decreases a.len() - i,
{
    if i < a.len() {
        assert(a[i].name@ == b[i].name@);
        lemma_param_position_same(a, b, n, i + 1);
    }
}

proof fn lemma_substitution_same(
    b1: Seq<SpannedToken>,
    b2: Seq<SpannedToken>,
    p1: Seq<MacroParameter>,
    p2: Seq<MacroParameter>,
    values: Seq<Seq<(TokenV, Span)>>,
    use_span: Span,
)
    requires
        view_tokens(b1) == view_tokens(b2),
        same_params(p1, p2),
    ensures
        substitution(b1, p1, values, use_span) == substitution(b2, p2, values, use_span),
    decreases b1.len(),
{
    assert(b1.len() == view_tokens(b1).len());
    if b1.len() > 0 {
        assert(view_tokens(b1.drop_last()) =~= view_tokens(b1).drop_last());
        assert(view_tokens(b2.drop_last()) =~= view_tokens(b2).drop_last());
        lemma_substitution_same(b1.drop_last(), b2.drop_last(), p1, p2, values, use_span);
        assert(b1.last()@ == view_tokens(b1)[b1.len() - 1]);
        assert(b2.last()@ == view_tokens(b2)[b2.len() - 1]);
        match b1.last().0@ {
            TokenV::SimpleIdentifier(n) => {
                lemma_param_position_same(p1, p2, n, 0);
            },
            _ => {},
        }
    }
}

proof fn lemma_macro_values_same(p1: Seq<MacroParameter>, p2: Seq<MacroParameter>, args: Seq<Seq<(TokenV, Span)>>)
    requires
        same_params(p1, p2),
    ensures
        macro_values(p1, args) == macro_values(p2, args),
        args_complete(p1, args) == args_complete(p2, args),
{
    assert forall|j: int| 0 <= j < p1.len() implies #[trigger] parameter_value(p1, args, j)
        == parameter_value(p2, args, j) by {
        assert(default_view(p1[j].default) == default_view(p2[j].default));
    }
    assert(macro_values(p1, args) =~= macro_values(p2, args));
    if args_complete(p1, args) {
        assert forall|j: int| 0 <= j < p2.len() implies #[trigger] parameter_value(p2, args, j) is Some by {
            assert(parameter_value(p1, args, j) is Some);
        }
    }
    if args_complete(p2, args) {
        assert forall|j: int| 0 <= j < p1.len() implies #[trigger] parameter_value(p1, args, j) is Some by {
            assert(parameter_value(p2, args, j) is Some);
        }
    }
}

/// The expansion of the body of a macro with parameters (see
/// [`substitution`])
pub fn substitute_body(
    body: &Vec<SpannedToken>,
    params: &Vec<MacroParameter>,
    values: &Vec<Vec<SpannedToken>>,
    use_span: &Span,
) -> (r: Vec<SpannedToken>)
    requires
        values@.len() == params@.len(),
    ensures
        view_tokens(r@) == substitution(body@, params@, views_of(values@), *use_span),
{
    let ghost vals = views_of(values@);
    let mut out: Vec<SpannedToken> = Vec::new();
    let mut i: usize = 0;
    while i < body.len()
        invariant
            i <= body@.len(),
            values@.len() == params@.len(),
            vals == views_of(values@),
            view_tokens(out@) == substitution(body@.take(i as int), params@, vals, *use_span),
        decreases body.len() - i,
    {
        proof {
            assert(body@.take(i + 1).drop_last() =~= body@.take(i as int));
            assert(body@.take(i + 1).last() == body@[i as int]);
        }
        let param = match &body[i].0 {
            Token::SimpleIdentifier(n) => parameter_index(params, n),
            _ => None,
        };
        let ghost before = view_tokens(out@);
        match param {
            Some(j) => {
                let ghost start = out@;
                let mut k: usize = 0;
                while k < values[j].len()
                    invariant
                        j < values@.len(),
                        k <= values@[j as int]@.len(),
                        view_tokens(out@) == view_tokens(start) + view_tokens(values@[j as int]@).take(
                            k as int,
                        ),
                    decreases values@[j as int]@.len() - k,
                {
                    let ghost o = out@;
                    out.push(values[j][k].clone());
                    assert(view_tokens(out@) =~= view_tokens(o).push(values@[j as int]@[k as int]@));
                    assert(view_tokens(values@[j as int]@).take(k + 1) =~= view_tokens(
                        values@[j as int]@,
                    ).take(k as int).push(values@[j as int]@[k as int]@));
                    k = k + 1;
                }
                proof {
                    assert(view_tokens(values@[j as int]@).take(values@[j as int]@.len() as int)
                        =~= view_tokens(values@[j as int]@));
                    assert(vals[j as int] == view_tokens(values@[j as int]@));
                }
            },
            None => {
                let ghost o = out@;
                out.push(expanded_token(&body[i], use_span));
                assert(view_tokens(out@) =~= view_tokens(o).push(out@.last()@));
                assert(view_tokens(out@) =~= view_tokens(o) + seq![
                    (body@[i as int].0@, expanded_span(*use_span, body@[i as int].1)),
                ]);
            },
        }
        i = i + 1;
    }
    proof {
        assert(body@.take(body@.len() as int) =~= body@);
    }
    out
}

/// The views of the tokens of each argument
pub open spec fn arg_views(args: Seq<Seq<SpannedToken>>) -> Seq<Seq<(TokenV, Span)>> {
    args.map_values(|a: Seq<SpannedToken>| view_tokens(a))
}

/// What a use of a macro with parameters gives, its arguments (of plain
/// tokens) read from `s`, which starts at the `(`: too many arguments, a
/// parameter left without text, or the body with each parameter replaced
/// by the text it stands for, in front of the rest of the stream
pub open spec fn function_use(
    params: Seq<MacroParameter>,
    body: Seq<SpannedToken>,
    use_span: Span,
    s: Seq<SpannedToken>,
    args: Seq<Seq<SpannedToken>>,
    e: int,
    r: Result<(), PreprocessorError>,
    src1: Seq<SpannedToken>,
) -> bool {
    let a = arg_views(args);
    if a.len() > params.len() && !(params.len() == 0 && a.len() == 1 && a[0].len() == 0) {
        r == Err::<(), PreprocessorError>(PreprocessorError::TooManyMacroArguments { macro_span: use_span })
    } else if !args_complete(params, a) {
        r == Err::<(), PreprocessorError>(PreprocessorError::MissingMacroArgument { macro_span: use_span })
    } else {
        r is Ok && view_tokens(src1) == substitution(body, params, macro_values(params, a), use_span)
            + view_tokens(s.skip(e))
    }
}

/// Expand a macro with parameters: read the arguments, then push the
/// body, with each parameter replaced by its argument, on the stream
fn expand_function<H: PragmaHandler>(
    src: &mut TokenIterator,
    state: &mut PreprocessorState<H>,
    params: &Vec<MacroParameter>,
    body: &Vec<SpannedToken>,
    macro_span: &Span,
) -> (r: Result<(), PreprocessorError>)
    ensures
        final(state).defines == old(state).defines,
        evolves(*old(state), *final(state)),
        final(state).curr_standard == old(state).curr_standard,
        final(state).settings == old(state).settings,
        r matches Err(e) ==> e.reportable(),
        old(state).budget > 1 && (old(src)@.len() == 0 || !(old(src)@[0].0 is Paren)) ==> (r matches Err(
            PreprocessorError::NoMacroArguments { macro_span: s },
        ) && s == *macro_span && final(src)@ == old(src)@),
        // the body comes next, with each parameter replaced by the text it
        // stands for in the arguments read
        r is Ok ==> exists|args: Seq<Seq<(TokenV, Span)>>|
            #![trigger macro_values(params@, args)]
            {
                let sub = substitution(body@, params@, macro_values(params@, args), *macro_span);
                &&& args_complete(params@, args)
                &&& view_tokens(final(src)@).take(sub.len() as int) == sub
            },
        // arguments of plain tokens
        ({
            let s = old(src)@;
            s.len() > 0 && s[0].0 is Paren && old(state).budget > 2 * s.len() + 3 ==> match split_args(s, 1) {
                Some((args, e)) => function_use(params@, body@, *macro_span, s, args, e, r, final(src)@)
                    && final(state).errors == old(state).errors && old(state).budget - final(state).budget
                    <= 2 * e + 1,
                None => true,
            }
        }),
    decreases old(state).budget, 0nat,
{
    let ghost s = src@;
    if !state.spend() {
        return Err(PreprocessorError::StepLimit);
    }
    let ghost mid = *state;
    let args = match collect_macro_args(src, state, macro_span) {
        Ok(a) => a,
        Err(e) => {
            proof {
                lemma_evolves_trans(*old(state), mid, *state);
            }
            return Err(e);
        },
    };
    proof {
        lemma_evolves_trans(*old(state), mid, *state);
        if s.len() > 0 && s[0].0 is Paren && old(state).budget > 2 * s.len() + 3 {
            match split_args(s, 1) {
                Some((all, e)) => {
                    assert(views_of(args@) =~= arg_views(all));
                },
                None => {},
            }
        }
    }
    // `F()` passes one empty argument, which a macro of no parameters takes
    let no_args = params.len() == 0 && args.len() == 1 && args[0].len() == 0;
    if args.len() > params.len() && !no_args {
        return Err(PreprocessorError::TooManyMacroArguments { macro_span: macro_span.clone() });
    }
    // the text each parameter stands for
    let values = match argument_values(params, &args) {
        Some(v) => v,
        None => {
            return Err(PreprocessorError::MissingMacroArgument { macro_span: macro_span.clone() });
        },
    };
    let out = substitute_body(body, params, &values, macro_span);
    let ghost before = src@;
    let ghost sub = substitution(body@, params@, views_of(values@), *macro_span);
    src.prepend_tokens(out);
    proof {
        assert(view_tokens(src@) =~= view_tokens(out@) + view_tokens(before));
        assert(view_tokens(src@).take(sub.len() as int) =~= sub);
        let a = views_of(args@);
        assert forall|j: int| 0 <= j < params@.len() implies #[trigger] parameter_value(
            params@,
            a,
            j,
        ) is Some by {
            assert(parameter_value(params@, a, j) == Some(view_tokens(values@[j]@)));
        }
        assert(views_of(values@) =~= macro_values(params@, a)) by {
            assert forall|j: int| 0 <= j < params@.len() implies views_of(values@)[j] == macro_values(
                params@,
                a,
            )[j] by {
                assert(parameter_value(params@, a, j) == Some(view_tokens(values@[j]@)));
            }
        }
        assert(args_complete(params@, a));
    }
    Ok(())
}

/// The arguments of plain tokens of a macro use, read from `i` (just
/// after the `(` or a `,`) to the `)` that ends them, and where the stream
/// goes on after it (`None` where they are not all plain, or not closed)
pub open spec fn split_args(s: Seq<SpannedToken>, i: int) -> Option<(Seq<Seq<SpannedToken>>, int)>
    decreases s.len() - i,
{
    if i < 0 || i >= s.len() {
        None
    } else {
        match arg_end(s.skip(i), 0, Seq::empty()) {
            Some(j) => if 0 <= j && i + j < s.len() {
                let arg = s.skip(i).take(j);
                if s[i + j].0@ is EParen {
                    Some((seq![arg], i + j + 1))
                } else {
                    match split_args(s, i + j + 1) {
                        Some((rest, e)) => Some((seq![arg] + rest, e)),
                        None => None,
                    }
                }
            } else {
                None
            },
            None => None,
        }
    }
}

/// `arg_end` on the values of tokens
pub open spec fn arg_end_v(s: Seq<(TokenV, Span)>, i: int, open: Seq<u8>) -> Option<int>
    decreases s.len() - i,
{
    if i < 0 || i >= s.len() {
        None
    } else {
        let t = s[i].0;
        if !crate::preprocess::plain_arg_token(t) {
            None
        } else {
            match crate::preprocess::opens_bracket(t) {
                Some(b) => arg_end_v(s, i + 1, open.push(b)),
                None => match crate::preprocess::closes_bracket(t) {
                    Some(b) => if open.len() == 0 {
                        if b == 0 {
                            Some(i)
                        } else {
                            None
                        }
                    } else if open.last() == b {
                        arg_end_v(s, i + 1, open.drop_last())
                    } else {
                        None
                    },
                    None => if t is Comma && open.len() == 0 {
                        Some(i)
                    } else {
                        arg_end_v(s, i + 1, open)
                    },
                },
            }
        }
    }
}

/// `split_args` on the values of tokens
pub open spec fn split_args_v(s: Seq<(TokenV, Span)>, i: int) -> Option<(Seq<Seq<(TokenV, Span)>>, int)>
    decreases s.len() - i,
{
    if i < 0 || i >= s.len() {
        None
    } else {
        match arg_end_v(s.skip(i), 0, Seq::empty()) {
            Some(j) => if 0 <= j && i + j < s.len() {
                let arg = s.skip(i).take(j);
                if s[i + j].0 is EParen {
                    Some((seq![arg], i + j + 1))
                } else {
                    match split_args_v(s, i + j + 1) {
                        Some((rest, e)) => Some((seq![arg] + rest, e)),
                        None => None,
                    }
                }
            } else {
                None
            },
            None => None,
        }
    }
}

proof fn lemma_arg_end_v(s: Seq<SpannedToken>, i: int, open: Seq<u8>)
    ensures
        arg_end(s, i, open) == arg_end_v(view_tokens(s), i, open),
    decreases s.len() - i,
{
    if 0 <= i < s.len() {
        assert(view_tokens(s)[i].0 == s[i].0@);
        let t = s[i].0@;
        match crate::preprocess::opens_bracket(t) {
            Some(b) => lemma_arg_end_v(s, i + 1, open.push(b)),
            None => {
                lemma_arg_end_v(s, i + 1, open);
                if open.len() > 0 {
                    lemma_arg_end_v(s, i + 1, open.drop_last());
                }
            },
        }
    }
}

/// Reading the arguments of a use from tokens, or from their values, gives
/// the same
pub proof fn lemma_split_args_v(s: Seq<SpannedToken>, i: int)
    ensures
        match split_args(s, i) {
            Some((args, e)) => split_args_v(view_tokens(s), i) == Some((arg_views(args), e)),
            None => split_args_v(view_tokens(s), i) is None,
        },
    decreases s.len() - i,
{
    let v = view_tokens(s);
    if 0 <= i < s.len() {
        lemma_arg_end_v(s.skip(i), 0, Seq::empty());
        assert(view_tokens(s.skip(i)) =~= v.skip(i));
        match arg_end(s.skip(i), 0, Seq::empty()) {
            Some(j) => if 0 <= j && i + j < s.len() {
                assert(v[i + j].0 == s[i + j].0@);
                let arg = s.skip(i).take(j);
                assert(view_tokens(arg) =~= v.skip(i).take(j));
                if !(s[i + j].0@ is EParen) {
                    lemma_split_args_v(s, i + j + 1);
                    match split_args(s, i + j + 1) {
                        Some((rest, e)) => {
                            assert(arg_views(seq![arg] + rest) =~= seq![view_tokens(arg)] + arg_views(rest));
                        },
                        None => {},
                    }
                } else {
                    assert(arg_views(seq![arg]) =~= seq![view_tokens(arg)]);
                }
            },
            None => {},
        }
    }
}

/// The arguments read end where the stream goes on, at most at its end
pub proof fn lemma_split_args_range(s: Seq<SpannedToken>, i: int)
    requires
        0 <= i,
    ensures
        split_args(s, i) matches Some((args, e)) ==> i < e <= s.len() && args.len() > 0,
    decreases s.len() - i,
{
    if 0 <= i < s.len() {
        match arg_end(s.skip(i), 0, Seq::empty()) {
            Some(j) => if 0 <= j && i + j < s.len() && !(s[i + j].0@ is EParen) {
                lemma_split_args_range(s, i + j + 1);
            },
            None => {},
        }
    }
}

/// Read the arguments of a macro use, from the `(` after its name to the
/// matching `)`
fn collect_macro_args<H: PragmaHandler>(
    src: &mut TokenIterator,
    state: &mut PreprocessorState<H>,
    macro_span: &Span,
) -> (r: Result<Vec<Vec<SpannedToken>>, PreprocessorError>)
    ensures
        final(state).defines == old(state).defines,
        evolves(*old(state), *final(state)),
        final(state).curr_standard == old(state).curr_standard,
        final(state).settings == old(state).settings,
        r matches Err(e) ==> e.reportable(),
        r matches Ok(args) ==> args@.len() > 0,
        old(state).budget > 0 && (old(src)@.len() == 0 || !(old(src)@[0].0 is Paren)) ==> (r matches Err(
            PreprocessorError::NoMacroArguments { macro_span: s },
        ) && s == *macro_span && final(src)@ == old(src)@),
        // arguments of plain tokens: the tokens between the brackets, split
        // at the commas outside nested brackets
        ({
            let s = old(src)@;
            s.len() > 0 && s[0].0 is Paren && old(state).budget > 2 * s.len() + 2 ==> match split_args(s, 1) {
                Some((args, e)) => {
                    &&& r matches Ok(v) && v@.len() == args.len() && forall|j: int|
                        0 <= j < args.len() ==> (#[trigger] v@[j])@ == args[j]
                    &&& final(src)@ == s.skip(e)
                    &&& final(state).errors == old(state).errors
                    &&& old(state).budget - final(state).budget <= 2 * e
                },
                None => true,
            }
        }),
    decreases old(state).budget, 0nat,
{
    let ghost s = src@;
    let ghost plain = s.len() > 0 && s[0].0 is Paren && old(state).budget > 2 * s.len() + 2 && split_args(s, 1) is Some;
    let ghost found = split_args(s, 1)->0;
    let ghost all = found.0;
    let ghost e = found.1;
    let ghost mut pos: int = 1;
    proof {
        lemma_split_args_range(s, 1);
    }
    if !state.spend() {
        return Err(PreprocessorError::StepLimit);
    }
    let opened = match src.peek() {
        Some(t) => matches!(t.0, Token::Paren),
        None => false,
    };
    if !opened {
        return Err(PreprocessorError::NoMacroArguments { macro_span: macro_span.clone() });
    }
    let _ = src.next();
    let saved = state.mode;
    state.mode = Mode::TextMacroArg;
    let ghost start = *state;
    let mut args: Vec<Vec<SpannedToken>> = Vec::new();
    loop
        invariant
            state.defines == old(state).defines,
            evolves(start, *state),
            state.mode == Mode::TextMacroArg,
            start.mode == Mode::TextMacroArg,
            start.files == old(state).files,
            start.errors == old(state).errors,
            start.budget < old(state).budget,
            start.curr_standard == old(state).curr_standard,
            start.settings == old(state).settings,
            start.pragma_handlers == old(state).pragma_handlers,
            state.curr_standard == old(state).curr_standard,
            state.settings == old(state).settings,
            saved == old(state).mode,
            old(src)@.len() > 0 && old(src)@[0].0 is Paren,
            s == old(src)@,
            plain == (s.len() > 0 && s[0].0 is Paren && old(state).budget > 2 * s.len() + 2 && split_args(s, 1) is Some),
            plain ==> split_args(s, 1) == Some((all, e)),
            plain ==> {
                &&& 1 <= pos < e <= s.len()
                &&& src@ == s.skip(pos)
                &&& args@.len() < all.len()
                &&& split_args(s, pos) == Some((all.skip(args@.len() as int), e))
                &&& forall|j: int| 0 <= j < args@.len() ==> (#[trigger] args@[j])@ == all[j]
                &&& state.errors == old(state).errors
                &&& old(state).budget - state.budget <= 2 * pos - 1
            },
        decreases state.budget,
    {
        let mut arg: Vec<SpannedToken> = Vec::new();
        let ghost before = *state;
        let ghost n = args@.len() as int;
        proof {
            if plain {
                lemma_arg_end_range(s.skip(pos), 0, Seq::empty());
                lemma_split_args_range(s, pos);
                assert(arg@ =~= Seq::<SpannedToken>::empty());
            }
        }
        let res = preprocess_helper(src, &mut arg, state);
        proof {
            lemma_evolves_trans(start, before, *state);
        }
        let ghost arg_v = arg@;
        let ghost before_args = args@;
        args.push(arg);
        proof {
            if plain {
                let j = arg_end(s.skip(pos), 0, Seq::empty())->0;
                assert(arg_v =~= Seq::<SpannedToken>::empty() + s.skip(pos).take(j));
                assert(s.skip(pos).skip(j + 1) =~= s.skip(pos + j + 1));
                assert(all.skip(n)[0] == s.skip(pos).take(j));
                assert(args@[n]@ == all[n]);
                assert forall|k: int| 0 <= k < args@.len() implies (#[trigger] args@[k])@ == all[k] by {
                    if k < n {
                        assert(args@[k] == before_args[k]);
                    }
                }
                if !(s[pos + j].0@ is EParen) {
                    lemma_split_args_range(s, pos + j + 1);
                    assert(all.skip(n + 1) =~= all.skip(n).skip(1));
                    pos = pos + j + 1;
                }
            }
        }
        match res {
            Err(PreprocessorError::EndOfFunctionArgument(end)) => {
                if matches!(end.0, Token::EParen) {
                    state.mode = saved;
                    return Ok(args);
                }
            },
            Ok(()) => {
                state.mode = saved;
                return Err(
                    PreprocessorError::IncompleteDirective { directive_span: macro_span.clone() },
                );
            },
            Err(e) => {
                state.mode = saved;
                return Err(e);
            },
        }
    }
}

} // verus!

verus! {

/// The text of a macro name written as the given token
fn name_text(t: &Token) -> (r: Option<Vec<u8>>)
    ensures
        match r {
            Some(n) => crate::conditional::macro_name(t@) == Some(n@),
            None => crate::conditional::macro_name(t@) is None,
        },
{
    match t {
        Token::SimpleIdentifier(n) => Some(copy_bytes(n.as_slice())),
        Token::Keyword(k) => {
            let mut v = Vec::new();
            append_bytes(&mut v, k.as_str().as_bytes());
            Some(v)
        },
        _ => None,
    }
}

/// Whether a `(` right after the name (with no blank between) opens the
/// parameters of a define whose name is the first of `s`
pub open spec fn has_parameters(s: Seq<SpannedToken>) -> bool {
    s.len() > 1 && s[1].0 is Paren && s[1].1.file == s[0].1.file && s[1].1.start == s[0].1.end
}

/// The body of a define that has nothing to elaborate: nothing, or the
/// given tokens
pub open spec fn plain_body(body: DefineBody, toks: Seq<SpannedToken>) -> bool {
    if toks.len() == 0 {
        body is Empty
    } else {
        body matches DefineBody::Text(b) && b@ == toks
    }
}

/// `` `define ``: read the macro's name, its parameters if a `(` follows
/// the name at once, and its body up to the end of the line (a line break
/// escaped by a backslash continues it); a macro already defined is
/// replaced, with a warning
pub fn preprocess_define<H: PragmaHandler>(
    src: &mut TokenIterator,
    state: &mut PreprocessorState<H>,
    define_span: &Span,
) -> (r: Result<(), PreprocessorError>)
    ensures
        evolves(*old(state), *final(state)),
        r matches Err(e) ==> e.reportable(),
        old(state).budget > 0 && old(src)@.len() == 0 ==> (r matches Err(
            PreprocessorError::IncompleteDefine { define_span: s },
        ) && s == *define_span),
        // a defined name is defined afterwards, by the definition just made
        r is Ok ==> old(src)@.len() > 0 && (crate::conditional::macro_name(old(src)@[0].0@) matches Some(
            n,
        ) && define_index(final(state).defines@, n) == Some(final(state).defines@.len() - 1)
            && final(state).defines@.last().name@ == n
            && final(state).defines@.last().name_span == old(src)@[0].1),
        // the other macros are left as they were
        r is Ok ==> forall|m: Seq<u8>|
            m != crate::conditional::macro_name(old(src)@[0].0@)->0 ==> #[trigger] defined_as(
                final(state).defines@,
                m,
            ) == defined_as(old(state).defines@, m),
        r is Err ==> final(state).defines == old(state).defines,
        // a macro without parameters whose body has nothing to elaborate is
        // defined as the tokens up to the end of the line
        ({
            let s = old(src)@;
            let rest = s.skip(1);
            let n = crate::preprocess::first_newline(rest, 0);
            s.len() > 0 && crate::conditional::macro_name(s[0].0@) is Some && !has_parameters(s)
                && crate::preprocess::plain_define_line(rest) && old(state).budget > n + 3 ==> {
                &&& r is Ok
                &&& plain_body(final(state).defines@.last().body, rest.take(n))
                &&& final(src)@ == if n < rest.len() {
                    rest.skip(n + 1)
                } else {
                    rest.skip(n)
                }
                &&& final(state).errors@ == if define_index(
                    old(state).defines@,
                    crate::conditional::macro_name(s[0].0@)->0,
                ) is Some {
                    old(state).errors@.push(PreprocessorError::RedefinedMacro { macro_span: s[0].1 })
                } else {
                    old(state).errors@
                }
            }
        }),
        // a function macro whose parameters are plain names, none of them
        // twice, with defaults of plain tokens or none, and whose body has
        // nothing to elaborate: those parameters, and the tokens up to the
        // end of the line
        ({
            let s = old(src)@;
            let rest = s.skip(1);
            s.len() > 0 && crate::conditional::macro_name(s[0].0@) is Some && has_parameters(s)
                ==> match param_list(rest) {
                Some((items, e)) => {
                    let line = rest.skip(e);
                    let n = crate::preprocess::first_newline(line, 0);
                    param_names(items).no_duplicates() && crate::preprocess::plain_define_line(line)
                        && old(state).budget > e + n + 6 ==> {
                        &&& r is Ok
                        &&& final(state).defines@.last().body matches DefineBody::Function(p, b) && b@
                            == line.take(n) && p@.len() == items.len() && forall|j: int|
                            0 <= j < items.len() ==> param_is(#[trigger] p@[j], items[j])
                        &&& final(src)@ == if n < line.len() {
                            line.skip(n + 1)
                        } else {
                            line.skip(n)
                        }
                        &&& final(state).errors@ == if define_index(
                            old(state).defines@,
                            crate::conditional::macro_name(s[0].0@)->0,
                        ) is Some {
                            old(state).errors@.push(PreprocessorError::RedefinedMacro { macro_span: s[0].1 })
                        } else {
                            old(state).errors@
                        }
                    }
                },
                None => true,
            }
        }),
    decreases old(state).budget, 0nat,
{
    let ghost s = src@;
    let ghost rest = s.skip(1);
    let ghost pl = param_list(rest);
    let ghost pfound = pl->0;
    let ghost pnames = param_names(pfound.0);
    let ghost pe = pfound.1;
    proof {
        crate::preprocess::lemma_first_newline(rest, 0);
        crate::preprocess::lemma_first_newline(rest.skip(pe), 0);
        lemma_param_items(rest, 1);
    }
    if !state.spend() {
        return Err(PreprocessorError::StepLimit);
    }
    let name_tok = match src.next() {
        Some(t) => t,
        None => {
            return Err(PreprocessorError::IncompleteDefine { define_span: define_span.clone() });
        },
    };
    proof {
        assert(src@ =~= rest);
    }
    let name = match name_text(&name_tok.0) {
        Some(n) => n,
        None => {
            let SpannedToken(tok, span) = name_tok;
            if matches!(tok, Token::Directive(_)) {
                return Err(PreprocessorError::RedefinedDirective { name_span: span });
            }
            return Err(expected(span, Some(tok), "a macro name"));
        },
    };
    // parameters: a `(` right after the name
    let has_params = match src.peek() {
        Some(p) => matches!(p.0, Token::Paren) && p.1.file == name_tok.1.file && p.1.start
            == name_tok.1.end,
        None => false,
    };
    let ghost fn_plain = crate::conditional::macro_name(s[0].0@) is Some && has_parameters(s)
        && pl is Some && pnames.no_duplicates() && crate::preprocess::plain_define_line(rest.skip(pe))
        && old(state).budget > pe + crate::preprocess::first_newline(rest.skip(pe), 0) + 6;
    proof {
        lemma_param_items(rest, 1);
        if fn_plain {
            crate::preprocess::lemma_first_newline(rest.skip(pe), 0);
            assert(has_params);
        }
    }
    let ghost s0 = *state;
    let params = if has_params {
        match read_parameters(src, state, define_span) {
            Ok(p) => Some(p),
            Err(e) => {
                proof {
                    lemma_evolves_trans(*old(state), s0, *state);
                }
                return Err(e);
            },
        }
    } else {
        None
    };
    proof {
        lemma_evolves_trans(*old(state), s0, *state);
    }
    // the body, up to the end of the line
    let saved = state.mode;
    state.mode = Mode::Define;
    let mut body: Vec<SpannedToken> = Vec::new();
    let ghost s1 = *state;
    let res = preprocess_helper(src, &mut body, state);
    state.mode = saved;
    let ghost s2 = *state;
    match res {
        Ok(()) => {},
        Err(PreprocessorError::NewlineInDefine(_)) => {},
        Err(e) => {
            return Err(e);
        },
    }
    proof {
        let nl = crate::preprocess::first_newline(rest, 0);
        if params is None && crate::preprocess::plain_define_line(rest) && old(state).budget > nl
            + 3 {
            assert(body@ =~= rest.take(nl));
            if nl == rest.len() {
                assert(src@ =~= rest.skip(nl));
            }
        }
        if fn_plain {
            let line = rest.skip(pe);
            let n = crate::preprocess::first_newline(line, 0);
            assert(body@ =~= line.take(n));
            if n == line.len() {
                assert(src@ =~= line.skip(n));
            }
        }
    }
    let body = match params {
        Some(p) => DefineBody::Function(p, body),
        None => if body.len() == 0 {
            DefineBody::Empty
        } else {
            DefineBody::Text(body)
        },
    };
    // a macro already defined is replaced
    let ghost s3 = *state;
    let mut found = false;
    loop
        invariant
            state.files == s3.files,
            state.errors == s3.errors,
            state.budget == s3.budget,
            state.mode == s3.mode,
            state.curr_standard == s3.curr_standard,
            state.settings == s3.settings,
            state.pragma_handlers == s3.pragma_handlers,
            found ==> define_index(s3.defines@, name@) is Some,
            !found ==> state.defines == s3.defines,
            forall|m: Seq<u8>| m != name@ ==> #[trigger] defined_as(state.defines@, m) == defined_as(
                s3.defines@,
                m,
            ),
        ensures
            state.files == s3.files,
            state.errors == s3.errors,
            state.budget == s3.budget,
            state.mode == s3.mode,
            state.curr_standard == s3.curr_standard,
            state.settings == s3.settings,
            state.pragma_handlers == s3.pragma_handlers,
            found == (define_index(s3.defines@, name@) is Some),
            define_index(state.defines@, name@) is None,
            forall|m: Seq<u8>| m != name@ ==> #[trigger] defined_as(state.defines@, m) == defined_as(
                s3.defines@,
                m,
            ),
        decreases state.defines@.len(),
    {
        match state.lookup_define(name.as_slice()) {
            Some(i) => {
                let ghost before = state.defines@;
                proof {
                    lemma_find_define_range(before, name@, 0);
                }
                let _ = state.defines.remove(i);
                proof {
                    assert forall|m: Seq<u8>| m != name@ implies #[trigger] defined_as(state.defines@, m)
                        == defined_as(before, m) by {
                        lemma_defined_as_remove(before, i as int, m);
                    }
                }
                found = true;
            },
            None => {
                break;
            },
        }
    }
    if found {
        state.err(PreprocessorError::RedefinedMacro { macro_span: name_tok.1.clone() });
    }
    let ghost n = name@;
    let ghost before = state.defines@;
    state.defines.push(Define { name, name_span: name_tok.1, body });
    proof {
        lemma_find_define_last(before, state.defines@.last(), n, 0);
        assert(state.defines@ =~= before.push(state.defines@.last()));
        lemma_evolves_trans(*old(state), s0, s2);
        assert forall|m: Seq<u8>| m != n implies #[trigger] defined_as(state.defines@, m) == defined_as(
            before,
            m,
        ) by {
            lemma_defined_as_push(before, state.defines@.last(), m);
        }
    }
    Ok(())
}

proof fn lemma_find_define_last(s: Seq<Define>, d: Define, n: Seq<u8>, i: int)
    requires
        0 <= i <= s.len(),
        crate::state::find_define(s, n, i) is None,
        d.name@ == n,
    ensures
        crate::state::find_define(s.push(d), n, i) == Some(s.len() as int),
    decreases s.len() - i,
{
    if i < s.len() {
        assert(s.push(d)[i] == s[i]);
        lemma_find_define_last(s, d, n, i + 1);
    }
}

/// A parameter as read from the text: its name, and its default argument
/// where one is given
pub type ParamItem = (Seq<u8>, Option<Seq<SpannedToken>>);

/// Where the parameter whose name stands at `i` ends (the position of the
/// `,` or `)` after it), and its default: after a `=`, the plain tokens of
/// an argument on the same line
pub open spec fn param_end(s: Seq<SpannedToken>, i: int) -> Option<(Option<Seq<SpannedToken>>, int)> {
    if i + 1 < s.len() && s[i + 1].0@ is Eq {
        let rest = s.skip(i + 2);
        match arg_end(rest, 0, Seq::empty()) {
            Some(j) => if crate::preprocess::no_line_break(rest, j) {
                Some((Some(rest.take(j)), i + 2 + j))
            } else {
                None
            },
            None => None,
        }
    } else {
        Some((None, i + 1))
    }
}

/// The parameters of a list of plain form, from `i` (just after the `(` or
/// a `,`): identifiers, each with a default or not, separated by commas, up
/// to the `)`; and where the stream goes on after it
pub open spec fn param_items(s: Seq<SpannedToken>, i: int) -> Option<(Seq<ParamItem>, int)>
    decreases s.len() - i,
{
    if i < 0 || i + 1 >= s.len() {
        None
    } else {
        match s[i].0@ {
            TokenV::SimpleIdentifier(n) => match param_end(s, i) {
                Some((d, k)) => {
                    proof {
                        lemma_arg_end_range(s.skip(i + 2), 0, Seq::empty());
                    }
                    if k < s.len() && s[k].0@ is EParen {
                        Some((seq![(n, d)], k + 1))
                    } else if k < s.len() && s[k].0@ is Comma {
                        match param_items(s, k + 1) {
                            Some((rest, e)) => Some((seq![(n, d)] + rest, e)),
                            None => None,
                        }
                    } else {
                        None
                    }
                },
                None => None,
            },
            _ => None,
        }
    }
}

/// The parameters of a list of plain form that starts with its `(`: none
/// for `()`, else as `param_items` reads them
pub open spec fn param_list(s: Seq<SpannedToken>) -> Option<(Seq<ParamItem>, int)> {
    if s.len() > 1 && s[1].0@ is EParen {
        Some((Seq::empty(), 2))
    } else {
        param_items(s, 1)
    }
}

/// The names of the parameters read
pub open spec fn param_names(items: Seq<ParamItem>) -> Seq<Seq<u8>> {
    items.map_values(|p: ParamItem| p.0)
}

/// A parameter of a macro is the one read: the same name, and the same
/// default or none
pub open spec fn param_is(p: MacroParameter, item: ParamItem) -> bool {
    &&& p.name@ == item.0
    &&& match item.1 {
        Some(d) => p.default matches Some(v) && v@ == d,
        None => p.default is None,
    }
}

/// A parameter ends after its name
proof fn lemma_param_end(s: Seq<SpannedToken>, i: int)
    requires
        0 <= i,
    ensures
        param_end(s, i) matches Some((d, k)) ==> i < k && (d is Some ==> k < s.len() && (
            s[k].0@ is Comma || s[k].0@ is EParen)),
{
    if i + 1 < s.len() && s[i + 1].0@ is Eq {
        let rest = s.skip(i + 2);
        lemma_arg_end_range(rest, 0, Seq::empty());
        if let Some(j) = arg_end(rest, 0, Seq::empty()) {
            crate::preprocess::lemma_arg_end_token(rest, 0, Seq::empty());
            assert(rest[j] == s[i + 2 + j]);
        }
    }
}

/// A parameter list of plain form ends within the stream, after its
/// first parameter
pub proof fn lemma_param_items(s: Seq<SpannedToken>, i: int)
    requires
        0 <= i,
    ensures
        param_items(s, i) matches Some((items, e)) ==> items.len() > 0 && i < e <= s.len(),
    decreases s.len() - i,
{
    if 0 <= i && i + 1 < s.len() && s[i].0@ is SimpleIdentifier {
        lemma_param_end(s, i);
        if let Some((d, k)) = param_end(s, i) {
            if k < s.len() && s[k].0@ is Comma {
                lemma_param_items(s, k + 1);
            }
        }
    }
}

/// One step of a parameter list of plain form: a name, its default if it
/// has one, then the `)` that ends the list or a `,` before the rest of it
proof fn lemma_param_items_step(s: Seq<SpannedToken>, i: int)
    requires
        0 <= i,
        param_items(s, i) is Some,
    ensures
        ({
            let (items, e) = param_items(s, i)->0;
            &&& i + 1 < s.len()
            &&& s[i].0@ == TokenV::SimpleIdentifier(items[0].0)
            &&& param_end(s, i) matches Some((d, k)) && d == items[0].1 && i < k < s.len() && ((
                s[k].0@ is EParen && items.len() == 1 && e == k + 1) || (s[k].0@ is Comma
                && param_items(s, k + 1) == Some((items.drop_first(), e))))
        }),
{
    let n = s[i].0@->SimpleIdentifier_0;
    lemma_param_end(s, i);
    let (d, k) = param_end(s, i)->0;
    if s[k].0@ is Comma {
        let (rest, e) = param_items(s, k + 1)->0;
        assert((seq![(n, d)] + rest).drop_first() =~= rest);
    }
}

/// A name that no parameter has is found at no position
proof fn lemma_param_position_none(params: Seq<MacroParameter>, n: Seq<u8>, i: int)
    requires
        0 <= i,
        forall|j: int| 0 <= j < params.len() ==> (#[trigger] params[j]).name@ != n,
    ensures
        param_position(params, n, i) is None,
    decreases params.len() - i,
{
    if i < params.len() {
        lemma_param_position_none(params, n, i + 1);
    }
}

/// Read the parameters of a `` `define ``, from the `(` to the `)`, with
/// their default arguments
fn read_parameters<H: PragmaHandler>(
    src: &mut TokenIterator,
    state: &mut PreprocessorState<H>,
    define_span: &Span,
) -> (r: Result<Vec<MacroParameter>, PreprocessorError>)
    ensures
        final(state).defines == old(state).defines,
        evolves(*old(state), *final(state)),
        r matches Err(e) ==> e.reportable(),
        // a list of plain form with no name twice
        ({
            let s = old(src)@;
            match param_list(s) {
                Some((items, e)) => param_names(items).no_duplicates() && old(state).budget > e ==> {
                    &&& r matches Ok(p) && p@.len() == items.len() && forall|j: int|
                        0 <= j < items.len() ==> param_is(#[trigger] p@[j], items[j])
                    &&& final(src)@ == s.skip(e)
                    &&& final(state).errors == old(state).errors
                    &&& old(state).budget - final(state).budget <= e
                },
                None => true,
            }
        }),
    decreases old(state).budget, 0nat,
{
    let ghost s = src@;
    let ghost found = param_list(s)->0;
    let ghost items = found.0;
    let ghost e = found.1;
    let ghost names = param_names(items);
    let ghost plain = param_list(s) is Some && names.no_duplicates() && old(state).budget > e;
    proof {
        lemma_param_items(s, 1);
    }
    if !state.spend() {
        return Err(PreprocessorError::StepLimit);
    }
    let _open = src.next();
    let mut params: Vec<MacroParameter> = Vec::new();
    let ghost mut pos: int = 1;
    proof {
        if plain {
            assert(src@ =~= s.skip(1));
        }
    }
    loop
        invariant
            state.defines == old(state).defines,
            evolves(*old(state), *state),
            state.budget < old(state).budget,
            s == old(src)@,
            names == param_names(items),
            plain == (param_list(s) is Some && names.no_duplicates() && old(state).budget > e),
            param_list(s) is Some ==> param_list(s) == Some((items, e)),
            plain ==> {
                let n = params@.len() as int;
                &&& src@ == s.skip(pos)
                &&& 1 <= pos < e <= s.len()
                &&& n < items.len() || (n == 0 && items.len() == 0)
                &&& (items.len() > 0 ==> param_items(s, pos) == Some((items.skip(n), e)))
                &&& (items.len() == 0 ==> s.len() > 1 && s[1].0@ is EParen && e == 2 && pos == 1)
                &&& forall|j: int| 0 <= j < n ==> param_is(#[trigger] params@[j], items[j])
                &&& state.errors == old(state).errors
                &&& state.mode == old(state).mode
                &&& old(state).budget - state.budget <= pos
            },
        decreases state.budget,
    {
        let ghost n = params@.len() as int;
        let ghost pend = param_end(s, pos)->0;
        let ghost k = pend.1;
        proof {
            if plain && items.len() > 0 {
                lemma_param_items(s, pos);
                lemma_param_items_step(s, pos);
                lemma_param_items(s, k + 1);
                assert(items.skip(n)[0] == items[n]);
                assert(items.skip(n).drop_first() =~= items.skip(n + 1));
                assert(names[n] == items[n].0);
            }
        }
        if !state.spend() {
            return Err(PreprocessorError::StepLimit);
        }
        proof {
            if plain {
                assert(s.skip(pos)[0] == s[pos]);
                assert(s.skip(pos).drop_first() =~= s.skip(pos + 1));
            }
        }
        let t = match src.next() {
            Some(t) => t,
            None => {
                return Err(PreprocessorError::IncompleteDefine { define_span: define_span.clone() });
            },
        };
        if matches!(t.0, Token::EParen) && params.len() == 0 {
            proof {
                if plain {
                    assert(s.skip(1).drop_first() =~= s.skip(2));
                }
            }
            return Ok(params);
        }
        let name = match &t.0 {
            Token::SimpleIdentifier(n) => copy_bytes(n.as_slice()),
            Token::Keyword(k) => {
                state.err(PreprocessorError::KeywordDefineParameter { parameter_span: t.1.clone() });
                let mut v = Vec::new();
                append_bytes(&mut v, k.as_str().as_bytes());
                v
            },
            _ => {
                return Err(PreprocessorError::InvalidDefineParameter { parameter_span: t.1 });
            },
        };
        proof {
            if plain {
                assert(name@ == items[n].0);
                assert forall|j: int| 0 <= j < params@.len() implies (#[trigger] params@[j]).name@
                    != name@ by {
                    assert(params@[j].name@ == items[j].0);
                    assert(names[j] == items[j].0);
                }
                lemma_param_position_none(params@, name@, 0);
            }
        }
        if parameter_index(&params, &name).is_some() {
            return Err(PreprocessorError::DuplicateMacroParameter { parameter_span: t.1 });
        }
        proof {
            if plain {
                assert(s.skip(pos + 1)[0] == s[pos + 1]);
                assert(s.skip(pos + 1).drop_first() =~= s.skip(pos + 2));
            }
        }
        let sep = match src.next() {
            Some(s) => s,
            None => {
                return Err(PreprocessorError::IncompleteDefine { define_span: define_span.clone() });
            },
        };
        if matches!(sep.0, Token::Eq) {
            // a default argument, up to the `,` or `)` that ends it
            let saved = state.mode;
            state.mode = Mode::DefineArg;
            let mut default: Vec<SpannedToken> = Vec::new();
            proof {
                if plain {
                    let rest = s.skip(pos + 2);
                    lemma_arg_end_range(rest, 0, Seq::empty());
                    assert(src@ == rest);
                    assert(default@ =~= Seq::<SpannedToken>::empty());
                    assert(s[pos + 1].0@ is Eq);
                    assert(arg_end(rest, 0, Seq::empty()) is Some);
                    assert(state.budget > arg_end(rest, 0, Seq::empty())->0 + 2);
                    assert(crate::preprocess::no_line_break(rest, arg_end(rest, 0, Seq::empty())->0));
                }
            }
            let res = preprocess_helper(src, &mut default, state);
            state.mode = saved;
            proof {
                if plain {
                    let rest = s.skip(pos + 2);
                    let j = arg_end(rest, 0, Seq::empty())->0;
                    assert(rest[j] == s[k]);
                    assert(rest.skip(j + 1) =~= s.skip(k + 1));
                    assert(default@ =~= rest.take(j));
                }
            }
            match res {
                Err(PreprocessorError::EndOfFunctionArgument(end)) => {
                    let ghost before = params@;
                    params.push(MacroParameter { name, default: Some(default) });
                    proof {
                        if plain {
                            assert forall|j: int| 0 <= j < params@.len() implies param_is(
                                #[trigger] params@[j],
                                items[j],
                            ) by {
                                if j < n {
                                    assert(params@[j] == before[j]);
                                }
                            }
                            pos = k + 1;
                        }
                    }
                    if matches!(end.0, Token::EParen) {
                        return Ok(params);
                    }
                },
                Err(PreprocessorError::NewlineInDefine(_)) => {
                    return Err(PreprocessorError::InvalidDefineArgument { argument_span: t.1 });
                },
                Err(e) => {
                    return Err(e);
                },
                Ok(()) => {
                    return Err(PreprocessorError::InvalidDefineArgument { argument_span: t.1 });
                },
            }
        } else {
            let ghost before = params@;
            params.push(MacroParameter { name, default: None });
            proof {
                if plain {
                    assert forall|j: int| 0 <= j < params@.len() implies param_is(
                        #[trigger] params@[j],
                        items[j],
                    ) by {
                        if j < n {
                            assert(params@[j] == before[j]);
                        }
                    }
                    pos = k + 1;
                }
            }
            if matches!(sep.0, Token::EParen) {
                return Ok(params);
            }
            if !(matches!(sep.0, Token::Comma)) {
                return Err(PreprocessorError::InvalidDefineParameter { parameter_span: sep.1 });
            }
        }
    }
}

/// `` `undef ``: the named macro is no longer defined (a warning if it was
/// not)
pub fn preprocess_undefine<H>(
    src: &mut TokenIterator,
    state: &mut PreprocessorState<H>,
    directive_span: &Span,
) -> (r: Result<(), PreprocessorError>)
    ensures
        evolves(*old(state), *final(state)),
        final(state).curr_standard == old(state).curr_standard,
        final(state).settings == old(state).settings,
        r matches Err(e) ==> e.reportable(),
        old(src)@.len() == 0 ==> (r matches Err(PreprocessorError::IncompleteDirective {
            directive_span: s,
        }) && s == *directive_span),
        old(src)@.len() > 0 ==> final(src)@ == old(src)@.drop_first() && match crate::conditional::macro_name(old(src)@[0].0@) {
            // no longer defined, the other macros as they were; a warning if
            // it was not defined
            Some(n) => r is Ok && define_index(final(state).defines@, n) is None && (forall|m: Seq<u8>|
                m != n ==> #[trigger] defined_as(final(state).defines@, m) == defined_as(
                    old(state).defines@,
                    m,
                )) && final(state).errors@ == if define_index(old(state).defines@, n) is Some {
                old(state).errors@
            } else {
                old(state).errors@.push(PreprocessorError::NotPreviouslyDefinedMacro { macro_span: old(src)@[0].1 })
            },
            None => r matches Err(e) && crate::error::expected_error(
                e,
                old(src)@[0].1,
                Some(old(src)@[0].0@),
                "a macro name",
            ),
        },
{
    let t = match src.next() {
        Some(t) => t,
        None => {
            return Err(PreprocessorError::IncompleteDirective { directive_span: directive_span.clone() });
        },
    };
    let name = match name_text(&t.0) {
        Some(n) => n,
        None => {
            let SpannedToken(tok, span) = t;
            return Err(expected(span, Some(tok), "a macro name"));
        },
    };
    let mut found = false;
    loop
        invariant
            evolves(*old(state), *state),
            state.curr_standard == old(state).curr_standard,
            state.settings == old(state).settings,
            state.errors == old(state).errors,
            found ==> define_index(old(state).defines@, name@) is Some,
            !found ==> state.defines == old(state).defines,
            forall|m: Seq<u8>| m != name@ ==> #[trigger] defined_as(state.defines@, m) == defined_as(
                old(state).defines@,
                m,
            ),
        ensures
            evolves(*old(state), *state),
            state.curr_standard == old(state).curr_standard,
            state.settings == old(state).settings,
            state.errors == old(state).errors,
            found == (define_index(old(state).defines@, name@) is Some),
            define_index(state.defines@, name@) is None,
            forall|m: Seq<u8>| m != name@ ==> #[trigger] defined_as(state.defines@, m) == defined_as(
                old(state).defines@,
                m,
            ),
        decreases state.defines@.len(),
    {
        match state.lookup_define(name.as_slice()) {
            Some(i) => {
                let ghost before = state.defines@;
                proof {
                    lemma_find_define_range(before, name@, 0);
                }
                let _ = state.defines.remove(i);
                proof {
                    assert forall|m: Seq<u8>| m != name@ implies #[trigger] defined_as(state.defines@, m)
                        == defined_as(before, m) by {
                        lemma_defined_as_remove(before, i as int, m);
                    }
                }
                found = true;
            },
            None => {
                break;
            },
        }
    }
    if !found {
        state.err(PreprocessorError::NotPreviouslyDefinedMacro { macro_span: t.1 });
    }
    Ok(())
}

} // verus!
