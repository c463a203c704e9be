//! Properties that relate several operations of the library

use crate::define::{expanded_span, expansion, plain_body, text_expansion};
use crate::error::{or_spec, VerboseErrorV};
use crate::keywords::{Keyword, KeywordStandard};
use crate::preprocess::{dropped, kept, passes_through, unclosed_keywords};
use crate::span::{Span, SpanRelation};
use crate::spanned_token::{view_tokens, SpannedToken};
use crate::state::{define_index, keyword_standard, Define, DefineBody};
use crate::token::{Directive, TokenV};
use crate::lexer::{end_of_first, lemma_lexed_prefix, lemma_lexed_spaced, lemma_spaced_starts, lexed};
use crate::conditional::{
    branch_end, branch_rest, condition_holds, flat_conditional, flat_text, lemma_ends_skip_plain,
    lemma_first_stop_at, macro_name, matching_endif, opens_conditional,
};
use crate::line::{count_newlines, decimal, digits_value, last_directive, line_of};
use crate::state::{LineDirective, MacroParameter, SourceFile};
use crate::define::parameter_value;
use crate::number_syntax::{number_kind, run, step, NumState, NumberKind};
use vstd::prelude::*;

verus! {

/// The relative position of spans is antisymmetric: one span is later
/// than another exactly when the other is earlier than it, and two spans
/// are at the same place in either order
pub proof fn law_relation_antisymmetric(a: Span, b: Span)
    ensures
        (a.relation(b) == SpanRelation::Later) <==> (b.relation(a) == SpanRelation::Earlier),
        (a.relation(b) == SpanRelation::Same) <==> (b.relation(a) == SpanRelation::Same),
{
}

/// Of two alternative errors, the one kept does not depend on their
/// order, unless both stop at the same place (their reasons are then
/// merged, the first error's expectations first)
pub proof fn law_or_order_independent(a: VerboseErrorV, b: VerboseErrorV)
    requires
        !(a.found is None && b.found is None),
        a.found is Some && b.found is Some ==> a.span.relation(b.span) != SpanRelation::Same,
    ensures
        or_spec(a, b) == or_spec(b, a),
{
}

/// An error that reached the end of input is kept over one that did not,
/// in either order
pub proof fn law_or_prefers_end_of_input(a: VerboseErrorV, b: VerboseErrorV)
    requires
        a.found is None,
        b.found is Some,
    ensures
        or_spec(a, b) == a,
        or_spec(b, a) == a,
{
}

/// `` `begin_keywords `` followed by `` `end_keywords `` puts back the
/// standard in effect before; while it is open, the standard it names is
/// in effect; and each `` `begin_keywords `` left open gives one error at
/// the end of input
pub proof fn law_begin_end_keywords(
    stack: Seq<(KeywordStandard, Span)>,
    standard: KeywordStandard,
    span: Span,
)
    ensures
        keyword_standard(stack.push((standard, span))) == standard,
        stack.push((standard, span)).drop_last() == stack,
        keyword_standard(stack.push((standard, span)).drop_last()) == keyword_standard(stack),
        unclosed_keywords(stack.push((standard, span))).len() == stack.len() + 1,
        unclosed_keywords(stack).len() == stack.len(),
{
    assert(stack.push((standard, span)).drop_last() =~= stack);
}

/// A text macro expands to the tokens of its body, in order, each placed
/// where the macro is used and recording the body token it came from, so
/// that the source text behind an expanded token is that of its body token
pub proof fn law_expansion(body: Seq<(TokenV, Span)>, use_span: Span)
    ensures
        expansion(body, use_span).len() == body.len(),
        forall|i: int|
            0 <= i < body.len() ==> {
                let e = #[trigger] expansion(body, use_span)[i];
                &&& e.0 == body[i].0
                &&& e.1.file == use_span.file
                &&& e.1.start == use_span.start
                &&& e.1.end == use_span.end
                &&& e.1.included_from == use_span.included_from
                &&& e.1.expansion_root() == body[i].1.expansion_root()
            },
{
    assert forall|i: int| 0 <= i < body.len() implies {
        let e = #[trigger] expansion(body, use_span)[i];
        &&& e.0 == body[i].0
        &&& e.1.file == use_span.file
        &&& e.1.start == use_span.start
        &&& e.1.end == use_span.end
        &&& e.1.included_from == use_span.included_from
        &&& e.1.expansion_root() == body[i].1.expansion_root()
    } by {
        let sp = expanded_span(use_span, body[i].1);
        assert(sp.expansion_root() == body[i].1.expansion_root());
    }
}

/// A macro defined without parameters, whose body had nothing to
/// elaborate, expands where it is used to the tokens of its body, placed
/// at the use (the definition just made is the one in effect, and
/// `` `define `` leaves it so)
pub proof fn law_define_then_use(
    defines: Seq<Define>,
    name: Seq<u8>,
    toks: Seq<SpannedToken>,
    use_span: Span,
)
    requires
        define_index(defines, name) == Some(defines.len() - 1),
        plain_body(defines.last().body, toks),
    ensures
        define_index(defines, name) matches Some(i) && !(defines[i].body is Function)
            && text_expansion(defines[i].body, use_span) == expansion(view_tokens(toks), use_span),
{
    let i = defines.len() - 1;
    assert(defines[i] == defines.last());
    if toks.len() == 0 {
        assert(view_tokens(toks) =~= Seq::<(TokenV, Span)>::empty());
        assert(expansion(view_tokens(toks), use_span) =~= Seq::<(TokenV, Span)>::empty());
    }
}

proof fn lemma_kept_elements(s: Seq<SpannedToken>)
    ensures
        forall|i: int|
            0 <= i < kept(s).len() ==> !dropped((#[trigger] kept(s)[i]).0@) && s.contains(kept(s)[i]),
    decreases s.len(),
{
    if s.len() > 0 {
        let d = s.drop_last();
        lemma_kept_elements(d);
        assert forall|i: int| 0 <= i < kept(s).len() implies !dropped((#[trigger] kept(s)[i]).0@)
            && s.contains(kept(s)[i]) by {
            if i < kept(d).len() {
                assert(kept(s)[i] == kept(d)[i]);
                let j = choose|j: int| 0 <= j < d.len() && d[j] == kept(d)[i];
                assert(s[j] == kept(d)[i]);
            } else {
                assert(kept(s)[i] == s.last());
                assert(s[s.len() - 1] == s.last());
            }
        }
    }
}

proof fn lemma_kept_fixed(t: Seq<SpannedToken>)
    requires
        forall|i: int| 0 <= i < t.len() ==> !dropped((#[trigger] t[i]).0@),
    ensures
        kept(t) == t,
    decreases t.len(),
{
    if t.len() > 0 {
        let d = t.drop_last();
        assert forall|i: int| 0 <= i < d.len() implies !dropped((#[trigger] d[i]).0@) by {
            assert(d[i] == t[i]);
        }
        lemma_kept_fixed(d);
        assert(t[t.len() - 1] == t.last());
        assert(d.push(t.last()) =~= t);
    }
}

/// Text that the preprocessor leaves as it is comes out, less line
/// breaks and comments, as text it leaves as it is again, with nothing
/// more to drop: preprocessing it a second time changes nothing
pub proof fn law_kept_idempotent(s: Seq<SpannedToken>, standard: KeywordStandard)
    requires
        forall|i: int| 0 <= i < s.len() ==> passes_through(#[trigger] s[i].0@, standard),
    ensures
        forall|i: int|
            0 <= i < kept(s).len() ==> passes_through(#[trigger] kept(s)[i].0@, standard)
                && !dropped(kept(s)[i].0@),
        kept(kept(s)) == kept(s),
{
    lemma_kept_elements(s);
    assert forall|i: int| 0 <= i < kept(s).len() implies passes_through(
        #[trigger] kept(s)[i].0@,
        standard,
    ) && !dropped(kept(s)[i].0@) by {
        assert(!dropped(kept(s)[i].0@));
        let j = choose|j: int| 0 <= j < s.len() && s[j] == kept(s)[i];
        assert(passes_through(s[j].0@, standard));
    }
    lemma_kept_fixed(kept(s));
}


/// Conditional compilation keeps one branch: of
/// `` `ifdef NAME A `else B `endif C `` (`` `ifndef `` with `is_ifdef`
/// false), where `A`, `B` and `C` hold tokens that pass through, the text
/// kept is `A` then `C` when the condition holds, and `B` then `C` when it
/// does not
pub proof fn law_conditional_keeps_one_branch(
    directive: SpannedToken,
    name: SpannedToken,
    a: Seq<SpannedToken>,
    else_tok: SpannedToken,
    b: Seq<SpannedToken>,
    endif_tok: SpannedToken,
    c: Seq<SpannedToken>,
    is_ifdef: bool,
    defines: Seq<Define>,
    standard: KeywordStandard,
)
    requires
        directive.0@ == TokenV::Directive(
            if is_ifdef {
                Directive::Ifdef
            } else {
                Directive::Ifndef
            },
        ),
        macro_name(name.0@) is Some,
        else_tok.0@ == TokenV::Directive(Directive::Else),
        endif_tok.0@ == TokenV::Directive(Directive::Endif),
        forall|i: int| 0 <= i < a.len() ==> passes_through(#[trigger] a[i].0@, standard),
        forall|i: int| 0 <= i < b.len() ==> passes_through(#[trigger] b[i].0@, standard),
        forall|i: int| 0 <= i < c.len() ==> passes_through(#[trigger] c[i].0@, standard),
    ensures
        flat_text(
            seq![directive, name] + a + seq![else_tok] + b + seq![endif_tok] + c,
            defines,
            standard,
        ) == Some(
            if condition_holds(defines, name.0@, is_ifdef) {
                kept(a) + kept(c)
            } else {
                kept(b) + kept(c)
            },
        ),
{
    reveal(flat_text);
    reveal(flat_conditional);
    let s = seq![directive, name] + a + seq![else_tok] + b + seq![endif_tok] + c;
    let body = a + seq![else_tok] + b + seq![endif_tok] + c;
    let after = b + seq![endif_tok] + c;
    let na = a.len() as int;
    let nb = b.len() as int;
    lemma_first_stop_at(s, standard, 0);
    assert(s.skip(1) =~= seq![name] + body);
    assert(s.skip(1).skip(1) =~= body);
    assert(s.skip(1)[0] == name);
    assert(s[0] == directive);
    assert(opens_conditional(s[0].0@));
    assert(s.take(0) =~= Seq::<SpannedToken>::empty());
    assert(kept(Seq::<SpannedToken>::empty()) == Seq::<SpannedToken>::empty());
    // the text after the conditional
    let rest_c = s.skip(2 + na + 1 + nb + 1);
    assert(rest_c =~= c);
    lemma_first_stop_at(c, standard, c.len() as int);
    assert(flat_text(c, defines, standard) == Some(kept(c)));
    assert(body[na] == else_tok);
    assert(after[nb] == endif_tok);
    assert(body.skip(na + 1) =~= after);
    assert(body.take(na) =~= a);
    assert(after.take(nb) =~= b);
    assert forall|j: int| 0 <= j < na implies passes_through(#[trigger] body[j].0@, standard) by {
        assert(body[j] == a[j]);
    }
    assert forall|j: int| 0 <= j < nb implies passes_through(#[trigger] after[j].0@, standard) by {
        assert(after[j] == b[j]);
    }
    lemma_first_stop_at(body, standard, na);
    lemma_first_stop_at(after, standard, nb);
    lemma_ends_skip_plain(after, 0, nb, 0);
    lemma_ends_skip_plain(body, 0, na, 0);
    assert(branch_end(body, na, 0) == Some(na));
    assert(matching_endif(after, nb, 0) == Some(nb));
    assert(branch_rest(body, na) == Some(na + 1 + nb + 1));
    assert(branch_rest(after, nb) == Some(nb + 1));
    if condition_holds(defines, name.0@, is_ifdef) {
        assert(flat_conditional(s.skip(1), is_ifdef, defines, standard) == Some(
            (kept(a), 1 + (na + 1 + nb + 1)),
        ));
        assert(Seq::<SpannedToken>::empty() + kept(a) + kept(c) =~= kept(a) + kept(c));
    } else {
        assert(body.skip(na + 1) =~= after);
        assert(flat_conditional(s.skip(1), is_ifdef, defines, standard) == Some(
            (kept(b), na + 2 + (nb + 1)),
        ));
        assert(s.skip(0 + 1 + (na + 2 + (nb + 1))) =~= c);
        assert(Seq::<SpannedToken>::empty() + kept(b) + kept(c) =~= kept(b) + kept(c));
    }
}


/// Lexing is a function of the text: any two sequences of tokens read from
/// all of a text, as the lexer's contract describes them, are the same
/// tokens at the same places
pub proof fn law_lexing_is_deterministic(
    src: Seq<u8>,
    file: usize,
    inc: Option<Box<Span>>,
    t1: Seq<SpannedToken>,
    t2: Seq<SpannedToken>,
)
    requires
        lexed(src, file, inc, t1),
        lexed(src, file, inc, t2),
        src.len() <= usize::MAX,
    ensures
        view_tokens(t1) == view_tokens(t2),
{
    lemma_lexed_spaced(src, file, inc, t1);
    lemma_lexed_spaced(src, file, inc, t2);
    let n = if t1.len() <= t2.len() {
        t1.len() as int
    } else {
        t2.len() as int
    };
    lemma_lexed_prefix(src, file, inc, t1, t2, n);
    if n > 0 {
        assert(t1[n - 1]@ == t2[n - 1]@);
    }
    assert(end_of_first(t1, n) == end_of_first(t2, n));
    lemma_spaced_starts(src, t1, n);
    lemma_spaced_starts(src, t2, n);
    if t1.len() < t2.len() {
        assert(t2[n].1.start < t2[n].1.end <= src.len());
    } else if t2.len() < t1.len() {
        assert(t1[n].1.start < t1[n].1.end <= src.len());
    }
    assert(view_tokens(t1) =~= view_tokens(t2));
}


/// The line breaks in the bytes from `a` to `b`
pub open spec fn newlines_between(c: Seq<u8>, a: int, b: int) -> nat {
    c.subrange(a, b).filter(|x: u8| x == '\n' as u8).len()
}

proof fn lemma_newlines_between(c: Seq<u8>, a: int, b: int)
    requires
        0 <= a <= b <= c.len(),
    ensures
        count_newlines(c, b) == count_newlines(c, a) + newlines_between(c, a, b),
    decreases b - a,
{
    let f = |x: u8| x == '\n' as u8;
    reveal(Seq::filter);
    if a == b {
        assert(c.subrange(a, b) =~= Seq::<u8>::empty());
        assert(c.subrange(a, b).filter(f).len() == 0);
    } else {
        lemma_newlines_between(c, a, b - 1);
        let s = c.subrange(a, b);
        assert(s.drop_last() =~= c.subrange(a, b - 1));
        assert(s.last() == c[b - 1]);
        assert(s.filter(f).len() == s.drop_last().filter(f).len() + if f(s.last()) {
            1nat
        } else {
            0nat
        });
    }
}

/// The digits written for a number give back that number
pub proof fn lemma_decimal_value(n: nat)
    ensures
        digits_value(decimal(n)) == n,
    decreases n,
{
    if n < 10 {
        let s = decimal(n);
        assert(s.drop_last() =~= Seq::<u8>::empty());
        assert(s.last() == ('0' as nat + n) as u8);
        assert(digits_value(s.drop_last()) == 0);
    } else {
        lemma_decimal_value(n / 10);
        let s = decimal(n);
        assert(s.drop_last() =~= decimal(n / 10));
        assert(s.last() == ('0' as nat + n % 10) as u8);
        assert((n / 10) * 10 + n % 10 == n) by (nonlinear_arith);
    }
}

/// `` `__LINE__ `` counts lines on from the last `` `line N `` before it in
/// its file: the line after the directive is line `N`, and each further
/// line break adds one (so two places on successive lines get numbers
/// that differ by exactly one); with no `` `line `` before it, the lines of
/// the file count from 1
pub proof fn law_line_numbers_count_on(files: Seq<SourceFile>, ds: Seq<LineDirective>, span: Span)
    requires
        span.file < files.len(),
        span.start <= files[span.file as int].contents@.len(),
    ensures
        ({
            let c = files[span.file as int].contents@;
            match last_directive(ds, span, ds.len() as int) {
                Some(i) => {
                    let k = newlines_between(c, ds[i].span.end as int, span.start as int);
                    digits_value(ds[i].line@) <= u64::MAX && k >= 1 ==> digits_value(
                        line_of(files, ds, span),
                    ) == digits_value(ds[i].line@) + k - 1
                },
                None => digits_value(line_of(files, ds, span)) == newlines_between(c, 0, span.start as int)
                    + 1,
            }
        }),
{
    let c = files[span.file as int].contents@;
    lemma_last_directive(ds, span, ds.len() as int);
    lemma_newlines_between(c, 0, span.start as int);
    assert(count_newlines(c, 0) == 0);
    match last_directive(ds, span, ds.len() as int) {
        Some(i) => {
            let e = ds[i].span.end as int;
            lemma_newlines_between(c, e, span.start as int);
            let k = newlines_between(c, e, span.start as int);
            if digits_value(ds[i].line@) <= u64::MAX && k >= 1 {
                lemma_decimal_value((digits_value(ds[i].line@) + k - 1) as nat);
            }
        },
        None => {
            lemma_decimal_value(count_newlines(c, span.start as int) + 1);
        },
    }
}

proof fn lemma_last_directive(ds: Seq<LineDirective>, span: Span, n: int)
    ensures
        last_directive(ds, span, n) matches Some(i) ==> 0 <= i < ds.len() && ds[i].span.end <= span.start,
    decreases n,
{
    if 0 < n <= ds.len() {
        lemma_last_directive(ds, span, n - 1);
    }
}

/// A macro argument that is given stands for its parameter, whatever
/// default the parameter has; a parameter with a default whose argument
/// is left empty or out stands for its default
pub proof fn law_given_argument_replaces_default(
    params: Seq<MacroParameter>,
    args: Seq<Seq<(TokenV, Span)>>,
    j: int,
)
    requires
        0 <= j < params.len(),
    ensures
        j < args.len() && args[j].len() > 0 ==> parameter_value(params, args, j) == Some(args[j]),
        (j >= args.len() || args[j].len() == 0) && params[j].default is Some ==> parameter_value(
            params,
            args,
            j,
        ) == Some(view_tokens(params[j].default->0@)),
{
}


/// A conditional within text being skipped nests, whether it is opened by
/// `` `ifdef `` or by `` `ifndef ``: the `` `endif `` that closes the
/// text skipped is the one after the inner conditional's own
pub proof fn law_skipped_conditionals_nest(
    opener: SpannedToken,
    name: SpannedToken,
    b: Seq<SpannedToken>,
    inner_endif: SpannedToken,
    c: Seq<SpannedToken>,
    outer_endif: SpannedToken,
    d: Seq<SpannedToken>,
)
    requires
        opener.0@ == TokenV::Directive(Directive::Ifdef) || opener.0@ == TokenV::Directive(Directive::Ifndef),
        macro_name(name.0@) is Some,
        inner_endif.0@ == TokenV::Directive(Directive::Endif),
        outer_endif.0@ == TokenV::Directive(Directive::Endif),
        forall|i: int| 0 <= i < b.len() ==> !(#[trigger] b[i].0@ is Directive),
        forall|i: int| 0 <= i < c.len() ==> !(#[trigger] c[i].0@ is Directive),
    ensures
        matching_endif(seq![opener, name] + b + seq![inner_endif] + c + seq![outer_endif] + d, 0, 0) == Some(
            2 + b.len() + 1 + c.len() as int,
        ),
{
    let s = seq![opener, name] + b + seq![inner_endif] + c + seq![outer_endif] + d;
    let nb = b.len() as int;
    let nc = c.len() as int;
    assert(s[0] == opener);
    assert(s[1] == name);
    assert(!(name.0@ is Directive));
    assert forall|j: int| 2 <= j < 2 + nb implies !(#[trigger] s[j].0@ is Directive) by {
        assert(s[j] == b[j - 2]);
    }
    lemma_ends_skip_plain(s, 2, 2 + nb, 1);
    assert(s[2 + nb] == inner_endif);
    assert forall|j: int| 3 + nb <= j < 3 + nb + nc implies !(#[trigger] s[j].0@ is Directive) by {
        assert(s[j] == c[j - 3 - nb]);
    }
    lemma_ends_skip_plain(s, 3 + nb, 3 + nb + nc, 0);
    assert(s[3 + nb + nc] == outer_endif);
    assert(opens_conditional(s[0].0@));
    assert(matching_endif(s, 3 + nb + nc, 0) == Some(3 + nb + nc));
    assert(matching_endif(s, 2 + nb, 1) == matching_endif(s, 3 + nb, 0));
    assert(matching_endif(s, 1, 1) == matching_endif(s, 2, 1));
    assert(matching_endif(s, 0, 0) == matching_endif(s, 1, 1));
}

/// Conditional compilation keeps one branch and skips the others whole:
/// of `` `ifdef A x `else `ifndef C b `endif c `endif d `` (the inner
/// conditional opened by `` `ifndef `` or `` `ifdef ``), where `A` is
/// defined and the other parts hold tokens that pass through, the text kept
/// is `x` then `d`
pub proof fn law_taken_branch_skips_nested_conditionals(
    directive: SpannedToken,
    name: SpannedToken,
    x: Seq<SpannedToken>,
    else_tok: SpannedToken,
    opener: SpannedToken,
    inner_name: SpannedToken,
    b: Seq<SpannedToken>,
    inner_endif: SpannedToken,
    c: Seq<SpannedToken>,
    outer_endif: SpannedToken,
    d: Seq<SpannedToken>,
    defines: Seq<Define>,
    standard: KeywordStandard,
)
    requires
        directive.0@ == TokenV::Directive(Directive::Ifdef),
        macro_name(name.0@) is Some,
        define_index(defines, macro_name(name.0@)->0) is Some,
        else_tok.0@ == TokenV::Directive(Directive::Else),
        opener.0@ == TokenV::Directive(Directive::Ifdef) || opener.0@ == TokenV::Directive(Directive::Ifndef),
        macro_name(inner_name.0@) is Some,
        inner_endif.0@ == TokenV::Directive(Directive::Endif),
        outer_endif.0@ == TokenV::Directive(Directive::Endif),
        forall|i: int| 0 <= i < x.len() ==> passes_through(#[trigger] x[i].0@, standard),
        forall|i: int| 0 <= i < b.len() ==> passes_through(#[trigger] b[i].0@, standard),
        forall|i: int| 0 <= i < c.len() ==> passes_through(#[trigger] c[i].0@, standard),
        forall|i: int| 0 <= i < d.len() ==> passes_through(#[trigger] d[i].0@, standard),
    ensures
        flat_text(
            seq![directive, name] + x + seq![else_tok] + (seq![opener, inner_name] + b + seq![inner_endif] + c
                + seq![outer_endif]) + d,
            defines,
            standard,
        ) == Some(kept(x) + kept(d)),
{
    reveal(flat_text);
    reveal(flat_conditional);
    let inner = seq![opener, inner_name] + b + seq![inner_endif] + c + seq![outer_endif];
    let s = seq![directive, name] + x + seq![else_tok] + inner + d;
    let body = x + seq![else_tok] + inner + d;
    let nx = x.len() as int;
    let ni = inner.len() as int;
    assert forall|i: int| 0 <= i < b.len() implies !(#[trigger] b[i].0@ is Directive) by {
        assert(passes_through(b[i].0@, standard));
    }
    assert forall|i: int| 0 <= i < c.len() implies !(#[trigger] c[i].0@ is Directive) by {
        assert(passes_through(c[i].0@, standard));
    }
    law_skipped_conditionals_nest(opener, inner_name, b, inner_endif, c, outer_endif, d);
    assert(inner + d =~= seq![opener, inner_name] + b + seq![inner_endif] + c + seq![outer_endif] + d);
    lemma_first_stop_at(s, standard, 0);
    assert(s.skip(1) =~= seq![name] + body);
    assert(s.skip(1).skip(1) =~= body);
    assert(s.skip(1)[0] == name);
    assert(s[0] == directive);
    assert(opens_conditional(s[0].0@));
    assert(s.take(0) =~= Seq::<SpannedToken>::empty());
    assert(kept(Seq::<SpannedToken>::empty()) == Seq::<SpannedToken>::empty());
    assert(body[nx] == else_tok);
    assert(body.take(nx) =~= x);
    assert(body.skip(nx + 1) =~= inner + d);
    assert forall|j: int| 0 <= j < nx implies passes_through(#[trigger] body[j].0@, standard) by {
        assert(body[j] == x[j]);
    }
    lemma_first_stop_at(body, standard, nx);
    assert(matching_endif(body.skip(nx + 1), 0, 0) == Some(ni - 1));
    assert(branch_rest(body, nx) == Some(nx + 1 + ni));
    assert(condition_holds(defines, name.0@, true));
    assert(flat_conditional(s.skip(1), true, defines, standard) == Some((kept(x), 1 + (nx + 1 + ni))));
    assert(s.skip(0 + 1 + (1 + (nx + 1 + ni))) =~= d);
    lemma_first_stop_at(d, standard, d.len() as int);
    assert(flat_text(d, defines, standard) == Some(kept(d)));
    assert(Seq::<SpannedToken>::empty() + kept(x) + kept(d) =~= kept(x) + kept(d));
}


/// Each standard reserves every keyword that the one before it reserves
/// (1364-1995, 1364-2001 without its configuration keywords, 1364-2001,
/// 1364-2005, 1800-2005, 1800-2009, 1800-2012, 1800-2017, 1800-2023), and
/// the standards up to 1800-2012 each reserve some keyword that the one
/// before does not: `generate` from 1364-2001, `config` with 1364-2001's
/// configurations, `uwire` from 1364-2005, `logic` and `class` from
/// 1800-2005, `checker` from 1800-2009, `implements` and `nettype` from
/// 1800-2012; from 1800-2012 on, every keyword is reserved
pub proof fn law_standards_reserve_more(k: Keyword)
    ensures
        k.reserved_in(KeywordStandard::V1364_1995) ==> k.reserved_in(KeywordStandard::V1364_2001Noconfig),
        k.reserved_in(KeywordStandard::V1364_2001Noconfig) ==> k.reserved_in(KeywordStandard::V1364_2001),
        k.reserved_in(KeywordStandard::V1364_2001) ==> k.reserved_in(KeywordStandard::V1364_2005),
        k.reserved_in(KeywordStandard::V1364_2005) ==> k.reserved_in(KeywordStandard::V1800_2005),
        k.reserved_in(KeywordStandard::V1800_2005) ==> k.reserved_in(KeywordStandard::V1800_2009),
        k.reserved_in(KeywordStandard::V1800_2009) ==> k.reserved_in(KeywordStandard::V1800_2012),
        k.reserved_in(KeywordStandard::V1800_2012),
        k.reserved_in(KeywordStandard::V1800_2017),
        k.reserved_in(KeywordStandard::V1800_2023),
        Keyword::Always.reserved_in(KeywordStandard::V1364_1995),
        Keyword::Generate.reserved_in(KeywordStandard::V1364_2001Noconfig) && !Keyword::Generate.reserved_in(
            KeywordStandard::V1364_1995,
        ),
        Keyword::Config.reserved_in(KeywordStandard::V1364_2001) && !Keyword::Config.reserved_in(
            KeywordStandard::V1364_2001Noconfig,
        ),
        Keyword::Uwire.reserved_in(KeywordStandard::V1364_2005) && !Keyword::Uwire.reserved_in(
            KeywordStandard::V1364_2001,
        ),
        Keyword::Logic.reserved_in(KeywordStandard::V1800_2005) && !Keyword::Logic.reserved_in(
            KeywordStandard::V1364_2005,
        ),
        Keyword::Class.reserved_in(KeywordStandard::V1800_2005) && !Keyword::Class.reserved_in(
            KeywordStandard::V1364_2005,
        ),
        Keyword::Checker.reserved_in(KeywordStandard::V1800_2009) && !Keyword::Checker.reserved_in(
            KeywordStandard::V1800_2005,
        ),
        Keyword::Implements.reserved_in(KeywordStandard::V1800_2012) && !Keyword::Implements.reserved_in(
            KeywordStandard::V1800_2009,
        ),
        Keyword::Nettype.reserved_in(KeywordStandard::V1800_2012) && !Keyword::Nettype.reserved_in(
            KeywordStandard::V1800_2009,
        ),
{
    lemma_group_bound(k);
}

proof fn lemma_group_bound(k: Keyword)
    ensures
        k.group() <= 6,
{
}


/// A decimal digit
pub open spec fn decimal_digit_byte(b: u8) -> bool {
    48 <= b <= 57
}

/// A blank other than a line break: space, tab, vertical tab, form feed
pub open spec fn blank_byte(b: u8) -> bool {
    b == 32 || b == 9 || b == 11 || b == 12
}

/// A hexadecimal digit, or one of the unknown values `x`, `z`, `?`
pub open spec fn hex_value_byte(b: u8) -> bool {
    ||| decimal_digit_byte(b)
    ||| 97 <= b <= 102
    ||| 65 <= b <= 70
    ||| b == 120 || b == 88 || b == 122 || b == 90 || b == 63
}

/// The state after reading bytes from a given state
pub open spec fn run_from(st: NumState, s: Seq<u8>) -> NumState
    decreases s.len(),
{
    if s.len() == 0 {
        st
    } else {
        step(run_from(st, s.drop_last()), s.last())
    }
}

proof fn lemma_run_is_run_from(s: Seq<u8>)
    ensures
        run(s) == run_from(NumState::Start, s),
    decreases s.len(),
{
    if s.len() > 0 {
        lemma_run_is_run_from(s.drop_last());
    }
}

proof fn lemma_run_from_concat(st: NumState, a: Seq<u8>, b: Seq<u8>)
    ensures
        run_from(st, a + b) == run_from(run_from(st, a), b),
    decreases b.len(),
{
    if b.len() == 0 {
        assert(a + b =~= a);
    } else {
        lemma_run_from_concat(st, a, b.drop_last());
        assert((a + b).drop_last() =~= a + b.drop_last());
        assert((a + b).last() == b.last());
    }
}

/// Bytes that each leave a state as it is leave it as it is
proof fn lemma_run_from_stays(st: NumState, s: Seq<u8>)
    requires
        forall|i: int| 0 <= i < s.len() ==> step(st, #[trigger] s[i]) == st,
    ensures
        run_from(st, s) == st,
    decreases s.len(),
{
    if s.len() > 0 {
        assert forall|i: int| 0 <= i < s.drop_last().len() implies step(st, #[trigger] s.drop_last()[i]) == st by {
            assert(s.drop_last()[i] == s[i]);
        }
        lemma_run_from_stays(st, s.drop_last());
        assert(step(st, s[s.len() - 1]) == st);
    }
}

proof fn lemma_run_from_one(st: NumState, b: u8)
    ensures
        run_from(st, seq![b]) == step(st, b),
{
    assert(seq![b].drop_last() =~= Seq::<u8>::empty());
    assert(run_from(st, seq![b].drop_last()) == st);
    assert(seq![b].last() == b);
}

/// Whether bytes are an optional size: a decimal digit, then digits and
/// underscores
pub open spec fn size_bytes(size: Seq<u8>) -> bool {
    size.len() == 0 || (decimal_digit_byte(size[0]) && forall|i: int|
        1 <= i < size.len() ==> decimal_digit_byte(#[trigger] size[i]) || size[i] == 95)
}

/// Whether every byte is a blank other than a line break
pub open spec fn blank_bytes(s: Seq<u8>) -> bool {
    forall|i: int| 0 <= i < s.len() ==> blank_byte(#[trigger] s[i])
}

/// Whether bytes are an optional signedness mark: `s`, `S` or `|`
pub open spec fn sign_bytes(sign: Seq<u8>) -> bool {
    sign.len() == 0 || (sign.len() == 1 && (sign[0] == 115 || sign[0] == 83 || sign[0] == 124))
}

/// Whether a byte is the letter of a base, either case
pub open spec fn base_letter(base: u8) -> bool {
    base == 98 || base == 66 || base == 111 || base == 79 || base == 100 || base == 68 || base == 104
        || base == 72
}

/// The head of a based number, up to its value, leaves the automaton in
/// the state after the base letter
proof fn lemma_based_head(size: Seq<u8>, blanks: Seq<u8>, sign: Seq<u8>, base: u8, blanks2: Seq<u8>)
    requires
        size_bytes(size),
        blank_bytes(blanks),
        sign_bytes(sign),
        base_letter(base),
        blank_bytes(blanks2),
    ensures
        run_from(NumState::Start, size + blanks + seq![39u8] + sign + seq![base] + blanks2)
            == crate::number_syntax::base_state(base),
        crate::number_syntax::base_state(base) != NumState::Dead,
{
    let p1 = size;
    let p2 = p1 + blanks;
    let p3 = p2 + seq![39u8];
    let p4 = p3 + sign;
    let p5 = p4 + seq![base];
    let p6 = p5 + blanks2;
    let x1 = run_from(NumState::Start, p1);
    if size.len() > 0 {
        let tail = size.skip(1);
        assert(size =~= seq![size[0]] + tail);
        lemma_run_from_concat(NumState::Start, seq![size[0]], tail);
        lemma_run_from_one(NumState::Start, size[0]);
        assert forall|i: int| 0 <= i < tail.len() implies step(NumState::Size, #[trigger] tail[i]) == NumState::Size by {
            assert(tail[i] == size[i + 1]);
        }
        lemma_run_from_stays(NumState::Size, tail);
        assert(x1 == NumState::Size);
    } else {
        assert(x1 == NumState::Start);
    }
    lemma_run_from_concat(NumState::Start, p1, blanks);
    let x2 = run_from(x1, blanks);
    if blanks.len() > 0 {
        let tail = blanks.skip(1);
        assert(blanks =~= seq![blanks[0]] + tail);
        lemma_run_from_concat(x1, seq![blanks[0]], tail);
        lemma_run_from_one(x1, blanks[0]);
        assert forall|i: int| 0 <= i < tail.len() implies step(NumState::SizeBlank, #[trigger] tail[i])
            == NumState::SizeBlank by {
            assert(tail[i] == blanks[i + 1]);
        }
        lemma_run_from_stays(NumState::SizeBlank, tail);
        assert(x2 == NumState::SizeBlank);
    } else {
        assert(blanks =~= Seq::<u8>::empty());
    }
    lemma_run_from_concat(NumState::Start, p2, seq![39u8]);
    lemma_run_from_one(x2, 39u8);
    let x3 = run_from(NumState::Start, p3);
    assert(x3 == NumState::Quote);
    lemma_run_from_concat(NumState::Start, p3, sign);
    let x4 = run_from(NumState::Start, p4);
    if sign.len() == 1 {
        assert(sign =~= seq![sign[0]]);
        lemma_run_from_one(x3, sign[0]);
        assert(x4 == NumState::Signed);
    } else {
        assert(sign =~= Seq::<u8>::empty());
        assert(x4 == NumState::Quote);
    }
    lemma_run_from_concat(NumState::Start, p4, seq![base]);
    lemma_run_from_one(x4, base);
    let x5 = run_from(NumState::Start, p5);
    assert(x5 == crate::number_syntax::base_state(base));
    lemma_run_from_concat(NumState::Start, p5, blanks2);
    lemma_run_from_stays(x5, blanks2);
}

/// A first byte, then bytes that each keep the state reached, end in it
proof fn lemma_value(head: Seq<u8>, at: NumState, first: u8, rest: Seq<u8>, then: NumState)
    requires
        run_from(NumState::Start, head) == at,
        step(at, first) == then,
        forall|i: int| 0 <= i < rest.len() ==> step(then, #[trigger] rest[i]) == then,
    ensures
        run(head + seq![first] + rest) == then,
{
    lemma_run_is_run_from(head + seq![first] + rest);
    lemma_run_from_concat(NumState::Start, head, seq![first]);
    lemma_run_from_one(at, first);
    lemma_run_from_concat(NumState::Start, head + seq![first], rest);
    lemma_run_from_stays(then, rest);
}

/// Based numbers are read as the syntax of SystemVerilog writes them:
/// `([0-9][0-9_]*)?[ \t]*'[sS|]?` then the base letter, blanks, and a
/// value: for `h`, a hexadecimal digit (or `x`, `z`, `?`) and then any of
/// those or `_`; for `b`, `0`, `1` (or `x`, `z`, `?`) and then any of those
/// or `_`; for `o`, an octal digit (or `x`, `z`, `?`) and then any of
/// those or `_`; for `d`, a decimal digit and then digits or `_`, or one
/// of `x`, `z`, `?` and then `_` only (the blanks are any whitespace but a
/// line break)
pub proof fn law_based_numbers(
    size: Seq<u8>,
    blanks: Seq<u8>,
    sign: Seq<u8>,
    base: u8,
    blanks2: Seq<u8>,
    first: u8,
    rest: Seq<u8>,
)
    requires
        size_bytes(size),
        blank_bytes(blanks),
        sign_bytes(sign),
        base_letter(base),
        blank_bytes(blanks2),
    ensures
        ({
            let s = size + blanks + seq![39u8] + sign + seq![base] + blanks2 + seq![first] + rest;
            let unknown = |b: u8| b == 120 || b == 88 || b == 122 || b == 90 || b == 63;
            &&& (base == 104 || base == 72) && hex_value_byte(first) && (forall|i: int|
                0 <= i < rest.len() ==> hex_value_byte(#[trigger] rest[i]) || rest[i] == 95) ==> number_kind(s)
                == Some(NumberKind::Hex)
            &&& (base == 98 || base == 66) && (first == 48 || first == 49 || unknown(first)) && (forall|i: int|
                0 <= i < rest.len() ==> #[trigger] rest[i] == 48 || rest[i] == 49 || unknown(rest[i]) || rest[i]
                    == 95) ==> number_kind(s) == Some(NumberKind::Binary)
            &&& (base == 111 || base == 79) && (48 <= first <= 55 || unknown(first)) && (forall|i: int|
                0 <= i < rest.len() ==> 48 <= #[trigger] rest[i] <= 55 || unknown(rest[i]) || rest[i] == 95)
                ==> number_kind(s) == Some(NumberKind::Octal)
            &&& (base == 100 || base == 68) && decimal_digit_byte(first) && (forall|i: int|
                0 <= i < rest.len() ==> decimal_digit_byte(#[trigger] rest[i]) || rest[i] == 95) ==> number_kind(s)
                == Some(NumberKind::Decimal)
            &&& (base == 100 || base == 68) && unknown(first) && (forall|i: int|
                0 <= i < rest.len() ==> #[trigger] rest[i] == 95) ==> number_kind(s) == Some(NumberKind::Decimal)
        }),
{
    let head = size + blanks + seq![39u8] + sign + seq![base] + blanks2;
    lemma_based_head(size, blanks, sign, base, blanks2);
    let at = crate::number_syntax::base_state(base);
    let unknown = |b: u8| b == 120 || b == 88 || b == 122 || b == 90 || b == 63;
    if (base == 104 || base == 72) && hex_value_byte(first) && (forall|i: int|
        0 <= i < rest.len() ==> hex_value_byte(#[trigger] rest[i]) || rest[i] == 95) {
        lemma_value(head, at, first, rest, NumState::ValHex);
    }
    if (base == 98 || base == 66) && (first == 48 || first == 49 || unknown(first)) && (forall|i: int|
        0 <= i < rest.len() ==> #[trigger] rest[i] == 48 || rest[i] == 49 || unknown(rest[i]) || rest[i] == 95) {
        lemma_value(head, at, first, rest, NumState::ValBin);
    }
    if (base == 111 || base == 79) && (48 <= first <= 55 || unknown(first)) && (forall|i: int|
        0 <= i < rest.len() ==> 48 <= #[trigger] rest[i] <= 55 || unknown(rest[i]) || rest[i] == 95) {
        lemma_value(head, at, first, rest, NumState::ValOct);
    }
    if (base == 100 || base == 68) && decimal_digit_byte(first) && (forall|i: int|
        0 <= i < rest.len() ==> decimal_digit_byte(#[trigger] rest[i]) || rest[i] == 95) {
        lemma_value(head, at, first, rest, NumState::ValDec);
    }
    if (base == 100 || base == 68) && unknown(first) && (forall|i: int| 0 <= i < rest.len() ==> #[trigger] rest[i] == 95) {
        lemma_value(head, at, first, rest, NumState::ValDecUnknown);
    }
}


/// Whether bytes are a run of decimal digits: a digit, then digits and
/// underscores
pub open spec fn digit_run(s: Seq<u8>) -> bool {
    s.len() > 0 && size_bytes(s)
}

/// From a state that a first byte takes to `then`, bytes that keep `then`
/// end in it
proof fn lemma_run_to(st: NumState, s: Seq<u8>, then: NumState)
    requires
        s.len() > 0,
        step(st, s[0]) == then,
        forall|i: int| 1 <= i < s.len() ==> step(then, #[trigger] s[i]) == then,
    ensures
        run_from(st, s) == then,
{
    let tail = s.skip(1);
    assert(s =~= seq![s[0]] + tail);
    lemma_run_from_concat(st, seq![s[0]], tail);
    lemma_run_from_one(st, s[0]);
    assert forall|i: int| 0 <= i < tail.len() implies step(then, #[trigger] tail[i]) == then by {
        assert(tail[i] == s[i + 1]);
    }
    lemma_run_from_stays(then, tail);
}

/// Real numbers are read as the syntax of SystemVerilog writes them: a
/// fixed-point number is digits, `.`, digits; a scientific number is
/// digits, optionally `.` and digits, then `e` or `E`, an optional sign and
/// digits (each run of digits a decimal digit and then digits or `_`)
pub proof fn law_real_numbers(
    int_part: Seq<u8>,
    fraction: Seq<u8>,
    exp_letter: u8,
    exp_sign: Seq<u8>,
    exponent: Seq<u8>,
)
    requires
        digit_run(int_part),
        fraction.len() == 0 || digit_run(fraction),
    ensures
        digit_run(fraction) ==> number_kind(int_part + seq![46u8] + fraction) == Some(NumberKind::FixedPoint),
        (exp_letter == 101 || exp_letter == 69) && (exp_sign.len() == 0 || (exp_sign.len() == 1 && (exp_sign[0]
            == 43 || exp_sign[0] == 45))) && digit_run(exponent) ==> number_kind(
            (if fraction.len() == 0 {
                int_part
            } else {
                int_part + seq![46u8] + fraction
            }) + seq![exp_letter] + exp_sign + exponent,
        ) == Some(NumberKind::Scientific),
{
    lemma_run_to(NumState::Start, int_part, NumState::Size);
    let fixed = int_part + seq![46u8] + fraction;
    if digit_run(fraction) {
        lemma_run_from_concat(NumState::Start, int_part, seq![46u8]);
        lemma_run_from_one(NumState::Size, 46u8);
        lemma_run_from_concat(NumState::Start, int_part + seq![46u8], fraction);
        lemma_run_to(NumState::Point, fraction, NumState::Fraction);
        lemma_run_is_run_from(fixed);
    }
    if (exp_letter == 101 || exp_letter == 69) && (exp_sign.len() == 0 || (exp_sign.len() == 1 && (exp_sign[0]
        == 43 || exp_sign[0] == 45))) && digit_run(exponent) {
        let mantissa = if fraction.len() == 0 {
            int_part
        } else {
            int_part + seq![46u8] + fraction
        };
        assert(run_from(NumState::Start, mantissa) == NumState::Size || run_from(NumState::Start, mantissa)
            == NumState::Fraction);
        let m1 = mantissa + seq![exp_letter];
        lemma_run_from_concat(NumState::Start, mantissa, seq![exp_letter]);
        lemma_run_from_one(run_from(NumState::Start, mantissa), exp_letter);
        assert(run_from(NumState::Start, m1) == NumState::ExpMark);
        let m2 = m1 + exp_sign;
        lemma_run_from_concat(NumState::Start, m1, exp_sign);
        let x = run_from(NumState::Start, m2);
        if exp_sign.len() == 1 {
            assert(exp_sign =~= seq![exp_sign[0]]);
            lemma_run_from_one(NumState::ExpMark, exp_sign[0]);
            assert(x == NumState::ExpSign);
        } else {
            assert(exp_sign =~= Seq::<u8>::empty());
            assert(x == NumState::ExpMark);
        }
        lemma_run_from_concat(NumState::Start, m2, exponent);
        lemma_run_to(x, exponent, NumState::Exponent);
        lemma_run_is_run_from(m2 + exponent);
    }
}

} // verus!
