//! Errors found while preprocessing

use crate::keywords::Keyword;
use crate::span::Span;
use crate::spanned_token::{display, SpannedToken};
use crate::token::{Directive, Token, TokenV};
use crate::util::append_bytes;
use vstd::prelude::*;
use vstd::string::StringSliceAdditionalSpecFns;
use vstd::utf8::{encode_utf8, encode_utf8_decode_utf8};

verus! {

/// Something expected instead of what was found
#[derive(Debug)]
pub enum Expectation {
    /// A particular token
    Token(Token),
    /// A human-readable description
    Label(&'static str),
    /// The end of the input
    EOI,
}

pub enum ExpectationV {
    Token(TokenV),
    Label(Seq<char>),
    EOI,
}

impl View for Expectation {
    type V = ExpectationV;

    open spec fn view(&self) -> ExpectationV {
        match self {
            Expectation::Token(t) => ExpectationV::Token(t@),
            Expectation::Label(l) => ExpectationV::Label(l@),
            Expectation::EOI => ExpectationV::EOI,
        }
    }
}

/// Why a [`VerboseError`] occurred
#[derive(Debug)]
pub enum VerboseErrorReason {
    /// What was expected instead of what was found
    Expected(Vec<Expectation>),
    /// A general message
    Diagnostic(&'static str),
}

pub enum VerboseErrorReasonV {
    Expected(Seq<ExpectationV>),
    Diagnostic(&'static str),
}

pub open spec fn view_expectations(s: Seq<Expectation>) -> Seq<ExpectationV> {
    s.map_values(|e: Expectation| e@)
}

impl View for VerboseErrorReason {
    type V = VerboseErrorReasonV;

    open spec fn view(&self) -> VerboseErrorReasonV {
        match self {
            VerboseErrorReason::Expected(v) => VerboseErrorReasonV::Expected(view_expectations(v@)),
            VerboseErrorReason::Diagnostic(d) => VerboseErrorReasonV::Diagnostic(*d),
        }
    }
}

/// An error saying where it occurred, what was found there, and what was
/// expected instead
#[derive(Debug)]
pub struct VerboseError {
    /// Where the error occurred
    pub span: Span,
    /// The token found (`None` for the end of input)
    pub found: Option<Token>,
    /// Why this is an error
    pub reason: VerboseErrorReason,
}

pub struct VerboseErrorV {
    pub span: Span,
    pub found: Option<TokenV>,
    pub reason: VerboseErrorReasonV,
}

pub open spec fn view_opt_token(t: Option<Token>) -> Option<TokenV> {
    match t {
        Some(t) => Some(t@),
        None => None,
    }
}

impl View for VerboseError {
    type V = VerboseErrorV;

    open spec fn view(&self) -> VerboseErrorV {
        VerboseErrorV { span: self.span, found: view_opt_token(self.found), reason: self.reason@ }
    }
}

/// The text of an expectation
pub open spec fn expectation_text(e: ExpectationV) -> Seq<u8> {
    match e {
        ExpectationV::Token(t) => display(t),
        ExpectationV::Label(l) => encode_utf8(l),
        ExpectationV::EOI => "end of input".spec_bytes(),
    }
}

/// The expectations with repeats left out, in the order of their first
/// occurrence
pub open spec fn dedup(s: Seq<ExpectationV>) -> Seq<ExpectationV>
    decreases s.len(),
{
    if s.len() == 0 {
        s
    } else {
        let d = dedup(s.drop_last());
        if d.contains(s.last()) {
            d
        } else {
            d.push(s.last())
        }
    }
}

/// The texts of the first `n` expectations, each followed by `, `
pub open spec fn listed(s: Seq<ExpectationV>, n: int) -> Seq<u8>
    decreases n,
{
    if n <= 0 {
        Seq::empty()
    } else {
        listed(s, n - 1) + expectation_text(s[n - 1]) + ", ".spec_bytes()
    }
}

/// `a`, `a, or b`, `a, b, or c`, ...; or `something else` for none
pub open spec fn alternatives(s: Seq<ExpectationV>) -> Seq<u8> {
    if s.len() == 0 {
        "something else".spec_bytes()
    } else if s.len() == 1 {
        expectation_text(s[0])
    } else {
        listed(s, s.len() - 1) + "or ".spec_bytes() + expectation_text(s.last())
    }
}

/// The message of a reason
pub open spec fn reason_text(r: VerboseErrorReasonV) -> Seq<u8> {
    match r {
        VerboseErrorReasonV::Diagnostic(d) => d.spec_bytes(),
        VerboseErrorReasonV::Expected(s) => "expected ".spec_bytes() + alternatives(dedup(s)),
    }
}

pub open spec fn found_text(found: Option<TokenV>) -> Seq<u8> {
    match found {
        Some(t) => display(t),
        None => "end of input".spec_bytes(),
    }
}

impl Expectation {
    pub fn same(&self, other: &Expectation) -> (r: bool)
        ensures
            r == (self@ == other@),
    {
        match (self, other) {
            (Expectation::Token(a), Expectation::Token(b)) => a.same(b),
            (Expectation::Label(a), Expectation::Label(b)) => str_eq(a, b),
            (Expectation::EOI, Expectation::EOI) => true,
            _ => false,
        }
    }

    pub fn clone_expectation(&self) -> (r: Expectation)
        ensures
            r@ == self@,
    {
        match self {
            Expectation::Token(t) => Expectation::Token(t.clone()),
            Expectation::Label(l) => Expectation::Label(*l),
            Expectation::EOI => Expectation::EOI,
        }
    }

    /// The text of the expectation
    pub fn message(&self) -> (r: Vec<u8>)
        ensures
            r@ == expectation_text(self@),
    {
        match self {
            Expectation::Token(t) => t.display_bytes(),
            Expectation::Label(l) => {
                let mut r = Vec::new();
                append_bytes(&mut r, l.as_bytes());
                assert(r@ =~= encode_utf8(l@));
                r
            },
            Expectation::EOI => {
                let mut r = Vec::new();
                append_bytes(&mut r, "end of input".as_bytes());
                assert(r@ =~= "end of input".spec_bytes());
                r
            },
        }
    }
}

/// Whether two strings are the same
fn str_eq(a: &str, b: &str) -> (r: bool)
    ensures
        r == (a@ == b@),
{
    let r = crate::util::bytes_eq(a.as_bytes(), b.as_bytes());
    proof {
        encode_utf8_decode_utf8(a@);
        encode_utf8_decode_utf8(b@);
    }
    r
}

} // verus!

verus! {

/// Whether a sequence of expectations holds one
fn contains_expectation(v: &Vec<Expectation>, e: &Expectation) -> (r: bool)
    ensures
        r == view_expectations(v@).contains(e@),
{
    let mut i: usize = 0;
    while i < v.len()
        invariant
            i <= v.len(),
            forall|j: int| 0 <= j < i ==> view_expectations(v@)[j] != e@,
        decreases v.len() - i,
    {
        if v[i].same(e) {
            assert(view_expectations(v@)[i as int] == e@);
            return true;
        }
        i = i + 1;
    }
    false
}

/// The expectations with repeats left out
pub fn dedup_expectations(v: &Vec<Expectation>) -> (r: Vec<Expectation>)
    ensures
        view_expectations(r@) == dedup(view_expectations(v@)),
{
    let ghost s = view_expectations(v@);
    let mut r: Vec<Expectation> = Vec::new();
    let mut i: usize = 0;
    while i < v.len()
        invariant
            i <= v.len(),
            s == view_expectations(v@),
            view_expectations(r@) == dedup(s.take(i as int)),
        decreases v.len() - i,
    {
        proof {
            assert(s.take(i + 1).drop_last() =~= s.take(i as int));
            assert(s.take(i + 1).last() == s[i as int]);
        }
        if !contains_expectation(&r, &v[i]) {
            let ghost before = r@;
            r.push(v[i].clone_expectation());
            assert(view_expectations(r@) =~= view_expectations(before).push(v@[i as int]@));
        }
        i = i + 1;
    }
    assert(s.take(v.len() as int) =~= s);
    r
}

/// `a`, `a, or b`, `a, b, or c`, ...; or `something else` for none
pub fn alternatives_text(d: &Vec<Expectation>) -> (r: Vec<u8>)
    ensures
        r@ == alternatives(view_expectations(d@)),
{
    let ghost s = view_expectations(d@);
    let mut r: Vec<u8> = Vec::new();
    if d.len() == 0 {
        append_bytes(&mut r, "something else".as_bytes());
        assert(r@ =~= "something else".spec_bytes());
        return r;
    }
    if d.len() == 1 {
        return d[0].message();
    }
    let mut i: usize = 0;
    while i < d.len() - 1
        invariant
            d.len() >= 2,
            i <= d.len() - 1,
            s == view_expectations(d@),
            r@ == listed(s, i as int),
        decreases d.len() - 1 - i,
    {
        let m = d[i].message();
        append_bytes(&mut r, m.as_slice());
        append_bytes(&mut r, ", ".as_bytes());
        i = i + 1;
    }
    append_bytes(&mut r, "or ".as_bytes());
    let m = d[d.len() - 1].message();
    append_bytes(&mut r, m.as_slice());
    r
}

impl VerboseErrorReason {
    /// The message of the reason: the diagnostic, or `expected ` and the
    /// alternatives expected, each named once
    pub fn message(&self) -> (r: Vec<u8>)
        ensures
            r@ == reason_text(self@),
    {
        match self {
            VerboseErrorReason::Diagnostic(d) => {
                let mut r = Vec::new();
                append_bytes(&mut r, d.as_bytes());
                assert(r@ =~= d.spec_bytes());
                r
            },
            VerboseErrorReason::Expected(v) => {
                let mut r = Vec::new();
                append_bytes(&mut r, "expected ".as_bytes());
                let d = dedup_expectations(v);
                let a = alternatives_text(&d);
                append_bytes(&mut r, a.as_slice());
                r
            },
        }
    }
}

/// The reason of two errors at the same place: the expectations of both,
/// preferred over a diagnostic
pub open spec fn merge_reason_spec(a: VerboseErrorReasonV, b: VerboseErrorReasonV) -> VerboseErrorReasonV {
    match (a, b) {
        (VerboseErrorReasonV::Expected(x), VerboseErrorReasonV::Expected(y)) => VerboseErrorReasonV::Expected(x + y),
        (VerboseErrorReasonV::Diagnostic(_), VerboseErrorReasonV::Expected(y)) => VerboseErrorReasonV::Expected(y),
        (_, VerboseErrorReasonV::Diagnostic(_)) => a,
    }
}

/// Of two alternative errors, the one to report: one that reached the end
/// of input, else the one that got farther, merging the reasons of errors
/// at the same place
pub open spec fn or_spec(a: VerboseErrorV, b: VerboseErrorV) -> VerboseErrorV {
    let merged = VerboseErrorV { reason: merge_reason_spec(a.reason, b.reason), ..a };
    match (a.found, b.found) {
        (None, Some(_)) => a,
        (Some(_), None) => b,
        (None, None) => merged,
        (Some(_), Some(_)) => match a.span.relation(b.span) {
            crate::span::SpanRelation::Later => a,
            crate::span::SpanRelation::Earlier => b,
            crate::span::SpanRelation::Same => merged,
        },
    }
}

/// The reason after adding an expectation as context
pub open spec fn add_context_spec(r: VerboseErrorReasonV, e: ExpectationV) -> VerboseErrorReasonV {
    match r {
        VerboseErrorReasonV::Diagnostic(_) => VerboseErrorReasonV::Expected(seq![e]),
        VerboseErrorReasonV::Expected(s) => VerboseErrorReasonV::Expected(s.push(e)),
    }
}

impl VerboseError {
    /// Merge the reason of another error at the same place into this one
    pub fn merge_reason(&mut self, other: Self)
        ensures
            final(self)@ == (VerboseErrorV {
                reason: merge_reason_spec(old(self)@.reason, other@.reason),
                ..old(self)@
            }),
    {
        let mut mine = VerboseErrorReason::Diagnostic("");
        std::mem::swap(&mut mine, &mut self.reason);
        let merged = match (mine, other.reason) {
            (VerboseErrorReason::Expected(mut x), VerboseErrorReason::Expected(mut y)) => {
                let ghost xs = x@;
                let ghost ys = y@;
                x.append(&mut y);
                assert(view_expectations(x@) =~= view_expectations(xs) + view_expectations(ys));
                VerboseErrorReason::Expected(x)
            },
            (VerboseErrorReason::Diagnostic(_), VerboseErrorReason::Expected(y)) => {
                VerboseErrorReason::Expected(y)
            },
            (m, VerboseErrorReason::Diagnostic(_)) => m,
        };
        self.reason = merged;
    }

    /// Of two alternative errors, the one to report
    pub fn or(self, other: Self) -> (r: Self)
        ensures
            r@ == or_spec(self@, other@),
    {
        let mut this = self;
        match (&this.found, &other.found) {
            (None, Some(_)) => this,
            (Some(_), None) => other,
            (None, None) => {
                this.merge_reason(other);
                this
            },
            (Some(_), Some(_)) => {
                match this.span.compare(&other.span) {
                    crate::span::SpanRelation::Later => this,
                    crate::span::SpanRelation::Earlier => other,
                    crate::span::SpanRelation::Same => {
                        this.merge_reason(other);
                        this
                    },
                }
            },
        }
    }

    /// Like [`VerboseError::or`], replacing this error in place
    pub fn or_in_place(&mut self, other: Self)
        ensures
            final(self)@ == or_spec(old(self)@, other@),
    {
        let mut this = VerboseError {
            span: Span { file: 0, start: 0, end: 0, expanded_from: None, included_from: None },
            found: None,
            reason: VerboseErrorReason::Diagnostic(""),
        };
        std::mem::swap(&mut this, self);
        *self = this.or(other);
    }

    /// Add an expected token as context
    pub fn add_context_token(self, context: Token) -> (r: Self)
        ensures
            r@ == (VerboseErrorV {
                reason: add_context_spec(self@.reason, ExpectationV::Token(context@)),
                ..self@
            }),
    {
        self.add_context(Expectation::Token(context))
    }

    /// Add an expected label as context
    pub fn add_context_label(self, context: &'static str) -> (r: Self)
        ensures
            r@ == (VerboseErrorV {
                reason: add_context_spec(self@.reason, ExpectationV::Label(context@)),
                ..self@
            }),
    {
        self.add_context(Expectation::Label(context))
    }

    fn add_context(self, e: Expectation) -> (r: Self)
        ensures
            r@ == (VerboseErrorV { reason: add_context_spec(self@.reason, e@), ..self@ }),
    {
        let VerboseError { span, found, reason } = self;
        let reason = match reason {
            VerboseErrorReason::Diagnostic(_) => {
                let mut v = Vec::new();
                v.push(e);
                assert(view_expectations(v@) =~= seq![e@]);
                VerboseErrorReason::Expected(v)
            },
            VerboseErrorReason::Expected(mut v) => {
                let ghost before = v@;
                v.push(e);
                assert(view_expectations(v@) =~= view_expectations(before).push(e@));
                VerboseErrorReason::Expected(v)
            },
        };
        VerboseError { span, found, reason }
    }

    /// The message: `found X, expected ...`
    pub fn message(&self) -> (r: Vec<u8>)
        ensures
            r@ == "found ".spec_bytes() + found_text(view_opt_token(self.found)) + ", ".spec_bytes()
                + reason_text(self.reason@),
    {
        let mut r = Vec::new();
        append_bytes(&mut r, "found ".as_bytes());
        match &self.found {
            Some(t) => {
                let d = t.display_bytes();
                append_bytes(&mut r, d.as_slice());
            },
            None => {
                append_bytes(&mut r, "end of input".as_bytes());
            },
        }
        append_bytes(&mut r, ", ".as_bytes());
        let m = self.reason.message();
        append_bytes(&mut r, m.as_slice());
        r
    }

    /// Where a report of the error points: at the error's span, or, for an
    /// error at the end of input, at the end of its file (whose length is
    /// given)
    pub fn report_span(&self, file_len: usize) -> (r: Span)
        ensures
            self.found is Some ==> r == self.span,
            self.found is None ==> r == (Span {
                file: self.span.file,
                start: file_len,
                end: file_len,
                expanded_from: None,
                included_from: self.span.included_from,
            }),
    {
        match &self.found {
            Some(_) => self.span.clone(),
            None => Span {
                file: self.span.file,
                start: file_len,
                end: file_len,
                expanded_from: None,
                included_from: match &self.span.included_from {
                    Some(b) => Some(Box::new((**b).clone())),
                    None => None,
                },
            },
        }
    }

    /// A short message for labelling the error's location
    pub fn to_short_string(&self) -> (r: Vec<u8>)
        ensures
            r@ == "Didn't expect ".spec_bytes() + found_text(view_opt_token(self.found)),
    {
        let mut r = Vec::new();
        append_bytes(&mut r, "Didn't expect ".as_bytes());
        match &self.found {
            Some(t) => {
                let d = t.display_bytes();
                append_bytes(&mut r, d.as_slice());
            },
            None => {
                append_bytes(&mut r, "end of input".as_bytes());
            },
        }
        r
    }
}

} // verus!

verus! {

impl VerboseError {
    /// The error for input that no alternative accepts, before any reason
    /// is known: at the next token if there is one; else just after the
    /// last token read, in the file the preprocessor started from (at the
    /// end of input); else at the very start
    pub fn from_position(next: Option<&SpannedToken>, previous: Option<&SpannedToken>) -> (r: Self)
        ensures
            r@.reason == VerboseErrorReasonV::Expected(Seq::empty()),
            match next {
                Some(t) => r@.span == t.1 && r@.found == Some(t.0@),
                None => r@.found is None && match previous {
                    Some(p) => r@.span == Span::plain(p.1.inclusion_root().file, p.1.end, p.1.end),
                    None => r@.span == Span::plain(0, 0, 0),
                },
            },
    {
        let reason = VerboseErrorReason::Expected(Vec::new());
        proof {
            assert(view_expectations(Seq::<Expectation>::empty()) =~= Seq::empty());
        }
        match next {
            Some(t) => VerboseError { span: t.1.clone(), found: Some(t.0.clone()), reason },
            None => match previous {
                Some(p) => VerboseError {
                    span: Span {
                        file: p.1.root_file(),
                        start: p.1.end,
                        end: p.1.end,
                        expanded_from: None,
                        included_from: None,
                    },
                    found: None,
                    reason,
                },
                None => VerboseError {
                    span: Span { file: 0, start: 0, end: 0, expanded_from: None, included_from: None },
                    found: None,
                    reason,
                },
            },
        }
    }
}

/// An error (or warning) found while preprocessing
#[derive(Debug)]
pub enum PreprocessorError {
    /// An `` `endif `` with no `` `ifdef `` or `` `ifndef `` open
    Endif { endif_span: Span },
    /// An `` `ifdef `` or `` `ifndef `` never closed by `` `endif ``
    NoEndif { ifdef_span: Span },
    /// An `` `elsif `` with no `` `ifdef `` or `` `ifndef `` open
    Elsif { elsif_span: Span },
    /// An `` `else `` with no `` `ifdef `` or `` `ifndef `` open
    Else { else_span: Span },
    /// An `` `end_keywords `` with no `` `begin_keywords `` open
    EndKeywords { end_keywords_span: Span },
    /// A `` `begin_keywords `` never closed by `` `end_keywords ``
    NoEndKeywords { begin_keywords_span: Span },
    /// A `` `define `` of the name of a compiler directive
    RedefinedDirective { name_span: Span },
    /// A parameter of a `` `define `` that is not an identifier
    InvalidDefineParameter { parameter_span: Span },
    /// A default argument of a `` `define `` that is not complete
    InvalidDefineArgument { argument_span: Span },
    /// A `` `begin_keywords `` version that names no standard
    InvalidVersionSpecifier { version_span: Span },
    /// A directive cut off by the end of input
    IncompleteDirective { directive_span: Span },
    /// A `` `define `` with no name
    IncompleteDefine { define_span: Span },
    /// A use of a text macro that is not defined
    UndefinedMacro { macro_span: Span },
    /// A `` `define `` naming one parameter twice
    DuplicateMacroParameter { parameter_span: Span },
    /// A use of a macro with parameters but no arguments
    NoMacroArguments { macro_span: Span },
    /// A use of a macro with more arguments than parameters
    TooManyMacroArguments { macro_span: Span },
    /// A use of a macro lacking an argument that has no default
    MissingMacroArgument { macro_span: Span },
    /// An identifier formed with `` `` `` that is not one
    InvalidIdentifierFormation { span: Span },
    /// A `` `timescale `` whose precision is coarser than its unit
    InvalidRelativeTimescales { span: Span },
    /// A closing bracket without its opening one in a macro argument
    IncompleteMacroWithToken { error_token: Token, error_span: Span },
    /// An `` `include `` of a file that is not known
    Include { include_span: Span },
    /// An `` `include `` nested too deeply
    IncludeDepth { include_span: Span },
    /// Something unexpected in a directive
    VerboseError { err: VerboseError },
    /// A directive not allowed inside a design element
    IllegalInDesignUnit { directive: Directive, directive_span: Span },
    /// Warning: a keyword used as a macro parameter
    KeywordDefineParameter { parameter_span: Span },
    /// Warning: an `` `undef `` of a macro that is not defined
    NotPreviouslyDefinedMacro { macro_span: Span },
    /// Warning: a `` `define `` of a macro already defined
    RedefinedMacro { macro_span: Span },
    /// Internal: the end of a line in a macro body
    NewlineInDefine(Span),
    /// Internal: the end of a macro argument
    EndOfFunctionArgument(SpannedToken),
    /// The preprocessor's budget of steps ran out (only for input that
    /// expands without end, such as a macro whose body uses itself)
    StepLimit,
}

impl PreprocessorError {
    pub open spec fn warning(&self) -> bool {
        ||| self is KeywordDefineParameter
        ||| self is NotPreviouslyDefinedMacro
        ||| self is RedefinedMacro
    }

    pub open spec fn internal(&self) -> bool {
        self is NewlineInDefine || self is EndOfFunctionArgument
    }

    /// Whether the error can be reported as it is: neither a warning nor
    /// one of the internal signals
    pub open spec fn reportable(&self) -> bool {
        !self.warning() && !self.internal()
    }

    /// Whether this is only a warning
    pub fn is_warning(&self) -> (r: bool)
        ensures
            r == self.warning(),
    {
        match self {
            PreprocessorError::KeywordDefineParameter { .. } => true,
            PreprocessorError::NotPreviouslyDefinedMacro { .. } => true,
            PreprocessorError::RedefinedMacro { .. } => true,
            _ => false,
        }
    }
}

/// Whether an error is a [`VerboseError`] at the given place, having found
/// the given token and expecting what the label says
pub open spec fn expected_error(
    e: PreprocessorError,
    span: Span,
    found: Option<TokenV>,
    label: &'static str,
) -> bool {
    &&& e matches PreprocessorError::VerboseError { err }
    &&& err@.span == span
    &&& err@.found == found
    &&& err@.reason == VerboseErrorReasonV::Expected(seq![ExpectationV::Label(label@)])
}

/// The error for having found a token where something else was expected
pub fn expected(span: Span, found: Option<Token>, label: &'static str) -> (r: PreprocessorError)
    ensures
        expected_error(r, span, view_opt_token(found), label),
{
    let mut v = Vec::new();
    v.push(Expectation::Label(label));
    assert(view_expectations(v@) =~= seq![ExpectationV::Label(label@)]);
    PreprocessorError::VerboseError {
        err: VerboseError { span, found, reason: VerboseErrorReason::Expected(v) },
    }
}

} // verus!
