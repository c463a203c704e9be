use forj_parser::error::{Expectation, PreprocessorError, VerboseError, VerboseErrorReason};
use forj_parser::span::{Span, SpanRelation};
use forj_parser::{SpannedToken, Token};

fn span(start: usize, end: usize) -> Span {
    Span { file: 0, start, end, expanded_from: None, included_from: None }
}

fn error_at(start: usize, found: Option<Token>, labels: Vec<&'static str>) -> VerboseError {
    VerboseError {
        span: span(start, start + 1),
        found,
        reason: VerboseErrorReason::Expected(labels.into_iter().map(Expectation::Label).collect()),
    }
}

fn text(v: Vec<u8>) -> String {
    String::from_utf8(v).unwrap()
}

#[test]
fn span_relation_is_antisymmetric() {
    let a = span(3, 5);
    let b = span(4, 5);
    assert!(matches!(a.compare(&b), SpanRelation::Earlier));
    assert!(matches!(b.compare(&a), SpanRelation::Later));
    assert!(matches!(a.compare(&span(3, 5)), SpanRelation::Same));
    // same start: the longer one is later
    assert!(matches!(span(3, 6).compare(&a), SpanRelation::Later));
}

#[test]
fn or_keeps_the_error_that_got_farther_in_either_order() {
    let plus = || Some(Token::Plus);
    let a = error_at(2, plus(), vec!["a"]);
    let b = error_at(7, plus(), vec!["b"]);
    let ab = a.or(b);
    assert_eq!(ab.span.start, 7);
    let a = error_at(2, plus(), vec!["a"]);
    let b = error_at(7, plus(), vec!["b"]);
    let ba = b.or(a);
    assert_eq!(ba.span.start, 7);
}

#[test]
fn or_prefers_the_end_of_input() {
    let a = error_at(9, Some(Token::Plus), vec!["a"]);
    let b = error_at(2, None, vec!["b"]);
    let r = a.or(b);
    assert!(r.found.is_none());
    assert_eq!(r.span.start, 2);
}

#[test]
fn or_merges_errors_at_the_same_place() {
    let mut a = error_at(4, Some(Token::Plus), vec!["a"]);
    let b = error_at(4, Some(Token::Plus), vec!["b", "a"]);
    a.or_in_place(b);
    assert_eq!(text(a.message()), "found +, expected a, or b");
}

#[test]
fn expected_messages() {
    let none = error_at(0, Some(Token::Comma), vec![]);
    assert_eq!(text(none.message()), "found ,, expected something else");
    let one = error_at(0, None, vec!["a macro name"]);
    assert_eq!(text(one.message()), "found end of input, expected a macro name");
    assert_eq!(text(one.to_short_string()), "Didn't expect end of input");
    let three = error_at(0, Some(Token::SColon), vec!["x", "y", "z"]);
    assert_eq!(text(three.message()), "found ;, expected x, y, or z");
    let diag = VerboseError {
        span: span(0, 1),
        found: Some(Token::Plus),
        reason: VerboseErrorReason::Diagnostic("not here"),
    };
    assert_eq!(text(diag.message()), "found +, not here");
    assert_eq!(text(diag.to_short_string()), "Didn't expect +");
}

#[test]
fn context_is_added_to_expectations() {
    let diag = VerboseError {
        span: span(0, 1),
        found: Some(Token::Plus),
        reason: VerboseErrorReason::Diagnostic("not here"),
    };
    // a diagnostic gives way to the context
    let e = diag.add_context_label("a value");
    assert_eq!(text(e.message()), "found +, expected a value");
    let e = e.add_context_token(Token::EParen);
    assert_eq!(text(e.message()), "found +, expected a value, or )");
}

#[test]
fn errors_from_position() {
    let next = SpannedToken(Token::Plus, span(5, 6));
    let e = VerboseError::from_position(Some(&next), None);
    assert_eq!(e.span.start, 5);
    assert_eq!(e.found, Some(Token::Plus));
    let prev = SpannedToken(Token::Minus, span(5, 6));
    let e = VerboseError::from_position(None, Some(&prev));
    assert_eq!((e.span.start, e.span.end), (6, 6));
    assert!(e.found.is_none());
    let e = VerboseError::from_position(None, None);
    assert_eq!((e.span.file, e.span.start, e.span.end), (0, 0, 0));
}

#[test]
fn report_span_at_end_of_input() {
    let e = error_at(3, None, vec!["x"]);
    let s = e.report_span(42);
    assert_eq!((s.start, s.end), (42, 42));
    let e = error_at(3, Some(Token::Plus), vec!["x"]);
    let s = e.report_span(42);
    assert_eq!((s.start, s.end), (3, 4));
}

#[test]
fn warnings_are_told_apart() {
    let w = PreprocessorError::RedefinedMacro { macro_span: span(0, 1) };
    assert!(w.is_warning());
    let e = PreprocessorError::UndefinedMacro { macro_span: span(0, 1) };
    assert!(!e.is_warning());
}
