use forj_parser::error::PreprocessorError;
use forj_parser::lexer::lex;
use forj_parser::pragma::{PragmaExpression, PragmaHandler};
use forj_parser::preprocess::preprocess;
use forj_parser::define::{argument_values, substitute_body};
use forj_parser::defines::{define_empty, define_text, parse_cli_define};
use forj_parser::state::{DefineBody, MacroParameter, PreprocessorState};
use forj_parser::{Span, SpannedToken, Token};

/// A handler that remembers the last pragma it was called for
struct BasicHandler {
    name: Vec<u8>,
    num_expr: usize,
    resets: usize,
}

impl BasicHandler {
    fn new() -> Self {
        BasicHandler { name: Vec::new(), num_expr: 0, resets: 0 }
    }
}

impl PragmaHandler for BasicHandler {
    fn reset(&mut self) {
        self.resets += 1;
    }
    fn callback(
        &mut self,
        name: &[u8],
        _name_span: &Span,
        args: Vec<PragmaExpression>,
        _dest: &mut Vec<SpannedToken>,
    ) {
        self.name = name.to_vec();
        self.num_expr = args.len();
    }
}

fn kinds(v: Vec<SpannedToken>) -> Vec<Token> {
    v.into_iter().map(|t| t.0).collect()
}

/// Preprocess `input` as the contents of a file `<test>`
fn run(input: &str) -> (Result<Vec<SpannedToken>, ()>, PreprocessorState<BasicHandler>) {
    let mut state: PreprocessorState<BasicHandler> = PreprocessorState::new(Vec::new());
    let f = state.retain_file(b"<test>".to_vec(), input.as_bytes().to_vec());
    let toks = lex(&state.files[f].contents, f, &None);
    let r = preprocess(toks, &mut state);
    (r, state)
}

fn check_preprocessor(input: &str, expected: Vec<Token>) {
    let (r, state) = run(input);
    match r {
        Ok(result) => {
            assert_eq!(kinds(result), expected);
            if let Some(err) = state.errors.first() {
                panic!("{:?}", err)
            }
        }
        Err(()) => panic!("{:?}", state.errors.first()),
    }
}

fn num(s: &str) -> Vec<u8> {
    s.as_bytes().to_vec()
}

#[test]
fn basic_include() {
    let mut state: PreprocessorState<BasicHandler> = PreprocessorState::new(Vec::new());
    let _ = state.retain_file(b"included.sv".to_vec(), b"1 + 2".to_vec());
    let f = state.retain_file(
        b"<test>".to_vec(),
        b"`include \"included.sv\"
        + 3"
        .to_vec(),
    );
    let input = lex(&state.files[f].contents, f, &None);
    match preprocess(input, &mut state) {
        Ok(result) => {
            assert_eq!(
                kinds(result),
                vec![
                    Token::UnsignedNumber(num("1")),
                    Token::Plus,
                    Token::UnsignedNumber(num("2")),
                    Token::Plus,
                    Token::UnsignedNumber(num("3")),
                ]
            );
            if let Some(err) = state.errors.first() {
                panic!("{:?}", err)
            }
        }
        Err(()) => panic!("{:?}", state.errors.first()),
    }
}

#[test]
fn angle_bracket_include() {
    // the path is the text between `<` and `>`
    let mut state: PreprocessorState<BasicHandler> = PreprocessorState::new(Vec::new());
    let _ = state.retain_file(b"lib/defs.svh".to_vec(), b"x".to_vec());
    let f = state.retain_file(b"<test>".to_vec(), b"`include <lib/defs.svh>\ny".to_vec());
    let input = lex(&state.files[f].contents, f, &None);
    let result = preprocess(input, &mut state).unwrap();
    assert_eq!(
        kinds(result),
        vec![Token::SimpleIdentifier(num("x")), Token::SimpleIdentifier(num("y"))]
    );
    // a path broken by a line break is refused
    let (r, state) = run("`include <lib\n/defs.svh>\ny");
    assert!(r.is_ok());
    assert!(matches!(state.errors[0], PreprocessorError::VerboseError { .. }));
}

#[test]
fn include_in_untaken_conditional() {
    check_preprocessor(
        "`ifdef NOT_DEFINED
        `include \"dont/get/this/file.v\"
        `endif",
        Vec::<Token>::new(),
    )
}

#[test]
fn basic_number() {
    check_preprocessor("3'o1", vec![Token::OctalNumber(num("3'o1"))]);
    check_preprocessor("7'hF", vec![Token::HexNumber(num("7'hF"))])
}

#[test]
fn spaced_number() {
    check_preprocessor("1 'b 0", vec![Token::BinaryNumber(num("1 'b 0"))]);
    check_preprocessor("2    'd    7", vec![Token::DecimalNumber(num("2    'd    7"))])
}

#[test]
fn basic_substitution() {
    check_preprocessor(
        "`define WIDTH 7
        `WIDTH'h4",
        vec![Token::HexNumber(num("7'h4"))],
    )
}

#[test]
fn non_start_substitution() {
    check_preprocessor(
        "`define BASE 'd
        5`BASE 4",
        vec![Token::DecimalNumber(num("5'd 4"))],
    );
    check_preprocessor(
        "`define VALUE 12
        4'O`VALUE",
        vec![Token::OctalNumber(num("4'O12"))],
    )
}

#[test]
fn multiple_substitution() {
    check_preprocessor(
        "`define SIZE 3
        `define BASE 'h
        `define VALUE 7
        `SIZE`BASE 7",
        vec![Token::HexNumber(num("3'h 7"))],
    );
    check_preprocessor(
        "`define SIZE 3
        `define BASE 'h
        `define VALUE 7
        `SIZE'h`VALUE",
        vec![Token::HexNumber(num("3'h7"))],
    );
    check_preprocessor(
        "`define SIZE 3
        `define BASE 'h
        `define VALUE 7
        3`BASE`VALUE",
        vec![Token::HexNumber(num("3'h7"))],
    );
    check_preprocessor(
        "`define SIZE 3
        `define BASE 'h
        `define VALUE 7
        `SIZE`BASE`VALUE",
        vec![Token::HexNumber(num("3'h7"))],
    );
}

#[test]
fn multi_substitution_value() {
    check_preprocessor(
        "`define VALUE1 F
        `define VALUE2 A
        16'h`VALUE1`VALUE2",
        vec![Token::HexNumber(num("16'hFA"))],
    );
}

#[test]
fn trailing_tokens() {
    check_preprocessor(
        "`define DEPTH 9
        `DEPTH'h4 + 9'h5",
        vec![Token::HexNumber(num("9'h4")), Token::Plus, Token::HexNumber(num("9'h5"))],
    );
    check_preprocessor(
        "`define DEPTH 13
        `DEPTH'hFA+8'hDE",
        vec![Token::HexNumber(num("13'hFA")), Token::Plus, Token::HexNumber(num("8'hDE"))],
    );
    check_preprocessor(
        "`define DEPTH 13
        `define VALUE FA
        `DEPTH'h`VALUE+8'hDE",
        vec![Token::HexNumber(num("13'hFA")), Token::Plus, Token::HexNumber(num("8'hDE"))],
    )
}

fn test_pragma(input: &str, name: &str, num_expr: usize, expected: Vec<Token>) {
    let mut state: PreprocessorState<BasicHandler> = PreprocessorState::new(Vec::new());
    let f = state.retain_file(b"<test>".to_vec(), input.as_bytes().to_vec());
    state.set_pragma_handler(name.as_bytes().to_vec(), BasicHandler::new());
    let input = lex(&state.files[f].contents, f, &None);
    match preprocess(input, &mut state) {
        Ok(result) => {
            assert_eq!(kinds(result), expected);
            if let Some(err) = state.errors.first() {
                panic!("{:?}", err)
            }
        }
        Err(()) => panic!("{:?}", state.errors.first()),
    }
    let handler = &state.pragma_handlers[state.pragma_handlers.len() - 1].1;
    assert_eq!(handler.name, name.as_bytes().to_vec());
    assert_eq!(handler.num_expr, num_expr)
}

#[test]
fn basic() {
    test_pragma("`pragma hello", "hello", 0, vec![])
}

#[test]
fn keyword() {
    test_pragma("`pragma keyword these, are, some, keywords", "keyword", 4, vec![])
}

#[test]
fn dictionary() {
    test_pragma("`pragma dictionary baba=you, count=5", "dictionary", 2, vec![])
}

#[test]
fn nested() {
    test_pragma(
        "`pragma nested outer    =   (middle=\"this\", inner=(i_am=your_father, depth = 2))",
        "nested",
        1,
        vec![],
    )
}

#[test]
fn empty() {
    test_pragma("`pragma empty", "empty", 0, vec![])
}

#[test]
#[should_panic(expected = "a pragma name")]
fn no_name() {
    test_pragma(
        "`pragma
        module test(); endmodule",
        "nested",
        0,
        vec![],
    )
}

#[test]
#[should_panic(expected = "a pragma value")]
fn no_value() {
    test_pragma("`pragma no_value item = +", "no_value", 1, vec![])
}

#[test]
#[should_panic(expected = "a pragma value")]
fn no_value_eof() {
    test_pragma("`pragma no_value item =", "no_value", 1, vec![])
}

#[test]
#[should_panic(expected = "a pragma expression")]
fn no_expression() {
    test_pragma("`pragma no_expression first_item, <<", "no_expression", 1, vec![])
}

#[test]
#[should_panic(expected = "a pragma expression")]
fn no_expression_eof() {
    test_pragma("`pragma no_expression first_item, ", "no_expression", 1, vec![])
}

#[test]
fn pragma_replace_keyword() {
    // class should be an identifier, not a keyword
    test_pragma(
        "`begin_keywords \"1364-1995\"
        `pragma class_pragma first_item, class
        `end_keywords",
        "class_pragma",
        2,
        vec![],
    )
}

// ---------------------------------------------------------------------
// further scenarios

#[test]
fn plain_text_passes_through() {
    check_preprocessor(
        "a = b; // c\n/* d */ e",
        vec![
            Token::SimpleIdentifier(num("a")),
            Token::Eq,
            Token::SimpleIdentifier(num("b")),
            Token::SColon,
            Token::SimpleIdentifier(num("e")),
        ],
    );
}

#[test]
fn preprocessing_twice_changes_nothing() {
    let (r, _) = run("x + y ; /* c */ z\n w");
    let once = r.unwrap();
    let mut state: PreprocessorState<BasicHandler> = PreprocessorState::new(Vec::new());
    let again: Vec<SpannedToken> =
        once.iter().map(|t| SpannedToken(clone_token(&t.0), t.1.clone())).collect();
    let twice = preprocess(again, &mut state).unwrap();
    assert_eq!(kinds(once), kinds(twice));
}

fn clone_token(t: &Token) -> Token {
    match t {
        Token::SimpleIdentifier(v) => Token::SimpleIdentifier(v.clone()),
        Token::Plus => Token::Plus,
        Token::SColon => Token::SColon,
        other => panic!("unexpected {:?}", other),
    }
}

#[test]
fn function_macro() {
    check_preprocessor(
        "`define TEST(a, b) a + b
`TEST(1, 2)
",
        vec![Token::UnsignedNumber(num("1")), Token::Plus, Token::UnsignedNumber(num("2"))],
    );
}

#[test]
fn default_macro_argument() {
    check_preprocessor(
        "`define ADD(a, b = 5) a + b
`ADD(1, )
",
        vec![Token::UnsignedNumber(num("1")), Token::Plus, Token::UnsignedNumber(num("5"))],
    );
}

#[test]
fn ifdef_takes_defined_branch() {
    check_preprocessor(
        "`define A
`ifdef A x `else y `endif
`ifndef A p `elsif A q `else r `endif",
        vec![Token::SimpleIdentifier(num("x")), Token::SimpleIdentifier(num("q"))],
    );
}

#[test]
fn conditional_keeps_one_branch() {
    // the condition holds: the first branch, then what follows
    let mut state: PreprocessorState<BasicHandler> =
        PreprocessorState::new(vec![define_empty(b"A".to_vec())]);
    let f = state.retain_file(b"<test>".to_vec(), b"`ifdef A a1 a2 `else b1 `endif c1".to_vec());
    let toks = lex(&state.files[f].contents, f, &None);
    let r = preprocess(toks, &mut state).unwrap();
    assert_eq!(
        kinds(r),
        vec![
            Token::SimpleIdentifier(num("a1")),
            Token::SimpleIdentifier(num("a2")),
            Token::SimpleIdentifier(num("c1")),
        ]
    );
    // it does not: the `else` branch, then what follows
    check_preprocessor(
        "`ifdef A a1 a2 `else b1 `endif c1",
        vec![Token::SimpleIdentifier(num("b1")), Token::SimpleIdentifier(num("c1"))],
    );
    check_preprocessor(
        "`ifndef A a1 `else b1 b2 `endif",
        vec![Token::SimpleIdentifier(num("a1"))],
    );
}

#[test]
fn nested_conditionals_are_skipped() {
    check_preprocessor(
        "`ifdef B `ifdef C x `endif y `else z `endif",
        vec![Token::SimpleIdentifier(num("z"))],
    );
}

#[test]
fn undef_removes_macro() {
    check_preprocessor(
        "`define A 1
`undef A
`ifdef A x `else y `endif",
        vec![Token::SimpleIdentifier(num("y"))],
    );
}

#[test]
fn define_and_undef_leave_other_macros() {
    let (r, state) = run(
        "`define A a
`define B b
`define A c
`undef A
`B `ifdef A x `else y `endif",
    );
    assert_eq!(
        kinds(r.unwrap()),
        vec![Token::SimpleIdentifier(num("b")), Token::SimpleIdentifier(num("y"))]
    );
    // redefining `A` is only a warning
    assert_eq!(state.errors.len(), 1);
    assert!(matches!(state.errors[0], PreprocessorError::RedefinedMacro { .. }));
    // undefining a macro never defined is a warning
    let (r, state) = run("`define B b\n`undef A\n`B");
    assert_eq!(kinds(r.unwrap()), vec![Token::SimpleIdentifier(num("b"))]);
    assert!(matches!(state.errors[0], PreprocessorError::NotPreviouslyDefinedMacro { .. }));
}

#[test]
fn undefined_macro_is_an_error() {
    let (r, state) = run("`NOPE x");
    assert!(r.is_ok());
    assert!(matches!(state.errors[0], PreprocessorError::UndefinedMacro { .. }));
}

#[test]
fn unclosed_begin_keywords_is_an_error() {
    let (r, state) = run("`begin_keywords \"1364-2001\"\nx");
    assert!(r.is_ok());
    assert_eq!(state.errors.len(), 1);
    assert!(matches!(state.errors[0], PreprocessorError::NoEndKeywords { .. }));
}

#[test]
fn end_keywords_without_begin_is_an_error() {
    let (r, state) = run("`end_keywords\nx");
    assert!(r.is_ok());
    assert!(matches!(state.errors[0], PreprocessorError::EndKeywords { .. }));
}

#[test]
fn keywords_of_an_older_standard_are_identifiers() {
    check_preprocessor(
        "`begin_keywords \"1364-1995\"
logic
`end_keywords
logic",
        vec![
            Token::SimpleIdentifier(num("logic")),
            Token::Keyword(forj_parser::Keyword::Logic),
        ],
    );
}

#[test]
fn missing_endif_is_fatal() {
    let (r, state) = run("`ifdef A x");
    assert!(r.is_err());
    assert!(matches!(state.errors.last().unwrap(), PreprocessorError::NoEndif { .. }));
}

#[test]
fn redefinition_is_a_warning() {
    let (r, state) = run("`define A 1\n`define A 2\n`A");
    let v = r.unwrap();
    assert_eq!(kinds(v), vec![Token::UnsignedNumber(num("2"))]);
    assert_eq!(state.errors.len(), 1);
    assert!(matches!(state.errors[0], PreprocessorError::RedefinedMacro { .. }));
}

#[test]
fn unknown_include_is_an_error() {
    let (r, state) = run("`include \"nowhere.v\"\nx");
    assert!(r.is_ok());
    assert!(matches!(state.errors[0], PreprocessorError::Include { .. }));
}

#[test]
fn file_and_line_directives() {
    check_preprocessor(
        "a\n`__LINE__ `__FILE__",
        vec![
            Token::SimpleIdentifier(num("a")),
            Token::UnsignedNumber(num("2")),
            Token::StringLiteral(num("<test>")),
        ],
    );
}

#[test]
fn pragma_reset_resets_named_handler() {
    let mut state: PreprocessorState<BasicHandler> = PreprocessorState::new(Vec::new());
    let f = state.retain_file(b"<test>".to_vec(), b"`pragma reset h\n`pragma resetall".to_vec());
    state.set_pragma_handler(b"h".to_vec(), BasicHandler::new());
    let input = lex(&state.files[f].contents, f, &None);
    let r = preprocess(input, &mut state);
    assert!(r.is_ok());
    assert_eq!(state.pragma_handlers[0].1.resets, 2);
}

#[test]
fn line_directive_renames_and_renumbers() {
    check_preprocessor(
        "`line 10 \"foo.v\" 0\n`__LINE__\n`__FILE__",
        vec![Token::UnsignedNumber(num("10")), Token::StringLiteral(num("foo.v"))],
    );
}

#[test]
fn bad_line_level_is_an_error() {
    let (r, state) = run("`line 10 \"foo.v\" 3\nx");
    assert!(r.is_ok());
    assert!(matches!(state.errors[0], PreprocessorError::VerboseError { .. }));
}

#[test]
fn defines_from_outside() {
    let e = define_empty(b"E".to_vec());
    assert_eq!(e.name, b"E".to_vec());
    assert!(matches!(e.body, DefineBody::Empty));
    let t = define_text(b"T".to_vec(), b"1 + 2".to_vec());
    match &t.body {
        DefineBody::Text(toks) => assert_eq!(toks.len(), 3),
        _ => panic!("expected a text body"),
    }
    let c = parse_cli_define(b"WIDTH=8");
    assert_eq!(c.name, b"WIDTH".to_vec());
    match &c.body {
        DefineBody::Text(toks) => {
            assert_eq!(toks.len(), 1);
            assert_eq!(toks[0].0, Token::UnsignedNumber(num("8")));
        }
        _ => panic!("expected a text body"),
    }
    // a define given from outside is used like one in the source
    let mut state: PreprocessorState<BasicHandler> = PreprocessorState::new(vec![c]);
    let f = state.retain_file(b"<test>".to_vec(), b"`WIDTH'hF".to_vec());
    let toks = lex(&state.files[f].contents, f, &None);
    let r = preprocess(toks, &mut state).unwrap();
    assert_eq!(kinds(r), vec![Token::HexNumber(num("8'hF"))]);
}

#[test]
fn argument_values_follow_defaults() {
    let sp = |s: usize| Span { file: 0, start: s, end: s + 1, expanded_from: None, included_from: None };
    let five = || vec![SpannedToken(Token::UnsignedNumber(num("5")), sp(9))];
    let params = vec![
        MacroParameter { name: num("a"), default: None },
        MacroParameter { name: num("b"), default: Some(five()) },
    ];
    let one = vec![SpannedToken(Token::UnsignedNumber(num("1")), sp(20))];
    // an empty argument takes the default
    let v = argument_values(&params, &vec![one, Vec::new()]).unwrap();
    assert_eq!(v[0].len(), 1);
    assert_eq!(v[0][0].0, Token::UnsignedNumber(num("1")));
    assert_eq!(v[1].len(), 1);
    assert_eq!(v[1][0].0, Token::UnsignedNumber(num("5")));
    // a missing argument without a default has no value
    assert!(argument_values(&params, &Vec::new()).is_none());
    // the body: parameters replaced, other tokens kept
    let body = vec![
        SpannedToken(Token::SimpleIdentifier(num("b")), sp(1)),
        SpannedToken(Token::Plus, sp(2)),
        SpannedToken(Token::SimpleIdentifier(num("a")), sp(3)),
    ];
    let out = substitute_body(&body, &params, &v, &sp(40));
    assert_eq!(
        kinds(out),
        vec![Token::UnsignedNumber(num("5")), Token::Plus, Token::UnsignedNumber(num("1"))]
    );
}

#[test]
fn define_records_parameters_and_defaults() {
    let (r, state) = run("`define ADD(a, b = 5 + (c, d)) a + b\nx");
    assert!(r.is_ok());
    let d = state.defines.last().unwrap();
    assert_eq!(d.name, b"ADD".to_vec());
    match &d.body {
        DefineBody::Function(params, body) => {
            assert_eq!(params.len(), 2);
            assert_eq!(params[0].name, b"a".to_vec());
            assert!(params[0].default.is_none());
            assert_eq!(params[1].name, b"b".to_vec());
            let default = kinds(params[1].default.clone().unwrap());
            assert_eq!(
                default,
                vec![
                    Token::UnsignedNumber(num("5")),
                    Token::Plus,
                    Token::Paren,
                    Token::SimpleIdentifier(num("c")),
                    Token::Comma,
                    Token::SimpleIdentifier(num("d")),
                    Token::EParen,
                ]
            );
            assert_eq!(
                kinds(body.clone()),
                vec![Token::SimpleIdentifier(num("a")), Token::Plus, Token::SimpleIdentifier(num("b"))]
            );
        }
        _ => panic!("not a function macro"),
    }
}

#[test]
fn macro_uses_are_replaced_by_their_expansion() {
    let mut state: PreprocessorState<BasicHandler> = PreprocessorState::new(vec![
        define_text(b"AB".to_vec(), b"a /* c */ b".to_vec()),
        define_empty(b"E".to_vec()),
    ]);
    let f = state.retain_file(b"<test>".to_vec(), b"x `AB `E y `AB".to_vec());
    let toks = lex(&state.files[f].contents, f, &None);
    let r = preprocess(toks, &mut state).unwrap();
    assert_eq!(
        kinds(r),
        vec![
            Token::SimpleIdentifier(num("x")),
            Token::SimpleIdentifier(num("a")),
            Token::SimpleIdentifier(num("b")),
            Token::SimpleIdentifier(num("y")),
            Token::SimpleIdentifier(num("a")),
            Token::SimpleIdentifier(num("b")),
        ]
    );
    assert!(state.errors.is_empty());
}

#[test]
fn undefined_macro_uses_are_recorded_and_dropped() {
    let mut state: PreprocessorState<BasicHandler> =
        PreprocessorState::new(vec![define_text(b"AB".to_vec(), b"a b".to_vec())]);
    let f = state.retain_file(b"<test>".to_vec(), b"x `NOPE `AB `NOPE".to_vec());
    let toks = lex(&state.files[f].contents, f, &None);
    let r = preprocess(toks, &mut state).unwrap();
    assert_eq!(
        kinds(r),
        vec![
            Token::SimpleIdentifier(num("x")),
            Token::SimpleIdentifier(num("a")),
            Token::SimpleIdentifier(num("b")),
        ]
    );
    assert_eq!(state.errors.len(), 2);
    assert!(matches!(state.errors[0], PreprocessorError::UndefinedMacro { .. }));
    assert!(matches!(state.errors[1], PreprocessorError::UndefinedMacro { .. }));
}

#[test]
fn escaped_line_break_stays_in_define_body() {
    let (r, state) = run("`define A a \\\n b\nx");
    assert!(r.is_ok());
    assert!(state.errors.is_empty());
    match &state.defines.last().unwrap().body {
        DefineBody::Text(body) => assert_eq!(
            kinds(body.clone()),
            vec![Token::SimpleIdentifier(num("a")), Token::Newline, Token::SimpleIdentifier(num("b"))]
        ),
        _ => panic!("not a text macro"),
    }
}

#[test]
fn function_macro_use_with_known_define() {
    let body = lex(b"a + b", forj_parser::defines::NO_FILE, &None);
    let f = forj_parser::state::Define {
        name: b"F".to_vec(),
        name_span: Span {
            file: forj_parser::defines::NO_FILE,
            start: 0,
            end: 0,
            expanded_from: None,
            included_from: None,
        },
        body: DefineBody::Function(
            vec![
                MacroParameter { name: b"a".to_vec(), default: None },
                MacroParameter { name: b"b".to_vec(), default: None },
            ],
            body,
        ),
    };
    let mut state: PreprocessorState<BasicHandler> = PreprocessorState::new(vec![f]);
    let file = state.retain_file(b"<test>".to_vec(), b"`F(1, 2) x".to_vec());
    let toks = lex(&state.files[file].contents, file, &None);
    let r = preprocess(toks, &mut state).unwrap();
    assert_eq!(
        kinds(r),
        vec![
            Token::UnsignedNumber(num("1")),
            Token::Plus,
            Token::UnsignedNumber(num("2")),
            Token::SimpleIdentifier(num("x")),
        ]
    );
    assert!(state.errors.is_empty());
}

#[test]
fn unreserved_keyword_becomes_identifier_in_text() {
    let (r, state) = run("`begin_keywords \"1364-1995\"\nlogic x\n`end_keywords\n");
    assert!(r.is_ok());
    assert!(state.errors.is_empty());
    assert_eq!(
        kinds(r.unwrap()),
        vec![Token::SimpleIdentifier(num("logic")), Token::SimpleIdentifier(num("x"))]
    );
}

#[test]
fn elsif_chain_keeps_the_first_defined() {
    let mut state: PreprocessorState<BasicHandler> =
        PreprocessorState::new(vec![define_empty(b"Z".to_vec()), define_empty(b"W".to_vec())]);
    let f = state.retain_file(
        b"<test>".to_vec(),
        b"`ifdef X a `elsif Y b `elsif Z c `elsif W d `else e `endif f".to_vec(),
    );
    let toks = lex(&state.files[f].contents, f, &None);
    let r = preprocess(toks, &mut state).unwrap();
    assert_eq!(kinds(r), vec![Token::SimpleIdentifier(num("c")), Token::SimpleIdentifier(num("f"))]);
    assert!(state.errors.is_empty());
}

#[test]
fn single_token_comes_from_a_macro_before_it() {
    let mut state: PreprocessorState<BasicHandler> =
        PreprocessorState::new(vec![define_text(b"A".to_vec(), b"x y".to_vec())]);
    let f = state.retain_file(b"<test>".to_vec(), b"`A z".to_vec());
    let toks = lex(&state.files[f].contents, f, &None);
    let mut src = forj_parser::TokenIterator::new(toks);
    let t = forj_parser::preprocess::preprocess_single(&mut src, &mut state).unwrap().unwrap();
    assert_eq!(t.0, Token::SimpleIdentifier(num("x")));
    assert!(t.1.expanded_from.is_some());
    let u = forj_parser::preprocess::preprocess_single(&mut src, &mut state).unwrap().unwrap();
    assert_eq!(u.0, Token::SimpleIdentifier(num("y")));
}
