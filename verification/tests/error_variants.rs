use forj_parser::error::PreprocessorError;
use forj_parser::lexer::lex;
use forj_parser::pragma::{PragmaExpression, PragmaHandler};
use forj_parser::preprocess::preprocess;
use forj_parser::settings::{DefaultNettype, TimeMagnitude, TimeUnit, UnconnectedDrive};
use forj_parser::state::PreprocessorState;
use forj_parser::{Span, SpannedToken, Token};

struct Quiet;

impl PragmaHandler for Quiet {
    fn reset(&mut self) {}
    fn callback(
        &mut self,
        _name: &[u8],
        _name_span: &Span,
        _args: Vec<PragmaExpression>,
        _dest: &mut Vec<SpannedToken>,
    ) {
    }
}

fn run_source(files: &[(&str, &str)]) -> (Result<Vec<SpannedToken>, ()>, PreprocessorState<Quiet>) {
    let mut state: PreprocessorState<Quiet> = PreprocessorState::new(Vec::new());
    let mut last = 0;
    for (name, text) in files {
        last = state.retain_file(name.as_bytes().to_vec(), text.as_bytes().to_vec());
    }
    let toks = lex(&state.files[last].contents, last, &None);
    let r = preprocess(toks, &mut state);
    (r, state)
}

fn errors_of(src: &str) -> (bool, Vec<PreprocessorError>) {
    let (r, state) = run_source(&[("<test>", src)]);
    (r.is_ok(), state.errors)
}

#[test]
fn stray_endif_else_elsif() {
    let (ok, e) = errors_of("`endif\nx");
    assert!(ok);
    assert!(matches!(e[0], PreprocessorError::Endif { .. }));
    let (ok, e) = errors_of("`else\nx");
    assert!(ok);
    assert!(matches!(e[0], PreprocessorError::Else { .. }));
    let (ok, e) = errors_of("`elsif A\nx");
    assert!(ok);
    assert!(matches!(e[0], PreprocessorError::Elsif { .. }));
}

#[test]
fn define_errors() {
    let (_, e) = errors_of("`define `ifdef x\ny");
    assert!(matches!(e[0], PreprocessorError::RedefinedDirective { .. }));
    let (_, e) = errors_of("`define F(1) x\ny");
    assert!(matches!(e[0], PreprocessorError::InvalidDefineParameter { .. }));
    let (_, e) = errors_of("`define F(a = 1\ny");
    assert!(matches!(e[0], PreprocessorError::InvalidDefineArgument { .. }));
    let (_, e) = errors_of("`define F(a, a) a\ny");
    assert!(matches!(e[0], PreprocessorError::DuplicateMacroParameter { .. }));
    let (ok, e) = errors_of("`define");
    assert!(!ok);
    assert!(matches!(e[0], PreprocessorError::IncompleteDefine { .. }));
}

#[test]
fn macro_use_errors() {
    let (_, e) = errors_of("`define F(a) a\n`F x");
    assert!(matches!(e[0], PreprocessorError::NoMacroArguments { .. }));
    let (_, e) = errors_of("`define F(a) a\n`F(1, 2)");
    assert!(matches!(e[0], PreprocessorError::TooManyMacroArguments { .. }));
    let (_, e) = errors_of("`define F(a, b) a b\n`F(1)");
    assert!(matches!(e[0], PreprocessorError::MissingMacroArgument { .. }));
    let (_, e) = errors_of("`define F(a) a\n`F(])\ny");
    assert!(matches!(e[0], PreprocessorError::IncompleteMacroWithToken { .. }));
}

#[test]
fn directive_errors() {
    let (ok, e) = errors_of("`ifdef");
    assert!(!ok);
    assert!(matches!(e[0], PreprocessorError::IncompleteDirective { .. }));
    let (_, e) = errors_of("`begin_keywords \"bogus\"\nx");
    assert!(matches!(e[0], PreprocessorError::InvalidVersionSpecifier { .. }));
    let (_, e) = errors_of("module m; `resetall endmodule");
    assert!(matches!(e[0], PreprocessorError::IllegalInDesignUnit { .. }));
}

#[test]
fn include_nested_too_deeply() {
    let (ok, state) = run_source(&[("self.v", "`include \"self.v\"\n")]);
    assert!(ok.is_ok());
    assert!(state
        .errors
        .iter()
        .any(|e| matches!(e, PreprocessorError::IncludeDepth { .. })));
}

#[test]
fn warnings_do_not_fail() {
    let (ok, e) = errors_of("`define F(module) module\n`undef NEVER\nx");
    assert!(ok);
    assert!(matches!(e[0], PreprocessorError::KeywordDefineParameter { .. }));
    assert!(matches!(e[1], PreprocessorError::NotPreviouslyDefinedMacro { .. }));
}

#[test]
fn budget_runs_out() {
    let mut state: PreprocessorState<Quiet> = PreprocessorState::new(Vec::new());
    let f = state.retain_file(b"<test>".to_vec(), b"`define A `A\n`A".to_vec());
    state.budget = 1000;
    let toks = lex(&state.files[f].contents, f, &None);
    let r = preprocess(toks, &mut state);
    assert!(r.is_err());
    assert!(matches!(state.errors.last().unwrap(), PreprocessorError::StepLimit));
}

#[test]
fn keyword_defined_and_redefined() {
    let (r, state) = run_source(&[("<test>", "`define X 1\n`undef X\n`define X 2\n`X")]);
    let toks: Vec<Token> = r.unwrap().into_iter().map(|t| t.0).collect();
    assert_eq!(toks, vec![Token::UnsignedNumber(b"2".to_vec())]);
    assert!(state.errors.is_empty());
}

#[test]
fn timescale_is_set() {
    let (r, state) = run_source(&[("<test>", "`timescale 10ns / 1ps\nx")]);
    assert!(r.is_ok());
    let (ts, _) = state.settings.timescale.as_ref().unwrap();
    assert_eq!(ts.unit.magnitude, TimeMagnitude::Ten);
    assert_eq!(ts.unit.unit, TimeUnit::Ns);
    assert_eq!(ts.precision.magnitude, TimeMagnitude::One);
    assert_eq!(ts.precision.unit, TimeUnit::Ps);
}

#[test]
fn timescale_precision_coarser_than_unit() {
    let (ok, e) = errors_of("`timescale 1ps / 1ns\nx");
    assert!(ok);
    assert!(matches!(e[0], PreprocessorError::InvalidRelativeTimescales { .. }));
    let (ok, e) = errors_of("`timescale 3ns / 1ps\nx");
    assert!(ok);
    assert!(matches!(e[0], PreprocessorError::VerboseError { .. }));
}

#[test]
fn default_nettype_and_drive() {
    let (r, state) = run_source(&[("<test>", "`default_nettype none\n`unconnected_drive pull1\nx")]);
    assert!(r.is_ok());
    assert_eq!(state.settings.default_nettype, DefaultNettype::NoNet);
    assert_eq!(state.settings.unconnected_drive, Some(UnconnectedDrive::Pull1));
    let (r, state) = run_source(&[(
        "<test>",
        "`default_nettype wand\n`unconnected_drive pull0\n`nounconnected_drive\nx",
    )]);
    assert!(r.is_ok());
    assert_eq!(state.settings.default_nettype, DefaultNettype::Wand);
    assert_eq!(state.settings.unconnected_drive, None);
    let (ok, e) = errors_of("`default_nettype reg\nx");
    assert!(ok);
    assert!(matches!(e[0], PreprocessorError::VerboseError { .. }));
}

#[test]
fn resetall_restores_settings() {
    let (r, state) =
        run_source(&[("<test>", "`timescale 1ns/1ps\n`default_nettype none\n`celldefine\n`resetall\nx")]);
    assert!(r.is_ok());
    assert!(state.settings.timescale.is_none());
    assert_eq!(state.settings.default_nettype, DefaultNettype::Wire);
    assert!(!state.cell_define);
}
