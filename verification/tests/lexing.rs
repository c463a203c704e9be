use forj_parser::callbacks::{
    block_comment, multiline_string_literal, oneline_comment, preprocessor_multiline_string_literal,
    preprocessor_string_literal, string_literal, text_macro,
};
use forj_parser::lexer::lex;
use forj_parser::number_syntax::{match_complete, match_partial, NumberKind, NumberMatch};
use forj_parser::Token;

fn lexed_kinds(src: &str) -> Vec<Token> {
    lex(src.as_bytes(), 0, &None).into_iter().map(|t| t.0).collect()
}

fn check_lexer(src: &str, expected: Vec<Token>) {
    assert_eq!(lexed_kinds(src), expected);
}

#[test]
fn comments() {
    check_lexer(
        "// This is a single-line comment
        /* This is a block comment */
        /* Block comments
        can be
        on multiple
        lines */",
        vec![
            Token::OnelineComment(b" This is a single-line comment".to_vec()),
            Token::Newline,
            Token::BlockComment(b" This is a block comment ".to_vec()),
            Token::Newline,
            Token::BlockComment(
                b" Block comments
        can be
        on multiple
        lines "
                    .to_vec(),
            ),
        ],
    )
}

#[test]
fn string() {
    check_lexer(
        "\" This is a string \"",
        vec![Token::StringLiteral(b" This is a string ".to_vec())],
    );
    check_lexer(
        "\" This is a \\\n multiline string \"",
        vec![Token::StringLiteral(b" This is a \\\n multiline string ".to_vec())],
    )
}

#[test]
fn multiline_string() {
    check_lexer(
        "\"\"\"This string
        spans multiple
        lines!\"\"\"",
        vec![Token::TripleQuoteStringLiteral(
            b"This string
        spans multiple
        lines!"
                .to_vec(),
        )],
    )
}

#[test]
fn preprocessor_string() {
    check_lexer(
        "`\" This is a preprocessor string `\"",
        vec![Token::PreprocessorStringLiteral(b" This is a preprocessor string ".to_vec())],
    );
    check_lexer(
        "`\" This is a \\\n multiline preprocessor string `\"",
        vec![Token::PreprocessorStringLiteral(
            b" This is a \\\n multiline preprocessor string ".to_vec(),
        )],
    )
}

#[test]
fn preprocessor_multiline_string() {
    check_lexer(
        "`\"\"\"This string \\\n spans multiple \\\n lines!`\"\"\"",
        vec![Token::PreprocessorTripleQuoteStringLiteral(
            b"This string \\\n spans multiple \\\n lines!".to_vec(),
        )],
    )
}

#[test]
fn text_macros() {
    check_lexer(
        "`TEST_MACRO
        `TEST_FUNCTION(ARGA, ARGB)",
        vec![
            Token::TextMacro(b"TEST_MACRO".to_vec()),
            Token::Newline,
            Token::TextMacro(b"TEST_FUNCTION".to_vec()),
            Token::Paren,
            Token::SimpleIdentifier(b"ARGA".to_vec()),
            Token::Comma,
            Token::SimpleIdentifier(b"ARGB".to_vec()),
            Token::EParen,
        ],
    )
}

#[test]
fn unterminated_literals_are_errors() {
    // the callbacks give the end of the input when the closing delimiter
    // is missing
    assert_eq!(string_literal(b"\"abc", 1), Err((4, "Unterminated string literal")));
    assert_eq!(
        multiline_string_literal(b"\"\"\"abc\"\"", 3),
        Err((8, "Unterminated multiline string literal"))
    );
    assert_eq!(
        preprocessor_string_literal(b"`\"abc", 2),
        Err((5, "Unterminated preprocessor string literal"))
    );
    assert_eq!(
        preprocessor_multiline_string_literal(b"`\"\"\"abc", 4),
        Err((7, "Unterminated preprocessor multiline string literal"))
    );
    assert_eq!(block_comment(b"/* abc", 2), Err((6, "Unterminated block comment")));
}

#[test]
fn literal_ends() {
    // each callback gives the position of the closing delimiter
    assert_eq!(string_literal(b"\"abc\" x", 1), Ok(4));
    assert_eq!(string_literal(b"\"a\\\"b\"", 1), Ok(5));
    assert_eq!(multiline_string_literal(b"\"\"\"a\nb\"\"\"", 3), Ok(6));
    assert_eq!(preprocessor_string_literal(b"`\"ab`\"", 2), Ok(4));
    assert_eq!(preprocessor_multiline_string_literal(b"`\"\"\"ab`\"\"\"", 4), Ok(6));
    assert_eq!(block_comment(b"/* a */ b", 2), Ok(5));
    assert_eq!(oneline_comment(b"// a\nb", 2), 4);
    assert_eq!(text_macro(b"`ABC_1 x", 1), 6);
    // a raw line break ends a plain string in error
    assert_eq!(string_literal(b"\"a\nb\"", 1), Err((2, "Unterminated string literal")));
}

#[test]
fn keywords_and_identifiers() {
    check_lexer(
        "module m; endmodule",
        vec![
            Token::Keyword(forj_parser::Keyword::Module),
            Token::SimpleIdentifier(b"m".to_vec()),
            Token::SColon,
            Token::Keyword(forj_parser::Keyword::Endmodule),
        ],
    )
}

#[test]
fn lexed_numbers() {
    check_lexer("3'o1", vec![Token::OctalNumber(b"3'o1".to_vec())]);
    check_lexer("12", vec![Token::UnsignedNumber(b"12".to_vec())]);
    check_lexer("1.5", vec![Token::FixedPointNumber(b"1.5".to_vec())]);
    check_lexer("2e10", vec![Token::ScientificNumber(b"2e10".to_vec())]);
}

#[test]
fn number_matching() {
    // a prefix that can still grow is incomplete
    assert_eq!(match_partial(b"7'h"), NumberMatch::Incomplete);
    assert_eq!(match_partial(b"7'hF"), NumberMatch::Incomplete);
    // once the text cannot grow, the longest number in it is given
    assert_eq!(match_partial(b"7'hF+"), NumberMatch::Matched(NumberKind::Hex, 4));
    assert_eq!(match_partial(b"+"), NumberMatch::NoMatch);
    // at the end of input the longest number is taken
    assert_eq!(match_complete(b"7'hF", 0), NumberMatch::Matched(NumberKind::Hex, 4));
    assert_eq!(match_complete(b"x7'b01", 1), NumberMatch::Matched(NumberKind::Binary, 5));
    assert_eq!(match_complete(b"7'h", 0), NumberMatch::NoMatch);
}

#[test]
fn lexing_picks_the_kind_the_first_bytes_start() {
    // `//` starts a comment, `/*` a block comment, `/` alone is a slash
    check_lexer(
        "a / b /* c */ // d",
        vec![
            Token::SimpleIdentifier(b"a".to_vec()),
            Token::Slash,
            Token::SimpleIdentifier(b"b".to_vec()),
            Token::BlockComment(b" c ".to_vec()),
            Token::OnelineComment(b" d".to_vec()),
        ],
    );
    // a byte that starts no token is an error of one byte; an unclosed
    // block comment is an error to the end
    check_lexer(
        "` x /* y",
        vec![
            Token::Error(b"`".to_vec()),
            Token::SimpleIdentifier(b"x".to_vec()),
            Token::Error(b"/* y".to_vec()),
        ],
    );
    // lexing the same text twice gives the same tokens at the same places
    let text = b"module m; `define W 8 assign x = `W'hFF; endmodule\r\n";
    let a = lex(text, 3, &None);
    let b = lex(text, 3, &None);
    assert_eq!(a.len(), b.len());
    for (x, y) in a.iter().zip(b.iter()) {
        assert_eq!(x.0, y.0);
        assert_eq!((x.1.start, x.1.end), (y.1.start, y.1.end));
    }
}
