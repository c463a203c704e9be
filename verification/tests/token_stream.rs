use forj_parser::{Span, SpannedToken, Token, TokenIterator};

fn tok(t: Token, start: usize) -> SpannedToken {
    SpannedToken(t, Span { file: 0, start, end: start + 1, expanded_from: None, included_from: None })
}

#[test]
fn prepended_tokens_come_first_in_order() {
    let mut it = TokenIterator::new(vec![tok(Token::Plus, 0), tok(Token::Minus, 1)]);
    assert_eq!(it.len(), 2);
    it.prepend_tokens(vec![tok(Token::Star, 5), tok(Token::Slash, 6)]);
    assert_eq!(it.peek().map(|t| t.1.start), Some(5));
    let order: Vec<Token> = std::iter::from_fn(|| it.next()).map(|t| t.0).collect();
    assert_eq!(order, vec![Token::Star, Token::Slash, Token::Plus, Token::Minus]);
    assert!(it.peek().is_none());
    assert!(it.next().is_none());
}

#[test]
fn prepend_one_token() {
    let mut it = TokenIterator::new(vec![tok(Token::Plus, 0)]);
    it.prepend_token(tok(Token::Comma, 3));
    assert_eq!(it.next().unwrap().0, Token::Comma);
    assert_eq!(it.next().unwrap().0, Token::Plus);
}
