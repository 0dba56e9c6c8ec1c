use scheme_core::tokenizer::{Block, Mark, Token, Tokenizer, TokenizerError};

fn collect(input: &str) -> Result<Vec<Token>, TokenizerError> {
    let mut tok = Tokenizer::new(input);
    let mut out = Vec::new();
    loop {
        match tok.next() {
            None => return Ok(out),
            Some(Ok(t)) => out.push(t),
            Some(Err(e)) => return Err(e),
        }
    }
}

#[test]
fn whitespace_only_yields_empty_stream() {
    assert_eq!(collect(""), Ok(vec![]));
    assert_eq!(collect("   \t \r\n  "), Ok(vec![]));
    assert_eq!(collect("\n\n"), Ok(vec![]));
}

#[test]
fn comments_count_as_whitespace() {
    assert_eq!(collect("; a comment"), Ok(vec![]));
    assert_eq!(
        collect("; one\n 7 ; two"),
        Ok(vec![Token::Number("7".to_string())])
    );
}

#[test]
fn symbol_followed_by_delimiter_scans_alone() {
    assert_eq!(collect("foo"), Ok(vec![Token::Symbol("foo".to_string())]));
    assert_eq!(
        collect("foo("),
        Ok(vec![
            Token::Symbol("foo".to_string()),
            Token::Block(Block::Start)
        ])
    );
    assert_eq!(
        collect("bar)"),
        Ok(vec![
            Token::Symbol("bar".to_string()),
            Token::Block(Block::End)
        ])
    );
    assert_eq!(collect("baz ;x"), Ok(vec![Token::Symbol("baz".to_string())]));
    assert_eq!(
        collect("a+b-c?!"),
        Ok(vec![Token::Symbol("a+b-c?!".to_string())])
    );
}

#[test]
fn odd_symbols() {
    assert_eq!(collect("+"), Ok(vec![Token::Symbol("+".to_string())]));
    assert_eq!(collect("-"), Ok(vec![Token::Symbol("-".to_string())]));
    assert_eq!(collect("..."), Ok(vec![Token::Symbol("...".to_string())]));
}

#[test]
fn string_literal_keeps_raw_body() {
    assert_eq!(
        collect("\"abc\""),
        Ok(vec![Token::TString("abc".to_string())])
    );
    // Escapes pass through unresolved.
    assert_eq!(
        collect("\"a\\\"b\""),
        Ok(vec![Token::TString("a\\\"b".to_string())])
    );
    assert_eq!(collect("\"\""), Ok(vec![Token::TString(String::new())]));
}

#[test]
fn unterminated_string_is_unexpected_end() {
    assert_eq!(collect("\"abc"), Err(TokenizerError::UnexpectedEndOfFile));
    assert_eq!(collect("\""), Err(TokenizerError::UnexpectedEndOfFile));
    assert_eq!(collect("\"ab\\"), Err(TokenizerError::UnexpectedEndOfFile));
}

#[test]
fn unknown_token_cases() {
    assert_eq!(collect("#x"), Err(TokenizerError::UnknownToken));
    assert_eq!(collect("+a"), Err(TokenizerError::UnknownToken));
    assert_eq!(collect("1a"), Err(TokenizerError::UnknownToken));
    assert_eq!(collect("...."), Err(TokenizerError::UnknownToken));
}

#[test]
fn numbers_with_signs() {
    assert_eq!(collect("123"), Ok(vec![Token::Number("123".to_string())]));
    assert_eq!(collect("+123"), Ok(vec![Token::Number("+123".to_string())]));
    assert_eq!(collect("-123"), Ok(vec![Token::Number("-123".to_string())]));
}

#[test]
fn number_keeps_delimiter_unconsumed() {
    assert_eq!(
        collect("12)"),
        Ok(vec![
            Token::Number("12".to_string()),
            Token::Block(Block::End)
        ])
    );
}

#[test]
fn clipped_tokens_at_end_of_input() {
    assert_eq!(collect(".."), Err(TokenizerError::UnexpectedEndOfFile));
    assert_eq!(collect("#"), Err(TokenizerError::UnexpectedEndOfFile));
}

#[test]
fn dot_quote_and_booleans() {
    assert_eq!(collect("."), Ok(vec![Token::Dot]));
    assert_eq!(collect("'"), Ok(vec![Token::Mark(Mark::Quote)]));
    assert_eq!(collect("#t"), Ok(vec![Token::Bool(true)]));
    assert_eq!(collect("#f"), Ok(vec![Token::Bool(false)]));
}

#[test]
fn scans_simple_form_in_order() {
    assert_eq!(
        collect("(if #t 1 2)"),
        Ok(vec![
            Token::Block(Block::Start),
            Token::Symbol("if".to_string()),
            Token::Bool(true),
            Token::Number("1".to_string()),
            Token::Number("2".to_string()),
            Token::Block(Block::End),
        ])
    );
}

#[test]
fn scanner_stops_at_first_failure() {
    let mut tok = Tokenizer::new("ok #x more");
    assert_eq!(tok.next(), Some(Ok(Token::Symbol("ok".to_string()))));
    assert_eq!(tok.next(), Some(Err(TokenizerError::UnknownToken)));
}
