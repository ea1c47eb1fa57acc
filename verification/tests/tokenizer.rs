use minicc::error::CompilerStage;
use minicc::token::Token;
use minicc::tokenizer::parse_compound_token;
use minicc::tokenizer::parse_literal_token;
use minicc::tokenizer::string_tokenizer;
use minicc::tokenizer::tokenize_lines;
use minicc::tokenizer::try_parse_simple_token;

#[test]
fn tokens_of_simple_source() {
    let tokens = string_tokenizer("int main(){ return 2; }").unwrap();
    assert_eq!(
        tokens,
        vec![
            Token::Int,
            Token::Identifier("main".to_string()),
            Token::OpenParenthesis,
            Token::CloseParenthesis,
            Token::OpenBrace,
            Token::Return,
            Token::Integer(2),
            Token::SemiColon,
            Token::CloseBrace,
        ]
    );
}

#[test]
fn keywords_are_not_identifiers() {
    assert_eq!(string_tokenizer("return").unwrap(), vec![Token::Return]);
    assert_eq!(string_tokenizer("int").unwrap(), vec![Token::Int]);
    assert_eq!(
        string_tokenizer("returnx").unwrap(),
        vec![Token::Identifier("returnx".to_string())]
    );
}

#[test]
fn word_starting_with_digits_is_integer() {
    // the whole word is consumed, the literal is read from its digit prefix
    assert_eq!(string_tokenizer("12ab").unwrap(), vec![Token::Integer(12)]);
}

#[test]
fn identifier_with_trailing_digits() {
    assert_eq!(
        string_tokenizer("ab12").unwrap(),
        vec![Token::Identifier("ab12".to_string())]
    );
}

#[test]
fn compound_operators_win_over_simple_ones() {
    let tokens = string_tokenizer("&& || == != <= >= < > = !").unwrap();
    assert_eq!(
        tokens,
        vec![
            Token::And,
            Token::Or,
            Token::Equal,
            Token::NotEqual,
            Token::LessThanOrEqual,
            Token::GreaterThanOrEqual,
            Token::LessThan,
            Token::GreaterThan,
            Token::Assignment,
            Token::LogicalNegation,
        ]
    );
}

#[test]
fn whitespace_is_skipped() {
    assert_eq!(
        string_tokenizer(" \t 1 \r\n + \t2 ").unwrap(),
        vec![Token::Integer(1), Token::Addition, Token::Integer(2)]
    );
}

#[test]
fn empty_input_yields_no_tokens() {
    assert_eq!(string_tokenizer("").unwrap(), Vec::<Token>::new());
}

#[test]
fn unidentifiable_character_is_lex_error() {
    let err = string_tokenizer("int a = $;").unwrap_err();
    assert_eq!(err.stage(), CompilerStage::Lexer);
    assert_eq!(err.message(), "unidentifiable character $");
}

#[test]
fn largest_literal_fits() {
    assert_eq!(
        string_tokenizer("2147483647").unwrap(),
        vec![Token::Integer(2147483647)]
    );
}

#[test]
fn oversized_literal_is_lex_error() {
    let err = string_tokenizer("2147483648").unwrap_err();
    assert_eq!(err.stage(), CompilerStage::Lexer);
    assert_eq!(err.message(), "integer literal out of range");
}

#[test]
fn literal_token_reads_leading_word_only() {
    let (tok, inc) = parse_literal_token("foo(bar").unwrap();
    assert_eq!(tok, Some(Token::Identifier("foo".to_string())));
    assert_eq!(inc, 3);
    let (tok, inc) = parse_literal_token("(foo").unwrap();
    assert_eq!(tok, None);
    assert_eq!(inc, 0);
}

#[test]
fn compound_token_needs_exactly_a_known_pair() {
    assert_eq!(parse_compound_token(Some("&&")), (Some(Token::And), 2));
    assert_eq!(parse_compound_token(Some(">=")), (Some(Token::GreaterThanOrEqual), 2));
    assert_eq!(parse_compound_token(Some("ab")), (None, 0));
    assert_eq!(parse_compound_token(Some("&")), (None, 0));
    assert_eq!(parse_compound_token(None), (None, 0));
}

#[test]
fn simple_token_classification() {
    assert_eq!(try_parse_simple_token('{').unwrap(), (Some(Token::OpenBrace), 1));
    assert_eq!(try_parse_simple_token('-').unwrap(), (Some(Token::Negation), 1));
    assert_eq!(try_parse_simple_token(' ').unwrap(), (None, 1));
    let err = try_parse_simple_token('$').unwrap_err();
    assert_eq!(err.stage(), CompilerStage::Lexer);
    assert_eq!(err.message(), "unidentifiable character $");
}

#[test]
fn lines_are_tokenized_in_order() {
    let lines = vec![
        "int main(){".to_string(),
        "return 3;".to_string(),
        "}".to_string(),
    ];
    let tokens = tokenize_lines(&lines).unwrap();
    assert_eq!(tokens, string_tokenizer("int main(){ return 3; }").unwrap());
}

#[test]
fn line_error_aborts_tokenizing() {
    let lines = vec!["int a;".to_string(), "a # 1;".to_string()];
    let err = tokenize_lines(&lines).unwrap_err();
    assert_eq!(err.stage(), CompilerStage::Lexer);
    assert_eq!(err.message(), "unidentifiable character #");
}
