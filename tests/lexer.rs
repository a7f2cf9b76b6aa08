use minisql::lexer::{
    lex_char_delimited, lex_identifier, lex_keyword, lex_numeric, lex_symbol,
};
use minisql::token::{KeywordType, SymbolType, TokenKind};

fn test_numeric_lexer(source: &str, should_be_none: bool, expected_result: &str) {
    let received_token = lex_numeric(source);
    assert_eq!(received_token.is_none(), should_be_none);
    if !should_be_none {
        if let Some((token, _)) = received_token {
            assert_eq!(token.value, expected_result);
        }
    }
}

#[test]
fn test_lex_numeric_basic_number() {
    let source = "226";
    test_numeric_lexer(source, false, source);
}

#[test]
fn test_lex_numeric_basic_number_one_digit() {
    let source = "8";
    test_numeric_lexer(source, false, source);
}

#[test]
fn test_lex_numeric_exponential_one_digit() {
    let source = "1e3";
    test_numeric_lexer(source, false, source);
}

#[test]
fn test_lex_numeric_exponential_no_exp() {
    let source = "1e";
    test_numeric_lexer(source, true, source);
}

#[test]
fn test_lex_numeric_exponential_negative() {
    let source = "1e-21";
    test_numeric_lexer(source, false, source);
}

#[test]
fn test_lex_numeric_exponential_floating() {
    let source = "1.1e32";
    test_numeric_lexer(source, false, source);
}

#[test]
fn test_lex_numeric_exponential_floating_negative() {
    let source = "1.42e-321";
    test_numeric_lexer(source, false, source);
}

#[test]
fn test_lex_numeric_floating_1() {
    let source = "1.1";
    test_numeric_lexer(source, false, source);
}

#[test]
fn test_lex_numeric_floating_2() {
    let source = ".1";
    test_numeric_lexer(source, false, source);
}

#[test]
fn test_lex_numeric_floating_3() {
    let source = "6.";
    test_numeric_lexer(source, false, source);
}

#[test]
fn test_lex_numeric_exp_no_base() {
    let source = "e8";
    test_numeric_lexer(source, true, source);
}

#[test]
fn test_lex_numeric_exp_two_exp_marks() {
    let source = "1ee7";
    test_numeric_lexer(source, true, source);
}

#[test]
fn test_lex_numeric_floating_two_points() {
    let source = "1..";
    test_numeric_lexer(source, true, source);
}

#[test]
fn test_lex_numeric_invalid_char() {
    let source = "1a1";
    let expected_result = "1";
    test_numeric_lexer(source, false, expected_result);
}

#[test]
fn test_lex_numeric_basic_whitespace() {
    let source = " 1";
    test_numeric_lexer(source, true, source);
}

#[test]
fn test_lex_numeric_end_with_exp_marker() {
    let source = "1e";
    test_numeric_lexer(source, true, source);
}

#[test]
fn test_lex_delimiter_basic() {
    let source = "'aabbcc'";
    let result = lex_char_delimited(source, '\'');
    assert!(result.is_some());
    if let Some((token, _)) = result {
        assert_eq!(token.value, source);
    }
}

#[test]
fn test_lex_delimiter_no_end() {
    let source = "'aabb";
    let result = lex_char_delimited(source, '\'');
    assert!(result.is_none());
}

#[test]
fn test_lex_delimiter_no_start() {
    let source = "asdf'";
    let result = lex_char_delimited(source, '\'');
    assert!(result.is_none());
}

#[test]
fn test_lex_delimiter_escape() {
    // the final pair of quotes is an escaped quote, so nothing closes the text
    let source = "'asdf''";
    let result = lex_char_delimited(source, '\'');
    assert!(result.is_none());
}

#[test]
fn test_lex_delimiter_delimiter_in_between() {
    let source = "'as' 'df''";
    let result = lex_char_delimited(source, '\'');
    let expected = "'as'";
    assert!(result.is_some());
    if let Some((token, _)) = result {
        assert_eq!(token.value, expected);
    }
}

#[test]
fn test_lex_delimiter_with_space() {
    let source = "'name' from";
    let result = lex_char_delimited(source, '\'');
    let expected = "'name'";
    assert!(result.is_some());
    if let Some((token, _)) = result {
        assert_eq!(token.value, expected);
    }
}

#[test]
fn test_lex_delimiter_delimiter_in_between_2() {
    let source = "'as'x'df''";
    let result = lex_char_delimited(source, '\'');
    let expected = "'as'";
    assert!(result.is_some());
    if let Some((token, _)) = result {
        assert_eq!(token.value, expected);
    }
}

#[test]
fn test_lex_keyword() {
    let source = "into";
    let result = lex_keyword(source);
    assert!(result.is_some());
    if let Some((token, _)) = result {
        assert_eq!(token.value, source);
    }
}

#[test]
fn test_lex_keyword_2() {
    let source = "selectasdf";
    let expected = "select";
    let result = lex_keyword(source);
    assert!(result.is_some());
    if let Some((token, _)) = result {
        assert_eq!(token.value, expected);
        assert_eq!(token.kind, TokenKind::Keyword(KeywordType::Select))
    }
}

#[test]
fn test_lex_keyword_invalid() {
    let source = "Asdf";
    let result = lex_keyword(source);
    assert!(result.is_none());
}

#[test]
fn test_lex_keyword_space_beginning() {
    let source = " select";
    let result = lex_keyword(source);
    assert!(result.is_none());
}

#[test]
fn test_lex_symbol_neq() {
    let source = "!=";
    let result = lex_symbol(source);
    assert!(result.is_some());
    if let Some((token, _)) = result {
        assert_eq!(token.value, source);
        assert_eq!(token.kind, TokenKind::Symbol(SymbolType::Neq));
    }
}

#[test]
fn test_lex_symbol_space_beginning() {
    let source = " !=";
    let result = lex_symbol(source);
    assert!(result.is_none());
}

#[test]
fn test_lex_identifier() {
    let source = "hello";
    let result = lex_identifier(source);
    let (token, _) = result.unwrap();
    assert_eq!(token.value, source);
}

#[test]
fn test_lex_identifier_including_numeric() {
    let source = "he123as";
    let (token, _) = lex_identifier(source).unwrap();
    assert_eq!(token.value, source);
}

#[test]
fn test_lex_identifier_start_with_number() {
    let source = "9hello";
    let result = lex_identifier(source);
    assert!(result.is_none());
}

#[test]
fn test_lex_identifier_start_with_invalid() {
    let source = "$hello";
    let result = lex_identifier(source);
    assert!(result.is_none());
}

#[test]
fn test_lex_identifier_start_with_space() {
    let source = " hello";
    let result = lex_identifier(source);
    assert!(result.is_none());
}
