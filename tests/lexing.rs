use minisql::cursor::{Cursor, Location};
use minisql::lex_error::ErrorKind;
use minisql::lexer::{lex, lex_numeric, lex_string, lex_symbol};
use minisql::token::{KeywordType, SymbolType, Token, TokenKind};

fn values(tokens: &[Token]) -> Vec<String> {
    tokens.iter().map(|t| t.value.clone()).collect()
}

#[test]
fn lex_takes_whole_numbers() {
    for source in ["226", "1e-21", "1.1e32"] {
        let tokens = lex(source).unwrap();
        assert_eq!(tokens.len(), 1);
        assert_eq!(tokens[0].value, source);
        assert_eq!(tokens[0].kind, TokenKind::Numeric);
    }
}

#[test]
fn lex_splits_number_from_identifier() {
    let tokens = lex("1a1").unwrap();
    assert_eq!(values(&tokens), vec!["1", "a1"]);
    assert_eq!(tokens[0].kind, TokenKind::Numeric);
    assert_eq!(tokens[1].kind, TokenKind::Identifier);
    assert_eq!(tokens[1].loc, Location { line: 0, column: 1 });
}

#[test]
fn numeric_sign_only_after_exponent() {
    let (token, delta) = lex_numeric("1.5e+3x").unwrap();
    assert_eq!(token.value, "1.5e+3");
    assert_eq!(delta.pointer, 6);
    let (token, _) = lex_numeric("1+2").unwrap();
    assert_eq!(token.value, "1");
}

#[test]
fn numeric_rejects_period_after_exponent() {
    assert!(lex_numeric("1e5.3").is_none());
    assert!(lex_numeric("e8").is_none());
    assert!(lex_numeric("1ee7").is_none());
    assert!(lex_numeric("1..").is_none());
}

#[test]
fn lex_rejects_unterminated_string() {
    let err = lex("'aabb").unwrap_err();
    assert_eq!(err.kind, ErrorKind::InvalidToken);
    assert_eq!(err.location, Location { line: 0, column: 0 });
}

#[test]
fn lex_string_then_unclosed_string() {
    let (token, _) = lex_string("'as' 'df''").unwrap();
    assert_eq!(token.value, "'as'");
    assert_eq!(token.kind, TokenKind::String);
    let err = lex("'as' 'df''").unwrap_err();
    assert_eq!(err.kind, ErrorKind::InvalidToken);
    assert_eq!(err.location, Location { line: 0, column: 5 });
    let tokens = lex("'as' 'df'''").unwrap();
    assert_eq!(values(&tokens), vec!["'as'", "'df'''"]);
}

#[test]
fn string_with_escaped_quote() {
    let (token, delta) = lex_string("'it''s' x").unwrap();
    assert_eq!(token.value, "'it''s'");
    assert_eq!(delta.pointer, 7);
}

#[test]
fn lex_keyword_prefix_wins() {
    let tokens = lex("selectasdf").unwrap();
    assert_eq!(values(&tokens), vec!["select", "as", "df"]);
    assert_eq!(tokens[0].kind, TokenKind::Keyword(KeywordType::Select));
    assert_eq!(tokens[1].kind, TokenKind::Keyword(KeywordType::As));
    assert_eq!(tokens[2].kind, TokenKind::Identifier);
    let tokens = lex("selectable").unwrap();
    assert_eq!(values(&tokens), vec!["select", "able"]);
}

#[test]
fn lex_into_before_int() {
    let tokens = lex("into int").unwrap();
    assert_eq!(tokens[0].kind, TokenKind::Keyword(KeywordType::Into));
    assert_eq!(tokens[1].kind, TokenKind::Keyword(KeywordType::Int));
}

#[test]
fn identifiers_fold_to_lower_case() {
    let tokens = lex("SELECT My_Col").unwrap();
    assert_eq!(values(&tokens), vec!["select", "my_col"]);
    assert_eq!(tokens[0].kind, TokenKind::Identifier);
}

#[test]
fn two_character_symbols() {
    let tokens = lex("a<=b>=c<d").unwrap();
    assert_eq!(values(&tokens), vec!["a", "<=", "b", ">=", "c", "<", "d"]);
    assert_eq!(tokens[1].kind, TokenKind::Symbol(SymbolType::Lte));
    assert_eq!(tokens[3].kind, TokenKind::Symbol(SymbolType::Gte));
    assert_eq!(tokens[5].kind, TokenKind::Symbol(SymbolType::Lt));
}

#[test]
fn newline_moves_to_next_line() {
    let (token, delta) = lex_symbol("\nx").unwrap();
    assert_eq!(token.kind, TokenKind::Symbol(SymbolType::Endl));
    assert_eq!(delta, Cursor { pointer: 1, loc: Location { line: 1, column: 0 } });
    let tokens = lex("select a\nfrom t").unwrap();
    assert_eq!(values(&tokens), vec!["select", "a", "\n", "from", "t"]);
    assert_eq!(tokens[1].loc, Location { line: 0, column: 7 });
    assert_eq!(tokens[3].loc, Location { line: 1, column: 0 });
    assert_eq!(tokens[4].loc, Location { line: 1, column: 5 });
}

#[test]
fn lex_error_location() {
    let err = lex("a $").unwrap_err();
    assert_eq!(err.kind, ErrorKind::InvalidToken);
    assert_eq!(err.location, Location { line: 0, column: 2 });
    let err = lex("a\n  #").unwrap_err();
    assert_eq!(err.location, Location { line: 1, column: 2 });
}

#[test]
fn lex_empty_and_spaces() {
    assert!(lex("").unwrap().is_empty());
    assert!(lex("   ").unwrap().is_empty());
}

#[test]
fn merge_adds_or_replaces_column() {
    let mut cursor = Cursor { pointer: 3, loc: Location { line: 0, column: 3 } };
    cursor.merge(Cursor { pointer: 2, loc: Location { line: 0, column: 2 } });
    assert_eq!(cursor, Cursor { pointer: 5, loc: Location { line: 0, column: 5 } });
    cursor.merge(Cursor { pointer: 1, loc: Location { line: 1, column: 0 } });
    assert_eq!(cursor, Cursor { pointer: 6, loc: Location { line: 1, column: 0 } });
    cursor.merge(Cursor { pointer: 4, loc: Location { line: 2, column: 3 } });
    assert_eq!(cursor, Cursor { pointer: 10, loc: Location { line: 3, column: 3 } });
}

#[test]
fn keyword_and_symbol_tables() {
    let keywords = KeywordType::values();
    assert_eq!(keywords.len(), 13);
    assert_eq!(keywords[0].value(), "select");
    assert_eq!(keywords[7], KeywordType::Into);
    assert_eq!(keywords[8], KeywordType::Int);
    let symbols = SymbolType::values();
    assert_eq!(symbols.len(), 13);
    assert_eq!(symbols[7].value(), "<=");
    assert_eq!(SymbolType::Tab.value(), "\t");
}

#[test]
fn broken_numbers_do_not_lex() {
    for source in ["1e", "1ee7", "1..", "1e5.3"] {
        let err = lex(source).unwrap_err();
        assert_eq!(err.kind, ErrorKind::InvalidToken);
        assert_eq!(err.location, Location { line: 0, column: 0 });
    }
}

#[test]
fn exponent_without_base_is_an_identifier() {
    let tokens = lex("e8").unwrap();
    assert_eq!(values(&tokens), vec!["e8"]);
    assert_eq!(tokens[0].kind, TokenKind::Identifier);
}

#[test]
fn period_starts_a_number() {
    let tokens = lex(".5 6.").unwrap();
    assert_eq!(values(&tokens), vec![".5", "6."]);
    assert_eq!(tokens[1].loc, Location { line: 0, column: 3 });
}

#[test]
fn lex_single_string() {
    let tokens = lex("'aabbcc'").unwrap();
    assert_eq!(values(&tokens), vec!["'aabbcc'"]);
    assert_eq!(tokens[0].kind, TokenKind::String);
}

#[test]
fn pointer_counts_bytes() {
    let (token, delta) = lex_string("'é' x").unwrap();
    assert_eq!(token.value, "'é'");
    assert_eq!(delta, Cursor { pointer: 4, loc: Location { line: 0, column: 3 } });
    let tokens = lex("'é' ab").unwrap();
    assert_eq!(values(&tokens), vec!["'é'", "ab"]);
    assert_eq!(tokens[1].loc, Location { line: 0, column: 4 });
    let mut cursor = Cursor::start();
    cursor.merge(delta);
    assert_eq!(cursor.pointer, 4);
}

#[test]
fn leading_space_is_skipped() {
    let tokens = lex(" select a").unwrap();
    assert_eq!(values(&tokens), vec!["select", "a"]);
    assert_eq!(tokens[0].loc, Location { line: 0, column: 1 });
    assert_eq!(tokens[1].loc, Location { line: 0, column: 8 });
}
