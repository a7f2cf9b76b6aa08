use minisql::ast::{CreateStatement, ErrorKind, InsertStatement, Parsable, SelectStatement};
use minisql::lexer::lex;
use minisql::token::{KeywordType, TokenKind};

fn insert(source: &str) -> Result<Option<InsertStatement>, minisql::ast::ParseError> {
    InsertStatement::from_tokens(&lex(source).unwrap())
}

fn select(source: &str) -> Result<Option<SelectStatement>, minisql::ast::ParseError> {
    SelectStatement::from_tokens(&lex(source).unwrap())
}

fn create(source: &str) -> Result<Option<CreateStatement>, minisql::ast::ParseError> {
    CreateStatement::from_tokens(&lex(source).unwrap())
}

fn insert_error(source: &str) -> (ErrorKind, String) {
    let e = insert(source).unwrap_err();
    (e.error_kind, e.token.value)
}

fn select_error(source: &str) -> (ErrorKind, String) {
    let e = select(source).unwrap_err();
    (e.error_kind, e.token.value)
}

fn create_error(source: &str) -> (ErrorKind, String) {
    let e = create(source).unwrap_err();
    (e.error_kind, e.token.value)
}

#[test]
fn create_statement_scenario() {
    let stmt = create("create table mytable (id text , name text)").unwrap().unwrap();
    assert_eq!(stmt.name.value, "mytable");
    assert_eq!(stmt.cols.len(), 2);
    assert_eq!(stmt.cols[0].name.value, "id");
    assert_eq!(stmt.cols[0].data_type.kind, TokenKind::Keyword(KeywordType::Text));
    assert_eq!(stmt.cols[1].name.value, "name");
    assert_eq!(stmt.cols[1].data_type.kind, TokenKind::Keyword(KeywordType::Text));
    assert!(!stmt.cols[0].is_primary_key);
}

#[test]
fn insert_statement_string_values() {
    let stmt = insert("insert into mytable values ('one' , 'two')").unwrap().unwrap();
    assert_eq!(stmt.table.value, "mytable");
    let values: Vec<String> = stmt.values.iter().map(|t| t.value.clone()).collect();
    assert_eq!(values, vec!["'one'", "'two'"]);
    assert_eq!(stmt.values[0].kind, TokenKind::String);
}

#[test]
fn table_name_must_be_identifier() {
    assert_eq!(insert_error("insert into 5 values (1)"), (ErrorKind::MissingTableName, "5".to_string()));
    assert_eq!(create_error("create table 'x' (a int)"), (ErrorKind::MissingTableName, "'x'".to_string()));
}

#[test]
fn insert_statement_scenario() {
    let stmt = insert("insert into mytable values (one , 2)").unwrap().unwrap();
    assert_eq!(stmt.table.value, "mytable");
    let values: Vec<String> = stmt.values.iter().map(|t| t.value.clone()).collect();
    assert_eq!(values, vec!["one", "2"]);
}

#[test]
fn select_statement_scenario() {
    let stmt = select("select something as somethingelse from sometable").unwrap().unwrap();
    assert_eq!(stmt.table_name.value, "sometable");
    assert_eq!(stmt.items.len(), 1);
    assert_eq!(stmt.items[0].name.value, "something");
    assert_eq!(stmt.items[0].as_name.as_ref().unwrap().value, "somethingelse");
}

#[test]
fn select_without_comma() {
    assert_eq!(select_error("select a b from t"), (ErrorKind::ExpectedComma, "b".to_string()));
}

#[test]
fn create_with_invalid_type() {
    assert_eq!(create_error("create table t (id foo)"), (ErrorKind::InvalidType, "foo".to_string()));
}

#[test]
fn other_statement_is_none() {
    assert!(select("insert into t values (a)").unwrap().is_none());
    assert!(create("select a from t").unwrap().is_none());
    assert!(insert("create table t (a int)").unwrap().is_none());
    assert!(SelectStatement::from_tokens(&[]).unwrap().is_none());
}

#[test]
fn insert_errors() {
    assert_eq!(insert_error("insert mytable"), (ErrorKind::MissingIntoKeyword, "mytable".to_string()));
    assert_eq!(insert_error("insert into"), (ErrorKind::MissingTableName, String::new()));
    assert_eq!(insert_error("insert into t (a)"), (ErrorKind::MissingValuesKeyword, "(".to_string()));
    assert_eq!(insert_error("insert into t values a"), (ErrorKind::MissingLeftParen, "a".to_string()));
    assert_eq!(insert_error("insert into t values (a"), (ErrorKind::MissingRightParens, String::new()));
    assert_eq!(insert_error("insert into t values (a ;"), (ErrorKind::MissingRightParens, ";".to_string()));
}

#[test]
fn insert_skips_commas() {
    let stmt = insert("insert into t values (, a,, 1 b)").unwrap().unwrap();
    let values: Vec<String> = stmt.values.iter().map(|t| t.value.clone()).collect();
    assert_eq!(values, vec!["a", "1", "b"]);
    let stmt = insert("insert into t values ()").unwrap().unwrap();
    assert!(stmt.values.is_empty());
}

#[test]
fn select_errors() {
    assert_eq!(select_error("select as from t"), (ErrorKind::UnexpectedAsKeyword, "as".to_string()));
    assert_eq!(select_error("select a as"), (ErrorKind::ExpectedNameAfterAs, String::new()));
    assert_eq!(select_error("select a"), (ErrorKind::MissingTableName, String::new()));
    assert_eq!(select_error("select a from"), (ErrorKind::MissingTableName, String::new()));
    assert_eq!(select_error("select a ; t"), (ErrorKind::MissingTableName, ";".to_string()));
}

#[test]
fn select_several_items() {
    let stmt = select("select a, 2 as two, c from t").unwrap().unwrap();
    assert_eq!(stmt.items.len(), 3);
    assert_eq!(stmt.items[1].name.value, "2");
    assert_eq!(stmt.items[1].as_name.as_ref().unwrap().value, "two");
    assert!(stmt.items[2].as_name.is_none());
    assert_eq!(stmt.table_name.value, "t");
}

#[test]
fn create_errors() {
    assert_eq!(create_error("create t"), (ErrorKind::ExpectedTableNameAfterCreate, "t".to_string()));
    assert_eq!(create_error("create table"), (ErrorKind::MissingTableName, String::new()));
    assert_eq!(create_error("create table t"), (ErrorKind::MissingLeftParen, String::new()));
    assert_eq!(create_error("create table t ("), (ErrorKind::MissingRightParens, String::new()));
    assert_eq!(create_error("create table t (id"), (ErrorKind::ExpectedColumnType, String::new()));
    assert_eq!(create_error("create table t (id int"), (ErrorKind::MissingRightParens, String::new()));
    assert_eq!(
        create_error("create table t (id int ;"),
        (ErrorKind::ExpectedCommaOrRightParen, ";".to_string())
    );
}

#[test]
fn names_survive_parsing_case_folded() {
    let stmt = create("create table Users (ID int, Name text)").unwrap().unwrap();
    assert_eq!(stmt.name.value, "users");
    assert_eq!(stmt.cols[0].name.value, "id");
    assert_eq!(stmt.cols[1].name.value, "name");
    let stmt = insert("insert into Users values (Bob, 7)").unwrap().unwrap();
    assert_eq!(stmt.table.value, "users");
    assert_eq!(stmt.values[0].value, "bob");
    let stmt = select("select Name as N from Users").unwrap().unwrap();
    assert_eq!(stmt.items[0].name.value, "name");
    assert_eq!(stmt.items[0].as_name.as_ref().unwrap().value, "n");
    assert_eq!(stmt.table_name.value, "users");
}
