use vstd::prelude::*;
use crate::ast::{CreateStatement, CreateView, InsertStatement, InsertView, SelectStatement, SelectView};
use crate::table::{Cell, MemoryError, QueryError};
use crate::token::{KeywordType, Token, TokenKind};

verus! {

/// A store that runs statements.
pub trait Database: Sized {
    /// Running `query` on `before` may leave `after` and return `r`.
    spec fn query_outcome(
        before: Self,
        query: Seq<char>,
        after: Self,
        r: Result<Option<QueryResult>, QueryError>,
    ) -> bool;

    /// Running `s` on `before` may leave `after` and return `r`.
    spec fn create_outcome(before: Self, s: CreateView, after: Self, r: Result<(), MemoryError>) -> bool;

    /// Running `s` on `before` may leave `after` and return `r`.
    spec fn insert_outcome(before: Self, s: InsertView, after: Self, r: Result<(), MemoryError>) -> bool;

    /// Running `s` on `db` may return `r`.
    spec fn select_outcome(db: Self, s: SelectView, r: Result<QueryResult, MemoryError>) -> bool;

    /// Lexes and parses `query`, then runs the statement it holds.
    fn run_query(&mut self, query: &str) -> (r: Result<Option<QueryResult>, QueryError>)
        ensures
            Self::query_outcome(*old(self), query@, *final(self), r),
    ;

    fn create_table(&mut self, create_statement: CreateStatement) -> (r: Result<(), MemoryError>)
        ensures
            Self::create_outcome(*old(self), create_statement@, *final(self), r),
    ;

    fn insert(&mut self, insert_statement: InsertStatement) -> (r: Result<(), MemoryError>)
        ensures
            Self::insert_outcome(*old(self), insert_statement@, *final(self), r),
    ;

    fn select(&self, select_statement: SelectStatement) -> (r: Result<QueryResult, MemoryError>)
        ensures
            Self::select_outcome(*self, select_statement@, r),
    ;
}

/// The columns and rows that a `SELECT` produced.
#[derive(Debug)]
pub struct QueryResult {
    pub columns: Vec<Column>,
    pub rows: Vec<Vec<Cell>>,
}

/// The type of a column's cells.
#[derive(Clone, Copy, Debug, PartialEq, Eq, Structural)]
pub enum CellType {
    Int,
    Text,
}

impl Default for CellType {
    fn default() -> (r: Self)
        ensures
            r == CellType::Text,
    {
        CellType::Text
    }
}

/// The cell type that a type keyword names.
pub open spec fn type_of_kind(k: TokenKind) -> Option<CellType> {
    match k {
        TokenKind::Keyword(KeywordType::Int) => Some(CellType::Int),
        TokenKind::Keyword(KeywordType::Text) => Some(CellType::Text),
        _ => None,
    }
}

impl CellType {
    /// The type that `token` names, or `InvalidType` with its text.
    pub fn parse_token(token: &Token) -> (r: Result<Self, MemoryError>)
        ensures
            match type_of_kind(token.kind) {
                Some(t) => r == Ok::<CellType, MemoryError>(t),
                None => r matches Err(MemoryError::InvalidType(v)) && v@ == token.value@,
            },
    {
        match token.kind {
            TokenKind::Keyword(KeywordType::Int) => Ok(CellType::Int),
            TokenKind::Keyword(KeywordType::Text) => Ok(CellType::Text),
            _ => Err(MemoryError::InvalidType(token.value.clone())),
        }
    }
}

/// A column of a stored table.
#[derive(Debug)]
pub struct Column {
    pub name: String,
    pub column_type: CellType,
}

impl Column {
    /// The stored column for a column of `CREATE TABLE`.
    pub fn parse_token(ast_column: &crate::ast::Column) -> (r: Result<Self, MemoryError>)
        ensures
            match type_of_kind(ast_column.data_type.kind) {
                Some(t) => r matches Ok(c) && c.name@ == ast_column.name.value@ && c.column_type
                    == t,
                None => r matches Err(MemoryError::InvalidType(v)) && v@
                    == ast_column.data_type.value@,
            },
    {
        match CellType::parse_token(&ast_column.data_type) {
            Ok(column_type) => Ok(Column { name: ast_column.name.value.clone(), column_type }),
            Err(e) => Err(e),
        }
    }
}

} // verus!
