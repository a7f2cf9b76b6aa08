//! Front end for a small SQL dialect: a lexer that turns source text into
//! located tokens, and recursive-descent parsers for `CREATE TABLE`,
//! `INSERT` and `SELECT` statements, with an in-memory table store that runs
//! them.

pub mod cursor;
pub mod error;
pub mod lex_error;
pub mod lexer;
pub mod text;
pub mod token;
pub mod ast;
pub mod laws;
pub mod database;
pub mod table;
pub mod round_trip;
