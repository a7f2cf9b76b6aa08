use minisql::database::{CellType, Database};
use minisql::table::{Memory, MemoryError, QueryError};

#[test]
fn create_insert_select() {
    let mut memory = Memory::default();
    assert!(memory.run_query("create table people (id int, name text)").unwrap().is_none());
    assert!(memory.run_query("insert into people values (1, bob)").unwrap().is_none());
    assert!(memory.run_query("insert into people values (2, amy)").unwrap().is_none());
    let result = memory.run_query("select name as who, id from people").unwrap().unwrap();
    assert_eq!(result.columns.len(), 2);
    assert_eq!(result.columns[0].name, "who");
    assert_eq!(result.columns[1].name, "id");
    assert_eq!(result.columns[1].column_type, CellType::Int);
    assert_eq!(result.rows.len(), 2);
    assert_eq!(result.rows[0][0].value.0, "bob");
    assert_eq!(result.rows[0][0].column_name, "who");
    assert_eq!(result.rows[1][1].value.0, "2");
    assert_eq!(result.rows[1][0].cell_type, CellType::Text);
}

#[test]
fn store_errors() {
    let mut memory = Memory::default();
    assert!(matches!(
        memory.run_query("select a from t"),
        Err(QueryError::Memory(MemoryError::TableNotFound(name))) if name == "t"
    ));
    memory.run_query("create table t (a int)").unwrap();
    assert!(matches!(
        memory.run_query("create table t (b text)"),
        Err(QueryError::Memory(MemoryError::TableAlreadyExists(name))) if name == "t"
    ));
    memory.run_query("insert into t values (5)").unwrap();
    assert!(matches!(
        memory.run_query("select b from t"),
        Err(QueryError::Memory(MemoryError::ColumnNotFound(name))) if name == "b"
    ));
    assert!(matches!(
        memory.run_query("where"),
        Err(QueryError::Memory(MemoryError::QueryNotValid))
    ));
    assert!(matches!(memory.run_query("select $"), Err(QueryError::Lex(_))));
    assert!(matches!(memory.run_query("select a b from t"), Err(QueryError::Parse(_))));
}

#[test]
fn get_table_by_name() {
    let mut memory = Memory::default();
    assert!(matches!(memory.get_table("t"), Err(MemoryError::TableNotFound(_))));
    memory.run_query("create table t (a int)").unwrap();
    let table = memory.get_table("t").unwrap();
    assert_eq!(table.name, "t");
    assert_eq!(table.columns.len(), 1);
    assert!(table.rows.is_empty());
    memory.get_table_mut("t").unwrap().rows.clear();
}
