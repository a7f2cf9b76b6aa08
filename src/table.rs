use vstd::prelude::*;
use crate::ast::{
    create_parse, insert_parse, select_parse, ColumnView, CreateStatement, CreateView,
    InsertStatement, InsertView, Parsable, ParseError, SelectItem, SelectItemView, SelectStatement,
    SelectView,
};
use crate::database::{type_of_kind, CellType, Column, Database, QueryResult};
use crate::lex_error::LexError;
use crate::lexer::{lex, lex_spec};
use crate::token::Token;

verus! {

/// The text of one stored cell.
#[derive(Debug)]
pub struct CellValue(pub String);

impl Clone for CellValue {
    fn clone(&self) -> (r: Self)
        ensures
            r == *self,
    {
        CellValue(self.0.clone())
    }
}

impl From<Token> for CellValue {
    fn from(token: Token) -> (r: CellValue) {
        CellValue(token.value)
    }
}

impl vstd::std_specs::convert::FromSpecImpl<Token> for CellValue {
    open spec fn obeys_from_spec() -> bool {
        true
    }

    open spec fn from_spec(token: Token) -> CellValue {
        CellValue(token.value)
    }
}

/// An in-memory store of tables, keyed by name.
///
/// The entries are kept in a `Vec` in order of creation, so that each
/// lookup is the first entry with the name, stated and proved over the
/// entries' sequence. `create_table` refuses a name that is already stored,
/// so no two entries share a name (see [`lemma_query_keeps_keys_unique`]).
pub struct Memory {
    tables: Vec<(String, Table)>,
}

/// A stored table: its columns and its rows of cells.
pub struct Table {
    pub name: String,
    pub columns: Vec<Column>,
    pub rows: Vec<Vec<CellValue>>,
}

/// One cell of a query's result, with the name its column is shown under.
#[derive(Debug)]
pub struct Cell {
    pub value: CellValue,
    pub column_name: String,
    pub cell_type: CellType,
}

/// Why a statement could not run against the store.
#[derive(Debug)]
pub enum MemoryError {
    TableNotFound(String),
    ColumnNotFound(String),
    TableAlreadyExists(String),
    InvalidType(String),
    QueryNotValid,
}

/// Why a query failed: its text does not lex, its statement does not parse,
/// or the store cannot run it.
#[derive(Debug)]
pub enum QueryError {
    Lex(LexError),
    Parse(ParseError),
    Memory(MemoryError),
}

/// The index of the first entry from `i` on whose key is `name`.
pub open spec fn find_table(entries: Seq<(String, Table)>, name: Seq<char>, i: int) -> Option<int>
    decreases entries.len() - i,
{
    if i < 0 || i >= entries.len() {
        None
    } else if entries[i].0@ == name {
        Some(i)
    } else {
        find_table(entries, name, i + 1)
    }
}

proof fn lemma_find_table(entries: Seq<(String, Table)>, name: Seq<char>, i: int)
    requires
        0 <= i,
    ensures
        find_table(entries, name, i) matches Some(j) ==> i <= j < entries.len(),
        find_table(entries, name, i) is None ==> forall|j: int|
            i <= j < entries.len() ==> (#[trigger] entries[j]).0@ != name,
    decreases entries.len() - i,
{
    if i < entries.len() && entries[i].0@ != name {
        lemma_find_table(entries, name, i + 1);
    }
}

/// No two entries of `m` share a name.
pub open spec fn keys_unique(m: Memory) -> bool {
    forall|i: int, j: int|
        0 <= i < j < m.entries().len() ==> (#[trigger] m.entries()[i]).0@ != (#[trigger] m.entries()[j]).0@
}

/// Whatever a query does to a store whose table names are unique, they stay
/// unique: `CREATE TABLE` adds a name only where none is stored under it,
/// and nothing else adds, removes or renames an entry.
pub proof fn lemma_query_keeps_keys_unique(
    before: Memory,
    query: Seq<char>,
    after: Memory,
    r: Result<Option<QueryResult>, QueryError>,
)
    requires
        keys_unique(before),
        Memory::query_outcome(before, query, after, r),
    ensures
        keys_unique(after),
{
    if let Ok(ts) = lex_spec(query) {
        if insert_parse(ts) is Ok && select_parse(ts) is Ok && create_parse(ts) is Ok {
            if insert_parse(ts)->Ok_0 is Some {
                let s = insert_parse(ts)->Ok_0->0;
                lemma_find_table(before.entries(), s.table.value, 0);
                if let Some(i) = find_table(before.entries(), s.table.value, 0) {
                    assert forall|a: int, b: int|
                        0 <= a < b < after.entries().len() implies (#[trigger] after.entries()[a]).0@
                            != (#[trigger] after.entries()[b]).0@ by {
                        assert(after.entries()[a].0 == before.entries()[a].0);
                        assert(after.entries()[b].0 == before.entries()[b].0);
                    }
                }
            } else if select_parse(ts)->Ok_0 is None && create_parse(ts)->Ok_0 is Some {
                let s = create_parse(ts)->Ok_0->0;
                lemma_find_table(before.entries(), s.name.value, 0);
                if find_table(before.entries(), s.name.value, 0) is None && first_bad_type(
                    s.cols,
                    0,
                ) is None {
                    let e = after.entries();
                    assert forall|a: int, b: int|
                        0 <= a < b < e.len() implies (#[trigger] e[a]).0@ != (#[trigger] e[b]).0@ by {
                        assert(e[a] == e.drop_last()[a]);
                        if b < e.len() - 1 {
                            assert(e[b] == e.drop_last()[b]);
                        } else {
                            assert(before.entries()[a] == e[a]);
                        }
                    }
                }
            }
        }
    }
}

/// The index of the first column from `i` on named `name`.
pub open spec fn find_column(cols: Seq<Column>, name: Seq<char>, i: int) -> Option<int>
    decreases cols.len() - i,
{
    if i < 0 || i >= cols.len() {
        None
    } else if cols[i].name@ == name {
        Some(i)
    } else {
        find_column(cols, name, i + 1)
    }
}

/// The index of the column that `item` selects from `t`.
pub open spec fn column_index(t: Table, item: SelectItemView) -> Option<int> {
    find_column(t.columns@, item.name.value, 0)
}

/// The name a selected column is shown under: its alias, if it has one.
pub open spec fn shown_name(item: SelectItemView, column_name: Seq<char>) -> Seq<char> {
    match item.as_name {
        Some(a) => a.value,
        None => column_name,
    }
}

/// `c` is the column that `item` selects from `t`, shown under its alias.
pub open spec fn is_shown_column(t: Table, item: SelectItemView, c: Column) -> bool {
    column_index(t, item) matches Some(ci) && c.name@ == shown_name(item, t.columns@[ci].name@)
        && c.column_type == t.columns@[ci].column_type
}

/// `cell` is the cell of row `row` of `t` in the column that `item` selects.
pub open spec fn is_shown_cell(t: Table, item: SelectItemView, row: int, cell: Cell) -> bool {
    column_index(t, item) matches Some(ci) && ci < t.rows@[row]@.len() && cell.value
        == t.rows@[row]@[ci] && cell.column_name@ == shown_name(item, t.columns@[ci].name@)
        && cell.cell_type == t.columns@[ci].column_type
}

/// Every item names a column of `t` that every row has a cell in.
pub open spec fn selectable(t: Table, items: Seq<SelectItemView>) -> bool {
    &&& forall|k: int| 0 <= k < items.len() ==> (#[trigger] column_index(t, items[k])) is Some
    &&& forall|k: int, r: int|
        0 <= k < items.len() && 0 <= r < t.rows@.len() ==> #[trigger] has_cell(t, items[k], r)
}

/// Row `r` of `t` has a cell in the column that `item` selects.
pub open spec fn has_cell(t: Table, item: SelectItemView, r: int) -> bool {
    column_index(t, item) matches Some(ci) && ci < t.rows@[r]@.len()
}

/// `q` holds, for each row of `t`, the cells of the selected columns, and
/// the selected columns under their aliases.
pub open spec fn is_result_for(t: Table, items: Seq<SelectItemView>, q: QueryResult) -> bool {
    &&& q.columns@.len() == items.len()
    &&& forall|k: int| 0 <= k < items.len() ==> is_shown_column(t, items[k], #[trigger] q.columns@[k])
    &&& q.rows@.len() == t.rows@.len()
    &&& forall|r: int| 0 <= r < t.rows@.len() ==> (#[trigger] q.rows@[r])@.len() == items.len()
    &&& forall|r: int, k: int|
        0 <= r < t.rows@.len() && 0 <= k < items.len() ==> is_shown_cell(
            t,
            items[k],
            r,
            #[trigger] q.rows@[r]@[k],
        )
}

/// The index of the first column from `i` on whose type token names no type.
pub open spec fn first_bad_type(cols: Seq<ColumnView>, i: int) -> Option<int>
    decreases cols.len() - i,
{
    if i < 0 || i >= cols.len() {
        None
    } else if type_of_kind(cols[i].data_type.kind) is None {
        Some(i)
    } else {
        first_bad_type(cols, i + 1)
    }
}

/// `t` is the empty table that `s` creates.
pub open spec fn is_table_for(t: Table, s: CreateView) -> bool {
    &&& t.name@ == s.name.value
    &&& t.rows@.len() == 0
    &&& t.columns@.len() == s.cols.len()
    &&& forall|i: int|
        0 <= i < t.columns@.len() ==> (#[trigger] t.columns@[i]).name@ == s.cols[i].name.value
            && type_of_kind(s.cols[i].data_type.kind) == Some(t.columns@[i].column_type)
}

/// `row` holds the values' texts, in order.
pub open spec fn is_row_of(row: Seq<CellValue>, values: Seq<crate::token::TokenView>) -> bool {
    row.len() == values.len() && forall|k: int| 0 <= k < row.len() ==> (#[trigger] row[k]).0@ == values[k].value
}

impl Table {
    /// Adds `row` after the last row.
    pub fn insert_row(&mut self, row: Vec<CellValue>)
        ensures
            final(self).rows@ == old(self).rows@.push(row),
            final(self).name == old(self).name,
            final(self).columns == old(self).columns,
    {
        self.rows.push(row)
    }

    /// The column that `select_item` names, shown under its alias, and its
    /// index.
    pub fn get_column_from_select_item(&self, select_item: &SelectItem) -> (r: Result<
        (Column, usize),
        MemoryError,
    >)
        ensures
            match column_index(*self, select_item@) {
                Some(ci) => r matches Ok((c, j)) && j == ci && is_shown_column(*self, select_item@, c),
                None => r matches Err(MemoryError::ColumnNotFound(n)) && n@
                    == select_item.name.value@,
            },
    {
        let mut i: usize = 0;
        while i < self.columns.len()
            invariant
                0 <= i <= self.columns@.len(),
                column_index(*self, select_item@) == find_column(
                    self.columns@,
                    select_item.name.value@,
                    i as int,
                ),
            decreases self.columns@.len() - i,
        {
            let column = &self.columns[i];
            if column.name == select_item.name.value {
                let name = match &select_item.as_name {
                    Some(t) => t.value.clone(),
                    None => column.name.clone(),
                };
                return Ok((Column { name, column_type: column.column_type }, i));
            }
            i = i + 1;
        }
        Err(MemoryError::ColumnNotFound(select_item.name.value.clone()))
    }

    /// The cell of row `row_index` in the column that `select_item` names.
    pub fn get_cell(&self, select_item: &SelectItem, row_index: usize) -> (r: Result<Cell, MemoryError>)
        requires
            row_index < self.rows@.len(),
        ensures
            match column_index(*self, select_item@) {
                Some(ci) => if ci < self.rows@[row_index as int]@.len() {
                    r matches Ok(c) && is_shown_cell(*self, select_item@, row_index as int, c)
                } else {
                    r matches Err(MemoryError::ColumnNotFound(n)) && n@ == select_item.name.value@
                },
                None => r matches Err(MemoryError::ColumnNotFound(n)) && n@
                    == select_item.name.value@,
            },
    {
        let (column, col_index) = match self.get_column_from_select_item(select_item) {
            Ok(found) => found,
            Err(e) => return Err(e),
        };
        let row = &self.rows[row_index];
        if col_index >= row.len() {
            return Err(MemoryError::ColumnNotFound(select_item.name.value.clone()));
        }
        Ok(Cell { value: row[col_index].clone(), cell_type: column.column_type, column_name: column.name })
    }

    /// A new empty table with the columns of `create_statement`, or
    /// `InvalidType` at the first column whose type token names no type.
    pub fn from_create_statement(create_statement: CreateStatement) -> (r: Result<Self, MemoryError>)
        ensures
            match first_bad_type(create_statement@.cols, 0) {
                None => r matches Ok(t) && is_table_for(t, create_statement@),
                Some(i) => r matches Err(MemoryError::InvalidType(v)) && v@
                    == create_statement@.cols[i].data_type.value,
            },
    {
        let ghost s = create_statement@;
        let mut columns: Vec<Column> = Vec::new();
        let mut i: usize = 0;
        while i < create_statement.cols.len()
            invariant
                s == create_statement@,
                0 <= i <= create_statement.cols@.len(),
                columns@.len() == i,
                first_bad_type(s.cols, 0) == first_bad_type(s.cols, i as int),
                forall|j: int|
                    0 <= j < i ==> (#[trigger] columns@[j]).name@ == s.cols[j].name.value
                        && type_of_kind(s.cols[j].data_type.kind) == Some(columns@[j].column_type),
            decreases create_statement.cols@.len() - i,
        {
            match Column::parse_token(&create_statement.cols[i]) {
                Ok(c) => columns.push(c),
                Err(e) => return Err(e),
            }
            i = i + 1;
        }
        Ok(Table { name: create_statement.name.value, columns, rows: Vec::new() })
    }
}

impl Memory {
    /// The stored entries: each table under its key, in order of creation.
    pub closed spec fn entries(&self) -> Seq<(String, Table)> {
        self.tables@
    }

    /// The table named `table_name`.
    pub fn get_table(&self, table_name: &str) -> (r: Result<&Table, MemoryError>)
        ensures
            match find_table(self.entries(), table_name@, 0) {
                Some(i) => r matches Ok(t) && *t == self.entries()[i].1,
                None => r matches Err(MemoryError::TableNotFound(n)) && n@ == table_name@,
            },
    {
        let key = table_name.to_owned();
        let mut i: usize = 0;
        while i < self.tables.len()
            invariant
                0 <= i <= self.tables@.len(),
                key@ == table_name@,
                find_table(self.tables@, key@, 0) == find_table(self.tables@, key@, i as int),
            decreases self.tables@.len() - i,
        {
            if self.tables[i].0 == key {
                return Ok(&self.tables[i].1);
            }
            i = i + 1;
        }
        Err(MemoryError::TableNotFound(key))
    }

    /// The table named `table_name`, to change in place.
    pub fn get_table_mut(&mut self, table_name: &str) -> (r: Result<&mut Table, MemoryError>)
        ensures
            match find_table(old(self).entries(), table_name@, 0) {
                Some(i) => r matches Ok(t) && *t == old(self).entries()[i].1
                    && final(self).entries() == old(self).entries().update(
                    i,
                    (old(self).entries()[i].0, *final(t)),
                ),
                None => r matches Err(MemoryError::TableNotFound(n)) && n@ == table_name@
                    && final(self).entries() == old(self).entries(),
            },
    {
        let key = table_name.to_owned();
        let mut i: usize = 0;
        while i < self.tables.len()
            invariant
                0 <= i <= self.tables@.len(),
                key@ == table_name@,
                *self == *old(self),
                find_table(self.tables@, key@, 0) == find_table(self.tables@, key@, i as int),
            decreases self.tables@.len() - i,
        {
            if self.tables[i].0 == key {
                return Ok(&mut self.tables[i].1);
            }
            i = i + 1;
        }
        Err(MemoryError::TableNotFound(key))
    }

    /// Stores `table` under `table_name`.
    fn insert_table(&mut self, table_name: &str, table: Table)
        ensures
            final(self).entries().len() == old(self).entries().len() + 1,
            final(self).entries().drop_last() == old(self).entries(),
            final(self).entries().last().0@ == table_name@,
            final(self).entries().last().1 == table,
    {
        self.tables.push((table_name.to_owned(), table));
        assert(self.tables@.drop_last() =~= old(self).tables@);
    }
}

impl Default for Memory {
    fn default() -> (r: Self)
        ensures
            r.entries().len() == 0,
    {
        Memory { tables: Vec::new() }
    }
}

/// A query's outcome as that of a statement that returns nothing.
pub open spec fn as_unit(r: Result<Option<QueryResult>, QueryError>) -> Option<Result<(), MemoryError>> {
    match r {
        Ok(None) => Some(Ok(())),
        Err(QueryError::Memory(e)) => Some(Err(e)),
        _ => None,
    }
}

/// A query's outcome as that of a `SELECT`.
pub open spec fn as_selected(r: Result<Option<QueryResult>, QueryError>) -> Option<
    Result<QueryResult, MemoryError>,
> {
    match r {
        Ok(Some(q)) => Some(Ok(q)),
        Err(QueryError::Memory(e)) => Some(Err(e)),
        _ => None,
    }
}

/// `t` is the first table of `m` stored under `name`.
pub open spec fn is_named_table(m: Memory, name: Seq<char>, t: Table) -> bool {
    find_table(m.entries(), name, 0) matches Some(i) && t == m.entries()[i].1
}

/// `after` is `before` with a row of the values' texts added at its end.
pub open spec fn is_table_with_row(before: Table, after: Table, values: Seq<crate::token::TokenView>) -> bool {
    &&& after.name == before.name
    &&& after.columns == before.columns
    &&& after.rows@.len() == before.rows@.len() + 1
    &&& after.rows@.drop_last() == before.rows@
    &&& is_row_of(after.rows@.last()@, values)
}

impl Database for Memory {
    /// The text must lex, and none of the three statement parsers may fail;
    /// then the statement that one of them recognised runs, tried as
    /// `INSERT`, `SELECT`, then `CREATE TABLE`. Text that none recognises is
    /// `QueryNotValid`. The store changes only where the statement ran.
    open spec fn query_outcome(
        before: Memory,
        query: Seq<char>,
        after: Memory,
        r: Result<Option<QueryResult>, QueryError>,
    ) -> bool {
        match lex_spec(query) {
            Err(e) => r matches Err(QueryError::Lex(x)) && x == e && after.entries()
                == before.entries(),
            Ok(ts) => if insert_parse(ts) is Err {
                r matches Err(QueryError::Parse(pe)) && insert_parse(ts) == Err::<
                    Option<InsertView>,
                    crate::ast::ParseErrorView,
                >(pe@) && after.entries() == before.entries()
            } else if select_parse(ts) is Err {
                r matches Err(QueryError::Parse(pe)) && select_parse(ts) == Err::<
                    Option<SelectView>,
                    crate::ast::ParseErrorView,
                >(pe@) && after.entries() == before.entries()
            } else if create_parse(ts) is Err {
                r matches Err(QueryError::Parse(pe)) && create_parse(ts) == Err::<
                    Option<CreateView>,
                    crate::ast::ParseErrorView,
                >(pe@) && after.entries() == before.entries()
            } else if insert_parse(ts)->Ok_0 is Some {
                as_unit(r) matches Some(u) && Self::insert_outcome(
                    before,
                    insert_parse(ts)->Ok_0->0,
                    after,
                    u,
                )
            } else if select_parse(ts)->Ok_0 is Some {
                as_selected(r) matches Some(u) && Self::select_outcome(
                    before,
                    select_parse(ts)->Ok_0->0,
                    u,
                ) && after.entries() == before.entries()
            } else if create_parse(ts)->Ok_0 is Some {
                as_unit(r) matches Some(u) && Self::create_outcome(
                    before,
                    create_parse(ts)->Ok_0->0,
                    after,
                    u,
                )
            } else {
                r matches Err(QueryError::Memory(MemoryError::QueryNotValid)) && after.entries()
                    == before.entries()
            },
        }
    }

    /// A table of that name already stored is `TableAlreadyExists`; a column
    /// whose type token names no type is `InvalidType`; otherwise the new
    /// empty table is stored last.
    open spec fn create_outcome(before: Memory, s: CreateView, after: Memory, r: Result<(), MemoryError>) -> bool {
        match find_table(before.entries(), s.name.value, 0) {
            Some(_) => r matches Err(MemoryError::TableAlreadyExists(n)) && n@ == s.name.value
                && after.entries() == before.entries(),
            None => match first_bad_type(s.cols, 0) {
                Some(i) => r matches Err(MemoryError::InvalidType(v)) && v@
                    == s.cols[i].data_type.value && after.entries() == before.entries(),
                None => r is Ok && after.entries().len() == before.entries().len() + 1
                    && after.entries().drop_last() == before.entries() && after.entries().last().0@
                    == s.name.value && is_table_for(after.entries().last().1, s),
            },
        }
    }

    /// The row of the values' texts is added to the table of that name, or
    /// the table is not found.
    open spec fn insert_outcome(before: Memory, s: InsertView, after: Memory, r: Result<(), MemoryError>) -> bool {
        match find_table(before.entries(), s.table.value, 0) {
            Some(i) => r is Ok && after.entries() == before.entries().update(
                i,
                (before.entries()[i].0, after.entries()[i].1),
            ) && is_table_with_row(before.entries()[i].1, after.entries()[i].1, s.values),
            None => r matches Err(MemoryError::TableNotFound(n)) && n@ == s.table.value
                && after.entries() == before.entries(),
        }
    }

    /// The selected cells of every row of the table of that name, or the
    /// table is not found, or an item names no column that every row has.
    open spec fn select_outcome(db: Memory, s: SelectView, r: Result<QueryResult, MemoryError>) -> bool {
        match find_table(db.entries(), s.table_name.value, 0) {
            Some(i) => if selectable(db.entries()[i].1, s.items) {
                r matches Ok(q) && is_result_for(db.entries()[i].1, s.items, q)
            } else {
                r matches Err(MemoryError::ColumnNotFound(_))
            },
            None => r matches Err(MemoryError::TableNotFound(n)) && n@ == s.table_name.value,
        }
    }

    fn run_query(&mut self, query: &str) -> (r: Result<Option<QueryResult>, QueryError>) {
        let tokens = match lex(query) {
            Ok(tokens) => tokens,
            Err(e) => return Err(QueryError::Lex(e)),
        };
        let insert_stmt = match InsertStatement::from_tokens(tokens.as_slice()) {
            Ok(s) => s,
            Err(e) => return Err(QueryError::Parse(e)),
        };
        let select_stmt = match SelectStatement::from_tokens(tokens.as_slice()) {
            Ok(s) => s,
            Err(e) => return Err(QueryError::Parse(e)),
        };
        let create_stmt = match CreateStatement::from_tokens(tokens.as_slice()) {
            Ok(s) => s,
            Err(e) => return Err(QueryError::Parse(e)),
        };
        if let Some(stmt) = insert_stmt {
            match self.insert(stmt) {
                Ok(()) => Ok(None),
                Err(e) => Err(QueryError::Memory(e)),
            }
        } else if let Some(stmt) = select_stmt {
            match self.select(stmt) {
                Ok(result) => Ok(Some(result)),
                Err(e) => Err(QueryError::Memory(e)),
            }
        } else if let Some(stmt) = create_stmt {
            match self.create_table(stmt) {
                Ok(()) => Ok(None),
                Err(e) => Err(QueryError::Memory(e)),
            }
        } else {
            Err(QueryError::Memory(MemoryError::QueryNotValid))
        }
    }

    fn insert(&mut self, insert_statement: InsertStatement) -> (r: Result<(), MemoryError>) {
        let ghost s = insert_statement@;
        let values = &insert_statement.values;
        let mut row: Vec<CellValue> = Vec::new();
        let mut k: usize = 0;
        while k < values.len()
            invariant
                s == insert_statement@,
                s.values == crate::ast::views(values@),
                *self == *old(self),
                0 <= k <= values@.len(),
                row@.len() == k,
                forall|j: int| 0 <= j < k ==> (#[trigger] row@[j]).0@ == s.values[j].value,
            decreases values@.len() - k,
        {
            row.push(CellValue::from(values[k].clone()));
            k = k + 1;
        }
        let table = match self.get_table_mut(insert_statement.table.value.as_str()) {
            Ok(table) => table,
            Err(e) => return Err(e),
        };
        let ghost before = *table;
        table.insert_row(row);
        proof {
            assert(table.rows@.drop_last() =~= before.rows@);
            assert(is_row_of(table.rows@.last()@, s.values));
            lemma_find_table(old(self).entries(), s.table.value, 0);
        }
        Ok(())
    }

    fn select(&self, select_statement: SelectStatement) -> (r: Result<QueryResult, MemoryError>) {
        let ghost s = select_statement@;
        let table = match self.get_table(select_statement.table_name.value.as_str()) {
            Ok(table) => table,
            Err(e) => return Err(e),
        };
        let items = &select_statement.items;
        let mut rows: Vec<Vec<Cell>> = Vec::new();
        let mut r: usize = 0;
        while r < table.rows.len()
            invariant
                s == select_statement@,
                s.items == crate::ast::item_views(items@),
                is_named_table(*self, s.table_name.value, *table),
                0 <= r <= table.rows@.len(),
                rows@.len() == r,
                forall|i: int| 0 <= i < r ==> (#[trigger] rows@[i])@.len() == items@.len(),
                forall|i: int, k: int|
                    0 <= i < r && 0 <= k < items@.len() ==> is_shown_cell(
                        *table,
                        s.items[k],
                        i,
                        #[trigger] rows@[i]@[k],
                    ),
                forall|k: int, i: int|
                    0 <= k < items@.len() && 0 <= i < r ==> #[trigger] has_cell(*table, s.items[k], i),
            decreases table.rows@.len() - r,
        {
            let mut row_cells: Vec<Cell> = Vec::new();
            let mut k: usize = 0;
            while k < items.len()
                invariant
                    s == select_statement@,
                    s.items == crate::ast::item_views(items@),
                    is_named_table(*self, s.table_name.value, *table),
                    r < table.rows@.len(),
                    0 <= k <= items@.len(),
                    row_cells@.len() == k,
                    forall|j: int|
                        0 <= j < k ==> is_shown_cell(*table, s.items[j], r as int, #[trigger] row_cells@[j]),
                    forall|j: int| 0 <= j < k ==> #[trigger] has_cell(*table, s.items[j], r as int),
                decreases items@.len() - k,
            {
                match table.get_cell(&items[k], r) {
                    Ok(cell) => row_cells.push(cell),
                    Err(e) => {
                        proof {
                            assert(s.items[k as int] == items@[k as int]@);
                            assert(!has_cell(*table, s.items[k as int], r as int));
                            assert(!selectable(*table, s.items));
                        }
                        return Err(e);
                    },
                }
                k = k + 1;
            }
            rows.push(row_cells);
            r = r + 1;
        }
        let mut columns: Vec<Column> = Vec::new();
        let mut k: usize = 0;
        while k < items.len()
            invariant
                s == select_statement@,
                s.items == crate::ast::item_views(items@),
                is_named_table(*self, s.table_name.value, *table),
                0 <= k <= items@.len(),
                columns@.len() == k,
                forall|j: int|
                    0 <= j < k ==> is_shown_column(*table, s.items[j], #[trigger] columns@[j]),
            decreases items@.len() - k,
        {
            match table.get_column_from_select_item(&items[k]) {
                Ok((column, _)) => columns.push(column),
                Err(e) => {
                    proof {
                        assert(s.items[k as int] == items@[k as int]@);
                        assert(column_index(*table, s.items[k as int]) is None);
                        assert(!selectable(*table, s.items));
                    }
                    return Err(e);
                },
            }
            k = k + 1;
        }
        let result = QueryResult { rows, columns };
        proof {
            assert forall|j: int| 0 <= j < s.items.len() implies (#[trigger] column_index(*table, s.items[j])) is Some by {
                assert(is_shown_column(*table, s.items[j], columns@[j]));
            }
            assert(selectable(*table, s.items));
            assert(is_result_for(*table, s.items, result));
        }
        Ok(result)
    }

    fn create_table(&mut self, create_statement: CreateStatement) -> (r: Result<(), MemoryError>) {
        let table_name = create_statement.name.value.clone();
        if self.get_table(table_name.as_str()).is_ok() {
            return Err(MemoryError::TableAlreadyExists(table_name));
        }
        let table = match Table::from_create_statement(create_statement) {
            Ok(table) => table,
            Err(e) => return Err(e),
        };
        self.insert_table(table_name.as_str(), table);
        Ok(())
    }
}

} // verus!
