use vstd::prelude::*;
use crate::cursor::Location;
use crate::token::{KeywordType, SymbolType, Token, TokenKind, TokenView};

verus! {

/// Which expectation of a statement's grammar failed.
#[derive(Clone, Copy, Debug, PartialEq, Eq, Structural)]
pub enum ErrorKind {
    MissingIntoKeyword,
    MissingTableName,
    MissingValuesKeyword,
    MissingLeftParen,
    MissingRightParens,
    UnexpectedAsKeyword,
    ExpectedNameAfterAs,
    ExpectedComma,
    ExpectedTableNameAfterCreate,
    ExpectedColumnType,
    ExpectedCommaOrRightParen,
    InvalidType,
}

/// A parse failure: the offending token (the empty token where the input
/// ended early) and which expectation failed.
#[derive(Debug)]
pub struct ParseError {
    pub token: Token,
    pub error_kind: ErrorKind,
}

/// A parse failure as a value.
pub struct ParseErrorView {
    pub token: TokenView,
    pub error_kind: ErrorKind,
}

impl View for ParseError {
    type V = ParseErrorView;

    open spec fn view(&self) -> ParseErrorView {
        ParseErrorView { token: self.token@, error_kind: self.error_kind }
    }
}

/// `INSERT INTO table VALUES (values)`.
#[derive(Debug)]
pub struct InsertStatement {
    pub table: Token,
    pub values: Vec<Token>,
}

/// An `INSERT` statement as a value.
pub struct InsertView {
    pub table: TokenView,
    pub values: Seq<TokenView>,
}

impl View for InsertStatement {
    type V = InsertView;

    open spec fn view(&self) -> InsertView {
        InsertView { table: self.table@, values: views(self.values@) }
    }
}

/// `CREATE TABLE name (columns)`.
#[derive(Debug)]
pub struct CreateStatement {
    pub name: Token,
    pub cols: Vec<Column>,
}

/// A `CREATE TABLE` statement as a value.
pub struct CreateView {
    pub name: TokenView,
    pub cols: Seq<ColumnView>,
}

impl View for CreateStatement {
    type V = CreateView;

    open spec fn view(&self) -> CreateView {
        CreateView { name: self.name@, cols: self.cols@.map_values(|c: Column| c@) }
    }
}

/// A column of `CREATE TABLE`: its name and its type keyword.
#[derive(Debug)]
pub struct Column {
    pub name: Token,
    pub data_type: Token,
    pub is_primary_key: bool,
}

/// A column of `CREATE TABLE` as a value.
pub struct ColumnView {
    pub name: TokenView,
    pub data_type: TokenView,
    pub is_primary_key: bool,
}

impl View for Column {
    type V = ColumnView;

    open spec fn view(&self) -> ColumnView {
        ColumnView {
            name: self.name@,
            data_type: self.data_type@,
            is_primary_key: self.is_primary_key,
        }
    }
}

/// `SELECT items FROM table_name`.
#[derive(Debug)]
pub struct SelectStatement {
    pub table_name: Token,
    pub items: Vec<SelectItem>,
}

/// A `SELECT` statement as a value.
pub struct SelectView {
    pub table_name: TokenView,
    pub items: Seq<SelectItemView>,
}

impl View for SelectStatement {
    type V = SelectView;

    open spec fn view(&self) -> SelectView {
        SelectView { table_name: self.table_name@, items: self.items@.map_values(|i: SelectItem| i@) }
    }
}

/// One selected name and its alias, if it has one.
#[derive(Debug)]
pub struct SelectItem {
    pub name: Token,
    pub as_name: Option<Token>,
}

/// A selected item as a value.
pub struct SelectItemView {
    pub name: TokenView,
    pub as_name: Option<TokenView>,
}

impl View for SelectItem {
    type V = SelectItemView;

    open spec fn view(&self) -> SelectItemView {
        SelectItemView {
            name: self.name@,
            as_name: match self.as_name {
                Some(t) => Some(t@),
                None => None,
            },
        }
    }
}

impl Clone for SelectItem {
    fn clone(&self) -> (r: Self)
        ensures
            r == *self,
    {
        let as_name = match &self.as_name {
            Some(t) => Some(t.clone()),
            None => None,
        };
        SelectItem { name: self.name.clone(), as_name }
    }
}

/// The tokens as values.
pub open spec fn views(tokens: Seq<Token>) -> Seq<TokenView> {
    tokens.map_values(|t: Token| t@)
}

/// The token that stands for a missing one.
pub open spec fn empty_view() -> TokenView {
    TokenView { value: Seq::empty(), kind: TokenKind::Null, loc: Location { line: 0, column: 0 } }
}

/// The failure of expectation `error_kind` on `token`.
pub open spec fn fail(token: TokenView, error_kind: ErrorKind) -> ParseErrorView {
    ParseErrorView { token, error_kind }
}

/// The token at `i`, or the empty token past the end.
pub open spec fn token_at(t: Seq<TokenView>, i: int) -> TokenView {
    if 0 <= i < t.len() {
        t[i]
    } else {
        empty_view()
    }
}

/// The failure when the token at `i` is missing or not of kind `kind`.
pub open spec fn expect(t: Seq<TokenView>, i: int, kind: TokenKind, error_kind: ErrorKind) -> Option<
    ParseErrorView,
> {
    if 0 <= i < t.len() && t[i].kind == kind {
        None
    } else {
        Some(fail(token_at(t, i), error_kind))
    }
}

/// A parse outcome seen as values.
pub open spec fn parsed<T: View>(r: Result<Option<T>, ParseError>) -> Result<
    Option<T::V>,
    ParseErrorView,
> {
    match r {
        Ok(Some(s)) => Ok(Some(s@)),
        Ok(None) => Ok(None),
        Err(e) => Err(e@),
    }
}

/// A statement that can be recognised at the start of a token sequence.
pub trait Parsable: Sized + View {
    /// What parsing `tokens` gives: `Ok(None)` where they do not start with
    /// this statement's keyword, the first failed expectation where they do
    /// but go on wrongly, and the statement otherwise.
    spec fn parse_spec(tokens: Seq<TokenView>) -> Result<Option<Self::V>, ParseErrorView>;

    fn from_tokens(tokens: &[Token]) -> (r: Result<Option<Self>, ParseError>)
        ensures
            parsed(r) == Self::parse_spec(views(tokens@)),
    ;
}

/// Checks that `token` is there and of kind `expected_token_kind`, or fails
/// with `error_kind` on it (on the empty token where it is missing).
pub fn expect_token(token: Option<&Token>, expected_token_kind: TokenKind, error_kind: ErrorKind) -> (r:
    Result<(), ParseError>)
    ensures
        match token {
            Some(t) => if t.kind == expected_token_kind {
                r is Ok
            } else {
                r matches Err(e) && e@ == fail(t@, error_kind)
            },
            None => r matches Err(e) && e@ == fail(empty_view(), error_kind),
        },
{
    match token {
        None => Err(ParseError { token: Token::empty_token(), error_kind }),
        Some(t) => if t.kind != expected_token_kind {
            Err(ParseError { token: t.clone(), error_kind })
        } else {
            Ok(())
        },
    }
}

/// [`expect_token`] on the token at `i`, if there is one.
fn expect_at(tokens: &[Token], i: usize, kind: TokenKind, error_kind: ErrorKind) -> (r: Result<
    (),
    ParseError,
>)
    ensures
        match expect(views(tokens@), i as int, kind, error_kind) {
            None => r is Ok,
            Some(f) => r matches Err(e) && e@ == f,
        },
{
    if i < tokens.len() {
        expect_token(Some(&tokens[i]), kind, error_kind)
    } else {
        expect_token(None, kind, error_kind)
    }
}

/// The values of `INSERT`, read from index `i` on after `acc`: names,
/// numbers and quoted strings are taken, commas skipped, and a right
/// parenthesis ends the list.
pub open spec fn insert_values(t: Seq<TokenView>, i: int, acc: Seq<TokenView>) -> Result<
    Seq<TokenView>,
    ParseErrorView,
>
    decreases t.len() - i,
{
    if i < 0 || i >= t.len() {
        Err(fail(empty_view(), ErrorKind::MissingRightParens))
    } else {
        match t[i].kind {
            TokenKind::Identifier | TokenKind::Numeric | TokenKind::String => insert_values(
                t,
                i + 1,
                acc.push(t[i]),
            ),
            TokenKind::Symbol(SymbolType::Comma) => insert_values(t, i + 1, acc),
            TokenKind::Symbol(SymbolType::RightParen) => Ok(acc),
            _ => Err(fail(t[i], ErrorKind::MissingRightParens)),
        }
    }
}

/// `INSERT INTO table VALUES ( value (, value)* )`, where the table is an
/// identifier and a value a name, a number or a quoted string.
pub open spec fn insert_parse(t: Seq<TokenView>) -> Result<Option<InsertView>, ParseErrorView> {
    if t.len() == 0 || t[0].kind != TokenKind::Keyword(KeywordType::Insert) {
        Ok(None)
    } else if let Some(f) = expect(t, 1, TokenKind::Keyword(KeywordType::Into), ErrorKind::MissingIntoKeyword) {
        Err(f)
    } else if let Some(f) = expect(t, 2, TokenKind::Identifier, ErrorKind::MissingTableName) {
        Err(f)
    } else if let Some(f) = expect(t, 3, TokenKind::Keyword(KeywordType::Values), ErrorKind::MissingValuesKeyword) {
        Err(f)
    } else if let Some(f) = expect(t, 4, TokenKind::Symbol(SymbolType::LeftParen), ErrorKind::MissingLeftParen) {
        Err(f)
    } else {
        match insert_values(t, 5, Seq::empty()) {
            Ok(values) => Ok(Some(InsertView { table: t[2], values })),
            Err(f) => Err(f),
        }
    }
}

impl Parsable for InsertStatement {
    open spec fn parse_spec(tokens: Seq<TokenView>) -> Result<Option<InsertView>, ParseErrorView> {
        insert_parse(tokens)
    }

    fn from_tokens(tokens: &[Token]) -> (r: Result<Option<Self>, ParseError>) {
        let ghost t = views(tokens@);
        let n = tokens.len();
        if n == 0 || tokens[0].kind != TokenKind::Keyword(KeywordType::Insert) {
            return Ok(None);
        }
        match expect_at(tokens, 1, TokenKind::Keyword(KeywordType::Into), ErrorKind::MissingIntoKeyword) {
            Err(e) => return Err(e),
            Ok(()) => {},
        }
        match expect_at(tokens, 2, TokenKind::Identifier, ErrorKind::MissingTableName) {
            Err(e) => return Err(e),
            Ok(()) => {},
        }
        match expect_at(tokens, 3, TokenKind::Keyword(KeywordType::Values), ErrorKind::MissingValuesKeyword) {
            Err(e) => return Err(e),
            Ok(()) => {},
        }
        match expect_at(tokens, 4, TokenKind::Symbol(SymbolType::LeftParen), ErrorKind::MissingLeftParen) {
            Err(e) => return Err(e),
            Ok(()) => {},
        }
        let mut values: Vec<Token> = Vec::new();
        let mut i: usize = 5;
        assert(views(values@) =~= Seq::<TokenView>::empty());
        loop
            invariant
                5 <= i <= n,
                n == tokens@.len(),
                t == views(tokens@),
                t[0].kind == TokenKind::Keyword(KeywordType::Insert),
                expect(t, 1, TokenKind::Keyword(KeywordType::Into), ErrorKind::MissingIntoKeyword) is None,
                expect(t, 2, TokenKind::Identifier, ErrorKind::MissingTableName) is None,
                expect(t, 3, TokenKind::Keyword(KeywordType::Values), ErrorKind::MissingValuesKeyword) is None,
                expect(t, 4, TokenKind::Symbol(SymbolType::LeftParen), ErrorKind::MissingLeftParen) is None,
                insert_values(t, 5, Seq::empty()) == insert_values(t, i as int, views(values@)),
            ensures
                insert_values(t, 5, Seq::empty()) == Ok::<Seq<TokenView>, ParseErrorView>(views(values@)),
            decreases n - i,
        {
            if i >= n {
                return Err(ParseError { token: Token::empty_token(), error_kind: ErrorKind::MissingRightParens });
            }
            let token = &tokens[i];
            match token.kind {
                TokenKind::Identifier | TokenKind::Numeric | TokenKind::String => {
                    proof {
                        assert(views(values@.push(*token)) =~= views(values@).push(t[i as int]));
                    }
                    values.push(token.clone());
                },
                TokenKind::Symbol(SymbolType::Comma) => {},
                TokenKind::Symbol(SymbolType::RightParen) => {
                    break;
                },
                _ => {
                    return Err(ParseError { token: token.clone(), error_kind: ErrorKind::MissingRightParens });
                },
            }
            i = i + 1;
        }
        Ok(Some(InsertStatement { table: tokens[2].clone(), values }))
    }
}

/// The items of `SELECT`, read from index `i` on after `items`; `comma`
/// tells whether a comma came since the last item. A name or number starts
/// an item (after a first one only past a comma), `AS` names the last item
/// after the token that follows it, and `FROM` ends the list before the
/// table's name.
pub open spec fn select_items(
    t: Seq<TokenView>,
    i: int,
    items: Seq<SelectItemView>,
    comma: bool,
) -> Result<SelectView, ParseErrorView>
    decreases t.len() - i,
{
    if i < 0 || i >= t.len() {
        Err(fail(empty_view(), ErrorKind::MissingTableName))
    } else {
        match t[i].kind {
            TokenKind::Identifier | TokenKind::Numeric => if items.len() > 0 && !comma {
                Err(fail(t[i], ErrorKind::ExpectedComma))
            } else {
                select_items(t, i + 1, items.push(SelectItemView { name: t[i], as_name: None }), false)
            },
            TokenKind::Keyword(KeywordType::As) => if items.len() == 0 {
                Err(fail(t[i], ErrorKind::UnexpectedAsKeyword))
            } else if i + 1 >= t.len() {
                Err(fail(empty_view(), ErrorKind::ExpectedNameAfterAs))
            } else {
                let last = items.last();
                select_items(
                    t,
                    i + 2,
                    items.update(items.len() - 1, SelectItemView { name: last.name, as_name: Some(t[i + 1]) }),
                    comma,
                )
            },
            TokenKind::Symbol(SymbolType::Comma) => select_items(t, i + 1, items, true),
            TokenKind::Keyword(KeywordType::From) => if i + 1 < t.len() {
                Ok(SelectView { table_name: t[i + 1], items })
            } else {
                Err(fail(empty_view(), ErrorKind::MissingTableName))
            },
            _ => Err(fail(t[i], ErrorKind::MissingTableName)),
        }
    }
}

/// `SELECT item (, item)* FROM table` with `item := name (AS alias)?`.
pub open spec fn select_parse(t: Seq<TokenView>) -> Result<Option<SelectView>, ParseErrorView> {
    if t.len() == 0 || t[0].kind != TokenKind::Keyword(KeywordType::Select) {
        Ok(None)
    } else {
        match select_items(t, 1, Seq::empty(), false) {
            Ok(s) => Ok(Some(s)),
            Err(f) => Err(f),
        }
    }
}

/// The selected items as values.
pub open spec fn item_views(items: Seq<SelectItem>) -> Seq<SelectItemView> {
    items.map_values(|i: SelectItem| i@)
}

impl Parsable for SelectStatement {
    open spec fn parse_spec(tokens: Seq<TokenView>) -> Result<Option<SelectView>, ParseErrorView> {
        select_parse(tokens)
    }

    fn from_tokens(tokens: &[Token]) -> (r: Result<Option<Self>, ParseError>) {
        let ghost t = views(tokens@);
        let n = tokens.len();
        if n == 0 || tokens[0].kind != TokenKind::Keyword(KeywordType::Select) {
            return Ok(None);
        }
        let mut items: Vec<SelectItem> = Vec::new();
        let mut is_comma = false;
        let mut i: usize = 1;
        assert(item_views(items@) =~= Seq::<SelectItemView>::empty());
        loop
            invariant
                1 <= i <= n,
                n == tokens@.len(),
                t == views(tokens@),
                t[0].kind == TokenKind::Keyword(KeywordType::Select),
                select_items(t, 1, Seq::empty(), false) == select_items(
                    t,
                    i as int,
                    item_views(items@),
                    is_comma,
                ),
            ensures
                i < n,
                t[i as int].kind == TokenKind::Keyword(KeywordType::From),
                select_items(t, 1, Seq::empty(), false) == select_items(
                    t,
                    i as int,
                    item_views(items@),
                    is_comma,
                ),
            decreases n - i,
        {
            if i >= n {
                return Err(ParseError { token: Token::empty_token(), error_kind: ErrorKind::MissingTableName });
            }
            let token = &tokens[i];
            match token.kind {
                TokenKind::Identifier | TokenKind::Numeric => {
                    if items.len() > 0 && !is_comma {
                        return Err(ParseError { token: token.clone(), error_kind: ErrorKind::ExpectedComma });
                    }
                    let item = SelectItem { name: token.clone(), as_name: None };
                    proof {
                        assert(item_views(items@.push(item)) =~= item_views(items@).push(item@));
                    }
                    items.push(item);
                    is_comma = false;
                    i = i + 1;
                },
                TokenKind::Keyword(KeywordType::As) => {
                    if items.len() == 0 {
                        return Err(ParseError { token: token.clone(), error_kind: ErrorKind::UnexpectedAsKeyword });
                    }
                    if i + 1 >= n {
                        return Err(ParseError { token: Token::empty_token(), error_kind: ErrorKind::ExpectedNameAfterAs });
                    }
                    let ghost before = items@;
                    let last = items.pop().unwrap();
                    let item = SelectItem { name: last.name, as_name: Some(tokens[i + 1].clone()) };
                    proof {
                        assert(items@ == before.drop_last());
                        assert(item_views(items@.push(item)) =~= item_views(before).update(
                            before.len() - 1,
                            SelectItemView { name: item_views(before).last().name, as_name: Some(t[i + 1]) },
                        ));
                    }
                    items.push(item);
                    i = i + 2;
                },
                TokenKind::Symbol(SymbolType::Comma) => {
                    is_comma = true;
                    i = i + 1;
                },
                TokenKind::Keyword(KeywordType::From) => {
                    break;
                },
                _ => {
                    return Err(ParseError { token: token.clone(), error_kind: ErrorKind::MissingTableName });
                },
            }
        }
        if i + 1 < n {
            Ok(Some(SelectStatement { table_name: tokens[i + 1].clone(), items }))
        } else {
            Err(ParseError { token: Token::empty_token(), error_kind: ErrorKind::MissingTableName })
        }
    }
}

/// Whether a column's type token is one of the type keywords.
pub open spec fn is_type_kind(k: TokenKind) -> bool {
    k == TokenKind::Keyword(KeywordType::Int) || k == TokenKind::Keyword(KeywordType::Text)
}

/// The columns of `CREATE TABLE`, read from index `i` on after `cols`:
/// each is a name and a type keyword, followed by a comma or a closing
/// right parenthesis.
pub open spec fn create_cols(t: Seq<TokenView>, i: int, cols: Seq<ColumnView>) -> Result<
    Seq<ColumnView>,
    ParseErrorView,
>
    decreases t.len() - i,
{
    if i < 0 || i >= t.len() {
        Err(fail(empty_view(), ErrorKind::MissingRightParens))
    } else if i + 1 >= t.len() {
        Err(fail(empty_view(), ErrorKind::ExpectedColumnType))
    } else if !is_type_kind(t[i + 1].kind) {
        Err(fail(t[i + 1], ErrorKind::InvalidType))
    } else {
        let cols = cols.push(ColumnView { name: t[i], data_type: t[i + 1], is_primary_key: false });
        if i + 2 >= t.len() {
            Err(fail(empty_view(), ErrorKind::MissingRightParens))
        } else {
            match t[i + 2].kind {
                TokenKind::Symbol(SymbolType::RightParen) => Ok(cols),
                TokenKind::Symbol(SymbolType::Comma) => create_cols(t, i + 3, cols),
                _ => Err(fail(t[i + 2], ErrorKind::ExpectedCommaOrRightParen)),
            }
        }
    }
}

/// `CREATE TABLE name ( column (, column)* )` with `column := name type`,
/// where the table's name is an identifier.
pub open spec fn create_parse(t: Seq<TokenView>) -> Result<Option<CreateView>, ParseErrorView> {
    if t.len() == 0 || t[0].kind != TokenKind::Keyword(KeywordType::Create) {
        Ok(None)
    } else if let Some(f) = expect(t, 1, TokenKind::Keyword(KeywordType::Table), ErrorKind::ExpectedTableNameAfterCreate) {
        Err(f)
    } else if let Some(f) = expect(t, 2, TokenKind::Identifier, ErrorKind::MissingTableName) {
        Err(f)
    } else if let Some(f) = expect(t, 3, TokenKind::Symbol(SymbolType::LeftParen), ErrorKind::MissingLeftParen) {
        Err(f)
    } else {
        match create_cols(t, 4, Seq::empty()) {
            Ok(cols) => Ok(Some(CreateView { name: t[2], cols })),
            Err(f) => Err(f),
        }
    }
}

/// The columns as values.
pub open spec fn column_views(cols: Seq<Column>) -> Seq<ColumnView> {
    cols.map_values(|c: Column| c@)
}

impl Parsable for CreateStatement {
    open spec fn parse_spec(tokens: Seq<TokenView>) -> Result<Option<CreateView>, ParseErrorView> {
        create_parse(tokens)
    }

    fn from_tokens(tokens: &[Token]) -> (r: Result<Option<Self>, ParseError>) {
        let ghost t = views(tokens@);
        let n = tokens.len();
        if n == 0 || tokens[0].kind != TokenKind::Keyword(KeywordType::Create) {
            return Ok(None);
        }
        match expect_at(tokens, 1, TokenKind::Keyword(KeywordType::Table), ErrorKind::ExpectedTableNameAfterCreate) {
            Err(e) => return Err(e),
            Ok(()) => {},
        }
        match expect_at(tokens, 2, TokenKind::Identifier, ErrorKind::MissingTableName) {
            Err(e) => return Err(e),
            Ok(()) => {},
        }
        match expect_at(tokens, 3, TokenKind::Symbol(SymbolType::LeftParen), ErrorKind::MissingLeftParen) {
            Err(e) => return Err(e),
            Ok(()) => {},
        }
        let mut cols: Vec<Column> = Vec::new();
        let mut i: usize = 4;
        assert(column_views(cols@) =~= Seq::<ColumnView>::empty());
        loop
            invariant_except_break
                create_cols(t, 4, Seq::empty()) == create_cols(t, i as int, column_views(cols@)),
            invariant
                4 <= i <= n,
                n == tokens@.len(),
                t == views(tokens@),
                t[0].kind == TokenKind::Keyword(KeywordType::Create),
                expect(t, 1, TokenKind::Keyword(KeywordType::Table), ErrorKind::ExpectedTableNameAfterCreate) is None,
                expect(t, 2, TokenKind::Identifier, ErrorKind::MissingTableName) is None,
                expect(t, 3, TokenKind::Symbol(SymbolType::LeftParen), ErrorKind::MissingLeftParen) is None,
            ensures
                create_cols(t, 4, Seq::empty()) == Ok::<Seq<ColumnView>, ParseErrorView>(column_views(cols@)),
            decreases n - i,
        {
            if i >= n {
                return Err(ParseError { token: Token::empty_token(), error_kind: ErrorKind::MissingRightParens });
            }
            if i + 1 >= n {
                return Err(ParseError { token: Token::empty_token(), error_kind: ErrorKind::ExpectedColumnType });
            }
            let col_type = &tokens[i + 1];
            if col_type.kind != TokenKind::Keyword(KeywordType::Int) && col_type.kind != TokenKind::Keyword(KeywordType::Text) {
                return Err(ParseError { token: col_type.clone(), error_kind: ErrorKind::InvalidType });
            }
            let col = Column { name: tokens[i].clone(), data_type: col_type.clone(), is_primary_key: false };
            proof {
                assert(column_views(cols@.push(col)) =~= column_views(cols@).push(col@));
            }
            cols.push(col);
            if i + 2 >= n {
                return Err(ParseError { token: Token::empty_token(), error_kind: ErrorKind::MissingRightParens });
            }
            let sep = &tokens[i + 2];
            match sep.kind {
                TokenKind::Symbol(SymbolType::RightParen) => {
                    break;
                },
                TokenKind::Symbol(SymbolType::Comma) => {
                    i = i + 3;
                },
                _ => {
                    return Err(ParseError { token: sep.clone(), error_kind: ErrorKind::ExpectedCommaOrRightParen });
                },
            }
        }
        Ok(Some(CreateStatement { name: tokens[2].clone(), cols }))
    }
}

} // verus!
