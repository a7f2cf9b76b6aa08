use vstd::prelude::*;
use crate::ast::{
    create_cols, create_parse, insert_parse, insert_values, is_type_kind, select_items, select_parse,
    ColumnView, CreateView, InsertView, ParseErrorView, SelectItemView, SelectView,
};
use crate::cursor::Location;
use crate::token::{keyword_spelling, symbol_spelling, KeywordType, SymbolType, TokenKind, TokenView};

verus! {

/// A keyword token written out again.
pub open spec fn keyword_token_of(k: KeywordType) -> TokenView {
    TokenView {
        value: keyword_spelling(k),
        kind: TokenKind::Keyword(k),
        loc: Location { line: 0, column: 0 },
    }
}

/// A symbol token written out again.
pub open spec fn symbol_token_of(y: SymbolType) -> TokenView {
    TokenView {
        value: symbol_spelling(y),
        kind: TokenKind::Symbol(y),
        loc: Location { line: 0, column: 0 },
    }
}

/// Whether a token can be a value of `INSERT`.
pub open spec fn is_value_kind(k: TokenKind) -> bool {
    k == TokenKind::Identifier || k == TokenKind::Numeric || k == TokenKind::String
}

/// Whether a token can name a selected item.
pub open spec fn is_item_kind(k: TokenKind) -> bool {
    k == TokenKind::Identifier || k == TokenKind::Numeric
}

/// `v0 , v1 , ... )`: the values of `INSERT` written out, separated by
/// commas and closed.
pub open spec fn value_list(vs: Seq<TokenView>) -> Seq<TokenView>
    decreases vs.len(),
{
    if vs.len() == 0 {
        seq![symbol_token_of(SymbolType::RightParen)]
    } else if vs.len() == 1 {
        seq![vs[0], symbol_token_of(SymbolType::RightParen)]
    } else {
        seq![vs[0], symbol_token_of(SymbolType::Comma)] + value_list(vs.drop_first())
    }
}

/// An `INSERT` statement written out as tokens.
pub open spec fn insert_text(s: InsertView) -> Seq<TokenView> {
    seq![
        keyword_token_of(KeywordType::Insert),
        keyword_token_of(KeywordType::Into),
        s.table,
        keyword_token_of(KeywordType::Values),
        symbol_token_of(SymbolType::LeftParen),
    ] + value_list(s.values)
}

proof fn lemma_insert_values_kinds(t: Seq<TokenView>, i: int, acc: Seq<TokenView>)
    requires
        forall|j: int| 0 <= j < acc.len() ==> is_value_kind(#[trigger] acc[j].kind),
    ensures
        insert_values(t, i, acc) matches Ok(r) ==> forall|j: int|
            0 <= j < r.len() ==> is_value_kind(#[trigger] r[j].kind),
    decreases t.len() - i,
{
    if 0 <= i < t.len() {
        match t[i].kind {
            TokenKind::Identifier | TokenKind::Numeric | TokenKind::String => {
                let acc2 = acc.push(t[i]);
                assert forall|j: int| 0 <= j < acc2.len() implies is_value_kind(
                    #[trigger] acc2[j].kind,
                ) by {
                    if j < acc.len() {
                        assert(acc2[j] == acc[j]);
                    }
                }
                lemma_insert_values_kinds(t, i + 1, acc2);
            },
            TokenKind::Symbol(SymbolType::Comma) => {
                lemma_insert_values_kinds(t, i + 1, acc);
            },
            _ => {},
        }
    }
}

proof fn lemma_value_list_len(vs: Seq<TokenView>)
    ensures
        value_list(vs).len() >= 1,
        vs.len() > 0 ==> value_list(vs).len() >= 2,
        value_list(vs).len() >= 1 ==> value_list(vs)[0] == (if vs.len() == 0 {
            symbol_token_of(SymbolType::RightParen)
        } else {
            vs[0]
        }),
    decreases vs.len(),
{
    if vs.len() > 1 {
        lemma_value_list_len(vs.drop_first());
    }
}

proof fn lemma_value_list_parses(u: Seq<TokenView>, i: int, vs: Seq<TokenView>, acc: Seq<TokenView>)
    requires
        0 <= i <= u.len(),
        u.skip(i) == value_list(vs),
        forall|j: int| 0 <= j < vs.len() ==> is_value_kind(#[trigger] vs[j].kind),
    ensures
        insert_values(u, i, acc) == Ok::<Seq<TokenView>, crate::ast::ParseErrorView>(acc + vs),
    decreases vs.len(),
{
    lemma_value_list_len(vs);
    assert(u.skip(i)[0] == u[i]);
    if vs.len() == 0 {
        assert(acc + vs =~= acc);
    } else if vs.len() == 1 {
        assert(u.skip(i)[1] == u[i + 1]);
        assert(is_value_kind(vs[0].kind));
        assert(insert_values(u, i + 1, acc.push(vs[0])) == Ok::<Seq<TokenView>, crate::ast::ParseErrorView>(acc.push(vs[0])));
        assert(acc.push(vs[0]) =~= acc + vs);
    } else {
        assert(u.skip(i)[1] == u[i + 1]);
        assert(is_value_kind(vs[0].kind));
        let rest = vs.drop_first();
        let x = seq![vs[0], symbol_token_of(SymbolType::Comma)] + value_list(rest);
        assert(u.skip(i) == x);
        assert forall|k: int| 0 <= k < u.len() - (i + 2) implies #[trigger] u.skip(i + 2)[k] == value_list(rest)[k] by {
            assert(u.skip(i)[k + 2] == x[k + 2]);
        }
        assert(u.skip(i + 2) =~= value_list(rest));
        assert forall|j: int| 0 <= j < rest.len() implies is_value_kind(#[trigger] rest[j].kind) by {
            assert(rest[j] == vs[j + 1]);
        }
        lemma_value_list_parses(u, i + 2, rest, acc.push(vs[0]));
        assert(insert_values(u, i + 1, acc.push(vs[0])) == insert_values(u, i + 2, acc.push(vs[0])));
        assert(acc.push(vs[0]) + rest =~= acc + vs);
    }
}

/// Parsing an `INSERT` statement, writing it out again and parsing that
/// gives back the same statement: its table and its values, names and
/// numbers, come back unchanged.
pub proof fn lemma_insert_round_trip(t: Seq<TokenView>)
    requires
        insert_parse(t) is Ok,
        insert_parse(t)->Ok_0 is Some,
    ensures
        insert_parse(insert_text(insert_parse(t)->Ok_0->0)) == insert_parse(t),
{
    let s = insert_parse(t)->Ok_0->0;
    lemma_insert_values_kinds(t, 5, Seq::empty());
    let u = insert_text(s);
    assert(u.skip(5) =~= value_list(s.values));
    lemma_value_list_parses(u, 5, s.values, Seq::empty());
    assert(Seq::<TokenView>::empty() + s.values =~= s.values);
    assert(u[0] == keyword_token_of(KeywordType::Insert));
    assert(u[1] == keyword_token_of(KeywordType::Into));
    assert(u[2] == s.table);
    assert(u[3] == keyword_token_of(KeywordType::Values));
    assert(u[4] == symbol_token_of(SymbolType::LeftParen));
}

/// A column as `CREATE TABLE` parses it: typed by a type keyword, and not a
/// primary key.
pub open spec fn is_parsed_column(c: ColumnView) -> bool {
    is_type_kind(c.data_type.kind) && !c.is_primary_key
}

/// `n0 t0 , n1 t1 , ... )`: the columns of `CREATE TABLE` written out,
/// separated by commas and closed.
pub open spec fn column_list(cols: Seq<ColumnView>) -> Seq<TokenView>
    decreases cols.len(),
{
    if cols.len() == 0 {
        seq![symbol_token_of(SymbolType::RightParen)]
    } else if cols.len() == 1 {
        seq![cols[0].name, cols[0].data_type, symbol_token_of(SymbolType::RightParen)]
    } else {
        seq![cols[0].name, cols[0].data_type, symbol_token_of(SymbolType::Comma)] + column_list(
            cols.drop_first(),
        )
    }
}

/// A `CREATE TABLE` statement written out as tokens.
pub open spec fn create_text(s: CreateView) -> Seq<TokenView> {
    seq![
        keyword_token_of(KeywordType::Create),
        keyword_token_of(KeywordType::Table),
        s.name,
        symbol_token_of(SymbolType::LeftParen),
    ] + column_list(s.cols)
}

proof fn lemma_create_cols_shape(t: Seq<TokenView>, i: int, acc: Seq<ColumnView>)
    requires
        forall|j: int| 0 <= j < acc.len() ==> is_parsed_column(#[trigger] acc[j]),
    ensures
        create_cols(t, i, acc) matches Ok(r) ==> r.len() > acc.len() && forall|j: int|
            0 <= j < r.len() ==> is_parsed_column(#[trigger] r[j]),
    decreases t.len() - i,
{
    if 0 <= i && i + 2 < t.len() && is_type_kind(t[i + 1].kind) {
        let acc2 = acc.push(ColumnView { name: t[i], data_type: t[i + 1], is_primary_key: false });
        assert forall|j: int| 0 <= j < acc2.len() implies is_parsed_column(#[trigger] acc2[j]) by {
            if j < acc.len() {
                assert(acc2[j] == acc[j]);
            }
        }
        if t[i + 2].kind == TokenKind::Symbol(SymbolType::Comma) {
            lemma_create_cols_shape(t, i + 3, acc2);
        }
    }
}

proof fn lemma_column_list_len(cols: Seq<ColumnView>)
    ensures
        cols.len() > 0 ==> column_list(cols).len() >= 3,
    decreases cols.len(),
{
    if cols.len() > 1 {
        lemma_column_list_len(cols.drop_first());
    }
}

proof fn lemma_column_list_parses(u: Seq<TokenView>, i: int, cols: Seq<ColumnView>, acc: Seq<ColumnView>)
    requires
        0 <= i <= u.len(),
        cols.len() > 0,
        u.skip(i) == column_list(cols),
        forall|j: int| 0 <= j < cols.len() ==> is_parsed_column(#[trigger] cols[j]),
    ensures
        create_cols(u, i, acc) == Ok::<Seq<ColumnView>, ParseErrorView>(acc + cols),
    decreases cols.len(),
{
    lemma_column_list_len(cols);
    let c = cols[0];
    assert(is_parsed_column(c));
    assert(u.skip(i)[0] == u[i]);
    assert(u.skip(i)[1] == u[i + 1]);
    assert(u.skip(i)[2] == u[i + 2]);
    assert(ColumnView { name: u[i], data_type: u[i + 1], is_primary_key: false } == c);
    if cols.len() == 1 {
        assert(acc.push(c) =~= acc + cols);
    } else {
        let rest = cols.drop_first();
        lemma_column_list_len(rest);
        let x = seq![c.name, c.data_type, symbol_token_of(SymbolType::Comma)] + column_list(rest);
        assert(u.skip(i) == x);
        assert forall|k: int| 0 <= k < u.len() - (i + 3) implies #[trigger] u.skip(i + 3)[k]
            == column_list(rest)[k] by {
            assert(u.skip(i)[k + 3] == x[k + 3]);
        }
        assert(u.skip(i + 3) =~= column_list(rest));
        assert forall|j: int| 0 <= j < rest.len() implies is_parsed_column(#[trigger] rest[j]) by {
            assert(rest[j] == cols[j + 1]);
        }
        lemma_column_list_parses(u, i + 3, rest, acc.push(c));
        assert(acc.push(c) + rest =~= acc + cols);
    }
}

/// Parsing a `CREATE TABLE` statement, writing it out again and parsing
/// that gives back the same statement: its table name and its columns'
/// names and types come back unchanged.
pub proof fn lemma_create_round_trip(t: Seq<TokenView>)
    requires
        create_parse(t) is Ok,
        create_parse(t)->Ok_0 is Some,
    ensures
        create_parse(create_text(create_parse(t)->Ok_0->0)) == create_parse(t),
{
    let s = create_parse(t)->Ok_0->0;
    lemma_create_cols_shape(t, 4, Seq::empty());
    let u = create_text(s);
    assert(u.skip(4) =~= column_list(s.cols));
    lemma_column_list_parses(u, 4, s.cols, Seq::empty());
    assert(Seq::<ColumnView>::empty() + s.cols =~= s.cols);
    assert(u[0] == keyword_token_of(KeywordType::Create));
    assert(u[1] == keyword_token_of(KeywordType::Table));
    assert(u[2] == s.name);
    assert(u[3] == symbol_token_of(SymbolType::LeftParen));
}

/// One item of `SELECT` written out: its name, and `AS` and its alias if it
/// has one.
pub open spec fn item_text(it: SelectItemView) -> Seq<TokenView> {
    match it.as_name {
        Some(a) => seq![it.name, keyword_token_of(KeywordType::As), a],
        None => seq![it.name],
    }
}

/// The items of `SELECT` written out, separated by commas.
pub open spec fn item_list(items: Seq<SelectItemView>) -> Seq<TokenView>
    decreases items.len(),
{
    if items.len() == 0 {
        Seq::empty()
    } else if items.len() == 1 {
        item_text(items[0])
    } else {
        item_text(items[0]) + seq![symbol_token_of(SymbolType::Comma)] + item_list(
            items.drop_first(),
        )
    }
}

/// A `SELECT` statement written out as tokens.
pub open spec fn select_text(s: SelectView) -> Seq<TokenView> {
    seq![keyword_token_of(KeywordType::Select)] + item_list(s.items) + seq![
        keyword_token_of(KeywordType::From),
        s.table_name,
    ]
}

proof fn lemma_skip_more(u: Seq<TokenView>, i: int, x: Seq<TokenView>, m: int)
    requires
        0 <= i <= u.len(),
        u.skip(i) == x,
        0 <= m <= x.len(),
    ensures
        u.skip(i + m) == x.skip(m),
{
    assert forall|k: int| 0 <= k < u.len() - (i + m) implies #[trigger] u.skip(i + m)[k] == x.skip(
        m,
    )[k] by {
        assert(u.skip(i)[k + m] == x[k + m]);
    }
    assert(u.skip(i + m) =~= x.skip(m));
}

proof fn lemma_select_items_shape(
    t: Seq<TokenView>,
    i: int,
    items: Seq<SelectItemView>,
    comma: bool,
)
    requires
        forall|j: int| 0 <= j < items.len() ==> is_item_kind(#[trigger] items[j].name.kind),
    ensures
        select_items(t, i, items, comma) matches Ok(r) ==> forall|j: int|
            0 <= j < r.items.len() ==> is_item_kind(#[trigger] r.items[j].name.kind),
    decreases t.len() - i,
{
    if 0 <= i < t.len() {
        match t[i].kind {
            TokenKind::Identifier | TokenKind::Numeric => {
                let items2 = items.push(SelectItemView { name: t[i], as_name: None });
                assert forall|j: int| 0 <= j < items2.len() implies is_item_kind(
                    #[trigger] items2[j].name.kind,
                ) by {
                    if j < items.len() {
                        assert(items2[j] == items[j]);
                    }
                }
                lemma_select_items_shape(t, i + 1, items2, false);
            },
            TokenKind::Keyword(KeywordType::As) => {
                if items.len() > 0 && i + 1 < t.len() {
                    let last = items.last();
                    let items2 = items.update(
                        items.len() - 1,
                        SelectItemView { name: last.name, as_name: Some(t[i + 1]) },
                    );
                    assert forall|j: int| 0 <= j < items2.len() implies is_item_kind(
                        #[trigger] items2[j].name.kind,
                    ) by {
                        assert(items2[j].name == items[j].name);
                    }
                    lemma_select_items_shape(t, i + 2, items2, comma);
                }
            },
            TokenKind::Symbol(SymbolType::Comma) => {
                lemma_select_items_shape(t, i + 1, items, true);
            },
            _ => {},
        }
    }
}

proof fn lemma_item_list_len(items: Seq<SelectItemView>)
    ensures
        items.len() == 0 ==> item_list(items).len() == 0,
        items.len() == 1 ==> item_list(items) == item_text(items[0]),
        items.len() > 1 ==> item_list(items) == item_text(items[0]) + seq![
            symbol_token_of(SymbolType::Comma),
        ] + item_list(items.drop_first()),
{
}

/// Reading one item written out at `i` pushes it onto `acc`.
proof fn lemma_item_parses(
    u: Seq<TokenView>,
    i: int,
    it: SelectItemView,
    acc: Seq<SelectItemView>,
    comma: bool,
)
    requires
        0 <= i,
        i + item_text(it).len() + 2 <= u.len(),
        u.skip(i).take(item_text(it).len() as int) == item_text(it),
        is_item_kind(it.name.kind),
        acc.len() == 0 || comma,
    ensures
        select_items(u, i, acc, comma) == select_items(
            u,
            i + item_text(it).len(),
            acc.push(it),
            false,
        ),
{
    let n = item_text(it).len() as int;
    assert(u.skip(i).take(n)[0] == u[i]);
    let plain = SelectItemView { name: it.name, as_name: None };
    match it.as_name {
        Some(a) => {
            assert(u.skip(i).take(n)[1] == u[i + 1]);
            assert(u.skip(i).take(n)[2] == u[i + 2]);
            let pushed = acc.push(plain);
            assert(pushed.update(
                pushed.len() - 1,
                SelectItemView { name: pushed.last().name, as_name: Some(u[i + 2]) },
            ) =~= acc.push(it));
            assert(select_items(u, i + 1, pushed, false) == select_items(u, i + 3, acc.push(it), false));
        },
        None => {
            assert(plain == it);
        },
    }
}

proof fn lemma_item_list_parses(
    u: Seq<TokenView>,
    i: int,
    items: Seq<SelectItemView>,
    table: TokenView,
    acc: Seq<SelectItemView>,
    comma: bool,
)
    requires
        0 <= i <= u.len(),
        u.skip(i) == item_list(items) + seq![keyword_token_of(KeywordType::From), table],
        forall|j: int| 0 <= j < items.len() ==> is_item_kind(#[trigger] items[j].name.kind),
        acc.len() == 0 || comma,
    ensures
        select_items(u, i, acc, comma) == Ok::<SelectView, ParseErrorView>(
            SelectView { table_name: table, items: acc + items },
        ),
    decreases items.len(),
{
    lemma_item_list_len(items);
    let y = item_list(items) + seq![keyword_token_of(KeywordType::From), table];
    if items.len() == 0 {
        assert(u.skip(i)[0] == u[i]);
        assert(u.skip(i)[1] == u[i + 1]);
        assert(acc + items =~= acc);
    } else {
        let it = items[0];
        let n = item_text(it).len() as int;
        assert(is_item_kind(it.name.kind));
        assert(u.skip(i).take(n) =~= item_text(it));
        lemma_item_parses(u, i, it, acc, comma);
        let acc1 = acc.push(it);
        let rest = items.drop_first();
        if items.len() == 1 {
            lemma_skip_more(u, i, y, n);
            assert(y.skip(n) =~= seq![keyword_token_of(KeywordType::From), table]);
            assert(u.skip(i + n)[0] == u[i + n]);
            assert(u.skip(i + n)[1] == u[i + n + 1]);
            assert(acc1 =~= acc + items);
        } else {
            lemma_skip_more(u, i, y, n);
            assert(u.skip(i + n)[0] == u[i + n]);
            assert(y.skip(n)[0] == symbol_token_of(SymbolType::Comma));
            lemma_skip_more(u, i, y, n + 1);
            assert(y.skip(n + 1) =~= item_list(rest) + seq![
                keyword_token_of(KeywordType::From),
                table,
            ]);
            assert forall|j: int| 0 <= j < rest.len() implies is_item_kind(
                #[trigger] rest[j].name.kind,
            ) by {
                assert(rest[j] == items[j + 1]);
            }
            lemma_item_list_parses(u, i + n + 1, rest, table, acc1, true);
            assert(acc1 + rest =~= acc + items);
        }
    }
}

/// Parsing a `SELECT` statement, writing it out again and parsing that
/// gives back the same statement: its table name and its items' names and
/// aliases come back unchanged.
pub proof fn lemma_select_round_trip(t: Seq<TokenView>)
    requires
        select_parse(t) is Ok,
        select_parse(t)->Ok_0 is Some,
    ensures
        select_parse(select_text(select_parse(t)->Ok_0->0)) == select_parse(t),
{
    let s = select_parse(t)->Ok_0->0;
    lemma_select_items_shape(t, 1, Seq::empty(), false);
    let u = select_text(s);
    assert(u.skip(1) =~= item_list(s.items) + seq![keyword_token_of(KeywordType::From), s.table_name]);
    lemma_item_list_parses(u, 1, s.items, s.table_name, Seq::empty(), false);
    assert(Seq::<SelectItemView>::empty() + s.items =~= s.items);
    assert(u[0] == keyword_token_of(KeywordType::Select));
}

} // verus!
