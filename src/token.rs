use vstd::prelude::*;
use crate::cursor::Location;

verus! {

/// Punctuation and layout symbols.
#[derive(Clone, Copy, Debug, PartialEq, Eq, Structural)]
pub enum SymbolType {
    Semicolon,
    Comma,
    LeftParen,
    RightParen,
    Eq,
    Neq,
    Plus,
    Lt,
    Lte,
    Gt,
    Gte,
    Endl,
    Tab,
}

/// How a symbol is written.
pub open spec fn symbol_spelling(s: SymbolType) -> Seq<char> {
    match s {
        SymbolType::Semicolon => seq![';'],
        SymbolType::Comma => seq![','],
        SymbolType::LeftParen => seq!['('],
        SymbolType::RightParen => seq![')'],
        SymbolType::Eq => seq!['='],
        SymbolType::Neq => seq!['!', '='],
        SymbolType::Plus => seq!['+'],
        SymbolType::Lt => seq!['<'],
        SymbolType::Lte => seq!['<', '='],
        SymbolType::Gt => seq!['>'],
        SymbolType::Gte => seq!['>', '='],
        SymbolType::Endl => seq!['\n'],
        SymbolType::Tab => seq!['\t'],
    }
}

/// The order in which the lexer tries the symbols: a two-character symbol
/// comes before the one-character symbol that it starts with.
pub open spec fn symbol_order() -> Seq<SymbolType> {
    seq![
        SymbolType::Semicolon,
        SymbolType::Comma,
        SymbolType::LeftParen,
        SymbolType::RightParen,
        SymbolType::Eq,
        SymbolType::Neq,
        SymbolType::Plus,
        SymbolType::Lte,
        SymbolType::Lt,
        SymbolType::Gte,
        SymbolType::Gt,
        SymbolType::Endl,
        SymbolType::Tab,
    ]
}

/// Newline and tab move the location to a new line.
pub open spec fn is_layout(s: SymbolType) -> bool {
    s == SymbolType::Endl || s == SymbolType::Tab
}

impl SymbolType {
    pub fn value(&self) -> (r: &'static str)
        ensures
            r@ == symbol_spelling(*self),
    {
        match self {
            SymbolType::Semicolon => {
                proof { reveal_strlit(";"); }
                ";"
            },
            SymbolType::Comma => {
                proof { reveal_strlit(","); }
                ","
            },
            SymbolType::LeftParen => {
                proof { reveal_strlit("("); }
                "("
            },
            SymbolType::RightParen => {
                proof { reveal_strlit(")"); }
                ")"
            },
            SymbolType::Eq => {
                proof { reveal_strlit("="); }
                "="
            },
            SymbolType::Neq => {
                proof { reveal_strlit("!="); }
                "!="
            },
            SymbolType::Plus => {
                proof { reveal_strlit("+"); }
                "+"
            },
            SymbolType::Lt => {
                proof { reveal_strlit("<"); }
                "<"
            },
            SymbolType::Lte => {
                proof { reveal_strlit("<="); }
                "<="
            },
            SymbolType::Gt => {
                proof { reveal_strlit(">"); }
                ">"
            },
            SymbolType::Gte => {
                proof { reveal_strlit(">="); }
                ">="
            },
            SymbolType::Endl => {
                proof { reveal_strlit("\n"); }
                "\n"
            },
            SymbolType::Tab => {
                proof { reveal_strlit("\t"); }
                "\t"
            },
        }
    }

    /// All symbols, in the order in which the lexer tries them.
    pub fn values() -> (r: Vec<SymbolType>)
        ensures
            r@ == symbol_order(),
    {
        let r = vec![
            SymbolType::Semicolon,
            SymbolType::Comma,
            SymbolType::LeftParen,
            SymbolType::RightParen,
            SymbolType::Eq,
            SymbolType::Neq,
            SymbolType::Plus,
            SymbolType::Lte,
            SymbolType::Lt,
            SymbolType::Gte,
            SymbolType::Gt,
            SymbolType::Endl,
            SymbolType::Tab,
        ];
        assert(r@ =~= symbol_order());
        r
    }
}

/// Reserved words.
#[derive(Clone, Copy, Debug, PartialEq, Eq, Structural)]
pub enum KeywordType {
    Select,
    From,
    Create,
    Insert,
    As,
    And,
    Or,
    Into,
    Table,
    Values,
    Int,
    Text,
    Where,
}

/// How a keyword is written.
pub open spec fn keyword_spelling(k: KeywordType) -> Seq<char> {
    match k {
        KeywordType::Select => seq!['s', 'e', 'l', 'e', 'c', 't'],
        KeywordType::From => seq!['f', 'r', 'o', 'm'],
        KeywordType::Create => seq!['c', 'r', 'e', 'a', 't', 'e'],
        KeywordType::Insert => seq!['i', 'n', 's', 'e', 'r', 't'],
        KeywordType::As => seq!['a', 's'],
        KeywordType::And => seq!['a', 'n', 'd'],
        KeywordType::Or => seq!['o', 'r'],
        KeywordType::Into => seq!['i', 'n', 't', 'o'],
        KeywordType::Table => seq!['t', 'a', 'b', 'l', 'e'],
        KeywordType::Values => seq!['v', 'a', 'l', 'u', 'e', 's'],
        KeywordType::Int => seq!['i', 'n', 't'],
        KeywordType::Text => seq!['t', 'e', 'x', 't'],
        KeywordType::Where => seq!['w', 'h', 'e', 'r', 'e'],
    }
}

/// The order in which the lexer tries the keywords; the first that the text
/// starts with wins.
pub open spec fn keyword_order() -> Seq<KeywordType> {
    seq![
        KeywordType::Select,
        KeywordType::From,
        KeywordType::Create,
        KeywordType::Insert,
        KeywordType::As,
        KeywordType::Table,
        KeywordType::Values,
        KeywordType::Into,
        KeywordType::Int,
        KeywordType::Text,
        KeywordType::Where,
        KeywordType::And,
        KeywordType::Or,
    ]
}

impl KeywordType {
    pub fn value(&self) -> (r: &'static str)
        ensures
            r@ == keyword_spelling(*self),
    {
        match self {
            KeywordType::Select => {
                proof { reveal_strlit("select"); }
                "select"
            },
            KeywordType::From => {
                proof { reveal_strlit("from"); }
                "from"
            },
            KeywordType::Create => {
                proof { reveal_strlit("create"); }
                "create"
            },
            KeywordType::Insert => {
                proof { reveal_strlit("insert"); }
                "insert"
            },
            KeywordType::As => {
                proof { reveal_strlit("as"); }
                "as"
            },
            KeywordType::Table => {
                proof { reveal_strlit("table"); }
                "table"
            },
            KeywordType::Values => {
                proof { reveal_strlit("values"); }
                "values"
            },
            KeywordType::Int => {
                proof { reveal_strlit("int"); }
                "int"
            },
            KeywordType::Text => {
                proof { reveal_strlit("text"); }
                "text"
            },
            KeywordType::Into => {
                proof { reveal_strlit("into"); }
                "into"
            },
            KeywordType::Where => {
                proof { reveal_strlit("where"); }
                "where"
            },
            KeywordType::And => {
                proof { reveal_strlit("and"); }
                "and"
            },
            KeywordType::Or => {
                proof { reveal_strlit("or"); }
                "or"
            },
        }
    }

    /// All keywords, in the order in which the lexer tries them.
    pub fn values() -> (r: Vec<KeywordType>)
        ensures
            r@ == keyword_order(),
    {
        let r = vec![
            KeywordType::Select,
            KeywordType::From,
            KeywordType::Create,
            KeywordType::Insert,
            KeywordType::As,
            KeywordType::Table,
            KeywordType::Values,
            KeywordType::Into,
            KeywordType::Int,
            KeywordType::Text,
            KeywordType::Where,
            KeywordType::And,
            KeywordType::Or,
        ];
        assert(r@ =~= keyword_order());
        r
    }
}

/// What a token is.
#[derive(Clone, Copy, Debug, PartialEq, Eq, Structural)]
pub enum TokenKind {
    Keyword(KeywordType),
    Symbol(SymbolType),
    Identifier,
    String,
    Numeric,
    Null,
}

/// A classified piece of the source text and where it starts.
#[derive(Debug)]
pub struct Token {
    pub value: String,
    pub kind: TokenKind,
    pub loc: Location,
}

impl Token {
    /// The token that stands for a missing one when the input ends early.
    pub fn empty_token() -> (r: Token)
        ensures
            r.value@ == Seq::<char>::empty(),
            r.kind == TokenKind::Null,
            r.loc == (Location { line: 0, column: 0 }),
    {
        Token { value: String::new(), kind: TokenKind::Null, loc: Location { line: 0, column: 0 } }
    }
}

impl Clone for Token {
    fn clone(&self) -> (r: Self)
        ensures
            r == *self,
    {
        Token { value: self.value.clone(), kind: self.kind, loc: self.loc }
    }
}

} // verus!

verus! {

/// A token as a mathematical value.
pub struct TokenView {
    pub value: Seq<char>,
    pub kind: TokenKind,
    pub loc: Location,
}

impl View for Token {
    type V = TokenView;

    open spec fn view(&self) -> TokenView {
        TokenView { value: self.value@, kind: self.kind, loc: self.loc }
    }
}

} // verus!
