use vstd::prelude::*;
use crate::cursor::{merged, Cursor, Location};
use crate::lex_error::{ErrorKind, LexError};
use crate::lexer::{
    advance, first_keyword, first_symbol, ident_token, keyword_token, lemma_first_keyword,
    lemma_first_symbol, lex_from, lex_spec, next_token, numeric_body, numeric_match, numeric_scan,
    numeric_token, string_token, symbol_token,
};
use crate::text::is_ascii_digit;
use crate::token::{keyword_spelling, symbol_spelling, TokenKind, TokenView};

verus! {

/// The cursor at the start of a text.
pub open spec fn origin() -> Cursor {
    Cursor { pointer: 0, loc: Location { line: 0, column: 0 } }
}

proof fn lemma_scan_facts(s: Seq<char>, i: int)
    requires
        0 <= i <= s.len(),
    ensures
        i <= numeric_scan(s, i) <= s.len(),
        forall|j: int| i <= j < numeric_scan(s, i) ==> numeric_body(s, j),
        numeric_scan(s, i) == s.len() || !numeric_body(s, numeric_scan(s, i)),
    decreases s.len() - i,
{
    if i < s.len() && numeric_body(s, i) {
        lemma_scan_facts(s, i + 1);
    }
}

/// A text that starts with a number lexes first into that number, and the
/// number is the longest prefix that can make one: every character of it
/// can continue a number and the next one cannot.
pub proof fn lemma_lex_numeric_prefix(s: Seq<char>)
    requires
        s.len() <= usize::MAX,
        numeric_match(s, 0) is Some,
    ensures
        ({
            let q = numeric_match(s, 0)->0;
            &&& 0 < q <= s.len()
            &&& forall|j: int| 0 <= j < q ==> numeric_body(s, j)
            &&& q == s.len() || !numeric_body(s, q)
            &&& lex_spec(s) == lex_from(
                s,
                q,
                advance(q),
                seq![TokenView { value: s.subrange(0, q), kind: TokenKind::Numeric, loc: origin().loc }],
            )
        }),
{
    lemma_scan_facts(s, 0);
    let q = numeric_match(s, 0)->0;
    assert(numeric_body(s, 0));
    assert(next_token(s, 0, origin().loc) == numeric_token(s, 0, origin().loc));
    assert(merged(origin(), advance(q)) == advance(q));
    assert(Seq::<TokenView>::empty().push(
        TokenView { value: s.subrange(0, q), kind: TokenKind::Numeric, loc: origin().loc },
    ) =~= seq![TokenView { value: s.subrange(0, q), kind: TokenKind::Numeric, loc: origin().loc }]);
}

/// A text that starts with a keyword's spelling lexes first into that
/// keyword, even where letters follow that would make a longer identifier:
/// keywords are tried before identifiers, by prefix.
pub proof fn lemma_keyword_before_identifier(s: Seq<char>)
    requires
        s.len() <= usize::MAX,
        first_keyword(s, 0, 0) is Some,
    ensures
        ({
            let k = first_keyword(s, 0, 0)->0;
            let n = keyword_spelling(k).len() as int;
            &&& ident_token(s, 0, origin().loc) is Some
            &&& lex_spec(s) == lex_from(
                s,
                n,
                advance(n),
                seq![TokenView { value: keyword_spelling(k), kind: TokenKind::Keyword(k), loc: origin().loc }],
            )
        }),
{
    let k = first_keyword(s, 0, 0)->0;
    let n = keyword_spelling(k).len() as int;
    lemma_first_keyword(s, 0, 0);
    assert(s.subrange(0, n)[0] == s[0]);
    assert(numeric_match(s, 0) is None);
    assert(next_token(s, 0, origin().loc) == keyword_token(s, 0, origin().loc));
    assert(merged(origin(), advance(n)) == advance(n));
    assert(Seq::<TokenView>::empty().push(
        TokenView { value: keyword_spelling(k), kind: TokenKind::Keyword(k), loc: origin().loc },
    ) =~= seq![TokenView { value: keyword_spelling(k), kind: TokenKind::Keyword(k), loc: origin().loc }]);
}

/// Every keyword and every symbol is spelled starting with neither a digit
/// nor a period.
proof fn lemma_spellings_start(s: Seq<char>)
    requires
        s.len() > 0,
        is_ascii_digit(s[0]) || s[0] == '.',
    ensures
        first_keyword(s, 0, 0) is None,
        first_symbol(s, 0, 0) is None,
{
    lemma_first_keyword(s, 0, 0);
    if let Some(k) = first_keyword(s, 0, 0) {
        assert(s.subrange(0, keyword_spelling(k).len() as int)[0] == s[0]);
    }
    lemma_first_symbol(s, 0, 0);
    if let Some(y) = first_symbol(s, 0, 0) {
        assert(s.subrange(0, symbol_spelling(y).len() as int)[0] == s[0]);
    }
}

/// A text that starts with a digit or a period but whose number breaks its
/// shape (a second period or exponent marker, a period after the exponent
/// marker, or an exponent marker that ends the text) is no number, and no
/// other token starts with such a character: lexing fails at the start.
pub proof fn lemma_broken_number_does_not_lex(s: Seq<char>)
    requires
        s.len() <= usize::MAX,
        s.len() > 0,
        is_ascii_digit(s[0]) || s[0] == '.',
        numeric_match(s, 0) is None,
    ensures
        lex_spec(s) == Err::<Seq<TokenView>, LexError>(
            LexError { kind: ErrorKind::InvalidToken, location: origin().loc },
        ),
{
    lemma_spellings_start(s);
    assert(keyword_token(s, 0, origin().loc) is None);
    assert(string_token(s, 0, origin().loc) is None);
    assert(symbol_token(s, 0, origin().loc) is None);
    assert(ident_token(s, 0, origin().loc) is None);
    assert(next_token(s, 0, origin().loc) is None);
}

/// No token starts at a space: lexing steps over it, one byte and one
/// column further, with the tokens found so far unchanged.
pub proof fn lemma_space_starts_no_token(s: Seq<char>, p: int, cur: Cursor, acc: Seq<TokenView>)
    requires
        s.len() <= usize::MAX,
        0 <= p < s.len(),
        s[p] == ' ',
    ensures
        next_token(s, p, cur.loc) is None,
        lex_from(s, p, cur, acc) == lex_from(s, p + 1, merged(cur, advance(1)), acc),
{
    lemma_first_keyword(s, p, 0);
    if let Some(k) = first_keyword(s, p, 0) {
        assert(s.subrange(p, p + keyword_spelling(k).len())[0] == s[p]);
    }
    lemma_first_symbol(s, p, 0);
    if let Some(y) = first_symbol(s, p, 0) {
        assert(s.subrange(p, p + symbol_spelling(y).len())[0] == s[p]);
    }
    assert(keyword_token(s, p, cur.loc) is None);
    assert(symbol_token(s, p, cur.loc) is None);
}

} // verus!
