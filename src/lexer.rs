use vstd::prelude::*;
pub use crate::cursor::{Cursor, Location};
use crate::cursor::merged;
use crate::lex_error::{ErrorKind, LexError};
use crate::text::{
    byte_count, byte_len, chars_of, is_alnum, is_alpha, is_ascii_alnum, is_ascii_alpha,
    is_ascii_digit, is_digit, lemma_byte_len_at_least, lemma_byte_len_split, lower_all, string_of,
};
pub use crate::token::{KeywordType, SymbolType, Token, TokenKind};
use crate::token::{
    is_layout, keyword_order, keyword_spelling, symbol_order, symbol_spelling, TokenView,
};
use vstd::string::StrSliceExecFns;

verus! {

/// A recognizer's outcome seen as values: the token and how far it advanced.
pub open spec fn seen(r: Option<(Token, Cursor)>) -> Option<(TokenView, Cursor)> {
    match r {
        Some((t, d)) => Some((t@, d)),
        None => None,
    }
}

/// The delta of a token of `n` one-byte characters on one line.
pub open spec fn advance(n: int) -> Cursor {
    Cursor { pointer: n as usize, loc: Location { line: 0, column: n as usize } }
}

/// Whether the character at `i` can continue a number: a digit, a period, an
/// exponent marker, or a sign right after an exponent marker.
pub open spec fn numeric_body(s: Seq<char>, i: int) -> bool {
    let c = s[i];
    is_ascii_digit(c) || c == '.' || c == 'e' || ((c == '+' || c == '-') && i >= 1 && s[i - 1]
        == 'e')
}

/// The first index from `i` on whose character cannot continue a number.
pub open spec fn numeric_scan(s: Seq<char>, i: int) -> int
    decreases s.len() - i,
{
    if i < 0 || i >= s.len() || !numeric_body(s, i) {
        i
    } else {
        numeric_scan(s, i + 1)
    }
}

/// `b` after `a` in a number breaks its shape: a second period, a period
/// after the exponent marker, or a second exponent marker.
pub open spec fn breaks_shape(a: char, b: char) -> bool {
    (b == '.' && (a == '.' || a == 'e')) || (a == 'e' && b == 'e')
}

/// `s[p..q]` holds at most one period and one exponent marker, and no
/// period after the exponent marker.
pub open spec fn numeric_shape_ok(s: Seq<char>, p: int, q: int) -> bool {
    forall|i: int, j: int| p <= i < j < q ==> !breaks_shape(#[trigger] s[i], #[trigger] s[j])
}

/// Where the number that starts at `p` ends: it runs up to the first
/// character that cannot continue it, and there is none if it starts with
/// neither a digit nor a period, breaks its shape, or ends the text with an
/// exponent marker.
pub open spec fn numeric_match(s: Seq<char>, p: int) -> Option<int> {
    if p < 0 || p >= s.len() || !(is_ascii_digit(s[p]) || s[p] == '.') {
        None
    } else {
        let q = numeric_scan(s, p);
        if !numeric_shape_ok(s, p, q) || (q == s.len() && s[s.len() - 1] == 'e') {
            None
        } else {
            Some(q)
        }
    }
}

/// The numeric token at `p`, if a number starts there.
pub open spec fn numeric_token(s: Seq<char>, p: int, loc: Location) -> Option<(TokenView, Cursor)> {
    match numeric_match(s, p) {
        Some(q) => Some(
            (TokenView { value: s.subrange(p, q), kind: TokenKind::Numeric, loc }, advance(q - p)),
        ),
        None => None,
    }
}

proof fn lemma_numeric_scan_skip(s: Seq<char>, p: int, k: int)
    requires
        0 <= p <= k <= s.len(),
        forall|i: int| p <= i < k ==> numeric_body(s, i),
    ensures
        numeric_scan(s, p) == numeric_scan(s, k),
    decreases k - p,
{
    if p < k {
        lemma_numeric_scan_skip(s, p + 1, k);
    }
}

proof fn lemma_numeric_scan_min(s: Seq<char>, i: int)
    requires
        0 <= i,
    ensures
        numeric_scan(s, i) >= i,
    decreases s.len() - i,
{
    if i < s.len() && numeric_body(s, i) {
        lemma_numeric_scan_min(s, i + 1);
    }
}

/// The number at `pos`: digits with at most one period and one exponent
/// marker, read left to right.
fn numeric_at(src: &Vec<char>, pos: usize, loc: Location) -> (r: Option<(Token, Cursor)>)
    requires
        pos <= src@.len(),
    ensures
        seen(r) == numeric_token(src@, pos as int, loc),
{
    let ghost s = src@;
    let n = src.len();
    if pos >= n || !(is_digit(src[pos]) || src[pos] == '.') {
        return None;
    }
    let mut period_found = false;
    let mut exp_found = false;
    let mut i = pos;
    while i < n
        invariant
            pos < n == s.len(),
            s == src@,
            pos <= i <= n,
            forall|j: int| pos <= j < i ==> numeric_body(s, j),
            numeric_shape_ok(s, pos as int, i as int),
            period_found <==> exists|j: int| pos <= j < i && (#[trigger] s[j] == '.' || s[j] == 'e'),
            exp_found <==> exists|j: int| pos <= j < i && #[trigger] s[j] == 'e',
            is_ascii_digit(s[pos as int]) || s[pos as int] == '.',
            i > pos && i == n ==> s[n - 1] != 'e',
        ensures
            forall|j: int| pos <= j < i ==> numeric_body(s, j),
            numeric_shape_ok(s, pos as int, i as int),
            i == n || !numeric_body(s, i as int),
            i == n ==> s[n - 1] != 'e',
        decreases n - i,
    {
        let c = src[i];
        if c == '.' {
            if period_found {
                proof {
                    lemma_numeric_scan_skip(s, pos as int, i + 1);
                    lemma_numeric_scan_min(s, i + 1);
                    let j = choose|j: int| pos <= j < i && (#[trigger] s[j] == '.' || s[j] == 'e');
                    assert(breaks_shape(s[j], s[i as int]));
                }
                return None;
            }
            period_found = true;
        } else if c == 'e' {
            if exp_found {
                proof {
                    lemma_numeric_scan_skip(s, pos as int, i + 1);
                    lemma_numeric_scan_min(s, i + 1);
                    let j = choose|j: int| pos <= j < i && #[trigger] s[j] == 'e';
                    assert(breaks_shape(s[j], s[i as int]));
                }
                return None;
            }
            if i == n - 1 {
                proof {
                    lemma_numeric_scan_skip(s, pos as int, n as int);
                }
                return None;
            }
            exp_found = true;
            period_found = true;
        } else if (c == '+' || c == '-') && i > pos && src[i - 1] == 'e' {
        } else if !is_digit(c) {
            break;
        }
        i = i + 1;
    }
    proof {
        lemma_numeric_scan_skip(s, pos as int, i as int);
    }
    let value = string_of(src, pos, i, false);
    Some((Token { value, kind: TokenKind::Numeric, loc }, Cursor { pointer: i - pos, loc: Location { line: 0, column: i - pos } }))
}

/// `s` holds `w` from index `p` on.
pub open spec fn starts_at(s: Seq<char>, p: int, w: Seq<char>) -> bool {
    0 <= p && p + w.len() <= s.len() && s.subrange(p, p + w.len()) == w
}

/// Whether `src` holds `w` from `pos` on.
fn starts_with_at(src: &Vec<char>, pos: usize, w: &str) -> (r: bool)
    requires
        pos <= src@.len(),
    ensures
        r == starts_at(src@, pos as int, w@),
{
    let len = w.unicode_len();
    let n = src.len();
    if len > n - pos {
        return false;
    }
    let mut i: usize = 0;
    while i < len
        invariant
            len == w@.len(),
            pos + len <= n == src@.len(),
            0 <= i <= len,
            forall|j: int| 0 <= j < i ==> src@[pos + j] == w@[j],
        decreases len - i,
    {
        if src[pos + i] != w.get_char(i) {
            assert(src@.subrange(pos as int, pos + len)[i as int] != w@[i as int]);
            return false;
        }
        i = i + 1;
    }
    assert(src@.subrange(pos as int, pos + len) =~= w@);
    true
}

/// The first keyword, in the order the lexer tries them from the `i`-th on,
/// that the text holds from `p` on.
pub open spec fn first_keyword(s: Seq<char>, p: int, i: int) -> Option<KeywordType>
    decreases keyword_order().len() - i,
{
    if i < 0 || i >= keyword_order().len() {
        None
    } else if starts_at(s, p, keyword_spelling(keyword_order()[i])) {
        Some(keyword_order()[i])
    } else {
        first_keyword(s, p, i + 1)
    }
}

/// The keyword token at `p`, if a keyword is spelled there.
pub open spec fn keyword_token(s: Seq<char>, p: int, loc: Location) -> Option<(TokenView, Cursor)> {
    match first_keyword(s, p, 0) {
        Some(k) => Some(
            (
                TokenView { value: keyword_spelling(k), kind: TokenKind::Keyword(k), loc },
                advance(keyword_spelling(k).len() as int),
            ),
        ),
        None => None,
    }
}

/// The first keyword, in list order, spelled at `pos`.
fn keyword_at(src: &Vec<char>, pos: usize, loc: Location) -> (r: Option<(Token, Cursor)>)
    requires
        pos <= src@.len(),
    ensures
        seen(r) == keyword_token(src@, pos as int, loc),
{
    let keywords = KeywordType::values();
    let mut i: usize = 0;
    while i < keywords.len()
        invariant
            keywords@ == keyword_order(),
            pos <= src@.len(),
            0 <= i <= keywords@.len(),
            first_keyword(src@, pos as int, 0) == first_keyword(src@, pos as int, i as int),
        decreases keywords@.len() - i,
    {
        let k = keywords[i];
        let w = k.value();
        if starts_with_at(src, pos, w) {
            let len = w.unicode_len();
            let n = src.len();
            assert(pos + len <= n);
            let value = string_of(src, pos, pos + len, false);
            return Some((
                Token { value, kind: TokenKind::Keyword(k), loc },
                Cursor { pointer: len, loc: Location { line: 0, column: len } },
            ));
        }
        i = i + 1;
    }
    None
}

/// The first symbol, in the order the lexer tries them from the `i`-th on,
/// that the text holds from `p` on.
pub open spec fn first_symbol(s: Seq<char>, p: int, i: int) -> Option<SymbolType>
    decreases symbol_order().len() - i,
{
    if i < 0 || i >= symbol_order().len() {
        None
    } else if starts_at(s, p, symbol_spelling(symbol_order()[i])) {
        Some(symbol_order()[i])
    } else {
        first_symbol(s, p, i + 1)
    }
}

/// How far a symbol moves the location: a layout symbol starts a new line at
/// its first column, any other advances along the line.
pub open spec fn symbol_delta(y: SymbolType) -> Cursor {
    if is_layout(y) {
        Cursor { pointer: 1, loc: Location { line: 1, column: 0 } }
    } else {
        advance(symbol_spelling(y).len() as int)
    }
}

/// The symbol token at `p`, if a symbol is spelled there.
pub open spec fn symbol_token(s: Seq<char>, p: int, loc: Location) -> Option<(TokenView, Cursor)> {
    match first_symbol(s, p, 0) {
        Some(y) => Some(
            (TokenView { value: symbol_spelling(y), kind: TokenKind::Symbol(y), loc }, symbol_delta(y)),
        ),
        None => None,
    }
}

/// The first symbol, in list order, spelled at `pos`.
fn symbol_at(src: &Vec<char>, pos: usize, loc: Location) -> (r: Option<(Token, Cursor)>)
    requires
        pos <= src@.len(),
    ensures
        seen(r) == symbol_token(src@, pos as int, loc),
{
    let symbols = SymbolType::values();
    let mut i: usize = 0;
    while i < symbols.len()
        invariant
            symbols@ == symbol_order(),
            pos <= src@.len(),
            0 <= i <= symbols@.len(),
            first_symbol(src@, pos as int, 0) == first_symbol(src@, pos as int, i as int),
        decreases symbols@.len() - i,
    {
        let y = symbols[i];
        let w = y.value();
        if starts_with_at(src, pos, w) {
            let len = w.unicode_len();
            let n = src.len();
            assert(pos + len <= n);
            let value = string_of(src, pos, pos + len, false);
            let delta = match y {
                SymbolType::Endl | SymbolType::Tab => Cursor {
                    pointer: 1,
                    loc: Location { line: 1, column: 0 },
                },
                _ => Cursor { pointer: len, loc: Location { line: 0, column: len } },
            };
            return Some((Token { value, kind: TokenKind::Symbol(y), loc }, delta));
        }
        i = i + 1;
    }
    None
}

/// Scanning a text delimited by `d` from index `i` on, inside the
/// delimiters: the index just past the closing delimiter, if there is one.
/// Two delimiters in a row stand for one delimiter inside the text and close
/// nothing.
pub open spec fn delimited_close(s: Seq<char>, i: int, d: char) -> Option<int>
    decreases s.len() - i,
{
    if i < 0 || i >= s.len() {
        None
    } else if s[i] != d {
        delimited_close(s, i + 1, d)
    } else if i + 1 < s.len() && s[i + 1] == d {
        delimited_close(s, i + 2, d)
    } else {
        Some(i + 1)
    }
}

/// Where the text delimited by `d` that starts at `p` ends, delimiters
/// included: there is none unless a delimiter closes it once doubled ones
/// are read as escapes.
pub open spec fn delimited_match(s: Seq<char>, p: int, d: char) -> Option<int> {
    if 0 <= p < s.len() && s[p] == d {
        delimited_close(s, p + 1, d)
    } else {
        None
    }
}

/// The string token at `p` delimited by `d`, if one starts there.
pub open spec fn delimited_token(s: Seq<char>, p: int, d: char, loc: Location) -> Option<
    (TokenView, Cursor),
> {
    match delimited_match(s, p, d) {
        Some(q) => Some(
            (
                TokenView { value: s.subrange(p, q), kind: TokenKind::String, loc },
                Cursor {
                    pointer: byte_len(s.subrange(p, q)) as usize,
                    loc: Location { line: 0, column: (q - p) as usize },
                },
            ),
        ),
        None => None,
    }
}

/// A string literal is delimited by single quotes.
pub open spec fn string_token(s: Seq<char>, p: int, loc: Location) -> Option<(TokenView, Cursor)> {
    delimited_token(s, p, '\'', loc)
}

proof fn lemma_delimited_close_bounds(s: Seq<char>, i: int, d: char)
    requires
        0 <= i,
    ensures
        delimited_close(s, i, d) matches Some(q) ==> i < q <= s.len(),
    decreases s.len() - i,
{
    if 0 <= i < s.len() && s[i] != d {
        lemma_delimited_close_bounds(s, i + 1, d);
    } else if 0 <= i < s.len() && i + 1 < s.len() && s[i + 1] == d {
        lemma_delimited_close_bounds(s, i + 2, d);
    }
}

proof fn lemma_delimited_match_bounds(s: Seq<char>, p: int, d: char)
    requires
        0 <= p,
    ensures
        delimited_match(s, p, d) matches Some(q) ==> p + 1 < q <= s.len(),
{
    lemma_delimited_close_bounds(s, p + 1, d);
}

/// The text delimited by `d` at `pos`: a scan for the closing delimiter
/// that steps over doubled delimiters.
fn delimited_at(src: &Vec<char>, pos: usize, d: char, loc: Location) -> (r: Option<(Token, Cursor)>)
    requires
        pos <= src@.len(),
        byte_len(src@) <= usize::MAX,
    ensures
        seen(r) == delimited_token(src@, pos as int, d, loc),
{
    let n = src.len();
    if pos >= n || src[pos] != d {
        return None;
    }
    let mut i = pos + 1;
    let mut end = n;
    while i < n
        invariant
            pos < i <= n == src@.len(),
            end <= n,
            delimited_close(src@, pos + 1, d) == delimited_close(src@, i as int, d),
        ensures
            end <= n,
            i >= n ==> delimited_close(src@, pos + 1, d) is None,
            i < n ==> delimited_close(src@, pos + 1, d) == Some(end as int) && i < end,
        decreases n - i,
    {
        if src[i] != d {
            i = i + 1;
        } else if i + 1 < n && src[i + 1] == d {
            i = i + 2;
        } else {
            end = i + 1;
            break;
        }
    }
    if i >= n {
        return None;
    }
    proof {
        lemma_delimited_close_bounds(src@, pos + 1, d);
    }
    let value = string_of(src, pos, end, false);
    let bytes = byte_count(src, pos, end);
    Some((
        Token { value, kind: TokenKind::String, loc },
        Cursor { pointer: bytes, loc: Location { line: 0, column: end - pos } },
    ))
}

/// Whether `c` can continue an identifier.
pub open spec fn ident_body(c: char) -> bool {
    is_ascii_alnum(c) || c == '_'
}

/// The first index from `i` on whose character cannot continue an identifier.
pub open spec fn ident_scan(s: Seq<char>, i: int) -> int
    decreases s.len() - i,
{
    if i < 0 || i >= s.len() || !ident_body(s[i]) {
        i
    } else {
        ident_scan(s, i + 1)
    }
}

/// Where the identifier that starts at `p` ends: it starts with an ASCII
/// letter and goes on over letters, digits and underscores.
pub open spec fn ident_match(s: Seq<char>, p: int) -> Option<int> {
    if 0 <= p < s.len() && is_ascii_alpha(s[p]) {
        Some(ident_scan(s, p + 1))
    } else {
        None
    }
}

/// An identifier's value is its text in lower case.
pub open spec fn ident_token(s: Seq<char>, p: int, loc: Location) -> Option<(TokenView, Cursor)> {
    match ident_match(s, p) {
        Some(q) => Some(
            (
                TokenView { value: lower_all(s.subrange(p, q)), kind: TokenKind::Identifier, loc },
                advance(q - p),
            ),
        ),
        None => None,
    }
}

proof fn lemma_ident_scan_skip(s: Seq<char>, p: int, k: int)
    requires
        0 <= p <= k <= s.len(),
        forall|i: int| p <= i < k ==> ident_body(#[trigger] s[i]),
    ensures
        ident_scan(s, p) == ident_scan(s, k),
    decreases k - p,
{
    if p < k {
        lemma_ident_scan_skip(s, p + 1, k);
    }
}

/// The identifier at `pos`, folded to lower case.
fn identifier_at(src: &Vec<char>, pos: usize, loc: Location) -> (r: Option<(Token, Cursor)>)
    requires
        pos <= src@.len(),
    ensures
        seen(r) == ident_token(src@, pos as int, loc),
{
    let n = src.len();
    if pos >= n || !is_alpha(src[pos]) {
        return None;
    }
    let mut i = pos + 1;
    while i < n
        invariant
            pos < i <= n == src@.len(),
            forall|j: int| pos < j < i ==> ident_body(#[trigger] src@[j]),
        ensures
            forall|j: int| pos < j < i ==> ident_body(#[trigger] src@[j]),
            i == n || !ident_body(src@[i as int]),
        decreases n - i,
    {
        let c = src[i];
        if !(is_alnum(c) || c == '_') {
            break;
        }
        i = i + 1;
    }
    proof {
        lemma_ident_scan_skip(src@, pos + 1, i as int);
    }
    let value = string_of(src, pos, i, true);
    Some((
        Token { value, kind: TokenKind::Identifier, loc },
        Cursor { pointer: i - pos, loc: Location { line: 0, column: i - pos } },
    ))
}

/// The token at `p`, if any: the recognizers are tried in a fixed order,
/// numeric, keyword, string, symbol, identifier, and the first that matches
/// wins.
pub open spec fn next_token(s: Seq<char>, p: int, loc: Location) -> Option<(TokenView, Cursor)> {
    if numeric_token(s, p, loc) is Some {
        numeric_token(s, p, loc)
    } else if keyword_token(s, p, loc) is Some {
        keyword_token(s, p, loc)
    } else if string_token(s, p, loc) is Some {
        string_token(s, p, loc)
    } else if symbol_token(s, p, loc) is Some {
        symbol_token(s, p, loc)
    } else {
        ident_token(s, p, loc)
    }
}

/// Lexing `s` from index `p` on, with the running cursor `cur` and the
/// tokens `acc` found before `p`: each step takes the token at `p` and moves
/// past its characters, or skips one space, or fails with `InvalidToken` at
/// the cursor's location.
pub open spec fn lex_from(s: Seq<char>, p: int, cur: Cursor, acc: Seq<TokenView>) -> Result<
    Seq<TokenView>,
    LexError,
>
    decreases s.len() - p,
    when 0 <= p && s.len() <= usize::MAX
{
    if p >= s.len() {
        Ok(acc)
    } else {
        match next_token(s, p, cur.loc) {
            Some((t, d)) => {
                proof {
                    lemma_next_token_delta(s, p, cur.loc);
                }
                lex_from(s, p + t.value.len(), merged(cur, d), acc.push(t))
            },
            None => if s[p] == ' ' {
                lex_from(s, p + 1, merged(cur, advance(1)), acc)
            } else {
                Err(LexError { kind: ErrorKind::InvalidToken, location: cur.loc })
            },
        }
    }
}

/// The tokens of `s`, or where lexing it fails.
pub open spec fn lex_spec(s: Seq<char>) -> Result<Seq<TokenView>, LexError> {
    lex_from(s, 0, Cursor { pointer: 0, loc: Location { line: 0, column: 0 } }, Seq::empty())
}

/// A lexing outcome seen as values.
pub open spec fn lexed(r: Result<Vec<Token>, LexError>) -> Result<Seq<TokenView>, LexError> {
    match r {
        Ok(v) => Ok(v@.map_values(|t: Token| t@)),
        Err(e) => Err(e),
    }
}

proof fn lemma_numeric_scan_max(s: Seq<char>, i: int)
    requires
        0 <= i <= s.len(),
    ensures
        numeric_scan(s, i) <= s.len(),
    decreases s.len() - i,
{
    if i < s.len() && numeric_body(s, i) {
        lemma_numeric_scan_max(s, i + 1);
    }
}

proof fn lemma_ident_scan_bounds(s: Seq<char>, i: int)
    requires
        0 <= i <= s.len(),
    ensures
        i <= ident_scan(s, i) <= s.len(),
    decreases s.len() - i,
{
    if i < s.len() && ident_body(s[i]) {
        lemma_ident_scan_bounds(s, i + 1);
    }
}

pub proof fn lemma_first_keyword(s: Seq<char>, p: int, i: int)
    requires
        0 <= i,
    ensures
        first_keyword(s, p, i) matches Some(k) ==> starts_at(s, p, keyword_spelling(k)),
    decreases keyword_order().len() - i,
{
    if i < keyword_order().len() && !starts_at(s, p, keyword_spelling(keyword_order()[i])) {
        lemma_first_keyword(s, p, i + 1);
    }
}

pub proof fn lemma_first_symbol(s: Seq<char>, p: int, i: int)
    requires
        0 <= i,
    ensures
        first_symbol(s, p, i) matches Some(y) ==> starts_at(s, p, symbol_spelling(y)),
    decreases symbol_order().len() - i,
{
    if i < symbol_order().len() && !starts_at(s, p, symbol_spelling(symbol_order()[i])) {
        lemma_first_symbol(s, p, i + 1);
    }
}

/// A token found at `p` consumes at least one character and stays within
/// the text, and its delta moves the location by at most its length.
pub proof fn lemma_next_token_delta(s: Seq<char>, p: int, loc: Location)
    requires
        0 <= p < s.len(),
        s.len() <= usize::MAX,
    ensures
        next_token(s, p, loc) matches Some((t, d)) ==> {
            &&& 1 <= t.value.len()
            &&& p + t.value.len() <= s.len()
            &&& d.pointer <= byte_len(s.subrange(p, p + t.value.len()))
            &&& d.loc.line <= 1
            &&& d.loc.column <= t.value.len()
        },
{
    if numeric_token(s, p, loc) is Some {
        lemma_numeric_scan_skip(s, p, p + 1);
        lemma_numeric_scan_min(s, p + 1);
        lemma_numeric_scan_max(s, p);
        let q = numeric_match(s, p)->0;
        lemma_byte_len_at_least(s.subrange(p, q));
    } else if keyword_token(s, p, loc) is Some {
        lemma_first_keyword(s, p, 0);
        let k = first_keyword(s, p, 0)->0;
        assert(keyword_spelling(k).len() >= 2);
        lemma_byte_len_at_least(s.subrange(p, p + keyword_spelling(k).len()));
    } else if string_token(s, p, loc) is Some {
        lemma_delimited_match_bounds(s, p, '\'');
        let q = delimited_match(s, p, '\'')->0;
        lemma_byte_len_split(s, p, q);
    } else if symbol_token(s, p, loc) is Some {
        lemma_first_symbol(s, p, 0);
        let y = first_symbol(s, p, 0)->0;
        assert(symbol_spelling(y).len() >= 1);
        lemma_byte_len_at_least(s.subrange(p, p + symbol_spelling(y).len()));
    } else {
        lemma_ident_scan_bounds(s, p + 1);
        if let Some(q) = ident_match(s, p) {
            lemma_byte_len_at_least(s.subrange(p, q));
        }
    }
}

/// The token at `pos`, trying the recognizers in their fixed order.
fn next_token_at(src: &Vec<char>, pos: usize, loc: Location) -> (r: Option<(Token, Cursor)>)
    requires
        pos <= src@.len(),
        byte_len(src@) <= usize::MAX,
    ensures
        seen(r) == next_token(src@, pos as int, loc),
{
    let r = numeric_at(src, pos, loc);
    if r.is_some() {
        return r;
    }
    let r = keyword_at(src, pos, loc);
    if r.is_some() {
        return r;
    }
    let r = delimited_at(src, pos, '\'', loc);
    if r.is_some() {
        return r;
    }
    let r = symbol_at(src, pos, loc);
    if r.is_some() {
        return r;
    }
    identifier_at(src, pos, loc)
}

/// Splits `source` into tokens, or reports where no token starts.
pub fn lex(source: &str) -> (r: Result<Vec<Token>, LexError>)
    ensures
        lexed(r) == lex_spec(source@),
{
    let src = chars_of(source);
    let ghost s = src@;
    let n = src.len();
    let _ = source_bytes(source);
    let mut pos: usize = 0;
    let mut cursor = Cursor::start();
    let mut tokens: Vec<Token> = Vec::new();
    assert(tokens@.map_values(|t: Token| t@) =~= Seq::<TokenView>::empty());
    assert(s.take(0) =~= Seq::<char>::empty());
    while pos < n
        invariant
            s == src@,
            n == s.len(),
            s == source@,
            byte_len(s) <= usize::MAX,
            pos <= n,
            cursor.pointer <= byte_len(s.take(pos as int)),
            cursor.loc.line <= pos,
            cursor.loc.column <= pos,
            lex_spec(s) == lex_from(s, pos as int, cursor, tokens@.map_values(|t: Token| t@)),
        decreases n - pos,
    {
        let ghost views = tokens@.map_values(|t: Token| t@);
        match next_token_at(&src, pos, cursor.loc) {
            Some((token, delta)) => {
                let len = token.value.as_str().unicode_len();
                proof {
                    lemma_next_token_delta(s, pos as int, cursor.loc);
                    lemma_byte_len_split(s, pos as int, pos + len);
                    assert(tokens@.push(token).map_values(|t: Token| t@) =~= views.push(token@));
                }
                tokens.push(token);
                cursor.merge(delta);
                pos = pos + len;
            },
            None => {
                if src[pos] == ' ' {
                    proof {
                        lemma_byte_len_split(s, pos as int, pos + 1);
                        lemma_byte_len_at_least(s.subrange(pos as int, pos + 1));
                    }
                    cursor.merge(Cursor { pointer: 1, loc: Location { line: 0, column: 1 } });
                    pos = pos + 1;
                } else {
                    return Err(LexError::new(ErrorKind::InvalidToken, cursor.loc));
                }
            },
        }
    }
    Ok(tokens)
}

/// The length in bytes of `source`, which fits in a `usize`.
fn source_bytes(source: &str) -> (r: usize)
    ensures
        r == byte_len(source@),
{
    source.as_bytes().len()
}

/// The number at the start of `source`, if one starts there.
pub fn lex_numeric(source: &str) -> (r: Option<(Token, Cursor)>)
    ensures
        seen(r) == numeric_token(source@, 0, Location { line: 0, column: 0 }),
{
    numeric_at(&chars_of(source), 0, Location::start())
}

/// The keyword at the start of `source`, if one starts there.
pub fn lex_keyword(source: &str) -> (r: Option<(Token, Cursor)>)
    ensures
        seen(r) == keyword_token(source@, 0, Location { line: 0, column: 0 }),
{
    keyword_at(&chars_of(source), 0, Location::start())
}

/// The text delimited by `delimiter` at the start of `source`, if one
/// starts there and is closed.
pub fn lex_char_delimited(source: &str, delimiter: char) -> (r: Option<(Token, Cursor)>)
    ensures
        seen(r) == delimited_token(source@, 0, delimiter, Location { line: 0, column: 0 }),
{
    let _ = source_bytes(source);
    delimited_at(&chars_of(source), 0, delimiter, Location::start())
}

/// The string literal at the start of `source`, if one starts there and is
/// closed.
pub fn lex_string(source: &str) -> (r: Option<(Token, Cursor)>)
    ensures
        seen(r) == string_token(source@, 0, Location { line: 0, column: 0 }),
{
    lex_char_delimited(source, '\'')
}

/// The symbol at the start of `source`, if one starts there.
pub fn lex_symbol(source: &str) -> (r: Option<(Token, Cursor)>)
    ensures
        seen(r) == symbol_token(source@, 0, Location { line: 0, column: 0 }),
{
    symbol_at(&chars_of(source), 0, Location::start())
}

/// The identifier at the start of `source`, if one starts there.
pub fn lex_identifier(source: &str) -> (r: Option<(Token, Cursor)>)
    ensures
        seen(r) == ident_token(source@, 0, Location { line: 0, column: 0 }),
{
    identifier_at(&chars_of(source), 0, Location::start())
}

} // verus!
