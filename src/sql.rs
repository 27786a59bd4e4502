//! The boundary with the `sqlparser` crate: its token and statement types, and
//! the few tokenizer and parser operations the engine relies on.

use vstd::prelude::*;
use sqlparser::ast::Statement;
use sqlparser::dialect::{MySqlDialect, SQLiteDialect};
use sqlparser::keywords::Keyword;
use sqlparser::parser::{Parser, ParserError};
use sqlparser::tokenizer::{Token, Tokenizer, TokenizerError, Whitespace, Word};
use crate::meta::{has_prefix, starts_with};

verus! {

/// sqlparser's token, whose variants the splitter reads.
#[verifier::external_type_specification]
pub struct ExToken(Token);

/// sqlparser's word token: its `value` names a referenced variable.
#[verifier::external_type_specification]
pub struct ExWord(Word);

/// sqlparser's whitespace token, which carries comments.
#[verifier::external_type_specification]
pub struct ExWhitespace(Whitespace);

/// sqlparser's keyword tag of a word.
#[verifier::external_type_specification]
pub struct ExKeyword(Keyword);

/// sqlparser's tokenizer error, carried through unread.
#[verifier::external_type_specification]
#[verifier::external_body]
pub struct ExTokenizerError(TokenizerError);

/// sqlparser's parser error, carried through unread.
#[verifier::external_type_specification]
#[verifier::external_body]
pub struct ExParserError(ParserError);

/// sqlparser's statement tree, the result of rendering.
#[verifier::external_type_specification]
#[verifier::external_body]
pub struct ExStatement(Statement);

/// sqlparser's parser over a token stream.
#[verifier::external_type_specification]
#[verifier::external_body]
pub struct ExParser<'a>(Parser<'a>);

/// The SQL dialect a statement is written in.
#[derive(Debug, Clone, Copy, PartialEq, Eq, Structural)]
pub enum Dialect {
    Mysql,
    Sqlite,
}

impl Dialect {
    /// The dialect of a connection URI: MySQL for a `mysql` scheme, SQLite otherwise.
    pub fn from_uri(uri: &str) -> (r: Self)
        ensures
            r == (if has_prefix(uri@, "mysql"@) {
                Dialect::Mysql
            } else {
                Dialect::Sqlite
            }),
    {
        if starts_with(uri, "mysql") {
            Dialect::Mysql
        } else {
            Dialect::Sqlite
        }
    }
}

/// The token stream that sqlparser's tokenizer produces for `s` in dialect `d`,
/// or `None` where it reports an error.
pub uninterp spec fn lexed(d: Dialect, s: Seq<char>) -> Option<Seq<Token>>;

/// Relies on `sqlparser::tokenizer::Tokenizer::tokenize`: the tokens depend on the
/// dialect and the text alone.
#[verifier::external_body]
pub(crate) fn tokenize(d: Dialect, s: &str) -> (r: Result<Vec<Token>, TokenizerError>)
    ensures
        r is Ok <==> lexed(d, s@) is Some,
        r is Ok ==> r->Ok_0@ == lexed(d, s@)->0,
{
    match d {
        Dialect::Mysql => Tokenizer::new(&MySqlDialect {}, s).tokenize(),
        Dialect::Sqlite => Tokenizer::new(&SQLiteDialect {}, s).tokenize(),
    }
}

/// Relies on the derived `Clone` of sqlparser's `Token`, which copies every field.
pub assume_specification[ <Token as Clone>::clone ](t: &Token) -> (r: Token)
    ensures
        r == *t,
;

/// Position of the first token at or after `i` that is not whitespace, or the end.
pub open spec fn visible_from(ts: Seq<Token>, i: int) -> int
    decreases ts.len() - i,
{
    if 0 <= i < ts.len() && ts[i] is Whitespace {
        visible_from(ts, i + 1)
    } else {
        i
    }
}

/// Position of the first token that is not whitespace, or the end.
pub open spec fn visible_index(ts: Seq<Token>) -> int {
    visible_from(ts, 0)
}

/// The first token that is not whitespace, or `Token::EOF` when there is none.
pub open spec fn next_visible(ts: Seq<Token>) -> Token {
    let v = visible_index(ts);
    if 0 <= v < ts.len() {
        ts[v]
    } else {
        Token::EOF
    }
}

pub proof fn lemma_visible_from_bounds(ts: Seq<Token>, i: int)
    requires
        0 <= i <= ts.len(),
    ensures
        i <= visible_from(ts, i) <= ts.len(),
    decreases ts.len() - i,
{
    if i < ts.len() && ts[i] is Whitespace {
        lemma_visible_from_bounds(ts, i + 1);
    }
}

/// Skipping whitespace gives the same position in a stream and in any stream it
/// ends.
pub proof fn lemma_visible_from_skip(ts: Seq<Token>, n: int, i: int)
    requires
        0 <= n <= ts.len(),
        0 <= i <= ts.len() - n,
    ensures
        visible_from(ts.skip(n), i) + n == visible_from(ts, i + n),
    decreases ts.len() - n - i,
{
    if i < ts.len() - n && ts.skip(n)[i] is Whitespace {
        lemma_visible_from_skip(ts, n, i + 1);
    }
}

/// Whether the word `t` is the keyword `GRANTED` or `BY`.
pub open spec fn is_granted(t: Token) -> bool {
    t matches Token::Word(w) && w.keyword is GRANTED
}

pub open spec fn is_by(t: Token) -> bool {
    t matches Token::Word(w) && w.keyword is BY
}

/// Whether the token at `i` is `GRANTED`, the next visible one `BY`, and the one
/// after that neither a word nor a single-quoted string, or missing.
pub open spec fn hazard_at(ts: Seq<Token>, i: int) -> bool {
    let j = visible_from(ts, i + 1);
    let k = visible_from(ts, j + 1);
    &&& 0 <= i < ts.len()
    &&& is_granted(ts[i])
    &&& 0 <= j < ts.len()
    &&& is_by(ts[j])
    &&& !(0 <= k < ts.len() && (ts[k] is Word || ts[k] is SingleQuotedString))
}

/// Whether the stream holds `GRANTED BY` followed by something other than an
/// identifier (a word or a single-quoted string), or by nothing: sqlparser's
/// `GRANT` and `REVOKE` parsers panic there instead of reporting an error.
pub open spec fn grant_hazard(ts: Seq<Token>) -> bool {
    exists|i: int| #[trigger] hazard_at(ts, i)
}

/// A hazard in the tokens left after skipping some is a hazard in the whole stream.
pub proof fn lemma_grant_hazard_skip(ts: Seq<Token>, n: int)
    requires
        0 <= n <= ts.len(),
        grant_hazard(ts.skip(n)),
    ensures
        grant_hazard(ts),
{
    let s = ts.skip(n);
    let i = choose|i: int| #[trigger] hazard_at(s, i);
    let j = visible_from(s, i + 1);
    lemma_visible_from_bounds(s, i + 1);
    lemma_visible_from_skip(ts, n, i + 1);
    lemma_visible_from_bounds(s, j + 1);
    lemma_visible_from_skip(ts, n, j + 1);
    assert(hazard_at(ts, i + n));
}

/// Whether a token stream holds the hazard above.
pub fn has_grant_hazard(ts: &Vec<Token>) -> (r: bool)
    ensures
        r == grant_hazard(ts@),
{
    let mut i: usize = 0;
    while i < ts.len()
        invariant
            i <= ts.len(),
            forall|m: int| 0 <= m < i ==> !#[trigger] hazard_at(ts@, m),
        decreases ts.len() - i,
    {
        let granted = match &ts[i] {
            Token::Word(w) => match w.keyword {
                Keyword::GRANTED => true,
                _ => false,
            },
            _ => false,
        };
        if granted {
            let j = skip_whitespace(ts, i + 1);
            let by = j < ts.len() && match &ts[j] {
                Token::Word(w) => match w.keyword {
                    Keyword::BY => true,
                    _ => false,
                },
                _ => false,
            };
            if by {
                let k = skip_whitespace(ts, j + 1);
                let named = k < ts.len() && match &ts[k] {
                    Token::Word(_) => true,
                    Token::SingleQuotedString(_) => true,
                    _ => false,
                };
                if !named {
                    assert(hazard_at(ts@, i as int));
                    return true;
                }
            }
        }
        assert(!hazard_at(ts@, i as int));
        i = i + 1;
    }
    assert(!grant_hazard(ts@));
    false
}

fn is_whitespace(t: &Token) -> (r: bool)
    ensures
        r == (*t is Whitespace),
{
    match t {
        Token::Whitespace(_) => true,
        _ => false,
    }
}

fn skip_whitespace(ts: &Vec<Token>, i: usize) -> (r: usize)
    requires
        i <= ts.len(),
    ensures
        r == visible_from(ts@, i as int),
        i <= r <= ts.len(),
{
    let mut j = i;
    while j < ts.len() && is_whitespace(&ts[j])
        invariant
            i <= j <= ts.len(),
            visible_from(ts@, j as int) == visible_from(ts@, i as int),
        decreases ts.len() - j,
    {
        j = j + 1;
    }
    proof {
        lemma_visible_from_bounds(ts@, i as int);
    }
    j
}

/// Whether a word token's quote style is one that sqlparser can print: none, `"`,
/// `[` or a backquote. Printing a word with any other quote style panics, and the
/// parser prints the token it did not expect in its error.
pub open spec fn printable(t: Token) -> bool {
    t matches Token::Word(w) ==> (w.quote_style is None || w.quote_style == Some('"')
        || w.quote_style == Some('[') || w.quote_style == Some('`'))
}

/// Whether every token of the stream is printable.
pub open spec fn all_printable(ts: Seq<Token>) -> bool {
    forall|i: int| 0 <= i < ts.len() ==> #[trigger] printable(ts[i])
}

/// Whether every token of a stream is printable.
pub fn check_printable(ts: &Vec<Token>) -> (r: bool)
    ensures
        r == all_printable(ts@),
{
    let mut i: usize = 0;
    while i < ts.len()
        invariant
            i <= ts.len(),
            forall|m: int| 0 <= m < i ==> #[trigger] printable(ts@[m]),
        decreases ts.len() - i,
    {
        let ok = match &ts[i] {
            Token::Word(w) => match w.quote_style {
                None => true,
                Some(q) => q == '"' || q == '[' || q == '`',
            },
            _ => true,
        };
        if !ok {
            assert(!printable(ts@[i as int]));
            return false;
        }
        i = i + 1;
    }
    true
}

/// The tokens of a parser from its current position on: none once it has moved
/// past the last one.
pub uninterp spec fn unread(p: Parser<'static>) -> Seq<Token>;

/// The dialect a parser was made for.
pub uninterp spec fn dialect_of(p: Parser<'static>) -> Dialect;

/// What sqlparser's statement parser gives at the start of `ts` in dialect `d`: the
/// statement and how many tokens it took (a position past the end counts as the
/// end), or the parser's error.
pub uninterp spec fn parsed(d: Dialect, ts: Seq<Token>) -> Result<(Statement, nat), ParserError>;

/// Relies on `sqlparser::parser::Parser::new`: the parser starts at the first token.
#[verifier::external_body]
pub(crate) fn new_parser(tokens: Vec<Token>, d: Dialect) -> (r: Parser<'static>)
    ensures
        unread(r) == tokens@,
        dialect_of(r) == d,
{
    match d {
        Dialect::Mysql => Parser::new(tokens, &MySqlDialect {}),
        Dialect::Sqlite => Parser::new(tokens, &SQLiteDialect {}),
    }
}

/// Relies on `sqlparser::parser::Parser::consume_token`: when the next token that is
/// not whitespace is a statement delimiter it moves past it, and otherwise it leaves
/// the parser as it is.
#[verifier::external_body]
pub(crate) fn consume_delimiter(p: &mut Parser<'static>) -> (r: bool)
    ensures
        r == (next_visible(unread(*old(p))) is SemiColon),
        r ==> unread(*final(p)) == unread(*old(p)).skip(visible_index(unread(*old(p))) + 1),
        !r ==> unread(*final(p)) == unread(*old(p)),
        dialect_of(*final(p)) == dialect_of(*old(p)),
{
    p.consume_token(&Token::SemiColon)
}

/// Relies on `sqlparser::parser::Parser::peek_token`: the next token that is not
/// whitespace, or `Token::EOF`; the parser does not change.
#[verifier::external_body]
pub(crate) fn peek(p: &Parser<'static>) -> (r: Token)
    ensures
        r == next_visible(unread(*p)),
{
    p.peek_token()
}

/// Relies on `sqlparser::parser::Parser::parse_statement`: it reads one statement
/// from the tokens ahead, and a statement it returns took at least one token. It
/// panics on a `GRANTED BY` that no identifier follows, and on a word it cannot
/// print, so such streams are left out.
#[verifier::external_body]
pub(crate) fn parse_statement(p: &mut Parser<'static>) -> (r: Result<Statement, ParserError>)
    requires
        !grant_hazard(unread(*old(p))),
        all_printable(unread(*old(p))),
    ensures
        r is Ok <==> parsed(dialect_of(*old(p)), unread(*old(p))) is Ok,
        match parsed(dialect_of(*old(p)), unread(*old(p))) {
            Ok((s, n)) => r == Ok::<Statement, ParserError>(s) && 0 < n <= unread(*old(p)).len()
                && unread(*final(p)) == unread(*old(p)).skip(n as int),
            Err(e) => r == Err::<Statement, ParserError>(e),
        },
        dialect_of(*final(p)) == dialect_of(*old(p)),
{
    p.parse_statement()
}

} // verus!
