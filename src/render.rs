//! Rendering: each variable of a template is replaced by the tokens that encode its
//! bound value, and the token stream is parsed back into statements.

use vstd::prelude::*;
use sqlparser::ast::Statement;
use sqlparser::parser::ParserError;
use sqlparser::tokenizer::{Token, TokenizerError};
use crate::context::{lookup, Context};
use crate::errors::PSqlError;
use crate::program::{declared, referenced, view_pieces, Piece, Program, VariableToken};
use crate::sql::{
    all_printable, check_printable, consume_delimiter, dialect_of, grant_hazard, has_grant_hazard, lemma_grant_hazard_skip, lexed,
    new_parser, next_visible, parse_statement, parsed, peek, tokenize, unread, visible_index, Dialect,
};
use crate::value::{lemma_view_all, ParamValue, Value};

verus! {

/// What a rendered token is meant to be: a token taken as it is, a string
/// literal, a number literal, or the punctuation of a list.
pub enum Lexeme {
    Literal(Token),
    Quoted(Seq<char>),
    Number(Seq<char>),
    Open,
    Comma,
    Close,
}

/// Whether token `t` is the lexeme `l`.
pub open spec fn denotes(t: Token, l: Lexeme) -> bool {
    match l {
        Lexeme::Literal(x) => t == x,
        Lexeme::Quoted(s) => t matches Token::SingleQuotedString(v) && v@ == s,
        Lexeme::Number(s) => t matches Token::Number(v, long) && v@ == s && !long,
        Lexeme::Open => t is LParen,
        Lexeme::Comma => t is Comma,
        Lexeme::Close => t is RParen,
    }
}

/// Whether `ts`, from position `start` on, is exactly the lexemes `ls`.
pub open spec fn spells_from(ts: Seq<Token>, start: int, ls: Seq<Lexeme>) -> bool {
    &&& ts.len() == start + ls.len()
    &&& forall|k: int| 0 <= k < ls.len() ==> #[trigger] denotes(ts[start + k], ls[k])
}

/// Whether `ts` is exactly the lexemes `ls`.
pub open spec fn spells(ts: Seq<Token>, ls: Seq<Lexeme>) -> bool {
    spells_from(ts, 0, ls)
}

/// The encodings of `items` from position `i` on, each after a comma but the
/// first, appended to `acc`.
pub open spec fn encode_items(items: Seq<Value>, d: Dialect, i: int, acc: Seq<Lexeme>) -> Option<
    Seq<Lexeme>,
>
    decreases items, items.len() - i,
{
    if i < 0 || i >= items.len() {
        Some(acc)
    } else {
        match encode(items[i], d) {
            None => None,
            Some(ls) => encode_items(
                items,
                d,
                i + 1,
                if i == 0 {
                    acc + ls
                } else {
                    acc.push(Lexeme::Comma) + ls
                },
            ),
        }
    }
}

/// The lexemes that encode a value: a string as one string literal, a number as one
/// number literal, a raw fragment as the tokens of its text, and a list as its
/// items' encodings between parentheses, separated by commas. `None` where a raw
/// fragment does not tokenize.
pub open spec fn encode(v: Value, d: Dialect) -> Option<Seq<Lexeme>>
    decreases v,
{
    match v {
        Value::Str(s) => Some(seq![Lexeme::Quoted(s)]),
        Value::Num(s) => Some(seq![Lexeme::Number(s)]),
        Value::Raw(s) => match lexed(d, s) {
            Some(ts) => Some(ts.map_values(|t: Token| Lexeme::Literal(t))),
            None => None,
        },
        Value::Array(items) => match encode_items(items, d, 0, Seq::empty()) {
            Some(ls) => Some(seq![Lexeme::Open] + ls + seq![Lexeme::Close]),
            None => None,
        },
    }
}

/// Why a template could not be filled in.
pub enum RenderFault {
    MissingValue(Seq<char>),
    Tokenize,
}

/// The template from position `i` on, filled in from `ctx` and appended to `acc`.
pub open spec fn expand(
    pieces: Seq<Piece>,
    ctx: Seq<(Seq<char>, Value)>,
    d: Dialect,
    i: int,
    acc: Seq<Lexeme>,
) -> Result<Seq<Lexeme>, RenderFault>
    decreases pieces.len() - i,
{
    if i < 0 || i >= pieces.len() {
        Ok(acc)
    } else {
        match pieces[i] {
            Piece::Normal(t) => expand(pieces, ctx, d, i + 1, acc.push(Lexeme::Literal(t))),
            Piece::Var(n) => match lookup(ctx, n) {
                None => Err(RenderFault::MissingValue(n)),
                Some(v) => match encode(v, d) {
                    None => Err(RenderFault::Tokenize),
                    Some(ls) => expand(pieces, ctx, d, i + 1, acc + ls),
                },
            },
        }
    }
}

/// The whole template filled in from `ctx`.
pub open spec fn expand_all(pieces: Seq<Piece>, ctx: Seq<(Seq<char>, Value)>, d: Dialect) -> Result<
    Seq<Lexeme>,
    RenderFault,
> {
    expand(pieces, ctx, d, 0, Seq::empty())
}

proof fn lemma_spells_append(ts: Seq<Token>, start: int, ls: Seq<Lexeme>, ts2: Seq<Token>, ls2: Seq<Lexeme>)
    requires
        0 <= start,
        spells_from(ts, start, ls),
        spells_from(ts2, ts.len() as int, ls2),
        ts2.subrange(0, ts.len() as int) == ts,
    ensures
        spells_from(ts2, start, ls + ls2),
{
    assert forall|k: int| 0 <= k < (ls + ls2).len() implies #[trigger] denotes(ts2[start + k], (ls + ls2)[k]) by {
        if k < ls.len() {
            assert(ts2[start + k] == ts2.subrange(0, ts.len() as int)[start + k]);
            assert(denotes(ts[start + k], ls[k]));
        } else {
            assert(denotes(ts2[ts.len() + (k - ls.len())], ls2[k - ls.len()]));
        }
    }
}

/// Appends to `out` the tokens that encode `v`.
fn encode_value(v: &ParamValue, d: Dialect, out: &mut Vec<Token>) -> (r: Result<(), TokenizerError>)
    ensures
        match encode(v@, d) {
            Some(ls) => r is Ok && spells_from(final(out)@, old(out)@.len() as int, ls)
                && final(out)@.subrange(0, old(out)@.len() as int) == old(out)@,
            None => r is Err,
        },
    decreases v,
{
    let ghost start = out@;
    match v {
        ParamValue::Str(s) => {
            out.push(Token::SingleQuotedString(s.clone()));
            assert(out@.subrange(0, start.len() as int) =~= start);
            assert(denotes(out@[start.len() as int], Lexeme::Quoted(s@)));
            Ok(())
        },
        ParamValue::Num(s) => {
            out.push(Token::Number(s.clone(), false));
            assert(out@.subrange(0, start.len() as int) =~= start);
            assert(denotes(out@[start.len() as int], Lexeme::Number(s@)));
            Ok(())
        },
        ParamValue::Raw(s) => {
            let ts = tokenize(d, s.as_str())?;
            let mut k: usize = 0;
            while k < ts.len()
                invariant
                    k <= ts.len(),
                    out@.len() == start.len() + k,
                    out@.subrange(0, start.len() as int) == start,
                    forall|m: int| 0 <= m < k ==> #[trigger] out@[start.len() + m] == ts@[m],
                decreases ts.len() - k,
            {
                let ghost before = out@;
                out.push(ts[k].clone());
                assert(out@.subrange(0, start.len() as int) =~= before.subrange(0, start.len() as int));
                assert forall|m: int| 0 <= m < k + 1 implies #[trigger] out@[start.len() + m] == ts@[m] by {
                    if m < k {
                        assert(out@[start.len() + m] == before[start.len() + m]);
                    }
                }
                k = k + 1;
            }
            proof {
                let ls = ts@.map_values(|t: Token| Lexeme::Literal(t));
                assert forall|m: int| 0 <= m < ls.len() implies #[trigger] denotes(out@[start.len() + m], ls[m]) by {
                    assert(out@[start.len() + m] == ts@[m]);
                }
            }
            Ok(())
        },
        ParamValue::Array(items) => {
            let ghost models = match v@ {
                Value::Array(m) => m,
                _ => Seq::empty(),
            };
            proof {
                lemma_view_all(items@);
            }
            out.push(Token::LParen);
            let ghost opened = out@;
            assert(out@.subrange(0, start.len() as int) =~= start);
            let ghost mut acc: Seq<Lexeme> = Seq::empty();
            let mut k: usize = 0;
            while k < items.len()
                invariant
                    *v == ParamValue::Array(*items),
                    v@ == Value::Array(models),
                    models.len() == items.len(),
                    forall|m: int| 0 <= m < items.len() ==> #[trigger] models[m] == items@[m]@,
                    k <= items.len(),
                    opened.len() == start.len() + 1,
                    opened.subrange(0, start.len() as int) == start,
                    denotes(opened[start.len() as int], Lexeme::Open),
                    out@.subrange(0, opened.len() as int) == opened,
                    spells_from(out@, opened.len() as int, acc),
                    encode_items(models, d, k as int, acc) == encode_items(models, d, 0, Seq::empty()),
                decreases items.len() - k,
            {
                proof {
                    vstd::std_specs::vec::axiom_vec_index_decreases(*items, k as int);
                    assert(decreases_to!(*v => (*v)->Array_0));
                    assert(decreases_to!(*v => items[k as int]));
                }
                let ghost before = out@;
                if k > 0 {
                    out.push(Token::Comma);
                    proof {
                        assert(out@.subrange(0, before.len() as int) =~= before);
                        lemma_spells_append(before, opened.len() as int, acc, out@, seq![Lexeme::Comma]);
                        acc = acc.push(Lexeme::Comma);
                        assert(acc =~= acc.drop_last() + seq![Lexeme::Comma]);
                    }
                }
                let ghost mid = out@;
                let ghost acc_mid = acc;
                match encode_value(&items[k], d, out) {
                    Ok(()) => {},
                    Err(e) => {
                        return Err(e);
                    },
                }
                proof {
                    let ls = encode(models[k as int], d)->0;
                    lemma_spells_append(mid, opened.len() as int, acc_mid, out@, ls);
                    assert(out@.subrange(0, opened.len() as int) =~= mid.subrange(0, opened.len() as int));
                    if k == 0 {
                        assert(acc_mid =~= acc);
                    }
                    acc = acc_mid + ls;
                }
                k = k + 1;
            }
            let ghost inner = acc;
            let ghost before = out@;
            out.push(Token::RParen);
            proof {
                assert(out@.subrange(0, before.len() as int) =~= before);
                lemma_spells_append(before, opened.len() as int, inner, out@, seq![Lexeme::Close]);
                assert(out@.subrange(0, opened.len() as int) =~= opened);
                let single = seq![Lexeme::Open];
                assert(spells_from(opened, start.len() as int, single));
                lemma_spells_append(opened, start.len() as int, single, out@, inner + seq![Lexeme::Close]);
                assert(single + (inner + seq![Lexeme::Close]) =~= seq![Lexeme::Open] + inner + seq![Lexeme::Close]);
                assert(out@.subrange(0, start.len() as int) =~= start);
            }
            Ok(())
        },
    }
}

/// Why a token stream is not a sequence of statements.
pub enum StatementFault {
    InvalidGrantor,
    UnsupportedQuote,
    Parse(ParserError),
    ExpectEnd(Token),
}

/// The statements of `ts` after those in `acc`, where `expecting` says that a
/// statement was just read: runs of delimiters are skipped, the end of input ends
/// the sequence, a statement must be followed by a delimiter or the end, and each
/// statement is what the parser reads at that point.
pub open spec fn statements_from(d: Dialect, ts: Seq<Token>, expecting: bool, acc: Seq<Statement>) -> Result<
    Seq<Statement>,
    StatementFault,
>
    decreases ts.len(),
{
    let v = visible_index(ts);
    if 0 <= v < ts.len() && ts[v] is SemiColon {
        statements_from(d, ts.skip(v + 1), false, acc)
    } else if next_visible(ts) is EOF {
        Ok(acc)
    } else if expecting {
        Err(StatementFault::ExpectEnd(next_visible(ts)))
    } else {
        match parsed(d, ts) {
            Err(e) => Err(StatementFault::Parse(e)),
            Ok((st, n)) => if 0 < n <= ts.len() {
                statements_from(d, ts.skip(n as int), true, acc.push(st))
            } else {
                Ok(acc)
            },
        }
    }
}

/// The statements of a token stream in dialect `d`.
pub open spec fn split_statements(d: Dialect, ts: Seq<Token>) -> Result<Seq<Statement>, StatementFault> {
    if grant_hazard(ts) {
        Err(StatementFault::InvalidGrantor)
    } else if !all_printable(ts) {
        Err(StatementFault::UnsupportedQuote)
    } else {
        statements_from(d, ts, false, Seq::empty())
    }
}

/// Whether `r` is the outcome `o`.
pub open spec fn statements_outcome(
    r: Result<Vec<Statement>, PSqlError>,
    o: Result<Seq<Statement>, StatementFault>,
) -> bool {
    match o {
        Ok(ss) => r matches Ok(v) && v@ == ss,
        Err(f) => r matches Err(e) && reports_statement(e, f),
    }
}

pub open spec fn reports_statement(e: PSqlError, f: StatementFault) -> bool {
    match f {
        StatementFault::InvalidGrantor => e is InvalidGrantor,
        StatementFault::UnsupportedQuote => e is UnsupportedQuote,
        StatementFault::Parse(x) => e == PSqlError::ParseError(x),
        StatementFault::ExpectEnd(t) => e == PSqlError::ExpectEndOfStatement(t),
    }
}

/// Whether `r` is the one statement of outcome `o`, or the error that says how many
/// there were.
pub open spec fn single_outcome(r: Result<Statement, PSqlError>, o: Result<Seq<Statement>, StatementFault>) -> bool {
    match o {
        Ok(ss) => if ss.len() == 1 {
            r == Ok::<Statement, PSqlError>(ss[0])
        } else {
            r matches Err(PSqlError::ExpectSingleStatement(n)) && n == ss.len()
        },
        Err(f) => r matches Err(e) && reports_statement(e, f),
    }
}

/// Parses a token stream as a sequence of statements separated by delimiters.
pub fn parse_statements(tokens: Vec<Token>, d: &Dialect) -> (r: Result<Vec<Statement>, PSqlError>)
    ensures
        statements_outcome(r, split_statements(*d, tokens@)),
{
    if has_grant_hazard(&tokens) {
        return Err(PSqlError::InvalidGrantor);
    }
    if !check_printable(&tokens) {
        return Err(PSqlError::UnsupportedQuote);
    }
    let ghost all = tokens@;
    let mut parser = new_parser(tokens, *d);
    let mut stmts: Vec<Statement> = Vec::new();
    let mut expecting = false;
    let ghost mut off: int = 0;
    assert(all.skip(0) =~= all);
    loop
        invariant
            all == tokens@,
            !grant_hazard(all),
            all_printable(all),
            0 <= off <= all.len(),
            unread(parser) == all.skip(off),
            dialect_of(parser) == *d,
            statements_from(*d, unread(parser), expecting, stmts@) == statements_from(
                *d,
                all,
                false,
                Seq::empty(),
            ),
        ensures
            all == tokens@,
            statements_from(*d, all, false, Seq::empty()) == Ok::<Seq<Statement>, StatementFault>(
                stmts@,
            ),
        decreases unread(parser).len(),
    {
        let ghost at_start = unread(parser).len();
        loop
            invariant
                all == tokens@,
                !grant_hazard(all),
                all_printable(all),
                0 <= off <= all.len(),
                unread(parser) == all.skip(off),
                dialect_of(parser) == *d,
                unread(parser).len() <= at_start,
                statements_from(*d, unread(parser), expecting, stmts@) == statements_from(
                    *d,
                    all,
                    false,
                    Seq::empty(),
                ),
            ensures
                all == tokens@,
                !grant_hazard(all),
                all_printable(all),
                0 <= off <= all.len(),
                unread(parser) == all.skip(off),
                dialect_of(parser) == *d,
                unread(parser).len() <= at_start,
                !(next_visible(unread(parser)) is SemiColon),
                statements_from(*d, unread(parser), expecting, stmts@) == statements_from(
                    *d,
                    all,
                    false,
                    Seq::empty(),
                ),
            decreases unread(parser).len(),
        {
            let ghost before = unread(parser);
            let ghost v = visible_index(before);
            if !consume_delimiter(&mut parser) {
                break;
            }
            proof {
                assert(0 <= v < before.len());
                assert(all.skip(off).skip(v + 1) =~= all.skip(off + v + 1));
                off = off + v + 1;
            }
            expecting = false;
        }
        let next = peek(&parser);
        if let Token::EOF = next {
            assert(statements_from(*d, unread(parser), expecting, stmts@) == Ok::<
                Seq<Statement>,
                StatementFault,
            >(stmts@));
            break;
        }
        if expecting {
            return Err(PSqlError::ExpectEndOfStatement(next));
        }
        proof {
            if grant_hazard(unread(parser)) {
                lemma_grant_hazard_skip(all, off);
            }
            assert forall|i: int| 0 <= i < unread(parser).len() implies #[trigger] crate::sql::printable(
                unread(parser)[i],
            ) by {
                assert(unread(parser)[i] == all[i + off]);
            }
        }
        let ghost before = unread(parser);
        match parse_statement(&mut parser) {
            Ok(statement) => {
                proof {
                    let n = parsed(*d, before)->Ok_0.1;
                    assert(all.skip(off).skip(n as int) =~= all.skip(off + n));
                    off = off + n;
                }
                stmts.push(statement);
            },
            Err(e) => {
                return Err(PSqlError::ParseError(e));
            },
        }
        expecting = true;
    }
    Ok(stmts)
}

impl ParamValue {
    /// The tokens that encode the value in dialect `d`.
    pub fn into_token(&self, d: &Dialect) -> (r: Result<Vec<Token>, PSqlError>)
        ensures
            match encode(self@, *d) {
                Some(ls) => r matches Ok(ts) && spells(ts@, ls),
                None => r matches Err(PSqlError::TokenizeError(_)),
            },
    {
        let mut out: Vec<Token> = Vec::new();
        match encode_value(self, *d, &mut out) {
            Ok(()) => Ok(out),
            Err(e) => Err(PSqlError::TokenizeError(e)),
        }
    }
}

impl Program {
    /// Fills the template in from `context`: each variable is replaced by the tokens
    /// that encode its value, and every other token is kept.
    pub fn substitute(&self, d: &Dialect, context: &Context) -> (r: Result<Vec<Token>, PSqlError>)
        ensures
            match expand_all(view_pieces(self.tokens@), context@, *d) {
                Ok(ls) => r matches Ok(ts) && spells(ts@, ls),
                Err(RenderFault::MissingValue(n)) => r matches Err(
                    PSqlError::MissingContextValue(x),
                ) && x@ == n,
                Err(RenderFault::Tokenize) => r matches Err(PSqlError::TokenizeError(_)),
            },
    {
        let ghost pieces = view_pieces(self.tokens@);
        let mut out: Vec<Token> = Vec::new();
        let ghost mut acc: Seq<Lexeme> = Seq::empty();
        let mut i: usize = 0;
        while i < self.tokens.len()
            invariant
                i <= self.tokens.len(),
                pieces == view_pieces(self.tokens@),
                spells(out@, acc),
                expand(pieces, context@, *d, i as int, acc) == expand_all(pieces, context@, *d),
            decreases self.tokens.len() - i,
        {
            let ghost before = out@;
            match &self.tokens[i] {
                VariableToken::Normal(t) => {
                    out.push(t.clone());
                    proof {
                        assert(out@.subrange(0, before.len() as int) =~= before);
                        assert(spells_from(out@, before.len() as int, seq![Lexeme::Literal(*t)]));
                        lemma_spells_append(before, 0, acc, out@, seq![Lexeme::Literal(*t)]);
                        assert(acc + seq![Lexeme::Literal(*t)] =~= acc.push(Lexeme::Literal(*t)));
                        acc = acc.push(Lexeme::Literal(*t));
                    }
                },
                VariableToken::Var(name) => {
                    match context.get(name) {
                        None => {
                            return Err(PSqlError::MissingContextValue(name.clone()));
                        },
                        Some(v) => {
                            match encode_value(v, *d, &mut out) {
                                Ok(()) => {},
                                Err(e) => {
                                    return Err(PSqlError::TokenizeError(e));
                                },
                            }
                            proof {
                                let ls = encode(v@, *d)->0;
                                lemma_spells_append(before, 0, acc, out@, ls);
                                acc = acc + ls;
                            }
                        },
                    }
                },
            }
            i = i + 1;
        }
        Ok(out)
    }

    /// Renders the program with the values of `context`, then parses the result into
    /// statements. Fails when a variable has no value, when a raw value does not
    /// tokenize, or when the filled-in tokens are not a sequence of statements.
    pub fn render(&self, d: &Dialect, context: &Context) -> (r: Result<Vec<Statement>, PSqlError>)
        ensures
            match expand_all(view_pieces(self.tokens@), context@, *d) {
                Ok(ls) => exists|ts: Seq<Token>|
                    spells(ts, ls) && statements_outcome(r, #[trigger] split_statements(*d, ts)),
                Err(RenderFault::MissingValue(n)) => r matches Err(
                    PSqlError::MissingContextValue(x),
                ) && x@ == n,
                Err(RenderFault::Tokenize) => r matches Err(PSqlError::TokenizeError(_)),
            },
    {
        let tokens = self.substitute(d, context)?;
        let ghost ts = tokens@;
        let r = parse_statements(tokens, d);
        assert(spells(ts, expand_all(view_pieces(self.tokens@), context@, *d)->Ok_0)
            && statements_outcome(r, split_statements(*d, ts)));
        r
    }

    /// Renders the program as exactly one statement; any other number of statements
    /// is an error that gives the number.
    pub fn render_single(&self, d: &Dialect, context: &Context) -> (r: Result<Statement, PSqlError>)
        ensures
            match expand_all(view_pieces(self.tokens@), context@, *d) {
                Ok(ls) => exists|ts: Seq<Token>|
                    spells(ts, ls) && single_outcome(r, #[trigger] split_statements(*d, ts)),
                Err(RenderFault::MissingValue(n)) => r matches Err(
                    PSqlError::MissingContextValue(x),
                ) && x@ == n,
                Err(RenderFault::Tokenize) => r matches Err(PSqlError::TokenizeError(_)),
            },
    {
        let tokens = self.substitute(d, context)?;
        let ghost ts = tokens@;
        let mut stmts = match parse_statements(tokens, d) {
            Ok(stmts) => stmts,
            Err(e) => {
                assert(spells(ts, expand_all(view_pieces(self.tokens@), context@, *d)->Ok_0)
                    && single_outcome(Err(e), split_statements(*d, ts)));
                return Err(e);
            },
        };
        if stmts.len() != 1 {
            let r = Err(PSqlError::ExpectSingleStatement(stmts.len()));
            assert(spells(ts, expand_all(view_pieces(self.tokens@), context@, *d)->Ok_0)
                && single_outcome(r, split_statements(*d, ts)));
            return r;
        }
        let ghost first = stmts@[0];
        let r = Ok(stmts.remove(0));
        assert(spells(ts, expand_all(view_pieces(self.tokens@), context@, *d)->Ok_0)
            && single_outcome(r, split_statements(*d, ts)));
        r
    }
}

proof fn lemma_expand_no_missing(
    pieces: Seq<Piece>,
    ctx: Seq<(Seq<char>, Value)>,
    d: Dialect,
    i: int,
    acc: Seq<Lexeme>,
)
    requires
        0 <= i,
        forall|n: Seq<char>| referenced(pieces).contains(n) ==> lookup(ctx, n) is Some,
    ensures
        !(expand(pieces, ctx, d, i, acc) is Err && expand(pieces, ctx, d, i, acc)->Err_0 is MissingValue),
    decreases pieces.len() - i,
{
    if i < pieces.len() {
        match pieces[i] {
            Piece::Normal(t) => {
                lemma_expand_no_missing(pieces, ctx, d, i + 1, acc.push(Lexeme::Literal(t)));
            },
            Piece::Var(n) => {
                assert(referenced(pieces).contains(n));
                match encode(lookup(ctx, n)->0, d) {
                    Some(ls) => {
                        lemma_expand_no_missing(pieces, ctx, d, i + 1, acc + ls);
                    },
                    None => {},
                }
            },
        }
    }
}

/// A context that binds every declared parameter of a well formed program never
/// leaves a variable without a value: rendering does not fail for a missing value.
pub proof fn law_complete_context_renders(p: Program, ctx: Seq<(Seq<char>, Value)>, d: Dialect)
    requires
        p.wf(),
        forall|n: Seq<char>| declared(p@.params).contains(n) ==> lookup(ctx, n) is Some,
    ensures
        !(expand_all(p@.tokens, ctx, d) is Err && expand_all(p@.tokens, ctx, d)->Err_0 is MissingValue),
{
    assert forall|x: Seq<char>| referenced(p@.tokens).contains(x) implies declared(p@.params).contains(x) by {
        if !declared(p@.params).contains(x) {
            assert(referenced(p@.tokens).difference(declared(p@.params)).contains(x));
        }
    }
    lemma_expand_no_missing(p@.tokens, ctx, d, 0, Seq::empty());
}

proof fn lemma_expand_same_bindings(
    pieces: Seq<Piece>,
    c1: Seq<(Seq<char>, Value)>,
    c2: Seq<(Seq<char>, Value)>,
    d: Dialect,
    i: int,
    acc: Seq<Lexeme>,
)
    requires
        0 <= i,
        forall|n: Seq<char>| referenced(pieces).contains(n) ==> lookup(c1, n) == lookup(c2, n),
    ensures
        expand(pieces, c1, d, i, acc) == expand(pieces, c2, d, i, acc),
    decreases pieces.len() - i,
{
    if i < pieces.len() {
        match pieces[i] {
            Piece::Normal(t) => {
                lemma_expand_same_bindings(pieces, c1, c2, d, i + 1, acc.push(Lexeme::Literal(t)));
            },
            Piece::Var(n) => {
                assert(referenced(pieces).contains(n));
                match lookup(c1, n) {
                    Some(v) => match encode(v, d) {
                        Some(ls) => {
                            lemma_expand_same_bindings(pieces, c1, c2, d, i + 1, acc + ls);
                        },
                        None => {},
                    },
                    None => {},
                }
            },
        }
    }
}

/// Two contexts that bind every referenced name alike fill a template in alike:
/// bindings of names the template does not reference change nothing.
pub proof fn law_unreferenced_bindings_ignored(
    p: Program,
    c1: Seq<(Seq<char>, Value)>,
    c2: Seq<(Seq<char>, Value)>,
    d: Dialect,
)
    requires
        forall|n: Seq<char>| referenced(p@.tokens).contains(n) ==> lookup(c1, n) == lookup(c2, n),
    ensures
        expand_all(p@.tokens, c1, d) == expand_all(p@.tokens, c2, d),
{
    lemma_expand_same_bindings(p@.tokens, c1, c2, d, 0, Seq::empty());
}

/// A number encodes as the one number literal that it is written as, and a string
/// as the one string literal that holds exactly its characters.
pub proof fn law_literal_encoding(n: Seq<char>, s: Seq<char>, d: Dialect)
    ensures
        encode(Value::Num(n), d) == Some(seq![Lexeme::Number(n)]),
        encode(Value::Str(s), d) == Some(seq![Lexeme::Quoted(s)]),
{
}

/// A list of values encodes as an opening parenthesis, then the encodings of its
/// items in order, separated by commas, then a closing parenthesis.
pub proof fn law_list_encoding(a: Value, b: Value, c: Value, d: Dialect)
    requires
        encode(a, d) is Some,
        encode(b, d) is Some,
        encode(c, d) is Some,
    ensures
        encode(Value::Array(seq![a, b, c]), d) == Some(
            seq![Lexeme::Open] + encode(a, d)->0 + seq![Lexeme::Comma] + encode(b, d)->0 + seq![
                Lexeme::Comma,
            ] + encode(c, d)->0 + seq![Lexeme::Close],
        ),
{
    let items = seq![a, b, c];
    let (ea, eb, ec) = (encode(a, d)->0, encode(b, d)->0, encode(c, d)->0);
    assert(items[0] == a && items[1] == b && items[2] == c);
    let s1 = Seq::<Lexeme>::empty() + ea;
    let s2 = s1.push(Lexeme::Comma) + eb;
    let s3 = s2.push(Lexeme::Comma) + ec;
    assert(encode_items(items, d, 3, s3) == Some(s3));
    assert(encode_items(items, d, 2, s2) == encode_items(items, d, 3, s3));
    assert(encode_items(items, d, 1, s1) == encode_items(items, d, 2, s2));
    assert(encode_items(items, d, 0, Seq::empty()) == encode_items(items, d, 1, s1));
    assert(s3 =~= Seq::empty() + ea + seq![Lexeme::Comma] + eb + seq![Lexeme::Comma] + ec);
    assert(seq![Lexeme::Open] + (Seq::empty() + ea + seq![Lexeme::Comma] + eb + seq![Lexeme::Comma] + ec) + seq![Lexeme::Close]
        =~= seq![Lexeme::Open] + ea + seq![Lexeme::Comma] + eb + seq![Lexeme::Comma] + ec + seq![Lexeme::Close]);
}

} // verus!
