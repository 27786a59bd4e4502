//! Compiled templates: the token stream of an annotated statement split into
//! literal tokens and variable references, checked against the declarations.

use vstd::prelude::*;
use sqlparser::tokenizer::{Token, Whitespace};
use crate::annotation::{annotation, is_annotation, is_annotation_text, Param, ParamView};
use crate::errors::PSqlError;
use crate::sql::{lexed, tokenize, Dialect};

verus! {

/// One slot of a template: a reference to a parameter, or a token kept as it is.
#[derive(Debug, Clone, PartialEq)]
pub enum VariableToken {
    Var(String),
    Normal(Token),
}

/// The mathematical model of a `VariableToken`.
pub enum Piece {
    Var(Seq<char>),
    Normal(Token),
}

impl View for VariableToken {
    type V = Piece;

    open spec fn view(&self) -> Piece {
        match self {
            VariableToken::Var(n) => Piece::Var(n@),
            VariableToken::Normal(t) => Piece::Normal(*t),
        }
    }
}

/// An annotated SQL source: its declared parameters and its template.
#[derive(Debug, Clone)]
pub struct Program {
    pub params: Vec<Param>,
    pub tokens: Vec<VariableToken>,
}

pub struct ProgramView {
    pub params: Seq<ParamView>,
    pub tokens: Seq<Piece>,
}

pub open spec fn view_params(ps: Seq<Param>) -> Seq<ParamView> {
    ps.map_values(|p: Param| p@)
}

pub open spec fn view_pieces(ts: Seq<VariableToken>) -> Seq<Piece> {
    ts.map_values(|t: VariableToken| t@)
}

impl View for Program {
    type V = ProgramView;

    open spec fn view(&self) -> ProgramView {
        ProgramView { params: view_params(self.params@), tokens: view_pieces(self.tokens@) }
    }
}

impl Program {
    /// The invariant of a compiled program: every name is declared once, and the
    /// declared names are exactly the referenced ones.
    pub open spec fn wf(&self) -> bool {
        validate(self@.params, self@.tokens) is Ok
    }
}

/// Why an annotated statement does not make a program.
pub enum BuildFault {
    InvalidVariable(Token),
    ParamParse(Seq<char>),
    Duplicated(Seq<char>),
    Missing(Set<Seq<char>>),
    Unused(Set<Seq<char>>),
}

/// Splits the tokens from position `i` on, where `expect` says that an `@` was just
/// read, and `params` and `out` hold what the earlier tokens gave.
pub open spec fn split(
    ts: Seq<Token>,
    i: int,
    expect: bool,
    params: Seq<ParamView>,
    out: Seq<Piece>,
) -> Result<(Seq<ParamView>, Seq<Piece>), BuildFault>
    decreases ts.len() - i,
{
    if i < 0 || i >= ts.len() {
        if expect {
            Err(BuildFault::InvalidVariable(Token::EOF))
        } else {
            Ok((params, out))
        }
    } else {
        match ts[i] {
            Token::AtSign => if expect {
                Err(BuildFault::InvalidVariable(ts[i]))
            } else {
                split(ts, i + 1, true, params, out)
            },
            Token::Word(w) => if expect {
                split(ts, i + 1, false, params, out.push(Piece::Var(w.value@)))
            } else {
                split(ts, i + 1, false, params, out.push(Piece::Normal(ts[i])))
            },
            Token::Whitespace(Whitespace::SingleLineComment { comment, prefix }) if is_annotation(
                comment@,
            ) => match annotation(comment@) {
                Some(p) => split(ts, i + 1, expect, params.push(p), out),
                None => Err(BuildFault::ParamParse(comment@)),
            },
            _ => if expect {
                Err(BuildFault::InvalidVariable(ts[i]))
            } else {
                split(ts, i + 1, false, params, out.push(Piece::Normal(ts[i])))
            },
        }
    }
}

/// The declarations and the template of a token stream.
pub open spec fn split_all(ts: Seq<Token>) -> Result<(Seq<ParamView>, Seq<Piece>), BuildFault> {
    split(ts, 0, false, Seq::empty(), Seq::empty())
}

pub open spec fn names(ps: Seq<ParamView>) -> Seq<Seq<char>> {
    ps.map_values(|p: ParamView| p.name)
}

/// The names that are declared.
pub open spec fn declared(ps: Seq<ParamView>) -> Set<Seq<char>> {
    Set::new(|n: Seq<char>| exists|k: int| 0 <= k < ps.len() && #[trigger] ps[k].name == n)
}

/// The names that the template references.
pub open spec fn referenced(out: Seq<Piece>) -> Set<Seq<char>> {
    Set::new(|n: Seq<char>| exists|k: int| 0 <= k < out.len() && #[trigger] out[k] == Piece::Var(n))
}

/// The first name, in declaration order, that an earlier declaration already has.
pub open spec fn first_repeat(ns: Seq<Seq<char>>, j: int) -> Option<Seq<char>>
    decreases ns.len() - j,
{
    if j < 0 || j >= ns.len() {
        None
    } else if ns.subrange(0, j).contains(ns[j]) {
        Some(ns[j])
    } else {
        first_repeat(ns, j + 1)
    }
}

/// Checks the declarations against the references: no name declared twice, no
/// reference without a declaration, no declaration without a reference.
pub open spec fn validate(ps: Seq<ParamView>, out: Seq<Piece>) -> Result<(), BuildFault> {
    match first_repeat(names(ps), 0) {
        Some(n) => Err(BuildFault::Duplicated(n)),
        None => {
            let missing = referenced(out).difference(declared(ps));
            let unused = declared(ps).difference(referenced(out));
            if missing != Set::<Seq<char>>::empty() {
                Err(BuildFault::Missing(missing))
            } else if unused != Set::<Seq<char>>::empty() {
                Err(BuildFault::Unused(unused))
            } else {
                Ok(())
            }
        },
    }
}

/// The program that a token stream makes, or why it makes none.
pub open spec fn build(ts: Seq<Token>) -> Result<ProgramView, BuildFault> {
    match split_all(ts) {
        Err(f) => Err(f),
        Ok((ps, out)) => match validate(ps, out) {
            Err(f) => Err(f),
            Ok(()) => Ok(ProgramView { params: ps, tokens: out }),
        },
    }
}

/// The names that a list of strings holds.
pub open spec fn name_set(v: Seq<String>) -> Set<Seq<char>> {
    Set::new(|n: Seq<char>| exists|k: int| 0 <= k < v.len() && #[trigger] v[k]@ == n)
}

pub open spec fn distinct_names(v: Seq<String>) -> bool {
    forall|a: int, b: int| 0 <= a < b < v.len() ==> v[a]@ != v[b]@
}

/// Whether `e` is the error that reports `f`. A list of names is reported once
/// each, in the order they first occur.
pub open spec fn reports(e: PSqlError, f: BuildFault) -> bool {
    match f {
        BuildFault::InvalidVariable(t) => e == PSqlError::InvalidVariable(t),
        BuildFault::ParamParse(s) => e matches PSqlError::ParamParseError(x) && x@ == s,
        BuildFault::Duplicated(n) => e matches PSqlError::DuplicatedParam(x) && x@ == n,
        BuildFault::Missing(set) => e matches PSqlError::MissingParams(v) && name_set(v@) == set
            && distinct_names(v@),
        BuildFault::Unused(set) => e matches PSqlError::UnusedParams(v) && name_set(v@) == set
            && distinct_names(v@),
    }
}

fn declares(params: &Vec<Param>, n: &String) -> (r: bool)
    ensures
        r == declared(view_params(params@)).contains(n@),
{
    let mut k: usize = 0;
    while k < params.len()
        invariant
            k <= params.len(),
            forall|m: int| 0 <= m < k ==> params@[m].name@ != n@,
        decreases params.len() - k,
    {
        if params[k].name == *n {
            assert(view_params(params@)[k as int].name == n@);
            return true;
        }
        k = k + 1;
    }
    assert(!declared(view_params(params@)).contains(n@));
    false
}

fn references(out: &Vec<VariableToken>, n: &String) -> (r: bool)
    ensures
        r == referenced(view_pieces(out@)).contains(n@),
{
    let mut k: usize = 0;
    while k < out.len()
        invariant
            k <= out.len(),
            forall|m: int| 0 <= m < k ==> out@[m]@ != Piece::Var(n@),
        decreases out.len() - k,
    {
        match &out[k] {
            VariableToken::Var(v) => {
                if *v == *n {
                    assert(view_pieces(out@)[k as int] == Piece::Var(n@));
                    return true;
                }
            },
            VariableToken::Normal(_) => {},
        }
        k = k + 1;
    }
    assert(!referenced(view_pieces(out@)).contains(n@));
    false
}

fn listed(v: &Vec<String>, n: &String) -> (r: bool)
    ensures
        r == name_set(v@).contains(n@),
{
    let mut k: usize = 0;
    while k < v.len()
        invariant
            k <= v.len(),
            forall|m: int| 0 <= m < k ==> v@[m]@ != n@,
        decreases v.len() - k,
    {
        if v[k] == *n {
            return true;
        }
        k = k + 1;
    }
    false
}

/// Checks the declarations against the references of a template.
pub fn check_declarations(params: &Vec<Param>, out: &Vec<VariableToken>) -> (r: Result<
    (),
    PSqlError,
>)
    ensures
        match validate(view_params(params@), view_pieces(out@)) {
            Ok(()) => r is Ok,
            Err(f) => r matches Err(e) && reports(e, f),
        },
{
    let ghost ps = view_params(params@);
    let ghost pieces = view_pieces(out@);
    let ghost ns = names(ps);
    let mut j: usize = 0;
    while j < params.len()
        invariant
            j <= params.len(),
            ps == view_params(params@),
            ns == names(ps),
            first_repeat(ns, j as int) == first_repeat(ns, 0),
            forall|a: int, b: int| 0 <= a < b < j ==> ns[a] != ns[b],
        decreases params.len() - j,
    {
        let mut i: usize = 0;
        while i < j
            invariant
                i <= j < params.len(),
                ps == view_params(params@),
                ns == names(ps),
                first_repeat(ns, j as int) == first_repeat(ns, 0),
                forall|a: int| 0 <= a < i ==> ns[a] != ns[j as int],
            decreases j - i,
        {
            if params[i].name == params[j].name {
                assert(ns.subrange(0, j as int)[i as int] == ns[j as int]);
                assert(ns.subrange(0, j as int).contains(ns[j as int]));
                assert(ns[j as int] == params@[j as int].name@);
                return Err(PSqlError::DuplicatedParam(params[j].name.clone()));
            }
            i = i + 1;
        }
        assert(!ns.subrange(0, j as int).contains(ns[j as int]));
        j = j + 1;
    }
    assert(first_repeat(ns, params.len() as int) is None);
    let mut missing: Vec<String> = Vec::new();
    let mut k: usize = 0;
    while k < out.len()
        invariant
            k <= out.len(),
            ps == view_params(params@),
            pieces == view_pieces(out@),
            name_set(missing@) == referenced(pieces.subrange(0, k as int)).difference(
                declared(ps),
            ),
            distinct_names(missing@),
        decreases out.len() - k,
    {
        let ghost before = missing@;
        match &out[k] {
            VariableToken::Var(n) => {
                if !declares(params, n) && !listed(&missing, n) {
                    missing.push(n.clone());
                }
            },
            VariableToken::Normal(_) => {},
        }
        proof {
            let prev = pieces.subrange(0, k as int);
            let next = pieces.subrange(0, k + 1);
            assert(next =~= prev.push(pieces[k as int]));
            assert forall|x: Seq<char>| #[trigger] referenced(next).contains(x) <==> (referenced(
                prev,
            ).contains(x) || pieces[k as int] == Piece::Var(x)) by {
                if referenced(next).contains(x) {
                    let m = choose|m: int| 0 <= m < next.len() && #[trigger] next[m] == Piece::Var(x);
                    if m < k {
                        assert(prev[m] == Piece::Var(x));
                    }
                }
                if referenced(prev).contains(x) {
                    let m = choose|m: int| 0 <= m < prev.len() && #[trigger] prev[m] == Piece::Var(x);
                    assert(next[m] == Piece::Var(x));
                }
                if pieces[k as int] == Piece::Var(x) {
                    assert(next[k as int] == Piece::Var(x));
                }
            }
            assert forall|x: Seq<char>| #[trigger] name_set(missing@).contains(x) <==> (name_set(
                before,
            ).contains(x) || (pieces[k as int] == Piece::Var(x) && !declared(ps).contains(x))) by {
                if name_set(missing@).contains(x) {
                    let m = choose|m: int| 0 <= m < missing@.len() && #[trigger] missing@[m]@ == x;
                    if m < before.len() {
                        assert(before[m]@ == x);
                    }
                }
                if name_set(before).contains(x) {
                    let m = choose|m: int| 0 <= m < before.len() && #[trigger] before[m]@ == x;
                    assert(missing@[m]@ == x);
                }
                if pieces[k as int] == Piece::Var(x) && !declared(ps).contains(x) && !name_set(
                    before,
                ).contains(x) {
                    assert(missing@[before.len() as int]@ == x);
                }
            }
            assert(name_set(missing@) =~= referenced(next).difference(declared(ps)));
        }
        k = k + 1;
    }
    assert(pieces.subrange(0, out.len() as int) =~= pieces);
    if missing.len() > 0 {
        assert(name_set(missing@).contains(missing@[0]@));
        return Err(PSqlError::MissingParams(missing));
    }
    assert(name_set(missing@) =~= Set::<Seq<char>>::empty());
    let mut unused: Vec<String> = Vec::new();
    let mut j: usize = 0;
    while j < params.len()
        invariant
            j <= params.len(),
            ps == view_params(params@),
            pieces == view_pieces(out@),
            ns == names(ps),
            forall|a: int, b: int| 0 <= a < b < params.len() ==> ns[a] != ns[b],
            name_set(unused@) == declared(ps.subrange(0, j as int)).difference(
                referenced(pieces),
            ),
            forall|m: int| 0 <= m < unused@.len() ==> exists|a: int| 0 <= a < j && #[trigger] ns[a] == #[trigger] unused@[m]@,
            distinct_names(unused@),
        decreases params.len() - j,
    {
        let ghost before = unused@;
        if !references(out, &params[j].name) {
            proof {
                assert forall|m: int| 0 <= m < before.len() implies before[m]@ != ns[j as int] by {
                    let a = choose|a: int| 0 <= a < j && #[trigger] ns[a] == before[m]@;
                }
            }
            unused.push(params[j].name.clone());
        }
        proof {
            assert(ns[j as int] == params@[j as int].name@);
            assert forall|m: int| 0 <= m < unused@.len() implies exists|a: int| 0 <= a < j + 1 && #[trigger] ns[a] == #[trigger] unused@[m]@ by {
                if m < before.len() {
                    let a = choose|a: int| 0 <= a < j && #[trigger] ns[a] == before[m]@;
                    assert(ns[a] == unused@[m]@);
                } else {
                    assert(ns[j as int] == unused@[m]@);
                }
            }
            let prev = ps.subrange(0, j as int);
            let next = ps.subrange(0, j + 1);
            assert forall|x: Seq<char>| #[trigger] declared(next).contains(x) <==> (declared(
                prev,
            ).contains(x) || ps[j as int].name == x) by {
                if declared(next).contains(x) {
                    let m = choose|m: int| 0 <= m < next.len() && #[trigger] next[m].name == x;
                    if m < j {
                        assert(prev[m].name == x);
                    }
                }
                if declared(prev).contains(x) {
                    let m = choose|m: int| 0 <= m < prev.len() && #[trigger] prev[m].name == x;
                    assert(next[m].name == x);
                }
                if ps[j as int].name == x {
                    assert(next[j as int].name == x);
                }
            }
            assert forall|x: Seq<char>| #[trigger] name_set(unused@).contains(x) <==> (name_set(
                before,
            ).contains(x) || (ps[j as int].name == x && !referenced(pieces).contains(x))) by {
                if name_set(unused@).contains(x) {
                    let m = choose|m: int| 0 <= m < unused@.len() && #[trigger] unused@[m]@ == x;
                    if m < before.len() {
                        assert(before[m]@ == x);
                    }
                }
                if name_set(before).contains(x) {
                    let m = choose|m: int| 0 <= m < before.len() && #[trigger] before[m]@ == x;
                    assert(unused@[m]@ == x);
                }
                if ps[j as int].name == x && !referenced(pieces).contains(x) && !name_set(
                    before,
                ).contains(x) {
                    assert(unused@[before.len() as int]@ == x);
                }
            }
            assert(name_set(unused@) =~= declared(next).difference(referenced(pieces)));
        }
        j = j + 1;
    }
    assert(ps.subrange(0, params.len() as int) =~= ps);
    if unused.len() > 0 {
        assert(name_set(unused@).contains(unused@[0]@));
        return Err(PSqlError::UnusedParams(unused));
    }
    assert(name_set(unused@) =~= Set::<Seq<char>>::empty());
    Ok(())
}

/// Splits a token stream into declarations and template.
pub fn split_tokens(tokens: &Vec<Token>) -> (r: Result<(Vec<Param>, Vec<VariableToken>), PSqlError>)
    ensures
        match split_all(tokens@) {
            Ok((ps, out)) => r matches Ok((a, b)) && view_params(a@) == ps && view_pieces(b@)
                == out,
            Err(f) => r matches Err(e) && reports(e, f),
        },
{
    let mut expect = false;
    let mut params: Vec<Param> = Vec::new();
    let mut out: Vec<VariableToken> = Vec::new();
    let mut i: usize = 0;
    proof {
        assert(view_params(params@) =~= Seq::<ParamView>::empty());
        assert(view_pieces(out@) =~= Seq::<Piece>::empty());
    }
    while i < tokens.len()
        invariant
            i <= tokens.len(),
            split(tokens@, i as int, expect, view_params(params@), view_pieces(out@))
                == split_all(tokens@),
        decreases tokens.len() - i,
    {
        let ghost ps = params@;
        let ghost os = out@;
        match &tokens[i] {
            Token::AtSign => {
                if expect {
                    return Err(PSqlError::InvalidVariable(tokens[i].clone()));
                }
                expect = true;
            },
            Token::Word(w) => {
                if expect {
                    out.push(VariableToken::Var(w.value.clone()));
                    expect = false;
                } else {
                    out.push(VariableToken::Normal(tokens[i].clone()));
                }
                assert(view_pieces(out@) =~= view_pieces(os).push(out@[os.len() as int]@));
            },
            Token::Whitespace(Whitespace::SingleLineComment { comment, prefix: _ }) => {
                if is_annotation_text(comment) {
                    match Param::parse(comment) {
                        Some(p) => {
                            params.push(p);
                            assert(view_params(params@) =~= view_params(ps).push(
                                params@[ps.len() as int]@,
                            ));
                        },
                        None => {
                            return Err(PSqlError::ParamParseError(comment.clone()));
                        },
                    }
                } else {
                    if expect {
                        return Err(PSqlError::InvalidVariable(tokens[i].clone()));
                    }
                    out.push(VariableToken::Normal(tokens[i].clone()));
                    assert(view_pieces(out@) =~= view_pieces(os).push(out@[os.len() as int]@));
                }
            },
            _ => {
                if expect {
                    return Err(PSqlError::InvalidVariable(tokens[i].clone()));
                }
                out.push(VariableToken::Normal(tokens[i].clone()));
                assert(view_pieces(out@) =~= view_pieces(os).push(out@[os.len() as int]@));
            },
        }
        i = i + 1;
    }
    if expect {
        return Err(PSqlError::InvalidVariable(Token::EOF));
    }
    Ok((params, out))
}

impl Program {
    /// Makes a program from a token stream: splits it, then checks the declarations
    /// against the references.
    pub fn from_tokens(tokens: &Vec<Token>) -> (r: Result<Program, PSqlError>)
        ensures
            match build(tokens@) {
                Ok(p) => r matches Ok(q) && q@ == p,
                Err(f) => r matches Err(e) && reports(e, f),
            },
            r matches Ok(q) ==> q.wf(),
    {
        let (params, tokens) = split_tokens(tokens)?;
        check_declarations(&params, &tokens)?;
        Ok(Program { params, tokens })
    }

    /// Compiles annotated SQL text written in dialect `d`.
    pub fn parse(d: &Dialect, program: &str) -> (r: Result<Program, PSqlError>)
        ensures
            match lexed(*d, program@) {
                None => r matches Err(PSqlError::TokenizeError(_)),
                Some(ts) => match build(ts) {
                    Ok(p) => r matches Ok(q) && q@ == p,
                    Err(f) => r matches Err(e) && reports(e, f),
                },
            },
            r matches Ok(q) ==> q.wf(),
    {
        match tokenize(*d, program) {
            Ok(tokens) => Program::from_tokens(&tokens),
            Err(e) => Err(PSqlError::TokenizeError(e)),
        }
    }
}

proof fn lemma_first_repeat(ns: Seq<Seq<char>>, j: int)
    requires
        0 <= j <= ns.len(),
    ensures
        first_repeat(ns, j) is None <==> (forall|a: int, b: int|
            0 <= a < b < ns.len() && j <= b ==> ns[a] != ns[b]),
        first_repeat(ns, j) matches Some(n) ==> exists|a: int, b: int|
            0 <= a < b < ns.len() && ns[a] == n && ns[b] == n,
    decreases ns.len() - j,
{
    if j < ns.len() {
        lemma_first_repeat(ns, j + 1);
        if ns.subrange(0, j).contains(ns[j]) {
            let a = choose|a: int| 0 <= a < j && ns.subrange(0, j)[a] == ns[j];
            assert(ns[a] == ns[j]);
        } else {
            assert forall|a: int, b: int| 0 <= a < b < ns.len() && j <= b && (forall|a2: int, b2: int|
                0 <= a2 < b2 < ns.len() && j + 1 <= b2 ==> ns[a2] != ns[b2]) implies ns[a] != ns[b] by {
                if b == j {
                    assert(ns.subrange(0, j)[a] == ns[a]);
                }
            }
        }
    }
}

/// Of a well formed annotated statement, building succeeds exactly when no name is
/// declared twice and the declared names are the referenced names. Otherwise it
/// reports a repeated name; failing that, the referenced names that are not
/// declared; failing that, the declared names that are not referenced.
pub proof fn law_build_checks_declarations(ts: Seq<Token>)
    requires
        split_all(ts) is Ok,
    ensures
        ({
            let (ps, out) = split_all(ts)->Ok_0;
            &&& build(ts) is Ok <==> (names(ps).no_duplicates() && declared(ps) == referenced(
                out,
            ))
            &&& !names(ps).no_duplicates() ==> (build(ts) matches Err(BuildFault::Duplicated(n))
                && exists|a: int, b: int|
                0 <= a < b < ps.len() && ps[a].name == n && ps[b].name == n)
            &&& names(ps).no_duplicates() && !referenced(out).subset_of(declared(ps)) ==> build(
                ts,
            ) == Err::<ProgramView, BuildFault>(
                BuildFault::Missing(referenced(out).difference(declared(ps))),
            )
            &&& names(ps).no_duplicates() && referenced(out).subset_of(declared(ps))
                && !declared(ps).subset_of(referenced(out)) ==> build(ts) == Err::<
                ProgramView,
                BuildFault,
            >(BuildFault::Unused(declared(ps).difference(referenced(out))))
        }),
{
    let (ps, out) = split_all(ts)->Ok_0;
    let ns = names(ps);
    lemma_first_repeat(ns, 0);
    let missing = referenced(out).difference(declared(ps));
    let unused = declared(ps).difference(referenced(out));
    if referenced(out).subset_of(declared(ps)) {
        assert(missing =~= Set::<Seq<char>>::empty());
    } else {
        let x = choose|x: Seq<char>| referenced(out).contains(x) && !declared(ps).contains(x);
        assert(missing.contains(x));
    }
    if declared(ps).subset_of(referenced(out)) {
        assert(unused =~= Set::<Seq<char>>::empty());
    } else {
        let x = choose|x: Seq<char>| declared(ps).contains(x) && !referenced(out).contains(x);
        assert(unused.contains(x));
    }
    if referenced(out).subset_of(declared(ps)) && declared(ps).subset_of(referenced(out)) {
        assert(declared(ps) =~= referenced(out));
    }
    if first_repeat(ns, 0) is Some {
        let n = first_repeat(ns, 0)->0;
        let (a, b) = choose|a: int, b: int| 0 <= a < b < ns.len() && ns[a] == n && ns[b] == n;
        assert(ps[a].name == n && ps[b].name == n);
    }
}

} // verus!
