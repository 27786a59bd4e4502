//! The declaration grammar of parameter annotations:
//! `? name : type [= default] [// help]`, where `type` is `str`, `num`, `raw` or one
//! of them in brackets, and spaces and tabs between the parts are free.

use vstd::prelude::*;
use crate::scan::{
    line_ends_end, skip_line_ends, blanks_end, chars_of, ident_rest_end, is_alpha, skip_blanks, skip_ident_rest, slice_text,
    stop_at, find_stop,
};
use crate::value::{
    delimited_at, lemma_view_all, lemma_view_all_push, number_end, scan_delimited, scan_number, view_all, InnerTy,
    ParamTy, ParamValue, Value,
};

verus! {

/// A declared parameter.
#[derive(Debug, Clone, PartialEq)]
pub struct Param {
    pub name: String,
    pub ty: ParamTy,
    pub default: Option<ParamValue>,
    pub help: String,
}

/// The mathematical model of a `Param`.
pub struct ParamView {
    pub name: Seq<char>,
    pub ty: ParamTy,
    pub default: Option<Value>,
    pub help: Seq<char>,
}

pub open spec fn view_default(d: Option<ParamValue>) -> Option<Value> {
    match d {
        Some(v) => Some(v@),
        None => None,
    }
}

impl View for Param {
    type V = ParamView;

    open spec fn view(&self) -> ParamView {
        ParamView {
            name: self.name@,
            ty: self.ty,
            default: view_default(self.default),
            help: self.help@,
        }
    }
}

/// End of an identifier (a letter or `_`, then letters, digits and `_`) at `i`.
pub open spec fn ident_end(s: Seq<char>, i: int) -> Option<int> {
    if 0 <= i < s.len() && (is_alpha(s[i]) || s[i] == '_') {
        Some(ident_rest_end(s, i + 1))
    } else {
        None
    }
}

/// Whether the three characters at `i` are `a`, `b`, `c`.
pub open spec fn word3_at(s: Seq<char>, i: int, a: char, b: char, c: char) -> bool {
    0 <= i && i + 3 <= s.len() && s[i] == a && s[i + 1] == b && s[i + 2] == c
}

pub open spec fn inner_ty_at(s: Seq<char>, i: int) -> Option<(InnerTy, int)> {
    if word3_at(s, i, 's', 't', 'r') {
        Some((InnerTy::Str, i + 3))
    } else if word3_at(s, i, 'n', 'u', 'm') {
        Some((InnerTy::Num, i + 3))
    } else if word3_at(s, i, 'r', 'a', 'w') {
        Some((InnerTy::Raw, i + 3))
    } else {
        None
    }
}

pub open spec fn ty_at(s: Seq<char>, i: int) -> Option<(ParamTy, int)> {
    if 0 <= i < s.len() && s[i] == '[' {
        match inner_ty_at(s, blanks_end(s, i + 1)) {
            Some((t, k)) => {
                let m = blanks_end(s, k);
                if m < s.len() && s[m] == ']' {
                    Some((ParamTy::Array(t), m + 1))
                } else {
                    None
                }
            },
            None => None,
        }
    } else {
        match inner_ty_at(s, i) {
            Some((t, k)) => Some((ParamTy::Basic(t), k)),
            None => None,
        }
    }
}

/// A scalar default of type `t` at `i`: a single- or double-quoted string, a decimal
/// literal, or a `#...#` raw fragment.
pub open spec fn scalar_at(s: Seq<char>, i: int, t: InnerTy) -> Option<(Value, int)> {
    match t {
        InnerTy::Str => match delimited_at(s, i, '\'') {
            Some((b, e)) => Some((Value::Str(b), e)),
            None => match delimited_at(s, i, '"') {
                Some((b, e)) => Some((Value::Str(b), e)),
                None => None,
            },
        },
        InnerTy::Num => match number_end(s, i) {
            Some(e) => Some((Value::Num(s.subrange(i, e)), e)),
            None => None,
        },
        InnerTy::Raw => match delimited_at(s, i, '#') {
            Some((b, e)) => Some((Value::Raw(b), e)),
            None => None,
        },
    }
}

/// The items of a list after one that ends at `k`: each further item follows a comma.
/// The list stops before the first comma that no item follows.
pub open spec fn list_rest(s: Seq<char>, k: int, t: InnerTy, acc: Seq<Value>) -> (Seq<Value>, int)
    decreases s.len() - k,
{
    let a = blanks_end(s, k);
    if 0 <= a < s.len() && s[a] == ',' {
        match scalar_at(s, blanks_end(s, a + 1), t) {
            Some((v, e)) => if k < e <= s.len() {
                list_rest(s, e, t, acc.push(v))
            } else {
                (acc, k)
            },
            None => (acc, k),
        }
    } else {
        (acc, k)
    }
}

/// A bracketed, comma-separated list of scalars of type `t` at `i`.
pub open spec fn array_at(s: Seq<char>, i: int, t: InnerTy) -> Option<(Value, int)> {
    if 0 <= i < s.len() && s[i] == '[' {
        let a = blanks_end(s, i + 1);
        let (items, k) = match scalar_at(s, a, t) {
            Some((v, e)) => list_rest(s, e, t, seq![v]),
            None => (Seq::empty(), a),
        };
        let m = blanks_end(s, k);
        if 0 <= m < s.len() && s[m] == ']' {
            Some((Value::Array(items), m + 1))
        } else {
            None
        }
    } else {
        None
    }
}

pub open spec fn default_at(s: Seq<char>, i: int, ty: ParamTy) -> Option<(Value, int)> {
    match ty {
        ParamTy::Basic(t) => scalar_at(s, i, t),
        ParamTy::Array(t) => array_at(s, i, t),
    }
}

/// The help text after position `i`: what follows `//` up to the end of the line, or
/// nothing.
pub open spec fn help_at(s: Seq<char>, i: int) -> Seq<char> {
    let a = blanks_end(s, i);
    if 0 <= a && a + 1 < s.len() && s[a] == '/' && s[a + 1] == '/' {
        let b = blanks_end(s, a + 2);
        let e = stop_at(s, b, '\r', '\n');
        if e > b {
            s.subrange(b, e)
        } else {
            Seq::empty()
        }
    } else {
        Seq::empty()
    }
}

/// Where the help text after position `i` ends: at the end of the line when `//`
/// follows, and at `i` otherwise.
pub open spec fn help_end(s: Seq<char>, i: int) -> int {
    let a = blanks_end(s, i);
    if 0 <= a && a + 1 < s.len() && s[a] == '/' && s[a + 1] == '/' {
        stop_at(s, blanks_end(s, a + 2), '\r', '\n')
    } else {
        i
    }
}

/// Whether nothing but blanks and line ends follows the part of a declaration that
/// ends at `h`, once its help text is read.
pub open spec fn ends_cleanly(s: Seq<char>, h: int) -> bool {
    line_ends_end(s, blanks_end(s, help_end(s, h))) == s.len()
}

/// The declaration that starts with the `?` at `i`, if it is well formed: after the
/// type, the optional default and the optional help, only blanks and line ends may
/// follow.
pub open spec fn param_at(s: Seq<char>, i: int) -> Option<ParamView> {
    if 0 <= i < s.len() && s[i] == '?' {
        let a = blanks_end(s, i + 1);
        match ident_end(s, a) {
            Some(e) => {
                let b = blanks_end(s, e);
                if b < s.len() && s[b] == ':' {
                    match ty_at(s, blanks_end(s, b + 1)) {
                        Some((ty, d)) => {
                            let f = blanks_end(s, d);
                            if f < s.len() && s[f] == '=' {
                                match default_at(s, blanks_end(s, f + 1), ty) {
                                    Some((v, h)) => if !ends_cleanly(s, h) {
                                        None
                                    } else {
                                        Some(
                                        ParamView {
                                            name: s.subrange(a, e),
                                            ty,
                                            default: Some(v),
                                            help: help_at(s, h),
                                        },
                                    )
                                    },
                                    None => None,
                                }
                            } else if !ends_cleanly(s, d) {
                                None
                            } else {
                                Some(
                                    ParamView {
                                        name: s.subrange(a, e),
                                        ty,
                                        default: None,
                                        help: help_at(s, d),
                                    },
                                )
                            }
                        },
                        None => None,
                    }
                } else {
                    None
                }
            },
            None => None,
        }
    } else {
        None
    }
}

/// Whether a comment's text is a declaration: its first character after leading
/// spaces and tabs is `?`.
pub open spec fn is_annotation(s: Seq<char>) -> bool {
    let i = blanks_end(s, 0);
    0 <= i < s.len() && s[i] == '?'
}

/// The declaration that a comment's text holds.
pub open spec fn annotation(s: Seq<char>) -> Option<ParamView> {
    param_at(s, blanks_end(s, 0))
}

fn scan_ident(s: &Vec<char>, i: usize) -> (r: Option<usize>)
    requires
        i <= s.len(),
    ensures
        r is Some <==> ident_end(s@, i as int) is Some,
        r matches Some(e) ==> ident_end(s@, i as int) == Some(e as int) && i < e <= s.len(),
{
    if i < s.len() && (('a' <= s[i] && s[i] <= 'z') || ('A' <= s[i] && s[i] <= 'Z') || s[i]
        == '_') {
        Some(skip_ident_rest(s, i + 1))
    } else {
        None
    }
}

fn word3(s: &Vec<char>, i: usize, a: char, b: char, c: char) -> (r: bool)
    requires
        i <= s.len(),
    ensures
        r == word3_at(s@, i as int, a, b, c),
{
    i < s.len() && s.len() - i >= 3 && s[i] == a && s[i + 1] == b && s[i + 2] == c
}

fn scan_inner_ty(s: &Vec<char>, i: usize) -> (r: Option<(InnerTy, usize)>)
    requires
        i <= s.len(),
    ensures
        r is Some <==> inner_ty_at(s@, i as int) is Some,
        r matches Some((t, e)) ==> inner_ty_at(s@, i as int) == Some((t, e as int)) && e
            <= s.len(),
{
    if word3(s, i, 's', 't', 'r') {
        Some((InnerTy::Str, i + 3))
    } else if word3(s, i, 'n', 'u', 'm') {
        Some((InnerTy::Num, i + 3))
    } else if word3(s, i, 'r', 'a', 'w') {
        Some((InnerTy::Raw, i + 3))
    } else {
        None
    }
}

fn scan_ty(s: &Vec<char>, i: usize) -> (r: Option<(ParamTy, usize)>)
    requires
        i <= s.len(),
    ensures
        r is Some <==> ty_at(s@, i as int) is Some,
        r matches Some((t, e)) ==> ty_at(s@, i as int) == Some((t, e as int)) && e <= s.len(),
{
    if i < s.len() && s[i] == '[' {
        let a = skip_blanks(s, i + 1);
        match scan_inner_ty(s, a) {
            Some((t, k)) => {
                let m = skip_blanks(s, k);
                if m < s.len() && s[m] == ']' {
                    Some((ParamTy::Array(t), m + 1))
                } else {
                    None
                }
            },
            None => None,
        }
    } else {
        match scan_inner_ty(s, i) {
            Some((t, k)) => Some((ParamTy::Basic(t), k)),
            None => None,
        }
    }
}

fn scan_scalar(s: &Vec<char>, text: &str, i: usize, t: InnerTy) -> (r: Option<(ParamValue, usize)>)
    requires
        i <= s.len(),
        s@ == text@,
    ensures
        r is Some <==> scalar_at(s@, i as int, t) is Some,
        r matches Some((v, e)) ==> scalar_at(s@, i as int, t) == Some((v@, e as int)) && i < e
            <= s.len(),
{
    match t {
        InnerTy::Str => match scan_delimited(s, i, '\'') {
            Some((j, k)) => Some((ParamValue::Str(slice_text(text, i + 1, j)), k)),
            None => match scan_delimited(s, i, '"') {
                Some((j, k)) => Some((ParamValue::Str(slice_text(text, i + 1, j)), k)),
                None => None,
            },
        },
        InnerTy::Num => match scan_number(s, i) {
            Some(e) => Some((ParamValue::Num(slice_text(text, i, e)), e)),
            None => None,
        },
        InnerTy::Raw => match scan_delimited(s, i, '#') {
            Some((j, k)) => Some((ParamValue::Raw(slice_text(text, i + 1, j)), k)),
            None => None,
        },
    }
}

fn scan_array(s: &Vec<char>, text: &str, i: usize, t: InnerTy) -> (r: Option<(ParamValue, usize)>)
    requires
        i <= s.len(),
        s@ == text@,
    ensures
        r is Some <==> array_at(s@, i as int, t) is Some,
        r matches Some((v, e)) ==> array_at(s@, i as int, t) == Some((v@, e as int)) && e
            <= s.len(),
{
    if !(i < s.len() && s[i] == '[') {
        return None;
    }
    let a = skip_blanks(s, i + 1);
    let mut items: Vec<ParamValue> = Vec::new();
    let mut k: usize = a;
    match scan_scalar(s, text, a, t) {
        Some((v, e)) => {
            let ghost first = v@;
            items.push(v);
            k = e;
            proof {
                lemma_view_all(items@);
                assert(view_all(items@) =~= seq![first]);
            }
            loop
                invariant
                    a < k <= s.len(),
                    s@ == text@,
                    scalar_at(s@, a as int, t) == Some((first, e as int)),
                    list_rest(s@, k as int, t, view_all(items@)) == list_rest(
                        s@,
                        e as int,
                        t,
                        seq![first],
                    ),
                ensures
                    a < k <= s.len(),
                    list_rest(s@, e as int, t, seq![first]) == (view_all(items@), k as int),
                decreases s.len() - k,
            {
                let b = skip_blanks(s, k);
                if !(b < s.len() && s[b] == ',') {
                    assert(list_rest(s@, k as int, t, view_all(items@)) == (view_all(items@), k as int));
                    break;
                }
                let c = skip_blanks(s, b + 1);
                match scan_scalar(s, text, c, t) {
                    Some((v2, e2)) => {
                        if !(k < e2) {
                            assert(list_rest(s@, k as int, t, view_all(items@)) == (view_all(items@), k as int));
                            break;
                        }
                        proof {
                            lemma_view_all_push(items@, v2);
                        }
                        items.push(v2);
                        k = e2;
                    },
                    None => {
                        assert(list_rest(s@, k as int, t, view_all(items@)) == (view_all(items@), k as int));
                        break;
                    },
                }
            }
        },
        None => {
            proof {
                lemma_view_all(items@);
                assert(view_all(items@) =~= Seq::<Value>::empty());
            }
        },
    }
    let m = skip_blanks(s, k);
    if m < s.len() && s[m] == ']' {
        Some((ParamValue::Array(items), m + 1))
    } else {
        None
    }
}

fn scan_default(s: &Vec<char>, text: &str, i: usize, ty: ParamTy) -> (r: Option<
    (ParamValue, usize),
>)
    requires
        i <= s.len(),
        s@ == text@,
    ensures
        r is Some <==> default_at(s@, i as int, ty) is Some,
        r matches Some((v, e)) ==> default_at(s@, i as int, ty) == Some((v@, e as int)) && e
            <= s.len(),
{
    match ty {
        ParamTy::Basic(t) => scan_scalar(s, text, i, t),
        ParamTy::Array(t) => scan_array(s, text, i, t),
    }
}

fn scan_help_end(s: &Vec<char>, i: usize) -> (r: usize)
    requires
        i <= s.len(),
    ensures
        r == help_end(s@, i as int),
        r <= s.len(),
{
    let a = skip_blanks(s, i);
    if a < s.len() && a + 1 < s.len() && s[a] == '/' && s[a + 1] == '/' {
        let b = skip_blanks(s, a + 2);
        find_stop(s, b, '\r', '\n')
    } else {
        i
    }
}

fn scan_ends_cleanly(s: &Vec<char>, h: usize) -> (r: bool)
    requires
        h <= s.len(),
    ensures
        r == ends_cleanly(s@, h as int),
{
    let e = scan_help_end(s, h);
    let b = skip_blanks(s, e);
    skip_line_ends(s, b) == s.len()
}

fn scan_help(s: &Vec<char>, text: &str, i: usize) -> (r: String)
    requires
        i <= s.len(),
        s@ == text@,
    ensures
        r@ == help_at(s@, i as int),
{
    let a = skip_blanks(s, i);
    if a < s.len() && a + 1 < s.len() && s[a] == '/' && s[a + 1] == '/' {
        let b = skip_blanks(s, a + 2);
        let e = find_stop(s, b, '\r', '\n');
        if e > b {
            return slice_text(text, b, e);
        }
    }
    String::new()
}

impl Param {
    /// Reads the declaration held by an annotation comment's text, which starts,
    /// after spaces and tabs, with `?`. Gives `None` where the text is not a well
    /// formed declaration, also where anything but blanks and line ends follows it.
    pub fn parse(text: &str) -> (r: Option<Param>)
        ensures
            r is Some <==> annotation(text@) is Some,
            r matches Some(p) ==> annotation(text@) == Some(p@),
    {
        let s = chars_of(text);
        let i = skip_blanks(&s, 0);
        if !(i < s.len() && s[i] == '?') {
            return None;
        }
        let a = skip_blanks(&s, i + 1);
        let e = match scan_ident(&s, a) {
            Some(e) => e,
            None => {
                return None;
            },
        };
        let b = skip_blanks(&s, e);
        if !(b < s.len() && s[b] == ':') {
            return None;
        }
        let c = skip_blanks(&s, b + 1);
        let (ty, d) = match scan_ty(&s, c) {
            Some(x) => x,
            None => {
                return None;
            },
        };
        let name = slice_text(text, a, e);
        let f = skip_blanks(&s, d);
        if f < s.len() && s[f] == '=' {
            let g = skip_blanks(&s, f + 1);
            match scan_default(&s, text, g, ty) {
                Some((v, h)) => {
                    if !scan_ends_cleanly(&s, h) {
                        return None;
                    }
                    let help = scan_help(&s, text, h);
                    Some(Param { name, ty, default: Some(v), help })
                },
                None => None,
            }
        } else {
            if !scan_ends_cleanly(&s, d) {
                return None;
            }
            let help = scan_help(&s, text, d);
            Some(Param { name, ty, default: None, help })
        }
    }
}

/// Whether a comment's text is an annotation.
pub fn is_annotation_text(text: &str) -> (r: bool)
    ensures
        r == is_annotation(text@),
{
    let s = chars_of(text);
    let i = skip_blanks(&s, 0);
    i < s.len() && s[i] == '?'
}

} // verus!
