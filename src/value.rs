//! The typed parameter values: their types, their textual forms and how an
//! argument string is read as a value.

use vstd::prelude::*;
use crate::errors::PSqlError;
use crate::scan::{
    blanks_end, chars_of, digits_end, find_stop, skip_digits, slice_text, stop_at,
};

verus! {

/// The type of a scalar value.
#[derive(Debug, Clone, Copy, PartialEq, Eq, Structural)]
pub enum InnerTy {
    Str,
    Num,
    Raw,
}

/// The declared type of a parameter: one value, or a list of values.
#[derive(Debug, Clone, Copy, PartialEq, Eq, Structural)]
pub enum ParamTy {
    Basic(InnerTy),
    Array(InnerTy),
}

/// A value bound to a parameter. A number is held as the decimal literal
/// it was written as; a raw value is SQL text spliced in as it stands.
#[derive(Debug, PartialEq)]
pub enum ParamValue {
    Str(String),
    Num(String),
    Raw(String),
    Array(Vec<ParamValue>),
}

/// The mathematical model of a `ParamValue`.
pub enum Value {
    Str(Seq<char>),
    Num(Seq<char>),
    Raw(Seq<char>),
    Array(Seq<Value>),
}

/// The models of the first `n` items.
pub open spec fn view_items(items: Seq<ParamValue>, n: int) -> Seq<Value>
    decreases items, n,
{
    if n <= 0 || n > items.len() {
        Seq::empty()
    } else {
        view_items(items, n - 1).push(view_value(items[n - 1]))
    }
}

pub open spec fn view_value(v: ParamValue) -> Value
    decreases v,
{
    match v {
        ParamValue::Str(s) => Value::Str(s@),
        ParamValue::Num(s) => Value::Num(s@),
        ParamValue::Raw(s) => Value::Raw(s@),
        ParamValue::Array(items) => Value::Array(view_items(items@, items@.len() as int)),
    }
}

impl View for ParamValue {
    type V = Value;

    open spec fn view(&self) -> Value {
        view_value(*self)
    }
}

/// The models of a whole list of values.
pub open spec fn view_all(items: Seq<ParamValue>) -> Seq<Value> {
    view_items(items, items.len() as int)
}

pub proof fn lemma_view_items_len(items: Seq<ParamValue>, n: int)
    requires
        0 <= n <= items.len(),
    ensures
        view_items(items, n).len() == n,
        forall|k: int| 0 <= k < n ==> #[trigger] view_items(items, n)[k] == view_value(items[k]),
    decreases n,
{
    if n > 0 {
        lemma_view_items_len(items, n - 1);
    }
}

pub proof fn lemma_view_all(items: Seq<ParamValue>)
    ensures
        view_all(items).len() == items.len(),
        forall|k: int| 0 <= k < items.len() ==> #[trigger] view_all(items)[k] == items[k]@,
{
    lemma_view_items_len(items, items.len() as int);
}

pub proof fn lemma_view_all_push(items: Seq<ParamValue>, x: ParamValue)
    ensures
        view_all(items.push(x)) == view_all(items).push(x@),
{
    lemma_view_all(items);
    lemma_view_all(items.push(x));
    assert(view_all(items.push(x)) =~= view_all(items).push(x@));
}

/// End of an optional `+` or `-` at `i`.
pub open spec fn sign_end(s: Seq<char>, i: int) -> int {
    if 0 <= i < s.len() && (s[i] == '+' || s[i] == '-') {
        i + 1
    } else {
        i
    }
}

/// End of the mantissa of a decimal literal starting at `i` (after its sign):
/// digits with an optional fraction, or a point followed by digits.
pub open spec fn mantissa_end(s: Seq<char>, i: int) -> Option<int> {
    let b = digits_end(s, i);
    if b > i {
        if b < s.len() && s[b] == '.' {
            Some(digits_end(s, b + 1))
        } else {
            Some(b)
        }
    } else if i < s.len() && s[i] == '.' && digits_end(s, i + 1) > i + 1 {
        Some(digits_end(s, i + 1))
    } else {
        None
    }
}

/// End of the longest decimal literal (`[+-]digits[.digits][e[+-]digits]`) that
/// starts at `i`. An exponent marker must be followed by digits.
pub open spec fn number_end(s: Seq<char>, i: int) -> Option<int> {
    match mantissa_end(s, sign_end(s, i)) {
        None => None,
        Some(c) => if c < s.len() && (s[c] == 'e' || s[c] == 'E') {
            let d = sign_end(s, c + 1);
            if digits_end(s, d) > d {
                Some(digits_end(s, d))
            } else {
                None
            }
        } else {
            Some(c)
        },
    }
}

/// Text delimited by `q` at `i`: at least one character that is neither `q` nor a
/// backslash, between two `q`. Gives the text and the position after the closing `q`.
pub open spec fn delimited_at(s: Seq<char>, i: int, q: char) -> Option<(Seq<char>, int)> {
    if 0 <= i < s.len() && s[i] == q {
        let j = stop_at(s, i + 1, q, '\\');
        if j > i + 1 && j < s.len() && s[j] == q {
            Some((s.subrange(i + 1, j), j + 1))
        } else {
            None
        }
    } else {
        None
    }
}

/// What an argument string denotes as a value of type `ty`, if anything: a string
/// is taken as it stands, a number must be one whole decimal literal, and a raw
/// fragment one whole `#...#` text.
pub open spec fn arg_value(ty: InnerTy, s: Seq<char>) -> Option<Value> {
    match ty {
        InnerTy::Str => Some(Value::Str(s)),
        InnerTy::Num => if number_end(s, 0) == Some(s.len() as int) {
            Some(Value::Num(s))
        } else {
            None
        },
        InnerTy::Raw => match delimited_at(s, 0, '#') {
            Some((body, e)) => if e == s.len() {
                Some(Value::Raw(body))
            } else {
                None
            },
            None => None,
        },
    }
}

fn skip_sign(s: &Vec<char>, i: usize) -> (r: usize)
    requires
        i <= s.len(),
    ensures
        r == sign_end(s@, i as int),
        i <= r <= s.len(),
{
    if i < s.len() && (s[i] == '+' || s[i] == '-') {
        i + 1
    } else {
        i
    }
}

/// Scans a decimal literal at `i`.
pub fn scan_number(s: &Vec<char>, i: usize) -> (r: Option<usize>)
    requires
        i <= s.len(),
    ensures
        r is Some <==> number_end(s@, i as int) is Some,
        r matches Some(e) ==> number_end(s@, i as int) == Some(e as int) && i < e <= s.len(),
{
    let a = skip_sign(s, i);
    let b = skip_digits(s, a);
    let c: usize;
    if b > a {
        if b < s.len() && s[b] == '.' {
            c = skip_digits(s, b + 1);
        } else {
            c = b;
        }
    } else if a < s.len() && s[a] == '.' {
        let f = skip_digits(s, a + 1);
        if f > a + 1 {
            c = f;
        } else {
            return None;
        }
    } else {
        return None;
    }
    assert(mantissa_end(s@, a as int) == Some(c as int));
    if c < s.len() && (s[c] == 'e' || s[c] == 'E') {
        let d = skip_sign(s, c + 1);
        let e = skip_digits(s, d);
        if e > d {
            Some(e)
        } else {
            None
        }
    } else {
        Some(c)
    }
}

/// Scans text delimited by `q` at `i`; gives the end of the text and the position
/// after the closing delimiter.
pub fn scan_delimited(s: &Vec<char>, i: usize, q: char) -> (r: Option<(usize, usize)>)
    requires
        i <= s.len(),
    ensures
        match delimited_at(s@, i as int, q) {
            Some((body, e)) => r matches Some((j, k)) && k == e && j + 1 == k && i + 1 < j
                && body == s@.subrange(i + 1, j as int) && k <= s.len(),
            None => r is None,
        },
{
    if i < s.len() && s[i] == q {
        let j = find_stop(s, i + 1, q, '\\');
        if j > i + 1 && j < s.len() && s[j] == q {
            Some((j, j + 1))
        } else {
            None
        }
    } else {
        None
    }
}

impl Clone for ParamValue {
    fn clone(&self) -> (r: ParamValue)
        ensures
            r@ == self@,
        decreases self,
    {
        match self {
            ParamValue::Str(s) => ParamValue::Str(s.clone()),
            ParamValue::Num(s) => ParamValue::Num(s.clone()),
            ParamValue::Raw(s) => ParamValue::Raw(s.clone()),
            ParamValue::Array(items) => {
                let mut out: Vec<ParamValue> = Vec::new();
                let mut k: usize = 0;
                while k < items.len()
                    invariant
                        *self == ParamValue::Array(*items),
                        k <= items.len(),
                        out@.len() == k,
                        forall|m: int| 0 <= m < k ==> #[trigger] out@[m]@ == items@[m]@,
                    decreases items.len() - k,
                {
                    proof {
                        vstd::std_specs::vec::axiom_vec_index_decreases(*items, k as int);
                        assert(decreases_to!(*self => (*self)->Array_0));
                        assert(decreases_to!(*self => items[k as int]));
                    }
                    let c = items[k].clone();
                    out.push(c);
                    k = k + 1;
                }
                proof {
                    lemma_view_all(out@);
                    lemma_view_all(items@);
                    assert(view_all(out@) =~= view_all(items@));
                }
                ParamValue::Array(out)
            },
        }
    }
}

impl ParamValue {
    /// Reads an argument string as a value of type `ty`. The string is taken as it
    /// stands: it is not quoted, and a number or raw fragment must fill it whole.
    pub fn from_arg_str(ty: &InnerTy, arg_str: &str) -> (r: Result<ParamValue, PSqlError>)
        ensures
            match arg_value(*ty, arg_str@) {
                Some(v) => r matches Ok(p) && p@ == v,
                None => r matches Err(PSqlError::InvalidArgValue(a, t)) && a@ == arg_str@ && t
                    == *ty,
            },
    {
        let cs = chars_of(arg_str);
        match ty {
            InnerTy::Str => Ok(ParamValue::Str(String::from_str(arg_str))),
            InnerTy::Num => {
                match scan_number(&cs, 0) {
                    Some(e) => {
                        if e == cs.len() {
                            return Ok(ParamValue::Num(String::from_str(arg_str)));
                        }
                    },
                    None => {},
                }
                Err(PSqlError::InvalidArgValue(String::from_str(arg_str), *ty))
            },
            InnerTy::Raw => {
                match scan_delimited(&cs, 0, '#') {
                    Some((j, k)) => {
                        if k == cs.len() {
                            return Ok(ParamValue::Raw(slice_text(arg_str, 1, j)));
                        }
                    },
                    None => {},
                }
                Err(PSqlError::InvalidArgValue(String::from_str(arg_str), *ty))
            },
        }
    }
}

/// The name of a value type in declarations.
pub open spec fn inner_ty_text(t: InnerTy) -> Seq<char> {
    match t {
        InnerTy::Str => "str"@,
        InnerTy::Num => "num"@,
        InnerTy::Raw => "raw"@,
    }
}

/// A parameter type as it is declared: a list type in brackets.
pub open spec fn param_ty_text(t: ParamTy) -> Seq<char> {
    match t {
        ParamTy::Basic(i) => inner_ty_text(i),
        ParamTy::Array(i) => "["@ + inner_ty_text(i) + "]"@,
    }
}

/// The texts of `items` from position `i` on, separated by `", "`, after `acc`.
pub open spec fn items_text(items: Seq<Value>, i: int, acc: Seq<char>) -> Seq<char>
    decreases items, items.len() - i,
{
    if i < 0 || i >= items.len() {
        acc
    } else {
        items_text(
            items,
            i + 1,
            if i == 0 {
                acc + value_text(items[i])
            } else {
                acc + ", "@ + value_text(items[i])
            },
        )
    }
}

/// A value as SQL-like text: a string in single quotes, a number or raw fragment as
/// it stands, a list in parentheses.
pub open spec fn value_text(v: Value) -> Seq<char>
    decreases v,
{
    match v {
        Value::Str(s) => "'"@ + s + "'"@,
        Value::Num(s) => s,
        Value::Raw(s) => s,
        Value::Array(items) => "("@ + items_text(items, 0, Seq::empty()) + ")"@,
    }
}

impl InnerTy {
    pub fn to_string(&self) -> (r: String)
        ensures
            r@ == inner_ty_text(*self),
    {
        match self {
            InnerTy::Str => String::from_str("str"),
            InnerTy::Num => String::from_str("num"),
            InnerTy::Raw => String::from_str("raw"),
        }
    }
}

impl ParamTy {
    pub fn to_string(&self) -> (r: String)
        ensures
            r@ == param_ty_text(*self),
    {
        match self {
            ParamTy::Basic(t) => t.to_string(),
            ParamTy::Array(t) => {
                let mut r = String::from_str("[");
                let inner = t.to_string();
                r.append(inner.as_str());
                r.append("]");
                r
            },
        }
    }
}

impl ParamValue {
    pub fn to_string(&self) -> (r: String)
        ensures
            r@ == value_text(self@),
        decreases self,
    {
        match self {
            ParamValue::Str(s) => {
                let mut r = String::from_str("'");
                r.append(s.as_str());
                r.append("'");
                r
            },
            ParamValue::Num(s) => s.clone(),
            ParamValue::Raw(s) => s.clone(),
            ParamValue::Array(items) => {
                proof {
                    lemma_view_all(items@);
                }
                let ghost models = view_all(items@);
                let mut acc = String::new();
                let mut k: usize = 0;
                while k < items.len()
                    invariant
                        *self == ParamValue::Array(*items),
                        models == view_all(items@),
                        models.len() == items.len(),
                        forall|m: int| 0 <= m < items.len() ==> #[trigger] models[m] == items@[m]@,
                        k <= items.len(),
                        k == 0 ==> acc@ == Seq::<char>::empty(),
                        items_text(models, k as int, acc@) == items_text(models, 0, Seq::empty()),
                    decreases items.len() - k,
                {
                    proof {
                        vstd::std_specs::vec::axiom_vec_index_decreases(*items, k as int);
                        assert(decreases_to!(*self => (*self)->Array_0));
                        assert(decreases_to!(*self => items[k as int]));
                    }
                    let item = items[k].to_string();
                    if k > 0 {
                        acc.append(", ");
                    }
                    acc.append(item.as_str());
                    proof {
                        if k == 0 {
                            assert(acc@ =~= Seq::<char>::empty() + value_text(models[0]));
                        }
                    }
                    k = k + 1;
                }
                let mut r = String::from_str("(");
                r.append(acc.as_str());
                r.append(")");
                r
            },
        }
    }
}

} // verus!
