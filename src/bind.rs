//! Binding: the values a caller supplies for a program's parameters, checked
//! against their declared types, with defaults for those left out.

use vstd::prelude::*;
use crate::annotation::{Param, ParamView};
use crate::context::{lookup, Context};
use crate::errors::PSqlError;
use crate::program::{view_params, Program};
use crate::scan::{chars_of, stop_at};
use crate::value::{arg_value, number_end, scan_number, lemma_view_all, lemma_view_all_push, view_all, InnerTy, ParamTy, ParamValue, Value};

verus! {

/// Why a parameter could not be bound.
pub enum BindFault {
    Required(Seq<char>),
    ExpectSingle(Seq<char>, nat),
    ExpectArray(Seq<char>),
    InvalidArg(Seq<char>, InnerTy),
    InvalidType(Seq<char>, InnerTy),
}

pub open spec fn reports_bind(e: PSqlError, f: BindFault) -> bool {
    match f {
        BindFault::Required(n) => e matches PSqlError::RequiredParam(x) && x@ == n,
        BindFault::ExpectSingle(n, c) => e matches PSqlError::ExpectSingleValue(x, k) && x@ == n
            && k == c,
        BindFault::ExpectArray(n) => e matches PSqlError::ExpectArray(x) && x@ == n,
        BindFault::InvalidType(n, t) => e matches PSqlError::InvalidValueType(x, u) && x@ == n && u
            == t,
        BindFault::InvalidArg(a, t) => e matches PSqlError::InvalidArgValue(x, u) && x@ == a && u
            == t,
    }
}

/// The argument strings supplied under `name`, in order.
pub open spec fn values_for(pairs: Seq<(Seq<char>, Seq<char>)>, name: Seq<char>) -> Seq<Seq<char>>
    decreases pairs.len(),
{
    if pairs.len() == 0 {
        Seq::empty()
    } else if pairs.last().0 == name {
        values_for(pairs.drop_last(), name).push(pairs.last().1)
    } else {
        values_for(pairs.drop_last(), name)
    }
}

/// Reads the argument strings from position `i` on as values of type `t`, after
/// those already read into `acc`.
pub open spec fn read_all(t: InnerTy, args: Seq<Seq<char>>, i: int, acc: Seq<Value>) -> Result<
    Seq<Value>,
    BindFault,
>
    decreases args.len() - i,
{
    if i < 0 || i >= args.len() {
        Ok(acc)
    } else {
        match arg_value(t, args[i]) {
            Some(v) => read_all(t, args, i + 1, acc.push(v)),
            None => Err(BindFault::InvalidArg(args[i], t)),
        }
    }
}

/// The value a parameter takes from the argument strings supplied for it: its
/// default when there are none, the one argument read as its type when it is a
/// scalar, every argument read as its item type when it is a list.
pub open spec fn bind_arg(p: ParamView, args: Seq<Seq<char>>) -> Result<Value, BindFault> {
    if args.len() == 0 {
        match p.default {
            Some(v) => Ok(v),
            None => Err(BindFault::Required(p.name)),
        }
    } else {
        match p.ty {
            ParamTy::Basic(t) => if args.len() > 1 {
                Err(BindFault::ExpectSingle(p.name, args.len()))
            } else {
                match arg_value(t, args[0]) {
                    Some(v) => Ok(v),
                    None => Err(BindFault::InvalidArg(args[0], t)),
                }
            },
            ParamTy::Array(t) => match read_all(t, args, 0, Seq::empty()) {
                Ok(vs) => Ok(Value::Array(vs)),
                Err(f) => Err(f),
            },
        }
    }
}

/// Whether a given value is a scalar of type `t`; a number must be one whole decimal
/// literal.
pub open spec fn has_type(v: Value, t: InnerTy) -> bool {
    match (v, t) {
        (Value::Str(_), InnerTy::Str) => true,
        (Value::Num(s), InnerTy::Num) => number_end(s, 0) == Some(s.len() as int),
        (Value::Raw(_), InnerTy::Raw) => true,
        _ => false,
    }
}

fn value_has_type(v: &ParamValue, t: InnerTy) -> (r: bool)
    ensures
        r == has_type(v@, t),
{
    match (v, t) {
        (ParamValue::Str(_), InnerTy::Str) => true,
        (ParamValue::Num(s), InnerTy::Num) => {
            let cs = chars_of(s.as_str());
            match scan_number(&cs, 0) {
                Some(e) => e == cs.len(),
                None => false,
            }
        },
        (ParamValue::Raw(_), InnerTy::Raw) => true,
        _ => false,
    }
}

/// The value a parameter takes from a value given for it: its default when there is
/// none; a list only for a list parameter, and a single value only for a scalar one,
/// each of the declared type.
pub open spec fn bind_given(p: ParamView, given: Option<Value>) -> Result<Value, BindFault> {
    match given {
        None => match p.default {
            Some(v) => Ok(v),
            None => Err(BindFault::Required(p.name)),
        },
        Some(v) => match p.ty {
            ParamTy::Basic(t) => match v {
                Value::Array(items) => Err(BindFault::ExpectSingle(p.name, items.len())),
                _ => if has_type(v, t) {
                    Ok(v)
                } else {
                    Err(BindFault::InvalidType(p.name, t))
                },
            },
            ParamTy::Array(t) => match v {
                Value::Array(items) => if forall|k: int| 0 <= k < items.len() ==> #[trigger] has_type(items[k], t) {
                    Ok(v)
                } else {
                    Err(BindFault::InvalidType(p.name, t))
                },
                _ => Err(BindFault::ExpectArray(p.name)),
            },
        },
    }
}

/// Binds the parameters from position `i` on, each to what `args` supplies for it.
pub open spec fn bind_args_from(
    ps: Seq<ParamView>,
    pairs: Seq<(Seq<char>, Seq<char>)>,
    i: int,
    acc: Seq<(Seq<char>, Value)>,
) -> Result<Seq<(Seq<char>, Value)>, BindFault>
    decreases ps.len() - i,
{
    if i < 0 || i >= ps.len() {
        Ok(acc)
    } else {
        match bind_arg(ps[i], values_for(pairs, ps[i].name)) {
            Ok(v) => bind_args_from(ps, pairs, i + 1, acc.push((ps[i].name, v))),
            Err(f) => Err(f),
        }
    }
}

/// Binds the parameters from position `i` on, each to the value `given` holds for it.
pub open spec fn bind_given_from(
    ps: Seq<ParamView>,
    given: Seq<(Seq<char>, Value)>,
    i: int,
    acc: Seq<(Seq<char>, Value)>,
) -> Result<Seq<(Seq<char>, Value)>, BindFault>
    decreases ps.len() - i,
{
    if i < 0 || i >= ps.len() {
        Ok(acc)
    } else {
        match bind_given(ps[i], lookup(given, ps[i].name)) {
            Ok(v) => bind_given_from(ps, given, i + 1, acc.push((ps[i].name, v))),
            Err(f) => Err(f),
        }
    }
}

pub open spec fn view_pairs(pairs: Seq<(String, String)>) -> Seq<(Seq<char>, Seq<char>)> {
    pairs.map_values(|p: (String, String)| (p.0@, p.1@))
}

fn collect_values(pairs: &Vec<(String, String)>, name: &String) -> (r: Vec<String>)
    ensures
        r@.map_values(|s: String| s@) == values_for(view_pairs(pairs@), name@),
{
    let ghost all = view_pairs(pairs@);
    let mut out: Vec<String> = Vec::new();
    let mut k: usize = 0;
    assert(out@.map_values(|s: String| s@) =~= values_for(all.subrange(0, 0), name@));
    while k < pairs.len()
        invariant
            k <= pairs.len(),
            all == view_pairs(pairs@),
            out@.map_values(|s: String| s@) == values_for(all.subrange(0, k as int), name@),
        decreases pairs.len() - k,
    {
        let ghost pre = all.subrange(0, k + 1);
        assert(pre.drop_last() =~= all.subrange(0, k as int));
        assert(pre.last() == all[k as int]);
        let ghost before = out@;
        if pairs[k].0 == *name {
            out.push(pairs[k].1.clone());
            assert(out@.map_values(|s: String| s@) =~= before.map_values(|s: String| s@).push(
                pairs@[k as int].1@,
            ));
        }
        k = k + 1;
    }
    assert(all.subrange(0, pairs.len() as int) =~= all);
    out
}

fn bind_one_arg(p: &Param, args: &Vec<String>) -> (r: Result<ParamValue, PSqlError>)
    ensures
        match bind_arg(p@, args@.map_values(|s: String| s@)) {
            Ok(v) => r matches Ok(x) && x@ == v,
            Err(f) => r matches Err(e) && reports_bind(e, f),
        },
{
    let ghost strs = args@.map_values(|s: String| s@);
    assert(strs.len() == args@.len());
    if args.len() == 0 {
        return match &p.default {
            Some(v) => Ok(v.clone()),
            None => Err(PSqlError::RequiredParam(p.name.clone())),
        };
    }
    match p.ty {
        ParamTy::Basic(t) => {
            if args.len() > 1 {
                return Err(PSqlError::ExpectSingleValue(p.name.clone(), args.len()));
            }
            assert(strs[0] == args@[0]@);
            ParamValue::from_arg_str(&t, args[0].as_str())
        },
        ParamTy::Array(t) => {
            let mut items: Vec<ParamValue> = Vec::new();
            let mut k: usize = 0;
            proof {
                lemma_view_all(items@);
                assert(view_all(items@) =~= Seq::<Value>::empty());
            }
            while k < args.len()
                invariant
                    k <= args.len(),
                    args.len() > 0,
                    p.ty == ParamTy::Array(t),
                    strs == args@.map_values(|s: String| s@),
                    read_all(t, strs, k as int, view_all(items@)) == read_all(t, strs, 0, Seq::empty()),
                decreases args.len() - k,
            {
                assert(strs[k as int] == args@[k as int]@);
                let v = match ParamValue::from_arg_str(&t, args[k].as_str()) {
                    Ok(v) => v,
                    Err(e) => {
                        assert(read_all(t, strs, k as int, view_all(items@)) == Err::<Seq<Value>, BindFault>(
                            BindFault::InvalidArg(strs[k as int], t),
                        ));
                        assert(bind_arg(p@, strs) == Err::<Value, BindFault>(
                            BindFault::InvalidArg(strs[k as int], t),
                        ));
                        return Err(e);
                    },
                };
                proof {
                    lemma_view_all_push(items@, v);
                }
                items.push(v);
                k = k + 1;
            }
            Ok(ParamValue::Array(items))
        },
    }
}

fn bind_one_given(p: &Param, given: Option<&ParamValue>) -> (r: Result<ParamValue, PSqlError>)
    ensures
        match bind_given(p@, match given { Some(v) => Some(v@), None => None }) {
            Ok(v) => r matches Ok(x) && x@ == v,
            Err(f) => r matches Err(e) && reports_bind(e, f),
        },
{
    match given {
        None => match &p.default {
            Some(v) => Ok(v.clone()),
            None => Err(PSqlError::RequiredParam(p.name.clone())),
        },
        Some(v) => match p.ty {
            ParamTy::Basic(t) => match v {
                ParamValue::Array(items) => {
                    proof {
                        lemma_view_all(items@);
                    }
                    Err(PSqlError::ExpectSingleValue(p.name.clone(), items.len()))
                },
                _ => if value_has_type(v, t) {
                    Ok(v.clone())
                } else {
                    Err(PSqlError::InvalidValueType(p.name.clone(), t))
                },
            },
            ParamTy::Array(t) => match v {
                ParamValue::Array(items) => {
                    proof {
                        lemma_view_all(items@);
                    }
                    let mut k: usize = 0;
                    while k < items.len()
                        invariant
                            given == Some(v),
                            *v == ParamValue::Array(*items),
                            p.ty == ParamTy::Array(t),
                            k <= items.len(),
                            view_all(items@).len() == items.len(),
                            forall|m: int| 0 <= m < items.len() ==> #[trigger] view_all(items@)[m] == items@[m]@,
                            forall|m: int| 0 <= m < k ==> #[trigger] has_type(view_all(items@)[m], t),
                        decreases items.len() - k,
                    {
                        if !value_has_type(&items[k], t) {
                            assert(!has_type(view_all(items@)[k as int], t));
                            return Err(PSqlError::InvalidValueType(p.name.clone(), t));
                        }
                        k = k + 1;
                    }
                    Ok(v.clone())
                },
                _ => Err(PSqlError::ExpectArray(p.name.clone())),
            },
        },
    }
}

impl Program {
    /// Binds every parameter to the argument strings supplied under its name, as
    /// `(name, argument)` pairs in the order given.
    pub fn get_matches(&self, supplied: &Vec<(String, String)>) -> (r: Result<Context, PSqlError>)
        ensures
            match bind_args_from(view_params(self.params@), view_pairs(supplied@), 0, Seq::empty()) {
                Ok(c) => r matches Ok(x) && x@ == c,
                Err(f) => r matches Err(e) && reports_bind(e, f),
            },
    {
        let ghost ps = view_params(self.params@);
        let mut ctx = Context::new();
        let mut i: usize = 0;
        while i < self.params.len()
            invariant
                i <= self.params.len(),
                ps == view_params(self.params@),
                bind_args_from(ps, view_pairs(supplied@), i as int, ctx@) == bind_args_from(
                    ps,
                    view_pairs(supplied@),
                    0,
                    Seq::empty(),
                ),
            decreases self.params.len() - i,
        {
            let p = &self.params[i];
            let args = collect_values(supplied, &p.name);
            let v = bind_one_arg(p, &args)?;
            ctx.insert(p.name.clone(), v);
            i = i + 1;
        }
        Ok(ctx)
    }

    /// Binds every parameter to the value `given` holds under its name.
    pub fn context_from_body(&self, given: &Context) -> (r: Result<Context, PSqlError>)
        ensures
            match bind_given_from(view_params(self.params@), given@, 0, Seq::empty()) {
                Ok(c) => r matches Ok(x) && x@ == c,
                Err(f) => r matches Err(e) && reports_bind(e, f),
            },
    {
        let ghost ps = view_params(self.params@);
        let mut ctx = Context::new();
        let mut i: usize = 0;
        while i < self.params.len()
            invariant
                i <= self.params.len(),
                ps == view_params(self.params@),
                bind_given_from(ps, given@, i as int, ctx@) == bind_given_from(
                    ps,
                    given@,
                    0,
                    Seq::empty(),
                ),
            decreases self.params.len() - i,
        {
            let p = &self.params[i];
            let v = bind_one_given(p, given.get(&p.name))?;
            ctx.insert(p.name.clone(), v);
            i = i + 1;
        }
        Ok(ctx)
    }
}

/// The key and value of one piece of a query string: the text before its first `=`,
/// and the text after it up to the next `=`. `None` where the piece has no `=`.
pub open spec fn piece_pair(p: Seq<char>) -> Option<(Seq<char>, Seq<char>)> {
    let k = stop_at(p, 0, '=', '=');
    if k < p.len() {
        Some((p.subrange(0, k), p.subrange(k + 1, stop_at(p, k + 1, '=', '='))))
    } else {
        None
    }
}

/// The pairs of the `&`-separated pieces of `s` from position `i` on.
pub open spec fn pairs_from(s: Seq<char>, i: int) -> Seq<(Seq<char>, Seq<char>)>
    decreases s.len() - i,
{
    if i < 0 || i > s.len() {
        Seq::empty()
    } else {
        let e = stop_at(s, i, '&', '&');
        let head = match piece_pair(s.subrange(i, e)) {
            Some(kv) => seq![kv],
            None => Seq::empty(),
        };
        if i <= e < s.len() {
            head + pairs_from(s, e + 1)
        } else {
            head
        }
    }
}

/// The key-value pairs of a query string, in order.
pub open spec fn query_pairs(s: Seq<char>) -> Seq<(Seq<char>, Seq<char>)> {
    pairs_from(s, 0)
}

/// Relies on `querystring::querify`: it splits the text at `&`, and each piece that
/// holds a `=` gives the text before its first `=` and the text after it up to the
/// next `=`.
#[verifier::external_body]
fn querify(s: &str) -> (r: Vec<(String, String)>)
    ensures
        view_pairs(r@) == query_pairs(s@),
{
    querystring::querify(s).into_iter().map(|(k, v)| (k.to_string(), v.to_string())).collect()
}

/// The text that a percent-encoded string decodes to, or `None` where the decoded
/// bytes are not UTF-8.
pub uninterp spec fn percent_decoded(s: Seq<char>) -> Option<Seq<char>>;

/// Relies on `urlencoding::decode`: the result depends on the text alone.
#[verifier::external_body]
fn url_decode(s: &str) -> (r: Option<String>)
    ensures
        r is Some <==> percent_decoded(s@) is Some,
        r matches Some(d) ==> d@ == percent_decoded(s@)->0,
{
    match urlencoding::decode(s) {
        Ok(d) => Some(d.into_owned()),
        Err(_) => None,
    }
}

impl Program {
    /// Binds every parameter from a raw query string: the string is percent-decoded,
    /// split into key-value pairs, and each parameter takes the values under its name.
    pub fn context_from_qs(&self, qs: &str) -> (r: Result<Context, PSqlError>)
        ensures
            match percent_decoded(qs@) {
                None => r matches Err(PSqlError::InvalidQueryString(q)) && q@ == qs@,
                Some(d) => match bind_args_from(
                    view_params(self.params@),
                    query_pairs(d),
                    0,
                    Seq::empty(),
                ) {
                    Ok(c) => r matches Ok(x) && x@ == c,
                    Err(f) => r matches Err(e) && reports_bind(e, f),
                },
            },
    {
        match url_decode(qs) {
            Some(decoded) => {
                let pairs = querify(decoded.as_str());
                self.get_matches(&pairs)
            },
            None => Err(PSqlError::InvalidQueryString(String::from_str(qs))),
        }
    }
}

} // verus!
