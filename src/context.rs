//! The values bound to parameter names for one rendering.

use vstd::prelude::*;
use crate::value::{ParamValue, Value};

verus! {

/// A map from parameter names to values. A name inserted again takes its new value.
#[derive(Debug, Clone)]
pub struct Context {
    entries: Vec<(String, ParamValue)>,
}

/// The value bound to `name` by the latest of `entries` that binds it.
pub open spec fn lookup(entries: Seq<(Seq<char>, Value)>, name: Seq<char>) -> Option<Value>
    decreases entries.len(),
{
    if entries.len() == 0 {
        None
    } else if entries.last().0 == name {
        Some(entries.last().1)
    } else {
        lookup(entries.drop_last(), name)
    }
}

impl View for Context {
    type V = Seq<(Seq<char>, Value)>;

    closed spec fn view(&self) -> Seq<(Seq<char>, Value)> {
        self.entries@.map_values(|e: (String, ParamValue)| (e.0@, e.1@))
    }
}

impl Context {
    pub fn new() -> (r: Context)
        ensures
            r@ == Seq::<(Seq<char>, Value)>::empty(),
    {
        let r = Context { entries: Vec::new() };
        assert(r@ =~= Seq::<(Seq<char>, Value)>::empty());
        r
    }

    /// Binds `name` to `value`.
    pub fn insert(&mut self, name: String, value: ParamValue)
        ensures
            final(self)@ == old(self)@.push((name@, value@)),
    {
        self.entries.push((name, value));
        assert(self@ =~= old(self)@.push((name@, value@)));
    }

    /// The value bound to `name`, if any.
    pub fn get(&self, name: &String) -> (r: Option<&ParamValue>)
        ensures
            match lookup(self@, name@) {
                Some(v) => r matches Some(x) && x@ == v,
                None => r is None,
            },
    {
        let ghost es = self@;
        let mut k = self.entries.len();
        assert(es.subrange(0, k as int) =~= es);
        while k > 0
            invariant
                k <= self.entries.len(),
                es == self@,
                lookup(es.subrange(0, k as int), name@) == lookup(es, name@),
            decreases k,
        {
            let ghost pre = es.subrange(0, k as int);
            assert(pre.last() == es[k - 1]);
            assert(pre.drop_last() =~= es.subrange(0, k - 1));
            if self.entries[k - 1].0 == *name {
                return Some(&self.entries[k - 1].1);
            }
            k = k - 1;
        }
        None
    }
}

} // verus!
