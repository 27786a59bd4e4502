//! Recognizing a variable reference `@name` in plain text.

use vstd::prelude::*;
use crate::annotation::ident_end;
use crate::scan::{chars_of, skip_ident_rest, slice_text};

verus! {

/// A piece of template text: a variable reference or common text.
#[derive(Debug, PartialEq, Eq)]
pub enum TemplateToken {
    Var(String),
    Common(String),
}

/// The name of a referenced variable.
#[derive(Debug, PartialEq, Eq)]
pub struct VarIdent(pub String);

/// The end of the reference `@name` at the start of `s`, if `s` starts with one.
pub open spec fn var_end(s: Seq<char>) -> Option<int> {
    if s.len() > 0 && s[0] == '@' {
        ident_end(s, 1)
    } else {
        None
    }
}

/// Reads the variable reference at the start of `input`: `@` followed by an
/// identifier. Gives its name and the number of characters it takes.
pub fn parse_var(input: &str) -> (r: Option<(VarIdent, usize)>)
    ensures
        r is Some <==> var_end(input@) is Some,
        r matches Some((v, e)) ==> var_end(input@) == Some(e as int) && v.0@ == input@.subrange(
            1,
            e as int,
        ),
{
    let s = chars_of(input);
    if s.len() == 0 || s[0] != '@' {
        return None;
    }
    if 1 < s.len() && (('a' <= s[1] && s[1] <= 'z') || ('A' <= s[1] && s[1] <= 'Z') || s[1] == '_') {
        let e = skip_ident_rest(&s, 2);
        Some((VarIdent(slice_text(input, 1, e)), e))
    } else {
        None
    }
}

} // verus!
