//! Command-line options for a program's parameters.

use vstd::prelude::*;
use crate::annotation::{Param, ParamView};
use crate::program::Program;
use crate::value::{param_ty_text, value_text, ParamTy};

verus! {

/// How often an option may be given.
#[derive(Debug, Clone, Copy, PartialEq, Eq, Structural)]
pub enum OptKind {
    /// exactly once
    Required,
    /// at most once
    Optional,
    /// any number of times
    Multi,
}

/// A long command-line option that binds one parameter.
#[derive(Debug, Clone, PartialEq)]
pub struct CliOption {
    pub kind: OptKind,
    pub name: String,
    pub help: String,
    pub hint: String,
}

/// A string in upper case.
pub uninterp spec fn upper_of(s: Seq<char>) -> Seq<char>;

/// Relies on `str::to_uppercase`: the result depends on the characters alone.
#[verifier::external_body]
fn uppercase(s: &str) -> (r: String)
    ensures
        r@ == upper_of(s@),
{
    s.to_uppercase()
}

/// The option kind of a parameter: a scalar without default must be given, a list
/// may be given any number of times, a scalar with a default at most once.
pub open spec fn opt_kind(p: ParamView) -> OptKind {
    match (p.default, p.ty) {
        (None, ParamTy::Basic(_)) => OptKind::Required,
        (Some(_), ParamTy::Basic(_)) => OptKind::Optional,
        (_, ParamTy::Array(_)) => OptKind::Multi,
    }
}

/// The help line of a parameter's option: its help text, or its name for a list
/// parameter without default.
pub open spec fn opt_help(p: ParamView) -> Seq<char> {
    match (p.default, p.ty) {
        (None, ParamTy::Array(_)) => p.name,
        _ => p.help,
    }
}

/// The value hint of a parameter's option: the upper-case name marked as required
/// (`*<NAME>`), optional (`[NAME]`) or repeatable (`<NAME>`), then the type, then
/// the default if there is one.
pub open spec fn opt_hint(p: ParamView, upper: Seq<char>) -> Seq<char> {
    match p.default {
        None => "*<"@ + upper + "> "@ + param_ty_text(p.ty),
        Some(d) => match p.ty {
            ParamTy::Basic(_) => "["@ + upper + "] "@ + param_ty_text(p.ty) + " "@ + value_text(d),
            ParamTy::Array(_) => "<"@ + upper + "> "@ + param_ty_text(p.ty) + " "@ + value_text(d),
        },
    }
}

impl Param {
    /// The command-line option that binds this parameter.
    pub fn cli_option(&self) -> (r: CliOption)
        ensures
            r.kind == opt_kind(self@),
            r.name@ == self.name@,
            r.help@ == opt_help(self@),
            r.hint@ == opt_hint(self@, upper_of(self.name@)),
    {
        let upper = uppercase(self.name.as_str());
        let ty = self.ty.to_string();
        let (kind, help, hint) = match &self.default {
            None => {
                let mut hint = String::from_str("*<");
                hint.append(upper.as_str());
                hint.append("> ");
                hint.append(ty.as_str());
                match self.ty {
                    ParamTy::Basic(_) => (OptKind::Required, self.help.clone(), hint),
                    ParamTy::Array(_) => (OptKind::Multi, self.name.clone(), hint),
                }
            },
            Some(d) => {
                let mut hint = match self.ty {
                    ParamTy::Basic(_) => String::from_str("["),
                    ParamTy::Array(_) => String::from_str("<"),
                };
                hint.append(upper.as_str());
                match self.ty {
                    ParamTy::Basic(_) => hint.append("] "),
                    ParamTy::Array(_) => hint.append("> "),
                }
                hint.append(ty.as_str());
                hint.append(" ");
                let text = d.to_string();
                hint.append(text.as_str());
                match self.ty {
                    ParamTy::Basic(_) => (OptKind::Optional, self.help.clone(), hint),
                    ParamTy::Array(_) => (OptKind::Multi, self.help.clone(), hint),
                }
            },
        };
        CliOption { kind, name: self.name.clone(), help, hint }
    }
}

impl Program {
    /// The command-line options that bind the program's parameters, in declaration
    /// order.
    pub fn generate_options(&self) -> (r: Vec<CliOption>)
        ensures
            r@.len() == self.params@.len(),
            forall|i: int|
                0 <= i < r@.len() ==> {
                    let p = #[trigger] self.params@[i];
                    &&& r@[i].kind == opt_kind(p@)
                    &&& r@[i].name@ == p.name@
                    &&& r@[i].help@ == opt_help(p@)
                    &&& r@[i].hint@ == opt_hint(p@, upper_of(p.name@))
                },
    {
        let mut out: Vec<CliOption> = Vec::new();
        let mut i: usize = 0;
        while i < self.params.len()
            invariant
                i <= self.params.len(),
                out@.len() == i,
                forall|k: int|
                    0 <= k < i ==> {
                        let p = #[trigger] self.params@[k];
                        &&& out@[k].kind == opt_kind(p@)
                        &&& out@[k].name@ == p.name@
                        &&& out@[k].help@ == opt_help(p@)
                        &&& out@[k].hint@ == opt_hint(p@, upper_of(p.name@))
                    },
            decreases self.params.len() - i,
        {
            out.push(self.params[i].cli_option());
            i = i + 1;
        }
        out
    }
}

} // verus!
