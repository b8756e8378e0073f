//! Flags: the mark that a transaction or a posting carries.

use crate::text::str_eq;
use vstd::prelude::*;
use vstd::string::StringExecFns;

verus! {

/// The state of a transaction or posting: `*` for one that is in order, `!`
/// for one that needs attention, or any other mark.
#[derive(Clone, Debug, PartialEq, Eq, Hash)]
pub enum Flag {
    Okay,
    Warning,
    Other(String),
}

impl Flag {
    /// The mark that stands for the flag.
    pub open spec fn text(&self) -> Seq<char> {
        match self {
            Flag::Okay => "*"@,
            Flag::Warning => "!"@,
            Flag::Other(s) => s@,
        }
    }

    /// Whether both flags are the same.
    pub open spec fn same(&self, other: &Flag) -> bool {
        match (self, other) {
            (Flag::Okay, Flag::Okay) => true,
            (Flag::Warning, Flag::Warning) => true,
            (Flag::Other(a), Flag::Other(b)) => a@ == b@,
            _ => false,
        }
    }

    /// Whether `self` is the flag that the mark `s` stands for: `*` and
    /// `txn` are `Okay`, `!` is `Warning`, anything else is kept as it is.
    pub open spec fn stands_for(&self, s: Seq<char>) -> bool {
        if s == "*"@ || s == "txn"@ {
            self is Okay
        } else if s == "!"@ {
            self is Warning
        } else {
            match self {
                Flag::Other(t) => t@ == s,
                _ => false,
            }
        }
    }

    /// The flag that a mark stands for.
    pub fn from(s: &str) -> (r: Flag)
        ensures
            r.stands_for(s@),
    {
        if str_eq(s, "*") || str_eq(s, "txn") {
            Flag::Okay
        } else if str_eq(s, "!") {
            Flag::Warning
        } else {
            Flag::Other(String::from_str(s))
        }
    }

    /// The mark that stands for the flag.
    pub fn to_string(&self) -> (r: String)
        ensures
            r@ == self.text(),
    {
        match self {
            Flag::Okay => String::from_str("*"),
            Flag::Warning => String::from_str("!"),
            Flag::Other(s) => s.clone(),
        }
    }
}

impl Default for Flag {
    fn default() -> (r: Flag)
        ensures
            r == Flag::Okay,
    {
        Flag::Okay
    }
}

} // verus!
