//! Values shared by commands and responses.

use crate::format::WireText;
use vstd::prelude::*;
use vstd::string::StringExecFns;

verus! {

/// A message flag: one of the six system flags, or a keyword.
#[derive(Debug, Clone, PartialEq, Eq)]
pub enum Flag {
    Seen,
    Answered,
    Flagged,
    Deleted,
    Draft,
    Recent,
    Keyword(String),
}

/// A flag is written with its backslash where it is a system flag, and as
/// it is where it is a keyword.
impl WireText for Flag {
    open spec fn text(&self) -> Seq<char> {
        match self {
            Flag::Seen => "\\Seen"@,
            Flag::Answered => "\\Answered"@,
            Flag::Flagged => "\\Flagged"@,
            Flag::Deleted => "\\Deleted"@,
            Flag::Draft => "\\Draft"@,
            Flag::Recent => "\\Recent"@,
            Flag::Keyword(k) => k@,
        }
    }

    fn to_string(&self) -> (s: String) {
        match self {
            Flag::Seen => String::from_str("\\Seen"),
            Flag::Answered => String::from_str("\\Answered"),
            Flag::Flagged => String::from_str("\\Flagged"),
            Flag::Deleted => String::from_str("\\Deleted"),
            Flag::Draft => String::from_str("\\Draft"),
            Flag::Recent => String::from_str("\\Recent"),
            Flag::Keyword(k) => k.clone(),
        }
    }
}

/// The status of a tagged completion.
#[derive(Debug, Clone, Copy, PartialEq, Eq, Structural)]
pub enum Status {
    Okay,
    No,
    Bad,
}

} // verus!
