//! The two failure outcomes shared by every parse and construction
//! operation: malformed input, and a required attribute that never
//! appeared.

use vstd::prelude::*;

verus! {

/// A data-validation failure surfaced to the caller; never a process abort.
#[derive(Debug, Clone, PartialEq, Eq)]
pub enum Error {
    /// Malformed wire grammar, an out-of-vocabulary token, a numeric
    /// literal outside its domain, or a quoting error; carries the
    /// offending text.
    InvalidInput(String),
    /// A required attribute absent from an otherwise valid attribute
    /// list; carries the attribute name.
    MissingValue(String),
}

impl Error {
    /// True exactly when this is the malformed-input outcome.
    pub fn is_invalid_input(&self) -> (r: bool)
        ensures
            r == (self is InvalidInput),
    {
        match self {
            Error::InvalidInput(_) => true,
            Error::MissingValue(_) => false,
        }
    }

    /// True exactly when this is the absent-required-attribute outcome.
    pub fn is_missing_value(&self) -> (r: bool)
        ensures
            r == (self is MissingValue),
    {
        match self {
            Error::InvalidInput(_) => false,
            Error::MissingValue(_) => true,
        }
    }

    /// The offending text or attribute name this error carries.
    pub fn detail(&self) -> (r: &String)
        ensures
            r@ == self.detail_view(),
    {
        match self {
            Error::InvalidInput(s) => s,
            Error::MissingValue(s) => s,
        }
    }

    /// The carried text, whichever outcome this is.
    pub open spec fn detail_view(&self) -> Seq<char> {
        match self {
            Error::InvalidInput(s) => s@,
            Error::MissingValue(s) => s@,
        }
    }
}

} // verus!
