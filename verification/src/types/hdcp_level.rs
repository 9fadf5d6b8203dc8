//! The HDCP level, an enumerated attribute value drawn from the closed
//! two-token vocabulary `TYPE-0` / `NONE`.

use vstd::prelude::*;
use crate::error::Error;
use crate::text::str_eq;

verus! {

/// The level of High-bandwidth Digital Content Protection a variant
/// stream may require; `NoHdcp` is the dialect's `NONE` token.
#[derive(Debug, Clone, Copy, PartialEq, Eq, Hash, Structural)]
pub enum HdcpLevel {
    Type0,
    NoHdcp,
}

impl HdcpLevel {
    /// The wire token of this level.
    pub open spec fn render_spec(self) -> Seq<char> {
        match self {
            HdcpLevel::Type0 => "TYPE-0"@,
            HdcpLevel::NoHdcp => "NONE"@,
        }
    }

    /// The level a wire token denotes, when it denotes one.
    pub open spec fn parse_spec(s: Seq<char>) -> Option<HdcpLevel> {
        if s == "TYPE-0"@ {
            Some(HdcpLevel::Type0)
        } else if s == "NONE"@ {
            Some(HdcpLevel::NoHdcp)
        } else {
            None
        }
    }

    /// Renders this level as its unquoted wire token.
    pub fn render(self) -> (r: String)
        ensures
            r@ == self.render_spec(),
    {
        String::from_str(
            match self {
                HdcpLevel::Type0 => "TYPE-0",
                HdcpLevel::NoHdcp => "NONE",
            },
        )
    }

    /// Parses a wire token; any token outside the vocabulary is invalid
    /// input.
    pub fn from_str(s: &str) -> (r: Result<HdcpLevel, Error>)
        ensures
            match r {
                Ok(v) => Self::parse_spec(s@) == Some(v),
                Err(e) => {
                    &&& Self::parse_spec(s@) is None
                    &&& e is InvalidInput
                    &&& e.detail_view() == s@
                },
            },
    {
        if str_eq(s, "TYPE-0") {
            Ok(HdcpLevel::Type0)
        } else if str_eq(s, "NONE") {
            Ok(HdcpLevel::NoHdcp)
        } else {
            Err(Error::InvalidInput(String::from_str(s)))
        }
    }
}

/// Rendering either level and parsing the token back returns the level.
pub proof fn lemma_hdcp_round_trip(v: HdcpLevel)
    ensures
        HdcpLevel::parse_spec(v.render_spec()) == Some(v),
{
    reveal_strlit("TYPE-0");
    reveal_strlit("NONE");
    assert("TYPE-0"@.len() == 6);
    assert("NONE"@.len() == 4);
    match v {
        HdcpLevel::Type0 => {
            assert(HdcpLevel::parse_spec("TYPE-0"@) == Some(HdcpLevel::Type0));
        },
        HdcpLevel::NoHdcp => {
            assert("NONE"@ != "TYPE-0"@);
            assert(HdcpLevel::parse_spec("NONE"@) == Some(HdcpLevel::NoHdcp));
        },
    }
}

} // verus!
