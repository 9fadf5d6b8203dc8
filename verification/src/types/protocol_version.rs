//! The totally ordered protocol compatibility version, rendered and
//! parsed as a bare decimal literal, and the maximum operation used to
//! aggregate a document's requirement.

use vstd::prelude::*;
use crate::error::Error;
use crate::text::str_eq;

verus! {

/// One of the protocol compatibility versions of the dialect.
#[derive(Debug, Clone, Copy, PartialEq, Eq, Hash, Structural)]
pub enum ProtocolVersion {
    V1,
    V2,
    V3,
    V4,
    V5,
    V6,
    V7,
}

impl ProtocolVersion {
    /// The numeric rank of this version; the total order goes by it.
    pub open spec fn as_int(self) -> int {
        match self {
            ProtocolVersion::V1 => 1,
            ProtocolVersion::V2 => 2,
            ProtocolVersion::V3 => 3,
            ProtocolVersion::V4 => 4,
            ProtocolVersion::V5 => 5,
            ProtocolVersion::V6 => 6,
            ProtocolVersion::V7 => 7,
        }
    }

    /// The wire text of this version: its bare decimal literal.
    pub open spec fn render_spec(self) -> Seq<char> {
        match self {
            ProtocolVersion::V1 => "1"@,
            ProtocolVersion::V2 => "2"@,
            ProtocolVersion::V3 => "3"@,
            ProtocolVersion::V4 => "4"@,
            ProtocolVersion::V5 => "5"@,
            ProtocolVersion::V6 => "6"@,
            ProtocolVersion::V7 => "7"@,
        }
    }

    /// The version a wire text denotes, when it denotes one.
    pub open spec fn parse_spec(s: Seq<char>) -> Option<ProtocolVersion> {
        if s == "1"@ { Some(ProtocolVersion::V1) }
        else if s == "2"@ { Some(ProtocolVersion::V2) }
        else if s == "3"@ { Some(ProtocolVersion::V3) }
        else if s == "4"@ { Some(ProtocolVersion::V4) }
        else if s == "5"@ { Some(ProtocolVersion::V5) }
        else if s == "6"@ { Some(ProtocolVersion::V6) }
        else if s == "7"@ { Some(ProtocolVersion::V7) }
        else { None }
    }

    /// The numeric rank as a machine integer.
    pub fn number(self) -> (n: u8)
        ensures
            n as int == self.as_int(),
    {
        match self {
            ProtocolVersion::V1 => 1,
            ProtocolVersion::V2 => 2,
            ProtocolVersion::V3 => 3,
            ProtocolVersion::V4 => 4,
            ProtocolVersion::V5 => 5,
            ProtocolVersion::V6 => 6,
            ProtocolVersion::V7 => 7,
        }
    }

    /// Whether this version is compatible with (at most) `other`.
    pub fn le(self, other: ProtocolVersion) -> (r: bool)
        ensures
            r == (self.as_int() <= other.as_int()),
    {
        self.number() <= other.number()
    }

    /// The greater of two versions: the aggregation step by which a
    /// document's effective required version is computed.
    pub fn max(self, other: ProtocolVersion) -> (r: ProtocolVersion)
        ensures
            r.as_int() >= self.as_int(),
            r.as_int() >= other.as_int(),
            r == self || r == other,
    {
        if self.number() >= other.number() {
            self
        } else {
            other
        }
    }

    /// Renders this version as its bare decimal literal.
    pub fn render(self) -> (r: String)
        ensures
            r@ == self.render_spec(),
    {
        String::from_str(
            match self {
                ProtocolVersion::V1 => "1",
                ProtocolVersion::V2 => "2",
                ProtocolVersion::V3 => "3",
                ProtocolVersion::V4 => "4",
                ProtocolVersion::V5 => "5",
                ProtocolVersion::V6 => "6",
                ProtocolVersion::V7 => "7",
            },
        )
    }

    /// Parses a bare decimal literal; any other text is invalid input.
    pub fn from_str(s: &str) -> (r: Result<ProtocolVersion, Error>)
        ensures
            match r {
                Ok(v) => Self::parse_spec(s@) == Some(v),
                Err(e) => {
                    &&& Self::parse_spec(s@) is None
                    &&& e is InvalidInput
                    &&& e.detail_view() == s@
                },
            },
    {
        if str_eq(s, "1") { Ok(ProtocolVersion::V1) }
        else if str_eq(s, "2") { Ok(ProtocolVersion::V2) }
        else if str_eq(s, "3") { Ok(ProtocolVersion::V3) }
        else if str_eq(s, "4") { Ok(ProtocolVersion::V4) }
        else if str_eq(s, "5") { Ok(ProtocolVersion::V5) }
        else if str_eq(s, "6") { Ok(ProtocolVersion::V6) }
        else if str_eq(s, "7") { Ok(ProtocolVersion::V7) }
        else { Err(Error::InvalidInput(String::from_str(s))) }
    }
}

/// Rendering any version and parsing the text back returns the version.
pub proof fn lemma_version_round_trip(v: ProtocolVersion)
    ensures
        ProtocolVersion::parse_spec(v.render_spec()) == Some(v),
{
    reveal_strlit("1");
    reveal_strlit("2");
    reveal_strlit("3");
    reveal_strlit("4");
    reveal_strlit("5");
    reveal_strlit("6");
    reveal_strlit("7");
    assert("2"@[0] == '2' && "1"@[0] == '1');
    assert("3"@[0] == '3' && "4"@[0] == '4');
    assert("5"@[0] == '5' && "6"@[0] == '6');
    assert("7"@[0] == '7');
    assert("2"@ != "1"@);
    assert("3"@ != "1"@ && "3"@ != "2"@);
    assert("4"@ != "1"@ && "4"@ != "2"@ && "4"@ != "3"@);
    assert("5"@ != "1"@ && "5"@ != "2"@ && "5"@ != "3"@ && "5"@ != "4"@);
    assert("6"@ != "1"@ && "6"@ != "2"@ && "6"@ != "3"@ && "6"@ != "4"@ && "6"@ != "5"@);
    assert("7"@ != "1"@ && "7"@ != "2"@ && "7"@ != "3"@ && "7"@ != "4"@ && "7"@ != "5"@
        && "7"@ != "6"@);
}

} // verus!
