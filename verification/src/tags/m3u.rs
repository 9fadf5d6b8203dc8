//! The playlist marker tag: a bare `#EXTM3U` line with no payload,
//! matched exactly.

use vstd::prelude::*;
use crate::error::Error;
use crate::text::str_eq;
use crate::types::protocol_version::ProtocolVersion;

verus! {

/// The marker that opens every playlist of this dialect.
#[derive(Debug, Clone, Copy, PartialEq, Eq, Hash, Structural)]
pub struct ExtM3u;

impl ExtM3u {
    /// The whole wire form of the marker line.
    pub open spec fn prefix_spec() -> Seq<char> {
        "#EXTM3U"@
    }

    /// The marker a line denotes: only the exact marker text, with no
    /// trailing characters and no case change, denotes one.
    pub open spec fn parse_spec(s: Seq<char>) -> Option<ExtM3u> {
        if s == ExtM3u::prefix_spec() {
            Some(ExtM3u)
        } else {
            None
        }
    }

    /// The protocol version this tag requires: the baseline.
    pub fn requires_version(self) -> (r: ProtocolVersion)
        ensures
            r == ProtocolVersion::V1,
    {
        ProtocolVersion::V1
    }

    /// Renders the marker line.
    pub fn render(self) -> (r: String)
        ensures
            r@ == ExtM3u::prefix_spec(),
    {
        String::from_str("#EXTM3U")
    }

    /// Parses a line as the marker; anything but the exact marker text
    /// is invalid input.
    pub fn from_str(s: &str) -> (r: Result<ExtM3u, Error>)
        ensures
            match r {
                Ok(t) => Self::parse_spec(s@) == Some(t),
                Err(e) => {
                    &&& Self::parse_spec(s@) is None
                    &&& e is InvalidInput
                    &&& e.detail_view() == s@
                },
            },
    {
        if str_eq(s, "#EXTM3U") {
            Ok(ExtM3u)
        } else {
            Err(Error::InvalidInput(String::from_str(s)))
        }
    }
}

/// Rendering the marker and parsing the line back returns the marker.
pub proof fn lemma_m3u_round_trip(t: ExtM3u)
    ensures
        ExtM3u::parse_spec(ExtM3u::prefix_spec()) == Some(t),
{
}

} // verus!
