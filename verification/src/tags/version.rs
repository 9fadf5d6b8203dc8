//! The version tag: a fixed prefix followed by the declared protocol
//! version as a bare decimal literal.

use vstd::prelude::*;
use crate::error::Error;
use crate::text::starts_with_str;
use crate::types::protocol_version::ProtocolVersion;
use crate::types::protocol_version::lemma_version_round_trip;

verus! {

/// The tag by which a playlist declares its compatibility version.
#[derive(Debug, Clone, Copy, PartialEq, Eq, Hash, Structural)]
pub struct ExtXVersion {
    pub version: ProtocolVersion,
}

impl ExtXVersion {
    /// The fixed wire prefix of the version tag.
    pub open spec fn prefix_spec() -> Seq<char> {
        "#EXT-X-VERSION:"@
    }

    /// The wire form of this tag: the prefix, then the version literal.
    pub open spec fn render_spec(self) -> Seq<char> {
        ExtXVersion::prefix_spec() + self.version.render_spec()
    }

    /// The tag a line denotes: the prefix must lead, and the remainder
    /// must be a version literal.
    pub open spec fn parse_spec(s: Seq<char>) -> Option<ExtXVersion> {
        let p = ExtXVersion::prefix_spec();
        if p.len() <= s.len() && s.subrange(0, p.len() as int) == p {
            match ProtocolVersion::parse_spec(s.subrange(p.len() as int, s.len() as int)) {
                Some(v) => Some(ExtXVersion { version: v }),
                None => None,
            }
        } else {
            None
        }
    }

    /// Makes a version tag carrying `version`.
    pub fn new(version: ProtocolVersion) -> (r: ExtXVersion)
        ensures
            r.version == version,
    {
        ExtXVersion { version }
    }

    /// The version this tag declares for its playlist.
    pub fn version(self) -> (r: ProtocolVersion)
        ensures
            r == self.version,
    {
        self.version
    }

    /// The protocol version this tag itself requires: the baseline,
    /// whatever version value it carries.
    pub fn requires_version(self) -> (r: ProtocolVersion)
        ensures
            r == ProtocolVersion::V1,
    {
        ProtocolVersion::V1
    }

    /// Renders this tag's wire line.
    pub fn render(self) -> (r: String)
        ensures
            r@ == self.render_spec(),
    {
        let mut r = String::from_str("#EXT-X-VERSION:");
        let v = self.version.render();
        r.append(v.as_str());
        r
    }

    /// Parses a line as a version tag; a missing prefix or a remainder
    /// that is no version literal is invalid input.
    pub fn from_str(s: &str) -> (r: Result<ExtXVersion, Error>)
        ensures
            match r {
                Ok(t) => Self::parse_spec(s@) == Some(t),
                Err(e) => {
                    &&& Self::parse_spec(s@) is None
                    &&& e is InvalidInput
                    &&& e.detail_view() == s@
                },
            },
    {
        if !starts_with_str(s, "#EXT-X-VERSION:") {
            return Err(Error::InvalidInput(String::from_str(s)));
        }
        let plen = "#EXT-X-VERSION:".unicode_len();
        let len = s.unicode_len();
        let suffix = s.substring_char(plen, len);
        match ProtocolVersion::from_str(suffix) {
            Ok(v) => Ok(ExtXVersion { version: v }),
            Err(_) => Err(Error::InvalidInput(String::from_str(s))),
        }
    }
}

/// Rendering any version tag and parsing the line back returns the tag.
pub proof fn lemma_version_tag_round_trip(t: ExtXVersion)
    ensures
        ExtXVersion::parse_spec(t.render_spec()) == Some(t),
{
    let s = t.render_spec();
    let p = ExtXVersion::prefix_spec();
    assert(s.subrange(0, p.len() as int) =~= p);
    assert(s.subrange(p.len() as int, s.len() as int) =~= t.version.render_spec());
    lemma_version_round_trip(t.version);
}

} // verus!
