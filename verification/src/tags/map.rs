//! The initialization-map tag: an attribute list with a required
//! quoted `URI` and an optional quoted `BYTERANGE`, plus the
//! decryption-key slot an external document assembler may fill.

use vstd::prelude::*;
use crate::error::Error;
use crate::attribute::{attrs_spec, pairs_view, parse_attribute_pairs, lemma_pairs_quoted_item};
use crate::text::{is_quotable, quote_seq, quote, unquote, unquote_spec, starts_with_str, str_eq};
use crate::types::byte_range::{ByteRange, lemma_byte_range_render_quotable,
    lemma_byte_range_round_trip};
use crate::types::decryption_key::DecryptionKey;
use crate::types::protocol_version::ProtocolVersion;
use crate::text::lemma_unquote_quote;

verus! {

/// What a line means when read as an initialization-map tag.
pub enum MapOutcome {
    /// A valid tag, with its URI value and its byte range if present.
    Tag { uri: Seq<char>, range: Option<ByteRange> },
    /// Grammatically valid, but the required URI attribute never came.
    MissingUri,
    /// Everything else: wrong prefix, broken attribute grammar, or a
    /// malformed attribute value.
    Bad,
}

/// Folds an attribute pair sequence, later occurrences of a key
/// overwriting earlier ones; `None` when a recognized value is
/// malformed. Unrecognized keys are passed over.
pub open spec fn fold_map_pairs(
    pairs: Seq<(Seq<char>, Seq<char>)>,
    uri: Option<Seq<char>>,
    range: Option<ByteRange>,
) -> Option<(Option<Seq<char>>, Option<ByteRange>)>
    decreases pairs.len(),
{
    if pairs.len() == 0 {
        Some((uri, range))
    } else {
        let k = pairs[0].0;
        let v = pairs[0].1;
        if k == "URI"@ {
            match unquote_spec(v) {
                Some(u) => fold_map_pairs(pairs.drop_first(), Some(u), range),
                None => None,
            }
        } else if k == "BYTERANGE"@ {
            match unquote_spec(v) {
                Some(rv) => match ByteRange::parse_spec(rv) {
                    Some(br) => fold_map_pairs(pairs.drop_first(), uri, Some(br)),
                    None => None,
                },
                None => None,
            }
        } else {
            fold_map_pairs(pairs.drop_first(), uri, range)
        }
    }
}

/// The meaning of a whole line read as an initialization-map tag.
pub open spec fn map_parse(s: Seq<char>) -> MapOutcome {
    let p = "#EXT-X-MAP:"@;
    if !(p.len() <= s.len() && s.subrange(0, p.len() as int) == p) {
        MapOutcome::Bad
    } else {
        match attrs_spec(s.subrange(p.len() as int, s.len() as int)) {
            None => MapOutcome::Bad,
            Some(pairs) => match fold_map_pairs(pairs, None, None) {
                None => MapOutcome::Bad,
                Some((None, _)) => MapOutcome::MissingUri,
                Some((Some(u), rng)) => MapOutcome::Tag { uri: u, range: rng },
            },
        }
    }
}

/// The view of an optional accumulated string attribute.
pub open spec fn opt_str_view(o: Option<String>) -> Option<Seq<char>> {
    match o {
        Some(u) => Some(u@),
        None => None,
    }
}

/// The tag that names the media initialization section needed to decode
/// the segments it governs.
#[derive(Debug, Clone, PartialEq, Eq, Hash)]
pub struct ExtXMap {
    pub uri: String,
    pub range: Option<ByteRange>,
    pub keys: Vec<DecryptionKey>,
}

impl ExtXMap {
    /// The fixed wire prefix of the initialization-map tag.
    pub open spec fn prefix_spec() -> Seq<char> {
        "#EXT-X-MAP:"@
    }

    /// A URI value fit for a quoted attribute: the well-formedness every
    /// constructed instance keeps.
    pub open spec fn wf(self) -> bool {
        is_quotable(self.uri@)
    }

    /// The attribute section of this tag's wire form.
    pub open spec fn payload_spec(self) -> Seq<char> {
        "URI"@ + "="@ + quote_seq(self.uri@) + match self.range {
            Some(r) => ","@ + "BYTERANGE"@ + "="@ + quote_seq(r.render_spec()),
            None => Seq::<char>::empty(),
        }
    }

    /// This tag's whole wire line.
    pub open spec fn render_spec(self) -> Seq<char> {
        ExtXMap::prefix_spec() + self.payload_spec()
    }

    /// Makes a tag naming `uri`, with no range and no keys.
    pub fn new(uri: String) -> (r: ExtXMap)
        requires
            is_quotable(uri@),
        ensures
            r.uri == uri,
            r.range is None,
            r.keys@ == Seq::<DecryptionKey>::empty(),
            r.wf(),
    {
        ExtXMap { uri, range: None, keys: Vec::new() }
    }

    /// Makes a tag naming `uri` with the given byte range, and no keys.
    pub fn with_range(uri: String, range: ByteRange) -> (r: ExtXMap)
        requires
            is_quotable(uri@),
        ensures
            r.uri == uri,
            r.range == Some(range),
            r.keys@ == Seq::<DecryptionKey>::empty(),
            r.wf(),
    {
        ExtXMap { uri, range: Some(range), keys: Vec::new() }
    }

    /// The URI of the resource holding the media initialization section.
    pub fn uri(&self) -> (r: &String)
        ensures
            r == &self.uri,
    {
        &self.uri
    }

    /// The byte range of the media initialization section, when given.
    pub fn range(&self) -> (r: Option<ByteRange>)
        ensures
            r == self.range,
    {
        self.range
    }

    /// The decryption-key descriptors currently associated with this
    /// tag instance, in order.
    pub fn keys(&self) -> (r: &Vec<DecryptionKey>)
        ensures
            r == &self.keys,
    {
        &self.keys
    }

    /// Appends one key descriptor to this instance's association slot.
    pub fn push_key(&mut self, key: DecryptionKey)
        ensures
            final(self).keys@ == old(self).keys@.push(key),
            final(self).uri == old(self).uri,
            final(self).range == old(self).range,
    {
        self.keys.push(key);
    }

    /// Replaces this instance's whole key association.
    pub fn set_keys(&mut self, keys: Vec<DecryptionKey>)
        ensures
            final(self).keys == keys,
            final(self).uri == old(self).uri,
            final(self).range == old(self).range,
    {
        self.keys = keys;
    }

    /// The protocol version this tag requires: fixed for the kind,
    /// whatever its fields hold.
    pub fn required_version(&self) -> (r: ProtocolVersion)
        ensures
            r == ProtocolVersion::V6,
    {
        ProtocolVersion::V6
    }

    /// Renders this tag's wire line: the always-quoted URI, then the
    /// quoted byte range when one is present. Keys are association
    /// state, never wire text of this tag.
    pub fn render(&self) -> (r: String)
        ensures
            r@ == self.render_spec(),
    {
        let mut r = String::from_str("#EXT-X-MAP:");
        r.append("URI");
        r.append("=");
        let qu = quote(self.uri.as_str());
        r.append(qu.as_str());
        match &self.range {
            Some(br) => {
                r.append(",");
                r.append("BYTERANGE");
                r.append("=");
                let rv = br.render();
                let qr = quote(rv.as_str());
                r.append(qr.as_str());
            },
            None => {},
        }
        proof {
            assert(r@ =~= self.render_spec());
        }
        r
    }

    /// Parses a line as an initialization-map tag: the prefix must
    /// lead; recognized attribute values must be well formed, later
    /// occurrences overwriting earlier ones; unrecognized keys are
    /// ignored; and the URI must have appeared.
    pub fn from_str(s: &str) -> (r: Result<ExtXMap, Error>)
        ensures
            match r {
                Ok(t) => {
                    &&& map_parse(s@) == (MapOutcome::Tag { uri: t.uri@, range: t.range })
                    &&& t.keys@ == Seq::<DecryptionKey>::empty()
                    &&& t.wf()
                },
                Err(e) => match e {
                    Error::InvalidInput(_) => map_parse(s@) is Bad,
                    Error::MissingValue(n) => map_parse(s@) is MissingUri && n@ == "EXT-X-URI"@,
                },
            },
    {
        if !starts_with_str(s, "#EXT-X-MAP:") {
            return Err(Error::InvalidInput(String::from_str(s)));
        }
        let plen = "#EXT-X-MAP:".unicode_len();
        let len = s.unicode_len();
        let payload = s.substring_char(plen, len);
        let pairs = match parse_attribute_pairs(payload) {
            Ok(v) => v,
            Err(e) => {
                return Err(e);
            },
        };
        let ghost pv = pairs_view(pairs@);
        let mut uri_acc: Option<String> = None;
        let mut range_acc: Option<ByteRange> = None;
        let n = pairs.len();
        let mut i: usize = 0;
        proof {
            assert(pv.skip(0) =~= pv);
        }
        while i < n
            invariant
                i <= n,
                n == pairs.len(),
                pv == pairs_view(pairs@),
                "#EXT-X-MAP:"@.len() <= s@.len(),
                s@.subrange(0, "#EXT-X-MAP:"@.len() as int) == "#EXT-X-MAP:"@,
                attrs_spec(s@.subrange("#EXT-X-MAP:"@.len() as int, s@.len() as int))
                    == Some(pv),
                fold_map_pairs(pv, None, None)
                    == fold_map_pairs(pv.skip(i as int), opt_str_view(uri_acc), range_acc),
                match uri_acc {
                    Some(u) => is_quotable(u@),
                    None => true,
                },
            decreases n - i,
        {
            proof {
                assert(pv.skip(i as int)[0] == pv[i as int]);
                assert(pv.skip(i as int).drop_first() =~= pv.skip(i as int + 1));
            }
            let kv: &(String, String) = &pairs[i];
            if str_eq(kv.0.as_str(), "URI") {
                match unquote(kv.1.as_str()) {
                    Ok(u) => {
                        uri_acc = Some(u);
                    },
                    Err(e) => {
                        proof {
                            assert(fold_map_pairs(
                                pv.skip(i as int), opt_str_view(uri_acc), range_acc) is None);
                            assert(map_parse(s@) is Bad);
                        }
                        return Err(e);
                    },
                }
            } else if str_eq(kv.0.as_str(), "BYTERANGE") {
                let rv = match unquote(kv.1.as_str()) {
                    Ok(rv) => rv,
                    Err(e) => {
                        proof {
                            assert(fold_map_pairs(
                                pv.skip(i as int), opt_str_view(uri_acc), range_acc) is None);
                            assert(map_parse(s@) is Bad);
                        }
                        return Err(e);
                    },
                };
                match ByteRange::from_str(rv.as_str()) {
                    Ok(br) => {
                        range_acc = Some(br);
                    },
                    Err(e) => {
                        proof {
                            assert(fold_map_pairs(
                                pv.skip(i as int), opt_str_view(uri_acc), range_acc) is None);
                            assert(map_parse(s@) is Bad);
                        }
                        return Err(e);
                    },
                }
            }
            i = i + 1;
        }
        proof {
            assert(pv.skip(n as int) =~= Seq::<(Seq<char>, Seq<char>)>::empty());
        }
        match uri_acc {
            Some(u) => Ok(ExtXMap { uri: u, range: range_acc, keys: Vec::new() }),
            None => Err(Error::MissingValue(String::from_str("EXT-X-URI"))),
        }
    }
}

/// An attribute pair whose key is neither `URI` nor `BYTERANGE` never
/// changes what an initialization-map line means: the dialect's
/// forward-compatibility rule that unknown attribute names are ignored.
pub proof fn lemma_unrecognized_key_ignored(
    k: Seq<char>,
    v: Seq<char>,
    rest: Seq<(Seq<char>, Seq<char>)>,
    uri: Option<Seq<char>>,
    range: Option<ByteRange>,
)
    requires
        k != "URI"@,
        k != "BYTERANGE"@,
    ensures
        fold_map_pairs(seq![(k, v)] + rest, uri, range) == fold_map_pairs(rest, uri, range),
{
    let ps = seq![(k, v)] + rest;
    assert(ps[0] == (k, v));
    assert(ps.drop_first() =~= rest);
}

/// When the `URI` key repeats, the last occurrence wins: a further
/// well-formed `URI` pair at the end overrides whatever URI the pairs
/// before it produced, and leaves the range alone.
pub proof fn lemma_later_uri_wins(
    ps: Seq<(Seq<char>, Seq<char>)>,
    v: Seq<char>,
    w: Seq<char>,
    uri: Option<Seq<char>>,
    range: Option<ByteRange>,
)
    requires
        unquote_spec(v) == Some(w),
        fold_map_pairs(ps, uri, range) is Some,
    ensures
        match fold_map_pairs(ps, uri, range) {
            Some((u, r)) => fold_map_pairs(ps.push(("URI"@, v)), uri, range)
                == Some((Some(w), r)),
            None => false,
        },
    decreases ps.len(),
{
    let q = ps.push(("URI"@, v));
    if ps.len() == 0 {
        assert(q[0] == ("URI"@, v));
        assert(q.drop_first() =~= Seq::<(Seq<char>, Seq<char>)>::empty());
        assert(fold_map_pairs(q.drop_first(), Some(w), range) == Some((Some(w), range)));
        assert(fold_map_pairs(q, uri, range) == Some((Some(w), range)));
        assert(fold_map_pairs(ps, uri, range) == Some((uri, range)));
    } else {
        let k = ps[0].0;
        let v0 = ps[0].1;
        assert(q[0] == ps[0]);
        assert(q.drop_first() =~= ps.drop_first().push(("URI"@, v)));
        if k == "URI"@ {
            match unquote_spec(v0) {
                Some(u1) => {
                    lemma_later_uri_wins(ps.drop_first(), v, w, Some(u1), range);
                },
                None => {
                    assert(false);
                },
            }
        } else if k == "BYTERANGE"@ {
            match unquote_spec(v0) {
                Some(rv) => match ByteRange::parse_spec(rv) {
                    Some(br) => {
                        lemma_later_uri_wins(ps.drop_first(), v, w, uri, Some(br));
                    },
                    None => {
                        assert(false);
                    },
                },
                None => {
                    assert(false);
                },
            }
        } else {
            lemma_later_uri_wins(ps.drop_first(), v, w, uri, range);
        }
    }
}

/// Rendering a constructed map tag and parsing the line back returns
/// the same URI and range; a constructed tag carries no keys, and the
/// line carries none either.
pub proof fn lemma_map_round_trip(t: ExtXMap)
    requires
        t.wf(),
    ensures
        map_parse(t.render_spec()) == (MapOutcome::Tag { uri: t.uri@, range: t.range }),
{
    reveal_strlit("URI");
    reveal_strlit("BYTERANGE");
    let s = t.render_spec();
    let p = "#EXT-X-MAP:"@;
    let pay = t.payload_spec();
    assert(s.subrange(0, p.len() as int) =~= p);
    assert(s.subrange(p.len() as int, s.len() as int) =~= pay);
    assert("URI"@.len() == 3);
    assert("URI"@[0] == 'U' && "URI"@[1] == 'R' && "URI"@[2] == 'I');
    assert(forall|j: int| 0 <= j < 3
        ==> #[trigger] "URI"@[j] != ',' && "URI"@[j] != '"' && "URI"@[j] != '=');
    lemma_unquote_quote(t.uri@);
    match t.range {
        Some(br) => {
            let rv = br.render_spec();
            lemma_byte_range_render_quotable(br);
            lemma_byte_range_round_trip(br);
            lemma_unquote_quote(rv);
            assert("BYTERANGE"@.len() == 9);
            assert(forall|j: int| 0 <= j < 9
                ==> #[trigger] "BYTERANGE"@[j] != ',' && "BYTERANGE"@[j] != '"'
                    && "BYTERANGE"@[j] != '=');
            let rest = "BYTERANGE"@ + "="@ + quote_seq(rv);
            lemma_pairs_quoted_item("BYTERANGE"@, rv, Seq::<char>::empty());
            lemma_pairs_quoted_item("URI"@, t.uri@, rest);
            assert(pay =~= "URI"@ + "="@ + quote_seq(t.uri@) + ","@ + rest);
            let ps = seq![("URI"@, quote_seq(t.uri@)), ("BYTERANGE"@, quote_seq(rv))];
            assert(seq![("URI"@, quote_seq(t.uri@))] + seq![("BYTERANGE"@, quote_seq(rv))]
                =~= ps);
            assert(attrs_spec(pay) == Some(ps));
            assert("BYTERANGE"@ != "URI"@);
            assert(ps.drop_first() =~= seq![("BYTERANGE"@, quote_seq(rv))]);
            assert(ps.drop_first().drop_first() =~= Seq::<(Seq<char>, Seq<char>)>::empty());
            assert(fold_map_pairs(ps.drop_first().drop_first(), Some(t.uri@), Some(br))
                == Some((Some(t.uri@), Some(br))));
            assert(fold_map_pairs(ps.drop_first(), Some(t.uri@), None::<ByteRange>)
                == Some((Some(t.uri@), Some(br))));
            assert(fold_map_pairs(ps, None, None) == Some((Some(t.uri@), Some(br))));
        },
        None => {
            lemma_pairs_quoted_item("URI"@, t.uri@, Seq::<char>::empty());
            assert(pay =~= "URI"@ + "="@ + quote_seq(t.uri@));
            let ps = seq![("URI"@, quote_seq(t.uri@))];
            assert(attrs_spec(pay) == Some(ps));
            assert(ps.drop_first() =~= Seq::<(Seq<char>, Seq<char>)>::empty());
            assert(fold_map_pairs(ps.drop_first(), Some(t.uri@), None::<ByteRange>)
                == Some((Some(t.uri@), None::<ByteRange>)));
            assert(fold_map_pairs(ps, None, None) == Some((Some(t.uri@), None::<ByteRange>)));
        },
    }
}

} // verus!
