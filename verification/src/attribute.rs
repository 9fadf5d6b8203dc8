//! The attribute-list parser: the comma-separated `KEY=VALUE` section
//! of a tag line, split into an ordered sequence of key / raw-value
//! pairs. A quoted span is opaque to embedded commas and equals signs;
//! value contents are never validated here, and unrecognized keys are
//! never rejected — both are the calling tag's business.

use vstd::prelude::*;
use crate::error::Error;
use crate::text::{find_char, find_char_from, lemma_find_char_bounds, lemma_find_char_first,
    is_quotable, quote_seq};

verus! {

/// The index of the item boundary from `i` on: the first comma outside
/// a quoted span (`inq` says whether `i` sits inside one), or the end.
pub open spec fn seg_end(s: Seq<char>, i: int, inq: bool) -> int
    decreases s.len() - i,
{
    if i < 0 || i >= s.len() {
        s.len() as int
    } else if !inq && s[i] == ',' {
        i
    } else {
        seg_end(s, i + 1, if s[i] == '"' { !inq } else { inq })
    }
}

/// Whether a quoted span is still open when the item boundary from `i`
/// is reached: the missing-closing-quote condition.
pub open spec fn seg_open(s: Seq<char>, i: int, inq: bool) -> bool
    decreases s.len() - i,
{
    if i < 0 || i >= s.len() {
        inq
    } else if !inq && s[i] == ',' {
        false
    } else {
        seg_open(s, i + 1, if s[i] == '"' { !inq } else { inq })
    }
}

/// The item boundary lies between `i` and the end, and is a comma when
/// it is not the end.
pub proof fn lemma_seg_end_bounds(s: Seq<char>, i: int, inq: bool)
    requires
        0 <= i <= s.len(),
    ensures
        i <= seg_end(s, i, inq) <= s.len(),
        seg_end(s, i, inq) < s.len() ==> s[seg_end(s, i, inq)] == ',',
    decreases s.len() - i,
{
    if i < s.len() && !(!inq && s[i] == ',') {
        lemma_seg_end_bounds(s, i + 1, if s[i] == '"' { !inq } else { inq });
    }
}

/// Scanning may jump over a stretch that changes nothing: no quote, and
/// no comma unless quoted.
pub proof fn lemma_seg_skip(s: Seq<char>, i: int, j: int, inq: bool)
    requires
        0 <= i <= j <= s.len(),
        forall|k: int| i <= k < j ==> #[trigger] s[k] != '"' && (inq || s[k] != ','),
    ensures
        seg_end(s, i, inq) == seg_end(s, j, inq),
        seg_open(s, i, inq) == seg_open(s, j, inq),
    decreases j - i,
{
    if i < j {
        lemma_seg_skip(s, i + 1, j, inq);
    }
}

/// Scanning a suffix on its own lands where scanning it in place does.
pub proof fn lemma_seg_shift(s: Seq<char>, i: int, j: int, inq: bool)
    requires
        0 <= i <= j <= s.len(),
    ensures
        seg_end(s.subrange(i, s.len() as int), j - i, inq) == seg_end(s, j, inq) - i,
        seg_open(s.subrange(i, s.len() as int), j - i, inq) == seg_open(s, j, inq),
    decreases s.len() - j,
{
    let t = s.subrange(i, s.len() as int);
    if j < s.len() {
        assert(t[j - i] == s[j]);
        if !(!inq && s[j] == ',') {
            lemma_seg_shift(s, i, j + 1, if s[j] == '"' { !inq } else { inq });
        }
    }
}

/// The key / raw-value pairs of the attribute text from `i` on, or
/// nothing when the grammar is broken there: an unclosed quote, or an
/// item with no equals sign.
pub open spec fn pairs_from(s: Seq<char>, i: int) -> Option<Seq<(Seq<char>, Seq<char>)>>
    decreases s.len() - i,
    when 0 <= i <= s.len()
    via pairs_from_decreases
{
    let e = seg_end(s, i, false);
    if seg_open(s, i, false) {
        None
    } else {
        let item = s.subrange(i, e);
        let q = find_char_from(item, '=', 0);
        if q >= item.len() {
            None
        } else {
            let pair = (item.subrange(0, q), item.subrange(q + 1, item.len() as int));
            if e < s.len() {
                match pairs_from(s, e + 1) {
                    Some(rest) => Some(seq![pair] + rest),
                    None => None,
                }
            } else {
                Some(seq![pair])
            }
        }
    }
}

#[via_fn]
proof fn pairs_from_decreases(s: Seq<char>, i: int) {
    lemma_seg_end_bounds(s, i, false);
}

/// Parsing a suffix on its own yields what parsing it in place does.
pub proof fn lemma_pairs_shift(s: Seq<char>, i: int, j: int)
    requires
        0 <= i <= j <= s.len(),
    ensures
        pairs_from(s, j) == pairs_from(s.subrange(i, s.len() as int), j - i),
    decreases s.len() - j,
{
    let t = s.subrange(i, s.len() as int);
    let e = seg_end(s, j, false);
    lemma_seg_end_bounds(s, j, false);
    lemma_seg_shift(s, i, j, false);
    if !seg_open(s, j, false) {
        let item_s = s.subrange(j, e);
        let item_t = t.subrange(j - i, e - i);
        assert(item_t =~= item_s);
        let q = find_char_from(item_s, '=', 0);
        if q < item_s.len() {
            if e < s.len() {
                lemma_pairs_shift(s, i, e + 1);
            }
        }
    }
}

/// One `KEY="VALUE"` item: alone it denotes its single pair; followed
/// by a comma and more text, the pair and then whatever the rest
/// denotes.
pub proof fn lemma_pairs_quoted_item(key: Seq<char>, val: Seq<char>, rest: Seq<char>)
    requires
        key.len() > 0,
        forall|k: int| 0 <= k < key.len()
            ==> #[trigger] key[k] != ',' && key[k] != '"' && key[k] != '=',
        is_quotable(val),
    ensures
        pairs_from(key + "="@ + quote_seq(val), 0) == Some(seq![(key, quote_seq(val))]),
        rest.len() > 0 ==> pairs_from(key + "="@ + quote_seq(val) + ","@ + rest, 0)
            == match pairs_from(rest, 0) {
                Some(ps) => Some(seq![(key, quote_seq(val))] + ps),
                None => None,
            },
{
    reveal_strlit("=");
    reveal_strlit(",");
    let q = quote_seq(val);
    let s1 = key + "="@ + q;
    let k = key.len() as int;
    let vl = val.len() as int;
    assert(s1.len() == k + 3 + vl);
    assert(forall|j: int| 0 <= j < k ==> #[trigger] s1[j] == key[j]);
    assert(s1[k] == '=');
    assert(s1[k + 1] == '"');
    assert(forall|j: int| 0 <= j < vl ==> #[trigger] s1[k + 2 + j] == val[j]);
    assert(s1[k + 2 + vl] == '"');

    // the item boundary of the lone item is the end of the text
    lemma_seg_skip(s1, 0, k, false);
    assert(seg_end(s1, k, false) == seg_end(s1, k + 1, false));
    assert(seg_end(s1, k + 1, false) == seg_end(s1, k + 2, true));
    assert(forall|j: int| k + 2 <= j < k + 2 + vl ==> #[trigger] s1[j] != '"');
    lemma_seg_skip(s1, k + 2, k + 2 + vl, true);
    assert(seg_end(s1, k + 2 + vl, true) == seg_end(s1, k + 3 + vl, false));
    assert(seg_end(s1, k + 3 + vl, false) == s1.len());
    assert(seg_open(s1, k, false) == seg_open(s1, k + 1, false));
    assert(seg_open(s1, k + 1, false) == seg_open(s1, k + 2, true));
    assert(seg_open(s1, k + 2 + vl, true) == seg_open(s1, k + 3 + vl, false));
    assert(!seg_open(s1, k + 3 + vl, false));
    assert(seg_end(s1, 0, false) == s1.len());
    assert(!seg_open(s1, 0, false));

    // the item splits at the equals sign after the key
    let item1 = s1.subrange(0, s1.len() as int);
    assert(item1 =~= s1);
    lemma_find_char_first(s1, '=', 0, k);
    assert(find_char_from(item1, '=', 0) == k);
    assert(item1.subrange(0, k) =~= key);
    assert(item1.subrange(k + 1, item1.len() as int) =~= q);
    assert(pairs_from(s1, 0) == Some(seq![(key, q)]));

    if rest.len() > 0 {
        let s2 = s1 + ","@ + rest;
        assert(s2.len() == s1.len() + 1 + rest.len());
        assert(forall|j: int| 0 <= j < s1.len() ==> #[trigger] s2[j] == s1[j]);
        assert(s2[s1.len() as int] == ',');

        assert(forall|j: int| 0 <= j < k
            ==> #[trigger] s2[j] != '"' && s2[j] != ',' && s2[j] != '=');
        lemma_seg_skip(s2, 0, k, false);
        assert(seg_end(s2, k, false) == seg_end(s2, k + 1, false));
        assert(seg_end(s2, k + 1, false) == seg_end(s2, k + 2, true));
        assert(forall|j: int| k + 2 <= j < k + 2 + vl ==> #[trigger] s2[j] != '"');
        lemma_seg_skip(s2, k + 2, k + 2 + vl, true);
        assert(seg_end(s2, k + 2 + vl, true) == seg_end(s2, k + 3 + vl, false));
        assert(seg_end(s2, k + 3 + vl, false) == k + 3 + vl);
        assert(seg_end(s2, 0, false) == s1.len());
        assert(seg_open(s2, k, false) == seg_open(s2, k + 1, false));
        assert(seg_open(s2, k + 1, false) == seg_open(s2, k + 2, true));
        assert(seg_open(s2, k + 2 + vl, true) == seg_open(s2, k + 3 + vl, false));
        assert(!seg_open(s2, k + 3 + vl, false));
        assert(!seg_open(s2, 0, false));

        let item2 = s2.subrange(0, s1.len() as int);
        assert(item2 =~= s1);
        assert(find_char_from(item2, '=', 0) == k);
        assert(item2.subrange(0, k) =~= key);
        assert(item2.subrange(k + 1, item2.len() as int) =~= q);

        lemma_pairs_shift(s2, s1.len() as int + 1, s1.len() as int + 1);
        assert(s2.subrange(s1.len() as int + 1, s2.len() as int) =~= rest);
        assert(pairs_from(s2, s1.len() as int + 1) == pairs_from(rest, 0));
        match pairs_from(rest, 0) {
            Some(ps) => {
                assert(pairs_from(s2, 0) == Some(seq![(key, q)] + ps));
            },
            None => {
                assert(pairs_from(s2, 0) is None);
            },
        }
    }
}

/// The pairs denoted by a whole attribute section; empty text denotes
/// no pairs at all.
pub open spec fn attrs_spec(s: Seq<char>) -> Option<Seq<(Seq<char>, Seq<char>)>> {
    if s.len() == 0 {
        Some(Seq::empty())
    } else {
        pairs_from(s, 0)
    }
}

/// The character sequences held by a vector of key / raw-value pairs.
pub open spec fn pairs_view(v: Seq<(String, String)>) -> Seq<(Seq<char>, Seq<char>)> {
    Seq::new(v.len(), |i: int| (v[i].0@, v[i].1@))
}

/// The item boundary from `from`, and whether a quote was left open on
/// the way there.
fn find_seg(s: &str, from: usize) -> (r: (usize, bool))
    requires
        from as int <= s@.len(),
    ensures
        r.0 as int == seg_end(s@, from as int, false),
        r.1 == seg_open(s@, from as int, false),
{
    let len = s.unicode_len();
    let mut i: usize = from;
    let mut inq: bool = false;
    while i < len
        invariant
            from <= i <= len,
            len == s@.len(),
            seg_end(s@, from as int, false) == seg_end(s@, i as int, inq),
            seg_open(s@, from as int, false) == seg_open(s@, i as int, inq),
        decreases len - i,
    {
        let c = s.get_char(i);
        if !inq && c == ',' {
            return (i, false);
        }
        if c == '"' {
            inq = !inq;
        }
        i = i + 1;
    }
    (i, inq)
}

/// Parses the items from `from` on, one pair per item, front to back.
fn parse_pairs_from(s: &str, from: usize) -> (r: Result<Vec<(String, String)>, Error>)
    requires
        from as int <= s@.len(),
    ensures
        match r {
            Ok(v) => pairs_from(s@, from as int) == Some(pairs_view(v@)),
            Err(e) => {
                &&& pairs_from(s@, from as int) is None
                &&& e is InvalidInput
                &&& e.detail_view() == s@
            },
        },
    decreases s@.len() - from,
{
    let len = s.unicode_len();
    let (e, open) = find_seg(s, from);
    proof {
        lemma_seg_end_bounds(s@, from as int, false);
    }
    if open {
        return Err(Error::InvalidInput(String::from_str(s)));
    }
    let item = s.substring_char(from, e);
    let item_len = item.unicode_len();
    let q = find_char(item, '=');
    proof {
        lemma_find_char_bounds(item@, '=', 0);
    }
    if q == item_len {
        return Err(Error::InvalidInput(String::from_str(s)));
    }
    let key = String::from_str(item.substring_char(0, q));
    let raw = String::from_str(item.substring_char(q + 1, item_len));
    if e < len {
        match parse_pairs_from(s, e + 1) {
            Ok(mut rest) => {
                let ghost tail = pairs_view(rest@);
                rest.insert(0, (key, raw));
                proof {
                    assert(pairs_view(rest@) =~= seq![(key@, raw@)] + tail);
                }
                Ok(rest)
            },
            Err(er) => Err(er),
        }
    } else {
        let mut v: Vec<(String, String)> = Vec::new();
        v.push((key, raw));
        proof {
            assert(pairs_view(v@) =~= seq![(key@, raw@)]);
        }
        Ok(v)
    }
}

/// Parses a whole attribute section into its ordered key / raw-value
/// pairs; fails exactly on an unclosed quote or an item with no equals
/// sign, and never rejects a key it does not know.
pub fn parse_attribute_pairs(s: &str) -> (r: Result<Vec<(String, String)>, Error>)
    ensures
        match r {
            Ok(v) => attrs_spec(s@) == Some(pairs_view(v@)),
            Err(e) => {
                &&& attrs_spec(s@) is None
                &&& e is InvalidInput
                &&& e.detail_view() == s@
            },
        },
{
    if s.unicode_len() == 0 {
        let v: Vec<(String, String)> = Vec::new();
        proof {
            assert(pairs_view(v@) =~= Seq::<(Seq<char>, Seq<char>)>::empty());
        }
        Ok(v)
    } else {
        parse_pairs_from(s, 0)
    }
}

} // verus!
