//! A byte range attribute value: a length and an optional offset, on
//! the wire `LENGTH` or `LENGTH@OFFSET`. An absent offset is stored as
//! absent; resolving it against a preceding range is the document
//! assembler's business, never this type's.

use vstd::prelude::*;
use crate::error::Error;
use crate::decimal::{dec_render, dec_val, is_dec_str, is_dec_digit, lemma_dec_render_val,
    parse_u64, render_u64};
use crate::text::{find_char, find_char_from, lemma_find_char_bounds, lemma_find_char_first,
    is_quotable};

verus! {

/// A sub-span of a referenced resource: how many bytes, and where they
/// start when the line says so.
#[derive(Debug, Clone, Copy, PartialEq, Eq, Hash)]
pub struct ByteRange {
    pub length: u64,
    pub offset: Option<u64>,
}

impl ByteRange {
    /// Makes a byte range from its two fields.
    pub fn new(length: u64, offset: Option<u64>) -> (r: ByteRange)
        ensures
            r.length == length,
            r.offset == offset,
    {
        ByteRange { length, offset }
    }

    /// The number of bytes in the range.
    pub fn length(&self) -> (r: u64)
        ensures
            r == self.length,
    {
        self.length
    }

    /// The start of the range, exactly as present or absent on the line.
    pub fn offset(&self) -> (r: Option<u64>)
        ensures
            r == self.offset,
    {
        self.offset
    }

    /// The wire text of this range: the length, then `@` and the offset
    /// when one is present.
    pub open spec fn render_spec(self) -> Seq<char> {
        match self.offset {
            Option::Some(o) => dec_render(self.length as int) + seq!['@'] + dec_render(o as int),
            Option::None => dec_render(self.length as int),
        }
    }

    /// The range a wire text denotes, when it denotes one: a decimal
    /// length, optionally followed by `@` and a decimal offset, each
    /// fitting an unsigned 64-bit value.
    pub open spec fn parse_spec(s: Seq<char>) -> Option<ByteRange> {
        let a = find_char_from(s, '@', 0);
        if a == s.len() {
            if is_dec_str(s) && dec_val(s) <= u64::MAX {
                Some(ByteRange { length: dec_val(s) as u64, offset: None })
            } else {
                None
            }
        } else {
            let l = s.subrange(0, a);
            let o = s.subrange(a + 1, s.len() as int);
            if is_dec_str(l) && dec_val(l) <= u64::MAX && is_dec_str(o) && dec_val(o) <= u64::MAX {
                Some(ByteRange { length: dec_val(l) as u64, offset: Some(dec_val(o) as u64) })
            } else {
                None
            }
        }
    }

    /// Renders this range in its wire form.
    pub fn render(&self) -> (r: String)
        ensures
            r@ == self.render_spec(),
    {
        let mut r = render_u64(self.length);
        match self.offset {
            Option::Some(o) => {
                proof {
                    reveal_strlit("@");
                }
                r.append("@");
                let tail = render_u64(o);
                r.append(tail.as_str());
                proof {
                    assert(r@ =~= self.render_spec());
                }
                r
            },
            Option::None => r,
        }
    }

    /// Parses a wire text; anything but one or two in-domain decimal
    /// fields around a single `@` is invalid input.
    pub fn from_str(s: &str) -> (r: Result<ByteRange, Error>)
        ensures
            match r {
                Ok(t) => Self::parse_spec(s@) == Some(t),
                Err(e) => {
                    &&& Self::parse_spec(s@) is None
                    &&& e is InvalidInput
                    &&& e.detail_view() == s@
                },
            },
    {
        let len = s.unicode_len();
        let a = find_char(s, '@');
        proof {
            lemma_find_char_bounds(s@, '@', 0);
        }
        if a == len {
            match parse_u64(s) {
                Ok(n) => Ok(ByteRange { length: n, offset: None }),
                Err(_) => Err(Error::InvalidInput(String::from_str(s))),
            }
        } else {
            let left = s.substring_char(0, a);
            let right = s.substring_char(a + 1, len);
            let length = match parse_u64(left) {
                Ok(n) => n,
                Err(_) => {
                    return Err(Error::InvalidInput(String::from_str(s)));
                },
            };
            let offset = match parse_u64(right) {
                Ok(n) => n,
                Err(_) => {
                    return Err(Error::InvalidInput(String::from_str(s)));
                },
            };
            Ok(ByteRange { length, offset: Some(offset) })
        }
    }
}

/// Digit characters are never the `@` separator.
proof fn lemma_dec_str_no_at(s: Seq<char>)
    requires
        is_dec_str(s),
    ensures
        forall|j: int| 0 <= j < s.len() ==> s[j] != '@',
{
    assert forall|j: int| 0 <= j < s.len() implies s[j] != '@' by {
        assert(is_dec_digit(s[j]));
    }
}

/// A rendered byte range is digits and at most one `@`, so it may stand
/// inside a quoted attribute value.
pub proof fn lemma_byte_range_render_quotable(r: ByteRange)
    ensures
        is_quotable(r.render_spec()),
{
    let s = r.render_spec();
    lemma_dec_render_val(r.length as int);
    match r.offset {
        Option::Some(o) => {
            lemma_dec_render_val(o as int);
            let l = dec_render(r.length as int);
            let t = dec_render(o as int);
            assert forall|j: int| 0 <= j < s.len()
                implies #[trigger] s[j] != '"' && s[j] != '\r' && s[j] != '\n' by {
                if j < l.len() {
                    assert(s[j] == l[j]);
                    assert(is_dec_digit(l[j]));
                } else if j == l.len() {
                    assert(s[j] == '@');
                } else {
                    assert(s[j] == t[j - l.len() - 1]);
                    assert(is_dec_digit(t[j - l.len() - 1]));
                }
            }
        },
        Option::None => {
            assert forall|j: int| 0 <= j < s.len()
                implies #[trigger] s[j] != '"' && s[j] != '\r' && s[j] != '\n' by {
                assert(is_dec_digit(s[j]));
            }
        },
    }
}

/// Rendering any byte range and parsing the text back returns the range.
pub proof fn lemma_byte_range_round_trip(r: ByteRange)
    ensures
        ByteRange::parse_spec(r.render_spec()) == Some(r),
{
    let s = r.render_spec();
    lemma_dec_render_val(r.length as int);
    match r.offset {
        Option::Some(o) => {
            lemma_dec_render_val(o as int);
            let l = dec_render(r.length as int);
            let t = dec_render(o as int);
            let k = l.len() as int;
            lemma_dec_str_no_at(l);
            assert(s[k] == '@');
            assert(forall|j: int| 0 <= j < k ==> s[j] == l[j]);
            lemma_find_char_first(s, '@', 0, k);
            assert(s.subrange(0, k) =~= l);
            assert(s.subrange(k + 1, s.len() as int) =~= t);
        },
        Option::None => {
            lemma_dec_str_no_at(s);
            lemma_find_char_first(s, '@', 0, s.len() as int);
        },
    }
}

} // verus!
